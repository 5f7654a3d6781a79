use vstd::prelude::*;
use vstd::string::StringExecFns;

verus! {

/// The order of strings: by the first character in which they differ, a
/// character of lower code point coming first, and a proper prefix before
/// what it is a prefix of.
pub open spec fn before(a: Seq<char>, b: Seq<char>) -> bool
    decreases a.len(),
{
    if b.len() == 0 {
        false
    } else if a.len() == 0 {
        true
    } else if a[0] != b[0] {
        (a[0] as int) < (b[0] as int)
    } else {
        before(a.drop_first(), b.drop_first())
    }
}

/// `<` on `String`, which orders strings by their bytes and so, as the
/// encoding keeps the order of code points, by their characters.
#[verifier::external_body]
fn comes_before(a: &String, b: &String) -> (earlier: bool)
    ensures
        earlier == before(a@, b@),
{
    a < b
}

/// Of two different strings one comes before the other.
pub proof fn lemma_before_total(a: Seq<char>, b: Seq<char>)
    requires
        a != b,
    ensures
        before(a, b) || before(b, a),
    decreases a.len(),
{
    if a.len() > 0 && b.len() > 0 && a[0] == b[0] {
        assert(a.drop_first() != b.drop_first()) by {
            if a.drop_first() == b.drop_first() {
                assert(a =~= seq![a[0]] + a.drop_first());
                assert(b =~= seq![b[0]] + b.drop_first());
            }
        }
        lemma_before_total(a.drop_first(), b.drop_first());
    } else if a.len() == 0 && b.len() == 0 {
        assert(a =~= b);
    } else if a.len() > 0 && b.len() > 0 {
        assert(a[0] as int != b[0] as int);
    }
}

/// What comes before an earlier string comes before a later one.
pub proof fn lemma_before_transitive(a: Seq<char>, b: Seq<char>, c: Seq<char>)
    requires
        before(a, b),
        before(b, c),
    ensures
        before(a, c),
    decreases a.len(),
{
    if a.len() > 0 && b.len() > 0 && c.len() > 0 {
        if a[0] == b[0] && b[0] == c[0] {
            lemma_before_transitive(a.drop_first(), b.drop_first(), c.drop_first());
        }
    }
}

/// The keys of `entries` stand in ascending order.
pub open spec fn ascending(entries: Seq<(Seq<char>, Seq<char>)>) -> bool {
    forall|i: int, j: int|
        0 <= i < j < entries.len() ==> before((#[trigger] entries[i]).0, (#[trigger] entries[j]).0)
}

/// The number of keys of `entries` that come before `key`.
pub open spec fn rank(entries: Seq<(Seq<char>, Seq<char>)>, key: Seq<char>) -> int
    decreases entries.len(),
{
    if entries.len() == 0 {
        0
    } else {
        rank(entries.drop_last(), key) + if before(entries.last().0, key) {
            1int
        } else {
            0int
        }
    }
}

/// `entries` with `value` under `key`: in place of the value that the key
/// had, or at the key's place in the order.
pub open spec fn with(entries: Seq<(Seq<char>, Seq<char>)>, key: Seq<char>, value: Seq<char>) -> Seq<
    (Seq<char>, Seq<char>),
> {
    let at = rank(entries, key);
    if at < entries.len() && entries[at].0 == key {
        entries.update(at, (key, value))
    } else {
        entries.insert(at, (key, value))
    }
}

/// `entries` as a query string: `key=value` for each, with `&` between.
pub open spec fn joined(entries: Seq<(Seq<char>, Seq<char>)>) -> Seq<char>
    decreases entries.len(),
{
    if entries.len() == 0 {
        Seq::empty()
    } else if entries.len() == 1 {
        entries[0].0 + seq!['='] + entries[0].1
    } else {
        joined(entries.drop_last()) + seq!['&'] + entries.last().0 + seq!['='] + entries.last().1
    }
}

/// In ascending entries the rank of a key is the place of the first key
/// that does not come before it.
pub proof fn lemma_rank(entries: Seq<(Seq<char>, Seq<char>)>, key: Seq<char>)
    requires
        ascending(entries),
    ensures
        0 <= rank(entries, key) <= entries.len(),
        forall|i: int| 0 <= i < rank(entries, key) ==> before((#[trigger] entries[i]).0, key),
        forall|i: int|
            rank(entries, key) <= i < entries.len() ==> !before((#[trigger] entries[i]).0, key),
    decreases entries.len(),
{
    if entries.len() > 0 {
        let front = entries.drop_last();
        assert(ascending(front)) by {
            assert forall|i: int, j: int| 0 <= i < j < front.len() implies before(
                (#[trigger] front[i]).0,
                (#[trigger] front[j]).0,
            ) by {
                assert(front[i] == entries[i]);
                assert(front[j] == entries[j]);
            }
        }
        lemma_rank(front, key);
        let last = entries.len() - 1;
        if before(entries.last().0, key) {
            assert forall|i: int| 0 <= i < front.len() implies before((#[trigger] entries[i]).0, key) by {
                lemma_before_transitive(entries[i].0, entries[last].0, key);
            }
            assert(rank(front, key) == front.len()) by {
                if rank(front, key) < front.len() {
                    assert(!before(front[rank(front, key)].0, key));
                    assert(front[rank(front, key)] == entries[rank(front, key)]);
                }
            }
        } else {
            assert forall|i: int| rank(entries, key) <= i < entries.len() implies !before(
                (#[trigger] entries[i]).0,
                key,
            ) by {
                if i < last {
                    assert(front[i] == entries[i]);
                }
            }
        }
        assert forall|i: int| 0 <= i < rank(entries, key) implies before(
            (#[trigger] entries[i]).0,
            key,
        ) by {
            if i < last {
                assert(front[i] == entries[i]);
            }
        }
    }
}

/// Putting a value under a key keeps the keys in ascending order.
pub proof fn lemma_with_ascending(entries: Seq<(Seq<char>, Seq<char>)>, key: Seq<char>, value: Seq<char>)
    requires
        ascending(entries),
    ensures
        ascending(with(entries, key, value)),
{
    lemma_rank(entries, key);
    let at = rank(entries, key);
    let next = with(entries, key, value);
    if at < entries.len() && entries[at].0 == key {
        assert forall|i: int, j: int| 0 <= i < j < next.len() implies before(
            (#[trigger] next[i]).0,
            (#[trigger] next[j]).0,
        ) by {
            assert(next[i].0 == entries[i].0);
            assert(next[j].0 == entries[j].0);
        }
    } else {
        assert forall|i: int, j: int| 0 <= i < j < next.len() implies before(
            (#[trigger] next[i]).0,
            (#[trigger] next[j]).0,
        ) by {
            if j < at {
                assert(next[i] == entries[i] && next[j] == entries[j]);
            } else if j == at {
                assert(next[i] == entries[i]);
            } else if i == at {
                assert(next[j] == entries[j - 1]);
                assert(!before(entries[j - 1].0, key));
                if j - 1 == at {
                    lemma_before_total(entries[j - 1].0, key);
                } else {
                    assert(!before(entries[at].0, key));
                    lemma_before_total(entries[at].0, key);
                    lemma_before_transitive(key, entries[at].0, entries[j - 1].0);
                }
            } else if i < at {
                assert(next[i] == entries[i] && next[j] == entries[j - 1]);
            } else {
                assert(next[i] == entries[i - 1] && next[j] == entries[j - 1]);
            }
        }
    }
}

/// The parameters of a request, by key and in the order of their keys.
#[derive(Debug)]
pub struct ParamMap {
    entries: Vec<(String, String)>,
}

impl View for ParamMap {
    type V = Seq<(Seq<char>, Seq<char>)>;

    closed spec fn view(&self) -> Seq<(Seq<char>, Seq<char>)> {
        Seq::new(self.entries@.len(), |i: int| (self.entries@[i].0@, self.entries@[i].1@))
    }
}

impl ParamMap {
    /// The keys stand in ascending order, none twice.
    pub open spec fn wf(&self) -> bool {
        ascending(self@)
    }

    pub fn new() -> (params: ParamMap)
        ensures
            params.wf(),
            params@ == Seq::<(Seq<char>, Seq<char>)>::empty(),
    {
        let params = ParamMap { entries: Vec::new() };
        assert(params@ =~= Seq::<(Seq<char>, Seq<char>)>::empty());
        params
    }

    pub fn len(&self) -> (len: usize)
        ensures
            len == self@.len(),
    {
        self.entries.len()
    }

    /// The key and the value at `slot`.
    pub fn entry(&self, slot: usize) -> (entry: (&String, &String))
        requires
            slot < self@.len(),
        ensures
            entry.0@ == self@[slot as int].0,
            entry.1@ == self@[slot as int].1,
    {
        (&self.entries[slot].0, &self.entries[slot].1)
    }

    /// Puts `value` under `key`, in place of the value that the key had.
    pub fn insert(&mut self, key: String, value: String)
        requires
            old(self).wf(),
        ensures
            final(self).wf(),
            final(self)@ == with(old(self)@, key@, value@),
    {
        let ghost before_all = self@;
        proof {
            lemma_rank(before_all, key@);
            lemma_with_ascending(before_all, key@, value@);
        }
        let mut at: usize = 0;
        while at < self.entries.len() && comes_before(&self.entries[at].0, &key)
            invariant
                at <= self.entries.len(),
                self@ == before_all,
                forall|i: int| 0 <= i < at ==> before((#[trigger] before_all[i]).0, key@),
            decreases self.entries.len() - at,
        {
            assert(before_all[at as int].0 == self.entries@[at as int].0@);
            at += 1;
        }
        proof {
            if at < self.entries.len() {
                assert(before_all[at as int].0 == self.entries@[at as int].0@);
                assert(!before(before_all[at as int].0, key@));
            }
            let expected = rank(before_all, key@);
            if at < expected {
                assert(before(before_all[at as int].0, key@));
            }
            if expected < at {
                assert(!before(before_all[expected].0, key@));
            }
            assert(at == expected);
        }
        if at < self.entries.len() && self.entries[at].0 == key {
            self.entries.set(at, (key, value));
            assert(self@ =~= before_all.update(at as int, (key@, value@)));
        } else {
            self.entries.insert(at, (key, value));
            assert(self@ =~= before_all.insert(at as int, (key@, value@)));
        }
    }

    /// The parameters as a query string.
    pub fn query(&self) -> (text: String)
        ensures
            text@ == joined(self@),
    {
        let mut text = String::new();
        let mut i: usize = 0;
        proof {
            reveal_strlit("=");
            reveal_strlit("&");
            assert(self@.take(0) =~= Seq::<(Seq<char>, Seq<char>)>::empty());
        }
        while i < self.entries.len()
            invariant
                i <= self.entries.len(),
                text@ == joined(self@.take(i as int)),
            decreases self.entries.len() - i,
        {
            let ghost so_far = text@;
            if i > 0 {
                text.append("&");
            }
            text.append(self.entries[i].0.as_str());
            text.append("=");
            text.append(self.entries[i].1.as_str());
            proof {
                reveal_strlit("=");
                reveal_strlit("&");
                let next = self@.take(i + 1);
                assert(next.drop_last() =~= self@.take(i as int));
                assert(next.last() == self@[i as int]);
                assert("="@ =~= seq!['=']);
                assert("&"@ =~= seq!['&']);
                if i == 0 {
                    assert(next[0] == self@[0]);
                    assert(text@ =~= next[0].0 + seq!['='] + next[0].1);
                } else {
                    assert(text@ =~= so_far + seq!['&'] + next.last().0 + seq!['='] + next.last().1);
                }
            }
            i += 1;
        }
        assert(self@.take(i as int) =~= self@);
        text
    }
}

} // verus!
