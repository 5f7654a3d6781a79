use vstd::prelude::*;

verus! {

/// The slot that a registry's index holds for each name.
pub uninterp spec fn slots(index: hashbrown::HashMap<String, usize>) -> Map<Seq<char>, usize>;

/// The index without names.
pub open spec fn no_slots() -> Map<Seq<char>, usize> {
    Map::empty()
}

/// What a lookup of `name` in an index returns.
pub open spec fn slot_of(index: Map<Seq<char>, usize>, name: Seq<char>) -> Option<usize> {
    if index.dom().contains(name) {
        Some(index[name])
    } else {
        None
    }
}

/// `hashbrown::HashMap::new`: the map it returns holds nothing.
#[verifier::external_body]
fn slots_new() -> (fresh: hashbrown::HashMap<String, usize>)
    ensures
        slots(fresh) == no_slots(),
{
    hashbrown::HashMap::new()
}

/// `hashbrown::HashMap::insert`: the name then maps to the new slot, every
/// other name is untouched, and the slot that the name had before comes
/// back.
#[verifier::external_body]
fn slots_insert(index: &mut hashbrown::HashMap<String, usize>, name: String, slot: usize) -> (previous:
    Option<usize>)
    ensures
        slots(*final(index)) == slots(*old(index)).insert(name@, slot),
        previous == slot_of(slots(*old(index)), name@),
{
    index.insert(name, slot)
}

/// `hashbrown::HashMap::get`: the slot stored under the name, if any.
#[verifier::external_body]
fn slots_get(index: &hashbrown::HashMap<String, usize>, name: &String) -> (found: Option<usize>)
    ensures
        found == slot_of(slots(*index), name@),
{
    index.get(name).copied()
}

/// Named items, found by name through a hash index and kept in the order in
/// which their names first came.
pub struct Registry<T> {
    index: hashbrown::HashMap<String, usize>,
    names: Vec<String>,
    items: Vec<T>,
}

impl<T> Registry<T> {
    /// The names, in order of first registration.
    pub closed spec fn names(&self) -> Seq<Seq<char>> {
        Seq::new(self.names@.len(), |i: int| self.names@[i]@)
    }

    /// The items, each at the place of its name.
    pub closed spec fn items(&self) -> Seq<T> {
        self.items@
    }

    /// The index maps each name to its place, and nothing else.
    pub closed spec fn indexed(&self) -> bool {
        &&& forall|i: int|
            0 <= i < self.names@.len() ==> slot_of(slots(self.index), #[trigger] self.names@[i]@)
                == Some(i as usize)
        &&& forall|name: Seq<char>| #[trigger]
            slots(self.index).dom().contains(name) ==> {
                &&& slots(self.index)[name] < self.names@.len()
                &&& self.names@[slots(self.index)[name] as int]@ == name
            }
    }

    /// Every name has its item, and no name occurs twice.
    pub open spec fn wf(&self) -> bool {
        &&& self.indexed()
        &&& self.names().len() == self.items().len()
        &&& self.names().no_duplicates()
    }

    /// The place of `name`, if it is registered.
    pub open spec fn place(&self, name: Seq<char>) -> Option<int> {
        if self.names().contains(name) {
            Some(self.names().index_of(name))
        } else {
            None
        }
    }

    /// The item registered as `name`, if there is one.
    pub open spec fn lookup(&self, name: Seq<char>) -> Option<T> {
        match self.place(name) {
            Some(slot) => Some(self.items()[slot]),
            None => None,
        }
    }

    /// In a well-formed registry a name stands at one place only.
    pub proof fn lemma_place(&self, slot: int)
        requires
            self.wf(),
            0 <= slot < self.names().len(),
        ensures
            self.place(self.names()[slot]) == Some(slot),
            self.lookup(self.names()[slot]) == Some(self.items()[slot]),
    {
        let name = self.names()[slot];
        assert(self.names().contains(name));
        let found = self.names().index_of(name);
        assert(self.names()[found] == name);
    }

    pub fn new() -> (registry: Registry<T>)
        ensures
            registry.wf(),
            registry.names() == Seq::<Seq<char>>::empty(),
            registry.items() == Seq::<T>::empty(),
    {
        let registry = Registry { index: slots_new(), names: Vec::new(), items: Vec::new() };
        assert(registry.names() =~= Seq::<Seq<char>>::empty());
        registry
    }

    pub fn len(&self) -> (len: usize)
        requires
            self.wf(),
        ensures
            len == self.names().len(),
            len == self.items().len(),
    {
        self.items.len()
    }

    /// The place of `name`, if it is registered.
    pub fn position(&self, name: &String) -> (slot: Option<usize>)
        requires
            self.wf(),
        ensures
            match slot {
                Some(slot) => slot < self.names().len() && self.names()[slot as int] == name@,
                None => !self.names().contains(name@),
            },
            slot.is_some() <==> self.names().contains(name@),
    {
        let slot = slots_get(&self.index, name);
        proof {
            match slot {
                Some(found) => {
                    assert(slots(self.index).dom().contains(name@));
                    assert(self.names()[found as int] == name@);
                },
                None => {
                    if self.names().contains(name@) {
                        let i = choose|i: int| 0 <= i < self.names().len() && self.names()[i] == name@;
                        assert(slot_of(slots(self.index), self.names@[i]@) == Some(i as usize));
                    }
                },
            }
        }
        slot
    }

    /// The name at `slot`.
    pub fn name(&self, slot: usize) -> (name: &String)
        requires
            self.wf(),
            slot < self.names().len(),
        ensures
            name@ == self.names()[slot as int],
    {
        &self.names[slot]
    }

    /// The item at `slot`.
    pub fn item(&self, slot: usize) -> (item: &T)
        requires
            self.wf(),
            slot < self.items().len(),
        ensures
            *item == self.items()[slot as int],
    {
        &self.items[slot]
    }

    /// The item at `slot`, to change in place.
    pub fn item_mut(&mut self, slot: usize) -> (item: &mut T)
        requires
            old(self).wf(),
            slot < old(self).items().len(),
        ensures
            *item == old(self).items()[slot as int],
            final(self).wf(),
            final(self).names() == old(self).names(),
            final(self).items() == old(self).items().update(slot as int, *final(item)),
    {
        &mut self.items[slot]
    }

    /// The item registered as `name`.
    pub fn get(&self, name: &String) -> (item: Option<&T>)
        requires
            self.wf(),
        ensures
            match item {
                Some(item) => self.lookup(name@) == Some(*item),
                None => self.lookup(name@).is_none(),
            },
    {
        match self.position(name) {
            Some(slot) => {
                proof {
                    self.lemma_place(slot as int);
                }
                Some(&self.items[slot])
            },
            None => None,
        }
    }

    /// Puts `item` in the place of the item at `slot`, which comes back.
    pub fn replace(&mut self, slot: usize, item: T) -> (previous: T)
        requires
            old(self).wf(),
            slot < old(self).items().len(),
        ensures
            final(self).wf(),
            final(self).names() == old(self).names(),
            final(self).items() == old(self).items().update(slot as int, item),
            previous == old(self).items()[slot as int],
    {
        self.items.push(item);
        let previous = self.items.swap_remove(slot);
        assert(self.items@ =~= old(self).items@.update(slot as int, item));
        assert(self.names() == old(self).names());
        previous
    }

    /// Registers `item` as `name`: in the place of the item that had the
    /// name, which comes back, or at the end under a name that is new.
    pub fn insert(&mut self, name: String, item: T) -> (previous: Option<T>)
        requires
            old(self).wf(),
        ensures
            final(self).wf(),
            forall|other: Seq<char>|
                #![trigger final(self).lookup(other)]
                final(self).lookup(other) == if other == name@ {
                    Some(item)
                } else {
                    old(self).lookup(other)
                },
            match old(self).place(name@) {
                Some(slot) => {
                    &&& previous == Some(old(self).items()[slot])
                    &&& final(self).names() == old(self).names()
                    &&& final(self).items() == old(self).items().update(slot, item)
                },
                None => {
                    &&& previous.is_none()
                    &&& final(self).names() == old(self).names().push(name@)
                    &&& final(self).items() == old(self).items().push(item)
                },
            },
    {
        match self.position(&name) {
            Some(slot) => {
                proof {
                    self.lemma_place(slot as int);
                }
                let previous = self.replace(slot, item);
                proof {
                    assert forall|other: Seq<char>|
                        #![trigger self.lookup(other)]
                        self.lookup(other) == if other == name@ {
                            Some(item)
                        } else {
                            old(self).lookup(other)
                        } by {
                        if self.names().contains(other) {
                            let at = self.names().index_of(other);
                            self.lemma_place(at);
                            old(self).lemma_place(at);
                        }
                    }
                }
                Some(previous)
            },
            None => {
                let slot = self.items.len();
                let ghost before = self.names();
                slots_insert(&mut self.index, name.clone(), slot);
                self.names.push(name);
                self.items.push(item);
                proof {
                    assert(self.names() =~= before.push(name@));
                    assert forall|i: int| 0 <= i < self.names@.len() implies slot_of(
                        slots(self.index),
                        #[trigger] self.names@[i]@,
                    ) == Some(i as usize) by {
                        if i < slot {
                            assert(before[i] == old(self).names@[i]@);
                            assert(before.contains(before[i]));
                        }
                    }
                    assert forall|other: Seq<char>| #[trigger]
                        slots(self.index).dom().contains(other) implies slots(self.index)[other]
                        < self.names@.len() && self.names@[slots(self.index)[other] as int]@
                        == other by {
                        if other != name@ {
                            assert(slots(old(self).index).dom().contains(other));
                        }
                    }
                    assert(self.names().no_duplicates()) by {
                        assert forall|i: int, j: int|
                            0 <= i < self.names().len() && 0 <= j < self.names().len() && i
                                != j implies self.names()[i] != self.names()[j] by {
                            if i < slot && j < slot {
                                assert(before[i] != before[j]);
                            } else if i < slot {
                                assert(before.contains(before[i]));
                            } else if j < slot {
                                assert(before.contains(before[j]));
                            }
                        }
                    }
                    assert forall|other: Seq<char>|
                        #![trigger self.lookup(other)]
                        self.lookup(other) == if other == name@ {
                            Some(item)
                        } else {
                            old(self).lookup(other)
                        } by {
                        if other == name@ {
                            assert(self.names()[slot as int] == name@);
                            self.lemma_place(slot as int);
                        } else if before.contains(other) {
                            let at = before.index_of(other);
                            old(self).lemma_place(at);
                            assert(self.names()[at] == other);
                            self.lemma_place(at);
                        } else if self.names().contains(other) {
                            let at = self.names().index_of(other);
                            assert(before[at] == other);
                        }
                    }
                }
                None
            },
        }
    }
}

} // verus!
