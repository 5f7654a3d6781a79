use crate::crypto::UNIT;
use crate::database::{Transaction, TransactionStage};
use std::time::{SystemTime, UNIX_EPOCH};
use vstd::prelude::*;
use vstd::string::StringExecFns;

pub mod config;
pub mod digest;
pub mod params;
pub mod registry;

verus! {

/// One of `names` reads `name`.
pub open spec fn listed(names: Seq<String>, name: Seq<char>) -> bool {
    exists|i: int| 0 <= i < names.len() && (#[trigger] names[i])@ == name
}

/// Whether one of `names` reads `name`.
pub fn is_listed(names: &Vec<String>, name: &String) -> (found: bool)
    ensures
        found == listed(names@, name@),
{
    let mut i: usize = 0;
    while i < names.len()
        invariant
            i <= names.len(),
            forall|k: int| 0 <= k < i ==> (#[trigger] names@[k])@ != name@,
        decreases names.len() - i,
    {
        if names[i] == *name {
            return true;
        }
        i += 1;
    }
    false
}

/// `SystemTime::now` and `duration_since(UNIX_EPOCH)`: the whole seconds
/// since the epoch by the system's clock and, from `subsec_nanos`, the
/// nanoseconds of the second under way, which are fewer than a billion.
#[verifier::external_body]
fn since_epoch() -> (elapsed: (u64, u32))
    ensures
        elapsed.1 < 1_000_000_000,
{
    let since_epoch = SystemTime::now().duration_since(UNIX_EPOCH).expect("Error");
    (since_epoch.as_secs(), since_epoch.subsec_nanos())
}

/// The milliseconds in `secs` seconds and `nanos` nanoseconds, or the
/// largest number there is where they are more than that.
pub open spec fn millis_of(secs: u64, nanos: u32) -> u64 {
    if secs * 1000 + nanos / 1_000_000 <= u64::MAX {
        (secs * 1000 + nanos / 1_000_000) as u64
    } else {
        u64::MAX
    }
}

pub fn timestamp_millis(secs: u64, nanos: u32) -> (millis: u64)
    ensures
        millis == millis_of(secs, nanos),
{
    let part: u64 = (nanos / 1_000_000) as u64;
    if secs > (u64::MAX - part) / 1000 {
        u64::MAX
    } else {
        secs * 1000 + part
    }
}

/// The milliseconds since the epoch, by the system's clock.
pub fn get_timestamp() -> u64 {
    let elapsed = since_epoch();
    timestamp_millis(elapsed.0, elapsed.1)
}

/// The character for one decimal digit.
pub open spec fn digit(value: int) -> char {
    if value == 0 {
        '0'
    } else if value == 1 {
        '1'
    } else if value == 2 {
        '2'
    } else if value == 3 {
        '3'
    } else if value == 4 {
        '4'
    } else if value == 5 {
        '5'
    } else if value == 6 {
        '6'
    } else if value == 7 {
        '7'
    } else if value == 8 {
        '8'
    } else {
        '9'
    }
}

/// A natural number in decimal digits, without leading zeros.
pub open spec fn numeral(value: nat) -> Seq<char>
    decreases value,
{
    if value < 10 {
        seq![digit(value as int)]
    } else {
        numeral(value / 10).push(digit((value % 10) as int))
    }
}

/// Ten to the power of `places`.
pub open spec fn tens(places: nat) -> nat
    decreases places,
{
    if places == 0 {
        1
    } else {
        10 * tens((places - 1) as nat)
    }
}

/// The digits of `part` over `places` decimal places, up to the last one
/// that is not zero.
pub open spec fn fraction(part: nat, places: nat) -> Seq<char>
    decreases places,
{
    if places == 0 || part == 0 {
        Seq::empty()
    } else {
        seq![digit((part / tens((places - 1) as nat)) as int)] + fraction(
            part % tens((places - 1) as nat),
            (places - 1) as nat,
        )
    }
}

/// A fixed-point decimal as text: a minus sign where it is negative, the
/// whole part, and, unless nothing follows it, a point and up to eight
/// decimals.
pub open spec fn decimal(value: int) -> Seq<char> {
    let magnitude = if value < 0 {
        -value
    } else {
        value
    };
    let sign = if value < 0 {
        seq!['-']
    } else {
        Seq::empty()
    };
    let part = (magnitude % (UNIT as int)) as nat;
    let tail = if part == 0 {
        Seq::empty()
    } else {
        seq!['.'] + fraction(part, 8)
    };
    sign + numeral((magnitude / (UNIT as int)) as nat) + tail
}

fn digit_text(value: u128) -> (text: &'static str)
    requires
        value < 10,
    ensures
        text@ == seq![digit(value as int)],
{
    proof {
        reveal_strlit("0");
        reveal_strlit("1");
        reveal_strlit("2");
        reveal_strlit("3");
        reveal_strlit("4");
        reveal_strlit("5");
        reveal_strlit("6");
        reveal_strlit("7");
        reveal_strlit("8");
        reveal_strlit("9");
    }
    let text = if value == 0 {
        "0"
    } else if value == 1 {
        "1"
    } else if value == 2 {
        "2"
    } else if value == 3 {
        "3"
    } else if value == 4 {
        "4"
    } else if value == 5 {
        "5"
    } else if value == 6 {
        "6"
    } else if value == 7 {
        "7"
    } else if value == 8 {
        "8"
    } else {
        "9"
    };
    assert(text@ =~= seq![digit(value as int)]);
    text
}

/// Appends `value` in decimal digits.
pub fn push_numeral(text: &mut String, value: u128)
    ensures
        final(text)@ == old(text)@ + numeral(value as nat),
    decreases value,
{
    if value >= 10 {
        push_numeral(text, value / 10);
    }
    text.append(digit_text(value % 10));
    proof {
        if value >= 10 {
            assert(old(text)@ + numeral((value / 10) as nat) + seq![digit((value % 10) as int)]
                =~= old(text)@ + numeral((value / 10) as nat).push(digit((value % 10) as int)));
        }
    }
}

/// `value` in decimal digits.
pub fn numeral_text(value: u64) -> (text: String)
    ensures
        text@ == numeral(value as nat),
{
    let mut text = String::new();
    push_numeral(&mut text, value as u128);
    assert(Seq::<char>::empty() + numeral(value as nat) =~= numeral(value as nat));
    text
}

/// A fixed-point decimal as text.
pub fn decimal_text(value: i64) -> (text: String)
    ensures
        text@ == decimal(value as int),
{
    wide_decimal_text(value as i128)
}

/// A fixed-point decimal of any width but the widest as text.
pub fn wide_decimal_text(value: i128) -> (text: String)
    requires
        value > i128::MIN,
    ensures
        text@ == decimal(value as int),
{
    let mut text = String::new();
    let magnitude: u128 = if value < 0 {
        proof {
            reveal_strlit("-");
        }
        text.append("-");
        (-value) as u128
    } else {
        value as u128
    };
    let ghost sign = text@;
    assert(sign =~= if value < 0 {
        seq!['-']
    } else {
        Seq::empty()
    });
    let whole = magnitude / (UNIT as u128);
    let mut part = magnitude % (UNIT as u128);
    push_numeral(&mut text, whole);
    let ghost head = text@;
    if part != 0 {
        proof {
            reveal_strlit(".");
        }
        text.append(".");
        let ghost start = part;
        let mut scale: u128 = 10_000_000;
        let mut places: u8 = 8;
        proof {
            reveal_with_fuel(tens, 9);
        }
        while places > 0 && part != 0
            invariant
                places <= 8,
                places > 0 ==> scale == tens((places - 1) as nat),
                part < tens(places as nat),
                text@ + fraction(part as nat, places as nat) == head + seq!['.'] + fraction(
                    start as nat,
                    8,
                ),
            decreases places,
        {
            proof {
                reveal_with_fuel(tens, 9);
                assert(tens(places as nat) == 10 * tens((places - 1) as nat));
                assert(part / scale < 10) by (nonlinear_arith)
                    requires
                        part < 10 * scale,
                        scale > 0,
                ;
                assert(text@ + (seq![digit((part / scale) as int)] + fraction(
                    (part % scale) as nat,
                    (places - 1) as nat,
                )) =~= text@ + seq![digit((part / scale) as int)] + fraction(
                    (part % scale) as nat,
                    (places - 1) as nat,
                ));
            }
            text.append(digit_text(part / scale));
            part = part % scale;
            places = places - 1;
            if places > 0 {
                scale = scale / 10;
            }
        }
        assert(fraction(part as nat, places as nat) =~= Seq::<char>::empty());
        assert(text@ =~= text@ + Seq::<char>::empty());
    } else {
        assert(head =~= head + Seq::<char>::empty());
    }
    text
}

/// A whole number in decimal digits, with a minus sign where it is negative.
pub open spec fn integer(value: int) -> Seq<char> {
    if value < 0 {
        seq!['-'] + numeral((-value) as nat)
    } else {
        numeral(value as nat)
    }
}

/// `value` in decimal digits, with a minus sign where it is negative.
pub fn integer_text(value: i64) -> (text: String)
    ensures
        text@ == integer(value as int),
{
    let mut text = String::new();
    let wide: i128 = value as i128;
    if wide < 0 {
        proof {
            reveal_strlit("-");
        }
        text.append("-");
        assert(text@ =~= seq!['-']);
        push_numeral(&mut text, (-wide) as u128);
    } else {
        push_numeral(&mut text, wide as u128);
        assert(text@ =~= numeral(value as nat));
    }
    text
}

/// `pattern` occurs in `text`.
pub open spec fn occurs(text: Seq<char>, pattern: Seq<char>) -> bool {
    exists|at: int|
        0 <= at && at + pattern.len() <= text.len() && #[trigger] text.subrange(
            at,
            at + pattern.len(),
        ) == pattern
}

/// A fixed-point decimal as text with three decimals, rounded to the
/// nearest and away from zero where it lies halfway.
pub open spec fn rounded(value: int) -> Seq<char> {
    let magnitude = if value < 0 {
        -value
    } else {
        value
    };
    let sign = if value < 0 {
        seq!['-']
    } else {
        Seq::empty()
    };
    let thousandths = (magnitude + UNIT / 2000) / (UNIT / 1000);
    sign + numeral((thousandths / 1000) as nat) + seq![
        '.',
        digit((thousandths / 100) % 10),
        digit((thousandths / 10) % 10),
        digit(thousandths % 10),
    ]
}

/// A fixed-point decimal as text with three decimals.
pub fn rounded_text(value: i64) -> (text: String)
    ensures
        text@ == rounded(value as int),
{
    let mut text = String::new();
    let wide: i128 = value as i128;
    let magnitude: u128 = if wide < 0 {
        proof {
            reveal_strlit("-");
        }
        text.append("-");
        (-wide) as u128
    } else {
        wide as u128
    };
    let ghost sign = text@;
    assert(sign =~= if value < 0 {
        seq!['-']
    } else {
        Seq::empty()
    });
    let thousandths = (magnitude + 50_000) / 100_000;
    push_numeral(&mut text, thousandths / 1000);
    proof {
        reveal_strlit(".");
    }
    text.append(".");
    text.append(digit_text((thousandths / 100) % 10));
    text.append(digit_text((thousandths / 10) % 10));
    text.append(digit_text(thousandths % 10));
    assert(text@ =~= rounded(value as int));
    text
}

/// Reads a flag that the venue sends as a number: zero is no, one is yes,
/// and any other number is handed back as an error.
pub fn bool_from_int(value: u8) -> (flag: Result<bool, u8>)
    ensures
        flag == match value {
            0u8 => Ok::<bool, u8>(false),
            1u8 => Ok::<bool, u8>(true),
            other => Err::<bool, u8>(other),
        },
{
    match value {
        0 => Ok(false),
        1 => Ok(true),
        other => Err(other),
    }
}

/// The transactions among `rows` that trade `symbol` and stand in one of
/// `stages`, in their order.
pub open spec fn transactions_for_pair(
    rows: Seq<Transaction>,
    symbol: Seq<char>,
    stages: Seq<TransactionStage>,
) -> Seq<Transaction>
    decreases rows.len(),
{
    if rows.len() == 0 {
        Seq::empty()
    } else {
        let earlier = transactions_for_pair(rows.drop_last(), symbol, stages);
        if rows.last().symbol@ == symbol && stages.contains(rows.last().stage) {
            earlier.push(rows.last())
        } else {
            earlier
        }
    }
}

fn in_stages(stage: TransactionStage, stages: &Vec<TransactionStage>) -> (found: bool)
    ensures
        found == stages@.contains(stage),
{
    let mut i: usize = 0;
    while i < stages.len()
        invariant
            i <= stages.len(),
            forall|k: int| 0 <= k < i ==> stages@[k] != stage,
        decreases stages.len() - i,
    {
        if stages[i] == stage {
            return true;
        }
        i += 1;
    }
    false
}

/// The transactions among `rows` that trade `search_symbol` and stand in
/// one of `search_stage`.
pub fn get_transactions_for_pair<'a>(
    rows: &'a Vec<Transaction>,
    search_symbol: &String,
    search_stage: &Vec<TransactionStage>,
) -> (found: Vec<&'a Transaction>)
    ensures
        found@.len() == transactions_for_pair(rows@, search_symbol@, search_stage@).len(),
        forall|i: int|
            0 <= i < found@.len() ==> *(#[trigger] found@[i]) == transactions_for_pair(
                rows@,
                search_symbol@,
                search_stage@,
            )[i],
{
    let mut found: Vec<&Transaction> = Vec::new();
    let mut i: usize = 0;
    assert(rows@.take(0) =~= Seq::<Transaction>::empty());
    while i < rows.len()
        invariant
            i <= rows.len(),
            found@.len() == transactions_for_pair(
                rows@.take(i as int),
                search_symbol@,
                search_stage@,
            ).len(),
            forall|k: int|
                0 <= k < found@.len() ==> *(#[trigger] found@[k]) == transactions_for_pair(
                    rows@.take(i as int),
                    search_symbol@,
                    search_stage@,
                )[k],
        decreases rows.len() - i,
    {
        proof {
            assert(rows@.take(i + 1).drop_last() =~= rows@.take(i as int));
            assert(rows@.take(i + 1).last() == rows@[i as int]);
        }
        if rows[i].symbol == *search_symbol && in_stages(rows[i].stage, search_stage) {
            found.push(&rows[i]);
        }
        i += 1;
    }
    assert(rows@.take(i as int) =~= rows@);
    found
}

/// How many of `rows` trade `search_symbol` and stand in one of
/// `search_stage`.
pub fn count_transactions_for_pair(
    rows: &Vec<Transaction>,
    search_symbol: &String,
    search_stage: &Vec<TransactionStage>,
) -> (count: usize)
    ensures
        count == transactions_for_pair(rows@, search_symbol@, search_stage@).len(),
{
    get_transactions_for_pair(rows, search_symbol, search_stage).len()
}

} // verus!
