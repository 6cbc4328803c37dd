//! Building the paths that locate a type within a declaration.
use vstd::prelude::*;

verus! {

/// The character for a decimal digit.
pub open spec fn digit(value: int) -> char
    recommends
        0 <= value < 10,
{
    (('0' as int) + value) as char
}

/// The decimal numeral of `value`, without leading zeros.
pub open spec fn decimal(value: nat) -> Seq<char>
    decreases value,
{
    if value < 10 {
        seq![digit(value as int)]
    } else {
        decimal(value / 10).push(digit((value % 10) as int))
    }
}

/// `path` with `segment` behind it.
pub fn extend_path(path: &str, segment: &str) -> (result: String)
    ensures
        result@ == path@ + segment@,
{
    let mut result = path.to_owned();
    result.append(segment);
    result
}

/// Puts the decimal numeral of `value` behind `text`.
pub fn append_decimal(text: &mut String, value: u64)
    ensures
        final(text)@ == old(text)@ + decimal(value as nat),
    decreases value,
{
    if value >= 10 {
        append_decimal(text, value / 10);
    }
    append_digit(text, value % 10);
    assert(final(text)@ =~= old(text)@ + decimal(value as nat));
}

/// Puts one decimal digit behind `text`.
fn append_digit(text: &mut String, value: u64)
    requires
        value < 10,
    ensures
        final(text)@ == old(text)@.push(digit(value as int)),
{
    proof {
        reveal_strlit("0");
        reveal_strlit("1");
        reveal_strlit("2");
        reveal_strlit("3");
        reveal_strlit("4");
        reveal_strlit("5");
        reveal_strlit("6");
        reveal_strlit("7");
        reveal_strlit("8");
        reveal_strlit("9");
    }
    let numeral = match value {
        0 => "0",
        1 => "1",
        2 => "2",
        3 => "3",
        4 => "4",
        5 => "5",
        6 => "6",
        7 => "7",
        8 => "8",
        _ => "9",
    };
    assert(numeral@ =~= seq![digit(value as int)]);
    text.append(numeral);
    assert(text@ =~= old(text)@.push(digit(value as int)));
}

/// `path` with `segment` and an index in square brackets behind it.
pub open spec fn indexed(path: Seq<char>, segment: Seq<char>, index: nat) -> Seq<char> {
    path + segment + "["@ + decimal(index) + "]"@
}

/// The number that a sequence of decimal digits writes.
pub open spec fn written_number(text: Seq<char>) -> int
    decreases text.len(),
{
    if text.len() == 0 {
        0
    } else {
        10 * written_number(text.drop_last()) + (text.last() as int - '0' as int)
    }
}

/// The decimal numeral of a number is made of digits, writes that number, and
/// starts with a zero only if it is a single digit.
pub proof fn law_decimal_writes_the_number(value: nat)
    ensures
        decimal(value).len() > 0,
        forall|i: int|
            0 <= i < decimal(value).len() ==> '0' as int <= #[trigger] decimal(value)[i] as int
                <= '9' as int,
        written_number(decimal(value)) == value,
        decimal(value).len() > 1 ==> decimal(value)[0] != '0',
    decreases value,
{
    let text = decimal(value);
    if value < 10 {
        assert(text.drop_last() =~= seq![]);
        assert(written_number(text.drop_last()) == 0);
        assert(text.last() as int == '0' as int + value);
    } else {
        let rest = decimal(value / 10);
        law_decimal_writes_the_number(value / 10);
        assert(text.drop_last() =~= rest);
        assert(text.last() as int == '0' as int + value % 10);
        assert(text[0] == rest[0]);
        if rest.len() == 1 {
            assert(rest.drop_last() =~= seq![]);
            assert(written_number(rest.drop_last()) == 0);
        }
    }
}

/// An indexed path is the path, the segment, and the number in square brackets.
pub proof fn law_indexed(path: Seq<char>, segment: Seq<char>, index: nat)
    ensures
        indexed(path, segment, index) == path + segment + seq!['['] + decimal(index) + seq![']'],
{
    reveal_strlit("[");
    reveal_strlit("]");
    assert("["@ =~= seq!['[']);
    assert("]"@ =~= seq![']']);
}

/// `path` with `segment` and an index in square brackets behind it.
pub fn index_path(path: &str, segment: &str, index: u64) -> (result: String)
    ensures
        result@ == indexed(path@, segment@, index as nat),
{
    let mut result = path.to_owned();
    result.append(segment);
    result.append("[");
    append_decimal(&mut result, index);
    result.append("]");
    result
}

} // verus!
