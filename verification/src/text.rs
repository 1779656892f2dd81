//! Text that messages and file names are made of.

use vstd::prelude::*;
use vstd::string::*;

verus! {

/// The digit with the value `value`, in lower case.
pub open spec fn digit(value: nat) -> Seq<char> {
    if value == 0 {
        "0"@
    } else if value == 1 {
        "1"@
    } else if value == 2 {
        "2"@
    } else if value == 3 {
        "3"@
    } else if value == 4 {
        "4"@
    } else if value == 5 {
        "5"@
    } else if value == 6 {
        "6"@
    } else if value == 7 {
        "7"@
    } else if value == 8 {
        "8"@
    } else if value == 9 {
        "9"@
    } else if value == 10 {
        "a"@
    } else if value == 11 {
        "b"@
    } else if value == 12 {
        "c"@
    } else if value == 13 {
        "d"@
    } else if value == 14 {
        "e"@
    } else {
        "f"@
    }
}

/// The digits of `value` in base `base`, without leading zeros.
pub open spec fn digits(value: nat, base: nat) -> Seq<char>
    decreases value,
{
    if base < 2 || value < base {
        digit(value)
    } else {
        proof {
            assert(value / base < value) by (nonlinear_arith)
                requires
                    2 <= base <= value,
            ;
        }
        digits(value / base, base) + digit(value % base)
    }
}

/// The digit with the value `value`, in lower case.
fn digit_text(value: u64) -> (text: &'static str)
    requires
        value < 16,
    ensures
        text@ == digit(value as nat),
{
    match value {
        0 => "0",
        1 => "1",
        2 => "2",
        3 => "3",
        4 => "4",
        5 => "5",
        6 => "6",
        7 => "7",
        8 => "8",
        9 => "9",
        10 => "a",
        11 => "b",
        12 => "c",
        13 => "d",
        14 => "e",
        _ => "f",
    }
}

/// The digits of `value` in base `base`, without leading zeros.
pub fn number(value: u64, base: u64) -> (text: String)
    requires
        2 <= base <= 16,
    ensures
        text@ == digits(value as nat, base as nat),
    decreases value,
{
    if value < base {
        digit_text(value).to_owned()
    } else {
        proof {
            assert(value / base < value) by (nonlinear_arith)
                requires
                    2 <= base <= value,
            ;
        }
        number(value / base, base).concat(digit_text(value % base))
    }
}

/// `path` with `component` behind it. A separator stands between them unless
/// `path` is empty or ends with one.
pub open spec fn joined(path: Seq<char>, component: Seq<char>) -> Seq<char> {
    if path.len() == 0 || path.last() == '/' {
        path + component
    } else {
        path + "/"@ + component
    }
}

/// `path` with the relative path `component` behind it.
pub fn join(path: &str, component: &str) -> (whole: String)
    ensures
        whole@ == joined(path@, component@),
{
    let length: usize = path.unicode_len();
    if length == 0 || path.get_char(length - 1) == '/' {
        path.to_owned().concat(component)
    } else {
        path.to_owned().concat("/").concat(component)
    }
}

/// The bytes of `path` with those of `component` behind them. A separator stands
/// between them unless `path` is empty or ends with one.
pub open spec fn joined_bytes(path: Seq<u8>, component: Seq<u8>) -> Seq<u8> {
    if path.len() == 0 || path.last() == 0x2fu8 {
        path + component
    } else {
        path.push(0x2fu8) + component
    }
}

/// The bytes of `path` with those of the relative path `component` behind them.
pub fn join_bytes(path: &[u8], component: &[u8]) -> (whole: Vec<u8>)
    ensures
        whole@ == joined_bytes(path@, component@),
{
    let mut whole: Vec<u8> = Vec::new();
    whole.extend_from_slice(path);
    assert(whole@ =~= path@);
    if path.len() > 0 && path[path.len() - 1] != 0x2f {
        whole.push(0x2f);
    }
    whole.extend_from_slice(component);
    assert(whole@ =~= joined_bytes(path@, component@));
    whole
}

/// What stands behind a path can be told from the whole.
pub proof fn law_joined_components_can_be_told_apart(
    path: Seq<u8>,
    first: Seq<u8>,
    second: Seq<u8>,
)
    requires
        joined_bytes(path, first) == joined_bytes(path, second),
    ensures
        first == second,
{
    let whole = joined_bytes(path, first);
    let start = whole.len() - first.len();
    assert(whole.skip(start) =~= first);
    assert(whole.skip(start) =~= second);
}

/// Digits are single characters, and differ from one another.
proof fn lemma_digits_differ(first: nat, second: nat)
    requires
        first < 16,
        second < 16,
    ensures
        digit(first).len() == 1,
        digit(first) == digit(second) ==> first == second,
{
    reveal_strlit("0");
    reveal_strlit("1");
    reveal_strlit("2");
    reveal_strlit("3");
    reveal_strlit("4");
    reveal_strlit("5");
    reveal_strlit("6");
    reveal_strlit("7");
    reveal_strlit("8");
    reveal_strlit("9");
    reveal_strlit("a");
    reveal_strlit("b");
    reveal_strlit("c");
    reveal_strlit("d");
    reveal_strlit("e");
    reveal_strlit("f");
    if digit(first) == digit(second) {
        assert(digit(first)[0] == digit(second)[0]);
    }
}

/// A number has at least one digit.
proof fn lemma_digits_exist(value: nat, base: nat)
    requires
        2 <= base <= 16,
    ensures
        digits(value, base).len() > 0,
        value >= base ==> digits(value, base).len() > 1,
    decreases value,
{
    if value >= base {
        assert(value / base < value) by (nonlinear_arith)
            requires
                2 <= base <= value,
        ;
        lemma_digits_exist(value / base, base);
        assert(value % base < 16) by (nonlinear_arith)
            requires
                2 <= base <= 16,
        ;
        lemma_digits_differ(value % base, 0);
    } else {
        lemma_digits_differ(value, 0);
    }
}

/// Numbers with the same digits are the same.
pub proof fn law_digits_tell_numbers_apart(first: nat, second: nat, base: nat)
    requires
        2 <= base <= 16,
        digits(first, base) == digits(second, base),
    ensures
        first == second,
    decreases first,
{
    lemma_digits_exist(first, base);
    lemma_digits_exist(second, base);
    if first < base && second < base {
        lemma_digits_differ(first, second);
    } else if first < base {
        lemma_digits_differ(first, first);
    } else if second < base {
        lemma_digits_differ(second, second);
    } else {
        let (high, low) = (first / base, first % base);
        let (other_high, other_low) = (second / base, second % base);
        assert(high < first && low < 16 && first == high * base + low) by (nonlinear_arith)
            requires
                2 <= base <= first,
                base <= 16,
                high == first / base,
                low == first % base,
        ;
        assert(other_low < 16 && second == other_high * base + other_low) by (nonlinear_arith)
            requires
                2 <= base <= 16,
                other_high == second / base,
                other_low == second % base,
        ;
        lemma_digits_differ(low, other_low);
        lemma_digits_differ(other_low, low);
        let whole = digits(first, base);
        let split = whole.len() - 1;
        assert(whole.take(split) =~= digits(high, base));
        assert(whole.take(split) =~= digits(other_high, base));
        assert(whole.skip(split) =~= digit(low));
        assert(whole.skip(split) =~= digit(other_low));
        law_digits_tell_numbers_apart(high, other_high, base);
    }
}

/// A joined path begins with the first part and ends with the second, and between
/// two parts stands exactly one separator, which the first part may bring along.
pub proof fn law_joined_paths_keep_their_parts(path: Seq<char>, component: Seq<char>)
    ensures
        ({
            let whole = joined(path, component);
            let start = whole.len() - component.len();
            &&& whole.take(path.len() as int) == path
            &&& whole.skip(start) == component
            &&& path.len() == 0 ==> start == 0
            &&& path.len() > 0 ==> start > 0 && whole[start - 1] == '/'
            &&& path.len() > 0 && path.last() == '/' ==> start == path.len()
            &&& path.len() > 0 && path.last() != '/' ==> start == path.len() + 1
        }),
{
    reveal_strlit("/");
    let whole = joined(path, component);
    assert(whole.take(path.len() as int) =~= path);
    assert(whole.skip(whole.len() - component.len()) =~= component);
}

/// The same holds of paths that are bytes.
pub proof fn law_joined_bytes_keep_their_parts(path: Seq<u8>, component: Seq<u8>)
    ensures
        ({
            let whole = joined_bytes(path, component);
            let start = whole.len() - component.len();
            &&& whole.take(path.len() as int) == path
            &&& whole.skip(start) == component
            &&& path.len() == 0 ==> start == 0
            &&& path.len() > 0 ==> start > 0 && whole[start - 1] == 0x2f
            &&& path.len() > 0 && path.last() == 0x2f ==> start == path.len()
            &&& path.len() > 0 && path.last() != 0x2f ==> start == path.len() + 1
        }),
{
    let whole = joined_bytes(path, component);
    assert(whole.take(path.len() as int) =~= path);
    assert(whole.skip(whole.len() - component.len()) =~= component);
}

/// The value of a character that is a digit in lower case.
pub open spec fn digit_value(digit: char) -> int {
    if '0' <= digit <= '9' {
        digit as int - '0' as int
    } else {
        digit as int - 'a' as int + 10
    }
}

/// The number that is written as `text`, read from the left.
pub open spec fn number_written(text: Seq<char>, base: nat) -> int
    decreases text.len(),
{
    if text.len() == 0 {
        0
    } else {
        number_written(text.drop_last(), base) * base + digit_value(text.last())
    }
}

/// A digit is one character, a decimal digit or a letter from `a` on, and has its
/// value.
proof fn lemma_digit_has_its_value(value: nat)
    requires
        value < 16,
    ensures
        digit(value).len() == 1,
        digit_value(digit(value)[0]) == value,
        '0' <= digit(value)[0] <= '9' || 'a' <= digit(value)[0] <= 'f',
        digit(value)[0] == '0' ==> value == 0,
{
    reveal_strlit("0");
    reveal_strlit("1");
    reveal_strlit("2");
    reveal_strlit("3");
    reveal_strlit("4");
    reveal_strlit("5");
    reveal_strlit("6");
    reveal_strlit("7");
    reveal_strlit("8");
    reveal_strlit("9");
    reveal_strlit("a");
    reveal_strlit("b");
    reveal_strlit("c");
    reveal_strlit("d");
    reveal_strlit("e");
    reveal_strlit("f");
}

/// The digits of a number write that number, in decimal digits and lower case
/// letters, and without a leading zero.
pub proof fn law_digits_write_the_number(value: nat, base: nat)
    requires
        2 <= base <= 16,
    ensures
        digits(value, base).len() > 0,
        number_written(digits(value, base), base) == value,
        value > 0 ==> digits(value, base)[0] != '0',
        value == 0 ==> digits(value, base).len() == 1,
        forall|i: int|
            0 <= i < digits(value, base).len() ==> {
                let character = #[trigger] digits(value, base)[i];
                '0' <= character <= '9' || 'a' <= character <= 'f'
            },
    decreases value,
{
    let text = digits(value, base);
    if value < base {
        lemma_digit_has_its_value(value);
        assert(text.drop_last() =~= Seq::empty());
        assert(number_written(text.drop_last(), base) == 0);
        assert(0 * base == 0) by (nonlinear_arith);
    } else {
        let (high, low) = (value / base, value % base);
        assert(0 < high < value && low < 16 && value == high * base + low) by (nonlinear_arith)
            requires
                2 <= base <= value,
                base <= 16,
                high == value / base,
                low == value % base,
        ;
        law_digits_write_the_number(high, base);
        lemma_digit_has_its_value(low);
        assert(text.drop_last() =~= digits(high, base));
        assert(text.last() == digit(low)[0]);
        assert forall|i: int| 0 <= i < text.len() implies {
            let character = #[trigger] text[i];
            '0' <= character <= '9' || 'a' <= character <= 'f'
        } by {
            if i < text.len() - 1 {
                assert(text[i] == digits(high, base)[i]);
            }
        }
        assert(text[0] == digits(high, base)[0]);
    }
}

} // verus!
