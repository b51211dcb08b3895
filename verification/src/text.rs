//! Numbers as text: reading decimal digits, and writing numbers in decimal
//! and in hexadecimal digits.

use vstd::prelude::*;
use vstd::string::*;

verus! {

/// Whether `c` is a decimal digit.
pub open spec fn is_digit(c: char) -> bool {
    '0' <= c && c <= '9'
}

/// The number that the digit `c` stands for.
pub open spec fn digit_value(c: char) -> int {
    c as u32 - '0' as u32
}

/// Whether every character of `digits` is a decimal digit.
pub open spec fn all_digits(digits: Seq<char>) -> bool {
    forall|i: int| 0 <= i < digits.len() ==> is_digit(#[trigger] digits[i])
}

/// The number that the decimal digits `digits` write.
pub open spec fn decimal_value(digits: Seq<char>) -> int
    decreases digits.len(),
{
    if digits.len() == 0 {
        0
    } else {
        decimal_value(digits.drop_last()) * 10 + digit_value(digits.last())
    }
}

/// The number that `digits` write, if they are decimal digits, at least one,
/// and the number fits.
pub open spec fn spec_parse_decimal(digits: Seq<char>) -> Option<i64> {
    if digits.len() > 0 && all_digits(digits) && decimal_value(digits) <= i64::MAX {
        Some(decimal_value(digits) as i64)
    } else {
        None
    }
}

/// More digits write no lesser number.
pub proof fn lemma_decimal_value_grows(digits: Seq<char>, k: int)
    requires
        all_digits(digits),
        0 <= k <= digits.len(),
    ensures
        0 <= decimal_value(digits.take(k)) <= decimal_value(digits),
    decreases digits.len() - k,
{
    if k == 0 {
        assert(digits.take(0) =~= Seq::<char>::empty());
        lemma_decimal_value_non_negative(digits);
    } else if k < digits.len() {
        lemma_decimal_value_grows(digits, k + 1);
        assert(digits.take(k + 1).drop_last() =~= digits.take(k));
        assert(is_digit(digits[k]));
        lemma_decimal_value_non_negative(digits.take(k));
        assert(all_digits(digits.take(k))) by {
            assert forall|i: int| 0 <= i < digits.take(k).len() implies is_digit(
                #[trigger] digits.take(k)[i],
            ) by {
                assert(is_digit(digits[i]));
            }
        }
    } else {
        assert(digits.take(k) =~= digits);
        lemma_decimal_value_non_negative(digits);
    }
}

/// Decimal digits write a number that is not negative.
pub proof fn lemma_decimal_value_non_negative(digits: Seq<char>)
    requires
        all_digits(digits),
    ensures
        0 <= decimal_value(digits),
    decreases digits.len(),
{
    if digits.len() > 0 {
        assert(all_digits(digits.drop_last())) by {
            assert forall|i: int| 0 <= i < digits.drop_last().len() implies is_digit(
                #[trigger] digits.drop_last()[i],
            ) by {
                assert(is_digit(digits[i]));
            }
        }
        lemma_decimal_value_non_negative(digits.drop_last());
        assert(is_digit(digits[digits.len() - 1]));
    }
}

/// Reads a number written in decimal digits. `None` if `digits` is empty,
/// holds anything but digits, or writes a number above `i64::MAX`.
pub fn parse_decimal(digits: &str) -> (number: Option<i64>)
    ensures
        number == spec_parse_decimal(digits@),
{
    let len = digits.unicode_len();
    if len == 0 {
        return None;
    }
    let mut value: i64 = 0;
    let mut i: usize = 0;
    proof {
        assert(digits@.take(0) =~= Seq::<char>::empty());
    }
    while i < len
        invariant
            i <= len,
            len == digits@.len(),
            all_digits(digits@.take(i as int)),
            value == decimal_value(digits@.take(i as int)),
            0 <= value,
        decreases len - i,
    {
        let c = digits.get_char(i);
        proof {
            assert(digits@.take(i + 1).drop_last() =~= digits@.take(i as int));
            assert(digits@.take(i + 1).last() == c);
        }
        if c < '0' || c > '9' {
            proof {
                assert(!is_digit(digits@[i as int]));
            }
            return None;
        }
        let digit = (c as u32 - '0' as u32) as i64;
        if value > (i64::MAX - digit) / 10 {
            proof {
                if all_digits(digits@) {
                    lemma_decimal_value_grows(digits@, i + 1);
                }
            }
            return None;
        }
        value = value * 10 + digit;
        proof {
            assert forall|k: int| 0 <= k < digits@.take(i + 1).len() implies is_digit(
                #[trigger] digits@.take(i + 1)[k],
            ) by {
                if k < i {
                    assert(digits@.take(i as int)[k] == digits@[k]);
                }
            }
        }
        i = i + 1;
    }
    proof {
        assert(digits@.take(len as int) =~= digits@);
    }
    Some(value)
}

/// The digit that stands for `value`, which is below ten.
pub open spec fn digit_char(value: int) -> char {
    if value == 0 {
        '0'
    } else if value == 1 {
        '1'
    } else if value == 2 {
        '2'
    } else if value == 3 {
        '3'
    } else if value == 4 {
        '4'
    } else if value == 5 {
        '5'
    } else if value == 6 {
        '6'
    } else if value == 7 {
        '7'
    } else if value == 8 {
        '8'
    } else {
        '9'
    }
}

/// The decimal digits that write `value`, without leading zeroes.
pub open spec fn decimal_digits(value: nat) -> Seq<char>
    decreases value,
{
    if value < 10 {
        seq![digit_char(value as int)]
    } else {
        decimal_digits(value / 10).push(digit_char((value % 10) as int))
    }
}

/// The digit that stands for `value`, which is below ten.
fn digit_text(value: u64) -> (text: &'static str)
    requires
        value < 10,
    ensures
        text@ == seq![digit_char(value as int)],
{
    proof {
        reveal_strlit("0");
        reveal_strlit("1");
        reveal_strlit("2");
        reveal_strlit("3");
        reveal_strlit("4");
        reveal_strlit("5");
        reveal_strlit("6");
        reveal_strlit("7");
        reveal_strlit("8");
        reveal_strlit("9");
    }
    let text = if value == 0 {
        "0"
    } else if value == 1 {
        "1"
    } else if value == 2 {
        "2"
    } else if value == 3 {
        "3"
    } else if value == 4 {
        "4"
    } else if value == 5 {
        "5"
    } else if value == 6 {
        "6"
    } else if value == 7 {
        "7"
    } else if value == 8 {
        "8"
    } else {
        "9"
    };
    assert(text@ =~= seq![digit_char(value as int)]);
    text
}

/// Writes `value` in decimal digits.
pub fn decimal(value: u64) -> (text: String)
    ensures
        text@ == decimal_digits(value as nat),
    decreases value,
{
    if value < 10 {
        String::from_str(digit_text(value))
    } else {
        let mut text = decimal(value / 10);
        text.append(digit_text(value % 10));
        assert(text@ =~= decimal_digits(value as nat));
        text
    }
}

/// Reading what `decimal` wrote gives the number back.
pub proof fn lemma_decimal_round_trip(value: nat)
    ensures
        decimal_digits(value).len() > 0,
        all_digits(decimal_digits(value)),
        decimal_value(decimal_digits(value)) == value,
    decreases value,
{
    if value < 10 {
        let digits = decimal_digits(value);
        assert(digits.drop_last() =~= Seq::<char>::empty());
        assert(decimal_value(digits.drop_last()) == 0);
    } else {
        lemma_decimal_round_trip(value / 10);
        let front = decimal_digits(value / 10);
        let digits = decimal_digits(value);
        assert(digits.drop_last() =~= front);
        assert forall|i: int| 0 <= i < digits.len() implies is_digit(#[trigger] digits[i]) by {
            if i < front.len() {
                assert(digits[i] == front[i]);
            }
        }
    }
}


/// The hexadecimal digit that stands for `value`, which is below sixteen.
pub open spec fn hex_digit_char(value: int) -> char {
    if value < 10 {
        digit_char(value)
    } else if value == 10 {
        'a'
    } else if value == 11 {
        'b'
    } else if value == 12 {
        'c'
    } else if value == 13 {
        'd'
    } else if value == 14 {
        'e'
    } else {
        'f'
    }
}

/// The hexadecimal digits that write `value`, in lower case and without
/// leading zeroes.
pub open spec fn hex_digits(value: nat) -> Seq<char>
    decreases value,
{
    if value < 16 {
        seq![hex_digit_char(value as int)]
    } else {
        hex_digits(value / 16).push(hex_digit_char((value % 16) as int))
    }
}

/// `count` zeroes.
pub open spec fn zeroes(count: nat) -> Seq<char> {
    Seq::new(count, |i: int| '0')
}

/// `digits` with zeroes before them, as many as make `width` characters;
/// `digits` as they are if they are that many or more.
pub open spec fn zero_padded(digits: Seq<char>, width: nat) -> Seq<char> {
    if digits.len() >= width {
        digits
    } else {
        zeroes((width - digits.len()) as nat) + digits
    }
}

/// The hexadecimal digit that stands for `value`, which is below sixteen.
fn hex_digit_text(value: u64) -> (text: &'static str)
    requires
        value < 16,
    ensures
        text@ == seq![hex_digit_char(value as int)],
{
    if value < 10 {
        digit_text(value)
    } else {
        proof {
            reveal_strlit("a");
            reveal_strlit("b");
            reveal_strlit("c");
            reveal_strlit("d");
            reveal_strlit("e");
            reveal_strlit("f");
        }
        let text = if value == 10 {
            "a"
        } else if value == 11 {
            "b"
        } else if value == 12 {
            "c"
        } else if value == 13 {
            "d"
        } else if value == 14 {
            "e"
        } else {
            "f"
        };
        assert(text@ =~= seq![hex_digit_char(value as int)]);
        text
    }
}

/// Writes `value` in hexadecimal digits.
pub fn hex(value: u64) -> (text: String)
    ensures
        text@ == hex_digits(value as nat),
    decreases value,
{
    if value < 16 {
        String::from_str(hex_digit_text(value))
    } else {
        let mut text = hex(value / 16);
        text.append(hex_digit_text(value % 16));
        assert(text@ =~= hex_digits(value as nat));
        text
    }
}

/// Writes `value` in hexadecimal digits, with zeroes before them if they
/// are fewer than `width`.
pub fn hex_padded(value: u64, width: usize) -> (text: String)
    ensures
        text@ == zero_padded(hex_digits(value as nat), width as nat),
{
    let digits = hex(value);
    let len = digits.as_str().unicode_len();
    if len >= width {
        return digits;
    }
    let mut text = String::from_str("");
    proof {
        reveal_strlit("");
        reveal_strlit("0");
        assert(text@ =~= zeroes(0));
    }
    let mut count: usize = 0;
    while count < width - len
        invariant
            len < width,
            count <= width - len,
            text@ == zeroes(count as nat),
        decreases width - len - count,
    {
        text.append("0");
        proof {
            reveal_strlit("0");
            assert(text@ =~= zeroes((count + 1) as nat));
        }
        count = count + 1;
    }
    text.append(digits.as_str());
    text
}

} // verus!
