use crate::domain::calendar::{is_on_calendar, weekday_of_millis};
use vstd::prelude::*;
use vstd::string::StringSliceAdditionalSpecFns;

verus! {

/// The byte writes a decimal digit.
pub open spec fn is_digit(byte: u8) -> bool {
    48 <= byte <= 57
}

/// Every byte writes a decimal digit.
pub open spec fn all_digits(bytes: Seq<u8>) -> bool {
    forall|i: int| 0 <= i < bytes.len() ==> is_digit(#[trigger] bytes[i])
}

/// The number that decimal digits write.
pub open spec fn digits_value(digits: Seq<u8>) -> nat
    decreases digits.len(),
{
    if digits.len() == 0 {
        0
    } else {
        (10 * digits_value(digits.drop_last()) + (digits.last() - 48)) as nat
    }
}

/// The text starts with a sign.
pub open spec fn has_sign(bytes: Seq<u8>) -> bool {
    bytes.len() > 0 && (bytes[0] == 43 || bytes[0] == 45)
}

/// The digits of a number: the text without its sign.
pub open spec fn digits_of(bytes: Seq<u8>) -> Seq<u8> {
    if has_sign(bytes) {
        bytes.subrange(1, bytes.len() as int)
    } else {
        bytes
    }
}

/// The whole number that a text writes in decimal, with or without a sign before
/// its digits; `None` where the text is not a number or the number cannot be held
/// in 64 bits.
pub open spec fn number_of(bytes: Seq<u8>) -> Option<int> {
    let digits = digits_of(bytes);
    let value = if has_sign(bytes) && bytes[0] == 45 {
        -(digits_value(digits) as int)
    } else {
        digits_value(digits) as int
    };
    if digits.len() == 0 || !all_digits(digits) || value < i64::MIN || value > i64::MAX {
        None
    } else {
        Some(value)
    }
}

/// The time that a text of milliseconds names: its number, where `chrono` has a date
/// for it.
pub open spec fn time_of(bytes: Seq<u8>) -> Option<int> {
    match number_of(bytes) {
        Some(millis) if weekday_of_millis(millis) is Some => Some(millis),
        _ => None,
    }
}

/// The first digits of a number write no more than all of them.
pub proof fn lemma_digits_value_prefix(digits: Seq<u8>, i: int)
    requires
        0 <= i <= digits.len(),
        all_digits(digits),
    ensures
        digits_value(digits.take(i)) <= digits_value(digits),
    decreases digits.len() - i,
{
    if i == digits.len() {
        assert(digits.take(i) =~= digits);
    } else {
        assert(digits.take(i + 1).drop_last() =~= digits.take(i));
        assert(is_digit(digits[i]));
        lemma_digits_value_prefix(digits, i + 1);
    }
}

/// The number that the digits of `bytes` from `from` on write, or `None` where they
/// are not all digits, there is none, or the number is above `limit`.
fn read_digits(bytes: &[u8], from: usize, limit: u64) -> (value: Option<u64>)
    requires
        from <= bytes@.len(),
    ensures
        value == (if from < bytes@.len() && all_digits(bytes@.subrange(from as int, bytes@.len() as int))
            && digits_value(bytes@.subrange(from as int, bytes@.len() as int)) <= limit {
            Some(digits_value(bytes@.subrange(from as int, bytes@.len() as int)) as u64)
        } else {
            None
        }),
{
    let size = bytes.len();
    if from >= size {
        return None;
    }
    let ghost digits = bytes@.subrange(from as int, size as int);
    let mut value: u64 = 0;
    let mut i: usize = from;
    while i < size
        invariant
            from <= i <= size,
            size == bytes@.len(),
            digits == bytes@.subrange(from as int, size as int),
            all_digits(digits.take(i - from)),
            value == digits_value(digits.take(i - from)),
            value <= limit,
        decreases size - i,
    {
        let byte = bytes[i];
        assert(digits[i - from] == byte);
        if byte < 48 || byte > 57 {
            return None;
        }
        proof {
            assert(digits.take(i + 1 - from).drop_last() =~= digits.take(i - from));
            assert(all_digits(digits.take(i + 1 - from))) by {
                assert forall|j: int| 0 <= j < i + 1 - from implies is_digit(
                    #[trigger] digits.take(i + 1 - from)[j],
                ) by {
                    if j < i - from {
                        assert(digits.take(i - from)[j] == digits[j]);
                    }
                }
            }
        }
        let next = match value.checked_mul(10) {
            Some(tens) => tens.checked_add((byte - 48) as u64),
            None => None,
        };
        match next {
            Some(sum) if sum <= limit => {
                value = sum;
            },
            _ => {
                proof {
                    if all_digits(digits) {
                        lemma_digits_value_prefix(digits, i + 1 - from);
                    }
                }
                return None;
            },
        }
        i = i + 1;
    }
    proof {
        assert(digits.take(i - from) =~= digits);
    }
    Some(value)
}

/// The whole number that a text writes in decimal.
pub fn number_from_text(text: &str) -> (number: Option<i64>)
    ensures
        (match number {
            Some(value) => Some(value as int),
            None => None,
        }) == number_of(text.spec_bytes()),
{
    let bytes = text.as_bytes();
    if bytes.len() == 0 {
        return None;
    }
    if bytes[0] == 45 {
        assert(digits_of(bytes@) == bytes@.subrange(1, bytes@.len() as int));
        match read_digits(bytes, 1, 9223372036854775808) {
            Some(value) => {
                if value == 9223372036854775808 {
                    Some(i64::MIN)
                } else {
                    Some(-(value as i64))
                }
            },
            None => None,
        }
    } else if bytes[0] == 43 {
        assert(digits_of(bytes@) == bytes@.subrange(1, bytes@.len() as int));
        match read_digits(bytes, 1, 9223372036854775807) {
            Some(value) => Some(value as i64),
            None => None,
        }
    } else {
        assert(digits_of(bytes@) =~= bytes@.subrange(0, bytes@.len() as int));
        match read_digits(bytes, 0, 9223372036854775807) {
            Some(value) => Some(value as i64),
            None => None,
        }
    }
}

/// The time that a text of milliseconds since the Unix epoch names, or `None` where
/// the text is no number or the calendar has no date for it.
pub fn time_from_text(text: &str) -> (millis: Option<i64>)
    ensures
        (match millis {
            Some(value) => Some(value as int),
            None => None,
        }) == time_of(text.spec_bytes()),
{
    match number_from_text(text) {
        Some(value) => {
            if is_on_calendar(value) {
                Some(value)
            } else {
                None
            }
        },
        None => None,
    }
}

} // verus!
