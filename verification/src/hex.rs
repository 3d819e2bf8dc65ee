//! Numbers written as a fixed count of hexadecimal digits.

use vstd::prelude::*;

verus! {

/// The digit that stands for `value`, for a value under sixteen: `0` to `9`,
/// then `a` to `f`.
pub open spec fn hex_char(value: nat) -> u8 {
    if value < 10 {
        (0x30 + value) as u8
    } else {
        (0x61 + value - 10) as u8
    }
}

/// Whether `byte` is a hexadecimal digit: `0` to `9`, or `a` to `f`.
pub open spec fn is_hex_char(byte: u8) -> bool {
    (0x30 <= byte <= 0x39) || (0x61 <= byte <= 0x66)
}

/// The value of the hexadecimal digit `byte`.
pub open spec fn digit_value(byte: u8) -> nat {
    if byte <= 0x39 {
        (byte - 0x30) as nat
    } else {
        (byte - 0x61 + 10) as nat
    }
}

/// Sixteen to the power of `width`.
pub open spec fn pow16(width: nat) -> nat
    decreases width,
{
    if width == 0 {
        1
    } else {
        16 * pow16((width - 1) as nat)
    }
}

/// The last `width` hexadecimal digits of `value`, the most significant
/// first.
pub open spec fn hex_of(value: nat, width: nat) -> Seq<u8>
    decreases width,
{
    if width == 0 {
        Seq::empty()
    } else {
        hex_of(value / 16, (width - 1) as nat).push(hex_char(value % 16))
    }
}

/// Whether every byte of `digits` is a hexadecimal digit.
pub open spec fn all_hex(digits: Seq<u8>) -> bool {
    forall|i: int| 0 <= i < digits.len() ==> is_hex_char(#[trigger] digits[i])
}

/// The number that the hexadecimal digits `digits` stand for, the most
/// significant first.
pub open spec fn hex_value(digits: Seq<u8>) -> nat
    decreases digits.len(),
{
    if digits.len() == 0 {
        0
    } else {
        hex_value(digits.drop_last()) * 16 + digit_value(digits.last())
    }
}

/// Sixteen hexadecimal digits hold every `u64`.
pub proof fn lemma_pow16_of_16()
    ensures
        pow16(16) == 0x1_0000_0000_0000_0000,
{
    reveal_with_fuel(pow16, 17);
}

/// Writing a number takes as many digits as asked for, all of them
/// hexadecimal digits.
pub proof fn lemma_hex_of_digits(value: nat, width: nat)
    ensures
        hex_of(value, width).len() == width,
        all_hex(hex_of(value, width)),
    decreases width,
{
    if width > 0 {
        lemma_hex_of_digits(value / 16, (width - 1) as nat);
    }
}

/// Reading what was written gives the number back, where the digits hold
/// it.
pub proof fn lemma_hex_round_trip(value: nat, width: nat)
    requires
        value < pow16(width),
    ensures
        hex_value(hex_of(value, width)) == value,
    decreases width,
{
    if width > 0 {
        let shorter = hex_of(value / 16, (width - 1) as nat);
        lemma_hex_round_trip(value / 16, (width - 1) as nat);
        assert(hex_of(value, width).drop_last() =~= shorter);
    }
}

/// What digits stand for is less than sixteen to the power of their count.
pub proof fn lemma_hex_value_bound(digits: Seq<u8>)
    requires
        all_hex(digits),
    ensures
        hex_value(digits) < pow16(digits.len()),
    decreases digits.len(),
{
    if digits.len() > 0 {
        lemma_hex_value_bound(digits.drop_last());
    }
}

/// Returns the hexadecimal digit that stands for `value`.
pub fn hex_digit(value: u8) -> (digit: u8)
    requires
        value < 16,
    ensures
        digit == hex_char(value as nat),
        is_hex_char(digit),
        digit_value(digit) == value,
{
    if value < 10 {
        0x30 + value
    } else {
        0x61 + (value - 10)
    }
}

/// Returns the value of the hexadecimal digit `byte`, if it is one.
pub fn hex_digit_value(byte: u8) -> (value: Option<u8>)
    ensures
        match value {
            Some(value) => is_hex_char(byte) && value == digit_value(byte) && value < 16,
            None => !is_hex_char(byte),
        },
{
    if 0x30 <= byte && byte <= 0x39 {
        Some(byte - 0x30)
    } else if 0x61 <= byte && byte <= 0x66 {
        Some(byte - 0x61 + 10)
    } else {
        None
    }
}

/// Appends the last `width` hexadecimal digits of `value` to `out`.
pub fn push_hex(out: &mut Vec<u8>, value: u64, width: u8)
    ensures
        final(out)@ == old(out)@ + hex_of(value as nat, width as nat),
    decreases width,
{
    if width > 0 {
        push_hex(out, value / 16, width - 1);
        out.push(hex_digit((value % 16) as u8));
        assert(out@ =~= old(out)@ + hex_of(value as nat, width as nat));
    } else {
        assert(out@ =~= old(out)@ + hex_of(value as nat, width as nat));
    }
}

/// Reads the sixteen hexadecimal digits that start at `start` in `text`:
/// returns the number they stand for, or `None` where one of them is no
/// hexadecimal digit.
pub fn parse_hex(text: &Vec<u8>, start: usize) -> (value: Option<u64>)
    requires
        start + 16 <= text.len(),
    ensures
        match value {
            Some(value) => all_hex(text@.subrange(start as int, start + 16)) && value
                == hex_value(text@.subrange(start as int, start + 16)),
            None => !all_hex(text@.subrange(start as int, start + 16)),
        },
{
    let ghost digits = text@.subrange(start as int, start + 16);
    let mut value: u64 = 0;
    let mut k: usize = 0;
    while k < 16
        invariant
            0 <= k <= 16,
            start + 16 <= text.len(),
            digits == text@.subrange(start as int, start + 16),
            all_hex(digits.subrange(0, k as int)),
            value == hex_value(digits.subrange(0, k as int)),
        decreases 16 - k,
    {
        let digit = match hex_digit_value(text[start + k]) {
            Some(digit) => digit,
            None => {
                assert(!is_hex_char(digits[k as int]));
                return None;
            },
        };
        proof {
            let read = digits.subrange(0, k as int);
            let more = digits.subrange(0, k + 1);
            assert(more.drop_last() =~= read);
            assert(more.last() == digits[k as int]);
            lemma_hex_value_bound(read);
            lemma_pow16_grows(k as nat, 15);
            lemma_pow16_of_16();
            assert(pow16(16) == 16 * pow16(15)) by {
                reveal_with_fuel(pow16, 2);
            }
            assert forall|i: int| 0 <= i < more.len() implies is_hex_char(#[trigger] more[i]) by {
                if i < k {
                    assert(read[i] == more[i]);
                }
            }
        }
        value = value * 16 + digit as u64;
        k += 1;
    }
    assert(digits.subrange(0, 16) =~= digits);
    Some(value)
}

/// Sixteen to a larger power is no less.
pub proof fn lemma_pow16_grows(small: nat, large: nat)
    requires
        small <= large,
    ensures
        pow16(small) <= pow16(large),
        pow16(small) >= 1,
    decreases large,
{
    if small < large {
        lemma_pow16_grows(small, (large - 1) as nat);
    } else if small > 0 {
        lemma_pow16_grows((small - 1) as nat, (small - 1) as nat);
    }
}

} // verus!
