//! Parsing of decimal integer literals: an optional sign followed by one or
//! more decimal digits, valid exactly when the value fits a 64-bit signed
//! integer. This is the integer rule of the literal classifier.

use vstd::prelude::*;

verus! {

pub open spec fn spec_is_digit(c: char) -> bool {
    0x30 <= (c as u32) && (c as u32) <= 0x39
}

pub open spec fn spec_digit_val(c: char) -> int {
    (c as u32) - 0x30
}

/// The value of a digit string read in base ten.
pub open spec fn spec_digits_val(s: Seq<char>) -> int
    decreases s.len(),
{
    if s.len() == 0 {
        0
    } else {
        spec_digits_val(s.drop_last()) * 10 + spec_digit_val(s.last())
    }
}

pub open spec fn spec_all_digits(s: Seq<char>) -> bool {
    forall|i: int| 0 <= i < s.len() ==> spec_is_digit(s[i])
}

/// The result of reading `s` as a signed 64-bit decimal integer: an optional
/// `+` or `-`, then at least one digit and nothing else, with the value in
/// range.
pub open spec fn spec_parse_i64(s: Seq<char>) -> Option<i64> {
    let neg = s.len() > 0 && s[0] == '-';
    let digits = if s.len() > 0 && (s[0] == '-' || s[0] == '+') {
        s.skip(1)
    } else {
        s
    };
    if digits.len() == 0 || !spec_all_digits(digits) {
        None
    } else {
        let v = if neg {
            -spec_digits_val(digits)
        } else {
            spec_digits_val(digits)
        };
        if -9223372036854775808 <= v && v <= 9223372036854775807 {
            Some(v as i64)
        } else {
            None
        }
    }
}

proof fn lemma_digits_val_nonneg(s: Seq<char>)
    requires
        spec_all_digits(s),
    ensures
        spec_digits_val(s) >= 0,
    decreases s.len(),
{
    if s.len() > 0 {
        let t = s.drop_last();
        assert(spec_all_digits(t));
        lemma_digits_val_nonneg(t);
        assert(spec_is_digit(s.last()));
    }
}

/// Appending digits can only grow a digit string's value.
proof fn lemma_digits_val_prefix_le(s: Seq<char>, i: int)
    requires
        spec_all_digits(s),
        0 <= i <= s.len(),
    ensures
        spec_digits_val(s.take(i)) <= spec_digits_val(s),
    decreases s.len() - i,
{
    if i < s.len() {
        let t = s.take(i + 1);
        assert(spec_all_digits(t));
        assert(t.drop_last() =~= s.take(i));
        assert(spec_all_digits(s.take(i)));
        lemma_digits_val_nonneg(s.take(i));
        assert(spec_is_digit(t.last()));
        assert(spec_digits_val(t) == spec_digits_val(s.take(i)) * 10 + spec_digit_val(t.last()));
        assert(spec_digits_val(s.take(i)) * 10 >= spec_digits_val(s.take(i)));
        lemma_digits_val_prefix_le(s, i + 1);
    } else {
        assert(s.take(i) =~= s);
    }
}

/// Reads `v` as a signed decimal integer, exactly as [`spec_parse_i64`]
/// describes.
pub fn parse_i64(v: &Vec<char>) -> (r: Option<i64>)
    ensures
        r == spec_parse_i64(v@),
{
    let n = v.len();
    let mut start: usize = 0;
    let mut neg = false;
    if n > 0 && (v[0] == '-' || v[0] == '+') {
        start = 1;
        neg = v[0] == '-';
    }
    let ghost digits = v@.skip(start as int);
    proof {
        if !(v@.len() > 0 && (v@[0] == '-' || v@[0] == '+')) {
            assert(v@.skip(0) =~= v@);
        }
    }
    if start >= n {
        proof {
            assert(digits.len() == 0);
        }
        return None;
    }
    let limit: u64 = if neg {
        9223372036854775808
    } else {
        9223372036854775807
    };
    let mut acc: u64 = 0;
    let mut i: usize = start;
    while i < n
        invariant
            n == v@.len(),
            start <= i <= n,
            start <= 1,
            digits == v@.skip(start as int),
            (start == 1) == (v@.len() > 0 && (v@[0] == '-' || v@[0] == '+')),
            neg == (v@.len() > 0 && v@[0] == '-'),
            neg ==> limit == 9223372036854775808,
            !neg ==> limit == 9223372036854775807,
            spec_all_digits(digits.take(i - start)),
            acc as int == spec_digits_val(digits.take(i - start)),
            acc <= limit,
        decreases n - i,
    {
        let c = v[i];
        let u = c as u32;
        if !(0x30 <= u && u <= 0x39) {
            proof {
                if start == 0 {
                    assert(v@.skip(0) =~= v@);
                }
                assert(digits[i - start] == v@[i as int]);
                assert(!spec_is_digit(digits[i - start]));
            }
            return None;
        }
        let d: u64 = (u - 0x30) as u64;
        let wide: u128 = (acc as u128) * 10 + (d as u128);
        proof {
            let pre = digits.take(i - start);
            let cur = digits.take(i + 1 - start);
            assert(cur.drop_last() =~= pre);
            assert(cur.last() == digits[i - start]);
            assert(digits[i - start] == v@[i as int]);
            assert(spec_digits_val(cur) == spec_digits_val(pre) * 10 + spec_digit_val(c));
            assert(wide as int == spec_digits_val(cur));
        }
        if wide > limit as u128 {
            proof {
                if start == 0 {
                    assert(v@.skip(0) =~= v@);
                }
                let cur = digits.take(i + 1 - start);
                if spec_all_digits(digits) {
                    lemma_digits_val_prefix_le(digits, i + 1 - start);
                    assert(spec_digits_val(digits) >= spec_digits_val(cur));
                    assert(spec_digits_val(digits) > limit as int);
                }
            }
            return None;
        }
        acc = wide as u64;
        i = i + 1;
    }
    proof {
        assert(digits.take(n - start) =~= digits);
    }
    if neg {
        if acc == 9223372036854775808 {
            Some(i64::MIN)
        } else {
            Some(-(acc as i64))
        }
    } else {
        Some(acc as i64)
    }
}

} // verus!
