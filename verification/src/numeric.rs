use vstd::prelude::*;

verus! {

pub open spec fn is_dec_digit(c: char) -> bool {
    '0' <= c && c <= '9'
}

pub open spec fn dec_digit_val(c: char) -> int {
    c as int - '0' as int
}

/// The value of a digit string, most significant digit first.
pub open spec fn spec_dec_value(s: Seq<char>) -> int
    decreases s.len(),
{
    if s.len() == 0 {
        0
    } else {
        spec_dec_value(s.drop_last()) * 10 + dec_digit_val(s.last())
    }
}

pub open spec fn spec_all_digits(s: Seq<char>) -> bool {
    forall|i: int| 0 <= i < s.len() ==> is_dec_digit(#[trigger] s[i])
}

/// What `str::parse::<u32>` accepts: an optional leading plus sign, then at
/// least one decimal digit, with the value fitting in the type.
pub open spec fn spec_parse_u32(s: Seq<char>) -> Option<u32> {
    let digits = if s.len() > 0 && s[0] == '+' {
        s.drop_first()
    } else {
        s
    };
    if digits.len() > 0 && spec_all_digits(digits) && spec_dec_value(digits) <= u32::MAX {
        Some(spec_dec_value(digits) as u32)
    } else {
        None
    }
}

proof fn lemma_dec_value_nonneg(s: Seq<char>)
    requires
        spec_all_digits(s),
    ensures
        spec_dec_value(s) >= 0,
    decreases s.len(),
{
    if s.len() > 0 {
        assert(spec_all_digits(s.drop_last()));
        lemma_dec_value_nonneg(s.drop_last());
    }
}

proof fn lemma_dec_value_step(s: Seq<char>, i: int)
    requires
        0 <= i < s.len(),
    ensures
        spec_dec_value(s.take(i + 1)) == spec_dec_value(s.take(i)) * 10 + dec_digit_val(s[i]),
{
    assert(s.take(i + 1).drop_last() =~= s.take(i));
}

/// A longer digit prefix never has a smaller value.
proof fn lemma_dec_value_grows(s: Seq<char>, i: int, j: int)
    requires
        spec_all_digits(s),
        0 <= i <= j <= s.len(),
    ensures
        spec_dec_value(s.take(i)) <= spec_dec_value(s.take(j)),
    decreases j - i,
{
    if i < j {
        lemma_dec_value_grows(s, i, j - 1);
        lemma_dec_value_step(s, j - 1);
        assert(spec_all_digits(s.take(j - 1)));
        lemma_dec_value_nonneg(s.take(j - 1));
    }
}

/// Decimal parsing of a `u32`, as the standard numeric grammar reads it: an
/// optional plus sign, one or more digits, and a value within range; `None`
/// on everything else.
pub fn parse_u32(s: &str) -> (r: Option<u32>)
    ensures
        r == spec_parse_u32(s@),
{
    if !s.is_ascii() {
        proof {
            let i = choose|i: int| 0 <= i < s@.len() && !('\0' <= #[trigger] s@[i] <= '\u{7f}');
            let digits = if s@.len() > 0 && s@[0] == '+' {
                s@.drop_first()
            } else {
                s@
            };
            if s@.len() > 0 && s@[0] == '+' {
                assert(i >= 1);
                assert(digits[i - 1] == s@[i]);
                assert(!is_dec_digit(digits[i - 1]));
            } else {
                assert(!is_dec_digit(digits[i]));
            }
        }
        return None;
    }
    let len = s.unicode_len();
    let start: usize = if len > 0 && s.get_char(0) == '+' {
        1
    } else {
        0
    };
    let ghost digits = if s@.len() > 0 && s@[0] == '+' {
        s@.drop_first()
    } else {
        s@
    };
    proof {
        assert(digits =~= s@.skip(start as int));
    }
    if len == start {
        return None;
    }
    let mut acc: u64 = 0;
    let mut i: usize = start;
    while i < len
        invariant
            s.is_ascii(),
            start <= i <= len,
            len == s@.len(),
            start == if s@.len() > 0 && s@[0] == '+' {
                1int
            } else {
                0int
            },
            digits == s@.skip(start as int),
            spec_all_digits(s@.subrange(start as int, i as int)),
            acc == spec_dec_value(s@.subrange(start as int, i as int)),
            acc <= u32::MAX,
        decreases len - i,
    {
        let b = s.get_ascii(i);
        if b < 48 || b > 57 {
            proof {
                assert(digits[i - start] == s@[i as int]);
                assert(!is_dec_digit(digits[i - start]));
            }
            return None;
        }
        let d = (b - 48) as u64;
        acc = acc * 10 + d;
        proof {
            assert(s@.subrange(start as int, i + 1).drop_last() =~= s@.subrange(
                start as int,
                i as int,
            ));
            assert(is_dec_digit(s@[i as int]));
            assert(dec_digit_val(s@[i as int]) == d);
        }
        if acc > 0xFFFF_FFFFu64 {
            proof {
                assert(spec_dec_value(s@.subrange(start as int, i + 1)) == acc);
                assert(digits.take(i + 1 - start) =~= s@.subrange(start as int, i + 1));
                let pdigits = if s@.len() > 0 && s@[0] == '+' {
                    s@.drop_first()
                } else {
                    s@
                };
                assert(pdigits =~= digits);
                if spec_all_digits(digits) {
                    lemma_dec_value_grows(digits, i + 1 - start, digits.len() as int);
                    assert(digits.take(digits.len() as int) =~= digits);
                    assert(spec_dec_value(digits) > u32::MAX);
                }
                assert(spec_parse_u32(s@) is None);
            }
            return None;
        }
        i = i + 1;
    }
    proof {
        assert(s@.subrange(start as int, len as int) =~= digits);
    }
    Some(acc as u32)
}

} // verus!
