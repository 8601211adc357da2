//! Decimal text: rendering counts into messages and parsing numeric
//! command-line arguments. The digit table is shared with the hex encoding
//! of identifiers.

use vstd::prelude::*;
use vstd::string::StringExecFns;

verus! {

/// The lowercase digit character for a value below sixteen; the first ten
/// are the decimal digits.
pub open spec fn digit_char_spec(n: int) -> char {
    if n == 0 {
        '0'
    } else if n == 1 {
        '1'
    } else if n == 2 {
        '2'
    } else if n == 3 {
        '3'
    } else if n == 4 {
        '4'
    } else if n == 5 {
        '5'
    } else if n == 6 {
        '6'
    } else if n == 7 {
        '7'
    } else if n == 8 {
        '8'
    } else if n == 9 {
        '9'
    } else if n == 10 {
        'a'
    } else if n == 11 {
        'b'
    } else if n == 12 {
        'c'
    } else if n == 13 {
        'd'
    } else if n == 14 {
        'e'
    } else {
        'f'
    }
}

pub(crate) fn digit_str(n: u8) -> (r: &'static str)
    requires
        n < 16,
    ensures
        r@ == seq![digit_char_spec(n as int)],
{
    if n == 0 {
        proof {
            reveal_strlit("0");
            assert("0"@ =~= seq!['0']);
        }
        "0"
    } else if n == 1 {
        proof {
            reveal_strlit("1");
            assert("1"@ =~= seq!['1']);
        }
        "1"
    } else if n == 2 {
        proof {
            reveal_strlit("2");
            assert("2"@ =~= seq!['2']);
        }
        "2"
    } else if n == 3 {
        proof {
            reveal_strlit("3");
            assert("3"@ =~= seq!['3']);
        }
        "3"
    } else if n == 4 {
        proof {
            reveal_strlit("4");
            assert("4"@ =~= seq!['4']);
        }
        "4"
    } else if n == 5 {
        proof {
            reveal_strlit("5");
            assert("5"@ =~= seq!['5']);
        }
        "5"
    } else if n == 6 {
        proof {
            reveal_strlit("6");
            assert("6"@ =~= seq!['6']);
        }
        "6"
    } else if n == 7 {
        proof {
            reveal_strlit("7");
            assert("7"@ =~= seq!['7']);
        }
        "7"
    } else if n == 8 {
        proof {
            reveal_strlit("8");
            assert("8"@ =~= seq!['8']);
        }
        "8"
    } else if n == 9 {
        proof {
            reveal_strlit("9");
            assert("9"@ =~= seq!['9']);
        }
        "9"
    } else if n == 10 {
        proof {
            reveal_strlit("a");
            assert("a"@ =~= seq!['a']);
        }
        "a"
    } else if n == 11 {
        proof {
            reveal_strlit("b");
            assert("b"@ =~= seq!['b']);
        }
        "b"
    } else if n == 12 {
        proof {
            reveal_strlit("c");
            assert("c"@ =~= seq!['c']);
        }
        "c"
    } else if n == 13 {
        proof {
            reveal_strlit("d");
            assert("d"@ =~= seq!['d']);
        }
        "d"
    } else if n == 14 {
        proof {
            reveal_strlit("e");
            assert("e"@ =~= seq!['e']);
        }
        "e"
    } else {
        proof {
            reveal_strlit("f");
            assert("f"@ =~= seq!['f']);
        }
        "f"
    }
}

// ------------------------------------------------------------------
// Rendering.
// ------------------------------------------------------------------

/// The decimal text of a non-negative number, without sign or padding.
pub open spec fn dec_of(n: nat) -> Seq<char>
    decreases n,
{
    if n < 10 {
        seq![digit_char_spec(n as int)]
    } else {
        dec_of(n / 10) + seq![digit_char_spec((n % 10) as int)]
    }
}

/// Renders a number as decimal text.
pub fn fmt_u64(n: u64) -> (r: String)
    ensures
        r@ == dec_of(n as nat),
    decreases n,
{
    if n < 10 {
        let mut s = String::new();
        s.append(digit_str(n as u8));
        proof {
            assert(s@ =~= dec_of(n as nat));
        }
        s
    } else {
        let mut s = fmt_u64(n / 10);
        s.append(digit_str((n % 10) as u8));
        proof {
            assert(s@ =~= dec_of(n as nat));
        }
        s
    }
}

// ------------------------------------------------------------------
// Parsing.
// ------------------------------------------------------------------

pub open spec fn is_dec_digit(c: char) -> bool {
    48 <= c as int && c as int <= 57
}

pub open spec fn dec_digit_val(c: char) -> int {
    c as int - 48
}

pub open spec fn all_dec_digits(s: Seq<char>) -> bool {
    forall|i: int| 0 <= i < s.len() ==> is_dec_digit(s[i])
}

/// The number the digit text denotes, most significant digit first.
pub open spec fn dec_value(s: Seq<char>) -> int
    decreases s.len(),
{
    if s.len() == 0 {
        0
    } else {
        dec_value(s.drop_last()) * 10 + dec_digit_val(s.last())
    }
}

pub proof fn lemma_dec_value_nonneg(s: Seq<char>)
    requires
        all_dec_digits(s),
    ensures
        dec_value(s) >= 0,
    decreases s.len(),
{
    if s.len() > 0 {
        assert(all_dec_digits(s.drop_last())) by {
            assert(forall|i: int| 0 <= i < s.len() - 1 ==> s.drop_last()[i] == s[i]);
        }
        lemma_dec_value_nonneg(s.drop_last());
    }
}

/// A longer digit text never denotes a smaller number: the value of a prefix
/// bounds the value of the whole from below.
pub proof fn lemma_dec_value_prefix_le(s: Seq<char>, k: int)
    requires
        all_dec_digits(s),
        0 <= k <= s.len(),
    ensures
        dec_value(s.take(k)) <= dec_value(s),
    decreases s.len(),
{
    if k < s.len() {
        assert(all_dec_digits(s.drop_last())) by {
            assert(forall|i: int| 0 <= i < s.len() - 1 ==> s.drop_last()[i] == s[i]);
        }
        assert(s.take(k) =~= s.drop_last().take(k));
        lemma_dec_value_prefix_le(s.drop_last(), k);
        lemma_dec_value_nonneg(s.drop_last());
        assert(dec_digit_val(s.last()) >= 0);
        assert(dec_value(s.drop_last()) * 10 >= dec_value(s.drop_last()));
    } else {
        assert(s.take(k) =~= s);
    }
}

/// The digit part of a numeric argument: an optional leading plus sign is
/// skipped, as the standard radix-10 integer parse skips it.
pub open spec fn dec_digits_of(s: Seq<char>) -> Seq<char> {
    if s.len() > 0 && s[0] == '+' {
        s.drop_first()
    } else {
        s
    }
}

/// Whether a text is a well-formed unsigned decimal argument: at least one
/// digit after the optional plus sign, and nothing but digits.
pub open spec fn unsigned_text_valid(s: Seq<char>) -> bool {
    dec_digits_of(s).len() > 0 && all_dec_digits(dec_digits_of(s))
}

/// The number a well-formed unsigned decimal argument denotes.
pub open spec fn unsigned_text_value(s: Seq<char>) -> int {
    dec_value(dec_digits_of(s))
}

/// Parses an unsigned decimal argument, as a 0-based pipeline index is
/// parsed: an optional plus sign, then digits. Fails on an empty or
/// malformed text and on a value too large for the machine.
pub fn parse_usize(s: &str) -> (r: Result<usize, String>)
    ensures
        r is Ok <==> unsigned_text_valid(s@) && unsigned_text_value(s@) <= usize::MAX,
        r matches Ok(v) ==> v == unsigned_text_value(s@),
{
    let n = s.unicode_len();
    let mut start: usize = 0;
    if n > 0 && s.get_char(0) == '+' {
        start = 1;
    }
    let ghost digits = dec_digits_of(s@);
    proof {
        assert(digits =~= s@.subrange(start as int, n as int));
    }
    if start == n {
        return Err(String::from_str("cannot parse integer from empty string"));
    }
    let mut v: usize = 0;
    let mut i: usize = start;
    while i < n
        invariant
            start <= i <= n,
            n == s@.len(),
            digits == dec_digits_of(s@),
            digits =~= s@.subrange(start as int, n as int),
            all_dec_digits(digits.take(i - start)),
            v == dec_value(digits.take(i - start)),
        decreases n - i,
    {
        let c = s.get_char(i);
        let u = c as u32;
        if u < 48 || u > 57 {
            proof {
                assert(digits[i - start] == s@[i as int]);
                assert(!is_dec_digit(s@[i as int]));
            }
            return Err(String::from_str("invalid digit found in string"));
        }
        let d = (u - 48) as usize;
        proof {
            assert(digits.take(i - start + 1).drop_last() =~= digits.take(i - start));
            assert(digits.take(i - start + 1).last() == s@[i as int]);
            assert(is_dec_digit(s@[i as int]));
            assert(dec_digit_val(s@[i as int]) == d);
        }
        if v > (usize::MAX - d) / 10 {
            proof {
                assert(dec_value(digits.take(i - start + 1)) == v * 10 + d);
                assert(dec_value(digits.take(i - start + 1)) > usize::MAX);
                lemma_dec_value_prefix_le_helper(digits, i - start + 1);
            }
            return Err(String::from_str("number too large to fit in target type"));
        }
        v = v * 10 + d;
        i = i + 1;
    }
    proof {
        assert(digits.take(n - start) =~= digits);
    }
    Ok(v)
}

/// Bridges the prefix bound to a full text whose digits are only known to be
/// digits up to the prefix: the remaining characters must already have been
/// checked to be digits for the bound to hold, so the caller establishes
/// digitness up to and including the offending prefix, and this lemma only
/// needs the prefix value to exceed the bound while the text remains digits.
proof fn lemma_dec_value_prefix_le_helper(s: Seq<char>, k: int)
    requires
        0 <= k <= s.len(),
        all_dec_digits(s.take(k)),
        dec_value(s.take(k)) > usize::MAX,
    ensures
        !(all_dec_digits(s) && dec_value(s) <= usize::MAX),
{
    if all_dec_digits(s) {
        lemma_dec_value_prefix_le(s, k);
    }
}

/// Whether a text is a well-formed signed decimal argument: an optional plus
/// or minus sign, then at least one digit.
pub open spec fn signed_text_valid(s: Seq<char>) -> bool {
    signed_digits_of(s).len() > 0 && all_dec_digits(signed_digits_of(s))
}

pub open spec fn signed_digits_of(s: Seq<char>) -> Seq<char> {
    if s.len() > 0 && (s[0] == '+' || s[0] == '-') {
        s.drop_first()
    } else {
        s
    }
}

pub open spec fn signed_text_negative(s: Seq<char>) -> bool {
    s.len() > 0 && s[0] == '-'
}

/// The number a well-formed signed decimal argument denotes.
pub open spec fn signed_text_value(s: Seq<char>) -> int {
    if signed_text_negative(s) {
        -dec_value(signed_digits_of(s))
    } else {
        dec_value(signed_digits_of(s))
    }
}

/// Parses a signed decimal argument, as a result limit is parsed: an
/// optional sign, then digits. Fails on an empty or malformed text and on a
/// value outside the 64-bit signed range.
pub fn parse_i64(s: &str) -> (r: Result<i64, String>)
    ensures
        r is Ok <==> signed_text_valid(s@) && i64::MIN <= signed_text_value(s@) <= i64::MAX,
        r matches Ok(v) ==> v == signed_text_value(s@),
{
    let n = s.unicode_len();
    let mut start: usize = 0;
    let mut negative: bool = false;
    if n > 0 {
        let c0 = s.get_char(0);
        if c0 == '+' {
            start = 1;
        } else if c0 == '-' {
            start = 1;
            negative = true;
        }
    }
    let ghost digits = signed_digits_of(s@);
    proof {
        assert(digits =~= s@.subrange(start as int, n as int));
        assert(negative == signed_text_negative(s@));
    }
    if start == n {
        return Err(String::from_str("cannot parse integer from empty string"));
    }
    // The magnitude is accumulated as u64: it can reach the magnitude of the
    // minimum 64-bit value, which the positive range does not hold.
    let mut v: u64 = 0;
    let mut i: usize = start;
    let bound: u64 = if negative {
        9223372036854775808u64
    } else {
        9223372036854775807u64
    };
    while i < n
        invariant
            start <= i <= n,
            n == s@.len(),
            digits == signed_digits_of(s@),
            digits =~= s@.subrange(start as int, n as int),
            negative == signed_text_negative(s@),
            bound == if negative {
                9223372036854775808u64
            } else {
                9223372036854775807u64
            },
            all_dec_digits(digits.take(i - start)),
            v == dec_value(digits.take(i - start)),
            v <= bound,
        decreases n - i,
    {
        let c = s.get_char(i);
        let u = c as u32;
        if u < 48 || u > 57 {
            proof {
                assert(digits[i - start] == s@[i as int]);
                assert(!is_dec_digit(s@[i as int]));
            }
            return Err(String::from_str("invalid digit found in string"));
        }
        let d = (u - 48) as u64;
        proof {
            assert(digits.take(i - start + 1).drop_last() =~= digits.take(i - start));
            assert(digits.take(i - start + 1).last() == s@[i as int]);
            assert(is_dec_digit(s@[i as int]));
            assert(dec_digit_val(s@[i as int]) == d);
        }
        if v > (bound - d) / 10 {
            proof {
                assert(dec_value(digits.take(i - start + 1)) == v * 10 + d);
                assert(dec_value(digits.take(i - start + 1)) > bound);
                lemma_signed_overflow(digits, i - start + 1, bound as int);
            }
            return Err(String::from_str("number out of range for target type"));
        }
        v = v * 10 + d;
        i = i + 1;
    }
    proof {
        assert(digits.take(n - start) =~= digits);
    }
    if negative {
        if v == 9223372036854775808u64 {
            return Ok(i64::MIN);
        }
        let m = v as i64;
        Ok(0i64 - m)
    } else {
        Ok(v as i64)
    }
}

proof fn lemma_signed_overflow(s: Seq<char>, k: int, bound: int)
    requires
        0 <= k <= s.len(),
        all_dec_digits(s.take(k)),
        dec_value(s.take(k)) > bound,
    ensures
        !(all_dec_digits(s) && dec_value(s) <= bound),
{
    if all_dec_digits(s) {
        lemma_dec_value_prefix_le(s, k);
    }
}

} // verus!
