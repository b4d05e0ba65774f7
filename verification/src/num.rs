//! Decimal rendering and parsing of integers.
//!
//! 64-bit values travel through JSON as decimal strings, so the codec
//! needs its own exact rendering (no leading zeros, a leading `-` for
//! negative values) and parsing (decimal digits with an optional
//! leading `-`, rejected when malformed or out of range).

use vstd::prelude::*;

use crate::strutil::push_char;

verus! {

broadcast use vstd::seq::group_seq_axioms, vstd::std_specs::vec::group_vec_axioms;

pub open spec fn is_digit(c: char) -> bool {
    48 <= c as u32 && c as u32 <= 57
}

pub open spec fn digit_val(c: char) -> int {
    c as u32 - 48
}

pub open spec fn digit_char(d: int) -> char {
    ((48 + d) as u8) as char
}

pub open spec fn all_digits(s: Seq<char>) -> bool {
    forall|i: int| 0 <= i < s.len() ==> is_digit(#[trigger] s[i])
}

/// The numeric value of a digit string, most significant digit first.
pub open spec fn digits_val(s: Seq<char>) -> int
    decreases s.len(),
{
    if s.len() == 0 {
        0
    } else {
        digits_val(s.drop_last()) * 10 + digit_val(s.last())
    }
}

/// The canonical decimal rendering of an unsigned value.
pub open spec fn dec_of_u64(n: u64) -> Seq<char>
    decreases n,
{
    if n < 10 {
        seq![digit_char(n as int)]
    } else {
        dec_of_u64(n / 10).push(digit_char((n % 10) as int))
    }
}

/// The canonical decimal rendering of a signed value.
pub open spec fn dec_of_i64(n: i64) -> Seq<char> {
    if n >= 0 {
        dec_of_u64(n as u64)
    } else {
        seq!['-'] + dec_of_u64((-(n as int)) as u64)
    }
}

/// What a decimal string of an unsigned field means: defined exactly
/// when the string is nonempty, all digits, and its value is at most
/// `max`.
pub open spec fn parse_uint(s: Seq<char>, max: int) -> Option<int> {
    if s.len() >= 1 && all_digits(s) && digits_val(s) <= max {
        Some(digits_val(s))
    } else {
        None
    }
}

/// What a decimal string of a signed field means: an optional leading
/// `-`, then digits; rejected outside `min ..= max`.
pub open spec fn parse_sint(s: Seq<char>, min: int, max: int) -> Option<int> {
    if s.len() >= 1 && s[0] == '-' {
        let mag = s.subrange(1, s.len() as int);
        if mag.len() >= 1 && all_digits(mag) && -digits_val(mag) >= min {
            Some(-digits_val(mag))
        } else {
            None
        }
    } else {
        if s.len() >= 1 && all_digits(s) && digits_val(s) <= max {
            Some(digits_val(s))
        } else {
            None
        }
    }
}

pub proof fn lemma_digits_val_nonneg(s: Seq<char>)
    requires
        all_digits(s),
    ensures
        digits_val(s) >= 0,
    decreases s.len(),
{
    if s.len() > 0 {
        assert(all_digits(s.drop_last())) by {
            assert(forall|i: int|
                0 <= i < s.len() - 1 ==> #[trigger] s.drop_last()[i] == s[i]);
        }
        lemma_digits_val_nonneg(s.drop_last());
    }
}

/// The rendering of an unsigned value is a digit string with that
/// value and no leading zero.
pub proof fn lemma_dec_of_u64(n: u64)
    ensures
        dec_of_u64(n).len() >= 1,
        all_digits(dec_of_u64(n)),
        digits_val(dec_of_u64(n)) == n,
        dec_of_u64(n).len() > 1 ==> dec_of_u64(n)[0] != digit_char(0),
    decreases n,
{
    if n < 10 {
        let c = digit_char(n as int);
        assert(dec_of_u64(n) == seq![c]);
        assert(is_digit(c));
        assert(seq![c].drop_last() =~= Seq::<char>::empty());
        assert(seq![c].last() == c);
        assert(digits_val(Seq::<char>::empty()) == 0);
        assert(digits_val(seq![c]) == digit_val(c));
    } else {
        lemma_dec_of_u64(n / 10);
        let s = dec_of_u64(n / 10);
        let c = digit_char((n % 10) as int);
        assert(is_digit(c));
        assert(s.push(c).drop_last() =~= s);
        assert(s.push(c).last() == c);
        assert(digits_val(s.push(c)) == digits_val(s) * 10 + digit_val(c));
        assert(digit_val(c) == n % 10);
        assert(all_digits(s.push(c))) by {
            assert(forall|i: int|
                0 <= i < s.len() ==> #[trigger] s.push(c)[i] == s[i]);
        }
        assert(s.push(c)[0] == s[0]);
        if s.len() == 1 {
            assert(digits_val(s) == digit_val(s[0])) by {
                assert(s.drop_last() =~= Seq::<char>::empty());
                assert(s.last() == s[0]);
                assert(digits_val(Seq::<char>::empty()) == 0);
            }
            assert(digit_val(s[0]) == n / 10 >= 1);
            assert(digit_val(digit_char(0)) == 0);
        }
    }
}

/// Round trip: parsing the rendering of an unsigned value gives the
/// value back.
pub proof fn lemma_parse_dec_of_u64(n: u64, max: int)
    requires
        n <= max,
    ensures
        parse_uint(dec_of_u64(n), max) == Some(n as int),
{
    lemma_dec_of_u64(n);
}

/// Round trip for signed values.
pub proof fn lemma_parse_dec_of_i64(n: i64, min: int, max: int)
    requires
        min <= n <= max,
    ensures
        parse_sint(dec_of_i64(n), min, max) == Some(n as int),
{
    if n >= 0 {
        lemma_dec_of_u64(n as u64);
        let s = dec_of_u64(n as u64);
        assert(is_digit(s[0]));
        assert(s[0] != '-') by {
            assert('-' as u32 == 45);
        }
    } else {
        let m = (-(n as int)) as u64;
        lemma_dec_of_u64(m);
        let s = dec_of_i64(n);
        assert(s[0] == '-');
        assert(s.subrange(1, s.len() as int) =~= dec_of_u64(m));
    }
}

/// Each digit string extension can only keep or grow the value.
proof fn lemma_digits_val_prefix(s: Seq<char>, k: int)
    requires
        all_digits(s),
        0 <= k <= s.len(),
    ensures
        digits_val(s) >= digits_val(s.subrange(0, k)),
    decreases s.len() - k,
{
    lemma_digits_val_nonneg(s);
    if k < s.len() {
        lemma_digits_val_prefix(s, k + 1);
        let p = s.subrange(0, k + 1);
        assert(p.drop_last() =~= s.subrange(0, k));
        assert(all_digits(p)) by {
            assert(forall|i: int| 0 <= i < p.len() ==> #[trigger] p[i] == s[i]);
        }
        assert(digits_val(p) == digits_val(s.subrange(0, k)) * 10 + digit_val(p.last()));
        assert(all_digits(s.subrange(0, k))) by {
            assert(forall|i: int|
                0 <= i < k ==> #[trigger] s.subrange(0, k)[i] == s[i]);
        }
        lemma_digits_val_nonneg(s.subrange(0, k));
        assert(is_digit(p.last()));
    } else {
        assert(s.subrange(0, k) =~= s);
    }
}

/// Parses the digits of `s` from position `from` on as an unsigned
/// decimal number of at most 64 bits.
pub fn parse_dec_mag(s: &Vec<char>, from: usize) -> (r: Option<u64>)
    requires
        from <= s@.len(),
    ensures
        ({
            let sub = s@.subrange(from as int, s@.len() as int);
            match r {
                Some(v) => parse_uint(sub, u64::MAX as int) == Some(v as int),
                None => parse_uint(sub, u64::MAX as int) is None,
            }
        }),
{
    let ghost sub = s@.subrange(from as int, s@.len() as int);
    let n: usize = s.len();
    if from >= n {
        return None;
    }
    let mut acc: u64 = 0;
    let mut i: usize = from;
    while i < n
        invariant
            from <= i <= n,
            n == s@.len(),
            sub == s@.subrange(from as int, n as int),
            all_digits(sub.subrange(0, i - from)),
            acc == digits_val(sub.subrange(0, i - from)),
        decreases n - i,
    {
        let c = s[i];
        let code: u32 = c as u32;
        if code < 48 || code > 57 {
            proof {
                assert(sub[i - from] == s@[i as int]);
                assert(!is_digit(sub[i - from]));
            }
            return None;
        }
        let d: u64 = (code - 48) as u64;
        proof {
            assert(sub.subrange(0, i + 1 - from).drop_last() =~= sub.subrange(0, i - from));
            assert(sub.subrange(0, i + 1 - from).last() == s@[i as int]);
            assert(all_digits(sub.subrange(0, i + 1 - from))) by {
                assert(forall|t: int|
                    0 <= t < i - from ==> #[trigger] sub.subrange(0, i + 1 - from)[t]
                        == sub.subrange(0, i - from)[t]);
            }
        }
        if acc > (u64::MAX - d) / 10 {
            proof {
                lemma_digits_val_nonneg(sub.subrange(0, i - from));
                assert(digits_val(sub.subrange(0, i + 1 - from)) == acc * 10 + d);
                assert(acc * 10 + d > u64::MAX) by (nonlinear_arith)
                    requires
                        acc > (u64::MAX - d) / 10,
                        d < 10,
                ;
                if all_digits(sub) {
                    lemma_digits_val_prefix(sub, i + 1 - from);
                }
            }
            return None;
        }
        proof {
            assert(acc * 10 + d <= u64::MAX) by (nonlinear_arith)
                requires
                    acc <= (u64::MAX - d) / 10,
                    d < 10,
            ;
        }
        acc = acc * 10 + d;
        i = i + 1;
    }
    proof {
        assert(sub.subrange(0, n - from) =~= sub);
    }
    Some(acc)
}

/// Parses a whole string as an unsigned decimal number, rejecting
/// values above `max`.
pub fn parse_dec_uint(s: &Vec<char>, max: u64) -> (r: Option<u64>)
    ensures
        match r {
            Some(v) => parse_uint(s@, max as int) == Some(v as int),
            None => parse_uint(s@, max as int) is None,
        },
{
    proof {
        assert(s@.subrange(0, s@.len() as int) =~= s@);
    }
    match parse_dec_mag(s, 0) {
        Some(v) => {
            if v <= max {
                Some(v)
            } else {
                None
            }
        }
        None => None,
    }
}

/// Parses a whole string as a signed decimal number within
/// `min ..= max`.
pub fn parse_dec_sint(s: &Vec<char>, min: i64, max: i64) -> (r: Option<i64>)
    requires
        min <= 0 <= max,
    ensures
        match r {
            Some(v) => parse_sint(s@, min as int, max as int) == Some(v as int),
            None => parse_sint(s@, min as int, max as int) is None,
        },
{
    let n: usize = s.len();
    if n == 0 {
        return None;
    }
    if s[0] == '-' {
        match parse_dec_mag(s, 1) {
            Some(v) => {
                proof {
                    lemma_digits_val_nonneg(s@.subrange(1, n as int));
                }
                if (v as i128) <= -(min as i128) {
                    Some((-(v as i128)) as i64)
                } else {
                    None
                }
            }
            None => None,
        }
    } else {
        proof {
            assert(s@.subrange(0, s@.len() as int) =~= s@);
        }
        match parse_dec_mag(s, 0) {
            Some(v) => {
                if v <= (max as u64) {
                    Some(v as i64)
                } else {
                    None
                }
            }
            None => None,
        }
    }
}

/// Renders an unsigned value in decimal.
pub fn u64_to_dec(n: u64) -> (s: String)
    ensures
        s@ == dec_of_u64(n),
    decreases n,
{
    if n < 10 {
        let mut s = String::new();
        push_char(&mut s, (48u8 + n as u8) as char);
        proof {
            assert(Seq::<char>::empty().push(digit_char(n as int)) =~= seq![
                digit_char(n as int),
            ]);
        }
        s
    } else {
        let mut s = u64_to_dec(n / 10);
        push_char(&mut s, (48u8 + (n % 10) as u8) as char);
        s
    }
}

/// Renders a signed value in decimal.
pub fn i64_to_dec(n: i64) -> (s: String)
    ensures
        s@ == dec_of_i64(n),
{
    if n >= 0 {
        u64_to_dec(n as u64)
    } else {
        let mag: u64 = (-(n as i128)) as u64;
        let mut s = String::new();
        push_char(&mut s, '-');
        let d = u64_to_dec(mag);
        s.append(d.as_str());
        proof {
            assert(Seq::<char>::empty().push('-') + d@ =~= seq!['-'] + dec_of_u64(mag));
        }
        s
    }
}

} // verus!
