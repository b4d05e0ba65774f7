//! Base64 (standard alphabet, padded) rendering and parsing of byte
//! strings, as the proto3 JSON mapping uses for `bytes` fields.

use vstd::prelude::*;

use crate::strutil::push_char;

verus! {

broadcast use vstd::seq::group_seq_axioms, vstd::std_specs::vec::group_vec_axioms;

/// The character of one six-bit value in the standard alphabet.
pub open spec fn b64_char(v: int) -> char {
    if v < 26 {
        ((65 + v) as u8) as char  // 'A' ..= 'Z'
    } else if v < 52 {
        ((71 + v) as u8) as char  // 'a' ..= 'z'
    } else if v < 62 {
        ((v - 4) as u8) as char  // '0' ..= '9'
    } else if v == 62 {
        '+'
    } else {
        '/'
    }
}

pub open spec fn is_b64_char(c: char) -> bool {
    ||| 65 <= c as u32 <= 90
    ||| 97 <= c as u32 <= 122
    ||| 48 <= c as u32 <= 57
    ||| c == '+'
    ||| c == '/'
}

/// The six-bit value of an alphabet character.
pub open spec fn b64_val(c: char) -> int {
    if 65 <= c as u32 <= 90 {
        c as u32 - 65
    } else if 97 <= c as u32 <= 122 {
        c as u32 - 71
    } else if 48 <= c as u32 <= 57 {
        c as u32 + 4
    } else if c == '+' {
        62
    } else {
        63
    }
}

pub proof fn lemma_b64_char(v: int)
    requires
        0 <= v < 64,
    ensures
        is_b64_char(b64_char(v)),
        b64_val(b64_char(v)) == v,
        b64_char(v) != '=',
{
    assert('+' as u32 == 43);
    assert('/' as u32 == 47);
    assert('=' as u32 == 61);
}

/// The base64 rendering of a byte string: three bytes become four
/// characters; a final group of one or two bytes is padded with `=`.
pub open spec fn b64_enc(b: Seq<u8>) -> Seq<char>
    decreases b.len(),
{
    if b.len() == 0 {
        Seq::empty()
    } else if b.len() == 1 {
        let b0 = b[0] as int;
        seq![b64_char(b0 / 4), b64_char((b0 % 4) * 16), '=', '=']
    } else if b.len() == 2 {
        let b0 = b[0] as int;
        let b1 = b[1] as int;
        seq![
            b64_char(b0 / 4),
            b64_char((b0 % 4) * 16 + b1 / 16),
            b64_char((b1 % 16) * 4),
            '=',
        ]
    } else {
        let b0 = b[0] as int;
        let b1 = b[1] as int;
        let b2 = b[2] as int;
        seq![
            b64_char(b0 / 4),
            b64_char((b0 % 4) * 16 + b1 / 16),
            b64_char((b1 % 16) * 4 + b2 / 64),
            b64_char(b2 % 64),
        ] + b64_enc(b.subrange(3, b.len() as int))
    }
}

/// The three bytes of one unpadded group of four characters.
pub open spec fn b64_group3(s: Seq<char>) -> Seq<u8> {
    seq![
        (b64_val(s[0]) * 4 + b64_val(s[1]) / 16) as u8,
        ((b64_val(s[1]) % 16) * 16 + b64_val(s[2]) / 4) as u8,
        ((b64_val(s[2]) % 4) * 64 + b64_val(s[3])) as u8,
    ]
}

/// The bytes of the final group of four characters, honouring padding.
pub open spec fn b64_dec_last(s: Seq<char>) -> Option<Seq<u8>> {
    if !(is_b64_char(s[0]) && is_b64_char(s[1])) {
        None
    } else if s[2] == '=' && s[3] == '=' {
        if b64_val(s[1]) % 16 == 0 {
            Some(seq![(b64_val(s[0]) * 4 + b64_val(s[1]) / 16) as u8])
        } else {
            None
        }
    } else if s[3] == '=' {
        if is_b64_char(s[2]) && b64_val(s[2]) % 4 == 0 {
            Some(
                seq![
                    (b64_val(s[0]) * 4 + b64_val(s[1]) / 16) as u8,
                    ((b64_val(s[1]) % 16) * 16 + b64_val(s[2]) / 4) as u8,
                ],
            )
        } else {
            None
        }
    } else {
        if is_b64_char(s[2]) && is_b64_char(s[3]) {
            Some(b64_group3(s))
        } else {
            None
        }
    }
}

/// What a base64 string means: defined exactly on well-padded strings
/// over the standard alphabet.
pub open spec fn b64_dec(s: Seq<char>) -> Option<Seq<u8>>
    decreases s.len(),
{
    if s.len() == 0 {
        Some(Seq::empty())
    } else if s.len() % 4 != 0 {
        None
    } else if s.len() == 4 {
        b64_dec_last(s)
    } else {
        if is_b64_char(s[0]) && is_b64_char(s[1]) && is_b64_char(s[2]) && is_b64_char(s[3]) {
            match b64_dec(s.subrange(4, s.len() as int)) {
                Some(rest) => Some(b64_group3(s) + rest),
                None => None,
            }
        } else {
            None
        }
    }
}

pub proof fn lemma_b64_enc_len(b: Seq<u8>)
    ensures
        b64_enc(b).len() % 4 == 0,
        b.len() > 0 ==> b64_enc(b).len() >= 4,
        b.len() > 3 ==> b64_enc(b).len() > 4,
    decreases b.len(),
{
    if b.len() > 2 {
        lemma_b64_enc_len(b.subrange(3, b.len() as int));
    }
}

/// Round trip: parsing the rendering of a byte string gives the bytes
/// back.
pub proof fn lemma_b64_dec_enc(b: Seq<u8>)
    ensures
        b64_dec(b64_enc(b)) == Some(b),
    decreases b.len(),
{
    let s = b64_enc(b);
    if b.len() == 0 {
        assert(b =~= Seq::<u8>::empty());
    } else if b.len() == 1 {
        let b0 = b[0] as int;
        lemma_b64_char(b0 / 4);
        lemma_b64_char((b0 % 4) * 16);
        assert(((b0 % 4) * 16) % 16 == 0 && (b0 % 4) * 16 < 64 && b0 / 4 < 64 && (b0 / 4) * 4 + (
        (b0 % 4) * 16) / 16 == b0) by (nonlinear_arith)
            requires
                0 <= b0 < 256,
        ;
        assert(b64_dec(s) == Some(seq![b0 as u8]));
        assert(seq![b0 as u8] =~= b);
    } else if b.len() == 2 {
        let b0 = b[0] as int;
        let b1 = b[1] as int;
        let v0 = b0 / 4;
        let v1 = (b0 % 4) * 16 + b1 / 16;
        let v2 = (b1 % 16) * 4;
        assert(v0 < 64 && v1 < 64 && v2 < 64 && v2 % 4 == 0 && v0 * 4 + v1 / 16 == b0 && (v1 % 16)
            * 16 + v2 / 4 == b1) by (nonlinear_arith)
            requires
                0 <= b0 < 256,
                0 <= b1 < 256,
                v0 == b0 / 4,
                v1 == (b0 % 4) * 16 + b1 / 16,
                v2 == (b1 % 16) * 4,
        ;
        lemma_b64_char(v0);
        lemma_b64_char(v1);
        lemma_b64_char(v2);
        assert(b64_dec(s) == Some(seq![b0 as u8, b1 as u8]));
        assert(seq![b0 as u8, b1 as u8] =~= b);
    } else {
        let b0 = b[0] as int;
        let b1 = b[1] as int;
        let b2 = b[2] as int;
        let v0 = b0 / 4;
        let v1 = (b0 % 4) * 16 + b1 / 16;
        let v2 = (b1 % 16) * 4 + b2 / 64;
        let v3 = b2 % 64;
        assert(v0 < 64 && v1 < 64 && v2 < 64 && v3 < 64 && v0 * 4 + v1 / 16 == b0 && (v1 % 16) * 16
            + v2 / 4 == b1 && (v2 % 4) * 64 + v3 == b2) by (nonlinear_arith)
            requires
                0 <= b0 < 256,
                0 <= b1 < 256,
                0 <= b2 < 256,
                v0 == b0 / 4,
                v1 == (b0 % 4) * 16 + b1 / 16,
                v2 == (b1 % 16) * 4 + b2 / 64,
                v3 == b2 % 64,
        ;
        lemma_b64_char(v0);
        lemma_b64_char(v1);
        lemma_b64_char(v2);
        lemma_b64_char(v3);
        let rest = b.subrange(3, b.len() as int);
        lemma_b64_dec_enc(rest);
        lemma_b64_enc_len(rest);
        let srest = b64_enc(rest);
        assert(s =~= seq![b64_char(v0), b64_char(v1), b64_char(v2), b64_char(v3)] + srest);
        if rest.len() == 0 {
            assert(s.len() == 4);
            assert(b64_dec_last(s) == Some(b64_group3(s)));
            assert(b64_group3(s) =~= b);
        } else {
            assert(s.len() > 4 && s.len() % 4 == 0);
            assert(s.subrange(4, s.len() as int) =~= srest);
            assert(b64_group3(s) + rest =~= b);
        }
    }
}

/// One character of the alphabet, by six-bit value.
fn sextet_char(v: u8) -> (c: char)
    requires
        v < 64,
    ensures
        c == b64_char(v as int),
{
    if v < 26 {
        (65 + v) as char
    } else if v < 52 {
        (71 + v) as char
    } else if v < 62 {
        (v - 4) as char
    } else if v == 62 {
        '+'
    } else {
        '/'
    }
}

/// The six-bit value of a character, or `None` outside the alphabet.
fn sextet_val(c: char) -> (r: Option<u8>)
    ensures
        match r {
            Some(v) => is_b64_char(c) && v == b64_val(c) && v < 64,
            None => !is_b64_char(c),
        },
{
    let code: u32 = c as u32;
    if 65 <= code && code <= 90 {
        Some((code - 65) as u8)
    } else if 97 <= code && code <= 122 {
        Some((code - 71) as u8)
    } else if 48 <= code && code <= 57 {
        Some((code + 4) as u8)
    } else if code == 43 {
        proof {
            assert('+' as u32 == 43);
            assert(c as u32 == '+' as u32 ==> c == '+') by {
                assert(c as u32 == code);
            }
        }
        Some(62)
    } else if code == 47 {
        proof {
            assert('/' as u32 == 47);
        }
        Some(63)
    } else {
        proof {
            assert('+' as u32 == 43 && '/' as u32 == 47);
        }
        None
    }
}

/// Renders a byte string in padded base64.
pub fn b64_encode(b: &Vec<u8>) -> (s: String)
    ensures
        s@ == b64_enc(b@),
{
    let n: usize = b.len();
    let mut s = String::new();
    let mut i: usize = 0;
    proof {
        assert(b@.subrange(0, n as int) =~= b@);
        assert(Seq::<char>::empty() + b64_enc(b@) =~= b64_enc(b@));
    }
    while n - i >= 3
        invariant
            i <= n,
            n == b@.len(),
            b64_enc(b@) == s@ + b64_enc(b@.subrange(i as int, n as int)),
        decreases n - i,
    {
        let ghost suffix = b@.subrange(i as int, n as int);
        let b0 = b[i];
        let b1 = b[i + 1];
        let b2 = b[i + 2];
        proof {
            assert(suffix.len() >= 3);
            assert(suffix[0] == b0 && suffix[1] == b1 && suffix[2] == b2);
            assert((b0 % 4) * 16 + b1 / 16 < 64 && (b1 % 16) * 4 + b2 / 64 < 64)
                by (nonlinear_arith)
                requires
                    b0 < 256 && b1 < 256 && b2 < 256,
            ;
            assert(suffix.subrange(3, suffix.len() as int) =~= b@.subrange(
                i + 3 as int,
                n as int,
            ));
        }
        let ghost s_before = s@;
        push_char(&mut s, sextet_char(b0 / 4));
        push_char(&mut s, sextet_char((b0 % 4) * 16 + b1 / 16));
        push_char(&mut s, sextet_char((b1 % 16) * 4 + b2 / 64));
        push_char(&mut s, sextet_char(b2 % 64));
        proof {
            let group = seq![
                b64_char(b0 as int / 4),
                b64_char((b0 as int % 4) * 16 + b1 as int / 16),
                b64_char((b1 as int % 16) * 4 + b2 as int / 64),
                b64_char(b2 as int % 64),
            ];
            assert(s@ =~= s_before + group);
            assert(b64_enc(suffix) == group + b64_enc(suffix.subrange(3, suffix.len() as int)));
            assert((s_before + group) + b64_enc(b@.subrange(i + 3 as int, n as int)) =~= s_before
                + (group + b64_enc(b@.subrange(i + 3 as int, n as int))));
        }
        i = i + 3;
    }
    let ghost tail = b@.subrange(i as int, n as int);
    if n - i == 1 {
        let b0 = b[i];
        proof {
            assert(tail.len() == 1 && tail[0] == b0);
            assert((b0 % 4) * 16 < 64) by (nonlinear_arith)
                requires
                    b0 < 256,
            ;
        }
        let ghost s_before = s@;
        push_char(&mut s, sextet_char(b0 / 4));
        push_char(&mut s, sextet_char((b0 % 4) * 16));
        push_char(&mut s, '=');
        push_char(&mut s, '=');
        proof {
            assert(s@ =~= s_before + b64_enc(tail));
        }
    } else if n - i == 2 {
        let b0 = b[i];
        let b1 = b[i + 1];
        proof {
            assert(tail.len() == 2 && tail[0] == b0 && tail[1] == b1);
            assert((b0 % 4) * 16 + b1 / 16 < 64 && (b1 % 16) * 4 < 64) by (nonlinear_arith)
                requires
                    b0 < 256 && b1 < 256,
            ;
        }
        let ghost s_before = s@;
        push_char(&mut s, sextet_char(b0 / 4));
        push_char(&mut s, sextet_char((b0 % 4) * 16 + b1 / 16));
        push_char(&mut s, sextet_char((b1 % 16) * 4));
        push_char(&mut s, '=');
        proof {
            assert(s@ =~= s_before + b64_enc(tail));
        }
    } else {
        proof {
            assert(tail.len() == 0);
            assert(s@ + b64_enc(tail) =~= s@);
        }
    }
    s
}

/// Parses a padded base64 string; `None` on any malformed input.
pub fn b64_decode(s: &Vec<char>) -> (r: Option<Vec<u8>>)
    ensures
        match r {
            Some(b) => b64_dec(s@) == Some(b@),
            None => b64_dec(s@) is None,
        },
{
    let n: usize = s.len();
    if n == 0 {
        proof {
            assert(b64_dec(s@) == Some(Seq::<u8>::empty()));
        }
        return Some(Vec::new());
    }
    if n % 4 != 0 {
        return None;
    }
    let mut out: Vec<u8> = Vec::new();
    let mut i: usize = 0;
    proof {
        assert(s@.subrange(0, n as int) =~= s@);
        match b64_dec(s@) {
            Some(r0) => {
                assert(Seq::<u8>::empty() + r0 =~= r0);
            }
            None => {}
        }
    }
    while n - i > 4
        invariant
            i <= n,
            n - i >= 4,
            n == s@.len(),
            i % 4 == 0,
            n % 4 == 0,
            ({
                let suffix = s@.subrange(i as int, n as int);
                b64_dec(s@) == match b64_dec(suffix) {
                    Some(rest) => Some(out@ + rest),
                    None => None::<Seq<u8>>,
                }
            }),
        decreases n - i,
    {
        let ghost suffix = s@.subrange(i as int, n as int);
        proof {
            assert(suffix.len() == n - i && suffix.len() % 4 == 0 && suffix.len() > 4);
            assert(suffix[0] == s@[i as int] && suffix[1] == s@[i + 1] && suffix[2] == s@[i + 2]
                && suffix[3] == s@[i + 3]);
            assert(suffix.subrange(4, suffix.len() as int) =~= s@.subrange(
                i + 4 as int,
                n as int,
            ));
        }
        let v0 = match sextet_val(s[i]) {
            Some(v) => v,
            None => {
                return None;
            }
        };
        let v1 = match sextet_val(s[i + 1]) {
            Some(v) => v,
            None => {
                return None;
            }
        };
        let v2 = match sextet_val(s[i + 2]) {
            Some(v) => v,
            None => {
                return None;
            }
        };
        let v3 = match sextet_val(s[i + 3]) {
            Some(v) => v,
            None => {
                return None;
            }
        };
        proof {
            assert(v0 * 4 + v1 / 16 < 256 && (v1 % 16) * 16 + v2 / 4 < 256 && (v2 % 4) * 64 + v3
                < 256) by (nonlinear_arith)
                requires
                    v0 < 64 && v1 < 64 && v2 < 64 && v3 < 64,
            ;
        }
        let ghost out_before = out@;
        out.push(v0 * 4 + v1 / 16);
        out.push((v1 % 16) * 16 + v2 / 4);
        out.push((v2 % 4) * 64 + v3);
        proof {
            assert(out@ =~= out_before + b64_group3(suffix));
            match b64_dec(s@.subrange(i + 4 as int, n as int)) {
                Some(rest) => {
                    assert(out_before + (b64_group3(suffix) + rest) =~= out@ + rest);
                }
                None => {}
            }
        }
        i = i + 4;
    }
    // the final group of four characters, honouring padding
    let ghost suffix = s@.subrange(i as int, n as int);
    proof {
        assert(suffix.len() == 4);
        assert(suffix[0] == s@[i as int] && suffix[1] == s@[i + 1] && suffix[2] == s@[i + 2]
            && suffix[3] == s@[i + 3]);
        assert(b64_dec(suffix) == b64_dec_last(suffix));
        assert('=' as u32 == 61);
    }
    let v0 = match sextet_val(s[i]) {
        Some(v) => v,
        None => {
            return None;
        }
    };
    let v1 = match sextet_val(s[i + 1]) {
        Some(v) => v,
        None => {
            return None;
        }
    };
    let c2 = s[i + 2];
    let c3 = s[i + 3];
    if c2 == '=' && c3 == '=' {
        if v1 % 16 == 0 {
            let ghost out_before = out@;
            out.push(v0 * 4 + v1 / 16);
            proof {
                assert(out@ =~= out_before + seq![(b64_val(suffix[0]) * 4 + b64_val(suffix[1])
                    / 16) as u8]);
            }
            Some(out)
        } else {
            None
        }
    } else if c3 == '=' {
        let v2 = match sextet_val(c2) {
            Some(v) => v,
            None => {
                return None;
            }
        };
        if v2 % 4 == 0 {
            proof {
                assert(v0 * 4 + v1 / 16 < 256 && (v1 % 16) * 16 + v2 / 4 < 256)
                    by (nonlinear_arith)
                    requires
                        v0 < 64 && v1 < 64 && v2 < 64,
                ;
            }
            let ghost out_before = out@;
            out.push(v0 * 4 + v1 / 16);
            out.push((v1 % 16) * 16 + v2 / 4);
            proof {
                assert(out@ =~= out_before + seq![
                    (b64_val(suffix[0]) * 4 + b64_val(suffix[1]) / 16) as u8,
                    ((b64_val(suffix[1]) % 16) * 16 + b64_val(suffix[2]) / 4) as u8,
                ]);
            }
            Some(out)
        } else {
            None
        }
    } else {
        let v2 = match sextet_val(c2) {
            Some(v) => v,
            None => {
                return None;
            }
        };
        let v3 = match sextet_val(c3) {
            Some(v) => v,
            None => {
                return None;
            }
        };
        proof {
            assert(v0 * 4 + v1 / 16 < 256 && (v1 % 16) * 16 + v2 / 4 < 256 && (v2 % 4) * 64 + v3
                < 256) by (nonlinear_arith)
                requires
                    v0 < 64 && v1 < 64 && v2 < 64 && v3 < 64,
            ;
        }
        let ghost out_before = out@;
        out.push(v0 * 4 + v1 / 16);
        out.push((v1 % 16) * 16 + v2 / 4);
        out.push((v2 % 4) * 64 + v3);
        proof {
            assert(out@ =~= out_before + b64_group3(suffix));
        }
        Some(out)
    }
}

} // verus!
