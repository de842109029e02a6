//! Hexadecimal encoding and decoding of byte strings.
//!
//! The decoder used for compiled contract payloads is the one of the
//! `rustc_hex` crate, reached through one trusted wrapper; its behaviour is
//! stated exactly over the spec functions of this module. Encoding, and the
//! decoding done while reading the persisted deployment record, are verified
//! code of this crate.

use vstd::prelude::*;
use vstd::string::StringSliceAdditionalSpecFns;

verus! {

/// Whitespace bytes that `rustc_hex` skips while decoding.
pub open spec fn is_hex_ws(b: u8) -> bool {
    b == 32 || b == 13 || b == 10 || b == 9
}

/// ASCII hex digit, either case.
pub open spec fn is_hex_digit(b: u8) -> bool {
    (48 <= b && b <= 57) || (65 <= b && b <= 70) || (97 <= b && b <= 102)
}

/// ASCII lowercase hex digit; the only form this crate's encoder emits.
pub open spec fn is_lower_hex(b: u8) -> bool {
    (48 <= b && b <= 57) || (97 <= b && b <= 102)
}

/// Numeric value of a hex digit.
pub open spec fn hex_val(b: u8) -> u8 {
    if 48 <= b && b <= 57 {
        (b - 48) as u8
    } else if 65 <= b && b <= 70 {
        (b - 55) as u8
    } else {
        (b - 87) as u8
    }
}

/// Lowercase digit of a value below sixteen.
pub open spec fn hex_digit_of(v: u8) -> u8 {
    if v < 10 {
        (v + 48) as u8
    } else {
        (v + 87) as u8
    }
}

/// The input with whitespace removed, as `rustc_hex` sees it.
pub open spec fn non_ws(s: Seq<u8>) -> Seq<u8> {
    s.filter(|b: u8| !is_hex_ws(b))
}

/// The bytes a character string stands for.
pub open spec fn text_bytes(s: Seq<char>) -> Seq<u8> {
    vstd::utf8::encode_utf8(s)
}

/// Whether a text decodes as hex: only digits and whitespace, and an even
/// digit count.
pub open spec fn valid_hex_text(s: Seq<u8>) -> bool {
    all_hex(non_ws(s)) && non_ws(s).len() % 2 == 0
}

pub open spec fn all_hex(s: Seq<u8>) -> bool {
    forall|i: int| 0 <= i < s.len() ==> is_hex_digit(#[trigger] s[i])
}

pub open spec fn all_lower_hex(s: Seq<u8>) -> bool {
    forall|i: int| 0 <= i < s.len() ==> is_lower_hex(#[trigger] s[i])
}

/// Byte denoted by two hex digits, high digit first.
pub open spec fn pair_val(h: u8, l: u8) -> u8 {
    (hex_val(h) * 16 + hex_val(l)) as u8
}

/// Bytes denoted by a sequence of hex digits, two digits a byte.
pub open spec fn decode_pairs(s: Seq<u8>) -> Seq<u8>
    decreases s.len(),
{
    if s.len() < 2 {
        Seq::empty()
    } else {
        decode_pairs(s.take(s.len() - 2)) + seq![pair_val(s[s.len() - 2], s[s.len() - 1])]
    }
}

/// Lowercase hex digits of a byte string, two digits a byte.
pub open spec fn encode_hex(s: Seq<u8>) -> Seq<u8>
    decreases s.len(),
{
    if s.len() == 0 {
        Seq::empty()
    } else {
        encode_hex(s.drop_last()) + seq![
            hex_digit_of(s.last() / 16),
            hex_digit_of((s.last() % 16) as u8),
        ]
    }
}

pub proof fn lemma_decode_pairs_len(s: Seq<u8>)
    ensures
        decode_pairs(s).len() == s.len() / 2,
    decreases s.len(),
{
    if s.len() >= 2 {
        lemma_decode_pairs_len(s.take(s.len() - 2));
    }
}

pub proof fn lemma_encode_hex_len(s: Seq<u8>)
    ensures
        encode_hex(s).len() == 2 * s.len(),
    decreases s.len(),
{
    if s.len() > 0 {
        lemma_encode_hex_len(s.drop_last());
    }
}

pub proof fn lemma_encode_hex_lower(s: Seq<u8>)
    ensures
        all_lower_hex(encode_hex(s)),
    decreases s.len(),
{
    if s.len() > 0 {
        lemma_encode_hex_lower(s.drop_last());
    }
}

proof fn lemma_hex_val_digit_of(v: u8)
    requires
        v < 16,
    ensures
        is_lower_hex(hex_digit_of(v)),
        hex_val(hex_digit_of(v)) == v,
{
}

proof fn lemma_digit_of_val_lower(b: u8)
    requires
        is_lower_hex(b),
    ensures
        hex_val(b) < 16,
        hex_digit_of(hex_val(b)) == b,
{
}

/// Decoding inverts encoding.
pub proof fn lemma_decode_encode(s: Seq<u8>)
    ensures
        decode_pairs(encode_hex(s)) == s,
    decreases s.len(),
{
    if s.len() == 0 {
        assert(decode_pairs(encode_hex(s)) =~= s);
    } else {
        let e = encode_hex(s);
        let hi = hex_digit_of(s.last() / 16);
        let lo = hex_digit_of((s.last() % 16) as u8);
        lemma_encode_hex_len(s.drop_last());
        assert(e.take(e.len() - 2) =~= encode_hex(s.drop_last()));
        lemma_decode_encode(s.drop_last());
        lemma_hex_val_digit_of(s.last() / 16);
        lemma_hex_val_digit_of((s.last() % 16) as u8);
        assert(pair_val(hi, lo) == s.last());
        assert(decode_pairs(e) =~= s);
    }
}

/// Encoding inverts decoding on even-length lowercase hex input: the encoded
/// form is canonical.
pub proof fn lemma_encode_decode(s: Seq<u8>)
    requires
        s.len() % 2 == 0,
        all_lower_hex(s),
    ensures
        encode_hex(decode_pairs(s)) == s,
    decreases s.len(),
{
    if s.len() == 0 {
        assert(encode_hex(decode_pairs(s)) =~= s);
    } else {
        let front = s.take(s.len() - 2);
        assert(all_lower_hex(front)) by {
            assert(forall|i: int| 0 <= i < front.len() ==> front[i] == s[i]);
        }
        lemma_encode_decode(front);
        let h = s[s.len() - 2];
        let l = s[s.len() - 1];
        lemma_digit_of_val_lower(h);
        lemma_digit_of_val_lower(l);
        let p = pair_val(h, l);
        assert(p / 16 == hex_val(h) && p % 16 == hex_val(l)) by {
            assert(p == hex_val(h) * 16 + hex_val(l));
        }
        let d = decode_pairs(s);
        assert(d == decode_pairs(front) + seq![p]);
        assert(d.drop_last() =~= decode_pairs(front));
        assert(encode_hex(d) =~= s);
    }
}

/// Numeric value of one hex digit byte, or nothing if the byte is no digit.
pub fn hex_val_of(b: u8) -> (r: Option<u8>)
    ensures
        match r {
            Some(v) => is_hex_digit(b) && v == hex_val(b),
            None => !is_hex_digit(b),
        },
{
    if 48 <= b && b <= 57 {
        Some(b - 48)
    } else if 65 <= b && b <= 70 {
        Some(b - 55)
    } else if 97 <= b && b <= 102 {
        Some(b - 87)
    } else {
        None
    }
}

/// Decodes an even number of hex digits, either case, into bytes.
pub fn decode_hex_bytes(b: &[u8]) -> (r: Option<Vec<u8>>)
    ensures
        match r {
            Some(v) => b@.len() % 2 == 0 && all_hex(b@) && v@ == decode_pairs(b@),
            None => !(b@.len() % 2 == 0 && all_hex(b@)),
        },
{
    if b.len() % 2 != 0 {
        return None;
    }
    let mut out: Vec<u8> = Vec::new();
    let mut i: usize = 0;
    let pairs: usize = b.len() / 2;
    while i < pairs
        invariant
            b@.len() % 2 == 0,
            b@.len() <= usize::MAX,
            pairs == b@.len() / 2,
            0 <= i <= pairs,
            all_hex(b@.take(2 * i)),
            out@ == decode_pairs(b@.take(2 * i)),
        decreases pairs - i,
    {
        let h = match hex_val_of(b[2 * i]) {
            Some(v) => v,
            None => {
                return None;
            },
        };
        let l = match hex_val_of(b[2 * i + 1]) {
            Some(v) => v,
            None => {
                return None;
            },
        };
        out.push(h * 16 + l);
        proof {
            let t = b@.take(2 * (i + 1));
            assert(t.take(t.len() - 2) =~= b@.take(2 * i));
            assert(out@ == decode_pairs(t));
            assert(all_hex(t));
        }
        i = i + 1;
    }
    proof {
        assert(b@.take(2 * pairs) =~= b@);
    }
    Some(out)
}

/// Appends the lowercase hex digits of `v` to `out`.
pub fn push_hex(v: &[u8], out: &mut Vec<u8>)
    ensures
        final(out)@ == old(out)@ + encode_hex(v@),
{
    let mut i: usize = 0;
    while i < v.len()
        invariant
            0 <= i <= v@.len(),
            out@ == old(out)@ + encode_hex(v@.take(i as int)),
        decreases v@.len() - i,
    {
        let b = v[i];
        let hi = b / 16;
        let lo = b % 16;
        out.push(if hi < 10 { hi + 48 } else { hi + 87 });
        out.push(if lo < 10 { lo + 48 } else { lo + 87 });
        proof {
            let t = v@.take(i + 1);
            assert(t.drop_last() =~= v@.take(i as int));
            assert(t.last() == b);
            assert(out@ == old(out)@ + encode_hex(t));
        }
        i = i + 1;
    }
    proof {
        assert(v@.take(v@.len() as int) =~= v@);
    }
}

/// Relies on `rustc_hex`'s `FromHex` for `str`: ASCII whitespace (space, tab,
/// carriage return, newline) is skipped; any other byte outside the hex
/// digits fails the decode; the remaining digit count must be even, two
/// digits a byte, high digit first.
#[verifier::external_body]
pub fn hex_decode(s: &str) -> (r: Option<Vec<u8>>)
    ensures
        match r {
            Some(v) => all_hex(non_ws(s.spec_bytes())) && non_ws(s.spec_bytes()).len() % 2 == 0
                && v@ == decode_pairs(non_ws(s.spec_bytes())),
            None => !(all_hex(non_ws(s.spec_bytes())) && non_ws(s.spec_bytes()).len() % 2 == 0),
        },
{
    match rustc_hex::FromHex::from_hex::<Vec<u8>>(s) {
        Ok(v) => Some(v),
        Err(_) => None,
    }
}

} // verus!
