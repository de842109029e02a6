//! Network account and contract addresses: twenty bytes, written in the
//! configuration and in the persisted record as forty hex digits with an
//! optional `0x` prefix.

use vstd::prelude::*;
use vstd::slice::slice_subrange;
use vstd::string::StringSliceAdditionalSpecFns;

use crate::hex::{all_hex, decode_hex_bytes, decode_pairs, lemma_decode_pairs_len};

verus! {

/// A twenty-byte network address.
#[derive(Debug)]
pub struct Address {
    pub bytes: Vec<u8>,
}

impl View for Address {
    type V = Seq<u8>;

    open spec fn view(&self) -> Seq<u8> {
        self.bytes@
    }
}

/// The digits of an address text: an optional `0x` prefix is dropped.
pub open spec fn addr_digits(b: Seq<u8>) -> Seq<u8> {
    if b.len() >= 2 && b[0] == 48 && b[1] == 120 {
        b.skip(2)
    } else {
        b
    }
}

/// Whether a text denotes an address: forty hex digits after the optional
/// prefix.
pub open spec fn valid_addr_text(b: Seq<u8>) -> bool {
    addr_digits(b).len() == 40 && all_hex(addr_digits(b))
}

/// The twenty bytes a valid address text denotes.
pub open spec fn addr_value(b: Seq<u8>) -> Seq<u8> {
    decode_pairs(addr_digits(b))
}

impl Address {
    pub open spec fn wf(&self) -> bool {
        self@.len() == 20
    }

    /// Wraps twenty raw bytes; anything else is refused.
    pub fn from_bytes(v: Vec<u8>) -> (r: Option<Address>)
        ensures
            match r {
                Some(a) => v@.len() == 20 && a@ == v@ && a.wf(),
                None => v@.len() != 20,
            },
    {
        if v.len() == 20 {
            Some(Address { bytes: v })
        } else {
            None
        }
    }

    /// The raw bytes, copied out.
    pub fn to_vec(&self) -> (r: Vec<u8>)
        ensures
            r@ == self@,
    {
        let mut out: Vec<u8> = Vec::new();
        let mut i: usize = 0;
        while i < self.bytes.len()
            invariant
                0 <= i <= self.bytes@.len(),
                out@ == self.bytes@.take(i as int),
            decreases self.bytes@.len() - i,
        {
            out.push(self.bytes[i]);
            assert(out@ =~= self.bytes@.take(i + 1));
            i = i + 1;
        }
        proof {
            assert(self.bytes@.take(self.bytes@.len() as int) =~= self.bytes@);
        }
        out
    }
}

impl Clone for Address {
    fn clone(&self) -> (r: Self)
        ensures
            r@ == self@,
    {
        Address { bytes: self.to_vec() }
    }
}

impl PartialEq for Address {
    fn eq(&self, other: &Address) -> (r: bool) {
        if self.bytes.len() != other.bytes.len() {
            return false;
        }
        let mut i: usize = 0;
        while i < self.bytes.len()
            invariant
                self.bytes@.len() == other.bytes@.len(),
                0 <= i <= self.bytes@.len(),
                forall|k: int| 0 <= k < i ==> self.bytes@[k] == other.bytes@[k],
            decreases self.bytes@.len() - i,
        {
            if self.bytes[i] != other.bytes[i] {
                return false;
            }
            i = i + 1;
        }
        proof {
            assert(self.bytes@ =~= other.bytes@);
        }
        true
    }
}

impl vstd::std_specs::cmp::PartialEqSpecImpl for Address {
    open spec fn obeys_eq_spec() -> bool {
        true
    }

    open spec fn eq_spec(&self, other: &Address) -> bool {
        self.bytes@ == other.bytes@
    }
}

/// Parses an address text: an optional `0x` prefix, then exactly forty hex
/// digits of either case.
pub fn parse_address(s: &str) -> (r: Option<Address>)
    ensures
        match r {
            Some(a) => valid_addr_text(s.spec_bytes()) && a.wf() && a@ == addr_value(
                s.spec_bytes(),
            ),
            None => !valid_addr_text(s.spec_bytes()),
        },
{
    let b = s.as_bytes();
    let digits: &[u8] = if b.len() >= 2 && b[0] == 48 && b[1] == 120 {
        let sub = slice_subrange(b, 2, b.len());
        proof {
            assert(sub@ =~= addr_digits(s.spec_bytes()));
        }
        sub
    } else {
        proof {
            assert(b@ =~= addr_digits(s.spec_bytes()));
        }
        b
    };
    if digits.len() != 40 {
        return None;
    }
    match decode_hex_bytes(digits) {
        Some(v) => {
            proof {
                lemma_decode_pairs_len(digits@);
            }
            Some(Address { bytes: v })
        },
        None => None,
    }
}

} // verus!
