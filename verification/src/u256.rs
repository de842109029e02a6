//! A 256-bit unsigned integer, held as four 64-bit limbs, least significant
//! first. The configuration's policy values are such numbers, written in the
//! file as decimal strings.

use vstd::prelude::*;
use vstd::string::StringSliceAdditionalSpecFns;

use crate::dec::{all_dec_digits, dec_val, is_dec_digit, lemma_dec_val_take_mono};
use crate::error::Error;

verus! {

/// Two to the 64th power: the weight of the second limb.
pub open spec fn pow64() -> nat {
    0x1_0000_0000_0000_0000
}

/// Two to the 128th power: the weight of the third limb.
pub open spec fn pow128() -> nat {
    pow64() * pow64()
}

/// Two to the 192nd power: the weight of the fourth limb.
pub open spec fn pow192() -> nat {
    pow64() * pow128()
}

/// Two to the 256th power: the first value a `U256` cannot hold.
pub open spec fn pow256() -> nat {
    pow64() * pow192()
}

/// A 256-bit unsigned integer: four limbs, least significant first.
#[derive(Clone, Copy, Debug, PartialEq, Eq, Structural)]
pub struct U256 {
    pub l0: u64,
    pub l1: u64,
    pub l2: u64,
    pub l3: u64,
}

impl U256 {
    /// The number this value holds.
    pub open spec fn value(self) -> nat {
        (self.l0 + self.l1 * pow64() + self.l2 * pow128() + self.l3 * pow192()) as nat
    }

    pub fn zero() -> (r: U256)
        ensures
            r.value() == 0,
    {
        U256 { l0: 0, l1: 0, l2: 0, l3: 0 }
    }

    /// Parses a decimal string, as the configuration writes policy values.
    /// The empty string denotes zero; any non-digit byte or a value of 256
    /// bits or more is refused.
    pub fn from_dec_str(s: &str) -> (r: Result<U256, Error>)
        ensures
            match r {
                Ok(u) => all_dec_digits(s.spec_bytes()) && dec_val(s.spec_bytes()) < pow256()
                    && u.value() == dec_val(s.spec_bytes()),
                Err(e) => e == Error::InvalidDecimal && !(all_dec_digits(s.spec_bytes())
                    && dec_val(s.spec_bytes()) < pow256()),
            },
    {
        let b = s.as_bytes();
        let ghost w = s.spec_bytes();
        let n = b.len();
        let mut acc = U256::zero();
        let mut i: usize = 0;
        while i < n
            invariant
                b@ == w,
                w == s.spec_bytes(),
                n == b@.len(),
                0 <= i <= b@.len(),
                all_dec_digits(w.take(i as int)),
                acc.value() == dec_val(w.take(i as int)),
                acc.value() < pow256(),
            decreases b@.len() - i,
        {
            let c = b[i];
            if c < 48 || c > 57 {
                proof {
                    assert(!is_dec_digit(w[i as int]));
                    assert(!all_dec_digits(w));
                }
                return Err(Error::InvalidDecimal);
            }
            let d = c - 48;
            proof {
                let t = w.take(i + 1);
                assert(t.drop_last() =~= w.take(i as int));
                assert(dec_val(t) == dec_val(w.take(i as int)) * 10 + (c - 48) as nat);
            }
            match mul10_add(&acc, d) {
                Some(next) => {
                    proof {
                        lemma_value_bound(next);
                    }
                    acc = next;
                },
                None => {
                    proof {
                        lemma_dec_val_take_mono(w, i + 1, w.len() as int);
                        assert(w.take(w.len() as int) =~= w);
                        assert(dec_val(w) >= pow256());
                    }
                    return Err(Error::InvalidDecimal);
                },
            }
            i = i + 1;
        }
        proof {
            assert(w.take(w.len() as int) =~= w);
        }
        Ok(acc)
    }
}

/// One step of decimal accumulation: ten times the value plus a digit, or
/// nothing on 256-bit overflow.
fn mul10_add(x: &U256, d: u8) -> (r: Option<U256>)
    requires
        d < 10,
    ensures
        match r {
            Some(y) => y.value() == x.value() * 10 + d,
            None => x.value() * 10 + d >= pow256(),
        },
{
    let p0: u128 = (x.l0 as u128) * 10 + (d as u128);
    let n0: u64 = (p0 % 0x1_0000_0000_0000_0000) as u64;
    let c0: u64 = (p0 / 0x1_0000_0000_0000_0000) as u64;
    let p1: u128 = (x.l1 as u128) * 10 + (c0 as u128);
    let n1: u64 = (p1 % 0x1_0000_0000_0000_0000) as u64;
    let c1: u64 = (p1 / 0x1_0000_0000_0000_0000) as u64;
    let p2: u128 = (x.l2 as u128) * 10 + (c1 as u128);
    let n2: u64 = (p2 % 0x1_0000_0000_0000_0000) as u64;
    let c2: u64 = (p2 / 0x1_0000_0000_0000_0000) as u64;
    let p3: u128 = (x.l3 as u128) * 10 + (c2 as u128);
    let n3: u64 = (p3 % 0x1_0000_0000_0000_0000) as u64;
    let c3: u64 = (p3 / 0x1_0000_0000_0000_0000) as u64;
    let y = U256 { l0: n0, l1: n1, l2: n2, l3: n3 };
    proof {
        let b1 = pow64() as int;
        let b2 = pow128() as int;
        let b3 = pow192() as int;
        let b4 = pow256() as int;
        assert(p0 == n0 + c0 * b1);
        assert(p1 == n1 + c1 * b1);
        assert(p2 == n2 + c2 * b1);
        assert(p3 == n3 + c3 * b1);
        assert(x.value() == x.l0 + x.l1 * b1 + x.l2 * b2 + x.l3 * b3);
        assert(y.value() == n0 + n1 * b1 + n2 * b2 + n3 * b3);
        assert(10 * (x.l1 * b1) + c0 * b1 == n1 * b1 + c1 * b2) by (nonlinear_arith)
            requires
                x.l1 * 10 + c0 == n1 + c1 * b1,
                b2 == b1 * b1,
        ;
        assert(10 * (x.l2 * b2) + c1 * b2 == n2 * b2 + c2 * b3) by (nonlinear_arith)
            requires
                x.l2 * 10 + c1 == n2 + c2 * b1,
                b3 == b1 * b2,
        ;
        assert(10 * (x.l3 * b3) + c2 * b3 == n3 * b3 + c3 * b4) by (nonlinear_arith)
            requires
                x.l3 * 10 + c2 == n3 + c3 * b1,
                b4 == b1 * b3,
        ;
        assert(y.value() + c3 * b4 == x.value() * 10 + d);
        assert(y.value() + c3 * (pow256() as int) == x.value() * 10 + d);
    }
    if c3 > 0 {
        proof {
            assert(c3 * (pow256() as int) >= pow256()) by (nonlinear_arith)
                requires
                    c3 >= 1,
                    pow256() > 0,
            ;
            assert(x.value() * 10 + d >= pow256());
        }
        None
    } else {
        proof {
            assert(c3 * (pow256() as int) == 0) by (nonlinear_arith)
                requires
                    c3 == 0,
            ;
        }
        Some(y)
    }
}

/// Every four-limb value lies below two to the 256th.
pub proof fn lemma_value_bound(u: U256)
    ensures
        u.value() < pow256(),
{
    let b1 = pow64() as int;
    let b2 = pow128() as int;
    let b3 = pow192() as int;
    let b4 = pow256() as int;
    assert(u.value() == u.l0 + u.l1 * b1 + u.l2 * b2 + u.l3 * b3);
    assert(u.l0 + u.l1 * b1 + u.l2 * b2 + u.l3 * b3 < b4) by (nonlinear_arith)
        requires
            b1 == 0x1_0000_0000_0000_0000,
            b2 == b1 * b1,
            b3 == b1 * b2,
            b4 == b1 * b3,
            0 <= u.l0 < b1,
            0 <= u.l1 < b1,
            0 <= u.l2 < b1,
            0 <= u.l3 < b1,
    ;
}

} // verus!
