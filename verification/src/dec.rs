//! Decimal notation of unsigned numbers: the spec-level digit strings, the
//! verified writer used by the persisted record format, and the facts that
//! make the notation canonical.

use vstd::prelude::*;

verus! {

pub open spec fn is_dec_digit(b: u8) -> bool {
    48 <= b && b <= 57
}

pub open spec fn all_dec_digits(s: Seq<u8>) -> bool {
    forall|i: int| 0 <= i < s.len() ==> is_dec_digit(#[trigger] s[i])
}

/// The canonical decimal digit string of `n`: no leading zero, `0` for zero.
pub open spec fn dec_digits(n: nat) -> Seq<u8>
    decreases n,
{
    if n < 10 {
        seq![(48 + n) as u8]
    } else {
        dec_digits(n / 10) + seq![(48 + n % 10) as u8]
    }
}

/// The number a digit string denotes.
pub open spec fn dec_val(s: Seq<u8>) -> nat
    decreases s.len(),
{
    if s.len() == 0 {
        0
    } else {
        dec_val(s.drop_last()) * 10 + (s.last() - 48) as nat
    }
}

pub proof fn lemma_dec_digits_are_digits(n: nat)
    ensures
        all_dec_digits(dec_digits(n)),
        dec_digits(n).len() >= 1,
    decreases n,
{
    if n >= 10 {
        lemma_dec_digits_are_digits(n / 10);
    }
}

pub proof fn lemma_dec_val_of_dec_digits(n: nat)
    ensures
        dec_val(dec_digits(n)) == n,
    decreases n,
{
    let s = dec_digits(n);
    if n < 10 {
        assert(s =~= seq![(48 + n) as u8]);
        assert(s.drop_last() =~= Seq::<u8>::empty());
        assert(dec_val(s) == dec_val(s.drop_last()) * 10 + (s.last() - 48) as nat);
    } else {
        lemma_dec_val_of_dec_digits(n / 10);
        assert(s == dec_digits(n / 10) + seq![(48 + n % 10) as u8]);
        assert(s.drop_last() =~= dec_digits(n / 10));
        assert(s.last() == (48 + n % 10) as u8);
        assert(dec_val(s) == dec_val(s.drop_last()) * 10 + (s.last() - 48) as nat);
    }
}

pub proof fn lemma_dec_digits_no_leading_zero(n: nat)
    ensures
        dec_digits(n)[0] == 48 ==> n == 0,
        n == 0 ==> dec_digits(n) =~= seq![48u8],
    decreases n,
{
    if n >= 10 {
        lemma_dec_digits_no_leading_zero(n / 10);
        assert(dec_digits(n)[0] == dec_digits(n / 10)[0]) by {
            lemma_dec_digits_are_digits(n / 10);
        }
    }
}

/// A digit string without a superfluous leading zero is the canonical one of
/// the number it denotes.
pub proof fn lemma_dec_canonical(s: Seq<u8>)
    requires
        s.len() >= 1,
        all_dec_digits(s),
        s[0] == 48 ==> s.len() == 1,
    ensures
        s == dec_digits(dec_val(s)),
    decreases s.len(),
{
    if s.len() == 1 {
        assert(s.drop_last() =~= Seq::<u8>::empty());
        assert(s =~= dec_digits(dec_val(s)));
    } else {
        let front = s.drop_last();
        assert(all_dec_digits(front));
        lemma_dec_canonical(front);
        let n = dec_val(s);
        assert(n == dec_val(front) * 10 + (s.last() - 48) as nat);
        assert(dec_val(front) >= 1) by {
            if dec_val(front) == 0 {
                lemma_dec_digits_no_leading_zero(0);
                assert(front =~= seq![48u8]);
            }
        }
        assert(n >= 10);
        assert(n / 10 == dec_val(front) && n % 10 == (s.last() - 48) as nat);
        assert(dec_digits(n) == dec_digits(n / 10) + seq![(48 + n % 10) as u8]);
        assert((48 + n % 10) as u8 == s.last());
        assert(s =~= front + seq![s.last()]);
        assert(s =~= dec_digits(n));
    }
}

/// Extending a digit string never shrinks its value.
pub proof fn lemma_dec_val_take_mono(s: Seq<u8>, i: int, j: int)
    requires
        0 <= i <= j <= s.len(),
    ensures
        dec_val(s.take(i)) <= dec_val(s.take(j)),
    decreases j - i,
{
    if i < j {
        lemma_dec_val_take_mono(s, i, j - 1);
        let t = s.take(j);
        assert(t.drop_last() =~= s.take(j - 1));
        assert(dec_val(s.take(j)) == dec_val(s.take(j - 1)) * 10 + (t.last() - 48) as nat);
    }
}

/// Appends the canonical decimal digits of `n` to `out`.
pub fn push_dec(n: u64, out: &mut Vec<u8>)
    ensures
        final(out)@ == old(out)@ + dec_digits(n as nat),
    decreases n,
{
    if n < 10 {
        out.push(48 + n as u8);
        proof {
            assert(out@ =~= old(out)@ + dec_digits(n as nat));
        }
    } else {
        push_dec(n / 10, out);
        out.push(48 + (n % 10) as u8);
        proof {
            assert(out@ =~= old(out)@ + dec_digits(n as nat));
        }
    }
}

} // verus!
