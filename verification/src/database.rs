//! The deployment record: the durable checkpoint that both networks' bridge
//! contracts exist, with their addresses and deployment heights, and its
//! on-disk format.
//!
//! The format is six lines: per network, the deploy block number and the last
//! processed block number in decimal, then the contract address as forty
//! lowercase hex digits. Writing and reading are verified inverse to each
//! other, and a byte string is the image of at most one record, which is what
//! makes the bootstrap idempotent.

use vstd::prelude::*;
use vstd::slice::slice_subrange;

use crate::address::Address;
use crate::dec::{
    all_dec_digits, dec_digits, dec_val, lemma_dec_canonical, lemma_dec_digits_are_digits,
    lemma_dec_digits_no_leading_zero, lemma_dec_val_of_dec_digits, lemma_dec_val_take_mono,
};
use crate::hex::{
    all_lower_hex, decode_hex_bytes, decode_pairs, encode_hex, is_lower_hex, lemma_decode_encode,
    lemma_decode_pairs_len, lemma_encode_decode, lemma_encode_hex_len, lemma_encode_hex_lower,
    push_hex,
};
use crate::dec::push_dec;

verus! {

/// What the record holds of one network.
#[derive(Debug)]
pub struct BlockchainState {
    /// Block height at which the contract-creation transaction was mined.
    pub deploy_block_number: u64,
    /// Cursor for later relay logic; equals `deploy_block_number` at creation.
    pub last_block_number: u64,
    /// Address of the newly created bridge contract.
    pub bridge_contract_address: Address,
}

/// The persisted deployment record: one state per network.
#[derive(Debug)]
pub struct Database {
    pub home: BlockchainState,
    pub foreign: BlockchainState,
}

/// Mathematical model of one network's state.
#[verifier::ext_equal]
pub ghost struct StateModel {
    pub deploy_block_number: u64,
    pub last_block_number: u64,
    pub bridge_contract_address: Seq<u8>,
}

/// Mathematical model of the record.
#[verifier::ext_equal]
pub ghost struct DatabaseModel {
    pub home: StateModel,
    pub foreign: StateModel,
}

impl StateModel {
    pub open spec fn wf(self) -> bool {
        self.bridge_contract_address.len() == 20
    }
}

impl DatabaseModel {
    pub open spec fn wf(self) -> bool {
        self.home.wf() && self.foreign.wf()
    }
}

impl View for BlockchainState {
    type V = StateModel;

    open spec fn view(&self) -> StateModel {
        StateModel {
            deploy_block_number: self.deploy_block_number,
            last_block_number: self.last_block_number,
            bridge_contract_address: self.bridge_contract_address@,
        }
    }
}

impl View for Database {
    type V = DatabaseModel;

    open spec fn view(&self) -> DatabaseModel {
        DatabaseModel { home: self.home@, foreign: self.foreign@ }
    }
}

impl BlockchainState {
    pub open spec fn wf(&self) -> bool {
        self@.wf()
    }
}

impl Database {
    pub open spec fn wf(&self) -> bool {
        self@.wf()
    }
}

impl Clone for BlockchainState {
    fn clone(&self) -> (r: Self)
        ensures
            r@ == self@,
    {
        BlockchainState {
            deploy_block_number: self.deploy_block_number,
            last_block_number: self.last_block_number,
            bridge_contract_address: self.bridge_contract_address.clone(),
        }
    }
}

impl Clone for Database {
    fn clone(&self) -> (r: Self)
        ensures
            r@ == self@,
    {
        Database { home: self.home.clone(), foreign: self.foreign.clone() }
    }
}

impl PartialEq for BlockchainState {
    fn eq(&self, other: &BlockchainState) -> (r: bool) {
        self.deploy_block_number == other.deploy_block_number && self.last_block_number
            == other.last_block_number && self.bridge_contract_address
            == other.bridge_contract_address
    }
}

impl vstd::std_specs::cmp::PartialEqSpecImpl for BlockchainState {
    open spec fn obeys_eq_spec() -> bool {
        true
    }

    open spec fn eq_spec(&self, other: &BlockchainState) -> bool {
        self@ == other@
    }
}

impl PartialEq for Database {
    fn eq(&self, other: &Database) -> (r: bool) {
        self.home == other.home && self.foreign == other.foreign
    }
}

impl vstd::std_specs::cmp::PartialEqSpecImpl for Database {
    open spec fn obeys_eq_spec() -> bool {
        true
    }

    open spec fn eq_spec(&self, other: &Database) -> bool {
        self@ == other@
    }
}

/// One network's three lines of the format.
pub open spec fn format_state(s: StateModel) -> Seq<u8> {
    dec_digits(s.deploy_block_number as nat) + seq![10u8] + dec_digits(
        s.last_block_number as nat,
    ) + seq![10u8] + encode_hex(s.bridge_contract_address) + seq![10u8]
}

/// The whole record's bytes: home's three lines, then foreign's.
pub open spec fn format_database(d: DatabaseModel) -> Seq<u8> {
    format_state(d.home) + format_state(d.foreign)
}

/// A decimal line stands at `i`: the canonical digits of `n`, then a newline.
pub open spec fn is_u64_line(b: Seq<u8>, i: int, n: u64) -> bool {
    &&& 0 <= i
    &&& i + dec_digits(n as nat).len() + 1 <= b.len()
    &&& b.subrange(i, i + dec_digits(n as nat).len() + 1) == dec_digits(n as nat) + seq![10u8]
}

/// An address line stands at `i`: forty lowercase hex digits, then a newline.
pub open spec fn is_addr_line(b: Seq<u8>, i: int, a: Seq<u8>) -> bool {
    &&& 0 <= i
    &&& a.len() == 20
    &&& i + 41 <= b.len()
    &&& b.subrange(i, i + 41) == encode_hex(a) + seq![10u8]
}

/// At most one number's line can stand at a given place.
pub proof fn lemma_u64_line_unique(b: Seq<u8>, i: int, n1: u64, n2: u64)
    requires
        is_u64_line(b, i, n1),
        is_u64_line(b, i, n2),
    ensures
        n1 == n2,
{
    let d1 = dec_digits(n1 as nat);
    let d2 = dec_digits(n2 as nat);
    lemma_dec_digits_are_digits(n1 as nat);
    lemma_dec_digits_are_digits(n2 as nat);
    let s1 = b.subrange(i, i + d1.len() + 1);
    let s2 = b.subrange(i, i + d2.len() + 1);
    if d1.len() < d2.len() {
        assert(d2[d1.len() as int] == s2[d1.len() as int]);
        assert(s2[d1.len() as int] == b[i + d1.len()]);
        assert(s1[d1.len() as int] == 10u8);
        assert(false);
    } else if d2.len() < d1.len() {
        assert(d1[d2.len() as int] == s1[d2.len() as int]);
        assert(s1[d2.len() as int] == b[i + d2.len()]);
        assert(s2[d2.len() as int] == 10u8);
        assert(false);
    } else {
        assert(d1 =~= d2) by {
            assert(forall|k: int|
                0 <= k < d1.len() ==> d1[k] == s1[k] && d2[k] == s2[k] && s1[k] == b[i + k]
                    && s2[k] == b[i + k]);
        }
        lemma_dec_val_of_dec_digits(n1 as nat);
        lemma_dec_val_of_dec_digits(n2 as nat);
    }
}

/// At most one address's line can stand at a given place.
pub proof fn lemma_addr_line_unique(b: Seq<u8>, i: int, a1: Seq<u8>, a2: Seq<u8>)
    requires
        is_addr_line(b, i, a1),
        is_addr_line(b, i, a2),
    ensures
        a1 == a2,
{
    lemma_encode_hex_len(a1);
    lemma_encode_hex_len(a2);
    let e1 = encode_hex(a1);
    let e2 = encode_hex(a2);
    let s = b.subrange(i, i + 41);
    assert(s == e1 + seq![10u8]);
    assert(s == e2 + seq![10u8]);
    assert forall|k: int| 0 <= k < 40 implies e1[k] == e2[k] by {
        assert(e1[k] == (e1 + seq![10u8])[k]);
        assert(e2[k] == (e2 + seq![10u8])[k]);
    }
    assert(e1 =~= e2);
    lemma_decode_encode(a1);
    lemma_decode_encode(a2);
}

/// Reads one decimal line. Returns the number and the index just past the
/// newline, or nothing if no number's line stands at `i`.
fn read_u64_line(b: &[u8], i: usize) -> (r: Option<(u64, usize)>)
    requires
        i <= b@.len(),
    ensures
        match r {
            Some(p) => is_u64_line(b@, i as int, p.0) && p.1 == i + dec_digits(
                p.0 as nat,
            ).len() + 1,
            None => forall|n: u64| !is_u64_line(b@, i as int, n),
        },
{
    let len = b.len();
    if i >= len || b[i] == 10 || b[i] < 48 || b[i] > 57 {
        proof {
            assert forall|n: u64| !is_u64_line(b@, i as int, n) by {
                lemma_dec_digits_are_digits(n as nat);
                if is_u64_line(b@, i as int, n) {
                    let s = b@.subrange(i as int, i + dec_digits(n as nat).len() + 1);
                    assert(s[0] == b@[i as int]);
                    assert(s[0] == dec_digits(n as nat)[0]);
                }
            }
        }
        return None;
    }
    if b[i] == 48 {
        // a canonical number starting with zero is zero itself
        if i + 1 < len && b[i + 1] == 10 {
            proof {
                assert(dec_digits(0) =~= seq![48u8]);
                assert(b@.subrange(i as int, i + 2) =~= dec_digits(0) + seq![10u8]);
            }
            return Some((0, i + 2));
        }
        proof {
            assert forall|n: u64| !is_u64_line(b@, i as int, n) by {
                lemma_dec_digits_are_digits(n as nat);
                lemma_dec_digits_no_leading_zero(n as nat);
                if is_u64_line(b@, i as int, n) {
                    let d = dec_digits(n as nat);
                    let s = b@.subrange(i as int, i + d.len() + 1);
                    assert(s[0] == b@[i as int] && s[0] == d[0]);
                    assert(d[0] == 48);
                    assert(n == 0);
                    assert(d =~= seq![48u8]);
                    assert(s[1] == b@[i + 1] && s[1] == 10u8);
                }
            }
        }
        return None;
    }
    let mut j: usize = i;
    let mut acc: u64 = 0;
    loop
        invariant
            i <= j <= b@.len(),
            len == b@.len(),
            49 <= b@[i as int] && b@[i as int] <= 57,
            i < b@.len(),
            all_dec_digits(b@.subrange(i as int, j as int)),
            acc == dec_val(b@.subrange(i as int, j as int)),
        decreases b@.len() - j,
    {
        if j >= len {
            proof {
                assert forall|n: u64| !is_u64_line(b@, i as int, n) by {
                    lemma_dec_digits_are_digits(n as nat);
                    if is_u64_line(b@, i as int, n) {
                        let d = dec_digits(n as nat);
                        let s = b@.subrange(i as int, i + d.len() + 1);
                        assert(s[d.len() as int] == 10u8);
                        assert(s[d.len() as int] == b@[i + d.len()]);
                        assert(b@.subrange(i as int, j as int)[d.len() as int] == b@[i + d.len()]);
                    }
                }
            }
            return None;
        }
        let c = b[j];
        if c == 10 {
            let ghost d = b@.subrange(i as int, j as int);
            proof {
                assert(j > i) by {
                    if j == i {
                        assert(b@[i as int] == 10);
                    }
                }
                assert(d[0] == b@[i as int]);
                lemma_dec_canonical(d);
                assert(d == dec_digits(acc as nat));
                assert(b@.subrange(i as int, j + 1) =~= d + seq![10u8]);
            }
            return Some((acc, j + 1));
        }
        if c < 48 || c > 57 {
            proof {
                assert forall|n: u64| !is_u64_line(b@, i as int, n) by {
                    lemma_dec_digits_are_digits(n as nat);
                    if is_u64_line(b@, i as int, n) {
                        let d = dec_digits(n as nat);
                        let s = b@.subrange(i as int, i + d.len() + 1);
                        if i + d.len() > j {
                            assert(s[j - i] == b@[j as int]);
                            assert(s[j - i] == d[j - i]);
                        } else if i + d.len() == j {
                            assert(s[d.len() as int] == b@[j as int]);
                            assert(s[d.len() as int] == 10u8);
                        } else {
                            assert(s[d.len() as int] == b@[i + d.len()]);
                            assert(s[d.len() as int] == 10u8);
                            assert(b@.subrange(i as int, j as int)[d.len() as int] == b@[i
                                + d.len()]);
                        }
                    }
                }
            }
            return None;
        }
        let dgt = c - 48;
        proof {
            let t = b@.subrange(i as int, j + 1);
            assert(t.drop_last() =~= b@.subrange(i as int, j as int));
            assert(dec_val(t) == dec_val(t.drop_last()) * 10 + (c - 48) as nat);
            assert(all_dec_digits(t)) by {
                assert(forall|k: int| 0 <= k < t.len() ==> t[k] == b@[i + k]);
                assert(forall|k: int|
                    0 <= k < j - i ==> b@.subrange(i as int, j as int)[k] == b@[i + k]);
            }
        }
        if acc > 0xFFFF_FFFF_FFFF_FFFF / 10 || (acc == 0xFFFF_FFFF_FFFF_FFFF / 10 && dgt > 5) {
            proof {
                assert(dec_val(b@.subrange(i as int, j + 1)) > u64::MAX);
                assert forall|n: u64| !is_u64_line(b@, i as int, n) by {
                    lemma_dec_digits_are_digits(n as nat);
                    if is_u64_line(b@, i as int, n) {
                        let d = dec_digits(n as nat);
                        let s = b@.subrange(i as int, i + d.len() + 1);
                        assert(i + d.len() >= j + 1) by {
                            if i + d.len() < j + 1 {
                                assert(s[d.len() as int] == b@[i + d.len()]);
                                assert(s[d.len() as int] == 10u8);
                                assert(b@.subrange(i as int, j + 1)[d.len() as int] == b@[i
                                    + d.len()]);
                            }
                        }
                        assert(d.take(j + 1 - i) =~= b@.subrange(i as int, j + 1)) by {
                            assert(forall|k: int|
                                0 <= k < j + 1 - i ==> d[k] == s[k] && s[k] == b@[i + k]);
                        }
                        lemma_dec_val_take_mono(d, j + 1 - i, d.len() as int);
                        assert(d.take(d.len() as int) =~= d);
                        lemma_dec_val_of_dec_digits(n as nat);
                    }
                }
            }
            return None;
        }
        acc = acc * 10 + dgt as u64;
        j = j + 1;
    }
}

/// Reads one address line. Returns the address and the index just past the
/// newline, or nothing if no address's line stands at `i`.
fn read_addr_line(b: &[u8], i: usize) -> (r: Option<(Address, usize)>)
    requires
        i <= b@.len(),
    ensures
        match r {
            Some(p) => p.0.wf() && is_addr_line(b@, i as int, p.0@) && p.1 == i + 41,
            None => forall|a: Seq<u8>| a.len() == 20 ==> !is_addr_line(b@, i as int, a),
        },
{
    let len = b.len();
    if len < 41 || i > len - 41 {
        return None;
    }
    let mut k: usize = 0;
    while k < 40
        invariant
            i + 41 <= b@.len(),
            b@.len() <= usize::MAX,
            0 <= k <= 40,
            forall|m: int| 0 <= m < k ==> is_lower_hex(#[trigger] b@[i + m]),
        decreases 40 - k,
    {
        let c = b[i + k];
        if !((48 <= c && c <= 57) || (97 <= c && c <= 102)) {
            proof {
                assert(!is_lower_hex(b@[i + k]));
                assert forall|a: Seq<u8>| a.len() == 20 implies !is_addr_line(
                    b@,
                    i as int,
                    a,
                ) by {
                    lemma_encode_hex_lower(a);
                    lemma_encode_hex_len(a);
                    if is_addr_line(b@, i as int, a) {
                        let s = b@.subrange(i as int, i + 41);
                        assert(s[k as int] == b@[i + k]);
                        assert(s[k as int] == encode_hex(a)[k as int]);
                        assert(is_lower_hex(encode_hex(a)[k as int]));
                    }
                }
            }
            return None;
        }
        k = k + 1;
    }
    if b[i + 40] != 10 {
        proof {
            assert forall|a: Seq<u8>| a.len() == 20 implies !is_addr_line(b@, i as int, a) by {
                lemma_encode_hex_len(a);
                if is_addr_line(b@, i as int, a) {
                    let s = b@.subrange(i as int, i + 41);
                    assert(s[40] == b@[i + 40]);
                    assert(s[40] == 10u8);
                }
            }
        }
        return None;
    }
    let digits = slice_subrange(b, i, i + 40);
    proof {
        assert(all_lower_hex(digits@)) by {
            assert(forall|m: int| 0 <= m < 40 ==> digits@[m] == b@[i + m]);
        }
    }
    match decode_hex_bytes(digits) {
        Some(v) => {
            proof {
                lemma_decode_pairs_len(digits@);
                lemma_encode_decode(digits@);
                assert(b@.subrange(i as int, i + 41) =~= encode_hex(v@) + seq![10u8]);
            }
            let a = Address { bytes: v };
            Some((a, i + 41))
        },
        None => {
            proof {
                assert(false);
            }
            None
        },
    }
}

/// The byte offsets of the six lines within a record's image.
pub open spec fn off1(d: DatabaseModel) -> int {
    dec_digits(d.home.deploy_block_number as nat).len() as int + 1
}

pub open spec fn off2(d: DatabaseModel) -> int {
    off1(d) + dec_digits(d.home.last_block_number as nat).len() as int + 1
}

pub open spec fn off3(d: DatabaseModel) -> int {
    off2(d) + 41
}

pub open spec fn off4(d: DatabaseModel) -> int {
    off3(d) + dec_digits(d.foreign.deploy_block_number as nat).len() as int + 1
}

pub open spec fn off5(d: DatabaseModel) -> int {
    off4(d) + dec_digits(d.foreign.last_block_number as nat).len() as int + 1
}

/// A record's image carries its six lines at the six offsets.
proof fn lemma_segments(b: Seq<u8>, d: DatabaseModel)
    requires
        d.wf(),
        b == format_database(d),
    ensures
        is_u64_line(b, 0, d.home.deploy_block_number),
        is_u64_line(b, off1(d), d.home.last_block_number),
        is_addr_line(b, off2(d), d.home.bridge_contract_address),
        is_u64_line(b, off3(d), d.foreign.deploy_block_number),
        is_u64_line(b, off4(d), d.foreign.last_block_number),
        is_addr_line(b, off5(d), d.foreign.bridge_contract_address),
        b.len() == off5(d) + 41,
{
    lemma_encode_hex_len(d.home.bridge_contract_address);
    lemma_encode_hex_len(d.foreign.bridge_contract_address);
    let hd = dec_digits(d.home.deploy_block_number as nat) + seq![10u8];
    let hl = dec_digits(d.home.last_block_number as nat) + seq![10u8];
    let ha = encode_hex(d.home.bridge_contract_address) + seq![10u8];
    let fd = dec_digits(d.foreign.deploy_block_number as nat) + seq![10u8];
    let fl = dec_digits(d.foreign.last_block_number as nat) + seq![10u8];
    let fa = encode_hex(d.foreign.bridge_contract_address) + seq![10u8];
    assert(b =~= hd + hl + ha + fd + fl + fa);
    assert(b.len() == off5(d) + 41);
    assert(b.subrange(0, off1(d)) =~= hd);
    assert(b.subrange(off1(d), off2(d)) =~= hl);
    assert(b.subrange(off2(d), off3(d)) =~= ha);
    assert(b.subrange(off3(d), off4(d)) =~= fd);
    assert(b.subrange(off4(d), off5(d)) =~= fl);
    assert(b.subrange(off5(d), off5(d) + 41) =~= fa);
}

/// A byte string is the image of at most one record.
pub proof fn lemma_format_database_injective(d1: DatabaseModel, d2: DatabaseModel)
    requires
        d1.wf(),
        d2.wf(),
        format_database(d1) == format_database(d2),
    ensures
        d1 == d2,
{
    let b = format_database(d1);
    lemma_segments(b, d1);
    lemma_segments(b, d2);
    lemma_u64_line_unique(b, 0, d1.home.deploy_block_number, d2.home.deploy_block_number);
    assert(off1(d1) == off1(d2));
    lemma_u64_line_unique(b, off1(d1), d1.home.last_block_number, d2.home.last_block_number);
    assert(off2(d1) == off2(d2));
    lemma_addr_line_unique(
        b,
        off2(d1),
        d1.home.bridge_contract_address,
        d2.home.bridge_contract_address,
    );
    assert(off3(d1) == off3(d2));
    lemma_u64_line_unique(b, off3(d1), d1.foreign.deploy_block_number, d2.foreign.deploy_block_number);
    assert(off4(d1) == off4(d2));
    lemma_u64_line_unique(b, off4(d1), d1.foreign.last_block_number, d2.foreign.last_block_number);
    assert(off5(d1) == off5(d2));
    lemma_addr_line_unique(
        b,
        off5(d1),
        d1.foreign.bridge_contract_address,
        d2.foreign.bridge_contract_address,
    );
    assert(d1 =~~= d2);
}

impl Database {
    /// Writes the record in its six-line format.
    pub fn to_bytes(&self) -> (r: Vec<u8>)
        requires
            self.wf(),
        ensures
            r@ == format_database(self@),
    {
        let mut out: Vec<u8> = Vec::new();
        push_dec(self.home.deploy_block_number, &mut out);
        out.push(10);
        push_dec(self.home.last_block_number, &mut out);
        out.push(10);
        push_hex(self.home.bridge_contract_address.bytes.as_slice(), &mut out);
        out.push(10);
        push_dec(self.foreign.deploy_block_number, &mut out);
        out.push(10);
        push_dec(self.foreign.last_block_number, &mut out);
        out.push(10);
        push_hex(self.foreign.bridge_contract_address.bytes.as_slice(), &mut out);
        out.push(10);
        proof {
            assert(out@ =~= format_database(self@));
        }
        out
    }

    /// Reads a record back from its six-line format. Succeeds exactly on the
    /// images of well-formed records, with the record the bytes are the image
    /// of.
    pub fn from_bytes(b: &[u8]) -> (r: Option<Database>)
        ensures
            match r {
                Some(db) => db.wf() && b@ == format_database(db@),
                None => forall|d: DatabaseModel| d.wf() ==> b@ != format_database(d),
            },
    {
        let len = b.len();
        let (hd, i1) = match read_u64_line(b, 0) {
            Some(p) => p,
            None => {
                proof {
                    assert forall|d: DatabaseModel| d.wf() implies b@ != format_database(d) by {
                        if b@ == format_database(d) {
                            lemma_segments(b@, d);
                        }
                    }
                }
                return None;
            },
        };
        let (hl, i2) = match read_u64_line(b, i1) {
            Some(p) => p,
            None => {
                proof {
                    assert forall|d: DatabaseModel| d.wf() implies b@ != format_database(d) by {
                        if b@ == format_database(d) {
                            lemma_segments(b@, d);
                            lemma_u64_line_unique(b@, 0, hd, d.home.deploy_block_number);
                        }
                    }
                }
                return None;
            },
        };
        let (ha, i3) = match read_addr_line(b, i2) {
            Some(p) => p,
            None => {
                proof {
                    assert forall|d: DatabaseModel| d.wf() implies b@ != format_database(d) by {
                        if b@ == format_database(d) {
                            lemma_segments(b@, d);
                            lemma_u64_line_unique(b@, 0, hd, d.home.deploy_block_number);
                            lemma_u64_line_unique(b@, off1(d), hl, d.home.last_block_number);
                        }
                    }
                }
                return None;
            },
        };
        let (fd, i4) = match read_u64_line(b, i3) {
            Some(p) => p,
            None => {
                proof {
                    assert forall|d: DatabaseModel| d.wf() implies b@ != format_database(d) by {
                        if b@ == format_database(d) {
                            lemma_segments(b@, d);
                            lemma_u64_line_unique(b@, 0, hd, d.home.deploy_block_number);
                            lemma_u64_line_unique(b@, off1(d), hl, d.home.last_block_number);
                            lemma_addr_line_unique(b@, off2(d), ha@, d.home.bridge_contract_address);
                        }
                    }
                }
                return None;
            },
        };
        let (fl, i5) = match read_u64_line(b, i4) {
            Some(p) => p,
            None => {
                proof {
                    assert forall|d: DatabaseModel| d.wf() implies b@ != format_database(d) by {
                        if b@ == format_database(d) {
                            lemma_segments(b@, d);
                            lemma_u64_line_unique(b@, 0, hd, d.home.deploy_block_number);
                            lemma_u64_line_unique(b@, off1(d), hl, d.home.last_block_number);
                            lemma_addr_line_unique(b@, off2(d), ha@, d.home.bridge_contract_address);
                            lemma_u64_line_unique(b@, off3(d), fd, d.foreign.deploy_block_number);
                        }
                    }
                }
                return None;
            },
        };
        let (fa, i6) = match read_addr_line(b, i5) {
            Some(p) => p,
            None => {
                proof {
                    assert forall|d: DatabaseModel| d.wf() implies b@ != format_database(d) by {
                        if b@ == format_database(d) {
                            lemma_segments(b@, d);
                            lemma_u64_line_unique(b@, 0, hd, d.home.deploy_block_number);
                            lemma_u64_line_unique(b@, off1(d), hl, d.home.last_block_number);
                            lemma_addr_line_unique(b@, off2(d), ha@, d.home.bridge_contract_address);
                            lemma_u64_line_unique(b@, off3(d), fd, d.foreign.deploy_block_number);
                            lemma_u64_line_unique(b@, off4(d), fl, d.foreign.last_block_number);
                        }
                    }
                }
                return None;
            },
        };
        if i6 != len {
            proof {
                assert forall|d: DatabaseModel| d.wf() implies b@ != format_database(d) by {
                    if b@ == format_database(d) {
                        lemma_segments(b@, d);
                        lemma_u64_line_unique(b@, 0, hd, d.home.deploy_block_number);
                        lemma_u64_line_unique(b@, off1(d), hl, d.home.last_block_number);
                        lemma_addr_line_unique(b@, off2(d), ha@, d.home.bridge_contract_address);
                        lemma_u64_line_unique(b@, off3(d), fd, d.foreign.deploy_block_number);
                        lemma_u64_line_unique(b@, off4(d), fl, d.foreign.last_block_number);
                        lemma_addr_line_unique(b@, off5(d), fa@, d.foreign.bridge_contract_address);
                    }
                }
            }
            return None;
        }
        let db = Database {
            home: BlockchainState {
                deploy_block_number: hd,
                last_block_number: hl,
                bridge_contract_address: ha,
            },
            foreign: BlockchainState {
                deploy_block_number: fd,
                last_block_number: fl,
                bridge_contract_address: fa,
            },
        };
        proof {
            let p1 = dec_digits(hd as nat) + seq![10u8];
            let p2 = dec_digits(hl as nat) + seq![10u8];
            let p3 = encode_hex(ha@) + seq![10u8];
            let p4 = dec_digits(fd as nat) + seq![10u8];
            let p5 = dec_digits(fl as nat) + seq![10u8];
            let p6 = encode_hex(fa@) + seq![10u8];
            assert(b@.subrange(0, i1 as int) == p1);
            assert(b@.subrange(i1 as int, i2 as int) == p2);
            assert(b@.subrange(i2 as int, i3 as int) == p3);
            assert(b@.subrange(i3 as int, i4 as int) == p4);
            assert(b@.subrange(i4 as int, i5 as int) == p5);
            assert(b@.subrange(i5 as int, i6 as int) == p6);
            assert(b@ =~= b@.subrange(0, i1 as int) + b@.subrange(i1 as int, i2 as int)
                + b@.subrange(i2 as int, i3 as int) + b@.subrange(i3 as int, i4 as int)
                + b@.subrange(i4 as int, i5 as int) + b@.subrange(i5 as int, i6 as int));
            assert(format_database(db@) =~= p1 + p2 + p3 + p4 + p5 + p6);
            assert(b@ == format_database(db@));
        }
        Some(db)
    }
}

} // verus!
