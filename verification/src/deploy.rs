//! The deployment orchestrator's decision core. Building the per-network
//! contract-creation requests and combining the two networks' confirmation
//! results into a deployment record are pure and verified here; submitting
//! the requests and awaiting the confirmations is network I/O and happens
//! outside, which hands the outcomes back in.

use vstd::prelude::*;

use crate::address::Address;
use crate::database::{BlockchainState, Database};
use crate::error::{Error, Side};
use crate::u256::U256;

verus! {

/// A contract-creation transaction request for one network. The recipient is
/// omitted by construction: that is what signals contract creation. Nonce and
/// ordering are left to the transport.
pub struct TxRequest {
    pub from: Address,
    pub gas: u64,
    pub gas_price: u64,
    pub value: U256,
    pub data: Vec<u8>,
}

/// What a confirmation wait resolves to: the mined block height and, for
/// contract creation, the created contract's address.
pub struct Receipt {
    pub block_number: u64,
    pub contract_address: Option<Address>,
}

impl Receipt {
    pub open spec fn wf(&self) -> bool {
        match self.contract_address {
            Some(a) => a.wf(),
            None => true,
        }
    }
}

fn copy_bytes(v: &Vec<u8>) -> (r: Vec<u8>)
    ensures
        r@ == v@,
{
    let mut out: Vec<u8> = Vec::new();
    let mut i: usize = 0;
    while i < v.len()
        invariant
            0 <= i <= v@.len(),
            out@ == v@.take(i as int),
        decreases v@.len() - i,
    {
        out.push(v[i]);
        assert(out@ =~= v@.take(i + 1));
        i = i + 1;
    }
    proof {
        assert(v@.take(v@.len() as int) =~= v@);
    }
    out
}

/// Builds one network's deployment request from its configured account, gas
/// parameters and compiled contract payload. No value is carried along: the
/// configuration defines none for deployments.
pub fn build_deploy_request(account: &Address, gas: u64, gas_price: u64, bytecode: &Vec<u8>) -> (r:
    TxRequest)
    ensures
        r.from@ == account@,
        r.gas == gas,
        r.gas_price == gas_price,
        r.value.value() == 0,
        r.data@ == bytecode@,
{
    TxRequest {
        from: account.clone(),
        gas,
        gas_price,
        value: U256::zero(),
        data: copy_bytes(bytecode),
    }
}

/// Combines the two confirmed receipts into the deployment record. A
/// confirmed contract-creation receipt without a contract address is a
/// defensive invariant violation and fails, naming the offending network;
/// the home network is examined first.
pub fn combine_receipts(home: Receipt, foreign: Receipt) -> (r: Result<Database, Error>)
    requires
        home.wf(),
        foreign.wf(),
    ensures
        match r {
            Ok(db) => {
                &&& home.contract_address matches Some(ha) && db@.home.bridge_contract_address
                    == ha@
                &&& foreign.contract_address matches Some(fa) && db@.foreign.bridge_contract_address
                    == fa@
                &&& db@.home.deploy_block_number == home.block_number
                &&& db@.home.last_block_number == home.block_number
                &&& db@.foreign.deploy_block_number == foreign.block_number
                &&& db@.foreign.last_block_number == foreign.block_number
                &&& db.wf()
            },
            Err(e) => {
                &&& home.contract_address is None || foreign.contract_address is None
                &&& e == (if home.contract_address is None {
                    Error::MissingContractAddress(Side::Home)
                } else {
                    Error::MissingContractAddress(Side::Foreign)
                })
            },
        },
{
    let home_addr = match home.contract_address {
        Some(a) => a,
        None => {
            return Err(Error::MissingContractAddress(Side::Home));
        },
    };
    let foreign_addr = match foreign.contract_address {
        Some(a) => a,
        None => {
            return Err(Error::MissingContractAddress(Side::Foreign));
        },
    };
    Ok(
        Database {
            home: BlockchainState {
                deploy_block_number: home.block_number,
                last_block_number: home.block_number,
                bridge_contract_address: home_addr,
            },
            foreign: BlockchainState {
                deploy_block_number: foreign.block_number,
                last_block_number: foreign.block_number,
                bridge_contract_address: foreign_addr,
            },
        },
    )
}

/// Settles the whole deployment from the two confirmation outcomes, where
/// nothing stands for a failed confirmation wait. Exactly when both waits
/// confirmed and both receipts carry an address does a record come out; the
/// record equates each network's deploy and last block numbers, and a failure
/// names the failing network, the home network examined first.
pub fn deploy_outcome(home: Option<Receipt>, foreign: Option<Receipt>) -> (r: Result<
    Database,
    Error,
>)
    requires
        (home matches Some(h) ==> h.wf()),
        (foreign matches Some(f) ==> f.wf()),
    ensures
        match r {
            Ok(db) => {
                &&& home matches Some(h) && h.contract_address matches Some(ha) && {
                    &&& db@.home.bridge_contract_address == ha@
                    &&& db@.home.deploy_block_number == h.block_number
                    &&& db@.home.last_block_number == h.block_number
                }
                &&& foreign matches Some(f) && f.contract_address matches Some(fa) && {
                    &&& db@.foreign.bridge_contract_address == fa@
                    &&& db@.foreign.deploy_block_number == f.block_number
                    &&& db@.foreign.last_block_number == f.block_number
                }
                &&& db.wf()
            },
            Err(e) => {
                &&& home is None ==> e == Error::Transport(Side::Home)
                &&& (home is Some && foreign is None) ==> e == Error::Transport(Side::Foreign)
                &&& home matches Some(h) ==> (foreign matches Some(f) ==> {
                    &&& h.contract_address is None || f.contract_address is None
                    &&& e == (if h.contract_address is None {
                        Error::MissingContractAddress(Side::Home)
                    } else {
                        Error::MissingContractAddress(Side::Foreign)
                    })
                })
            },
        },
{
    let h = match home {
        Some(h) => h,
        None => {
            return Err(Error::Transport(Side::Home));
        },
    };
    let f = match foreign {
        Some(f) => f,
        None => {
            return Err(Error::Transport(Side::Foreign));
        },
    };
    combine_receipts(h, f)
}

} // verus!
