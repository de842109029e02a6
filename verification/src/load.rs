//! The configuration as the file holds it: every optional field still
//! optional, every address and number still text. One fallible conversion
//! (`Config::from_load_struct` and its companions) turns this shape into the
//! applied configuration, filling defaults and validating; that separation
//! keeps "what the file may omit" apart from "what the program may assume".

use vstd::prelude::*;

verus! {

/// Gas parameters of one transaction type, as written in the file.
#[derive(Clone, Debug)]
pub struct TransactionConfig {
    pub gas: Option<u64>,
    pub gas_price: Option<u64>,
}

/// Per-transaction-type overrides, each optional.
#[derive(Clone, Debug)]
pub struct Transactions {
    pub home_deploy: Option<TransactionConfig>,
    pub foreign_deploy: Option<TransactionConfig>,
    pub deposit_relay: Option<TransactionConfig>,
    pub withdraw_confirm: Option<TransactionConfig>,
    pub withdraw_relay: Option<TransactionConfig>,
}

/// Where one network's compiled bridge contract lies.
#[derive(Clone, Debug)]
pub struct ContractConfig {
    pub bin: String,
}

/// One network's section of the file.
#[derive(Clone, Debug)]
pub struct NodeConfig {
    pub contract: ContractConfig,
    pub http: String,
    pub request_timeout: Option<u64>,
    pub poll_interval: Option<u64>,
    pub required_confirmations: Option<usize>,
}

/// The authority set, accounts still as address text.
#[derive(Clone, Debug)]
pub struct Authorities {
    pub accounts: Vec<String>,
    pub required_signatures: u32,
}

/// The whole file: policy values as decimal text, addresses as hex text.
#[derive(Clone, Debug)]
pub struct Config {
    pub address: String,
    pub home: NodeConfig,
    pub foreign: NodeConfig,
    pub authorities: Authorities,
    pub transactions: Option<Transactions>,
    pub estimated_gas_cost_of_withdraw: String,
    pub max_total_home_contract_balance: String,
    pub max_single_deposit_value: String,
}

} // verus!
