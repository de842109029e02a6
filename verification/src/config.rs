//! The configuration as the program uses it: every default filled, every
//! address parsed, every policy value a number. Built from the file shape by
//! one fallible conversion that validates as it fills.

use vstd::prelude::*;
use vstd::string::StringSliceAdditionalSpecFns;

use crate::address::{addr_value, parse_address, valid_addr_text, Address};
use crate::dec::{all_dec_digits, dec_val};
use crate::error::Error;
use crate::hex::{decode_pairs, hex_decode, non_ws, text_bytes, valid_hex_text};
use crate::load;
use crate::u256::{pow256, U256};

verus! {

/// Seconds between confirmation-depth checks when the file names none.
pub const DEFAULT_POLL_INTERVAL: u64 = 1;

/// Confirmation depth required when the file names none.
pub const DEFAULT_CONFIRMATIONS: usize = 12;

/// Seconds before a request times out when the file names none.
pub const DEFAULT_TIMEOUT: u64 = 5;

/// Gas parameters of one transaction type; zero where the file said nothing.
#[derive(Clone, Copy, Debug, PartialEq, Eq, Structural)]
pub struct TransactionConfig {
    pub gas: u64,
    pub gas_price: u64,
}

/// Per-transaction-type gas parameters.
#[derive(Clone, Copy, Debug, PartialEq, Eq, Structural)]
pub struct Transactions {
    pub home_deploy: TransactionConfig,
    pub foreign_deploy: TransactionConfig,
    pub deposit_relay: TransactionConfig,
    pub withdraw_confirm: TransactionConfig,
    pub withdraw_relay: TransactionConfig,
}

/// One network's compiled bridge contract, hex-decoded into raw bytes.
#[derive(Clone, Debug)]
pub struct ContractConfig {
    pub bin: Vec<u8>,
}

/// One network's applied settings. The timeout and poll interval are in
/// seconds.
#[derive(Clone, Debug)]
pub struct NodeConfig {
    pub contract: ContractConfig,
    pub http: String,
    pub request_timeout: u64,
    pub poll_interval: u64,
    pub required_confirmations: usize,
}

/// The authority set with parsed accounts.
#[derive(Debug)]
pub struct Authorities {
    pub accounts: Vec<Address>,
    pub required_signatures: u32,
}

/// The whole applied configuration.
#[derive(Debug)]
pub struct Config {
    pub address: Address,
    pub home: NodeConfig,
    pub foreign: NodeConfig,
    pub authorities: Authorities,
    pub txs: Transactions,
    pub estimated_gas_cost_of_withdraw: U256,
    pub max_total_home_contract_balance: U256,
    pub max_single_deposit_value: U256,
}

/// The gas parameters an optional file entry stands for.
pub open spec fn spec_tx_config(o: Option<load::TransactionConfig>) -> TransactionConfig {
    match o {
        Some(t) => (TransactionConfig {
            gas: (match t.gas {
                Some(g) => g,
                None => 0,
            }),
            gas_price: (match t.gas_price {
                Some(g) => g,
                None => 0,
            }),
        }),
        None => (TransactionConfig { gas: 0, gas_price: 0 }),
    }
}

/// The transaction table an optional file section stands for.
pub open spec fn spec_transactions(o: Option<load::Transactions>) -> Transactions {
    match o {
        Some(t) => (Transactions {
            home_deploy: spec_tx_config(t.home_deploy),
            foreign_deploy: spec_tx_config(t.foreign_deploy),
            deposit_relay: spec_tx_config(t.deposit_relay),
            withdraw_confirm: spec_tx_config(t.withdraw_confirm),
            withdraw_relay: spec_tx_config(t.withdraw_relay),
        }),
        None => (Transactions {
            home_deploy: (TransactionConfig { gas: 0, gas_price: 0 }),
            foreign_deploy: (TransactionConfig { gas: 0, gas_price: 0 }),
            deposit_relay: (TransactionConfig { gas: 0, gas_price: 0 }),
            withdraw_confirm: (TransactionConfig { gas: 0, gas_price: 0 }),
            withdraw_relay: (TransactionConfig { gas: 0, gas_price: 0 }),
        }),
    }
}

/// How an applied node section relates to its file shape: the payload is the
/// decoded hex text, the defaults are filled where the file was silent.
pub open spec fn node_matches(n: NodeConfig, node: load::NodeConfig, bin_text: Seq<u8>) -> bool {
    &&& n.contract.bin@ == decode_pairs(non_ws(bin_text))
    &&& n.http@ == node.http@
    &&& n.request_timeout == (match node.request_timeout {
        Some(t) => t,
        None => DEFAULT_TIMEOUT,
    })
    &&& n.poll_interval == (match node.poll_interval {
        Some(t) => t,
        None => DEFAULT_POLL_INTERVAL,
    })
    &&& n.required_confirmations == (match node.required_confirmations {
        Some(c) => c,
        None => DEFAULT_CONFIRMATIONS,
    })
}

/// Whether a decimal text denotes a 256-bit number.
pub open spec fn valid_dec_text(s: Seq<u8>) -> bool {
    all_dec_digits(s) && dec_val(s) < pow256()
}

/// The first fault of a configuration file, in the order the conversion
/// looks: the primary address, the two payloads, the authority accounts, the
/// three policy values.
pub open spec fn spec_config_error(
    config: load::Config,
    home_bin: Seq<u8>,
    foreign_bin: Seq<u8>,
) -> Option<Error> {
    if !valid_addr_text(text_bytes(config.address@)) {
        Some(Error::InvalidAddress)
    } else if !valid_hex_text(home_bin) {
        Some(Error::InvalidHex)
    } else if !valid_hex_text(foreign_bin) {
        Some(Error::InvalidHex)
    } else if exists|i: int|
        0 <= i < config.authorities.accounts@.len() && !valid_addr_text(
            text_bytes(#[trigger] config.authorities.accounts@[i]@),
        ) {
        Some(Error::InvalidAddress)
    } else if !valid_dec_text(text_bytes(config.estimated_gas_cost_of_withdraw@)) {
        Some(Error::InvalidDecimal)
    } else if !valid_dec_text(text_bytes(config.max_total_home_contract_balance@)) {
        Some(Error::InvalidDecimal)
    } else if !valid_dec_text(text_bytes(config.max_single_deposit_value@)) {
        Some(Error::InvalidDecimal)
    } else {
        None
    }
}

impl TransactionConfig {
    /// Fills zero for what the file entry omits.
    pub fn from_load_struct(cfg: load::TransactionConfig) -> (r: Self)
        ensures
            r == spec_tx_config(Some(cfg)),
    {
        TransactionConfig {
            gas: match cfg.gas {
                Some(g) => g,
                None => 0,
            },
            gas_price: match cfg.gas_price {
                Some(g) => g,
                None => 0,
            },
        }
    }
}

impl Default for TransactionConfig {
    /// Zero gas and zero gas price, as an absent entry means.
    fn default() -> (r: Self)
        ensures
            r == spec_tx_config(None),
    {
        TransactionConfig { gas: 0, gas_price: 0 }
    }
}

impl Transactions {
    /// Fills defaults for every transaction type the file section omits.
    pub fn from_load_struct(cfg: load::Transactions) -> (r: Self)
        ensures
            r == spec_transactions(Some(cfg)),
    {
        Transactions {
            home_deploy: match cfg.home_deploy {
                Some(t) => TransactionConfig::from_load_struct(t),
                None => TransactionConfig::default(),
            },
            foreign_deploy: match cfg.foreign_deploy {
                Some(t) => TransactionConfig::from_load_struct(t),
                None => TransactionConfig::default(),
            },
            deposit_relay: match cfg.deposit_relay {
                Some(t) => TransactionConfig::from_load_struct(t),
                None => TransactionConfig::default(),
            },
            withdraw_confirm: match cfg.withdraw_confirm {
                Some(t) => TransactionConfig::from_load_struct(t),
                None => TransactionConfig::default(),
            },
            withdraw_relay: match cfg.withdraw_relay {
                Some(t) => TransactionConfig::from_load_struct(t),
                None => TransactionConfig::default(),
            },
        }
    }
}

impl Default for Transactions {
    /// The table an absent section means: every entry zero.
    fn default() -> (r: Self)
        ensures
            r == spec_transactions(None),
    {
        Transactions {
            home_deploy: TransactionConfig { gas: 0, gas_price: 0 },
            foreign_deploy: TransactionConfig { gas: 0, gas_price: 0 },
            deposit_relay: TransactionConfig { gas: 0, gas_price: 0 },
            withdraw_confirm: TransactionConfig { gas: 0, gas_price: 0 },
            withdraw_relay: TransactionConfig { gas: 0, gas_price: 0 },
        }
    }
}

impl NodeConfig {
    /// Applies one network's file section: decodes the compiled contract's
    /// hex text and fills the defaults. `bin_hex` is the contract file's
    /// contents, read beside the configuration.
    pub fn from_load_struct(node: load::NodeConfig, bin_hex: &str) -> (r: Result<NodeConfig, Error>)
        ensures
            match r {
                Ok(n) => valid_hex_text(bin_hex.spec_bytes()) && node_matches(
                    n,
                    node,
                    bin_hex.spec_bytes(),
                ),
                Err(e) => e == Error::InvalidHex && !valid_hex_text(bin_hex.spec_bytes()),
            },
    {
        let bin = match hex_decode(bin_hex) {
            Some(v) => v,
            None => {
                return Err(Error::InvalidHex);
            },
        };
        Ok(
            NodeConfig {
                contract: ContractConfig { bin },
                http: node.http,
                request_timeout: match node.request_timeout {
                    Some(t) => t,
                    None => DEFAULT_TIMEOUT,
                },
                poll_interval: match node.poll_interval {
                    Some(t) => t,
                    None => DEFAULT_POLL_INTERVAL,
                },
                required_confirmations: match node.required_confirmations {
                    Some(c) => c,
                    None => DEFAULT_CONFIRMATIONS,
                },
            },
        )
    }
}

impl Config {
    /// Applies a whole configuration file: parses the primary address,
    /// applies both network sections with their contract payloads, parses
    /// every authority account, fills the transaction table, and parses the
    /// three policy values. Fails with the file's first fault, in that
    /// order.
    pub fn from_load_struct(config: load::Config, home_bin_hex: &str, foreign_bin_hex: &str) -> (r:
        Result<Config, Error>)
        ensures
            match r {
                Ok(c) => {
                    &&& spec_config_error(
                        config,
                        home_bin_hex.spec_bytes(),
                        foreign_bin_hex.spec_bytes(),
                    ) is None
                    &&& c.address@ == addr_value(text_bytes(config.address@))
                    &&& node_matches(c.home, config.home, home_bin_hex.spec_bytes())
                    &&& node_matches(c.foreign, config.foreign, foreign_bin_hex.spec_bytes())
                    &&& c.authorities.required_signatures
                        == config.authorities.required_signatures
                    &&& c.authorities.accounts@.len() == config.authorities.accounts@.len()
                    &&& forall|i: int|
                        0 <= i < c.authorities.accounts@.len()
                            ==> #[trigger] c.authorities.accounts@[i]@ == addr_value(
                            text_bytes(config.authorities.accounts@[i]@),
                        )
                    &&& c.txs == spec_transactions(config.transactions)
                    &&& c.estimated_gas_cost_of_withdraw.value() == dec_val(
                        text_bytes(config.estimated_gas_cost_of_withdraw@),
                    )
                    &&& c.max_total_home_contract_balance.value() == dec_val(
                        text_bytes(config.max_total_home_contract_balance@),
                    )
                    &&& c.max_single_deposit_value.value() == dec_val(
                        text_bytes(config.max_single_deposit_value@),
                    )
                },
                Err(e) => spec_config_error(
                    config,
                    home_bin_hex.spec_bytes(),
                    foreign_bin_hex.spec_bytes(),
                ) == Some(e),
            },
    {
        let address = match parse_address(config.address.as_str()) {
            Some(a) => a,
            None => {
                return Err(Error::InvalidAddress);
            },
        };
        let home = match NodeConfig::from_load_struct(config.home, home_bin_hex) {
            Ok(n) => n,
            Err(e) => {
                return Err(e);
            },
        };
        let foreign = match NodeConfig::from_load_struct(config.foreign, foreign_bin_hex) {
            Ok(n) => n,
            Err(e) => {
                return Err(e);
            },
        };
        let mut accounts: Vec<Address> = Vec::new();
        let mut i: usize = 0;
        let total = config.authorities.accounts.len();
        while i < total
            invariant
                total == config.authorities.accounts@.len(),
                0 <= i <= total,
                valid_addr_text(text_bytes(config.address@)),
                valid_hex_text(home_bin_hex.spec_bytes()),
                valid_hex_text(foreign_bin_hex.spec_bytes()),
                accounts@.len() == i,
                forall|k: int|
                    0 <= k < i ==> valid_addr_text(
                        text_bytes(#[trigger] config.authorities.accounts@[k]@),
                    ),
                forall|k: int|
                    0 <= k < i ==> #[trigger] accounts@[k]@ == addr_value(
                        text_bytes(config.authorities.accounts@[k]@),
                    ),
            decreases total - i,
        {
            let entry = &config.authorities.accounts[i];
            match parse_address(entry.as_str()) {
                Some(a) => {
                    accounts.push(a);
                },
                None => {
                    proof {
                        assert(!valid_addr_text(
                            text_bytes(config.authorities.accounts@[i as int]@),
                        ));
                    }
                    return Err(Error::InvalidAddress);
                },
            }
            i = i + 1;
        }
        let txs = match config.transactions {
            Some(t) => Transactions::from_load_struct(t),
            None => Transactions::default(),
        };
        let estimated_gas_cost_of_withdraw = match U256::from_dec_str(
            config.estimated_gas_cost_of_withdraw.as_str(),
        ) {
            Ok(u) => u,
            Err(e) => {
                return Err(e);
            },
        };
        let max_total_home_contract_balance = match U256::from_dec_str(
            config.max_total_home_contract_balance.as_str(),
        ) {
            Ok(u) => u,
            Err(e) => {
                return Err(e);
            },
        };
        let max_single_deposit_value = match U256::from_dec_str(
            config.max_single_deposit_value.as_str(),
        ) {
            Ok(u) => u,
            Err(e) => {
                return Err(e);
            },
        };
        Ok(
            Config {
                address,
                home,
                foreign,
                authorities: Authorities {
                    accounts,
                    required_signatures: config.authorities.required_signatures,
                },
                txs,
                estimated_gas_cost_of_withdraw,
                max_total_home_contract_balance,
                max_single_deposit_value,
            },
        )
    }
}

} // verus!
