use bridge::address::{parse_address, Address};
use bridge::config::{Config, NodeConfig, TransactionConfig, Transactions};
use bridge::error::Error;
use bridge::load;
use bridge::u256::U256;

fn node_section(bin: &str, http: &str) -> load::NodeConfig {
    load::NodeConfig {
        contract: load::ContractConfig { bin: bin.to_string() },
        http: http.to_string(),
        request_timeout: None,
        poll_interval: None,
        required_confirmations: None,
    }
}

fn base_load_config() -> load::Config {
    load::Config {
        address: "0x1B68Cb0B50181FC4006Ce572cF346e596E51818b".to_string(),
        home: node_section("../compiled_contracts/HomeBridge.bin", "http://localhost:8545"),
        foreign: node_section("../compiled_contracts/ForeignBridge.bin", "http://localhost:8546"),
        authorities: load::Authorities {
            accounts: vec![
                "0x0000000000000000000000000000000000000001".to_string(),
                "0x0000000000000000000000000000000000000002".to_string(),
                "0x0000000000000000000000000000000000000003".to_string(),
            ],
            required_signatures: 2,
        },
        transactions: None,
        estimated_gas_cost_of_withdraw: "100000".to_string(),
        max_total_home_contract_balance: "10000000000000000000".to_string(),
        max_single_deposit_value: "1000000000000000000".to_string(),
    }
}

#[test]
fn full_setup_applies_file_values() {
    let mut cfg = base_load_config();
    cfg.home.poll_interval = Some(2);
    cfg.home.required_confirmations = Some(100);
    cfg.transactions = Some(load::Transactions {
        home_deploy: Some(load::TransactionConfig { gas: Some(20), gas_price: None }),
        foreign_deploy: None,
        deposit_relay: None,
        withdraw_confirm: None,
        withdraw_relay: None,
    });
    let applied = Config::from_load_struct(cfg, "00aaff", "1234").unwrap();
    assert_eq!(
        applied.address,
        parse_address("1B68Cb0B50181FC4006Ce572cF346e596E51818b").unwrap()
    );
    assert_eq!(applied.home.poll_interval, 2);
    assert_eq!(applied.home.required_confirmations, 100);
    assert_eq!(applied.home.request_timeout, 5);
    assert_eq!(applied.home.contract.bin, vec![0x00u8, 0xaa, 0xff]);
    assert_eq!(applied.foreign.poll_interval, 1);
    assert_eq!(applied.foreign.required_confirmations, 12);
    assert_eq!(applied.foreign.request_timeout, 5);
    assert_eq!(applied.foreign.contract.bin, vec![0x12u8, 0x34]);
    assert_eq!(applied.foreign.http, "http://localhost:8546");
    assert_eq!(applied.authorities.required_signatures, 2);
    assert_eq!(applied.authorities.accounts.len(), 3);
    assert_eq!(
        applied.authorities.accounts[0],
        parse_address("0000000000000000000000000000000000000001").unwrap()
    );
    assert_eq!(applied.txs.home_deploy, TransactionConfig { gas: 20, gas_price: 0 });
    assert_eq!(applied.txs.foreign_deploy, TransactionConfig { gas: 0, gas_price: 0 });
    assert_eq!(applied.estimated_gas_cost_of_withdraw, U256 { l0: 100000, l1: 0, l2: 0, l3: 0 });
    assert_eq!(
        applied.max_total_home_contract_balance,
        U256 { l0: 10000000000000000000, l1: 0, l2: 0, l3: 0 }
    );
    assert_eq!(
        applied.max_single_deposit_value,
        U256 { l0: 1000000000000000000, l1: 0, l2: 0, l3: 0 }
    );
}

#[test]
fn minimal_setup_fills_defaults() {
    let cfg = base_load_config();
    let applied = Config::from_load_struct(cfg, "deadbeef", "deadbeef").unwrap();
    assert_eq!(applied.home.poll_interval, 1);
    assert_eq!(applied.home.request_timeout, 5);
    assert_eq!(applied.home.required_confirmations, 12);
    assert_eq!(applied.txs, Transactions::default());
    assert_eq!(applied.txs.home_deploy, TransactionConfig::default());
}

#[test]
fn contract_payload_is_hex_decoded() {
    let node = node_section("unused", "");
    let applied = NodeConfig::from_load_struct(node, "deadbeef").unwrap();
    assert_eq!(applied.contract.bin, vec![0xdeu8, 0xad, 0xbe, 0xef]);
}

#[test]
fn contract_payload_whitespace_is_skipped() {
    let node = node_section("unused", "");
    let applied = NodeConfig::from_load_struct(node, "dead\nbeef\n").unwrap();
    assert_eq!(applied.contract.bin, vec![0xdeu8, 0xad, 0xbe, 0xef]);
}

#[test]
fn odd_or_foul_contract_payload_is_refused() {
    let node = node_section("unused", "");
    assert_eq!(NodeConfig::from_load_struct(node, "abc").unwrap_err(), Error::InvalidHex);
    let node = node_section("unused", "");
    assert_eq!(NodeConfig::from_load_struct(node, "zz").unwrap_err(), Error::InvalidHex);
}

#[test]
fn bad_primary_address_is_refused() {
    let mut cfg = base_load_config();
    cfg.address = "0x1234".to_string();
    assert_eq!(
        Config::from_load_struct(cfg, "aa", "bb").unwrap_err(),
        Error::InvalidAddress
    );
}

#[test]
fn bad_authority_account_is_refused() {
    let mut cfg = base_load_config();
    cfg.authorities.accounts[1] = "not an address".to_string();
    assert_eq!(
        Config::from_load_struct(cfg, "aa", "bb").unwrap_err(),
        Error::InvalidAddress
    );
}

#[test]
fn bad_policy_value_is_refused() {
    let mut cfg = base_load_config();
    cfg.max_single_deposit_value = "12e3".to_string();
    assert_eq!(
        Config::from_load_struct(cfg, "aa", "bb").unwrap_err(),
        Error::InvalidDecimal
    );
}

#[test]
fn address_prefix_is_optional_and_case_ignored() {
    let with_prefix = parse_address("0x00000000000000000000000000000000000000aB").unwrap();
    let without = parse_address("00000000000000000000000000000000000000Ab").unwrap();
    assert_eq!(with_prefix, without);
    let mut expected = vec![0u8; 19];
    expected.push(0xab);
    assert_eq!(with_prefix, Address::from_bytes(expected).unwrap());
    assert!(parse_address("0x123").is_none());
    assert!(parse_address("").is_none());
}

#[test]
fn dec_str_crosses_limbs_exactly() {
    // one past the first limb: 2 to the 64th
    let u = U256::from_dec_str("18446744073709551616").unwrap();
    assert_eq!(u, U256 { l0: 0, l1: 1, l2: 0, l3: 0 });
    let max = U256::from_dec_str(
        "115792089237316195423570985008687907853269984665640564039457584007913129639935",
    )
    .unwrap();
    assert_eq!(
        max,
        U256 { l0: u64::MAX, l1: u64::MAX, l2: u64::MAX, l3: u64::MAX }
    );
    assert_eq!(U256::from_dec_str("").unwrap(), U256::zero());
}

#[test]
fn dec_str_overflow_and_junk_are_refused() {
    let err = U256::from_dec_str(
        "115792089237316195423570985008687907853269984665640564039457584007913129639936",
    )
    .unwrap_err();
    assert_eq!(err, Error::InvalidDecimal);
    assert_eq!(U256::from_dec_str("12 34").unwrap_err(), Error::InvalidDecimal);
    assert_eq!(U256::from_dec_str("-1").unwrap_err(), Error::InvalidDecimal);
}
