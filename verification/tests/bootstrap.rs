use bridge::address::Address;
use bridge::bootstrap::{complete_bootstrap, start_bootstrap, BootstrapPlan, FileState};
use bridge::database::{BlockchainState, Database};
use bridge::deploy::{build_deploy_request, combine_receipts, deploy_outcome, Receipt};
use bridge::error::{Error, Side};

fn addr(byte: u8) -> Address {
    Address::from_bytes(vec![byte; 20]).unwrap()
}

fn record(home_block: u64, home_byte: u8, foreign_block: u64, foreign_byte: u8) -> Database {
    Database {
        home: BlockchainState {
            deploy_block_number: home_block,
            last_block_number: home_block,
            bridge_contract_address: addr(home_byte),
        },
        foreign: BlockchainState {
            deploy_block_number: foreign_block,
            last_block_number: foreign_block,
            bridge_contract_address: addr(foreign_byte),
        },
    }
}

#[test]
fn record_format_is_six_lines() {
    let db = record(3, 0xaa, 4, 0xbb);
    let mut expected = b"3\n3\n".to_vec();
    expected.extend_from_slice("aa".repeat(20).as_bytes());
    expected.push(b'\n');
    expected.extend_from_slice(b"4\n4\n");
    expected.extend_from_slice("bb".repeat(20).as_bytes());
    expected.push(b'\n');
    assert_eq!(db.to_bytes(), expected);
}

#[test]
fn record_roundtrips_through_bytes() {
    let db = record(18446744073709551615, 0x01, 0, 0xfe);
    let bytes = db.to_bytes();
    let back = Database::from_bytes(&bytes).unwrap();
    assert_eq!(back, db);
    // the cursor may have moved past the deployment height
    let mut moved = record(5, 0x10, 6, 0x20);
    moved.home.last_block_number = 123456789;
    let back = Database::from_bytes(&moved.to_bytes()).unwrap();
    assert_eq!(back, moved);
}

#[test]
fn foul_record_bytes_are_refused() {
    assert!(Database::from_bytes(b"").is_none());
    assert!(Database::from_bytes(b"garbage").is_none());
    let db = record(3, 0xaa, 4, 0xbb);
    let mut bytes = db.to_bytes();
    bytes.push(b'x');
    assert!(Database::from_bytes(&bytes).is_none());
    // a leading zero is not the canonical notation
    let with_zero = b"03\n3\n".to_vec();
    assert!(Database::from_bytes(&with_zero).is_none());
    // uppercase hex is not the written form
    let upper = String::from_utf8(db.to_bytes()).unwrap().to_uppercase();
    assert!(Database::from_bytes(upper.as_bytes()).is_none());
    // a block number beyond 64 bits
    let too_big = b"18446744073709551616\n3\n".to_vec();
    assert!(Database::from_bytes(&too_big).is_none());
}

#[test]
fn fresh_path_calls_for_deployment() {
    match start_bootstrap(&FileState::Absent).unwrap() {
        BootstrapPlan::Deploy => {},
        BootstrapPlan::UseStored(_) => panic!("a fresh path must deploy"),
    }
}

#[test]
fn stored_record_short_circuits() {
    let db = record(7, 0xaa, 9, 0xbb);
    let file = FileState::Present(db.to_bytes());
    match start_bootstrap(&file).unwrap() {
        BootstrapPlan::UseStored(found) => {
            assert_eq!(found.home.bridge_contract_address, addr(0xaa));
            assert_eq!(found, db);
        },
        BootstrapPlan::Deploy => panic!("a stored record must not deploy again"),
    }
}

#[test]
fn unreadable_record_is_fatal_without_deploying() {
    let file = FileState::Present(b"not a record".to_vec());
    assert_eq!(start_bootstrap(&file).unwrap_err(), Error::RecordUnreadable);
}

#[test]
fn bootstrap_is_idempotent_across_runs() {
    let deployed = record(11, 0xcd, 12, 0xef);
    let (first, file) = complete_bootstrap(FileState::Absent, Ok(deployed));
    let first = first.unwrap();
    match start_bootstrap(&file).unwrap() {
        BootstrapPlan::UseStored(second) => assert_eq!(second, first),
        BootstrapPlan::Deploy => panic!("the second run must not deploy"),
    }
}

#[test]
fn failed_deployment_writes_nothing() {
    let (result, file) = complete_bootstrap(
        FileState::Absent,
        Err(Error::Transport(Side::Foreign)),
    );
    assert_eq!(result.unwrap_err(), Error::Transport(Side::Foreign));
    match file {
        FileState::Absent => {},
        FileState::Present(_) => panic!("a failed deployment must not persist"),
    }
}

#[test]
fn receipts_combine_with_each_networks_height() {
    let home = Receipt { block_number: 7, contract_address: Some(addr(0x11)) };
    let foreign = Receipt { block_number: 9, contract_address: Some(addr(0x22)) };
    let db = deploy_outcome(Some(home), Some(foreign)).unwrap();
    assert_eq!(db.home.deploy_block_number, 7);
    assert_eq!(db.home.last_block_number, 7);
    assert_eq!(db.foreign.deploy_block_number, 9);
    assert_eq!(db.foreign.last_block_number, 9);
    assert_eq!(db.home.bridge_contract_address, addr(0x11));
    assert_eq!(db.foreign.bridge_contract_address, addr(0x22));
}

#[test]
fn foreign_transport_failure_names_the_foreign_side() {
    let home = Receipt { block_number: 7, contract_address: Some(addr(0x11)) };
    let err = deploy_outcome(Some(home), None).unwrap_err();
    assert_eq!(err, Error::Transport(Side::Foreign));
}

#[test]
fn home_transport_failure_names_the_home_side() {
    let foreign = Receipt { block_number: 9, contract_address: Some(addr(0x22)) };
    let err = deploy_outcome(None, Some(foreign)).unwrap_err();
    assert_eq!(err, Error::Transport(Side::Home));
}

#[test]
fn receipt_without_address_is_an_invariant_violation() {
    let home = Receipt { block_number: 7, contract_address: None };
    let foreign = Receipt { block_number: 9, contract_address: Some(addr(0x22)) };
    let err = combine_receipts(home, foreign).unwrap_err();
    assert_eq!(err, Error::MissingContractAddress(Side::Home));
    let home = Receipt { block_number: 7, contract_address: Some(addr(0x11)) };
    let foreign = Receipt { block_number: 9, contract_address: None };
    let err = combine_receipts(home, foreign).unwrap_err();
    assert_eq!(err, Error::MissingContractAddress(Side::Foreign));
}

#[test]
fn deploy_request_carries_account_gas_and_payload() {
    let account = addr(0x42);
    let payload = vec![0x60u8, 0x60, 0x60];
    let req = build_deploy_request(&account, 500000, 20, &payload);
    assert_eq!(req.from, account);
    assert_eq!(req.gas, 500000);
    assert_eq!(req.gas_price, 20);
    assert_eq!(req.value, bridge::u256::U256::zero());
    assert_eq!(req.data, payload);
}
