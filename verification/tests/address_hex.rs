use mantle_core::address::Address;
use mantle_core::bcfs::u64_to_le_bytes;
use mantle_core::blockchain::{Address as _, TransactionOutcome};

#[test]
fn address_parses_forty_hex_digits() {
    let text: Vec<char> = "0102030405060708090a0B0c0D0e0F101112ff".chars().collect();
    assert_eq!(Address::parse(&text), None);
    let text: Vec<char> = "000102030405060708090a0B0c0D0e0F101112ff".chars().collect();
    let a = Address::parse(&text).unwrap();
    assert_eq!(a.0[0], 0);
    assert_eq!(a.0[10], 0x0a);
    assert_eq!(a.0[19], 0xff);
    let bad: Vec<char> = "zz0102030405060708090a0b0c0d0e0f10111213".chars().collect();
    assert_eq!(Address::parse(&bad), None);
}

#[test]
fn path_repr_is_lower_case_hex_and_parses_back() {
    let a = Address([0xab; 20]);
    let repr = a.path_repr();
    assert_eq!(repr, "ab".repeat(20));
    let chars: Vec<char> = repr.chars().collect();
    assert_eq!(Address::parse(&chars), Some(a));
    let b = Address([0x01; 20]);
    assert!(!a.same(&b));
    assert!(b.same(&Address([0x01; 20])));
}

#[test]
fn balances_are_little_endian() {
    assert_eq!(u64_to_le_bytes(0x0102030405060708), vec![8, 7, 6, 5, 4, 3, 2, 1]);
    assert_eq!(u64_to_le_bytes(0), vec![0; 8]);
}

#[test]
fn only_success_is_not_reverted() {
    assert!(!TransactionOutcome::Success.reverted());
    assert!(TransactionOutcome::Aborted.reverted());
    assert!(TransactionOutcome::InsufficientGas.reverted());
    assert!(TransactionOutcome::Fatal.reverted());
}
