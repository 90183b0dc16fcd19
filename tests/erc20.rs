use erc20::{AccountId, Approval, Erc20, Event, Transfer};

fn alice() -> AccountId {
    AccountId::from([0x1; 32])
}

fn bob() -> AccountId {
    AccountId::from([0x0; 32])
}

fn carol() -> AccountId {
    AccountId::from([0x2; 32])
}

#[test]
fn new_works() {
    let contract = Erc20::new(alice(), 777);
    assert_eq!(contract.total_supply(), 777);
}

#[test]
fn balance_works() {
    let contract = Erc20::new(alice(), 100);
    assert_eq!(contract.total_supply(), 100);
    assert_eq!(contract.balance_of(AccountId::from([0x1; 32])), 100);
    assert_eq!(contract.balance_of(AccountId::from([0x0; 32])), 0);
}

#[test]
fn transfer_works() {
    let mut contract = Erc20::new(alice(), 100);
    assert_eq!(contract.balance_of(AccountId::from([0x1; 32])), 100);
    assert!(contract.transfer(alice(), AccountId::from([0x0; 32]), 10));
    assert_eq!(contract.balance_of(AccountId::from([0x0; 32])), 10);
    assert!(!contract.transfer(alice(), AccountId::from([0x0; 32]), 100));
}

#[test]
fn transfer_from_works() {
    let mut contract = Erc20::new(alice(), 100);
    assert_eq!(contract.balance_of(AccountId::from([0x1; 32])), 100);
    contract.approve(alice(), AccountId::from([0x1; 32]), 20);
    contract.transfer_from(
        alice(),
        AccountId::from([0x1; 32]),
        AccountId::from([0x0; 32]),
        10,
    );
    assert_eq!(contract.balance_of(AccountId::from([0x0; 32])), 10);
}

#[test]
fn construction_emits_issue_event() {
    let contract = Erc20::new(alice(), 777);
    assert_eq!(contract.total_supply(), 777);
    assert_eq!(contract.balance_of(alice()), 777);
    assert_eq!(
        contract.events(),
        &vec![Event::Transfer(Transfer { from: None, to: Some(alice()), value: 777 })]
    );
}

#[test]
fn untouched_accounts_read_zero() {
    let mut contract = Erc20::new(alice(), 50);
    assert!(contract.transfer(alice(), bob(), 5));
    assert_eq!(contract.balance_of(carol()), 0);
    assert_eq!(contract.allowance(alice(), carol()), 0);
    assert_eq!(contract.allowance(carol(), alice()), 0);
}

#[test]
fn chained_transfers() {
    let mut contract = Erc20::new(alice(), 100);
    assert!(contract.transfer(alice(), bob(), 10));
    assert_eq!(contract.balance_of(bob()), 10);
    assert_eq!(contract.balance_of(alice()), 90);
    assert!(!contract.transfer(alice(), bob(), 100));
    assert_eq!(contract.balance_of(bob()), 10);
    assert_eq!(contract.balance_of(alice()), 90);
    assert_eq!(contract.events().len(), 2);
}

#[test]
fn insufficient_transfer_changes_nothing() {
    let mut contract = Erc20::new(alice(), 30);
    assert!(!contract.transfer(bob(), alice(), 1));
    assert!(!contract.transfer(alice(), bob(), 31));
    assert_eq!(contract.balance_of(alice()), 30);
    assert_eq!(contract.balance_of(bob()), 0);
    assert_eq!(contract.events().len(), 1);
}

#[test]
fn approve_replaces_allowance() {
    let mut contract = Erc20::new(alice(), 100);
    assert!(contract.approve(alice(), bob(), 20));
    assert!(contract.approve(alice(), bob(), 5));
    assert_eq!(contract.allowance(alice(), bob()), 5);
    assert_eq!(
        contract.events()[2],
        Event::Approval(Approval { owner: Some(alice()), spender: Some(bob()), value: 5 })
    );
}

#[test]
fn delegated_transfer_debits_allowance() {
    let mut contract = Erc20::new(alice(), 100);
    assert!(contract.approve(alice(), bob(), 20));
    assert!(contract.transfer_from(bob(), alice(), carol(), 12));
    assert_eq!(contract.allowance(alice(), bob()), 8);
    assert_eq!(contract.balance_of(carol()), 12);
    assert_eq!(contract.balance_of(alice()), 88);
    assert_eq!(contract.balance_of(bob()), 0);
}

#[test]
fn delegated_transfer_blocked_by_allowance() {
    let mut contract = Erc20::new(alice(), 100);
    assert!(contract.approve(alice(), bob(), 20));
    assert!(!contract.transfer_from(bob(), alice(), carol(), 21));
    assert_eq!(contract.allowance(alice(), bob()), 20);
    assert_eq!(contract.balance_of(carol()), 0);
    assert_eq!(contract.balance_of(alice()), 100);
}

#[test]
fn allowance_debited_when_balance_falls_short() {
    let mut contract = Erc20::new(alice(), 10);
    assert!(contract.approve(alice(), bob(), 50));
    assert!(!contract.transfer_from(bob(), alice(), carol(), 20));
    assert_eq!(contract.allowance(alice(), bob()), 30);
    assert_eq!(contract.balance_of(alice()), 10);
    assert_eq!(contract.balance_of(carol()), 0);
}

#[test]
fn self_transfer_keeps_balance() {
    let mut contract = Erc20::new(alice(), 40);
    assert!(contract.transfer(alice(), alice(), 15));
    assert_eq!(contract.balance_of(alice()), 40);
    assert_eq!(
        contract.events()[1],
        Event::Transfer(Transfer { from: Some(alice()), to: Some(alice()), value: 15 })
    );
}

#[test]
fn zero_value_transfer_succeeds() {
    let mut contract = Erc20::new(alice(), 40);
    assert!(contract.transfer(bob(), carol(), 0));
    assert_eq!(contract.balance_of(bob()), 0);
    assert_eq!(contract.balance_of(carol()), 0);
}

#[test]
fn balances_sum_to_supply() {
    let mut contract = Erc20::new(alice(), 1000);
    assert!(contract.transfer(alice(), bob(), 300));
    assert!(contract.transfer(bob(), carol(), 120));
    assert!(contract.approve(carol(), alice(), 100));
    assert!(contract.transfer_from(alice(), carol(), bob(), 70));
    let sum = contract.balance_of(alice()) + contract.balance_of(bob()) + contract.balance_of(carol());
    assert_eq!(sum, contract.total_supply());
    assert_eq!(contract.balance_of(alice()), 700);
    assert_eq!(contract.balance_of(bob()), 250);
    assert_eq!(contract.balance_of(carol()), 50);
}

#[test]
fn largest_supply_moves_whole() {
    let mut contract = Erc20::new(alice(), u128::MAX);
    assert!(contract.transfer(alice(), bob(), u128::MAX));
    assert_eq!(contract.balance_of(bob()), u128::MAX);
    assert_eq!(contract.balance_of(alice()), 0);
}

#[test]
fn account_equality_compares_bytes() {
    let mut bytes = [0x1; 32];
    assert!(AccountId::from(bytes) == alice());
    bytes[31] = 0x7;
    assert!(AccountId::from(bytes) != alice());
    assert!(!AccountId::from(bytes).same_as(&alice()));
}
