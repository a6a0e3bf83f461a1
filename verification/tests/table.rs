use governance::account::AccountId;
use governance::table::Table;

#[test]
fn a_new_table_holds_nothing() {
    let table: Table<u16, u64> = Table::new();
    assert_eq!(table.len(), 0);
    assert!(!table.contains_key(&0));
    assert_eq!(table.get(&0), None);
}

#[test]
fn insert_adds_a_key_or_replaces_its_value() {
    let mut table: Table<u64, &str> = Table::new();
    table.insert(1, "one");
    table.insert(2, "two");
    assert_eq!(table.len(), 2);
    assert_eq!(table.get(&1), Some(&"one"));
    assert_eq!(table.get(&2), Some(&"two"));
    table.insert(1, "uno");
    assert_eq!(table.len(), 2);
    assert_eq!(table.get(&1), Some(&"uno"));
    assert_eq!(table.get(&2), Some(&"two"));
    assert_eq!(table.get(&3), None);
}

#[test]
fn remove_takes_the_key_out_and_hands_the_value_back() {
    let mut table: Table<u32, u8> = Table::new();
    table.insert(10, 1);
    table.insert(20, 2);
    table.insert(30, 3);
    assert_eq!(table.remove(&20), Some(2));
    assert_eq!(table.remove(&20), None);
    assert_eq!(table.len(), 2);
    assert!(table.contains_key(&10));
    assert!(!table.contains_key(&20));
    assert_eq!(table.get(&30), Some(&3));
}

#[test]
fn accounts_key_a_table() {
    let a = AccountId { bytes: [1; 32] };
    let b = AccountId { bytes: [2; 32] };
    let mut table: Table<AccountId, u8> = Table::new();
    table.insert(a, 1);
    assert!(table.contains_key(&a));
    assert!(!table.contains_key(&b));
    table.insert(b, 2);
    assert_eq!(table.get(&a), Some(&1));
    assert_eq!(table.get(&b), Some(&2));
}
