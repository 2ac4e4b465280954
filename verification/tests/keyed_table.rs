use lifetra::keyed_table::KeyedTable;
use lifetra::ActionId;

fn action(value: &str) -> ActionId {
    ActionId::new(value).expect("valid action")
}

#[test]
fn table_holds_one_value_per_action() {
    let mut table: KeyedTable<u32> = KeyedTable::new();
    assert_eq!(table.len(), 0);
    table.insert(action("a"), 1);
    table.insert(action("b"), 2);
    table.insert(action("a"), 3);
    assert_eq!(table.len(), 2);
    assert_eq!(table.get(&action("a")), Some(&3));
    assert_eq!(table.get(&action("b")), Some(&2));
    assert_eq!(table.get(&action("c")), None);

    let copy = table.clone();
    assert_eq!(copy.len(), 2);
    assert_eq!(copy.get(&action("a")), Some(&3));
}
