use disco_foundation::table::IdTable;

fn keys(t: &IdTable<&'static str>) -> Vec<(u128, &'static str)> {
    (0..t.len()).map(|i| *t.entry(i)).collect()
}

#[test]
fn new_keys_go_last_and_replacements_stay_in_place() {
    let mut t = IdTable::new();
    t.insert(7, "a");
    t.insert(3, "b");
    t.insert(9, "c");
    t.insert(3, "B");
    assert_eq!(keys(&t), vec![(7, "a"), (3, "B"), (9, "c")]);
}

#[test]
fn remove_keeps_the_order_of_the_rest() {
    let mut t = IdTable::new();
    t.insert(1, "x");
    t.insert(2, "y");
    t.insert(3, "z");
    assert_eq!(t.remove(2), Some("y"));
    assert_eq!(t.remove(2), None);
    assert_eq!(keys(&t), vec![(1, "x"), (3, "z")]);
}
