use gavin::table::{push_to, push_under, Table};

#[test]
fn a_table_keeps_the_order_of_first_insertion() {
    let mut t: Table<u32> = Table::new();
    assert_eq!(t.len(), 0);
    t.insert("b", 1);
    t.insert("a", 2);
    t.insert("b", 3);
    assert_eq!(t.len(), 2);
    assert_eq!(t.position("b"), Some(0));
    assert_eq!(t.position("a"), Some(1));
    assert_eq!(t.position("c"), None);
    assert_eq!(t.get("b"), Some(&3));
    assert_eq!(t.get("a"), Some(&2));
    assert_eq!(t.get("c"), None);
    assert_eq!(t.entries, vec![("b".to_string(), 3), ("a".to_string(), 2)]);
}

#[test]
fn pushing_to_a_list_makes_the_entry_when_it_is_missing() {
    let mut t: Table<Vec<u32>> = Table::new();
    push_to(&mut t, "x", 1);
    push_to(&mut t, "y", 2);
    push_to(&mut t, "x", 3);
    assert_eq!(
        t.entries,
        vec![("x".to_string(), vec![1, 3]), ("y".to_string(), vec![2])]
    );
}

#[test]
fn pushing_under_two_names() {
    let mut t: Table<Table<Vec<u32>>> = Table::new();
    push_under(&mut t, "task", "repo-a", 1);
    push_under(&mut t, "task", "repo-b", 2);
    push_under(&mut t, "other", "repo-a", 3);
    push_under(&mut t, "task", "repo-a", 4);
    assert_eq!(t.len(), 2);
    let task = t.get("task").unwrap();
    assert_eq!(task.get("repo-a"), Some(&vec![1, 4]));
    assert_eq!(task.get("repo-b"), Some(&vec![2]));
    assert_eq!(t.get("other").unwrap().get("repo-a"), Some(&vec![3]));
    assert_eq!(t.position("task"), Some(0));
    assert_eq!(t.position("other"), Some(1));
}

#[test]
fn a_table_with_a_name_twice_is_not_sound() {
    let mut t: Table<u32> = Table::new();
    assert!(t.is_sound());
    t.insert("a", 1);
    t.insert("b", 2);
    t.insert("a", 3);
    assert!(t.is_sound());
    t.entries.push(("b".to_string(), 4));
    assert!(!t.is_sound());
}
