use calendar_frontend::model::{AccessLevel, User};
use calendar_frontend::table::{position_of_id, DbTable, DbTableGetById, Table};

fn user(id: i32, name: &str) -> User {
    User { id, name: name.to_string(), email: format!("{name}@mail"), roles: vec![] }
}

fn names(t: &Table<User>) -> Vec<String> {
    t.get().iter().map(|u| u.name.clone()).collect()
}

#[test]
fn push_appends_new_items() {
    let mut t = Table::new();
    assert!(t.push_one(user(1, "a")));
    assert!(t.push_one(user(2, "b")));
    assert_eq!(names(&t), vec!["a", "b"]);
}

#[test]
fn push_replaces_the_item_with_the_same_id() {
    let mut t = Table::from_vec(vec![user(1, "a"), user(2, "b")]);
    assert!(!t.push_one(user(1, "c")));
    assert_eq!(names(&t), vec!["c", "b"]);
}

#[test]
fn find_after_push_gives_the_item() {
    let mut t = Table::from_vec(vec![user(1, "a"), user(2, "b")]);
    t.push_one(user(3, "c"));
    assert_eq!(t.find_item(3).unwrap().name, "c");
    assert_eq!(t.find_item(1).unwrap().name, "a");
    assert!(t.find_item(4).is_none());
}

#[test]
fn find_takes_the_first_of_equal_ids() {
    let t = Table::from_vec(vec![user(1, "a"), user(1, "b")]);
    assert_eq!(t.find_item(1).unwrap().name, "a");
    assert_eq!(position_of_id(t.get(), 1), Some(0));
    assert_eq!(t.get_by_id(1).unwrap().name, "a");
}

#[test]
fn pushing_twice_is_pushing_once() {
    let mut once = Table::from_vec(vec![user(1, "a")]);
    once.push_one(user(2, "b"));
    let mut twice = Table::from_vec(vec![user(1, "a")]);
    twice.push_one(user(2, "b"));
    twice.push_one(user(2, "b"));
    assert_eq!(names(&once), names(&twice));
}

#[test]
fn remove_undoes_push_of_a_new_item() {
    let mut t = Table::from_vec(vec![user(1, "a"), user(2, "b")]);
    t.push_one(user(3, "c"));
    let removed = t.remove_one(3).unwrap();
    assert_eq!(removed.name, "c");
    assert_eq!(names(&t), vec!["a", "b"]);
}

#[test]
fn remove_of_a_missing_id_changes_nothing() {
    let mut t = Table::from_vec(vec![user(1, "a")]);
    assert!(t.remove_one(9).is_none());
    assert_eq!(names(&t), vec!["a"]);
}

#[test]
fn remove_takes_only_the_first_of_equal_ids() {
    let mut t = Table::from_vec(vec![user(1, "a"), user(1, "b")]);
    assert_eq!(t.remove_one(1).unwrap().name, "a");
    assert_eq!(names(&t), vec!["b"]);
}

#[test]
fn replace_all_and_clear() {
    let mut t = Table::from_vec(vec![user(1, "a")]);
    t.replace_all(vec![user(5, "x"), user(6, "y")]);
    assert_eq!(names(&t), vec!["x", "y"]);
    t.clear();
    assert!(t.get().is_empty());
}

#[test]
fn find_item_mut_changes_in_place() {
    let mut t = Table::from_vec(vec![
        AccessLevel { id: 1, user_id: 1, name: "low".to_string(), level: 0, edit_rights: false },
    ]);
    t.find_item_mut(1).unwrap().edit_rights = true;
    assert!(t.get()[0].edit_rights);
    assert!(t.find_item_mut(2).is_none());
    assert!(t.get_by_id_mut(1).is_some());
}
