use calendar_frontend::model::Role;
use calendar_frontend::state_action::{
    ActionKind, GetMutStateAction, GetStateAction, HasStateAction, StateAction,
};

fn actions() -> Vec<StateAction> {
    vec![
        StateAction::InsertEvent(4),
        StateAction::Error(500, "first".to_string()),
        StateAction::LoadUserRoles(vec![Role::Admin]),
        StateAction::Error(404, "second".to_string()),
        StateAction::InsertEvent(9),
    ]
}

#[test]
fn has_tells_which_kinds_are_there() {
    let a = actions();
    assert!(a.has_insert_event());
    assert!(a.has_error());
    assert!(a.has_load_user_roles());
    assert!(!a.has_login());
    assert!(!a.has_register());
    assert!(!a.has_load_events());
    assert!(!a.has_update_event());
    assert!(!a.has_delete_events());
    assert!(!a.has_none());
}

#[test]
fn get_gives_the_first_of_a_kind() {
    let a = actions();
    assert_eq!(a.get_insert_event(), Some(&4));
    let (code, text) = a.get_error().unwrap();
    assert_eq!(*code, 500);
    assert_eq!(text, "first");
    assert_eq!(a.get_load_user_roles().unwrap(), &vec![Role::Admin]);
    assert!(a.get_login().is_none());
    assert!(a.get_load_events().is_none());
    assert!(a.get_delete_events().is_none());
    assert!(a.get_none().is_none());
}

#[test]
fn has_exactly_when_get_finds() {
    let a = vec![StateAction::Empty, StateAction::DeleteEvent];
    assert_eq!(a.has_none(), a.get_none().is_some());
    assert_eq!(a.has_delete_events(), a.get_delete_events().is_some());
    assert_eq!(a.has_error(), a.get_error().is_some());
    let empty: Vec<StateAction> = vec![];
    assert!(!empty.has_error());
    assert!(empty.get_error().is_none());
}

#[test]
fn kinds_of_actions() {
    assert_eq!(StateAction::Register.kind(), ActionKind::Register);
    assert_eq!(StateAction::UpdateEvent.kind(), ActionKind::UpdateEvent);
    assert_eq!(StateAction::Error(1, String::new()).kind(), ActionKind::Error);
}

#[test]
fn get_mut_changes_the_first_of_a_kind() {
    let mut a = actions();
    *a.get_insert_event_mut().unwrap() = 40;
    assert!(matches!(a[0], StateAction::InsertEvent(40)));
    assert!(matches!(a[4], StateAction::InsertEvent(9)));
    {
        let (code, text) = a.get_error_mut().unwrap();
        *code = 501;
        text.push_str("!");
    }
    assert!(matches!(&a[1], StateAction::Error(501, t) if t == "first!"));
    assert!(matches!(&a[3], StateAction::Error(404, t) if t == "second"));
    a.get_load_user_roles_mut().unwrap().push(Role::SuperAdmin);
    assert_eq!(a.get_load_user_roles().unwrap(), &vec![Role::Admin, Role::SuperAdmin]);
    assert!(a.get_login_mut().is_none());
    assert!(a.get_load_events_mut().is_none());
    assert!(a.get_delete_events_mut().is_none());
    assert!(a.get_none_mut().is_none());
}
