//! What a round of polling hands to the user interface: one action per reply,
//! and questions about a list of them (is there a reply of a kind, and the
//! first such reply).
use crate::model::{Event, Role};
use crate::requests::LoginResponse;
use crate::table::TableId;
use vstd::prelude::*;

verus! {

/// A reply, as the user interface sees it.
#[derive(Clone, Debug)]
pub enum StateAction {
    Login(LoginResponse),
    Register,
    LoadUserRoles(Vec<Role>),
    LoadEvents(Vec<Event>),
    /// The id that the server gave the new event.
    InsertEvent(TableId),
    UpdateEvent,
    DeleteEvent,
    /// A reply that carries nothing.
    Empty,
    /// A reply with an unexpected status: the status code and the body as text.
    Error(u16, String),
}

/// The kinds of actions.
#[derive(Clone, Copy, Debug, PartialEq, Eq, Structural)]
pub enum ActionKind {
    Login,
    Register,
    LoadUserRoles,
    LoadEvents,
    InsertEvent,
    UpdateEvent,
    DeleteEvent,
    Empty,
    Error,
}

impl StateAction {
    /// The kind of this action.
    pub open spec fn spec_kind(&self) -> ActionKind {
        match self {
            StateAction::Login(_) => ActionKind::Login,
            StateAction::Register => ActionKind::Register,
            StateAction::LoadUserRoles(_) => ActionKind::LoadUserRoles,
            StateAction::LoadEvents(_) => ActionKind::LoadEvents,
            StateAction::InsertEvent(_) => ActionKind::InsertEvent,
            StateAction::UpdateEvent => ActionKind::UpdateEvent,
            StateAction::DeleteEvent => ActionKind::DeleteEvent,
            StateAction::Empty => ActionKind::Empty,
            StateAction::Error(..) => ActionKind::Error,
        }
    }

    /// The kind of this action.
    pub fn kind(&self) -> (k: ActionKind)
        ensures
            k == self.spec_kind(),
    {
        match self {
            StateAction::Login(_) => ActionKind::Login,
            StateAction::Register => ActionKind::Register,
            StateAction::LoadUserRoles(_) => ActionKind::LoadUserRoles,
            StateAction::LoadEvents(_) => ActionKind::LoadEvents,
            StateAction::InsertEvent(_) => ActionKind::InsertEvent,
            StateAction::UpdateEvent => ActionKind::UpdateEvent,
            StateAction::DeleteEvent => ActionKind::DeleteEvent,
            StateAction::Empty => ActionKind::Empty,
            StateAction::Error(..) => ActionKind::Error,
        }
    }
}

/// Whether some action of `actions` is of kind `kind`.
pub open spec fn has_kind(actions: Seq<StateAction>, kind: ActionKind) -> bool {
    exists|i: int| 0 <= i < actions.len() && #[trigger] actions[i].spec_kind() == kind
}

/// The first action of `actions` of kind `kind`, if any.
pub open spec fn first_of_kind(actions: Seq<StateAction>, kind: ActionKind) -> Option<StateAction>
    decreases actions.len(),
{
    if actions.len() == 0 {
        None
    } else if actions[0].spec_kind() == kind {
        Some(actions[0])
    } else {
        first_of_kind(actions.drop_first(), kind)
    }
}

/// The position of the first action of `actions` of kind `kind` (the length
/// of `actions` when there is none).
pub open spec fn first_kind_index(actions: Seq<StateAction>, kind: ActionKind) -> int
    decreases actions.len(),
{
    if actions.len() == 0 {
        0
    } else if actions[0].spec_kind() == kind {
        0
    } else {
        1 + first_kind_index(actions.drop_first(), kind)
    }
}

/// Whether some action of `actions` is of kind `kind`.
pub fn any_of_kind(actions: &Vec<StateAction>, kind: ActionKind) -> (r: bool)
    ensures
        r == has_kind(actions@, kind),
{
    let mut i: usize = 0;
    while i < actions.len()
        invariant
            i <= actions@.len(),
            forall|j: int| 0 <= j < i ==> #[trigger] actions@[j].spec_kind() != kind,
        decreases actions@.len() - i,
    {
        if actions[i].kind() == kind {
            return true;
        }
        i = i + 1;
    }
    false
}

/// The position of the first action of `actions` of kind `kind`, if any.
pub fn position_of_kind(actions: &Vec<StateAction>, kind: ActionKind) -> (r: Option<usize>)
    ensures
        match r {
            Some(i) => {
                &&& i < actions@.len()
                &&& actions@[i as int].spec_kind() == kind
                &&& first_of_kind(actions@, kind) == Some(actions@[i as int])
                &&& first_kind_index(actions@, kind) == i
            },
            None => first_of_kind(actions@, kind) is None,
        },
{
    let mut i: usize = 0;
    assert(actions@.skip(0) =~= actions@);
    assert(first_kind_index(actions@, kind) == 0 + first_kind_index(actions@.skip(0), kind));
    while i < actions.len()
        invariant
            i <= actions@.len(),
            first_of_kind(actions@, kind) == first_of_kind(actions@.skip(i as int), kind),
            first_kind_index(actions@, kind) == i + first_kind_index(actions@.skip(i as int), kind),
        decreases actions@.len() - i,
    {
        assert(actions@.skip(i as int)[0] == actions@[i as int]);
        assert(actions@.skip(i as int).drop_first() =~= actions@.skip(i as int + 1));
        if actions[i].kind() == kind {
            return Some(i);
        }
        i = i + 1;
    }
    assert(actions@.skip(i as int).len() == 0);
    None
}

/// Questions about which kinds of replies a list of actions holds.
pub trait HasStateAction {
    /// The actions, in order.
    spec fn spec_actions(&self) -> Seq<StateAction>;

    fn has_login(&self) -> (r: bool)
        ensures
            r == has_kind(self.spec_actions(), ActionKind::Login),
    ;

    fn has_register(&self) -> (r: bool)
        ensures
            r == has_kind(self.spec_actions(), ActionKind::Register),
    ;

    fn has_load_user_roles(&self) -> (r: bool)
        ensures
            r == has_kind(self.spec_actions(), ActionKind::LoadUserRoles),
    ;

    fn has_load_events(&self) -> (r: bool)
        ensures
            r == has_kind(self.spec_actions(), ActionKind::LoadEvents),
    ;

    fn has_insert_event(&self) -> (r: bool)
        ensures
            r == has_kind(self.spec_actions(), ActionKind::InsertEvent),
    ;

    fn has_update_event(&self) -> (r: bool)
        ensures
            r == has_kind(self.spec_actions(), ActionKind::UpdateEvent),
    ;

    fn has_delete_events(&self) -> (r: bool)
        ensures
            r == has_kind(self.spec_actions(), ActionKind::DeleteEvent),
    ;

    fn has_none(&self) -> (r: bool)
        ensures
            r == has_kind(self.spec_actions(), ActionKind::Empty),
    ;

    fn has_error(&self) -> (r: bool)
        ensures
            r == has_kind(self.spec_actions(), ActionKind::Error),
    ;
}

impl HasStateAction for Vec<StateAction> {
    open spec fn spec_actions(&self) -> Seq<StateAction> {
        self@
    }

    fn has_login(&self) -> (r: bool) {
        any_of_kind(self, ActionKind::Login)
    }

    fn has_register(&self) -> (r: bool) {
        any_of_kind(self, ActionKind::Register)
    }

    fn has_load_user_roles(&self) -> (r: bool) {
        any_of_kind(self, ActionKind::LoadUserRoles)
    }

    fn has_load_events(&self) -> (r: bool) {
        any_of_kind(self, ActionKind::LoadEvents)
    }

    fn has_insert_event(&self) -> (r: bool) {
        any_of_kind(self, ActionKind::InsertEvent)
    }

    fn has_update_event(&self) -> (r: bool) {
        any_of_kind(self, ActionKind::UpdateEvent)
    }

    fn has_delete_events(&self) -> (r: bool) {
        any_of_kind(self, ActionKind::DeleteEvent)
    }

    fn has_none(&self) -> (r: bool) {
        any_of_kind(self, ActionKind::Empty)
    }

    fn has_error(&self) -> (r: bool) {
        any_of_kind(self, ActionKind::Error)
    }
}

/// The first reply of a kind that a list of actions holds, with what it carries.
pub trait GetStateAction {
    /// The actions, in order.
    spec fn spec_get_actions(&self) -> Seq<StateAction>;

    fn get_login(&self) -> (r: Option<&LoginResponse>)
        ensures
            match r {
                Some(d) => first_of_kind(self.spec_get_actions(), ActionKind::Login) == Some(
                    StateAction::Login(*d),
                ),
                None => first_of_kind(self.spec_get_actions(), ActionKind::Login) is None,
            },
    ;

    fn get_load_user_roles(&self) -> (r: Option<&Vec<Role>>)
        ensures
            match r {
                Some(d) => first_of_kind(self.spec_get_actions(), ActionKind::LoadUserRoles)
                    == Some(StateAction::LoadUserRoles(*d)),
                None => first_of_kind(self.spec_get_actions(), ActionKind::LoadUserRoles) is None,
            },
    ;

    fn get_load_events(&self) -> (r: Option<&Vec<Event>>)
        ensures
            match r {
                Some(d) => first_of_kind(self.spec_get_actions(), ActionKind::LoadEvents) == Some(
                    StateAction::LoadEvents(*d),
                ),
                None => first_of_kind(self.spec_get_actions(), ActionKind::LoadEvents) is None,
            },
    ;

    fn get_insert_event(&self) -> (r: Option<&TableId>)
        ensures
            match r {
                Some(d) => first_of_kind(self.spec_get_actions(), ActionKind::InsertEvent) == Some(
                    StateAction::InsertEvent(*d),
                ),
                None => first_of_kind(self.spec_get_actions(), ActionKind::InsertEvent) is None,
            },
    ;

    fn get_delete_events(&self) -> (r: Option<()>)
        ensures
            r is Some == (first_of_kind(self.spec_get_actions(), ActionKind::DeleteEvent) is Some),
    ;

    fn get_none(&self) -> (r: Option<()>)
        ensures
            r is Some == (first_of_kind(self.spec_get_actions(), ActionKind::Empty) is Some),
    ;

    fn get_error(&self) -> (r: Option<(&u16, &String)>)
        ensures
            match r {
                Some((code, text)) => first_of_kind(self.spec_get_actions(), ActionKind::Error)
                    == Some(StateAction::Error(*code, *text)),
                None => first_of_kind(self.spec_get_actions(), ActionKind::Error) is None,
            },
    ;
}

impl GetStateAction for Vec<StateAction> {
    open spec fn spec_get_actions(&self) -> Seq<StateAction> {
        self@
    }

    fn get_login(&self) -> (r: Option<&LoginResponse>) {
        match position_of_kind(self, ActionKind::Login) {
            Some(i) => match &self[i] {
                StateAction::Login(d) => Some(d),
                _ => None,
            },
            None => None,
        }
    }

    fn get_load_user_roles(&self) -> (r: Option<&Vec<Role>>) {
        match position_of_kind(self, ActionKind::LoadUserRoles) {
            Some(i) => match &self[i] {
                StateAction::LoadUserRoles(d) => Some(d),
                _ => None,
            },
            None => None,
        }
    }

    fn get_load_events(&self) -> (r: Option<&Vec<Event>>) {
        match position_of_kind(self, ActionKind::LoadEvents) {
            Some(i) => match &self[i] {
                StateAction::LoadEvents(d) => Some(d),
                _ => None,
            },
            None => None,
        }
    }

    fn get_insert_event(&self) -> (r: Option<&TableId>) {
        match position_of_kind(self, ActionKind::InsertEvent) {
            Some(i) => match &self[i] {
                StateAction::InsertEvent(d) => Some(d),
                _ => None,
            },
            None => None,
        }
    }

    fn get_delete_events(&self) -> (r: Option<()>) {
        match position_of_kind(self, ActionKind::DeleteEvent) {
            Some(_) => Some(()),
            None => None,
        }
    }

    fn get_none(&self) -> (r: Option<()>) {
        match position_of_kind(self, ActionKind::Empty) {
            Some(_) => Some(()),
            None => None,
        }
    }

    fn get_error(&self) -> (r: Option<(&u16, &String)>) {
        match position_of_kind(self, ActionKind::Error) {
            Some(i) => match &self[i] {
                StateAction::Error(code, text) => Some((code, text)),
                _ => None,
            },
            None => None,
        }
    }
}

/// A list holds an action of a kind exactly when there is a first one of that
/// kind, and the first one found is of that kind.
pub proof fn law_has_iff_first(actions: Seq<StateAction>, kind: ActionKind)
    ensures
        has_kind(actions, kind) <==> first_of_kind(actions, kind) is Some,
        first_of_kind(actions, kind) matches Some(a) ==> a.spec_kind() == kind && actions.contains(a),
    decreases actions.len(),
{
    if actions.len() > 0 {
        let rest = actions.drop_first();
        law_has_iff_first(rest, kind);
        if actions[0].spec_kind() != kind {
            if has_kind(actions, kind) {
                let i = choose|i: int| 0 <= i < actions.len() && #[trigger] actions[i].spec_kind() == kind;
                assert(rest[i - 1] == actions[i]);
            }
            if has_kind(rest, kind) {
                let i = choose|i: int| 0 <= i < rest.len() && #[trigger] rest[i].spec_kind() == kind;
                assert(actions[i + 1] == rest[i]);
            }
            match first_of_kind(rest, kind) {
                Some(a) => {
                    let j = choose|j: int| 0 <= j < rest.len() && rest[j] == a;
                    assert(actions[j + 1] == a);
                },
                None => {},
            }
        } else {
            assert(actions[0] == actions[0]);
            assert(actions.contains(actions[0]));
        }
    }
}

/// The first reply of a kind that a list of actions holds, for changing what it carries.
pub trait GetMutStateAction {
    /// The actions, in order.
    spec fn spec_mut_actions(&self) -> Seq<StateAction>;

    fn get_login_mut(&mut self) -> (r: Option<&mut LoginResponse>)
        ensures
            match r {
                Some(d) => {
                    &&& first_of_kind(old(self).spec_mut_actions(), ActionKind::Login) == Some(
                        StateAction::Login(*d),
                    )
                    &&& final(self).spec_mut_actions() == old(self).spec_mut_actions().update(
                        first_kind_index(old(self).spec_mut_actions(), ActionKind::Login),
                        StateAction::Login(*final(d)),
                    )
                },
                None => {
                    &&& first_of_kind(old(self).spec_mut_actions(), ActionKind::Login) is None
                    &&& final(self).spec_mut_actions() == old(self).spec_mut_actions()
                },
            },
    ;

    fn get_load_user_roles_mut(&mut self) -> (r: Option<&mut Vec<Role>>)
        ensures
            match r {
                Some(d) => {
                    &&& first_of_kind(old(self).spec_mut_actions(), ActionKind::LoadUserRoles) == Some(
                        StateAction::LoadUserRoles(*d),
                    )
                    &&& final(self).spec_mut_actions() == old(self).spec_mut_actions().update(
                        first_kind_index(old(self).spec_mut_actions(), ActionKind::LoadUserRoles),
                        StateAction::LoadUserRoles(*final(d)),
                    )
                },
                None => {
                    &&& first_of_kind(old(self).spec_mut_actions(), ActionKind::LoadUserRoles) is None
                    &&& final(self).spec_mut_actions() == old(self).spec_mut_actions()
                },
            },
    ;

    fn get_load_events_mut(&mut self) -> (r: Option<&mut Vec<Event>>)
        ensures
            match r {
                Some(d) => {
                    &&& first_of_kind(old(self).spec_mut_actions(), ActionKind::LoadEvents) == Some(
                        StateAction::LoadEvents(*d),
                    )
                    &&& final(self).spec_mut_actions() == old(self).spec_mut_actions().update(
                        first_kind_index(old(self).spec_mut_actions(), ActionKind::LoadEvents),
                        StateAction::LoadEvents(*final(d)),
                    )
                },
                None => {
                    &&& first_of_kind(old(self).spec_mut_actions(), ActionKind::LoadEvents) is None
                    &&& final(self).spec_mut_actions() == old(self).spec_mut_actions()
                },
            },
    ;

    fn get_insert_event_mut(&mut self) -> (r: Option<&mut TableId>)
        ensures
            match r {
                Some(d) => {
                    &&& first_of_kind(old(self).spec_mut_actions(), ActionKind::InsertEvent) == Some(
                        StateAction::InsertEvent(*d),
                    )
                    &&& final(self).spec_mut_actions() == old(self).spec_mut_actions().update(
                        first_kind_index(old(self).spec_mut_actions(), ActionKind::InsertEvent),
                        StateAction::InsertEvent(*final(d)),
                    )
                },
                None => {
                    &&& first_of_kind(old(self).spec_mut_actions(), ActionKind::InsertEvent) is None
                    &&& final(self).spec_mut_actions() == old(self).spec_mut_actions()
                },
            },
    ;

    fn get_delete_events_mut(&mut self) -> (r: Option<()>)
        ensures
            r is Some == (first_of_kind(old(self).spec_mut_actions(), ActionKind::DeleteEvent) is Some),
            final(self).spec_mut_actions() == old(self).spec_mut_actions(),
    ;

    fn get_none_mut(&mut self) -> (r: Option<()>)
        ensures
            r is Some == (first_of_kind(old(self).spec_mut_actions(), ActionKind::Empty) is Some),
            final(self).spec_mut_actions() == old(self).spec_mut_actions(),
    ;

    fn get_error_mut(&mut self) -> (r: Option<(&mut u16, &mut String)>)
        ensures
            match r {
                Some((code, text)) => {
                    &&& first_of_kind(old(self).spec_mut_actions(), ActionKind::Error) == Some(
                        StateAction::Error(*code, *text),
                    )
                    &&& final(self).spec_mut_actions() == old(self).spec_mut_actions().update(
                        first_kind_index(old(self).spec_mut_actions(), ActionKind::Error),
                        StateAction::Error(*final(code), *final(text)),
                    )
                },
                None => {
                    &&& first_of_kind(old(self).spec_mut_actions(), ActionKind::Error) is None
                    &&& final(self).spec_mut_actions() == old(self).spec_mut_actions()
                },
            },
    ;
}

impl GetMutStateAction for Vec<StateAction> {
    open spec fn spec_mut_actions(&self) -> Seq<StateAction> {
        self@
    }

    fn get_login_mut(&mut self) -> (r: Option<&mut LoginResponse>) {
        match position_of_kind(self, ActionKind::Login) {
            Some(i) => match &mut self[i] {
                StateAction::Login(d) => Some(d),
                _ => None,
            },
            None => None,
        }
    }

    fn get_load_user_roles_mut(&mut self) -> (r: Option<&mut Vec<Role>>) {
        match position_of_kind(self, ActionKind::LoadUserRoles) {
            Some(i) => match &mut self[i] {
                StateAction::LoadUserRoles(d) => Some(d),
                _ => None,
            },
            None => None,
        }
    }

    fn get_load_events_mut(&mut self) -> (r: Option<&mut Vec<Event>>) {
        match position_of_kind(self, ActionKind::LoadEvents) {
            Some(i) => match &mut self[i] {
                StateAction::LoadEvents(d) => Some(d),
                _ => None,
            },
            None => None,
        }
    }

    fn get_insert_event_mut(&mut self) -> (r: Option<&mut TableId>) {
        match position_of_kind(self, ActionKind::InsertEvent) {
            Some(i) => match &mut self[i] {
                StateAction::InsertEvent(d) => Some(d),
                _ => None,
            },
            None => None,
        }
    }

    fn get_delete_events_mut(&mut self) -> (r: Option<()>) {
        match position_of_kind(self, ActionKind::DeleteEvent) {
            Some(_) => Some(()),
            None => None,
        }
    }

    fn get_none_mut(&mut self) -> (r: Option<()>) {
        match position_of_kind(self, ActionKind::Empty) {
            Some(_) => Some(()),
            None => None,
        }
    }

    fn get_error_mut(&mut self) -> (r: Option<(&mut u16, &mut String)>) {
        match position_of_kind(self, ActionKind::Error) {
            Some(i) => match &mut self[i] {
                StateAction::Error(code, text) => Some((code, text)),
                _ => None,
            },
            None => None,
        }
    }
}

} // verus!
