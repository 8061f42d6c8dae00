//! The records that the calendar server stores and sends: users, access
//! levels, events, event templates and schedules. Each record with text in it
//! has a view in which the text is a sequence of characters.
use crate::calendar::{DateTime, Time, Weekday};
use crate::table::{item_views, DbTableItem, DbTableNewItem, DbTableUpdateItem, Keyed, TableId};
use vstd::prelude::*;

verus! {

/// A copy of `s` with the same characters.
pub fn copy_string(s: &String) -> (r: String)
    ensures
        r@ == s@,
{
    s.clone()
}

/// A copy of an optional text.
pub fn copy_opt_string(s: &Option<String>) -> (r: Option<String>)
    ensures
        opt_string_view(r) == opt_string_view(*s),
{
    match s {
        Some(t) => Some(t.clone()),
        None => None,
    }
}

/// The characters of an optional text.
pub open spec fn opt_string_view(s: Option<String>) -> Option<Seq<char>> {
    match s {
        Some(t) => Some(t@),
        None => None,
    }
}

/// A copy of a vector whose items are copied bit for bit.
pub fn copy_vec<T: Copy>(v: &Vec<T>) -> (r: Vec<T>)
    ensures
        r@ == v@,
{
    let mut r: Vec<T> = Vec::new();
    let mut i: usize = 0;
    while i < v.len()
        invariant
            i <= v@.len(),
            r@ == v@.subrange(0, i as int),
        decreases v@.len() - i,
    {
        r.push(v[i]);
        i = i + 1;
        assert(r@ =~= v@.subrange(0, i as int));
    }
    assert(r@ =~= v@);
    r
}

/// A copy of a vector whose items are copied with their views kept.
pub fn copy_items<T: Clone + View>(v: &Vec<T>) -> (r: Vec<T>)
    requires
        forall|a: T, b: T| #[trigger] cloned(a, b) ==> b@ == a@,
    ensures
        item_views(r@) == item_views(v@),
{
    let mut r: Vec<T> = Vec::new();
    let mut i: usize = 0;
    while i < v.len()
        invariant
            i <= v@.len(),
            item_views(r@) == item_views(v@.subrange(0, i as int)),
            forall|a: T, b: T| #[trigger] cloned(a, b) ==> b@ == a@,
        decreases v@.len() - i,
    {
        let x = v[i].clone();
        assert(cloned(v@[i as int], x));
        assert(x@ == v@[i as int]@);
        let ghost before = r@;
        r.push(x);
        assert(item_views(r@) =~= item_views(before).push(x@));
        assert(item_views(v@.subrange(0, i + 1)) =~= item_views(v@.subrange(0, i as int)).push(v@[i as int]@));
        i = i + 1;
    }
    assert(v@.subrange(0, v@.len() as int) =~= v@);
    r
}

/// A role that a user can hold.
#[derive(Clone, Copy, Debug, PartialEq, Eq, Structural, Hash)]
pub enum Role {
    Admin,
    SuperAdmin,
}

impl Role {
    /// Whether two roles are the same role.
    pub fn same_role(&self, other: &Role) -> (r: bool)
        ensures
            r == (*self == *other),
    {
        match (self, other) {
            (Role::Admin, Role::Admin) => true,
            (Role::SuperAdmin, Role::SuperAdmin) => true,
            _ => false,
        }
    }
}

/// A user account.
#[derive(Debug)]
pub struct User {
    pub id: TableId,
    pub name: String,
    pub email: String,
    pub roles: Vec<Role>,
}

/// A user account, with its texts as characters.
pub struct UserView {
    pub id: TableId,
    pub name: Seq<char>,
    pub email: Seq<char>,
    pub roles: Seq<Role>,
}

impl View for User {
    type V = UserView;

    open spec fn view(&self) -> UserView {
        UserView { id: self.id, name: self.name@, email: self.email@, roles: self.roles@ }
    }
}

impl Clone for User {
    fn clone(&self) -> (r: Self)
        ensures
            r@ == self@,
    {
        User {
            id: self.id,
            name: copy_string(&self.name),
            email: copy_string(&self.email),
            roles: copy_vec(&self.roles),
        }
    }
}

/// The signed-in user: the account, the key that authorizes requests, and the roles.
#[derive(Debug)]
pub struct UserInfo {
    pub user: User,
    pub key: Vec<u8>,
    pub roles: Vec<Role>,
}

/// The signed-in user, with its texts as characters.
pub struct UserInfoView {
    pub user: UserView,
    pub key: Seq<u8>,
    pub roles: Seq<Role>,
}

impl View for UserInfo {
    type V = UserInfoView;

    open spec fn view(&self) -> UserInfoView {
        UserInfoView { user: self.user@, key: self.key@, roles: self.roles@ }
    }
}

impl Clone for UserInfo {
    fn clone(&self) -> (r: Self)
        ensures
            r@ == self@,
    {
        UserInfo { user: self.user.clone(), key: copy_vec(&self.key), roles: copy_vec(&self.roles) }
    }
}

/// A level of access to a user's data, with the right to edit at that level or not.
#[derive(Debug)]
pub struct AccessLevel {
    pub id: TableId,
    pub user_id: TableId,
    pub name: String,
    pub level: i32,
    pub edit_rights: bool,
}

/// An access level, with its name as characters.
pub struct AccessLevelView {
    pub id: TableId,
    pub user_id: TableId,
    pub name: Seq<char>,
    pub level: i32,
    pub edit_rights: bool,
}

impl View for AccessLevel {
    type V = AccessLevelView;

    open spec fn view(&self) -> AccessLevelView {
        AccessLevelView {
            id: self.id,
            user_id: self.user_id,
            name: self.name@,
            level: self.level,
            edit_rights: self.edit_rights,
        }
    }
}

impl Clone for AccessLevel {
    fn clone(&self) -> (r: Self)
        ensures
            r@ == self@,
    {
        AccessLevel {
            id: self.id,
            user_id: self.user_id,
            name: copy_string(&self.name),
            level: self.level,
            edit_rights: self.edit_rights,
        }
    }
}

/// How much of an event is shown to a viewer below the event's access level.
#[derive(Clone, Copy, Debug, PartialEq, Eq, Structural, Hash)]
pub enum EventVisibility {
    HideAll,
    HideName,
    HideDescription,
    Show,
}

/// An event in a user's calendar.
#[derive(Debug)]
pub struct Event {
    pub id: TableId,
    pub user_id: TableId,
    pub name: String,
    pub description: Option<String>,
    pub start: DateTime,
    pub end: DateTime,
    pub access_level: i32,
    pub visibility: EventVisibility,
    pub plan_id: Option<TableId>,
}

/// An event, with its texts as characters.
pub struct EventView {
    pub id: TableId,
    pub user_id: TableId,
    pub name: Seq<char>,
    pub description: Option<Seq<char>>,
    pub start: DateTime,
    pub end: DateTime,
    pub access_level: i32,
    pub visibility: EventVisibility,
    pub plan_id: Option<TableId>,
}

impl View for Event {
    type V = EventView;

    open spec fn view(&self) -> EventView {
        EventView {
            id: self.id,
            user_id: self.user_id,
            name: self.name@,
            description: opt_string_view(self.description),
            start: self.start,
            end: self.end,
            access_level: self.access_level,
            visibility: self.visibility,
            plan_id: self.plan_id,
        }
    }
}

impl Clone for Event {
    fn clone(&self) -> (r: Self)
        ensures
            r@ == self@,
    {
        Event {
            id: self.id,
            user_id: self.user_id,
            name: copy_string(&self.name),
            description: copy_opt_string(&self.description),
            start: self.start,
            end: self.end,
            access_level: self.access_level,
            visibility: self.visibility,
            plan_id: self.plan_id,
        }
    }
}

/// A new event, before the server has given it an id.
#[derive(Clone, Debug)]
pub struct NewEvent {
    pub user_id: TableId,
    pub name: String,
    pub description: Option<String>,
    pub start: DateTime,
    pub end: DateTime,
    pub access_level: i32,
    pub visibility: EventVisibility,
    pub plan_id: Option<TableId>,
}

/// A new event, with its texts as characters.
pub struct NewEventView {
    pub user_id: TableId,
    pub name: Seq<char>,
    pub description: Option<Seq<char>>,
    pub start: DateTime,
    pub end: DateTime,
    pub access_level: i32,
    pub visibility: EventVisibility,
    pub plan_id: Option<TableId>,
}

impl View for NewEvent {
    type V = NewEventView;

    open spec fn view(&self) -> NewEventView {
        NewEventView {
            user_id: self.user_id,
            name: self.name@,
            description: opt_string_view(self.description),
            start: self.start,
            end: self.end,
            access_level: self.access_level,
            visibility: self.visibility,
            plan_id: self.plan_id,
        }
    }
}

/// New values for an existing event.
#[derive(Clone, Debug)]
pub struct UpdateEvent {
    pub id: TableId,
    pub name: String,
    pub description: Option<String>,
    pub start: DateTime,
    pub end: DateTime,
    pub access_level: i32,
    pub visibility: EventVisibility,
}

/// A template from which schedules make events.
#[derive(Debug)]
pub struct EventTemplate {
    pub id: TableId,
    pub user_id: TableId,
    pub name: String,
    pub event_name: String,
    pub event_description: Option<String>,
    /// Length of the events made from this template, in seconds.
    pub duration: u32,
    pub access_level: i32,
}

/// An event template, with its texts as characters.
pub struct EventTemplateView {
    pub id: TableId,
    pub user_id: TableId,
    pub name: Seq<char>,
    pub event_name: Seq<char>,
    pub event_description: Option<Seq<char>>,
    pub duration: u32,
    pub access_level: i32,
}

impl View for EventTemplate {
    type V = EventTemplateView;

    open spec fn view(&self) -> EventTemplateView {
        EventTemplateView {
            id: self.id,
            user_id: self.user_id,
            name: self.name@,
            event_name: self.event_name@,
            event_description: opt_string_view(self.event_description),
            duration: self.duration,
            access_level: self.access_level,
        }
    }
}

impl Clone for EventTemplate {
    fn clone(&self) -> (r: Self)
        ensures
            r@ == self@,
    {
        EventTemplate {
            id: self.id,
            user_id: self.user_id,
            name: copy_string(&self.name),
            event_name: copy_string(&self.event_name),
            event_description: copy_opt_string(&self.event_description),
            duration: self.duration,
            access_level: self.access_level,
        }
    }
}

/// A new event template, before the server has given it an id.
#[derive(Clone, Debug)]
pub struct NewEventTemplate {
    pub user_id: TableId,
    pub name: String,
    pub event_name: String,
    pub event_description: Option<String>,
    pub duration: u32,
    pub access_level: i32,
}

/// New values for an existing event template.
#[derive(Clone, Debug)]
pub struct UpdateEventTemplate {
    pub id: TableId,
    pub name: String,
    pub event_name: String,
    pub event_description: Option<String>,
    pub duration: u32,
    pub access_level: i32,
}

/// A weekly slot of a schedule: on `weekday`, at `time`.
#[derive(Clone, Copy, Debug, PartialEq, Eq, Structural, Hash)]
pub struct EventPlan {
    pub id: TableId,
    pub schedule_id: TableId,
    pub weekday: Weekday,
    pub time: Time,
}

/// A schedule: events made from one template in weekly slots.
#[derive(Debug)]
pub struct Schedule {
    pub id: TableId,
    pub user_id: TableId,
    pub template_id: TableId,
    pub name: String,
    pub description: Option<String>,
    pub access_level: i32,
    pub event_plans: Vec<EventPlan>,
}

/// A schedule, with its texts as characters.
pub struct ScheduleView {
    pub id: TableId,
    pub user_id: TableId,
    pub template_id: TableId,
    pub name: Seq<char>,
    pub description: Option<Seq<char>>,
    pub access_level: i32,
    pub event_plans: Seq<EventPlan>,
}

impl View for Schedule {
    type V = ScheduleView;

    open spec fn view(&self) -> ScheduleView {
        ScheduleView {
            id: self.id,
            user_id: self.user_id,
            template_id: self.template_id,
            name: self.name@,
            description: opt_string_view(self.description),
            access_level: self.access_level,
            event_plans: self.event_plans@,
        }
    }
}

impl Clone for Schedule {
    fn clone(&self) -> (r: Self)
        ensures
            r@ == self@,
    {
        Schedule {
            id: self.id,
            user_id: self.user_id,
            template_id: self.template_id,
            name: copy_string(&self.name),
            description: copy_opt_string(&self.description),
            access_level: self.access_level,
            event_plans: copy_vec(&self.event_plans),
        }
    }
}

/// A new schedule, before the server has given it an id.
#[derive(Clone, Debug)]
pub struct NewSchedule {
    pub user_id: TableId,
    pub template_id: TableId,
    pub name: String,
    pub description: Option<String>,
    pub access_level: i32,
    pub event_plans: Vec<EventPlan>,
}

/// New values for an existing schedule.
#[derive(Clone, Debug)]
pub struct UpdateSchedule {
    pub id: TableId,
    pub name: String,
    pub description: Option<String>,
    pub access_level: i32,
}

/// A password for an access level.
#[derive(Clone, Debug)]
pub struct NewPassword {
    pub name: String,
    pub password: String,
}

impl DbTableItem for User {
    open spec fn spec_id(&self) -> TableId {
        self.id
    }

    fn get_id(&self) -> (id: TableId) {
        self.id
    }
}

impl DbTableItem for AccessLevel {
    open spec fn spec_id(&self) -> TableId {
        self.id
    }

    fn get_id(&self) -> (id: TableId) {
        self.id
    }
}

impl DbTableItem for Event {
    open spec fn spec_id(&self) -> TableId {
        self.id
    }

    fn get_id(&self) -> (id: TableId) {
        self.id
    }
}

impl DbTableItem for EventTemplate {
    open spec fn spec_id(&self) -> TableId {
        self.id
    }

    fn get_id(&self) -> (id: TableId) {
        self.id
    }
}

impl DbTableItem for Schedule {
    open spec fn spec_id(&self) -> TableId {
        self.id
    }

    fn get_id(&self) -> (id: TableId) {
        self.id
    }
}

impl DbTableUpdateItem for UpdateEvent {
    open spec fn spec_id(&self) -> TableId {
        self.id
    }

    fn get_id(&self) -> (id: TableId) {
        self.id
    }
}

impl DbTableUpdateItem for UpdateEventTemplate {
    open spec fn spec_id(&self) -> TableId {
        self.id
    }

    fn get_id(&self) -> (id: TableId) {
        self.id
    }
}

impl DbTableUpdateItem for UpdateSchedule {
    open spec fn spec_id(&self) -> TableId {
        self.id
    }

    fn get_id(&self) -> (id: TableId) {
        self.id
    }
}

impl DbTableNewItem for NewEvent {

}

impl DbTableNewItem for NewEventTemplate {

}

impl DbTableNewItem for NewSchedule {

}

impl Keyed for UserView {
    open spec fn key(self) -> TableId {
        self.id
    }
}

impl Keyed for AccessLevelView {
    open spec fn key(self) -> TableId {
        self.id
    }
}

impl Keyed for EventView {
    open spec fn key(self) -> TableId {
        self.id
    }
}

impl Keyed for EventTemplateView {
    open spec fn key(self) -> TableId {
        self.id
    }
}

impl Keyed for ScheduleView {
    open spec fn key(self) -> TableId {
        self.id
    }
}

/// A text that the server sends back as it was sent.
#[derive(Debug)]
pub struct EchoStruct {
    pub echo: String,
}

} // verus!
