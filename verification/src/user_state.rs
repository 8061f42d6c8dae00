//! The data loaded for one user (a table per kind of item, each remembering
//! whose data it holds), what one user may do with another's data, and the
//! requests that the data of a user can ask for.
use crate::calendar::{Date, LAST_EXTENSIBLE_DAY};
use crate::day_events::{find_template, first_plan, first_template, find_plan};
use crate::model::{
    copy_opt_string, copy_string, copy_vec, AccessLevel, Event, EventPlan, EventTemplate,
    EventTemplateView, EventVisibility, NewEvent, NewEventView, Role, Schedule, ScheduleView, User,
    UserView,
};
use crate::calendar::{spec_add_seconds, DateTime};
use crate::requests::UserStateData;
use crate::table::{item_views, DbTable, DbTableItem, Table, TableId};
use vstd::prelude::*;

verus! {

/// What a user may do with one kind of another user's items.
#[derive(Clone, Copy, Debug, PartialEq, Eq, Structural)]
pub struct TablePermissions {
    pub view: bool,
    pub create: bool,
}

/// What a user may do with another user's data.
#[derive(Clone, Copy, Debug, PartialEq, Eq, Structural)]
pub struct Permissions {
    pub access_levels: TablePermissions,
    pub events: TablePermissions,
    pub event_templates: TablePermissions,
    pub schedules: TablePermissions,
    pub allow_share: bool,
}

/// Everything allowed on one kind of items.
pub open spec fn spec_all_allowed() -> TablePermissions {
    TablePermissions { view: true, create: true }
}

/// Nothing allowed on one kind of items.
pub open spec fn spec_none_allowed() -> TablePermissions {
    TablePermissions { view: false, create: false }
}

impl Permissions {
    /// Everything allowed.
    pub open spec fn spec_full() -> Permissions {
        Permissions {
            access_levels: spec_all_allowed(),
            events: spec_all_allowed(),
            event_templates: spec_all_allowed(),
            schedules: spec_all_allowed(),
            allow_share: true,
        }
    }

    /// Nothing allowed.
    pub open spec fn spec_none() -> Permissions {
        Permissions {
            access_levels: spec_none_allowed(),
            events: spec_none_allowed(),
            event_templates: spec_none_allowed(),
            schedules: spec_none_allowed(),
            allow_share: false,
        }
    }

    /// Everything allowed.
    pub fn full() -> (p: Permissions)
        ensures
            p == Permissions::spec_full(),
    {
        let all = TablePermissions { view: true, create: true };
        Permissions {
            access_levels: all,
            events: all,
            event_templates: all,
            schedules: all,
            allow_share: true,
        }
    }

    /// Nothing allowed.
    pub fn none() -> (p: Permissions)
        ensures
            p == Permissions::spec_none(),
    {
        let nothing = TablePermissions { view: false, create: false };
        Permissions {
            access_levels: nothing,
            events: nothing,
            event_templates: nothing,
            schedules: nothing,
            allow_share: false,
        }
    }
}

/// Permissions that one user (the giver) granted another (the receiver).
#[derive(Clone, Copy, Debug, PartialEq, Eq, Structural)]
pub struct GrantedPermission {
    pub id: TableId,
    pub giver_user_id: TableId,
    pub receiver_user_id: TableId,
    pub permissions: Permissions,
}

impl DbTableItem for GrantedPermission {
    open spec fn spec_id(&self) -> TableId {
        self.id
    }

    fn get_id(&self) -> (id: TableId) {
        self.id
    }
}

/// Whether `roles` holds `role`.
pub open spec fn holds_role(roles: Seq<Role>, role: Role) -> bool {
    roles.contains(role)
}

/// Whether a user with roles `roles` is an administrator.
pub open spec fn is_admin_roles(roles: Seq<Role>) -> bool {
    holds_role(roles, Role::Admin) || holds_role(roles, Role::SuperAdmin)
}

/// Questions about a user's roles.
pub trait UserUtils {
    /// The user's roles.
    spec fn spec_roles(&self) -> Seq<Role>;

    /// Whether the user is an administrator (holds the admin or the super-admin role).
    fn is_admin(&self) -> (r: bool)
        ensures
            r == is_admin_roles(self.spec_roles()),
    ;

    /// Whether the user holds `role`.
    fn has_role(&self, role: Role) -> (r: bool)
        ensures
            r == holds_role(self.spec_roles(), role),
    ;
}

impl UserUtils for User {
    open spec fn spec_roles(&self) -> Seq<Role> {
        self.roles@
    }

    fn is_admin(&self) -> (r: bool) {
        self.has_role(Role::Admin) || self.has_role(Role::SuperAdmin)
    }

    fn has_role(&self, role: Role) -> (r: bool) {
        let mut i: usize = 0;
        while i < self.roles.len()
            invariant
                i <= self.roles@.len(),
                forall|j: int| 0 <= j < i ==> #[trigger] self.roles@[j] != role,
            decreases self.roles@.len() - i,
        {
            if self.roles[i].same_role(&role) {
                assert(self.roles@[i as int] == role);
                return true;
            }
            i = i + 1;
        }
        false
    }
}

/// A user with no id, name, email or role (the user before anyone signs in).
pub fn default_user() -> (u: User)
    ensures
        u.id == 0,
        u.name@ == Seq::<char>::empty(),
        u.email@ == Seq::<char>::empty(),
        u.roles@ == Seq::<Role>::empty(),
{
    User { id: 0, name: String::new(), email: String::new(), roles: Vec::new() }
}

/// The kinds of tables that a user's data holds.
#[derive(Clone, Copy, Debug, PartialEq, Eq, Structural)]
pub enum TableKind {
    Users,
    AccessLevels,
    Events,
    EventTemplates,
    Schedules,
    GrantedPermissions,
}

/// A request for the server; a request about a user's data names the user
/// whose data its reply belongs to.
#[derive(Debug)]
pub enum StateRequest {
    /// Sign out.
    Logout,
    /// Sign in with an email and a password.
    Login { email: String, password: String },
    /// Sign in with a saved token.
    LoginByJwt { key: String },
    /// Register with a name, an email and a password.
    Register { name: String, email: String, password: String },
    /// Load all the data of a user.
    LoadState { user_id: TableId },
    /// Load all items of a table of a user's data.
    LoadAll { table: TableKind, user_id: TableId },
    /// Load one item of a table of a user's data.
    LoadById { table: TableKind, user_id: TableId, id: TableId },
    /// Delete one item of a table of a user's data.
    Delete { table: TableKind, user_id: TableId, id: TableId },
    /// Insert an event into a user's calendar.
    InsertEvent { user_id: TableId, event: NewEvent },
}

/// A table of one user's items, remembering whose they are.
pub struct StateTable<T: DbTableItem> {
    user_id: TableId,
    data: Table<T>,
}

/// A table of one user's items, as a value: whose they are and the items.
pub struct StateTableView<T> {
    pub user_id: TableId,
    pub items: Seq<T>,
}

impl<T: DbTableItem> View for StateTable<T> {
    type V = StateTableView<T>;

    closed spec fn view(&self) -> StateTableView<T> {
        StateTableView { user_id: self.user_id, items: self.data@ }
    }
}

/// The request that loads all items of a table of kind `table` of user `user_id`.
pub open spec fn load_all_request(table: TableKind, user_id: TableId) -> StateRequest {
    StateRequest::LoadAll { table, user_id }
}

impl<T: DbTableItem> StateTable<T> {
    /// An empty table of no user.
    pub open spec fn spec_empty() -> StateTableView<T> {
        StateTableView { user_id: -1i32, items: Seq::<T>::empty() }
    }

    /// An empty table, of no user yet.
    pub fn new() -> (t: Self)
        ensures
            t@ == Self::spec_empty(),
    {
        StateTable { user_id: -1, data: Table::new() }
    }

    /// Makes the table the data of user `user_id`.
    pub fn set_user_id(&mut self, user_id: TableId)
        ensures
            final(self)@ == (StateTableView { user_id, items: old(self)@.items }),
    {
        self.user_id = user_id;
    }

    /// The user whose items the table holds.
    pub fn user_id(&self) -> (id: TableId)
        ensures
            id == self@.user_id,
    {
        self.user_id
    }

    /// The items.
    pub fn get_table(&self) -> (t: &Table<T>)
        ensures
            t@ == self@.items,
    {
        &self.data
    }

    /// The items, for changing.
    pub fn get_table_mut(&mut self) -> (t: &mut Table<T>)
        ensures
            t@ == old(self)@.items,
            final(self)@ == (StateTableView { user_id: old(self)@.user_id, items: final(t)@ }),
    {
        &mut self.data
    }

    /// The items as a vector.
    pub fn items(&self) -> (v: &Vec<T>)
        ensures
            v@ == self@.items,
    {
        proof {
            self.data.lemma_items_are_view();
        }
        self.data.get()
    }
}

/// All data loaded for one user.
pub struct UserState {
    pub user_id: TableId,
    pub users: StateTable<User>,
    pub access_levels: StateTable<AccessLevel>,
    pub events: StateTable<Event>,
    pub event_templates: StateTable<EventTemplate>,
    pub schedules: StateTable<Schedule>,
    pub granted_permissions: StateTable<GrantedPermission>,
}

/// All data loaded for one user, as a value.
pub struct UserStateView {
    pub user_id: TableId,
    pub users: StateTableView<User>,
    pub access_levels: StateTableView<AccessLevel>,
    pub events: StateTableView<Event>,
    pub event_templates: StateTableView<EventTemplate>,
    pub schedules: StateTableView<Schedule>,
    pub granted_permissions: StateTableView<GrantedPermission>,
}

impl View for UserState {
    type V = UserStateView;

    open spec fn view(&self) -> UserStateView {
        UserStateView {
            user_id: self.user_id,
            users: self.users@,
            access_levels: self.access_levels@,
            events: self.events@,
            event_templates: self.event_templates@,
            schedules: self.schedules@,
            granted_permissions: self.granted_permissions@,
        }
    }
}

/// The first schedule of `schedules` that has a plan with id `plan_id` and
/// whose template is among `templates`, with that plan and template.
pub open spec fn plan_with_template(
    templates: Seq<EventTemplateView>,
    schedules: Seq<ScheduleView>,
    plan_id: TableId,
) -> Option<(ScheduleView, EventPlan, EventTemplateView)>
    decreases schedules.len(),
{
    if schedules.len() == 0 {
        None
    } else {
        match first_plan(schedules[0].event_plans, plan_id) {
            Some(p) => match first_template(templates, schedules[0].template_id) {
                Some(t) => Some((schedules[0], p, t)),
                None => plan_with_template(templates, schedules.drop_first(), plan_id),
            },
            None => plan_with_template(templates, schedules.drop_first(), plan_id),
        }
    }
}

/// The event that accepting plan `plan_id` on day `date` asks to insert: made
/// from the first schedule that has the plan and whose template is there, at
/// the plan's time, lasting as long as the template says, at the template's
/// level, hidden from viewers below it, for user -1 (the signed-in user).
pub open spec fn event_for_plan(
    templates: Seq<EventTemplateView>,
    schedules: Seq<ScheduleView>,
    date: Date,
    plan_id: TableId,
) -> Option<NewEventView> {
    match plan_with_template(templates, schedules, plan_id) {
        Some((_, p, t)) => {
            let start = DateTime { date, time: p.time };
            Some(
                NewEventView {
                    user_id: -1i32,
                    name: t.event_name,
                    description: t.event_description,
                    start,
                    end: spec_add_seconds(start, t.duration),
                    access_level: t.access_level,
                    visibility: EventVisibility::HideAll,
                    plan_id: Some(plan_id),
                },
            )
        },
        None => None,
    }
}

impl UserStateView {
    /// The data of user `user_id` before anything is loaded: every table
    /// empty and of that user, but for the users table, which belongs to no user.
    pub open spec fn fresh(user_id: TableId) -> UserStateView {
        UserStateView {
            user_id,
            users: StateTableView { user_id: -1i32, items: Seq::empty() },
            access_levels: StateTableView { user_id, items: Seq::empty() },
            events: StateTableView { user_id, items: Seq::empty() },
            event_templates: StateTableView { user_id, items: Seq::empty() },
            schedules: StateTableView { user_id, items: Seq::empty() },
            granted_permissions: StateTableView { user_id, items: Seq::empty() },
        }
    }

    /// This data made that of user `user_id`: the tables but the users table follow.
    pub open spec fn with_user_id(self, user_id: TableId) -> UserStateView {
        UserStateView {
            user_id,
            access_levels: StateTableView { user_id, ..self.access_levels },
            events: StateTableView { user_id, ..self.events },
            event_templates: StateTableView { user_id, ..self.event_templates },
            schedules: StateTableView { user_id, ..self.schedules },
            granted_permissions: StateTableView { user_id, ..self.granted_permissions },
            ..self
        }
    }

    /// This data with the access levels, events, schedules and event
    /// templates of `data` in place of the loaded ones.
    pub open spec fn with_data(self, data: UserStateData) -> UserStateView {
        UserStateView {
            access_levels: StateTableView { items: data.access_levels@, ..self.access_levels },
            events: StateTableView { items: data.events@, ..self.events },
            schedules: StateTableView { items: data.schedules@, ..self.schedules },
            event_templates: StateTableView { items: data.event_templates@, ..self.event_templates },
            ..self
        }
    }
}

impl UserState {
    /// The data of user `user_id`, with nothing loaded.
    pub fn new(user_id: TableId) -> (s: UserState)
        ensures
            s@ == UserStateView::fresh(user_id),
    {
        let mut state = UserState {
            user_id: -1,
            users: StateTable::new(),
            access_levels: StateTable::new(),
            events: StateTable::new(),
            event_templates: StateTable::new(),
            schedules: StateTable::new(),
            granted_permissions: StateTable::new(),
        };
        state.set_user_id(user_id);
        state
    }

    /// The user whose data this is.
    pub fn user_id(&self) -> (id: TableId)
        ensures
            id == self@.user_id,
    {
        self.user_id
    }

    /// Makes this the data of user `user_id`: the tables follow, but for the users table.
    pub fn set_user_id(&mut self, user_id: TableId)
        ensures
            final(self)@ == old(self)@.with_user_id(user_id),
    {
        self.user_id = user_id;
        self.access_levels.set_user_id(user_id);
        self.events.set_user_id(user_id);
        self.event_templates.set_user_id(user_id);
        self.schedules.set_user_id(user_id);
        self.granted_permissions.set_user_id(user_id);
    }

    /// Puts the access levels, events, schedules and event templates of a
    /// loaded copy of the user's data in place of the loaded ones.
    pub fn replace_data(&mut self, data: UserStateData)
        ensures
            final(self)@ == old(self)@.with_data(data),
    {
        let ghost d = data;
        let UserStateData { access_levels, events, schedules, event_templates } = data;
        self.access_levels.get_table_mut().replace_all(access_levels);
        self.events.get_table_mut().replace_all(events);
        self.schedules.get_table_mut().replace_all(schedules);
        self.event_templates.get_table_mut().replace_all(event_templates);
    }

    /// The request that loads all of this user's data.
    pub fn load_state(&self) -> (r: StateRequest)
        ensures
            r == (StateRequest::LoadState { user_id: self@.user_id }),
    {
        StateRequest::LoadState { user_id: self.user_id }
    }

    /// The request that inserts the event for plan `plan_id` on day `date`:
    /// from the first schedule that has the plan and whose template is there;
    /// None when there is none. The insertion is for the events table's user.
    pub fn accept_scheduled_event(&self, plan_id: TableId, date: Date) -> (r: Option<StateRequest>)
        requires
            event_for_plan(
                item_views(self@.event_templates.items),
                item_views(self@.schedules.items),
                date,
                plan_id,
            ) is Some ==> date.days_from_ce <= LAST_EXTENSIBLE_DAY,
        ensures
            match event_for_plan(
                item_views(self@.event_templates.items),
                item_views(self@.schedules.items),
                date,
                plan_id,
            ) {
                Some(e) => r matches Some(StateRequest::InsertEvent { user_id, event }) && user_id
                    == self@.events.user_id && event@ == e,
                None => r is None,
            },
    {
        let templates = self.event_templates.items();
        let schedules = self.schedules.items();
        let ghost ts = item_views(templates@);
        let ghost ss = item_views(schedules@);
        let mut i: usize = 0;
        assert(ss.skip(0) =~= ss);
        while i < schedules.len()
            invariant
                i <= schedules@.len(),
                ts == item_views(templates@),
                ss == item_views(schedules@),
                templates@ == self@.event_templates.items,
                schedules@ == self@.schedules.items,
                event_for_plan(ts, ss, date, plan_id) is Some ==> date.days_from_ce
                    <= LAST_EXTENSIBLE_DAY,
                plan_with_template(ts, ss, plan_id) == plan_with_template(ts, ss.skip(i as int), plan_id),
            decreases schedules@.len() - i,
        {
            let schedule = &schedules[i];
            assert(ss.skip(i as int)[0] == schedule@);
            assert(ss.skip(i as int).drop_first() =~= ss.skip(i as int + 1));
            match find_plan(&schedule.event_plans, plan_id) {
                Some(plan) => match find_template(templates, schedule.template_id) {
                    Some(template) => {
                        let start = DateTime::new(date, plan.time);
                        let end = start.add_seconds(template.duration);
                        let event = NewEvent {
                            user_id: -1,
                            name: copy_string(&template.event_name),
                            description: copy_opt_string(&template.event_description),
                            start,
                            end,
                            access_level: template.access_level,
                            visibility: EventVisibility::HideAll,
                            plan_id: Some(plan_id),
                        };
                        return Some(StateRequest::InsertEvent { user_id: self.events.user_id(), event });
                    },
                    None => {},
                },
                None => {},
            }
            i = i + 1;
        }
        assert(ss.skip(i as int).len() == 0);
        None
    }
}

/// What an administrator has loaded: all users, and the data of each user looked at.
pub struct AdminState {
    pub users: StateTable<User>,
    pub users_data: std::collections::HashMap<TableId, UserState>,
}

impl AdminState {
    /// Nothing loaded.
    pub fn new() -> (s: AdminState)
        ensures
            s.users@ == (StateTableView { user_id: -1i32, items: Seq::<User>::empty() }),
            s.users_data@ == Map::<TableId, UserState>::empty(),
    {
        AdminState { users: StateTable::new(), users_data: std::collections::HashMap::new() }
    }

    /// The request that loads all users.
    pub fn load_state(&self) -> (r: StateRequest)
        ensures
            r == (StateRequest::LoadAll { table: TableKind::Users, user_id: self.users@.user_id }),
    {
        StateRequest::LoadAll { table: TableKind::Users, user_id: self.users.user_id() }
    }

    /// The request that loads all the data of user `user_id`.
    pub fn load_user_state(&self, user_id: TableId) -> (r: StateRequest)
        ensures
            r == (StateRequest::LoadState { user_id }),
    {
        StateRequest::LoadState { user_id }
    }
}

/// The data of a user who granted the signed-in user permissions, with those permissions.
pub struct GrantedUserState {
    pub user: User,
    pub state: UserState,
    pub permissions: Permissions,
}

/// The data of a user who granted permissions, as a value.
pub struct GrantedUserStateView {
    pub user: UserView,
    pub state: UserStateView,
    pub permissions: Permissions,
}

impl View for GrantedUserState {
    type V = GrantedUserStateView;

    open spec fn view(&self) -> GrantedUserStateView {
        GrantedUserStateView { user: self.user@, state: self.state@, permissions: self.permissions }
    }
}

impl GrantedUserState {
    /// Nothing loaded yet of `user`'s data.
    pub fn new(user: User, permissions: Permissions) -> (s: GrantedUserState)
        ensures
            s@ == (GrantedUserStateView {
                user: user@,
                state: UserStateView::fresh(user.id),
                permissions,
            }),
    {
        GrantedUserState { state: UserState::new(user.id), user, permissions }
    }
}

/// An item kind whose table a user's data holds.
pub trait UserTable: DbTableItem + Sized {
    /// The kind of the table.
    spec fn spec_kind() -> TableKind;

    /// The table of this kind in `us`.
    spec fn spec_table(us: UserStateView) -> StateTableView<Self>;

    /// `us` with `t` as its table of this kind.
    spec fn spec_with_table(us: UserStateView, t: StateTableView<Self>) -> UserStateView;

    /// The kind of the table.
    fn kind() -> (k: TableKind)
        ensures
            k == Self::spec_kind(),
    ;

    /// Reading the table that was put gives it back, and putting a table over
    /// another is putting the last.
    proof fn lemma_with_table(us: UserStateView, a: StateTableView<Self>, b: StateTableView<Self>)
        ensures
            Self::spec_table(Self::spec_with_table(us, a)) == a,
            Self::spec_with_table(Self::spec_with_table(us, a), b) == Self::spec_with_table(us, b),
            Self::spec_with_table(us, Self::spec_table(us)) == us,
    ;

    /// Puts `t` as the table of this kind of `us`, and gives back the one that was there.
    fn swap_table(us: &mut UserState, t: StateTable<Self>) -> (prev: StateTable<Self>)
        ensures
            prev@ == Self::spec_table(old(us)@),
            final(us)@ == Self::spec_with_table(old(us)@, t@),
    ;
}

impl UserTable for User {
    open spec fn spec_kind() -> TableKind {
        TableKind::Users
    }

    open spec fn spec_table(us: UserStateView) -> StateTableView<User> {
        us.users
    }

    open spec fn spec_with_table(us: UserStateView, t: StateTableView<User>) -> UserStateView {
        UserStateView { users: t, ..us }
    }

    proof fn lemma_with_table(us: UserStateView, a: StateTableView<Self>, b: StateTableView<Self>) {
    }

    fn kind() -> (k: TableKind) {
        TableKind::Users
    }

    fn swap_table(us: &mut UserState, t: StateTable<User>) -> (prev: StateTable<User>) {
        let mut t = t;
        std::mem::swap(&mut us.users, &mut t);
        t
    }
}

impl UserTable for AccessLevel {
    open spec fn spec_kind() -> TableKind {
        TableKind::AccessLevels
    }

    open spec fn spec_table(us: UserStateView) -> StateTableView<AccessLevel> {
        us.access_levels
    }

    open spec fn spec_with_table(us: UserStateView, t: StateTableView<AccessLevel>) -> UserStateView {
        UserStateView { access_levels: t, ..us }
    }

    proof fn lemma_with_table(us: UserStateView, a: StateTableView<Self>, b: StateTableView<Self>) {
    }

    fn kind() -> (k: TableKind) {
        TableKind::AccessLevels
    }

    fn swap_table(us: &mut UserState, t: StateTable<AccessLevel>) -> (prev: StateTable<AccessLevel>) {
        let mut t = t;
        std::mem::swap(&mut us.access_levels, &mut t);
        t
    }
}

impl UserTable for Event {
    open spec fn spec_kind() -> TableKind {
        TableKind::Events
    }

    open spec fn spec_table(us: UserStateView) -> StateTableView<Event> {
        us.events
    }

    open spec fn spec_with_table(us: UserStateView, t: StateTableView<Event>) -> UserStateView {
        UserStateView { events: t, ..us }
    }

    proof fn lemma_with_table(us: UserStateView, a: StateTableView<Self>, b: StateTableView<Self>) {
    }

    fn kind() -> (k: TableKind) {
        TableKind::Events
    }

    fn swap_table(us: &mut UserState, t: StateTable<Event>) -> (prev: StateTable<Event>) {
        let mut t = t;
        std::mem::swap(&mut us.events, &mut t);
        t
    }
}

impl UserTable for EventTemplate {
    open spec fn spec_kind() -> TableKind {
        TableKind::EventTemplates
    }

    open spec fn spec_table(us: UserStateView) -> StateTableView<EventTemplate> {
        us.event_templates
    }

    open spec fn spec_with_table(us: UserStateView, t: StateTableView<EventTemplate>) -> UserStateView {
        UserStateView { event_templates: t, ..us }
    }

    proof fn lemma_with_table(us: UserStateView, a: StateTableView<Self>, b: StateTableView<Self>) {
    }

    fn kind() -> (k: TableKind) {
        TableKind::EventTemplates
    }

    fn swap_table(us: &mut UserState, t: StateTable<EventTemplate>) -> (prev: StateTable<EventTemplate>) {
        let mut t = t;
        std::mem::swap(&mut us.event_templates, &mut t);
        t
    }
}

impl UserTable for Schedule {
    open spec fn spec_kind() -> TableKind {
        TableKind::Schedules
    }

    open spec fn spec_table(us: UserStateView) -> StateTableView<Schedule> {
        us.schedules
    }

    open spec fn spec_with_table(us: UserStateView, t: StateTableView<Schedule>) -> UserStateView {
        UserStateView { schedules: t, ..us }
    }

    proof fn lemma_with_table(us: UserStateView, a: StateTableView<Self>, b: StateTableView<Self>) {
    }

    fn kind() -> (k: TableKind) {
        TableKind::Schedules
    }

    fn swap_table(us: &mut UserState, t: StateTable<Schedule>) -> (prev: StateTable<Schedule>) {
        let mut t = t;
        std::mem::swap(&mut us.schedules, &mut t);
        t
    }
}

impl UserTable for GrantedPermission {
    open spec fn spec_kind() -> TableKind {
        TableKind::GrantedPermissions
    }

    open spec fn spec_table(us: UserStateView) -> StateTableView<GrantedPermission> {
        us.granted_permissions
    }

    open spec fn spec_with_table(us: UserStateView, t: StateTableView<GrantedPermission>) -> UserStateView {
        UserStateView { granted_permissions: t, ..us }
    }

    proof fn lemma_with_table(us: UserStateView, a: StateTableView<Self>, b: StateTableView<Self>) {
    }

    fn kind() -> (k: TableKind) {
        TableKind::GrantedPermissions
    }

    fn swap_table(us: &mut UserState, t: StateTable<GrantedPermission>) -> (prev: StateTable<GrantedPermission>) {
        let mut t = t;
        std::mem::swap(&mut us.granted_permissions, &mut t);
        t
    }
}

impl<T: UserTable> StateTable<T> {
    /// The request that loads all items of this table.
    pub fn load_all(&self) -> (r: StateRequest)
        ensures
            r == (StateRequest::LoadAll { table: T::spec_kind(), user_id: self@.user_id }),
    {
        StateRequest::LoadAll { table: T::kind(), user_id: self.user_id }
    }

    /// The request that loads item `id` of this table.
    pub fn load_by_id(&self, id: TableId) -> (r: StateRequest)
        ensures
            r == (StateRequest::LoadById { table: T::spec_kind(), user_id: self@.user_id, id }),
    {
        StateRequest::LoadById { table: T::kind(), user_id: self.user_id, id }
    }

    /// The request that deletes item `id` of this table.
    pub fn delete(&self, id: TableId) -> (r: StateRequest)
        ensures
            r == (StateRequest::Delete { table: T::spec_kind(), user_id: self@.user_id, id }),
    {
        StateRequest::Delete { table: T::kind(), user_id: self.user_id, id }
    }
}

impl StateTable<Event> {
    /// The request that inserts `event` into this table.
    pub fn insert(&self, event: NewEvent) -> (r: StateRequest)
        ensures
            r == (StateRequest::InsertEvent { user_id: self@.user_id, event }),
    {
        StateRequest::InsertEvent { user_id: self.user_id, event }
    }
}

/// What a request about a user's data remembers until its reply: whose data
/// it is about, and what else the reply needs.
#[derive(Clone, Copy, Debug, PartialEq, Eq, Structural)]
pub struct StateRequestInfo<T> {
    pub user_id: TableId,
    pub info: T,
}

impl<T> StateRequestInfo<T> {
    /// What a request about user `user_id`'s data remembers, with `info`.
    pub fn new(user_id: TableId, info: T) -> (r: Self)
        ensures
            r.user_id == user_id,
            r.info == info,
    {
        StateRequestInfo { user_id, info }
    }
}

impl StateRequestInfo<()> {
    /// What a request about user `user_id`'s data remembers, with nothing else.
    pub fn new_default(user_id: TableId) -> (r: Self)
        ensures
            r.user_id == user_id,
    {
        StateRequestInfo { user_id, info: () }
    }
}

} // verus!
