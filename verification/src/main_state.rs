//! The state of a client that may look at several users' data: the signed-in
//! user's own data, the data of users who granted them permissions, and, for
//! an administrator, the data of any user; the events prepared per day for
//! one of them; and the requests queued for the server.
use crate::calendar::{Date, LAST_EXTENSIBLE_DAY};
use crate::day_events::{
    all_on_day, law_phantom_events, law_seen_on_day_is_on_day, law_stable_sort_keeps_events,
    sorted_by_start, events_seen_on_day, is_stable_sort_by_start, phantom_events, planned_events, seen_on_day,
    sort_by_start,
};
use crate::model::{
    copy_string, AccessLevel, Event, EventTemplate, EventView, Role, Schedule, User, UserView,
};
use crate::requests::{LoadBadRequestResponse, UserStateBadRequestResponse, UserStateData};
use crate::table::{item_views, remove_id, upsert, DbTableItem, TableId};
use crate::user_state::{
    default_user, is_admin_roles, AdminState, GrantedPermission, GrantedUserState,
    GrantedUserStateView, Permissions, StateRequest, StateTable, StateTableView, TableKind, UserState,
    UserStateView, UserTable, UserUtils,
};
use std::collections::HashMap;
use vstd::prelude::*;

verus! {

broadcast use vstd::std_specs::hash::group_hash_axioms;

/// The state as a value.
#[verifier::ext_equal]
pub struct MainStateModel {
    pub me: UserView,
    pub user_state: UserStateView,
    pub granted_states: Seq<GrantedUserStateView>,
    pub admin_users: StateTableView<User>,
    pub admin_users_data: Map<TableId, UserStateView>,
    /// The events prepared for each day, keyed by the day's number.
    pub events_per_day: Map<i32, Seq<EventView>>,
    /// The user whose events are prepared.
    pub events_per_day_user_id: TableId,
    /// The token that authorizes requests, once someone signed in.
    pub jwt: Option<Seq<char>>,
    /// The requests queued for the server, oldest first.
    pub outbox: Seq<StateRequest>,
}

/// The view of the user before anyone signs in.
pub open spec fn nobody() -> UserView {
    UserView { id: 0, name: Seq::empty(), email: Seq::empty(), roles: Seq::empty() }
}

/// Whether some granted user state of `gs` is of user `user_id`.
pub open spec fn has_granted(gs: Seq<GrantedUserStateView>, user_id: TableId) -> bool {
    exists|i: int| 0 <= i < gs.len() && #[trigger] gs[i].user.id == user_id
}

/// Whether `i` is the position of the first granted user state of user `user_id`.
pub open spec fn is_first_granted(gs: Seq<GrantedUserStateView>, user_id: TableId, i: int) -> bool {
    &&& 0 <= i < gs.len()
    &&& gs[i].user.id == user_id
    &&& forall|j: int| 0 <= j < i ==> #[trigger] gs[j].user.id != user_id
}

/// The position of the first granted user state of user `user_id` (meaningful when there is one).
pub open spec fn granted_index(gs: Seq<GrantedUserStateView>, user_id: TableId) -> int {
    choose|i: int| is_first_granted(gs, user_id, i)
}

/// When some granted user state is of user `user_id`, `granted_index` points at the first.
pub proof fn lemma_granted_index(gs: Seq<GrantedUserStateView>, user_id: TableId)
    requires
        has_granted(gs, user_id),
    ensures
        is_first_granted(gs, user_id, granted_index(gs, user_id)),
{
    let k = choose|k: int| 0 <= k < gs.len() && #[trigger] gs[k].user.id == user_id;
    lemma_first_granted_exists(gs, user_id, k);
}

proof fn lemma_first_granted_exists(gs: Seq<GrantedUserStateView>, user_id: TableId, k: int)
    requires
        0 <= k < gs.len(),
        gs[k].user.id == user_id,
    ensures
        exists|i: int| is_first_granted(gs, user_id, i),
    decreases k,
{
    if forall|j: int| 0 <= j < k ==> #[trigger] gs[j].user.id != user_id {
        assert(is_first_granted(gs, user_id, k));
    } else {
        let j = choose|j: int| 0 <= j < k && #[trigger] gs[j].user.id == user_id;
        lemma_first_granted_exists(gs, user_id, j);
    }
}

/// Only one position is the first granted user state of a user.
pub proof fn lemma_granted_unique(gs: Seq<GrantedUserStateView>, user_id: TableId, i: int, j: int)
    requires
        is_first_granted(gs, user_id, i),
        is_first_granted(gs, user_id, j),
    ensures
        i == j,
{
    if i < j {
        assert(gs[i].user.id != user_id);
    } else if j < i {
        assert(gs[j].user.id != user_id);
    }
}

impl MainStateModel {
    /// Whether the signed-in user is an administrator.
    pub open spec fn is_admin(self) -> bool {
        is_admin_roles(self.me.roles)
    }

    /// The data that a change to user `user_id`'s data goes to: for an
    /// administrator, that user's (fresh when none is loaded); otherwise the
    /// own data for the signed-in user, the first granted data of that user,
    /// or else the own data.
    pub open spec fn user_state_of(self, user_id: TableId) -> UserStateView {
        if self.is_admin() {
            if self.admin_users_data.contains_key(user_id) {
                self.admin_users_data[user_id]
            } else {
                UserStateView::fresh(user_id)
            }
        } else if user_id == self.me.id {
            self.user_state
        } else if has_granted(self.granted_states, user_id) {
            self.granted_states[granted_index(self.granted_states, user_id)].state
        } else {
            self.user_state
        }
    }

    /// This state with `us` as the data of user `user_id`, where
    /// `user_state_of` finds that user's data.
    pub open spec fn with_user_state(self, user_id: TableId, us: UserStateView) -> MainStateModel {
        if self.is_admin() {
            MainStateModel { admin_users_data: self.admin_users_data.insert(user_id, us), ..self }
        } else if user_id == self.me.id {
            MainStateModel { user_state: us, ..self }
        } else if has_granted(self.granted_states, user_id) {
            let i = granted_index(self.granted_states, user_id);
            MainStateModel {
                granted_states: self.granted_states.update(
                    i,
                    GrantedUserStateView { state: us, ..self.granted_states[i] },
                ),
                ..self
            }
        } else {
            MainStateModel { user_state: us, ..self }
        }
    }

    /// The data of user `user_id` that is loaded, if any: for an
    /// administrator, that user's; otherwise the own data for the signed-in
    /// user, or the first granted data of that user.
    pub open spec fn loaded_state(self, user_id: TableId) -> Option<UserStateView> {
        if self.is_admin() {
            if self.admin_users_data.contains_key(user_id) {
                Some(self.admin_users_data[user_id])
            } else {
                None
            }
        } else if user_id == self.me.id {
            Some(self.user_state)
        } else if has_granted(self.granted_states, user_id) {
            Some(self.granted_states[granted_index(self.granted_states, user_id)].state)
        } else {
            None
        }
    }

    /// The data of user `user_id` that is read: the loaded one, or else the own data.
    pub open spec fn read_state(self, user_id: TableId) -> UserStateView {
        match self.loaded_state(user_id) {
            Some(us) => us,
            None => self.user_state,
        }
    }

    /// What the signed-in user may do with user `user_id`'s data: everything
    /// for an administrator and with the own data; otherwise what the first
    /// granted data of that user says, or nothing.
    pub open spec fn permissions_of(self, user_id: TableId) -> Permissions {
        if self.is_admin() || user_id == self.me.id {
            Permissions::spec_full()
        } else if has_granted(self.granted_states, user_id) {
            self.granted_states[granted_index(self.granted_states, user_id)].permissions
        } else {
            Permissions::spec_none()
        }
    }

    /// This state with no prepared events.
    pub open spec fn without_prepared(self) -> MainStateModel {
        MainStateModel { events_per_day: Map::empty(), ..self }
    }

    /// This state with `request` queued.
    pub open spec fn queue(self, request: StateRequest) -> MainStateModel {
        MainStateModel { outbox: self.outbox.push(request), ..self }
    }
}

/// The state of a client that may look at several users' data.
pub struct State {
    me: User,
    pub user_state: UserState,
    pub granted_states: Vec<GrantedUserState>,
    pub admin_state: AdminState,
    /// Has both server and phantom events.
    events_per_day: HashMap<i32, Vec<Event>>,
    events_per_day_user_id: TableId,
    jwt: Option<String>,
    outbox: Vec<StateRequest>,
}

/// The views of the granted user states of `gs`.
pub open spec fn granted_views(gs: Seq<GrantedUserState>) -> Seq<GrantedUserStateView> {
    gs.map_values(|g: GrantedUserState| g@)
}

impl View for State {
    type V = MainStateModel;

    closed spec fn view(&self) -> MainStateModel {
        MainStateModel {
            me: self.me@,
            user_state: self.user_state@,
            granted_states: granted_views(self.granted_states@),
            admin_users: self.admin_state.users@,
            admin_users_data: self.admin_state.users_data@.map_values(|u: UserState| u@),
            events_per_day: self.events_per_day@.map_values(|v: Vec<Event>| item_views(v@)),
            events_per_day_user_id: self.events_per_day_user_id,
            jwt: match self.jwt {
                Some(t) => Some(t@),
                None => None,
            },
            outbox: self.outbox@,
        }
    }
}

/// The position of the first granted user state of user `user_id`, if any.
fn position_of_granted(gs: &Vec<GrantedUserState>, user_id: TableId) -> (r: Option<usize>)
    ensures
        match r {
            Some(i) => is_first_granted(granted_views(gs@), user_id, i as int),
            None => !has_granted(granted_views(gs@), user_id),
        },
{
    let ghost vs = granted_views(gs@);
    let mut i: usize = 0;
    while i < gs.len()
        invariant
            i <= gs@.len(),
            vs == granted_views(gs@),
            forall|j: int| 0 <= j < i ==> #[trigger] vs[j].user.id != user_id,
        decreases gs@.len() - i,
    {
        assert(vs[i as int] == gs@[i as int]@);
        if gs[i].user.id == user_id {
            return Some(i);
        }
        i = i + 1;
    }
    None
}

impl State {
    /// Nobody signed in, nothing loaded, nothing queued.
    pub fn new() -> (s: State)
        ensures
            s@.me == nobody(),
            s@.user_state == UserStateView::fresh(-1i32),
            s@.granted_states == Seq::<GrantedUserStateView>::empty(),
            s@.admin_users == (StateTableView { user_id: -1i32, items: Seq::<User>::empty() }),
            s@.admin_users_data == Map::<TableId, UserStateView>::empty(),
            s@.events_per_day == Map::<i32, Seq<EventView>>::empty(),
            s@.events_per_day_user_id == -1,
            s@.jwt is None,
            s@.outbox == Seq::<StateRequest>::empty(),
    {
        let s = State {
            me: default_user(),
            user_state: UserState::new(-1),
            granted_states: Vec::new(),
            admin_state: AdminState::new(),
            events_per_day: HashMap::new(),
            events_per_day_user_id: -1,
            jwt: None,
            outbox: Vec::new(),
        };
        proof {
            assert(s@.me =~= nobody());
            assert(s@.granted_states =~= Seq::<GrantedUserStateView>::empty());
            assert(s@.admin_users_data =~= Map::<TableId, UserStateView>::empty());
            assert(s@.events_per_day =~= Map::<i32, Seq<EventView>>::empty());
        }
        s
    }

    /// The signed-in user, if someone is signed in (has a positive id).
    pub fn try_get_me(&self) -> (r: Option<&User>)
        ensures
            match r {
                Some(u) => self@.me.id > 0 && u@ == self@.me,
                None => self@.me.id <= 0,
            },
    {
        if self.me.id > 0 {
            Some(&self.me)
        } else {
            None
        }
    }

    /// The signed-in user (the user with no id before anyone signs in).
    pub fn get_me(&self) -> (r: &User)
        ensures
            r@ == self@.me,
    {
        &self.me
    }

    /// The requests queued for the server, oldest first; the queue is emptied.
    pub fn take_requests(&mut self) -> (r: Vec<StateRequest>)
        ensures
            r@ == old(self)@.outbox,
            final(self)@ == (MainStateModel { outbox: Seq::empty(), ..old(self)@ }),
    {
        let mut r: Vec<StateRequest> = Vec::new();
        std::mem::swap(&mut r, &mut self.outbox);
        proof {
            assert(self@ =~= MainStateModel { outbox: Seq::empty(), ..old(self)@ });
        }
        r
    }

    /// Queues `request`.
    fn queue(&mut self, request: StateRequest)
        ensures
            final(self)@ == old(self)@.queue(request),
    {
        self.outbox.push(request);
        proof {
            assert(self@ =~= old(self)@.queue(request));
        }
    }

    /// The data of user `user_id` that is loaded, if any.
    pub fn try_get_user_state(&self, user_id: TableId) -> (r: Option<&UserState>)
        ensures
            match r {
                Some(us) => self@.loaded_state(user_id) == Some(us@),
                None => self@.loaded_state(user_id) is None,
            },
    {
        if self.me.is_admin() {
            match self.admin_state.users_data.get(&user_id) {
                Some(us) => Some(us),
                None => None,
            }
        } else if user_id == self.me.id {
            Some(&self.user_state)
        } else {
            match position_of_granted(&self.granted_states, user_id) {
                Some(i) => {
                    proof {
                        lemma_granted_index(self@.granted_states, user_id);
                        lemma_granted_unique(
                            self@.granted_states,
                            user_id,
                            i as int,
                            granted_index(self@.granted_states, user_id),
                        );
                        assert(self@.granted_states[i as int] == self.granted_states@[i as int]@);
                    }
                    Some(&self.granted_states[i].state)
                },
                None => None,
            }
        }
    }

    /// The data of user `user_id` that is loaded, or else the own data.
    pub fn get_user_state(&self, user_id: TableId) -> (r: &UserState)
        ensures
            r@ == self@.read_state(user_id),
    {
        match self.try_get_user_state(user_id) {
            Some(us) => us,
            None => &self.user_state,
        }
    }

    /// What the signed-in user may do with user `user_id`'s data.
    pub fn get_user_permissions(&self, user_id: TableId) -> (p: Permissions)
        ensures
            p == self@.permissions_of(user_id),
    {
        if self.me.is_admin() {
            Permissions::full()
        } else if user_id == self.me.id {
            Permissions::full()
        } else {
            match position_of_granted(&self.granted_states, user_id) {
                Some(i) => {
                    proof {
                        lemma_granted_index(self@.granted_states, user_id);
                        lemma_granted_unique(
                            self@.granted_states,
                            user_id,
                            i as int,
                            granted_index(self@.granted_states, user_id),
                        );
                        assert(self@.granted_states[i as int] == self.granted_states@[i as int]@);
                    }
                    self.granted_states[i].permissions
                },
                None => Permissions::none(),
            }
        }
    }

    /// Puts `us` as the data of user `user_id` where changes to that user's
    /// data go, and gives back the data that was there.
    fn swap_user_state(&mut self, user_id: TableId, us: UserState) -> (prev: UserState)
        ensures
            prev@ == old(self)@.user_state_of(user_id),
            final(self)@ == old(self)@.with_user_state(user_id, us@),
    {
        let ghost us_view = us@;
        if self.me.is_admin() {
            let prev = match self.admin_state.users_data.insert(user_id, us) {
                Some(p) => p,
                None => UserState::new(user_id),
            };
            proof {
                assert(self@.admin_users_data =~= old(self)@.admin_users_data.insert(user_id, us_view));
                assert(self@ =~= old(self)@.with_user_state(user_id, us_view));
            }
            prev
        } else if user_id == self.me.id {
            let mut us = us;
            std::mem::swap(&mut self.user_state, &mut us);
            proof {
                assert(self@ =~= old(self)@.with_user_state(user_id, us_view));
            }
            us
        } else {
            match position_of_granted(&self.granted_states, user_id) {
                Some(i) => {
                    proof {
                        lemma_granted_index(old(self)@.granted_states, user_id);
                        lemma_granted_unique(
                            old(self)@.granted_states,
                            user_id,
                            i as int,
                            granted_index(old(self)@.granted_states, user_id),
                        );
                        assert(old(self)@.granted_states[i as int] == old(self).granted_states@[i as int]@);
                    }
                    let mut g = self.granted_states.remove(i);
                    let mut us = us;
                    std::mem::swap(&mut g.state, &mut us);
                    self.granted_states.insert(i, g);
                    proof {
                        assert(granted_views(self.granted_states@) =~= old(self)@.granted_states.update(
                            i as int,
                            GrantedUserStateView {
                                state: us_view,
                                ..old(self)@.granted_states[i as int]
                            },
                        ));
                        assert(self@ =~= old(self)@.with_user_state(user_id, us_view));
                    }
                    us
                },
                None => {
                    let mut us = us;
                    std::mem::swap(&mut self.user_state, &mut us);
                    proof {
                        assert(self@ =~= old(self)@.with_user_state(user_id, us_view));
                    }
                    us
                },
            }
        }
    }
}

/// A change to one table of a user's data.
pub enum TableOp<T> {
    /// Put an item in place of the first with its id, or append it.
    Upsert(T),
    /// Remove the first item with an id.
    Remove(TableId),
    /// Replace all items.
    ReplaceAll(Vec<T>),
    /// Ask the server for all items again.
    LoadAll,
    /// Ask the server for one item again.
    LoadById(TableId),
    /// Change nothing.
    Keep,
}

/// The items of a table after `op`.
pub open spec fn op_items<T: DbTableItem>(items: Seq<T>, op: TableOp<T>) -> Seq<T> {
    match op {
        TableOp::Upsert(x) => upsert(items, x),
        TableOp::Remove(id) => remove_id(items, id),
        TableOp::ReplaceAll(v) => v@,
        _ => items,
    }
}

/// The request that `op` on a table of user `owner` sends, if any.
pub open spec fn op_request<T: UserTable>(owner: TableId, op: TableOp<T>) -> Option<StateRequest> {
    match op {
        TableOp::LoadAll => Some(StateRequest::LoadAll { table: T::spec_kind(), user_id: owner }),
        TableOp::LoadById(id) => Some(
            StateRequest::LoadById { table: T::spec_kind(), user_id: owner, id },
        ),
        _ => None,
    }
}

impl MainStateModel {
    /// The table of kind `T` of the data that changes to user `user_id`'s data go to.
    pub open spec fn table_of<T: UserTable>(self, user_id: TableId) -> StateTableView<T> {
        T::spec_table(self.user_state_of(user_id))
    }

    /// This state after `op` on the table of kind `T` of user `user_id`'s
    /// data (where `user_state_of` finds it), with the request it sends queued.
    pub open spec fn after_table_op<T: UserTable>(self, user_id: TableId, op: TableOp<T>) -> MainStateModel {
        let t = self.table_of::<T>(user_id);
        let changed = self.with_user_state(
            user_id,
            T::spec_with_table(
                self.user_state_of(user_id),
                StateTableView { items: op_items(t.items, op), ..t },
            ),
        );
        match op_request::<T>(t.user_id, op) {
            Some(r) => changed.queue(r),
            None => changed,
        }
    }
}

/// Changing where user `user_id`'s data goes and reading it back gives the
/// change; changing it twice keeps the last; the signed-in user, the queue
/// and the prepared events are untouched.
pub proof fn lemma_with_user_state(s: MainStateModel, user_id: TableId, a: UserStateView, b: UserStateView)
    ensures
        s.with_user_state(user_id, a).user_state_of(user_id) == a,
        s.with_user_state(user_id, a).with_user_state(user_id, b) == s.with_user_state(user_id, b),
        s.with_user_state(user_id, a).me == s.me,
        s.with_user_state(user_id, a).outbox == s.outbox,
        s.with_user_state(user_id, a).events_per_day == s.events_per_day,
        s.with_user_state(user_id, a).events_per_day_user_id == s.events_per_day_user_id,
        s.with_user_state(user_id, a).jwt == s.jwt,
{
    let s1 = s.with_user_state(user_id, a);
    if !s.is_admin() && user_id != s.me.id && has_granted(s.granted_states, user_id) {
        let i = granted_index(s.granted_states, user_id);
        lemma_granted_index(s.granted_states, user_id);
        let gs1 = s1.granted_states;
        assert(gs1[i].user.id == user_id);
        assert forall|j: int| 0 <= j < i implies #[trigger] gs1[j].user.id != user_id by {
            assert(gs1[j] == s.granted_states[j]);
        }
        assert(is_first_granted(gs1, user_id, i));
        assert(has_granted(gs1, user_id));
        lemma_granted_index(gs1, user_id);
        lemma_granted_unique(gs1, user_id, i, granted_index(gs1, user_id));
        assert(s1.with_user_state(user_id, b).granted_states =~= s.with_user_state(user_id, b).granted_states);
        assert(s1.with_user_state(user_id, b) =~= s.with_user_state(user_id, b));
    } else if s.is_admin() {
        assert(s1.with_user_state(user_id, b).admin_users_data =~= s.with_user_state(user_id, b).admin_users_data);
        assert(s1.with_user_state(user_id, b) =~= s.with_user_state(user_id, b));
    } else {
        assert(s1.with_user_state(user_id, b) =~= s.with_user_state(user_id, b));
    }
}

impl State {
    /// Applies `op` to the table of kind `T` of user `user_id`'s data (where
    /// `get_user_state_mut` finds it), and queues the request it sends.
    fn apply_table_op<T: UserTable>(&mut self, user_id: TableId, op: TableOp<T>)
        ensures
            final(self)@ == old(self)@.after_table_op(user_id, op),
    {
        let ghost s0 = self@;
        let mut us = self.swap_user_state(user_id, UserState::new(-1));
        let ghost us0 = us@;
        let mut t = T::swap_table(&mut us, StateTable::new());
        let ghost t0 = t@;
        let owner = t.user_id();
        let request = match op {
            TableOp::Upsert(x) => {
                t.get_table_mut().push_one(x);
                None
            },
            TableOp::Remove(id) => {
                t.get_table_mut().remove_one(id);
                None
            },
            TableOp::ReplaceAll(v) => {
                t.get_table_mut().replace_all(v);
                None
            },
            TableOp::LoadAll => Some(StateRequest::LoadAll { table: T::kind(), user_id: owner }),
            TableOp::LoadById(id) => Some(StateRequest::LoadById { table: T::kind(), user_id: owner, id }),
            TableOp::Keep => None,
        };
        let ghost t1 = t@;
        assert(t1 == StateTableView { items: op_items(t0.items, op), ..t0 });
        T::swap_table(&mut us, t);
        proof {
            T::lemma_with_table(us0, StateTable::<T>::spec_empty(), t1);
            T::lemma_with_table(us0, t1, t1);
        }
        self.swap_user_state(user_id, us);
        proof {
            lemma_with_user_state(s0, user_id, UserStateView::fresh(-1i32), us@);
        }
        match request {
            Some(r) => self.queue(r),
            None => {},
        }
    }
}

/// The grants of `gps` to user `user_id` whose giver has no granted data in
/// `existing` yet, in their order.
pub open spec fn new_grants(
    gps: Seq<GrantedPermission>,
    user_id: TableId,
    existing: Seq<GrantedUserStateView>,
) -> Seq<GrantedPermission>
    decreases gps.len(),
{
    if gps.len() == 0 {
        Seq::empty()
    } else {
        let rest = new_grants(gps.drop_last(), user_id, existing);
        let gp = gps.last();
        if gp.receiver_user_id == user_id && !has_granted(existing, gp.giver_user_id) {
            rest.push(gp)
        } else {
            rest
        }
    }
}

/// The granted data that grant `gp` starts: its giver, known by id alone,
/// nothing loaded, and the granted permissions.
pub open spec fn granted_from(gp: GrantedPermission) -> GrantedUserStateView {
    GrantedUserStateView {
        user: UserView { id: gp.giver_user_id, name: Seq::empty(), email: Seq::empty(), roles: Seq::empty() },
        state: UserStateView::fresh(gp.giver_user_id),
        permissions: gp.permissions,
    }
}

/// The request that loads the data of the giver of grant `gp`.
pub open spec fn giver_load_request(gp: GrantedPermission) -> StateRequest {
    StateRequest::LoadState { user_id: gp.giver_user_id }
}

/// The first user of `users` with id `id`, if any.
pub open spec fn first_user(users: Seq<UserView>, id: TableId) -> Option<UserView>
    decreases users.len(),
{
    if users.len() == 0 {
        None
    } else if users[0].id == id {
        Some(users[0])
    } else {
        first_user(users.drop_first(), id)
    }
}

/// `gs` with each user that `users` knows replaced by the first such user of `users`.
pub open spec fn refreshed_users(gs: Seq<GrantedUserStateView>, users: Seq<UserView>) -> Seq<
    GrantedUserStateView,
> {
    Seq::new(
        gs.len(),
        |i: int|
            match first_user(users, gs[i].user.id) {
                Some(u) => GrantedUserStateView { user: u, ..gs[i] },
                None => gs[i],
            },
    )
}

impl MainStateModel {
    /// This state with granted data started for each new grant to user
    /// `user_id` in that user's data, and the requests that load them queued.
    pub open spec fn with_new_grants(self, user_id: TableId) -> MainStateModel {
        let ng = new_grants(self.read_state(user_id).granted_permissions.items, user_id, self.granted_states);
        MainStateModel {
            granted_states: self.granted_states + ng.map_values(|gp: GrantedPermission| granted_from(gp)),
            outbox: self.outbox + ng.map_values(|gp: GrantedPermission| giver_load_request(gp)),
            ..self
        }
    }

    /// This state with the users of the granted data replaced by those that
    /// user `user_id`'s data knows.
    pub open spec fn with_users_refreshed(self, user_id: TableId) -> MainStateModel {
        MainStateModel {
            granted_states: refreshed_users(
                self.granted_states,
                item_views(self.read_state(user_id).users.items),
            ),
            ..self
        }
    }
}

/// The first user of `users` with id `id`, if any.
fn find_user(users: &Vec<User>, id: TableId) -> (r: Option<&User>)
    ensures
        match r {
            Some(u) => first_user(item_views(users@), id) == Some(u@),
            None => first_user(item_views(users@), id) is None,
        },
{
    let ghost vs = item_views(users@);
    let mut i: usize = 0;
    assert(vs.skip(0) =~= vs);
    while i < users.len()
        invariant
            i <= users@.len(),
            vs == item_views(users@),
            first_user(vs, id) == first_user(vs.skip(i as int), id),
        decreases users@.len() - i,
    {
        assert(vs.skip(i as int)[0] == users@[i as int]@);
        assert(vs.skip(i as int).drop_first() =~= vs.skip(i as int + 1));
        if users[i].id == id {
            return Some(&users[i]);
        }
        i = i + 1;
    }
    assert(vs.skip(i as int).len() == 0);
    None
}

impl State {
    /// Starts granted data for each grant to user `user_id` (in that user's
    /// data) whose giver has none yet, queues the requests that load them,
    /// then refreshes the users of all granted data from that user's data.
    pub fn populate_granted_user_states(&mut self, user_id: TableId)
        ensures
            final(self)@ == old(self)@.with_new_grants(user_id).with_users_refreshed(user_id),
    {
        let gps = crate::model::copy_vec(self.get_user_state(user_id).granted_permissions.items());
        let ghost existing = self@.granted_states;
        let n = self.granted_states.len();
        let ghost s0 = self@;
        let mut i: usize = 0;
        assert(gps@.take(0) =~= Seq::<GrantedPermission>::empty());
        assert(self@ =~= MainStateModel {
            granted_states: existing + new_grants(gps@.take(0), user_id, existing).map_values(
                |gp: GrantedPermission| granted_from(gp),
            ),
            outbox: s0.outbox + new_grants(gps@.take(0), user_id, existing).map_values(
                |gp: GrantedPermission| giver_load_request(gp),
            ),
            ..s0
        });
        while i < gps.len()
            invariant
                i <= gps@.len(),
                gps@ == s0.read_state(user_id).granted_permissions.items,
                existing == s0.granted_states,
                n == existing.len(),
                self@ == (MainStateModel {
                    granted_states: existing + new_grants(gps@.take(i as int), user_id, existing).map_values(
                        |gp: GrantedPermission| granted_from(gp),
                    ),
                    outbox: s0.outbox + new_grants(gps@.take(i as int), user_id, existing).map_values(
                        |gp: GrantedPermission| giver_load_request(gp),
                    ),
                    ..s0
                }),
            decreases gps@.len() - i,
        {
            let gp = gps[i];
            let ghost before = new_grants(gps@.take(i as int), user_id, existing);
            assert(gps@.take(i as int + 1).drop_last() =~= gps@.take(i as int));
            assert(gps@.take(i as int + 1).last() == gp);
            assert(self@.granted_states.subrange(0, n as int) =~= existing);
            let known = self.known_granted(gp.giver_user_id, n);
            if gp.receiver_user_id == user_id && !known {
                let g = GrantedUserState::new(
                    User { id: gp.giver_user_id, name: String::new(), email: String::new(), roles: Vec::new() },
                    gp.permissions,
                );
                let request = g.state.load_state();
                self.queue(request);
                let ghost gv = g@;
                assert(gv == granted_from(gp));
                let ghost gs_before = self.granted_states@;
                self.granted_states.push(g);
                proof {
                    let after = before.push(gp);
                    assert(new_grants(gps@.take(i as int + 1), user_id, existing) == after);
                    assert(granted_views(gs_before.push(g)) =~= granted_views(gs_before).push(gv));
                    assert(after.map_values(|gp: GrantedPermission| granted_from(gp)) =~= before.map_values(
                        |gp: GrantedPermission| granted_from(gp),
                    ).push(granted_from(gp)));
                    assert(after.map_values(|gp: GrantedPermission| giver_load_request(gp)) =~= before.map_values(
                        |gp: GrantedPermission| giver_load_request(gp),
                    ).push(giver_load_request(gp)));
                    assert(granted_views(self.granted_states@) =~= existing + after.map_values(
                        |gp: GrantedPermission| granted_from(gp),
                    ));
                    assert(self@.outbox =~= s0.outbox + after.map_values(
                        |gp: GrantedPermission| giver_load_request(gp),
                    ));
                    assert(self@ =~= MainStateModel {
                        granted_states: existing + after.map_values(|gp: GrantedPermission| granted_from(gp)),
                        outbox: s0.outbox + after.map_values(|gp: GrantedPermission| giver_load_request(gp)),
                        ..s0
                    });
                }
            } else {
                assert(new_grants(gps@.take(i as int + 1), user_id, existing) == before);
            }
            i = i + 1;
        }
        assert(gps@.take(i as int) =~= gps@);
        assert(self@ == s0.with_new_grants(user_id));
        self.populate_granted_user_states_users(user_id);
    }

    /// Whether some granted data among the first `n` is of user `giver`.
    fn known_granted(&self, giver: TableId, n: usize) -> (r: bool)
        requires
            n <= self@.granted_states.len(),
        ensures
            r == has_granted(self@.granted_states.subrange(0, n as int), giver),
    {
        let ghost existing = self@.granted_states.subrange(0, n as int);
        let mut i: usize = 0;
        while i < n
            invariant
                i <= n,
                n <= self@.granted_states.len(),
                existing == self@.granted_states.subrange(0, n as int),
                forall|j: int| 0 <= j < i ==> #[trigger] existing[j].user.id != giver,
            decreases n - i,
        {
            assert(existing[i as int] == self@.granted_states[i as int]);
            assert(self@.granted_states[i as int] == self.granted_states@[i as int]@);
            if self.granted_states[i].user.id == giver {
                assert(existing[i as int].user.id == giver);
                return true;
            }
            i = i + 1;
        }
        false
    }

    /// Replaces the user of each granted data with the first user of that id
    /// that user `user_id`'s data knows.
    pub fn populate_granted_user_states_users(&mut self, user_id: TableId)
        ensures
            final(self)@ == old(self)@.with_users_refreshed(user_id),
    {
        let users = crate::model::copy_items(self.get_user_state(user_id).users.items());
        let ghost s0 = self@;
        let ghost uv = item_views(users@);
        let ghost target = refreshed_users(s0.granted_states, uv);
        let mut i: usize = 0;
        while i < self.granted_states.len()
            invariant
                i <= self@.granted_states.len(),
                self@.granted_states.len() == s0.granted_states.len(),
                uv == item_views(users@),
                uv == item_views(s0.read_state(user_id).users.items),
                target == refreshed_users(s0.granted_states, uv),
                forall|j: int| 0 <= j < i ==> #[trigger] self@.granted_states[j] == target[j],
                forall|j: int| i <= j < self@.granted_states.len() ==> #[trigger] self@.granted_states[j]
                    == s0.granted_states[j],
                self@ == (MainStateModel { granted_states: self@.granted_states, ..s0 }),
            decreases self@.granted_states.len() - i,
        {
            assert(self@.granted_states[i as int] == self.granted_states@[i as int]@);
            let ghost prev = self@.granted_states;
            let id = self.granted_states[i].user.id;
            match find_user(&users, id) {
                Some(u) => {
                    let mut g = self.granted_states.remove(i);
                    g.user = u.clone();
                    self.granted_states.insert(i, g);
                    proof {
                        assert forall|j: int| 0 <= j < self@.granted_states.len() implies #[trigger] self@.granted_states[j]
                            == (if j == i { target[j] } else { prev[j] }) by {
                            assert(self@.granted_states[j] == self.granted_states@[j]@);
                        }
                        assert(self@ =~= MainStateModel { granted_states: self@.granted_states, ..s0 });
                    }
                },
                None => {},
            }
            i = i + 1;
        }
        proof {
            assert(self@.granted_states =~= target);
            assert(self@ =~= s0.with_users_refreshed(user_id));
        }
    }
}

impl State {
    /// Drops the prepared events (of whichever user they were prepared for).
    pub fn clear_events(&mut self, user_id: TableId)
        ensures
            final(self)@ == old(self)@.without_prepared(),
    {
        self.events_per_day.clear();
        proof {
            assert(self@.events_per_day =~= Map::<i32, Seq<EventView>>::empty());
            assert(self@ =~= old(self)@.without_prepared());
        }
    }
}

impl Event {
    /// A reply with item `id` of user `user_id`: the item is put into that user's table; prepared events are dropped.
    pub fn push_from_load_by_id(state: &mut State, user_id: TableId, id: TableId, item: Event)
        ensures
            final(state)@ == old(state)@.without_prepared().after_table_op(user_id, TableOp::<Self>::Upsert(item)),
    {
        state.clear_events(user_id);
        state.apply_table_op(user_id, TableOp::<Self>::Upsert(item));
    }

    /// A refusal to load item `id` of user `user_id` (it is not there): the item is removed from that user's table; prepared events are dropped.
    pub fn push_bad_from_load_by_id(state: &mut State, user_id: TableId, id: TableId, response: LoadBadRequestResponse)
        ensures
            final(state)@ == old(state)@.without_prepared().after_table_op(user_id, TableOp::<Self>::Remove(id)),
    {
        state.clear_events(user_id);
        state.apply_table_op(user_id, TableOp::<Self>::Remove(id));
    }

    /// A reply with all items of user `user_id`: they replace that user's table; prepared events are dropped.
    pub fn push_from_load_all(state: &mut State, user_id: TableId, items: Vec<Event>)
        ensures
            final(state)@ == old(state)@.without_prepared().after_table_op(user_id, TableOp::<Self>::ReplaceAll(items)),
    {
        state.clear_events(user_id);
        state.apply_table_op(user_id, TableOp::<Self>::ReplaceAll(items));
    }

    /// A refusal to load all items of user `user_id`: the table stays; prepared events are dropped.
    pub fn push_bad_from_load_all(state: &mut State, user_id: TableId)
        ensures
            final(state)@ == old(state)@.without_prepared().after_table_op(user_id, TableOp::<Self>::Keep),
    {
        state.clear_events(user_id);
        state.apply_table_op(user_id, TableOp::<Self>::Keep);
    }

    /// An item of user `user_id` was inserted: all items of that table are asked for again; prepared events are dropped.
    pub fn push_from_insert(state: &mut State, user_id: TableId)
        ensures
            final(state)@ == old(state)@.without_prepared().after_table_op(user_id, TableOp::<Self>::LoadAll),
    {
        state.clear_events(user_id);
        state.apply_table_op(user_id, TableOp::<Self>::LoadAll);
    }

    /// An insertion for user `user_id` was refused: all items of that table are asked for again; prepared events are dropped.
    pub fn push_bad_from_insert(state: &mut State, user_id: TableId)
        ensures
            final(state)@ == old(state)@.without_prepared().after_table_op(user_id, TableOp::<Self>::LoadAll),
    {
        state.clear_events(user_id);
        state.apply_table_op(user_id, TableOp::<Self>::LoadAll);
    }

    /// Item `id` of user `user_id` was updated: it is asked for again; prepared events are dropped.
    pub fn push_from_update(state: &mut State, user_id: TableId, id: TableId)
        ensures
            final(state)@ == old(state)@.without_prepared().after_table_op(user_id, TableOp::<Self>::LoadById(id)),
    {
        state.clear_events(user_id);
        state.apply_table_op(user_id, TableOp::<Self>::LoadById(id));
    }

    /// An update of item `id` of user `user_id` was refused: it is asked for again; prepared events are dropped.
    pub fn push_bad_from_update(state: &mut State, user_id: TableId, id: TableId)
        ensures
            final(state)@ == old(state)@.without_prepared().after_table_op(user_id, TableOp::<Self>::LoadById(id)),
    {
        state.clear_events(user_id);
        state.apply_table_op(user_id, TableOp::<Self>::LoadById(id));
    }

    /// Item `id` of user `user_id` was deleted: it is removed from that user's table; prepared events are dropped.
    pub fn push_from_delete(state: &mut State, user_id: TableId, id: TableId)
        ensures
            final(state)@ == old(state)@.without_prepared().after_table_op(user_id, TableOp::<Self>::Remove(id)),
    {
        state.clear_events(user_id);
        state.apply_table_op(user_id, TableOp::<Self>::Remove(id));
    }

    /// A deletion of item `id` of user `user_id` was refused: it is asked for again; prepared events are dropped.
    pub fn push_bad_from_delete(state: &mut State, user_id: TableId, id: TableId)
        ensures
            final(state)@ == old(state)@.without_prepared().after_table_op(user_id, TableOp::<Self>::LoadById(id)),
    {
        state.clear_events(user_id);
        state.apply_table_op(user_id, TableOp::<Self>::LoadById(id));
    }
}

impl EventTemplate {
    /// A reply with item `id` of user `user_id`: the item is put into that user's table; prepared events are dropped.
    pub fn push_from_load_by_id(state: &mut State, user_id: TableId, id: TableId, item: EventTemplate)
        ensures
            final(state)@ == old(state)@.without_prepared().after_table_op(user_id, TableOp::<Self>::Upsert(item)),
    {
        state.clear_events(user_id);
        state.apply_table_op(user_id, TableOp::<Self>::Upsert(item));
    }

    /// A refusal to load item `id` of user `user_id` (it is not there): the item is removed from that user's table; prepared events are dropped.
    pub fn push_bad_from_load_by_id(state: &mut State, user_id: TableId, id: TableId, response: LoadBadRequestResponse)
        ensures
            final(state)@ == old(state)@.without_prepared().after_table_op(user_id, TableOp::<Self>::Remove(id)),
    {
        state.clear_events(user_id);
        state.apply_table_op(user_id, TableOp::<Self>::Remove(id));
    }

    /// A reply with all items of user `user_id`: they replace that user's table; prepared events are dropped.
    pub fn push_from_load_all(state: &mut State, user_id: TableId, items: Vec<EventTemplate>)
        ensures
            final(state)@ == old(state)@.without_prepared().after_table_op(user_id, TableOp::<Self>::ReplaceAll(items)),
    {
        state.clear_events(user_id);
        state.apply_table_op(user_id, TableOp::<Self>::ReplaceAll(items));
    }

    /// A refusal to load all items of user `user_id`: the table stays; prepared events are dropped.
    pub fn push_bad_from_load_all(state: &mut State, user_id: TableId)
        ensures
            final(state)@ == old(state)@.without_prepared().after_table_op(user_id, TableOp::<Self>::Keep),
    {
        state.clear_events(user_id);
        state.apply_table_op(user_id, TableOp::<Self>::Keep);
    }

    /// An item of user `user_id` was inserted: all items of that table are asked for again; prepared events are dropped.
    pub fn push_from_insert(state: &mut State, user_id: TableId)
        ensures
            final(state)@ == old(state)@.without_prepared().after_table_op(user_id, TableOp::<Self>::LoadAll),
    {
        state.clear_events(user_id);
        state.apply_table_op(user_id, TableOp::<Self>::LoadAll);
    }

    /// An insertion for user `user_id` was refused: all items of that table are asked for again; prepared events are dropped.
    pub fn push_bad_from_insert(state: &mut State, user_id: TableId)
        ensures
            final(state)@ == old(state)@.without_prepared().after_table_op(user_id, TableOp::<Self>::LoadAll),
    {
        state.clear_events(user_id);
        state.apply_table_op(user_id, TableOp::<Self>::LoadAll);
    }

    /// Item `id` of user `user_id` was updated: it is asked for again; prepared events are dropped.
    pub fn push_from_update(state: &mut State, user_id: TableId, id: TableId)
        ensures
            final(state)@ == old(state)@.without_prepared().after_table_op(user_id, TableOp::<Self>::LoadById(id)),
    {
        state.clear_events(user_id);
        state.apply_table_op(user_id, TableOp::<Self>::LoadById(id));
    }

    /// An update of item `id` of user `user_id` was refused: it is asked for again; prepared events are dropped.
    pub fn push_bad_from_update(state: &mut State, user_id: TableId, id: TableId)
        ensures
            final(state)@ == old(state)@.without_prepared().after_table_op(user_id, TableOp::<Self>::LoadById(id)),
    {
        state.clear_events(user_id);
        state.apply_table_op(user_id, TableOp::<Self>::LoadById(id));
    }

    /// Item `id` of user `user_id` was deleted: it is removed from that user's table; prepared events are dropped.
    pub fn push_from_delete(state: &mut State, user_id: TableId, id: TableId)
        ensures
            final(state)@ == old(state)@.without_prepared().after_table_op(user_id, TableOp::<Self>::Remove(id)),
    {
        state.clear_events(user_id);
        state.apply_table_op(user_id, TableOp::<Self>::Remove(id));
    }

    /// A deletion of item `id` of user `user_id` was refused: it is asked for again; prepared events are dropped.
    pub fn push_bad_from_delete(state: &mut State, user_id: TableId, id: TableId)
        ensures
            final(state)@ == old(state)@.without_prepared().after_table_op(user_id, TableOp::<Self>::LoadById(id)),
    {
        state.clear_events(user_id);
        state.apply_table_op(user_id, TableOp::<Self>::LoadById(id));
    }
}

impl Schedule {
    /// A reply with item `id` of user `user_id`: the item is put into that user's table; prepared events are dropped.
    pub fn push_from_load_by_id(state: &mut State, user_id: TableId, id: TableId, item: Schedule)
        ensures
            final(state)@ == old(state)@.without_prepared().after_table_op(user_id, TableOp::<Self>::Upsert(item)),
    {
        state.clear_events(user_id);
        state.apply_table_op(user_id, TableOp::<Self>::Upsert(item));
    }

    /// A refusal to load item `id` of user `user_id` (it is not there): the item is removed from that user's table; prepared events are dropped.
    pub fn push_bad_from_load_by_id(state: &mut State, user_id: TableId, id: TableId, response: LoadBadRequestResponse)
        ensures
            final(state)@ == old(state)@.without_prepared().after_table_op(user_id, TableOp::<Self>::Remove(id)),
    {
        state.clear_events(user_id);
        state.apply_table_op(user_id, TableOp::<Self>::Remove(id));
    }

    /// A reply with all items of user `user_id`: they replace that user's table; prepared events are dropped.
    pub fn push_from_load_all(state: &mut State, user_id: TableId, items: Vec<Schedule>)
        ensures
            final(state)@ == old(state)@.without_prepared().after_table_op(user_id, TableOp::<Self>::ReplaceAll(items)),
    {
        state.clear_events(user_id);
        state.apply_table_op(user_id, TableOp::<Self>::ReplaceAll(items));
    }

    /// A refusal to load all items of user `user_id`: the table stays; prepared events are dropped.
    pub fn push_bad_from_load_all(state: &mut State, user_id: TableId)
        ensures
            final(state)@ == old(state)@.without_prepared().after_table_op(user_id, TableOp::<Self>::Keep),
    {
        state.clear_events(user_id);
        state.apply_table_op(user_id, TableOp::<Self>::Keep);
    }

    /// An item of user `user_id` was inserted: all items of that table are asked for again; prepared events are dropped.
    pub fn push_from_insert(state: &mut State, user_id: TableId)
        ensures
            final(state)@ == old(state)@.without_prepared().after_table_op(user_id, TableOp::<Self>::LoadAll),
    {
        state.clear_events(user_id);
        state.apply_table_op(user_id, TableOp::<Self>::LoadAll);
    }

    /// An insertion for user `user_id` was refused: all items of that table are asked for again; prepared events are dropped.
    pub fn push_bad_from_insert(state: &mut State, user_id: TableId)
        ensures
            final(state)@ == old(state)@.without_prepared().after_table_op(user_id, TableOp::<Self>::LoadAll),
    {
        state.clear_events(user_id);
        state.apply_table_op(user_id, TableOp::<Self>::LoadAll);
    }

    /// Item `id` of user `user_id` was updated: it is asked for again; prepared events are dropped.
    pub fn push_from_update(state: &mut State, user_id: TableId, id: TableId)
        ensures
            final(state)@ == old(state)@.without_prepared().after_table_op(user_id, TableOp::<Self>::LoadById(id)),
    {
        state.clear_events(user_id);
        state.apply_table_op(user_id, TableOp::<Self>::LoadById(id));
    }

    /// An update of item `id` of user `user_id` was refused: it is asked for again; prepared events are dropped.
    pub fn push_bad_from_update(state: &mut State, user_id: TableId, id: TableId)
        ensures
            final(state)@ == old(state)@.without_prepared().after_table_op(user_id, TableOp::<Self>::LoadById(id)),
    {
        state.clear_events(user_id);
        state.apply_table_op(user_id, TableOp::<Self>::LoadById(id));
    }

    /// Item `id` of user `user_id` was deleted: it is removed from that user's table; prepared events are dropped.
    pub fn push_from_delete(state: &mut State, user_id: TableId, id: TableId)
        ensures
            final(state)@ == old(state)@.without_prepared().after_table_op(user_id, TableOp::<Self>::Remove(id)),
    {
        state.clear_events(user_id);
        state.apply_table_op(user_id, TableOp::<Self>::Remove(id));
    }

    /// A deletion of item `id` of user `user_id` was refused: it is asked for again; prepared events are dropped.
    pub fn push_bad_from_delete(state: &mut State, user_id: TableId, id: TableId)
        ensures
            final(state)@ == old(state)@.without_prepared().after_table_op(user_id, TableOp::<Self>::LoadById(id)),
    {
        state.clear_events(user_id);
        state.apply_table_op(user_id, TableOp::<Self>::LoadById(id));
    }
}

impl GrantedPermission {
    /// A reply with item `id` of user `user_id`: the item is put into that user's table; then granted data is started for new grants, and the users are asked for again; prepared events are dropped.
    pub fn push_from_load_by_id(state: &mut State, user_id: TableId, id: TableId, item: GrantedPermission)
        ensures
            final(state)@ == old(state)@.without_prepared().after_table_op(user_id, TableOp::<Self>::Upsert(item)).with_new_grants(
                user_id,
            ).with_users_refreshed(user_id).queue(
                StateRequest::LoadAll {
                    table: TableKind::Users,
                    user_id: old(state)@.without_prepared().after_table_op(user_id, TableOp::<Self>::Upsert(item)).with_new_grants(
                        user_id,
                    ).with_users_refreshed(user_id).read_state(user_id).users.user_id,
                },
            ),
    {
        state.clear_events(user_id);
        state.apply_table_op(user_id, TableOp::<Self>::Upsert(item));
        state.populate_granted_user_states(user_id);
        let owner = state.get_user_state(user_id).users.user_id();
        state.queue(StateRequest::LoadAll { table: TableKind::Users, user_id: owner });
    }

    /// A refusal to load item `id` of user `user_id` (it is not there): the item is removed from that user's table; prepared events are dropped.
    pub fn push_bad_from_load_by_id(state: &mut State, user_id: TableId, id: TableId, response: LoadBadRequestResponse)
        ensures
            final(state)@ == old(state)@.without_prepared().after_table_op(user_id, TableOp::<Self>::Remove(id)),
    {
        state.clear_events(user_id);
        state.apply_table_op(user_id, TableOp::<Self>::Remove(id));
    }

    /// A reply with all items of user `user_id`: they replace that user's table; then granted data is started for new grants, and the users are asked for again; prepared events are dropped.
    pub fn push_from_load_all(state: &mut State, user_id: TableId, items: Vec<GrantedPermission>)
        ensures
            final(state)@ == old(state)@.without_prepared().after_table_op(user_id, TableOp::<Self>::ReplaceAll(items)).with_new_grants(
                user_id,
            ).with_users_refreshed(user_id).queue(
                StateRequest::LoadAll {
                    table: TableKind::Users,
                    user_id: old(state)@.without_prepared().after_table_op(user_id, TableOp::<Self>::ReplaceAll(items)).with_new_grants(
                        user_id,
                    ).with_users_refreshed(user_id).read_state(user_id).users.user_id,
                },
            ),
    {
        state.clear_events(user_id);
        state.apply_table_op(user_id, TableOp::<Self>::ReplaceAll(items));
        state.populate_granted_user_states(user_id);
        let owner = state.get_user_state(user_id).users.user_id();
        state.queue(StateRequest::LoadAll { table: TableKind::Users, user_id: owner });
    }

    /// A refusal to load all items of user `user_id`: the table stays; prepared events are dropped.
    pub fn push_bad_from_load_all(state: &mut State, user_id: TableId)
        ensures
            final(state)@ == old(state)@.without_prepared().after_table_op(user_id, TableOp::<Self>::Keep),
    {
        state.clear_events(user_id);
        state.apply_table_op(user_id, TableOp::<Self>::Keep);
    }

    /// An item of user `user_id` was inserted: all items of that table are asked for again; prepared events are dropped.
    pub fn push_from_insert(state: &mut State, user_id: TableId)
        ensures
            final(state)@ == old(state)@.without_prepared().after_table_op(user_id, TableOp::<Self>::LoadAll),
    {
        state.clear_events(user_id);
        state.apply_table_op(user_id, TableOp::<Self>::LoadAll);
    }

    /// An insertion for user `user_id` was refused: all items of that table are asked for again; prepared events are dropped.
    pub fn push_bad_from_insert(state: &mut State, user_id: TableId)
        ensures
            final(state)@ == old(state)@.without_prepared().after_table_op(user_id, TableOp::<Self>::LoadAll),
    {
        state.clear_events(user_id);
        state.apply_table_op(user_id, TableOp::<Self>::LoadAll);
    }

    /// Item `id` of user `user_id` was updated: it is asked for again; prepared events are dropped.
    pub fn push_from_update(state: &mut State, user_id: TableId, id: TableId)
        ensures
            final(state)@ == old(state)@.without_prepared().after_table_op(user_id, TableOp::<Self>::LoadById(id)),
    {
        state.clear_events(user_id);
        state.apply_table_op(user_id, TableOp::<Self>::LoadById(id));
    }

    /// An update of item `id` of user `user_id` was refused: it is asked for again; prepared events are dropped.
    pub fn push_bad_from_update(state: &mut State, user_id: TableId, id: TableId)
        ensures
            final(state)@ == old(state)@.without_prepared().after_table_op(user_id, TableOp::<Self>::LoadById(id)),
    {
        state.clear_events(user_id);
        state.apply_table_op(user_id, TableOp::<Self>::LoadById(id));
    }

    /// Item `id` of user `user_id` was deleted: it is removed from that user's table; prepared events are dropped.
    pub fn push_from_delete(state: &mut State, user_id: TableId, id: TableId)
        ensures
            final(state)@ == old(state)@.without_prepared().after_table_op(user_id, TableOp::<Self>::Remove(id)),
    {
        state.clear_events(user_id);
        state.apply_table_op(user_id, TableOp::<Self>::Remove(id));
    }

    /// A deletion of item `id` of user `user_id` was refused: it is asked for again; prepared events are dropped.
    pub fn push_bad_from_delete(state: &mut State, user_id: TableId, id: TableId)
        ensures
            final(state)@ == old(state)@.without_prepared().after_table_op(user_id, TableOp::<Self>::LoadById(id)),
    {
        state.clear_events(user_id);
        state.apply_table_op(user_id, TableOp::<Self>::LoadById(id));
    }
}

impl AccessLevel {
    /// A reply with all access levels of user `user_id`: they replace that user's.
    pub fn push_from_load_all(state: &mut State, user_id: TableId, items: Vec<AccessLevel>)
        ensures
            final(state)@ == old(state)@.after_table_op(user_id, TableOp::<Self>::ReplaceAll(items)),
    {
        state.apply_table_op(user_id, TableOp::<Self>::ReplaceAll(items));
    }

    /// A refusal to load the access levels of user `user_id`: they stay.
    pub fn push_bad_from_load_all(state: &mut State, user_id: TableId)
        ensures
            final(state)@ == old(state)@.after_table_op(user_id, TableOp::<AccessLevel>::Keep),
    {
        state.apply_table_op(user_id, TableOp::<AccessLevel>::Keep);
    }
}

impl Role {
    /// A reply with the roles of user `user_id`: they become the signed-in
    /// user's roles when that is the signed-in user.
    pub fn push_from_load_all(state: &mut State, user_id: TableId, items: Vec<Role>)
        ensures
            final(state)@ == (if old(state)@.me.id == user_id {
                MainStateModel { me: UserView { roles: items@, ..old(state)@.me }, ..old(state)@ }
            } else {
                old(state)@
            }),
    {
        if state.me.id == user_id {
            state.me.roles = items;
            proof {
                assert(state@ =~= MainStateModel {
                    me: UserView { roles: items@, ..old(state)@.me },
                    ..old(state)@
                });
            }
        }
    }

    /// A refusal to load the roles of user `user_id`: the signed-in user has
    /// no roles when that is the signed-in user.
    pub fn push_bad_from_load_all(state: &mut State, user_id: TableId)
        ensures
            final(state)@ == (if old(state)@.me.id == user_id {
                MainStateModel { me: UserView { roles: Seq::empty(), ..old(state)@.me }, ..old(state)@ }
            } else {
                old(state)@
            }),
    {
        if state.me.id == user_id {
            state.me.roles = Vec::new();
            proof {
                assert(state@ =~= MainStateModel {
                    me: UserView { roles: Seq::empty(), ..old(state)@.me },
                    ..old(state)@
                });
            }
        }
    }
}

impl User {
    /// A reply with the users of user `user_id`'s data: for an administrator
    /// they replace all users; otherwise they replace that user's users, and
    /// granted data is started for new grants.
    pub fn push_from_load_all(state: &mut State, user_id: TableId, items: Vec<User>)
        ensures
            final(state)@ == (if old(state)@.is_admin() {
                MainStateModel {
                    admin_users: StateTableView { items: items@, ..old(state)@.admin_users },
                    ..old(state)@
                }
            } else {
                old(state)@.after_table_op(user_id, TableOp::<Self>::ReplaceAll(items)).with_new_grants(
                    user_id,
                ).with_users_refreshed(user_id)
            }),
    {
        if state.me.is_admin() {
            state.admin_state.users.get_table_mut().replace_all(items);
            proof {
                assert(state@ =~= MainStateModel {
                    admin_users: StateTableView { items: items@, ..old(state)@.admin_users },
                    ..old(state)@
                });
            }
        } else {
            state.apply_table_op(user_id, TableOp::<Self>::ReplaceAll(items));
            state.populate_granted_user_states(user_id);
        }
    }

    /// A refusal to load the users of user `user_id`'s data: nothing changes
    /// for an administrator; otherwise that user's users stay.
    pub fn push_bad_from_load_all(state: &mut State, user_id: TableId)
        ensures
            final(state)@ == (if old(state)@.is_admin() {
                old(state)@
            } else {
                old(state)@.after_table_op(user_id, TableOp::<User>::Keep)
            }),
    {
        if !state.me.is_admin() {
            state.apply_table_op(user_id, TableOp::<User>::Keep);
        }
    }
}

impl MainStateModel {
    /// This state with `items` as the items of the table of kind `T` of user
    /// `user_id`'s data (where `user_state_of` finds it).
    pub open spec fn with_table_items<T: UserTable>(self, user_id: TableId, items: Seq<T>) -> MainStateModel {
        let t = self.table_of::<T>(user_id);
        self.with_user_state(
            user_id,
            T::spec_with_table(self.user_state_of(user_id), StateTableView { items, ..t }),
        )
    }

    /// The request that loads the data of whoever signs in as `me`: all users
    /// for an administrator, the own data otherwise.
    pub open spec fn load_state_request(self) -> StateRequest {
        if self.is_admin() {
            StateRequest::LoadAll { table: TableKind::Users, user_id: self.admin_users.user_id }
        } else {
            StateRequest::LoadState { user_id: self.user_state.user_id }
        }
    }

    /// This state with the events prepared for user `user_id`: unchanged
    /// when they are already that user's, else none prepared yet.
    pub open spec fn prepared_for(self, user_id: TableId) -> MainStateModel {
        if self.events_per_day_user_id != user_id {
            MainStateModel { events_per_day_user_id: user_id, events_per_day: Map::empty(), ..self }
        } else {
            self
        }
    }

    /// The events of day `day` of user `user_id`'s data before sorting: the
    /// stored events of that day as a viewer at `level` sees them, then the
    /// events that the schedules at `level` or below plan for it.
    pub open spec fn day_events_of(self, user_id: TableId, level: i32, day: i32) -> Seq<EventView> {
        let us = self.read_state(user_id);
        let events = item_views(us.events.items);
        seen_on_day(events, day, level) + phantom_events(
            events,
            item_views(us.event_templates.items),
            item_views(us.schedules.items),
            day,
            level,
        )
    }
}

/// The granted data that a loaded grant of `user` with `gp` starts.
pub open spec fn granted_of(user: User, gp: GrantedPermission) -> GrantedUserStateView {
    GrantedUserStateView { user: user@, state: UserStateView::fresh(user.id), permissions: gp.permissions }
}

impl State {
    /// Queues `request` for the server.
    pub fn push_request(&mut self, request: StateRequest)
        ensures
            final(self)@ == old(self)@.queue(request),
    {
        self.queue(request);
    }

    /// Queues the request that loads the signed-in user's data: all users
    /// for an administrator, the own data otherwise.
    pub fn load_state(&mut self)
        ensures
            final(self)@ == old(self)@.queue(old(self)@.load_state_request()),
    {
        if self.me.is_admin() {
            let r = self.admin_state.load_state();
            self.queue(r);
        } else {
            let r = self.user_state.load_state();
            self.queue(r);
        }
    }

    /// Someone signed in as `user` with token `jwt`: the token authorizes
    /// the next requests, the own data becomes theirs, and it is asked for.
    pub fn on_logged_in(&mut self, user: User, jwt: String)
        ensures
            final(self)@ == ({
                let s1 = MainStateModel {
                    me: user@,
                    jwt: Some(jwt@),
                    user_state: old(self)@.user_state.with_user_id(user.id),
                    ..old(self)@
                };
                s1.queue(s1.load_state_request())
            }),
    {
        let ghost jv = jwt@;
        self.jwt = Some(jwt);
        let id = user.id;
        self.me = user;
        self.user_state.set_user_id(id);
        self.load_state();
    }

    /// Signs out: the own data and an administrator's data are dropped, nobody
    /// is signed in, and the sign-out is queued.
    pub fn logout(&mut self)
        ensures
            final(self)@ == (MainStateModel {
                me: nobody(),
                user_state: UserStateView::fresh(-1i32),
                admin_users: StateTableView { user_id: -1i32, items: Seq::<User>::empty() },
                admin_users_data: Map::<TableId, UserStateView>::empty(),
                ..old(self)@
            }).queue(StateRequest::Logout),
    {
        self.user_state = UserState::new(-1);
        self.admin_state = AdminState::new();
        self.me = default_user();
        proof {
            assert(self@.me =~= nobody());
            assert(self@.admin_users_data =~= Map::<TableId, UserStateView>::empty());
        }
        self.queue(StateRequest::Logout);
    }

    /// Queues a sign-in with an email and a password.
    pub fn login(&mut self, email: String, password: String)
        ensures
            final(self)@ == old(self)@.queue(StateRequest::Login { email, password }),
    {
        self.queue(StateRequest::Login { email, password });
    }

    /// Queues a sign-in with a saved token.
    pub fn login_by_jwt(&mut self, key: String)
        ensures
            final(self)@ == old(self)@.queue(StateRequest::LoginByJwt { key }),
    {
        self.queue(StateRequest::LoginByJwt { key });
    }

    /// Queues a registration.
    pub fn register(&mut self, name: String, email: String, password: String)
        ensures
            final(self)@ == old(self)@.queue(StateRequest::Register { name, email, password }),
    {
        self.queue(StateRequest::Register { name, email, password });
    }

    /// The events that the schedules of user `user_id`'s data (as read) at
    /// level `access_level` or below put on day `date`.
    pub fn generate_phantom_events(&self, user_id: TableId, access_level: i32, date: Date) -> (r: Vec<Event>)
        requires
            date.days_from_ce <= LAST_EXTENSIBLE_DAY,
        ensures
            item_views(r@) == ({
                let us = self@.read_state(user_id);
                phantom_events(
                    item_views(us.events.items),
                    item_views(us.event_templates.items),
                    item_views(us.schedules.items),
                    date.days_from_ce,
                    access_level,
                )
            }),
    {
        let us = self.get_user_state(user_id);
        planned_events(us.events.items(), us.event_templates.items(), us.schedules.items(), date, access_level)
    }

    /// Prepares the events of day `date` of user `user_id`'s data as a viewer
    /// at `access_level` sees them: when they were prepared for another user,
    /// those are dropped first; when the day is prepared already, nothing
    /// more happens; otherwise the stored events of that day as seen, then
    /// the planned ones, sorted by start (stable), are kept for it.
    pub fn prepare_date(&mut self, user_id: TableId, access_level: i32, date: Date)
        requires
            !old(self)@.prepared_for(user_id).events_per_day.contains_key(date.days_from_ce)
                ==> date.days_from_ce <= LAST_EXTENSIBLE_DAY,
        ensures
            old(self)@.prepared_for(user_id).events_per_day.contains_key(date.days_from_ce)
                ==> final(self)@ == old(self)@.prepared_for(user_id),
            !old(self)@.prepared_for(user_id).events_per_day.contains_key(date.days_from_ce) ==> {
                &&& final(self)@ == (MainStateModel {
                    events_per_day: old(self)@.prepared_for(user_id).events_per_day.insert(
                        date.days_from_ce,
                        final(self)@.events_per_day[date.days_from_ce],
                    ),
                    ..old(self)@.prepared_for(user_id)
                })
                &&& is_stable_sort_by_start(
                    old(self)@.day_events_of(user_id, access_level, date.days_from_ce),
                    final(self)@.events_per_day[date.days_from_ce],
                )
            },
    {
        if self.events_per_day_user_id != user_id {
            self.events_per_day_user_id = user_id;
            self.events_per_day.clear();
            proof {
                assert(self@ =~= old(self)@.prepared_for(user_id));
            }
        }
        let ghost s1 = self@;
        if self.events_per_day.contains_key(&date.days_from_ce) {
            return;
        }
        let us = self.get_user_state(user_id);
        let mut seen = events_seen_on_day(us.events.items(), date, access_level);
        let mut planned = self.generate_phantom_events(user_id, access_level, date);
        proof {
            assert(item_views(seen@ + planned@) =~= item_views(seen@) + item_views(planned@));
        }
        seen.append(&mut planned);
        let sorted = sort_by_start(seen);
        let ghost sorted_views = item_views(sorted@);
        self.events_per_day.insert(date.days_from_ce, sorted);
        proof {
            assert(self@.events_per_day =~= s1.events_per_day.insert(date.days_from_ce, sorted_views));
            assert(self@ =~= MainStateModel {
                events_per_day: s1.events_per_day.insert(date.days_from_ce, sorted_views),
                ..s1
            });
        }
    }

    /// The events prepared for day `date`.
    pub fn get_events_for_date(&self, date: Date) -> (r: &[Event])
        requires
            self@.events_per_day.contains_key(date.days_from_ce),
        ensures
            item_views(r@) == self@.events_per_day[date.days_from_ce],
    {
        match self.events_per_day.get(&date.days_from_ce) {
            Some(v) => v.as_slice(),
            None => {
                assert(false);
                &[]
            },
        }
    }
}

/// The sign-in request of this kind of state.
pub struct LoginRequest {}

impl LoginRequest {
    /// The server signed `user` in with token `jwt`.
    pub fn push_to_state(user: User, jwt: String, state: &mut State)
        ensures
            final(state)@ == ({
                let s1 = MainStateModel {
                    me: user@,
                    jwt: Some(jwt@),
                    user_state: old(state)@.user_state.with_user_id(user.id),
                    ..old(state)@
                };
                s1.queue(s1.load_state_request())
            }),
    {
        state.on_logged_in(user, jwt);
    }
}

/// The sign-in with a saved token of this kind of state.
pub struct LoginByKeyRequest {}

impl LoginByKeyRequest {
    /// The server signed `user` in with token `jwt`.
    pub fn push_to_state(user: User, jwt: String, state: &mut State)
        ensures
            final(state)@ == ({
                let s1 = MainStateModel {
                    me: user@,
                    jwt: Some(jwt@),
                    user_state: old(state)@.user_state.with_user_id(user.id),
                    ..old(state)@
                };
                s1.queue(s1.load_state_request())
            }),
    {
        state.on_logged_in(user, jwt);
    }
}

/// The request for all the data of one user.
pub struct LoadStateRequest {}

impl LoadStateRequest {
    /// The data of user `user_id` came: it replaces the loaded access levels,
    /// events, schedules and event templates of that user's data (where
    /// `get_user_state_mut` finds it), and prepared events are dropped.
    pub fn push_to_state(response: UserStateData, user_id: TableId, state: &mut State)
        ensures
            final(state)@ == old(state)@.with_user_state(
                user_id,
                old(state)@.user_state_of(user_id).with_data(response),
            ).without_prepared(),
    {
        let ghost s0 = state@;
        let mut us = state.swap_user_state(user_id, UserState::new(-1));
        us.replace_data(response);
        let ghost us1 = us@;
        state.swap_user_state(user_id, us);
        proof {
            lemma_with_user_state(s0, user_id, UserStateView::fresh(-1i32), us1);
        }
        state.clear_events(user_id);
    }

    /// The server does not know user `user_id`: an administrator forgets that
    /// user and their data; otherwise prepared events are dropped.
    pub fn push_bad_to_state(response: UserStateBadRequestResponse, user_id: TableId, state: &mut State)
        ensures
            final(state)@ == (if old(state)@.is_admin() {
                MainStateModel {
                    admin_users: StateTableView {
                        items: remove_id(old(state)@.admin_users.items, user_id),
                        ..old(state)@.admin_users
                    },
                    admin_users_data: old(state)@.admin_users_data.remove(user_id),
                    ..old(state)@
                }
            } else {
                old(state)@.without_prepared()
            }),
    {
        if state.me.is_admin() {
            match response {
                UserStateBadRequestResponse::UserNotFound => {
                    state.admin_state.users.get_table_mut().remove_one(user_id);
                    state.admin_state.users_data.remove(&user_id);
                    proof {
                        assert(state@.admin_users_data =~= old(state)@.admin_users_data.remove(user_id));
                        assert(state@ =~= MainStateModel {
                            admin_users: StateTableView {
                                items: remove_id(old(state)@.admin_users.items, user_id),
                                ..old(state)@.admin_users
                            },
                            admin_users_data: old(state)@.admin_users_data.remove(user_id),
                            ..old(state)@
                        });
                    }
                },
            }
        } else {
            state.clear_events(user_id);
        }
    }
}

/// The request for the grants that other users gave.
pub struct LoadGrantedPermissionsRequest {}

impl LoadGrantedPermissionsRequest {
    /// The grants to user `user_id` came, each with its giver: for the
    /// signed-in user, the granted data becomes one fresh data per grant, each
    /// asked for; then the grants replace that user's granted permissions.
    pub fn push_to_state(response: Vec<(User, GrantedPermission)>, user_id: TableId, state: &mut State)
        ensures
            final(state)@ == ({
                let s1 = if user_id == old(state)@.me.id {
                    MainStateModel {
                        granted_states: response@.map_values(
                            |r: (User, GrantedPermission)| granted_of(r.0, r.1),
                        ),
                        outbox: old(state)@.outbox + response@.map_values(
                            |r: (User, GrantedPermission)| StateRequest::LoadState { user_id: r.0.id },
                        ),
                        ..old(state)@
                    }
                } else {
                    old(state)@
                };
                s1.with_table_items(user_id, response@.map_values(|r: (User, GrantedPermission)| r.1))
            }),
    {
        let ghost s0 = state@;
        let ghost pairs = response@;
        if user_id == state.me.id {
            let mut gs: Vec<GrantedUserState> = Vec::new();
            let mut i: usize = 0;
            while i < response.len()
                invariant
                    i <= response@.len(),
                    pairs == response@,
                    state@ == (MainStateModel {
                        outbox: s0.outbox + pairs.take(i as int).map_values(
                            |r: (User, GrantedPermission)| StateRequest::LoadState { user_id: r.0.id },
                        ),
                        ..s0
                    }),
                    granted_views(gs@) == pairs.take(i as int).map_values(
                        |r: (User, GrantedPermission)| granted_of(r.0, r.1),
                    ),
                decreases response@.len() - i,
            {
                let user = response[i].0.clone();
                let g = GrantedUserState::new(user, response[i].1.permissions);
                let request = g.state.load_state();
                proof {
                    assert(pairs.take(i as int + 1) =~= pairs.take(i as int).push(pairs[i as int]));
                }
                let ghost out_before = state@.outbox;
                state.queue(request);
                let ghost gs_before = gs@;
                let ghost gv = g@;
                let ghost pushed = g;
                gs.push(g);
                proof {
                    assert(gv == granted_of(pairs[i as int].0, pairs[i as int].1));
                    assert(granted_views(gs_before.push(pushed)) =~= granted_views(gs_before).push(gv));
                    assert(granted_views(gs@) =~= pairs.take(i as int + 1).map_values(
                        |r: (User, GrantedPermission)| granted_of(r.0, r.1),
                    ));
                    assert(state@.outbox =~= s0.outbox + pairs.take(i as int + 1).map_values(
                        |r: (User, GrantedPermission)| StateRequest::LoadState { user_id: r.0.id },
                    ));
                    assert(state@ =~= MainStateModel {
                        outbox: s0.outbox + pairs.take(i as int + 1).map_values(
                            |r: (User, GrantedPermission)| StateRequest::LoadState { user_id: r.0.id },
                        ),
                        ..s0
                    });
                }
                i = i + 1;
            }
            state.granted_states = gs;
            proof {
                assert(pairs.take(i as int) =~= pairs);
                assert(state@ =~= MainStateModel {
                    granted_states: pairs.map_values(|r: (User, GrantedPermission)| granted_of(r.0, r.1)),
                    outbox: s0.outbox + pairs.map_values(
                        |r: (User, GrantedPermission)| StateRequest::LoadState { user_id: r.0.id },
                    ),
                    ..s0
                });
            }
        }
        let mut perms: Vec<GrantedPermission> = Vec::new();
        let mut k: usize = 0;
        while k < response.len()
            invariant
                k <= response@.len(),
                pairs == response@,
                perms@ == pairs.take(k as int).map_values(|r: (User, GrantedPermission)| r.1),
            decreases response@.len() - k,
        {
            perms.push(response[k].1);
            proof {
                assert(pairs.take(k as int + 1) =~= pairs.take(k as int).push(pairs[k as int]));
                assert(perms@ =~= pairs.take(k as int + 1).map_values(|r: (User, GrantedPermission)| r.1));
            }
            k = k + 1;
        }
        proof {
            assert(pairs.take(k as int) =~= pairs);
        }
        state.apply_table_op(user_id, TableOp::ReplaceAll(perms));
    }

    /// Loading the grants to user `user_id` failed: the granted data is dropped.
    pub fn push_bad_to_state(user_id: TableId, state: &mut State)
        ensures
            final(state)@ == (MainStateModel { granted_states: Seq::empty(), ..old(state)@ }).after_table_op(
                user_id,
                TableOp::<GrantedPermission>::Keep,
            ),
    {
        state.granted_states.clear();
        proof {
            assert(state@ =~= MainStateModel { granted_states: Seq::empty(), ..old(state)@ });
        }
        state.apply_table_op(user_id, TableOp::<GrantedPermission>::Keep);
    }
}

impl State {
    /// The data that changes to user `user_id`'s data go to, for changing:
    /// for an administrator, that user's (created fresh when none is loaded);
    /// otherwise the own data for the signed-in user, the first granted data
    /// of that user, or else the own data.
    pub fn get_user_state_mut(&mut self, user_id: TableId) -> (r: &mut UserState)
        ensures
            r@ == old(self)@.user_state_of(user_id),
            final(self)@ == old(self)@.with_user_state(user_id, final(r)@),
    {
        if self.me.is_admin() {
            self.admin_state.users_data.entry(user_id).or_insert(UserState::new(user_id))
        } else if user_id == self.me.id {
            &mut self.user_state
        } else {
            match position_of_granted(&self.granted_states, user_id) {
                Some(i) => {
                    proof {
                        lemma_granted_index(old(self)@.granted_states, user_id);
                        lemma_granted_unique(
                            old(self)@.granted_states,
                            user_id,
                            i as int,
                            granted_index(old(self)@.granted_states, user_id),
                        );
                    }
                    &mut self.granted_states[i].state
                },
                None => &mut self.user_state,
            }
        }
    }
}

/// After the data of a user is changed, reading that user's data gives the
/// change, and it is where the next change goes.
pub proof fn law_read_after_change(s: MainStateModel, user_id: TableId, us: UserStateView)
    ensures
        s.with_user_state(user_id, us).read_state(user_id) == us,
        s.with_user_state(user_id, us).user_state_of(user_id) == us,
{
    lemma_with_user_state(s, user_id, us, us);
    let s1 = s.with_user_state(user_id, us);
    if !s.is_admin() && user_id != s.me.id && has_granted(s.granted_states, user_id) {
        let i = granted_index(s.granted_states, user_id);
        lemma_granted_index(s.granted_states, user_id);
        assert(s1.granted_states[i].user.id == user_id);
        assert(has_granted(s1.granted_states, user_id));
    }
}

/// What a day holds once prepared for a user: only events of that day,
/// ordered by start, and exactly the events seen on that day and planned for it.
pub proof fn law_prepared_day_of(
    s: MainStateModel,
    user_id: TableId,
    level: i32,
    day: i32,
    prepared: Seq<EventView>,
    x: EventView,
)
    requires
        is_stable_sort_by_start(s.day_events_of(user_id, level, day), prepared),
    ensures
        all_on_day(prepared, day),
        sorted_by_start(prepared),
        prepared.contains(x) <==> s.day_events_of(user_id, level, day).contains(x),
{
    let us = s.read_state(user_id);
    let events = item_views(us.events.items);
    let seen = seen_on_day(events, day, level);
    let planned = phantom_events(
        events,
        item_views(us.event_templates.items),
        item_views(us.schedules.items),
        day,
        level,
    );
    law_seen_on_day_is_on_day(events, day, level);
    law_phantom_events(events, item_views(us.event_templates.items), item_views(us.schedules.items), day, level);
    let all = s.day_events_of(user_id, level, day);
    assert(all == seen + planned);
    law_stable_sort_keeps_events(all, prepared, x);
    assert forall|i: int| 0 <= i < prepared.len() implies #[trigger] prepared[i].start.date.days_from_ce
        == day by {
        law_stable_sort_keeps_events(all, prepared, prepared[i]);
        assert(prepared.contains(prepared[i]));
        let j = choose|j: int| 0 <= j < all.len() && all[j] == prepared[i];
        if j < seen.len() {
            assert(all[j] == seen[j]);
        } else {
            assert(all[j] == planned[j - seen.len()]);
        }
    }
}

/// After a user who is no administrator signs in, the own data is theirs, it
/// is what reading their data gives, everything is allowed on it, and the
/// request that loads it is queued last.
pub proof fn law_sign_in_own_data(s: MainStateModel, user: UserView, jwt: Seq<char>)
    requires
        !is_admin_roles(user.roles),
    ensures
        ({
            let s1 = MainStateModel {
                me: user,
                jwt: Some(jwt),
                user_state: s.user_state.with_user_id(user.id),
                ..s
            };
            let after = s1.queue(s1.load_state_request());
            &&& after.read_state(user.id).user_id == user.id
            &&& after.read_state(user.id).events.user_id == user.id
            &&& after.permissions_of(user.id) == Permissions::spec_full()
            &&& after.outbox.last() == (StateRequest::LoadState { user_id: user.id })
            &&& after.jwt == Some(jwt)
        }),
{
}

/// Granted data is started only for grants to the user whose grants are
/// read, each from one of those grants, and only for givers who had no
/// granted data yet.
pub proof fn law_new_grants(gps: Seq<GrantedPermission>, user_id: TableId, existing: Seq<GrantedUserStateView>)
    ensures
        forall|i: int|
            0 <= i < new_grants(gps, user_id, existing).len() ==> {
                let gp = #[trigger] new_grants(gps, user_id, existing)[i];
                &&& gp.receiver_user_id == user_id
                &&& gps.contains(gp)
                &&& !has_granted(existing, gp.giver_user_id)
            },
    decreases gps.len(),
{
    if gps.len() > 0 {
        let rest = gps.drop_last();
        law_new_grants(rest, user_id, existing);
        let ng = new_grants(gps, user_id, existing);
        let nr = new_grants(rest, user_id, existing);
        assert forall|i: int| 0 <= i < ng.len() implies {
            let gp = #[trigger] ng[i];
            &&& gp.receiver_user_id == user_id
            &&& gps.contains(gp)
            &&& !has_granted(existing, gp.giver_user_id)
        } by {
            if i < nr.len() {
                assert(ng[i] == nr[i]);
                let gp = nr[i];
                assert(rest.contains(gp));
                let j = choose|j: int| 0 <= j < rest.len() && rest[j] == gp;
                assert(gps[j] == gp);
            } else {
                assert(ng[i] == gps.last());
                assert(gps[gps.len() - 1] == gps.last());
            }
        }
    }
}

/// The first user found with an id has that id.
proof fn lemma_first_user(users: Seq<UserView>, id: TableId)
    ensures
        first_user(users, id) matches Some(u) ==> u.id == id,
    decreases users.len(),
{
    if users.len() > 0 && users[0].id != id {
        lemma_first_user(users.drop_first(), id);
    }
}

/// Refreshing users keeps each granted data's user id, state and permissions.
proof fn lemma_refreshed_users(gs: Seq<GrantedUserStateView>, users: Seq<UserView>)
    ensures
        refreshed_users(gs, users).len() == gs.len(),
        forall|i: int|
            0 <= i < gs.len() ==> {
                &&& (#[trigger] refreshed_users(gs, users)[i]).user.id == gs[i].user.id
                &&& refreshed_users(gs, users)[i].state == gs[i].state
                &&& refreshed_users(gs, users)[i].permissions == gs[i].permissions
            },
{
    assert forall|i: int| 0 <= i < gs.len() implies {
        &&& (#[trigger] refreshed_users(gs, users)[i]).user.id == gs[i].user.id
        &&& refreshed_users(gs, users)[i].state == gs[i].state
        &&& refreshed_users(gs, users)[i].permissions == gs[i].permissions
    } by {
        lemma_first_user(users, gs[i].user.id);
    }
}

/// Every grant to user `user_id` whose giver has no granted data yet is among the new grants.
proof fn lemma_new_grants_complete(
    gps: Seq<GrantedPermission>,
    user_id: TableId,
    existing: Seq<GrantedUserStateView>,
    gp: GrantedPermission,
)
    requires
        gps.contains(gp),
        gp.receiver_user_id == user_id,
        !has_granted(existing, gp.giver_user_id),
    ensures
        new_grants(gps, user_id, existing).contains(gp),
    decreases gps.len(),
{
    let rest = gps.drop_last();
    if gps.last() == gp {
        assert(new_grants(gps, user_id, existing).last() == gp);
    } else {
        let j = choose|j: int| 0 <= j < gps.len() && gps[j] == gp;
        assert(j < gps.len() - 1);
        assert(rest[j] == gp);
        lemma_new_grants_complete(rest, user_id, existing, gp);
        let ng = new_grants(rest, user_id, existing);
        let k = choose|k: int| 0 <= k < ng.len() && ng[k] == gp;
        assert(new_grants(gps, user_id, existing)[k] == gp);
    }
}

/// When every grant to user `user_id` has its giver's data started, there are no new grants.
proof fn lemma_no_new_grants(gps: Seq<GrantedPermission>, user_id: TableId, existing: Seq<GrantedUserStateView>)
    requires
        forall|i: int|
            0 <= i < gps.len() && (#[trigger] gps[i]).receiver_user_id == user_id ==> has_granted(
                existing,
                gps[i].giver_user_id,
            ),
    ensures
        new_grants(gps, user_id, existing) == Seq::<GrantedPermission>::empty(),
    decreases gps.len(),
{
    if gps.len() > 0 {
        let rest = gps.drop_last();
        assert forall|i: int|
            0 <= i < rest.len() && (#[trigger] rest[i]).receiver_user_id == user_id implies has_granted(
                existing,
                rest[i].giver_user_id,
            ) by {
            assert(rest[i] == gps[i]);
        }
        lemma_no_new_grants(rest, user_id, existing);
        assert(gps[gps.len() - 1] == gps.last());
    }
}

/// Starting granted data for new grants, a second time right after the
/// first, starts nothing more: every grant to the user then has its giver's
/// data started.
pub proof fn law_populate_twice(s: MainStateModel, user_id: TableId)
    ensures
        ({
            let s1 = s.with_new_grants(user_id).with_users_refreshed(user_id);
            new_grants(
                s1.read_state(user_id).granted_permissions.items,
                user_id,
                s1.granted_states,
            ) == Seq::<GrantedPermission>::empty()
        }),
{
    let gps = s.read_state(user_id).granted_permissions.items;
    let existing = s.granted_states;
    let ng = new_grants(gps, user_id, existing);
    let s0 = s.with_new_grants(user_id);
    let appended = existing + ng.map_values(|gp: GrantedPermission| granted_from(gp));
    assert(s0.granted_states == appended);
    let s1 = s0.with_users_refreshed(user_id);
    lemma_refreshed_users(appended, item_views(s0.read_state(user_id).users.items));
    let g1 = s1.granted_states;
    // Every giver with data before, or of a new grant, has data after.
    assert forall|giver: TableId| has_granted(appended, giver) implies has_granted(g1, giver) by {
        let i = choose|i: int| 0 <= i < appended.len() && #[trigger] appended[i].user.id == giver;
        assert(g1[i].user.id == appended[i].user.id);
    }
    assert forall|giver: TableId| has_granted(existing, giver) implies has_granted(appended, giver) by {
        let i = choose|i: int| 0 <= i < existing.len() && #[trigger] existing[i].user.id == giver;
        assert(appended[i] == existing[i]);
    }
    // The data that is read for the user after starting the new data.
    let after = s1.read_state(user_id);
    if after.granted_permissions.items == gps {
        assert forall|i: int|
            0 <= i < gps.len() && (#[trigger] gps[i]).receiver_user_id == user_id implies has_granted(
                g1,
                gps[i].giver_user_id,
            ) by {
            let gp = gps[i];
            if !has_granted(existing, gp.giver_user_id) {
                assert(gps.contains(gp));
                lemma_new_grants_complete(gps, user_id, existing, gp);
                let k = choose|k: int| 0 <= k < ng.len() && ng[k] == gp;
                assert(appended[existing.len() + k] == granted_from(gp));
                assert(appended[existing.len() + k].user.id == gp.giver_user_id);
                assert(has_granted(appended, gp.giver_user_id));
            }
        }
        lemma_no_new_grants(gps, user_id, g1);
    } else {
        // Only a first granted data of the user started now is read instead,
        // and it holds no grants yet.
        if !s.is_admin() && user_id != s.me.id {
            if has_granted(existing, user_id) {
                lemma_granted_index(existing, user_id);
                let i = granted_index(existing, user_id);
                assert(appended[i] == existing[i]);
                assert forall|j: int| 0 <= j < i implies #[trigger] g1[j].user.id != user_id by {
                    assert(appended[j] == existing[j]);
                }
                assert(is_first_granted(g1, user_id, i));
                lemma_granted_index(g1, user_id);
                lemma_granted_unique(g1, user_id, i, granted_index(g1, user_id));
                assert(false);
            } else if has_granted(g1, user_id) {
                lemma_granted_index(g1, user_id);
                let i = granted_index(g1, user_id);
                if i < existing.len() {
                    assert(appended[i] == existing[i]);
                    assert(has_granted(existing, user_id));
                }
                let k = i - existing.len();
                assert(appended[i] == granted_from(ng[k]));
                assert(after == UserStateView::fresh(ng[k].giver_user_id));
                assert(after.granted_permissions.items.len() == 0);
                assert(after.granted_permissions.items =~= Seq::<GrantedPermission>::empty());
            } else {
                assert(false);
            }
        } else {
            assert(false);
        }
    }
}

} // verus!
