//! The state of the client: the signed-in user, the tables the server sent,
//! the events prepared per day, and the rules by which replies change them.
use crate::calendar::{Date, LAST_EXTENSIBLE_DAY};
use crate::day_events::{
    all_on_day, law_phantom_events, law_seen_on_day_is_on_day, law_stable_sort_keeps_events,
    sorted_by_start, accepted_event, make_accepted_event, events_seen_on_day, is_stable_sort_by_start, phantom_events, planned_events, seen_on_day,
    sort_by_start,
};
use crate::config::Config;
use crate::connector::{
    credentials_view, read_in_all, saves_results, without_response, DbConnector, DbConnectorView,
    OutgoingView,
};
use crate::model::{
    copy_vec, AccessLevel, AccessLevelView, Event, EventTemplate, EventTemplateView, EventView,
    NewEvent, NewEventTemplate, NewEventView, NewPassword, NewSchedule, Schedule, ScheduleView, UpdateEvent,
    UpdateEventTemplate, UpdateSchedule, User, UserInfo, UserInfoView, UserView,
};
use crate::requests::{
    ApiRequest, AppRequestInfo, AppRequestResponse, AppRequestResponseInfo,
    AppRequestResponseView, Credentials, LoadBadRequestResponse, LoginResponse,
    LoginResponseView, RequestDescription, RequestId,
};
use crate::signal::{RequestSignal, StateSignal};
use crate::requests_container::{fresh_request_data, RequestCounterView};
use crate::table::{
    first_key_index, has_key, item_views, lemma_views_by_id, remove_key, upsert_key, DbTable, Keyed, Table,
    TableId,
};
use std::collections::HashMap;
use vstd::prelude::*;

verus! {

broadcast use vstd::std_specs::hash::group_hash_axioms;

/// The connector that the state sends its requests through.
pub type StateConnector = DbConnector<
    AppRequestResponse,
    AppRequestInfo,
    AppRequestResponseInfo,
    (),
>;

/// The state as a value: everything that the operations read and change.
#[verifier::ext_equal]
pub struct StateModel {
    pub connector: DbConnectorView<AppRequestResponse, AppRequestInfo, AppRequestResponseInfo, ()>,
    /// The events prepared for each day, keyed by the day's number.
    pub events_per_day: Map<i32, Seq<EventView>>,
    pub current_access_level: i32,
    pub me: Option<UserInfoView>,
    pub access_levels: Seq<AccessLevelView>,
    pub users: Seq<UserView>,
    pub event_templates: Seq<EventTemplateView>,
    pub events: Seq<EventView>,
    pub schedules: Seq<ScheduleView>,
}

/// The signed-in user's id and key, if someone is signed in.
pub open spec fn credentials_of(me: Option<UserInfoView>) -> Option<(TableId, Seq<u8>)> {
    match me {
        Some(m) => Some((m.user.id, m.key)),
        None => None,
    }
}

/// The view of an optional signed-in user.
pub open spec fn opt_user_info_view(me: Option<UserInfo>) -> Option<UserInfoView> {
    match me {
        Some(m) => Some(m@),
        None => None,
    }
}

/// Whether `s` is ordered by level.
pub open spec fn sorted_by_level(s: Seq<AccessLevelView>) -> bool {
    forall|i: int, j: int| 0 <= i <= j < s.len() ==> s[i].level <= s[j].level
}

/// The access levels of `s` whose level is `level`, in their order.
pub open spec fn with_level(s: Seq<AccessLevelView>, level: i32) -> Seq<AccessLevelView> {
    s.filter(|a: AccessLevelView| a.level == level)
}

/// Whether `r` is `s` sorted by level, with access levels of the same level
/// kept in their order (a stable sort).
pub open spec fn is_stable_sort_by_level(s: Seq<AccessLevelView>, r: Seq<AccessLevelView>) -> bool {
    &&& r.len() == s.len()
    &&& sorted_by_level(r)
    &&& forall|level: i32| #[trigger] with_level(r, level) == with_level(s, level)
}

/// Sorts `levels` by level with the standard library's `sort_by_key`, which is
/// documented to be stable: the result is ordered by level, and access levels
/// of the same level keep their order.
#[verifier::external_body]
fn sort_by_level(levels: &mut Vec<AccessLevel>)
    ensures
        is_stable_sort_by_level(item_views(old(levels)@), item_views(final(levels)@)),
{
    levels.sort_by_key(|l| l.level);
}

impl StateModel {
    /// The id that a request with description `description` gets.
    pub open spec fn next_id_for(self, description: RequestDescription) -> RequestId {
        match description.request_id {
            Some(id) => id,
            None => self.connector.requests.next_request_id,
        }
    }

    /// Whether `n` fresh request ids can still be handed out.
    pub open spec fn can_issue(self, n: int) -> bool {
        self.connector.requests.next_request_id + n <= RequestId::MAX
    }

    /// The state after `request` is registered and queued, signed with the
    /// signed-in user's credentials when `authorized`.
    pub open spec fn issue(
        self,
        authorized: bool,
        request: ApiRequest,
        info: AppRequestInfo,
        description: RequestDescription,
    ) -> StateModel {
        let id = self.next_id_for(description);
        let c = self.connector;
        StateModel {
            connector: DbConnectorView {
                requests: RequestCounterView {
                    next_request_id: if description.request_id is None {
                        (c.requests.next_request_id + 1) as u16
                    } else {
                        c.requests.next_request_id
                    },
                    requests: c.requests.requests.insert(
                        id,
                        fresh_request_data(info, description, None),
                    ),
                },
                outbox: c.outbox.push(
                    OutgoingView {
                        id,
                        credentials: if authorized {
                            credentials_of(self.me)
                        } else {
                            None
                        },
                        request,
                    },
                ),
                ..c
            },
            ..self
        }
    }

    /// `issue` with an authorized request, no item info and the default description.
    pub open spec fn issue_default(self, request: ApiRequest) -> StateModel {
        self.issue(true, request, AppRequestInfo::Empty, RequestDescription { request_id: None, save_results: false })
    }

    /// The state after the requests that load all of the user's data are queued:
    /// access levels, events, roles, event templates and schedules, in that order.
    pub open spec fn load_state(self) -> StateModel {
        self.issue_default(ApiRequest::LoadAccessLevels).issue_default(
            ApiRequest::LoadEvents,
        ).issue_default(ApiRequest::LoadUserRoles).issue_default(
            ApiRequest::LoadEventTemplates,
        ).issue_default(ApiRequest::LoadSchedules)
    }

    /// The state after the events prepared for day `day` are dropped.
    pub open spec fn clear_day(self, day: i32) -> StateModel {
        StateModel { events_per_day: self.events_per_day.remove(day), ..self }
    }

    /// The state after all prepared events are dropped.
    pub open spec fn clear_all_days(self) -> StateModel {
        StateModel { events_per_day: Map::empty(), ..self }
    }

    /// The state after the user signs out: nobody signed in, nothing loaded.
    pub open spec fn signed_out(self) -> StateModel {
        StateModel {
            me: None,
            events_per_day: Map::empty(),
            current_access_level: -1i32,
            access_levels: Seq::empty(),
            users: Seq::empty(),
            event_templates: Seq::empty(),
            events: Seq::empty(),
            schedules: Seq::empty(),
            ..self
        }
    }

    /// The state after a user signs in with `res`.
    pub open spec fn signed_in(self, res: LoginResponseView) -> StateModel {
        StateModel {
            me: Some(UserInfoView { user: res.user, key: res.key, roles: Seq::empty() }),
            current_access_level: res.access_level.level,
            access_levels: seq![res.access_level],
            ..self
        }
    }

    /// How many fresh request ids handling `response` (for a request with `info`) uses.
    pub open spec fn requests_for(response: AppRequestResponseView, info: AppRequestInfo) -> int {
        match response {
            AppRequestResponseView::Login(_) => 5,
            AppRequestResponseView::LoginByKey(_) => 5,
            AppRequestResponseView::NewPassword => 1,
            AppRequestResponseView::InsertEvent => 1,
            AppRequestResponseView::InsertEventTemplate => 1,
            AppRequestResponseView::InsertSchedule => 1,
            AppRequestResponseView::UpdateEvent => if info is UpdateEvent {
                1
            } else {
                0
            },
            AppRequestResponseView::UpdateEventTemplate => if info is UpdateEventTemplate {
                1
            } else {
                0
            },
            AppRequestResponseView::UpdateSchedule => if info is UpdateSchedule {
                1
            } else {
                0
            },
            _ => 0,
        }
    }

    /// Whether handling `response` sends a request signed by the user who was
    /// signed in before (a sign-in reply signs its requests with the new user).
    pub open spec fn needs_signed_in(response: AppRequestResponseView, info: AppRequestInfo) -> bool {
        match response {
            AppRequestResponseView::Login(_) => false,
            AppRequestResponseView::LoginByKey(_) => false,
            _ => Self::requests_for(response, info) > 0,
        }
    }

    /// Whether `new` is the state after `response`, a reply to a request with
    /// `info`, is handled in state `self`.
    pub open spec fn handles(
        self,
        new: StateModel,
        response: AppRequestResponseView,
        info: AppRequestInfo,
    ) -> bool {
        match response {
            AppRequestResponseView::Login(res) => new == self.signed_in(res).load_state(),
            AppRequestResponseView::LoginByKey(res) => new == self.signed_in(res).load_state(),
            AppRequestResponseView::NewPassword => new == self.issue_default(
                ApiRequest::LoadAccessLevels,
            ),
            AppRequestResponseView::LoadAccessLevels(levels) => new == StateModel {
                access_levels: new.access_levels,
                ..self
            } && is_stable_sort_by_level(levels, new.access_levels),
            AppRequestResponseView::LoadUserRoles(roles) => new == match self.me {
                Some(me) => StateModel {
                    me: Some(UserInfoView { roles: roles, ..me }),
                    ..self
                },
                None => self,
            },
            AppRequestResponseView::LoadEvent(event) => new == StateModel {
                events: upsert_key(self.events, event),
                ..self.clear_day(event.start.date.days_from_ce)
            },
            AppRequestResponseView::LoadEventError(LoadBadRequestResponse::NotFound) => new == match info {
                AppRequestInfo::LoadEvent(id) => self.without_event(id),
                _ => self,
            },
            AppRequestResponseView::LoadEvents(events) => new == StateModel {
                events: events,
                ..self.clear_all_days()
            },
            AppRequestResponseView::InsertEvent => new == self.issue_default(ApiRequest::LoadEvents),
            AppRequestResponseView::UpdateEvent => new == match info {
                AppRequestInfo::UpdateEvent(id) => self.issue(
                    true,
                    ApiRequest::LoadEvent { id },
                    AppRequestInfo::LoadEvent(id),
                    RequestDescription { request_id: None, save_results: false },
                ),
                _ => self,
            },
            AppRequestResponseView::DeleteEvent => new == match info {
                AppRequestInfo::DeleteEvent(id) => self.without_event(id),
                _ => self,
            },
            AppRequestResponseView::LoadEventTemplate(template) => new == StateModel {
                event_templates: upsert_key(self.event_templates, template),
                ..self.clear_all_days()
            },
            AppRequestResponseView::LoadEventTemplateError(LoadBadRequestResponse::NotFound) => new
                == match info {
                AppRequestInfo::LoadEventTemplate(id) => StateModel {
                    event_templates: remove_key(self.event_templates, id),
                    ..self
                },
                _ => self,
            },
            AppRequestResponseView::LoadEventTemplates(templates) => new == StateModel {
                event_templates: templates,
                ..self
            },
            AppRequestResponseView::InsertEventTemplate => new == self.issue_default(
                ApiRequest::LoadEventTemplates,
            ),
            AppRequestResponseView::UpdateEventTemplate => new == match info {
                AppRequestInfo::UpdateEventTemplate(id) => self.issue(
                    true,
                    ApiRequest::LoadEventTemplate { id },
                    AppRequestInfo::LoadEventTemplate(id),
                    RequestDescription { request_id: None, save_results: false },
                ),
                _ => self,
            },
            AppRequestResponseView::DeleteEventTemplate => new == match info {
                AppRequestInfo::DeleteEventTemplate(id) => StateModel {
                    event_templates: remove_key(self.event_templates, id),
                    ..self
                },
                _ => self,
            },
            AppRequestResponseView::LoadSchedule(schedule) => new == StateModel {
                schedules: upsert_key(self.schedules, schedule),
                ..self.clear_all_days()
            },
            AppRequestResponseView::LoadScheduleError(LoadBadRequestResponse::NotFound) => new
                == match info {
                AppRequestInfo::LoadSchedule(id) => self.without_schedule(id),
                _ => self,
            },
            AppRequestResponseView::LoadSchedules(schedules) => new == StateModel {
                schedules: schedules,
                ..self.clear_all_days()
            },
            AppRequestResponseView::InsertSchedule => new == self.issue_default(
                ApiRequest::LoadSchedules,
            ),
            AppRequestResponseView::UpdateSchedule => new == match info {
                AppRequestInfo::UpdateSchedule(id) => self.issue(
                    true,
                    ApiRequest::LoadSchedule { id },
                    AppRequestInfo::LoadSchedule(id),
                    RequestDescription { request_id: None, save_results: false },
                ),
                _ => self,
            },
            AppRequestResponseView::DeleteSchedule => new == match info {
                AppRequestInfo::DeleteSchedule(id) => self.without_schedule(id),
                _ => self,
            },
            _ => new == self,
        }
    }

    /// The state without the first event with id `id`, and without the events
    /// prepared for its day (unchanged when there is no such event).
    pub open spec fn without_event(self, id: TableId) -> StateModel {
        if has_key(self.events, id) {
            StateModel {
                events: remove_key(self.events, id),
                ..self.clear_day(
                    self.events[first_key_index(self.events, id)].start.date.days_from_ce,
                )
            }
        } else {
            self
        }
    }

    /// The state without the first schedule with id `id`, and without any
    /// prepared events (unchanged when there is no such schedule).
    pub open spec fn without_schedule(self, id: TableId) -> StateModel {
        if has_key(self.schedules, id) {
            StateModel { schedules: remove_key(self.schedules, id), ..self.clear_all_days() }
        } else {
            self
        }
    }
}

/// The client's state.
pub struct State {
    pub connector: StateConnector,
    /// Has both server and phantom events.
    events_per_day: HashMap<i32, Vec<Event>>,
    current_access_level: i32,
    me: Option<UserInfo>,
    access_levels: Vec<AccessLevel>,
    users: Vec<User>,
    event_templates: Table<EventTemplate>,
    events: Table<Event>,
    schedules: Table<Schedule>,
}

impl View for State {
    type V = StateModel;

    closed spec fn view(&self) -> StateModel {
        StateModel {
            connector: self.connector@,
            events_per_day: self.events_per_day@.map_values(|v: Vec<Event>| item_views(v@)),
            current_access_level: self.current_access_level,
            me: opt_user_info_view(self.me),
            access_levels: item_views(self.access_levels@),
            users: item_views(self.users@),
            event_templates: item_views(self.event_templates@),
            events: item_views(self.events@),
            schedules: item_views(self.schedules@),
        }
    }
}

impl State {
    /// A state with nobody signed in and nothing loaded, talking to the server that `config` names.
    pub fn new(config: &Config) -> (s: Self)
        ensures
            s@.connector.server_url == config.api_url@,
            s@.connector.requests.next_request_id == 0,
            s@.connector.requests.requests.is_empty(),
            s@.connector.outbox == Seq::<OutgoingView>::empty(),
            s@.events_per_day.is_empty(),
            s@.current_access_level == -1,
            s@.me is None,
            s@.access_levels == Seq::<AccessLevelView>::empty(),
            s@.users == Seq::<UserView>::empty(),
            s@.event_templates == Seq::<EventTemplateView>::empty(),
            s@.events == Seq::<EventView>::empty(),
            s@.schedules == Seq::<ScheduleView>::empty(),
    {
        let s = State {
            connector: DbConnector::new(config),
            events_per_day: HashMap::new(),
            current_access_level: -1,
            me: None,
            access_levels: Vec::new(),
            users: Vec::new(),
            event_templates: Table::new(),
            events: Table::new(),
            schedules: Table::new(),
        };
        proof {
            assert(s@.events_per_day =~= Map::<i32, Seq<EventView>>::empty());
            assert(s@.access_levels =~= Seq::<AccessLevelView>::empty());
            assert(s@.users =~= Seq::<UserView>::empty());
            assert(s@.event_templates =~= Seq::<EventTemplateView>::empty());
            assert(s@.events =~= Seq::<EventView>::empty());
            assert(s@.schedules =~= Seq::<ScheduleView>::empty());
        }
        s
    }

    /// The signed-in user's id and key.
    fn credentials(&self) -> (c: Credentials)
        requires
            self@.me is Some,
        ensures
            credentials_view(Some(c)) == credentials_of(self@.me),
    {
        match &self.me {
            Some(me) => Credentials { user_id: me.user.id, key: copy_vec(&me.key) },
            None => {
                assert(false);
                Credentials { user_id: 0, key: Vec::new() }
            },
        }
    }

    /// Registers and queues `request`, signed with the signed-in user's
    /// credentials when `authorized`.
    fn issue(
        &mut self,
        authorized: bool,
        request: ApiRequest,
        info: AppRequestInfo,
        description: RequestDescription,
    ) -> (request_id: RequestId)
        requires
            authorized ==> old(self)@.me is Some,
            description.request_id is None ==> old(self)@.can_issue(1),
        ensures
            request_id == old(self)@.next_id_for(description),
            final(self)@ == old(self)@.issue(authorized, request, info, description),
    {
        let credentials = if authorized {
            Some(self.credentials())
        } else {
            None
        };
        let request_id = self.connector.request(request, credentials, info, description, None);
        proof {
            assert(final(self)@.connector =~= old(self)@.issue(
                authorized,
                request,
                info,
                description,
            ).connector);
        }
        request_id
    }

    /// Drops the events prepared for `date`.
    fn clear_events_for_day(&mut self, date: Date)
        ensures
            final(self)@ == old(self)@.clear_day(date.days_from_ce),
    {
        self.events_per_day.remove(&date.days_from_ce);
        proof {
            assert(self@.events_per_day =~= old(self)@.events_per_day.remove(date.days_from_ce));
            assert(self@ =~= old(self)@.clear_day(date.days_from_ce));
        }
    }

    /// Drops all prepared events.
    fn clear_events(&mut self)
        ensures
            final(self)@ == old(self)@.clear_all_days(),
    {
        self.events_per_day.clear();
        proof {
            assert(self@.events_per_day =~= Map::<i32, Seq<EventView>>::empty());
            assert(self@ =~= old(self)@.clear_all_days());
        }
    }
}


/// The description that the state's own follow-up requests use.
pub open spec fn default_description() -> RequestDescription {
    RequestDescription { request_id: None, save_results: false }
}

impl State {
    /// Queues a request for the signed-in user's access levels.
    pub fn load_access_levels(&mut self, description: RequestDescription) -> (request_id: RequestId)
        requires
            old(self)@.me is Some,
            description.request_id is None ==> old(self)@.can_issue(1),
        ensures
            request_id == old(self)@.next_id_for(description),
            final(self)@ == old(self)@.issue(
                true,
                ApiRequest::LoadAccessLevels,
                AppRequestInfo::Empty,
                description,
            ),
    {
        self.issue(true, ApiRequest::LoadAccessLevels, AppRequestInfo::Empty, description)
    }

    /// Queues a request for the signed-in user's roles.
    pub fn load_user_roles(&mut self, description: RequestDescription) -> (request_id: RequestId)
        requires
            old(self)@.me is Some,
            description.request_id is None ==> old(self)@.can_issue(1),
        ensures
            request_id == old(self)@.next_id_for(description),
            final(self)@ == old(self)@.issue(
                true,
                ApiRequest::LoadUserRoles,
                AppRequestInfo::Empty,
                description,
            ),
    {
        self.issue(true, ApiRequest::LoadUserRoles, AppRequestInfo::Empty, description)
    }

    /// Signs out: queues the sign-out request (signed by the user who leaves),
    /// then forgets the user and everything loaded for them.
    pub fn logout(&mut self, description: RequestDescription) -> (request_id: RequestId)
        requires
            old(self)@.me is Some,
            description.request_id is None ==> old(self)@.can_issue(1),
        ensures
            request_id == old(self)@.next_id_for(description),
            final(self)@ == old(self)@.issue(
                true,
                ApiRequest::Logout,
                AppRequestInfo::Empty,
                description,
            ).signed_out(),
    {
        let credentials = self.credentials();
        self.me = None;
        self.events_per_day.clear();
        self.current_access_level = -1;
        self.access_levels = Vec::new();
        self.users = Vec::new();
        self.event_templates.clear();
        self.events.clear();
        self.schedules.clear();
        proof {
            assert(self@.events_per_day =~= Map::<i32, Seq<EventView>>::empty());
        }
        let request_id = self.connector.request(
            ApiRequest::Logout,
            Some(credentials),
            AppRequestInfo::Empty,
            description,
            None,
        );
        proof {
            assert(final(self)@.connector =~= old(self)@.issue(
                true,
                ApiRequest::Logout,
                AppRequestInfo::Empty,
                description,
            ).connector);
        }
        request_id
    }

    /// Queues a sign-in with a saved key.
    pub fn login_by_key(&mut self, key: Vec<u8>, description: RequestDescription) -> (request_id:
        RequestId)
        requires
            description.request_id is None ==> old(self)@.can_issue(1),
        ensures
            request_id == old(self)@.next_id_for(description),
            final(self)@ == old(self)@.issue(
                false,
                ApiRequest::LoginByKey { user_id: 1, key },
                AppRequestInfo::Empty,
                description,
            ),
    {
        self.issue(false, ApiRequest::LoginByKey { user_id: 1, key }, AppRequestInfo::Empty, description)
    }

    /// Queues a sign-in with an email and a password; its reply is always kept once read.
    pub fn login(&mut self, email: &str, password: &str, description: RequestDescription) -> (request_id:
        RequestId)
        requires
            description.request_id is None ==> old(self)@.can_issue(1),
        ensures
            request_id == old(self)@.next_id_for(description),
            final(self)@ == old(self)@.issue(
                false,
                final(self)@.connector.outbox.last().request,
                AppRequestInfo::Empty,
                RequestDescription { save_results: true, ..description },
            ),
            final(self)@.connector.outbox.last().request matches ApiRequest::Login { email: e, password: p }
                && e@ == email@ && p@ == password@,
    {
        let description = description.save_results();
        let e = email.to_owned();
        let p = password.to_owned();
        let request_id = self.issue(
            false,
            ApiRequest::Login { email: e, password: p },
            AppRequestInfo::Empty,
            description,
        );
        request_id
    }

    /// Queues a registration.
    pub fn register(
        &mut self,
        name: &str,
        email: &str,
        password: &str,
        description: RequestDescription,
    ) -> (request_id: RequestId)
        requires
            description.request_id is None ==> old(self)@.can_issue(1),
        ensures
            request_id == old(self)@.next_id_for(description),
            final(self)@ == old(self)@.issue(
                false,
                final(self)@.connector.outbox.last().request,
                AppRequestInfo::Empty,
                description,
            ),
            final(self)@.connector.outbox.last().request matches ApiRequest::Register {
                name: n,
                email: e,
                password: p,
            } && n@ == name@ && e@ == email@ && p@ == password@,
    {
        let n = name.to_owned();
        let e = email.to_owned();
        let p = password.to_owned();
        self.issue(
            false,
            ApiRequest::Register { name: n, email: e, password: p },
            AppRequestInfo::Empty,
            description,
        )
    }

    /// Queues new viewer and editor passwords for the signed-in user's access level.
    pub fn new_password(
        &mut self,
        access_level: i32,
        viewer: Option<NewPassword>,
        editor: Option<NewPassword>,
        description: RequestDescription,
    ) -> (request_id: RequestId)
        requires
            old(self)@.me is Some,
            description.request_id is None ==> old(self)@.can_issue(1),
        ensures
            request_id == old(self)@.next_id_for(description),
            final(self)@ == old(self)@.issue(
                true,
                ApiRequest::NewPassword {
                    user_id: old(self)@.me->0.user.id,
                    access_level,
                    viewer_password: viewer,
                    editor_password: editor,
                },
                AppRequestInfo::Empty,
                description,
            ),
    {
        let user_id = self.my_id();
        self.issue(
            true,
            ApiRequest::NewPassword {
                user_id,
                access_level,
                viewer_password: viewer,
                editor_password: editor,
            },
            AppRequestInfo::Empty,
            description,
        )
    }

    /// The signed-in user's id.
    fn my_id(&self) -> (id: TableId)
        requires
            self@.me is Some,
        ensures
            id == self@.me->0.user.id,
    {
        match &self.me {
            Some(me) => me.user.id,
            None => {
                assert(false);
                0
            },
        }
    }

    /// Queues a request for event `id`.
    pub fn load_event(&mut self, id: TableId, description: RequestDescription) -> (request_id:
        RequestId)
        requires
            old(self)@.me is Some,
            description.request_id is None ==> old(self)@.can_issue(1),
        ensures
            request_id == old(self)@.next_id_for(description),
            final(self)@ == old(self)@.issue(
                true,
                ApiRequest::LoadEvent { id },
                AppRequestInfo::LoadEvent(id),
                description,
            ),
    {
        self.issue(true, ApiRequest::LoadEvent { id }, AppRequestInfo::LoadEvent(id), description)
    }

    /// Queues a request for all events.
    pub fn load_events(&mut self, description: RequestDescription) -> (request_id: RequestId)
        requires
            old(self)@.me is Some,
            description.request_id is None ==> old(self)@.can_issue(1),
        ensures
            request_id == old(self)@.next_id_for(description),
            final(self)@ == old(self)@.issue(
                true,
                ApiRequest::LoadEvents,
                AppRequestInfo::Empty,
                description,
            ),
    {
        self.issue(true, ApiRequest::LoadEvents, AppRequestInfo::Empty, description)
    }

    /// Queues the insertion of `new_event`; an event for user -1 is made the signed-in user's.
    pub fn insert_event(&mut self, new_event: NewEvent, description: RequestDescription) -> (request_id:
        RequestId)
        requires
            old(self)@.me is Some,
            description.request_id is None ==> old(self)@.can_issue(1),
        ensures
            request_id == old(self)@.next_id_for(description),
            final(self)@ == old(self)@.issue(
                true,
                ApiRequest::InsertEvent(
                    if new_event.user_id == -1 {
                        NewEvent { user_id: old(self)@.me->0.user.id, ..new_event }
                    } else {
                        new_event
                    },
                ),
                AppRequestInfo::Empty,
                description,
            ),
    {
        let mut new_event = new_event;
        if new_event.user_id == -1 {
            new_event.user_id = self.my_id();
        }
        self.issue(true, ApiRequest::InsertEvent(new_event), AppRequestInfo::Empty, description)
    }

    /// Queues the update `upd_event`.
    pub fn update_event(&mut self, upd_event: UpdateEvent, description: RequestDescription) -> (request_id:
        RequestId)
        requires
            old(self)@.me is Some,
            description.request_id is None ==> old(self)@.can_issue(1),
        ensures
            request_id == old(self)@.next_id_for(description),
            final(self)@ == old(self)@.issue(
                true,
                ApiRequest::UpdateEvent(upd_event),
                AppRequestInfo::UpdateEvent(upd_event.id),
                description,
            ),
    {
        let id = upd_event.id;
        self.issue(true, ApiRequest::UpdateEvent(upd_event), AppRequestInfo::UpdateEvent(id), description)
    }

    /// Queues the deletion of event `id`.
    pub fn delete_event(&mut self, id: TableId, description: RequestDescription) -> (request_id:
        RequestId)
        requires
            old(self)@.me is Some,
            description.request_id is None ==> old(self)@.can_issue(1),
        ensures
            request_id == old(self)@.next_id_for(description),
            final(self)@ == old(self)@.issue(
                true,
                ApiRequest::DeleteEvent { id },
                AppRequestInfo::DeleteEvent(id),
                description,
            ),
    {
        self.issue(true, ApiRequest::DeleteEvent { id }, AppRequestInfo::DeleteEvent(id), description)
    }

    /// Queues a request for event template `id`.
    pub fn load_event_template(&mut self, id: TableId, description: RequestDescription) -> (request_id:
        RequestId)
        requires
            old(self)@.me is Some,
            description.request_id is None ==> old(self)@.can_issue(1),
        ensures
            request_id == old(self)@.next_id_for(description),
            final(self)@ == old(self)@.issue(
                true,
                ApiRequest::LoadEventTemplate { id },
                AppRequestInfo::LoadEventTemplate(id),
                description,
            ),
    {
        self.issue(
            true,
            ApiRequest::LoadEventTemplate { id },
            AppRequestInfo::LoadEventTemplate(id),
            description,
        )
    }

    /// Queues a request for all event templates.
    pub fn load_event_templates(&mut self, description: RequestDescription) -> (request_id:
        RequestId)
        requires
            old(self)@.me is Some,
            description.request_id is None ==> old(self)@.can_issue(1),
        ensures
            request_id == old(self)@.next_id_for(description),
            final(self)@ == old(self)@.issue(
                true,
                ApiRequest::LoadEventTemplates,
                AppRequestInfo::Empty,
                description,
            ),
    {
        self.issue(true, ApiRequest::LoadEventTemplates, AppRequestInfo::Empty, description)
    }

    /// Queues the insertion of `new_event_template`; a template for user -1 is
    /// made the signed-in user's.
    pub fn insert_event_template(
        &mut self,
        new_event_template: NewEventTemplate,
        description: RequestDescription,
    ) -> (request_id: RequestId)
        requires
            old(self)@.me is Some,
            description.request_id is None ==> old(self)@.can_issue(1),
        ensures
            request_id == old(self)@.next_id_for(description),
            final(self)@ == old(self)@.issue(
                true,
                ApiRequest::InsertEventTemplate(
                    if new_event_template.user_id == -1 {
                        NewEventTemplate { user_id: old(self)@.me->0.user.id, ..new_event_template }
                    } else {
                        new_event_template
                    },
                ),
                AppRequestInfo::Empty,
                description,
            ),
    {
        let mut new_event_template = new_event_template;
        if new_event_template.user_id == -1 {
            new_event_template.user_id = self.my_id();
        }
        self.issue(
            true,
            ApiRequest::InsertEventTemplate(new_event_template),
            AppRequestInfo::Empty,
            description,
        )
    }

    /// Queues the update `upd_event_template`.
    pub fn update_event_template(
        &mut self,
        upd_event_template: UpdateEventTemplate,
        description: RequestDescription,
    ) -> (request_id: RequestId)
        requires
            old(self)@.me is Some,
            description.request_id is None ==> old(self)@.can_issue(1),
        ensures
            request_id == old(self)@.next_id_for(description),
            final(self)@ == old(self)@.issue(
                true,
                ApiRequest::UpdateEventTemplate(upd_event_template),
                AppRequestInfo::UpdateEventTemplate(upd_event_template.id),
                description,
            ),
    {
        let id = upd_event_template.id;
        self.issue(
            true,
            ApiRequest::UpdateEventTemplate(upd_event_template),
            AppRequestInfo::UpdateEventTemplate(id),
            description,
        )
    }

    /// Queues the deletion of event template `id`.
    pub fn delete_event_template(&mut self, id: TableId, description: RequestDescription) -> (request_id:
        RequestId)
        requires
            old(self)@.me is Some,
            description.request_id is None ==> old(self)@.can_issue(1),
        ensures
            request_id == old(self)@.next_id_for(description),
            final(self)@ == old(self)@.issue(
                true,
                ApiRequest::DeleteEventTemplate { id },
                AppRequestInfo::DeleteEventTemplate(id),
                description,
            ),
    {
        self.issue(
            true,
            ApiRequest::DeleteEventTemplate { id },
            AppRequestInfo::DeleteEventTemplate(id),
            description,
        )
    }

    /// Queues a request for schedule `id`.
    pub fn load_schedule(&mut self, id: TableId, description: RequestDescription) -> (request_id:
        RequestId)
        requires
            old(self)@.me is Some,
            description.request_id is None ==> old(self)@.can_issue(1),
        ensures
            request_id == old(self)@.next_id_for(description),
            final(self)@ == old(self)@.issue(
                true,
                ApiRequest::LoadSchedule { id },
                AppRequestInfo::LoadSchedule(id),
                description,
            ),
    {
        self.issue(true, ApiRequest::LoadSchedule { id }, AppRequestInfo::LoadSchedule(id), description)
    }

    /// Queues a request for all schedules.
    pub fn load_schedules(&mut self, description: RequestDescription) -> (request_id: RequestId)
        requires
            old(self)@.me is Some,
            description.request_id is None ==> old(self)@.can_issue(1),
        ensures
            request_id == old(self)@.next_id_for(description),
            final(self)@ == old(self)@.issue(
                true,
                ApiRequest::LoadSchedules,
                AppRequestInfo::Empty,
                description,
            ),
    {
        self.issue(true, ApiRequest::LoadSchedules, AppRequestInfo::Empty, description)
    }

    /// Queues the insertion of `new_schedule`; a schedule for user -1 is made
    /// the signed-in user's.
    pub fn insert_schedule(&mut self, new_schedule: NewSchedule, description: RequestDescription) -> (request_id:
        RequestId)
        requires
            old(self)@.me is Some,
            description.request_id is None ==> old(self)@.can_issue(1),
        ensures
            request_id == old(self)@.next_id_for(description),
            final(self)@ == old(self)@.issue(
                true,
                ApiRequest::InsertSchedule(
                    if new_schedule.user_id == -1 {
                        NewSchedule { user_id: old(self)@.me->0.user.id, ..new_schedule }
                    } else {
                        new_schedule
                    },
                ),
                AppRequestInfo::Empty,
                description,
            ),
    {
        let mut new_schedule = new_schedule;
        if new_schedule.user_id == -1 {
            new_schedule.user_id = self.my_id();
        }
        self.issue(true, ApiRequest::InsertSchedule(new_schedule), AppRequestInfo::Empty, description)
    }

    /// Queues the update `upd_schedule`.
    pub fn update_schedule(&mut self, upd_schedule: UpdateSchedule, description: RequestDescription) -> (request_id:
        RequestId)
        requires
            old(self)@.me is Some,
            description.request_id is None ==> old(self)@.can_issue(1),
        ensures
            request_id == old(self)@.next_id_for(description),
            final(self)@ == old(self)@.issue(
                true,
                ApiRequest::UpdateSchedule(upd_schedule),
                AppRequestInfo::UpdateSchedule(upd_schedule.id),
                description,
            ),
    {
        let id = upd_schedule.id;
        self.issue(
            true,
            ApiRequest::UpdateSchedule(upd_schedule),
            AppRequestInfo::UpdateSchedule(id),
            description,
        )
    }

    /// Queues the deletion of schedule `id`.
    pub fn delete_schedule(&mut self, id: TableId, description: RequestDescription) -> (request_id:
        RequestId)
        requires
            old(self)@.me is Some,
            description.request_id is None ==> old(self)@.can_issue(1),
        ensures
            request_id == old(self)@.next_id_for(description),
            final(self)@ == old(self)@.issue(
                true,
                ApiRequest::DeleteSchedule { id },
                AppRequestInfo::DeleteSchedule(id),
                description,
            ),
    {
        self.issue(true, ApiRequest::DeleteSchedule { id }, AppRequestInfo::DeleteSchedule(id), description)
    }

    /// Queues the requests that load all of the signed-in user's data.
    fn load_state(&mut self)
        requires
            old(self)@.me is Some,
            old(self)@.can_issue(5),
        ensures
            final(self)@ == old(self)@.load_state(),
    {
        self.load_access_levels(RequestDescription::default());
        self.load_events(RequestDescription::default());
        self.load_user_roles(RequestDescription::default());
        self.load_event_templates(RequestDescription::default());
        self.load_schedules(RequestDescription::default());
    }
}

impl State {
    /// Changes the state by a reply `response` to a request that was sent with `info`.
    pub fn parse_request(&mut self, response: AppRequestResponse, info: AppRequestInfo)
        requires
            StateModel::needs_signed_in(response@, info) ==> old(self)@.me is Some,
            old(self)@.can_issue(StateModel::requests_for(response@, info)),
        ensures
            old(self)@.handles(final(self)@, response@, info),
    {
        match response {
            AppRequestResponse::Login(res) => {
                self.sign_in(res);
            },
            AppRequestResponse::LoginByKey(res) => {
                self.sign_in(res);
            },
            AppRequestResponse::NewPassword => {
                self.load_access_levels(RequestDescription::default());
            },
            AppRequestResponse::LoadAccessLevels(levels) => {
                let mut levels = levels;
                sort_by_level(&mut levels);
                self.access_levels = levels;
            },
            AppRequestResponse::LoadUserRoles(roles) => {
                match &mut self.me {
                    Some(me) => {
                        me.roles = roles;
                    },
                    None => {},
                }
            },
            AppRequestResponse::LoadEvent(event) => {
                self.clear_events_for_day(event.start.date);
                self.put_event(event);
            },
            AppRequestResponse::LoadEventError(LoadBadRequestResponse::NotFound) => {
                match info {
                    AppRequestInfo::LoadEvent(id) => {
                        self.remove_event(id);
                    },
                    _ => {},
                }
            },
            AppRequestResponse::LoadEvents(events) => {
                self.events.replace_all(events);
                self.clear_events();
            },
            AppRequestResponse::InsertEvent => {
                self.load_events(RequestDescription::default());
            },
            AppRequestResponse::UpdateEvent => {
                match info {
                    AppRequestInfo::UpdateEvent(id) => {
                        self.load_event(id, RequestDescription::default());
                    },
                    _ => {},
                }
            },
            AppRequestResponse::DeleteEvent => {
                match info {
                    AppRequestInfo::DeleteEvent(id) => {
                        self.remove_event(id);
                    },
                    _ => {},
                }
            },
            AppRequestResponse::LoadEventTemplate(template) => {
                self.put_event_template(template);
                self.clear_events();
            },
            AppRequestResponse::LoadEventTemplateError(LoadBadRequestResponse::NotFound) => {
                match info {
                    AppRequestInfo::LoadEventTemplate(id) => {
                        self.remove_event_template(id);
                    },
                    _ => {},
                }
            },
            AppRequestResponse::LoadEventTemplates(templates) => {
                self.event_templates.replace_all(templates);
            },
            AppRequestResponse::InsertEventTemplate => {
                self.load_event_templates(RequestDescription::default());
            },
            AppRequestResponse::UpdateEventTemplate => {
                match info {
                    AppRequestInfo::UpdateEventTemplate(id) => {
                        self.load_event_template(id, RequestDescription::default());
                    },
                    _ => {},
                }
            },
            AppRequestResponse::DeleteEventTemplate => {
                match info {
                    AppRequestInfo::DeleteEventTemplate(id) => {
                        self.remove_event_template(id);
                    },
                    _ => {},
                }
            },
            AppRequestResponse::LoadSchedule(schedule) => {
                self.put_schedule(schedule);
                self.clear_events();
            },
            AppRequestResponse::LoadScheduleError(LoadBadRequestResponse::NotFound) => {
                match info {
                    AppRequestInfo::LoadSchedule(id) => {
                        self.remove_schedule(id);
                    },
                    _ => {},
                }
            },
            AppRequestResponse::LoadSchedules(schedules) => {
                self.schedules.replace_all(schedules);
                self.clear_events();
            },
            AppRequestResponse::InsertSchedule => {
                self.load_schedules(RequestDescription::default());
            },
            AppRequestResponse::UpdateSchedule => {
                match info {
                    AppRequestInfo::UpdateSchedule(id) => {
                        self.load_schedule(id, RequestDescription::default());
                    },
                    _ => {},
                }
            },
            AppRequestResponse::DeleteSchedule => {
                match info {
                    AppRequestInfo::DeleteSchedule(id) => {
                        self.remove_schedule(id);
                    },
                    _ => {},
                }
            },
            _ => {},
        }
    }

    /// Signs the user of `res` in and queues the loading of their data.
    fn sign_in(&mut self, res: LoginResponse)
        requires
            old(self)@.can_issue(5),
        ensures
            final(self)@ == old(self)@.signed_in(res@).load_state(),
    {
        let LoginResponse { user, key, access_level } = res;
        self.me = Some(UserInfo { user, key, roles: Vec::new() });
        self.current_access_level = access_level.level;
        self.access_levels = vec![access_level];
        proof {
            assert(self@.access_levels =~= seq![res.access_level@]);
            assert(self@ =~= old(self)@.signed_in(res@));
        }
        self.load_state();
    }

    /// Removes the first event with id `id`, with the events prepared for its day.
    fn remove_event(&mut self, id: TableId)
        ensures
            final(self)@ == old(self)@.without_event(id),
    {
        let ghost events = self.events@;
        proof {
            lemma_views_by_id(events, id, events[0]);
        }
        match self.events.find_item(id) {
            Some(event) => {
                let date = event.start.date;
                proof {
                    crate::table::lemma_first_index_of(events, id);
                    let i = crate::table::first_index_of(events, id);
                    assert(item_views(events)[i] == events[i]@);
                }
                self.clear_events_for_day(date);
                proof {
                    lemma_views_by_id(self.events@, id, events[0]);
                }
                self.events.remove_one(id);
                proof {
                    assert(self@.events == remove_key(old(self)@.events, id));
                    assert(self@.events_per_day == old(self)@.without_event(id).events_per_day);
                    assert(self@ =~= old(self)@.without_event(id));
                }
            },
            None => {},
        }
    }

    /// Removes the first schedule with id `id`, and all prepared events.
    fn remove_schedule(&mut self, id: TableId)
        ensures
            final(self)@ == old(self)@.without_schedule(id),
    {
        let ghost schedules = self.schedules@;
        proof {
            lemma_views_by_id(schedules, id, schedules[0]);
        }
        if self.schedules.remove_one(id).is_some() {
            self.clear_events();
        }
    }

    /// Removes the first event template with id `id`.
    fn remove_event_template(&mut self, id: TableId)
        ensures
            final(self)@ == (StateModel {
                event_templates: remove_key(old(self)@.event_templates, id),
                ..old(self)@
            }),
    {
        let ghost templates = self.event_templates@;
        proof {
            lemma_views_by_id(templates, id, templates[0]);
        }
        self.event_templates.remove_one(id);
    }

    /// Puts `event` in place of the event with its id, or adds it.
    fn put_event(&mut self, event: Event)
        ensures
            final(self)@ == (StateModel { events: upsert_key(old(self)@.events, event@), ..old(self)@ }),
    {
        proof {
            lemma_views_by_id(self.events@, event.id, event);
        }
        self.events.push_one(event);
    }

    /// Puts `template` in place of the event template with its id, or adds it.
    fn put_event_template(&mut self, template: EventTemplate)
        ensures
            final(self)@ == (StateModel {
                event_templates: upsert_key(old(self)@.event_templates, template@),
                ..old(self)@
            }),
    {
        proof {
            lemma_views_by_id(self.event_templates@, template.id, template);
        }
        self.event_templates.push_one(template);
    }

    /// Puts `schedule` in place of the schedule with its id, or adds it.
    fn put_schedule(&mut self, schedule: Schedule)
        ensures
            final(self)@ == (StateModel {
                schedules: upsert_key(old(self)@.schedules, schedule@),
                ..old(self)@
            }),
    {
        proof {
            lemma_views_by_id(self.schedules@, schedule.id, schedule);
        }
        self.schedules.push_one(schedule);
    }
}

/// The register entries of the state's requests.
pub type StateRequests = Map<
    RequestId,
    crate::requests_container::RequestData<
        AppRequestResponse,
        AppRequestInfo,
        AppRequestResponseInfo,
        (),
    >,
>;

impl StateModel {
    /// The state with the register entries `requests`.
    pub open spec fn with_requests(self, requests: StateRequests) -> StateModel {
        StateModel {
            connector: DbConnectorView {
                requests: RequestCounterView { requests, ..self.connector.requests },
                ..self.connector
            },
            ..self
        }
    }

    /// The state after the replies `replies` are read into the register, in order.
    pub open spec fn read_in_replies(self, replies: Seq<(RequestId, AppRequestResponse)>) -> StateModel {
        StateModel {
            connector: DbConnectorView {
                requests: read_in_all(self.connector.requests, replies),
                ..self.connector
            },
            ..self
        }
    }

    /// The state after the reply to request `id` is taken from the register
    /// (or copied, when the request keeps its results).
    pub open spec fn taken(self, id: RequestId) -> StateModel {
        if saves_results(self.connector.requests, id) {
            self
        } else {
            self.with_requests(without_response(self.connector.requests, id))
        }
    }

    /// Whether request `id` is registered and holds a reply.
    pub open spec fn has_reply(self, id: RequestId) -> bool {
        self.connector.requests.requests.contains_key(id)
            && self.connector.requests.requests[id].response is Some
    }

    /// The reply that request `id` holds.
    pub open spec fn reply_of(self, id: RequestId) -> AppRequestResponseView {
        self.connector.requests.requests[id].response->0@
    }

    /// What is remembered of request `id`.
    pub open spec fn info_of(self, id: RequestId) -> AppRequestInfo {
        self.connector.requests.requests[id].info
    }

    /// Whether `next` is the state after the reply to request `id` is taken
    /// and, if there is one, handled.
    pub open spec fn poll_step(self, next: StateModel, id: RequestId) -> bool {
        if self.has_reply(id) {
            self.taken(id).handles(next, self.reply_of(id), self.info_of(id))
        } else {
            next == self.taken(id)
        }
    }

    /// Whether `end` is a state reached from this one by taking and handling
    /// the replies to requests `ids`, in order.
    pub open spec fn poll_run(self, ids: Seq<RequestId>, end: StateModel) -> bool
        decreases ids.len(),
    {
        if ids.len() == 0 {
            end == self
        } else {
            exists|next: StateModel|
                #[trigger] self.poll_step(next, ids[0]) && next.poll_run(ids.drop_first(), end)
        }
    }

    /// Whether the replies to requests `ids` can be taken and handled in
    /// order from this state: a reply that needs a signed-in user finds one,
    /// and there are request ids enough for the follow-up requests.
    pub open spec fn can_poll(self, ids: Seq<RequestId>) -> bool
        decreases ids.len(),
    {
        if ids.len() == 0 {
            true
        } else if self.has_reply(ids[0]) {
            let response = self.reply_of(ids[0]);
            let info = self.info_of(ids[0]);
            &&& (StateModel::needs_signed_in(response, info) ==> self.me is Some)
            &&& self.can_issue(StateModel::requests_for(response, info))
            &&& forall|next: StateModel| #[trigger]
                self.taken(ids[0]).handles(next, response, info) ==> next.can_poll(
                    ids.drop_first(),
                )
        } else {
            self.taken(ids[0]).can_poll(ids.drop_first())
        }
    }
}

impl State {
    /// Reads in the replies that have come, in order, then takes each
    /// request's reply (or a copy, as its description says) and handles it.
    /// Returns the ids of the requests that the replies answer.
    pub fn poll(&mut self, replies: Vec<(RequestId, AppRequestResponse)>) -> (polled: Vec<RequestId>)
        requires
            old(self)@.read_in_replies(replies@).can_poll(
                replies@.map_values(|r: (RequestId, AppRequestResponse)| r.0),
            ),
        ensures
            polled@ == replies@.map_values(|r: (RequestId, AppRequestResponse)| r.0),
            old(self)@.read_in_replies(replies@).poll_run(polled@, final(self)@),
    {
        let ghost replies_view = replies@;
        let polled = self.connector.poll(replies);
        proof {
            assert(self@ =~= old(self)@.read_in_replies(replies_view));
        }
        let ghost start = self@;
        let mut k: usize = 0;
        assert(polled@.skip(0) =~= polled@);
        while k < polled.len()
            invariant
                k <= polled@.len(),
                polled@ == replies_view.map_values(|r: (RequestId, AppRequestResponse)| r.0),
                start == old(self)@.read_in_replies(replies_view),
                self@.can_poll(polled@.skip(k as int)),
                forall|end: StateModel|
                    self@.poll_run(polled@.skip(k as int), end) ==> #[trigger] start.poll_run(
                        polled@,
                        end,
                    ),
            decreases polled@.len() - k,
        {
            let id = polled[k];
            let ghost before = self@;
            let ghost rest = polled@.skip(k as int);
            assert(rest[0] == id);
            assert(rest.drop_first() =~= polled@.skip(k + 1));
            let response = self.connector.get_response(id);
            let info = self.connector.get_request_info(id);
            proof {
                assert(self@ =~= before.taken(id));
            }
            match (response, info) {
                (Some(response), Some(info)) => {
                    proof {
                        assert(before.has_reply(id));
                        assert(response@ == before.reply_of(id));
                        assert(info == before.info_of(id));
                    }
                    self.parse_request(response, info);
                },
                _ => {
                    proof {
                        assert(!before.has_reply(id));
                    }
                },
            }
            proof {
                assert(before.poll_step(self@, id));
                assert forall|end: StateModel|
                    self@.poll_run(polled@.skip(k + 1), end) implies #[trigger] start.poll_run(
                        polled@,
                        end,
                    ) by {
                    assert(before.poll_run(rest, end));
                }
            }
            k = k + 1;
        }
        proof {
            assert(polled@.skip(k as int) =~= Seq::<RequestId>::empty());
            assert(self@.poll_run(polled@.skip(k as int), self@));
        }
        polled
    }

    /// Hands over the requests queued for sending, in the order they were queued.
    pub fn take_outgoing_requests(&mut self) -> (r: Vec<crate::requests::OutgoingRequest>)
        ensures
            crate::connector::outgoing_views(r@) == old(self)@.connector.outbox,
            final(self)@ == (StateModel {
                connector: DbConnectorView { outbox: Seq::empty(), ..old(self)@.connector },
                ..old(self)@
            }),
    {
        let r = self.connector.take_outgoing();
        proof {
            assert(self@.connector =~= DbConnectorView { outbox: Seq::empty(), ..old(self)@.connector });
        }
        r
    }
}

/// The first access level of `ls` that has edit rights, if any.
pub open spec fn first_editor(ls: Seq<AccessLevelView>) -> Option<AccessLevelView>
    decreases ls.len(),
{
    if ls.len() == 0 {
        None
    } else {
        match first_editor(ls.drop_last()) {
            Some(a) => Some(a),
            None => if ls.last().edit_rights {
                Some(ls.last())
            } else {
                None
            },
        }
    }
}

/// Appending an access level changes the first editor only where there was none.
pub proof fn lemma_first_editor_push(ls: Seq<AccessLevelView>, x: AccessLevelView)
    ensures
        first_editor(ls.push(x)) == (match first_editor(ls) {
            Some(a) => Some(a),
            None => if x.edit_rights {
                Some(x)
            } else {
                None
            },
        }),
{
    assert(ls.push(x).drop_last() =~= ls);
}

/// The access level in use when the current level is `level`: among the
/// access levels of that level, the only one, or else the first with edit
/// rights, or else the first; when there is none of that level, the last of all.
pub open spec fn chosen_access_level(s: Seq<AccessLevelView>, level: i32) -> AccessLevelView {
    let ls = with_level(s, level);
    if ls.len() == 0 {
        s.last()
    } else if ls.len() == 1 {
        ls[0]
    } else {
        match first_editor(ls) {
            Some(a) => a,
            None => ls[0],
        }
    }
}

/// Filtering one more item of a sequence adds it at the end when it passes.
pub proof fn lemma_filter_take_succ<A>(s: Seq<A>, pred: spec_fn(A) -> bool, i: int)
    requires
        0 <= i < s.len(),
    ensures
        s.take(i + 1).filter(pred) == (if pred(s[i]) {
            s.take(i).filter(pred).push(s[i])
        } else {
            s.take(i).filter(pred)
        }),
{
    reveal(Seq::filter);
    assert(s.take(i + 1).drop_last() =~= s.take(i));
    assert(s.take(i + 1).last() == s[i]);
}

impl StateModel {
    /// The access level in use.
    pub open spec fn access_level(self) -> AccessLevelView {
        chosen_access_level(self.access_levels, self.current_access_level)
    }

    /// The events of day `day` before sorting: the stored events of that day as
    /// seen at the level in use, then the events that schedules plan for it.
    pub open spec fn day_events(self, day: i32) -> Seq<EventView> {
        let level = self.access_level().level;
        seen_on_day(self.events, day, level) + phantom_events(
            self.events,
            self.event_templates,
            self.schedules,
            day,
            level,
        )
    }
}

impl State {
    /// The access level in use: among the access levels of the current level,
    /// the only one, or else the first with edit rights, or else the first;
    /// when there is none of that level, the last of all.
    pub fn get_access_level(&self) -> (r: AccessLevel)
        requires
            self@.access_levels.len() > 0,
        ensures
            r@ == self@.access_level(),
    {
        let levels = &self.access_levels;
        let level = self.current_access_level;
        let ghost s = self@.access_levels;
        let ghost pred = |a: AccessLevelView| a.level == level;
        let mut count: usize = 0;
        let mut first_match: usize = 0;
        let mut editor: Option<usize> = None;
        let mut i: usize = 0;
        assert(s.take(0).filter(pred) =~= Seq::<AccessLevelView>::empty()) by {
            reveal(Seq::filter);
        }
        while i < levels.len()
            invariant
                i <= levels@.len(),
                s == item_views(levels@),
                level == self.current_access_level,
                pred == (|a: AccessLevelView| a.level == level),
                count == s.take(i as int).filter(pred).len(),
                count > 0 ==> first_match < i && s[first_match as int] == s.take(i as int).filter(
                    pred,
                )[0],
                match editor {
                    Some(j) => j < i && first_editor(s.take(i as int).filter(pred)) == Some(
                        s[j as int],
                    ),
                    None => first_editor(s.take(i as int).filter(pred)) is None,
                },
            decreases levels@.len() - i,
        {
            proof {
                lemma_filter_take_succ(s, pred, i as int);
                lemma_first_editor_push(s.take(i as int).filter(pred), s[i as int]);
            }
            let a = &levels[i];
            assert(s[i as int] == a@);
            if a.level == level {
                if count == 0 {
                    first_match = i;
                }
                if editor.is_none() && a.edit_rights {
                    editor = Some(i);
                }
                count = count + 1;
            }
            i = i + 1;
        }
        proof {
            assert(s.take(i as int) =~= s);
        }
        if count == 0 {
            levels[levels.len() - 1].clone()
        } else if count == 1 {
            levels[first_match].clone()
        } else {
            match editor {
                Some(j) => levels[j].clone(),
                None => levels[first_match].clone(),
            }
        }
    }

    /// Looks at the calendar at access level `new_access_level`; prepared events are dropped.
    pub fn change_access_level(&mut self, new_access_level: i32)
        ensures
            final(self)@ == (StateModel {
                current_access_level: new_access_level,
                ..old(self)@.clear_all_days()
            }),
    {
        self.current_access_level = new_access_level;
        self.clear_events();
    }

    /// Prepares the events of day `date`, unless they are prepared already: the
    /// stored events of that day as seen at the level in use, then the events
    /// that schedules plan for that day, sorted by start (stable).
    pub fn prepare_date(&mut self, date: Date)
        requires
            !old(self)@.events_per_day.contains_key(date.days_from_ce) ==> {
                &&& old(self)@.access_levels.len() > 0
                &&& date.days_from_ce <= LAST_EXTENSIBLE_DAY
            },
        ensures
            old(self)@.events_per_day.contains_key(date.days_from_ce) ==> final(self)@ == old(
                self,
            )@,
            !old(self)@.events_per_day.contains_key(date.days_from_ce) ==> {
                &&& final(self)@ == (StateModel {
                    events_per_day: old(self)@.events_per_day.insert(
                        date.days_from_ce,
                        final(self)@.events_per_day[date.days_from_ce],
                    ),
                    ..old(self)@
                })
                &&& is_stable_sort_by_start(
                    old(self)@.day_events(date.days_from_ce),
                    final(self)@.events_per_day[date.days_from_ce],
                )
            },
    {
        if self.events_per_day.contains_key(&date.days_from_ce) {
            return;
        }
        let level = self.get_access_level().level;
        let events = self.events.get();
        let mut seen = events_seen_on_day(events, date, level);
        let mut planned = planned_events(
            events,
            self.event_templates.get(),
            self.schedules.get(),
            date,
            level,
        );
        proof {
            self.events.lemma_items_are_view();
            self.event_templates.lemma_items_are_view();
            self.schedules.lemma_items_are_view();
            assert(item_views(seen@ + planned@) =~= item_views(seen@) + item_views(planned@));
        }
        seen.append(&mut planned);
        let sorted = sort_by_start(seen);
        let ghost sorted_views = item_views(sorted@);
        self.events_per_day.insert(date.days_from_ce, sorted);
        proof {
            assert(self@.events_per_day =~= old(self)@.events_per_day.insert(
                date.days_from_ce,
                sorted_views,
            ));
            assert(self@ =~= StateModel {
                events_per_day: old(self)@.events_per_day.insert(date.days_from_ce, sorted_views),
                ..old(self)@
            });
        }
    }

    /// The events prepared for day `date`.
    pub fn get_events_for_date(&self, date: Date) -> (r: &[Event])
        requires
            self@.events_per_day.contains_key(date.days_from_ce),
        ensures
            item_views(r@) == self@.events_per_day[date.days_from_ce],
    {
        match self.events_per_day.get(&date.days_from_ce) {
            Some(v) => v.as_slice(),
            None => {
                assert(false);
                &[]
            },
        }
    }

    /// Prepares the events of day `date` if they are not prepared yet, and gives them.
    pub fn get_prepared_events_for_date(&mut self, date: Date) -> (r: &[Event])
        requires
            !old(self)@.events_per_day.contains_key(date.days_from_ce) ==> {
                &&& old(self)@.access_levels.len() > 0
                &&& date.days_from_ce <= LAST_EXTENSIBLE_DAY
            },
        ensures
            old(self)@.events_per_day.contains_key(date.days_from_ce) ==> final(self)@ == old(
                self,
            )@,
            !old(self)@.events_per_day.contains_key(date.days_from_ce) ==> {
                &&& final(self)@ == (StateModel {
                    events_per_day: old(self)@.events_per_day.insert(
                        date.days_from_ce,
                        final(self)@.events_per_day[date.days_from_ce],
                    ),
                    ..old(self)@
                })
                &&& is_stable_sort_by_start(
                    old(self)@.day_events(date.days_from_ce),
                    final(self)@.events_per_day[date.days_from_ce],
                )
            },
            item_views(r@) == final(self)@.events_per_day[date.days_from_ce],
    {
        self.prepare_date(date);
        self.get_events_for_date(date)
    }

    /// The signed-in user, if any.
    pub fn get_me(&self) -> (r: &Option<UserInfo>)
        ensures
            opt_user_info_view(*r) == self@.me,
    {
        &self.me
    }

    /// The signed-in user's access levels, ordered by level once loaded.
    pub fn get_access_levels(&self) -> (r: &Vec<AccessLevel>)
        ensures
            item_views(r@) == self@.access_levels,
    {
        &self.access_levels
    }

    /// The users known to the state.
    pub fn get_users(&self) -> (r: &Vec<User>)
        ensures
            item_views(r@) == self@.users,
    {
        &self.users
    }

    /// The event templates.
    pub fn get_event_templates(&self) -> (r: &Vec<EventTemplate>)
        ensures
            item_views(r@) == self@.event_templates,
    {
        proof {
            self.event_templates.lemma_items_are_view();
        }
        self.event_templates.get()
    }

    /// The events.
    pub fn get_events(&self) -> (r: &Vec<Event>)
        ensures
            item_views(r@) == self@.events,
    {
        proof {
            self.events.lemma_items_are_view();
        }
        self.events.get()
    }

    /// The schedules.
    pub fn get_schedules(&self) -> (r: &Vec<Schedule>)
        ensures
            item_views(r@) == self@.schedules,
    {
        proof {
            self.schedules.lemma_items_are_view();
        }
        self.schedules.get()
    }
}

impl StateModel {
    /// Whether the state can act on `signal`: a request that is signed has a
    /// signed-in user to sign it, a fresh request id is left where one is
    /// taken, and an accepted event ends within the range of days. Accepting a
    /// plan that is not there (or whose template is not) asks nothing.
    pub open spec fn can_take(self, signal: StateSignal) -> bool {
        match signal {
            StateSignal::ChangeAccessLevel(_) => true,
            StateSignal::RequestSignal(d, sig) => {
                let fresh = d.request_id is None ==> self.can_issue(1);
                match sig {
                    RequestSignal::Login(..) => fresh,
                    RequestSignal::Register(..) => fresh,
                    RequestSignal::AcceptScheduledEvent(date, plan_id) => accepted_event(
                        self.event_templates,
                        self.schedules,
                        date,
                        plan_id,
                    ) is Some ==> {
                        &&& fresh
                        &&& self.me is Some
                        &&& date.days_from_ce <= LAST_EXTENSIBLE_DAY
                    },
                    _ => fresh && self.me is Some,
                }
            },
        }
    }
}

impl State {
    /// Acts on what the user interface asks: changes the access level in use,
    /// or queues the request that the signal names, handled as its description
    /// says. Accepting a plan queues the insertion of the event that the plan's
    /// schedule and template describe, for the signed-in user; nothing happens
    /// when the plan or the template is missing.
    pub fn parse_signal(&mut self, signal: StateSignal)
        requires
            old(self)@.can_take(signal),
        ensures
            match signal {
                StateSignal::ChangeAccessLevel(level) => final(self)@ == (StateModel {
                    current_access_level: level,
                    ..old(self)@.clear_all_days()
                }),
                StateSignal::RequestSignal(d, sig) => match sig {
                    RequestSignal::Login(email, password) => {
                        &&& final(self)@ == old(self)@.issue(
                            false,
                            final(self)@.connector.outbox.last().request,
                            AppRequestInfo::Empty,
                            RequestDescription { save_results: true, ..d },
                        )
                        &&& final(self)@.connector.outbox.last().request matches ApiRequest::Login {
                            email: e,
                            password: p,
                        } && e@ == email@ && p@ == password@
                    },
                    RequestSignal::Register(name, email, password) => {
                        &&& final(self)@ == old(self)@.issue(
                            false,
                            final(self)@.connector.outbox.last().request,
                            AppRequestInfo::Empty,
                            d,
                        )
                        &&& final(self)@.connector.outbox.last().request matches ApiRequest::Register {
                            name: n,
                            email: e,
                            password: p,
                        } && n@ == name@ && e@ == email@ && p@ == password@
                    },
                    RequestSignal::InsertEvent(n) => final(self)@ == old(self)@.issue(
                        true,
                        ApiRequest::InsertEvent(
                            if n.user_id == -1 {
                                NewEvent { user_id: old(self)@.me->0.user.id, ..n }
                            } else {
                                n
                            },
                        ),
                        AppRequestInfo::Empty,
                        d,
                    ),
                    RequestSignal::UpdateEvent(u) => final(self)@ == old(self)@.issue(
                        true,
                        ApiRequest::UpdateEvent(u),
                        AppRequestInfo::UpdateEvent(u.id),
                        d,
                    ),
                    RequestSignal::DeleteEvent(id) => final(self)@ == old(self)@.issue(
                        true,
                        ApiRequest::DeleteEvent { id },
                        AppRequestInfo::DeleteEvent(id),
                        d,
                    ),
                    RequestSignal::InsertEventTemplate(n) => final(self)@ == old(self)@.issue(
                        true,
                        ApiRequest::InsertEventTemplate(
                            if n.user_id == -1 {
                                NewEventTemplate { user_id: old(self)@.me->0.user.id, ..n }
                            } else {
                                n
                            },
                        ),
                        AppRequestInfo::Empty,
                        d,
                    ),
                    RequestSignal::UpdateEventTemplate(u) => final(self)@ == old(self)@.issue(
                        true,
                        ApiRequest::UpdateEventTemplate(u),
                        AppRequestInfo::UpdateEventTemplate(u.id),
                        d,
                    ),
                    RequestSignal::DeleteEventTemplate(id) => final(self)@ == old(self)@.issue(
                        true,
                        ApiRequest::DeleteEventTemplate { id },
                        AppRequestInfo::DeleteEventTemplate(id),
                        d,
                    ),
                    RequestSignal::InsertSchedule(n) => final(self)@ == old(self)@.issue(
                        true,
                        ApiRequest::InsertSchedule(
                            if n.user_id == -1 {
                                NewSchedule { user_id: old(self)@.me->0.user.id, ..n }
                            } else {
                                n
                            },
                        ),
                        AppRequestInfo::Empty,
                        d,
                    ),
                    RequestSignal::UpdateSchedule(u) => final(self)@ == old(self)@.issue(
                        true,
                        ApiRequest::UpdateSchedule(u),
                        AppRequestInfo::UpdateSchedule(u.id),
                        d,
                    ),
                    RequestSignal::DeleteSchedule(id) => final(self)@ == old(self)@.issue(
                        true,
                        ApiRequest::DeleteSchedule { id },
                        AppRequestInfo::DeleteSchedule(id),
                        d,
                    ),
                    RequestSignal::InsertPassword(level, viewer, editor) => final(self)@ == old(
                        self,
                    )@.issue(
                        true,
                        ApiRequest::NewPassword {
                            user_id: old(self)@.me->0.user.id,
                            access_level: level,
                            viewer_password: viewer,
                            editor_password: editor,
                        },
                        AppRequestInfo::Empty,
                        d,
                    ),
                    RequestSignal::AcceptScheduledEvent(date, plan_id) => match accepted_event(
                        old(self)@.event_templates,
                        old(self)@.schedules,
                        date,
                        plan_id,
                    ) {
                        Some(n) => {
                            &&& final(self)@ == old(self)@.issue(
                                true,
                                final(self)@.connector.outbox.last().request,
                                AppRequestInfo::Empty,
                                d,
                            )
                            &&& final(self)@.connector.outbox.last().request matches ApiRequest::InsertEvent(
                                e,
                            ) && e@ == (NewEventView { user_id: old(self)@.me->0.user.id, ..n })
                        },
                        None => final(self)@ == old(self)@,
                    },
                },
            },
    {
        match signal {
            StateSignal::ChangeAccessLevel(level) => {
                self.change_access_level(level);
            },
            StateSignal::RequestSignal(description, sig) => match sig {
                RequestSignal::Login(email, password) => {
                    self.login(email.as_str(), password.as_str(), description);
                },
                RequestSignal::Register(name, email, password) => {
                    self.register(name.as_str(), email.as_str(), password.as_str(), description);
                },
                RequestSignal::InsertEvent(n) => {
                    self.insert_event(n, description);
                },
                RequestSignal::UpdateEvent(u) => {
                    self.update_event(u, description);
                },
                RequestSignal::DeleteEvent(id) => {
                    self.delete_event(id, description);
                },
                RequestSignal::InsertEventTemplate(n) => {
                    self.insert_event_template(n, description);
                },
                RequestSignal::UpdateEventTemplate(u) => {
                    self.update_event_template(u, description);
                },
                RequestSignal::DeleteEventTemplate(id) => {
                    self.delete_event_template(id, description);
                },
                RequestSignal::InsertSchedule(n) => {
                    self.insert_schedule(n, description);
                },
                RequestSignal::UpdateSchedule(u) => {
                    self.update_schedule(u, description);
                },
                RequestSignal::DeleteSchedule(id) => {
                    self.delete_schedule(id, description);
                },
                RequestSignal::InsertPassword(level, viewer, editor) => {
                    self.new_password(level, viewer, editor, description);
                },
                RequestSignal::AcceptScheduledEvent(date, plan_id) => {
                    proof {
                        self.event_templates.lemma_items_are_view();
                        self.schedules.lemma_items_are_view();
                    }
                    let accepted = make_accepted_event(
                        self.event_templates.get(),
                        self.schedules.get(),
                        date,
                        plan_id,
                    );
                    match accepted {
                        Some(n) => {
                            let ghost id = self@.me->0.user.id;
                            self.insert_event(n, description);
                            assert(final(self)@.connector.outbox.last().request == ApiRequest::InsertEvent(
                                NewEvent { user_id: id, ..n },
                            ));
                        },
                        None => {},
                    }
                },
            },
        }
    }
}


/// The first editor of a list of access levels is one of them and has edit
/// rights, and there is one whenever some access level has edit rights.
pub proof fn lemma_first_editor(ls: Seq<AccessLevelView>)
    ensures
        first_editor(ls) matches Some(a) ==> ls.contains(a) && a.edit_rights,
        (exists|i: int| 0 <= i < ls.len() && #[trigger] ls[i].edit_rights) ==> first_editor(ls) is Some,
    decreases ls.len(),
{
    if ls.len() > 0 {
        let rest = ls.drop_last();
        lemma_first_editor(rest);
        match first_editor(rest) {
            Some(a) => {
                let j = choose|j: int| 0 <= j < rest.len() && rest[j] == a;
                assert(ls[j] == a);
            },
            None => {
                if exists|i: int| 0 <= i < ls.len() && #[trigger] ls[i].edit_rights {
                    let i = choose|i: int| 0 <= i < ls.len() && #[trigger] ls[i].edit_rights;
                    if i < rest.len() {
                        assert(rest[i] == ls[i]);
                    }
                }
                assert(ls[ls.len() - 1] == ls.last());
            },
        }
    }
}

/// The access level in use is one of the user's access levels; it has the
/// current level whenever one of them has it; and among several of that
/// level, it has edit rights whenever one of them has.
pub proof fn law_chosen_access_level(s: Seq<AccessLevelView>, level: i32)
    requires
        s.len() > 0,
    ensures
        s.contains(chosen_access_level(s, level)),
        (exists|i: int| 0 <= i < s.len() && #[trigger] s[i].level == level) ==> chosen_access_level(
            s,
            level,
        ).level == level,
        with_level(s, level).len() > 1 && (exists|i: int|
            0 <= i < with_level(s, level).len() && #[trigger] with_level(s, level)[i].edit_rights)
            ==> chosen_access_level(s, level).edit_rights,
{
    let pred = |a: AccessLevelView| a.level == level;
    let ls = with_level(s, level);
    assert(ls == s.filter(pred));
    assert(s[s.len() - 1] == s.last());
    if exists|i: int| 0 <= i < s.len() && #[trigger] s[i].level == level {
        let i = choose|i: int| 0 <= i < s.len() && #[trigger] s[i].level == level;
        s.lemma_filter_contains(pred, i);
    }
    if ls.len() > 0 {
        s.lemma_filter_contains_rev(pred, ls[0]);
        assert(ls.contains(ls[0]));
        s.lemma_filter_pred(pred, 0);
        lemma_first_editor(ls);
        match first_editor(ls) {
            Some(a) => {
                s.lemma_filter_contains_rev(pred, a);
                let j = choose|j: int| 0 <= j < ls.len() && ls[j] == a;
                s.lemma_filter_pred(pred, j);
            },
            None => {},
        }
    }
}

/// Whether every registered request of the state has an id below the next
/// fresh one.
pub open spec fn ids_below_next(s: StateModel) -> bool {
    forall|id: RequestId|
        #[trigger] s.connector.requests.requests.contains_key(id) ==> id < s.connector.requests.next_request_id
}

/// A request issued without a chosen id gets one that no registered request
/// has, and every registered id stays below the next fresh one.
pub proof fn law_issued_ids_are_fresh(
    s: StateModel,
    authorized: bool,
    request: ApiRequest,
    info: AppRequestInfo,
    description: RequestDescription,
)
    requires
        ids_below_next(s),
        description.request_id is None,
        s.can_issue(1),
    ensures
        !s.connector.requests.requests.contains_key(s.next_id_for(description)),
        ids_below_next(s.issue(authorized, request, info, description)),
        s.issue(authorized, request, info, description).connector.requests.next_request_id
            == s.connector.requests.next_request_id + 1,
{
}

/// A new state has no registered request.
pub proof fn law_new_state_ids(s: StateModel)
    requires
        s.connector.requests.requests.is_empty(),
    ensures
        ids_below_next(s),
{
}

/// What a day holds once prepared: only events of that day, ordered by start,
/// and exactly the events seen on that day and planned for it.
pub proof fn law_prepared_day(s: StateModel, day: i32, prepared: Seq<EventView>, x: EventView)
    requires
        is_stable_sort_by_start(s.day_events(day), prepared),
    ensures
        all_on_day(prepared, day),
        sorted_by_start(prepared),
        prepared.contains(x) <==> s.day_events(day).contains(x),
{
    let level = s.access_level().level;
    let seen = seen_on_day(s.events, day, level);
    let planned = phantom_events(s.events, s.event_templates, s.schedules, day, level);
    law_seen_on_day_is_on_day(s.events, day, level);
    law_phantom_events(s.events, s.event_templates, s.schedules, day, level);
    let all = s.day_events(day);
    assert(all == seen + planned);
    law_stable_sort_keeps_events(all, prepared, x);
    assert forall|i: int| 0 <= i < prepared.len() implies #[trigger] prepared[i].start.date.days_from_ce
        == day by {
        law_stable_sort_keeps_events(all, prepared, prepared[i]);
        assert(prepared.contains(prepared[i]));
        let j = choose|j: int| 0 <= j < all.len() && all[j] == prepared[i];
        if j < seen.len() {
            assert(all[j] == seen[j]);
        } else {
            assert(all[j] == planned[j - seen.len()]);
        }
    }
}

/// Handling a sign-in reply signs the user in at the level the reply names,
/// and queues, signed with the new user's credentials, the requests that load
/// the access levels, the events, the roles, the event templates and the
/// schedules, in that order.
pub proof fn law_sign_in_loads_everything(
    s: StateModel,
    new: StateModel,
    res: LoginResponseView,
    info: AppRequestInfo,
)
    requires
        s.handles(new, AppRequestResponseView::Login(res), info),
    ensures
        new.me == Some(UserInfoView { user: res.user, key: res.key, roles: Seq::empty() }),
        new.current_access_level == res.access_level.level,
        new.access_levels == seq![res.access_level],
        new.connector.outbox.len() == s.connector.outbox.len() + 5,
        new.connector.outbox.subrange(0, s.connector.outbox.len() as int) == s.connector.outbox,
        forall|k: int|
            s.connector.outbox.len() <= k < new.connector.outbox.len() ==> #[trigger] new.connector.outbox[k].credentials
                == Some((res.user.id, res.key)),
        new.connector.outbox[s.connector.outbox.len() as int].request == ApiRequest::LoadAccessLevels,
        new.connector.outbox[s.connector.outbox.len() + 1int].request == ApiRequest::LoadEvents,
        new.connector.outbox[s.connector.outbox.len() + 2int].request == ApiRequest::LoadUserRoles,
        new.connector.outbox[s.connector.outbox.len() + 3int].request == ApiRequest::LoadEventTemplates,
        new.connector.outbox[s.connector.outbox.len() + 4int].request == ApiRequest::LoadSchedules,
{
    let n = s.connector.outbox.len() as int;
    assert(new.connector.outbox.subrange(0, n) =~= s.connector.outbox);
}

/// Whether handling `response` (to a request with `info`) sends a request
/// signed by the user who was signed in before.
pub fn reply_needs_signed_in(response: &AppRequestResponse, info: &AppRequestInfo) -> (r: bool)
    ensures
        r == StateModel::needs_signed_in(response@, *info),
{
    match response {
        AppRequestResponse::Login(_) => false,
        AppRequestResponse::LoginByKey(_) => false,
        _ => reply_request_count(response, info) > 0,
    }
}

/// How many fresh request ids handling `response` (to a request with `info`) uses.
pub fn reply_request_count(response: &AppRequestResponse, info: &AppRequestInfo) -> (n: u16)
    ensures
        n == StateModel::requests_for(response@, *info),
{
    match response {
        AppRequestResponse::Login(_) => 5,
        AppRequestResponse::LoginByKey(_) => 5,
        AppRequestResponse::NewPassword => 1,
        AppRequestResponse::InsertEvent => 1,
        AppRequestResponse::InsertEventTemplate => 1,
        AppRequestResponse::InsertSchedule => 1,
        AppRequestResponse::UpdateEvent => match info {
            AppRequestInfo::UpdateEvent(_) => 1,
            _ => 0,
        },
        AppRequestResponse::UpdateEventTemplate => match info {
            AppRequestInfo::UpdateEventTemplate(_) => 1,
            _ => 0,
        },
        AppRequestResponse::UpdateSchedule => match info {
            AppRequestInfo::UpdateSchedule(_) => 1,
            _ => 0,
        },
        _ => 0,
    }
}

impl State {
    /// Handles `response` (to a request with `info`) when it can be: when a
    /// follow-up request it sends finds someone to sign it, and fresh request
    /// ids are left for its follow-up requests. Says whether it was handled;
    /// when not, nothing changes.
    pub fn try_parse_request(&mut self, response: AppRequestResponse, info: AppRequestInfo) -> (handled: bool)
        ensures
            handled == ((StateModel::needs_signed_in(response@, info) ==> old(self)@.me is Some)
                && old(self)@.can_issue(StateModel::requests_for(response@, info))),
            handled ==> old(self)@.handles(final(self)@, response@, info),
            !handled ==> final(self)@ == old(self)@,
    {
        let needs = reply_needs_signed_in(&response, &info);
        let count = reply_request_count(&response, &info);
        let next = self.connector.next_request_id();
        if needs && self.me.is_none() {
            return false;
        }
        if count > RequestId::MAX - next {
            return false;
        }
        self.parse_request(response, info);
        true
    }

    /// Reads in the replies that have come, in order, then takes each
    /// request's reply (or a copy, as its description says) and handles it
    /// when it can be (see `try_parse_request`). Returns the ids of the
    /// requests that the replies answer, and of those whose replies were left
    /// unhandled.
    pub fn poll_checked(&mut self, replies: Vec<(RequestId, AppRequestResponse)>) -> (r: (
        Vec<RequestId>,
        Vec<RequestId>,
    ))
        ensures
            r.0@ == replies@.map_values(|p: (RequestId, AppRequestResponse)| p.0),
            forall|i: int| 0 <= i < r.1@.len() ==> r.0@.contains(#[trigger] r.1@[i]),
            old(self)@.read_in_replies(replies@).checked_run(r.0@, final(self)@),
    {
        let ghost replies_view = replies@;
        let polled = self.connector.poll(replies);
        proof {
            assert(self@ =~= old(self)@.read_in_replies(replies_view));
        }
        let ghost start = self@;
        let mut unhandled: Vec<RequestId> = Vec::new();
        let mut k: usize = 0;
        assert(polled@.skip(0) =~= polled@);
        while k < polled.len()
            invariant
                k <= polled@.len(),
                polled@ == replies_view.map_values(|r: (RequestId, AppRequestResponse)| r.0),
                start == old(self)@.read_in_replies(replies_view),
                forall|i: int| 0 <= i < unhandled@.len() ==> polled@.contains(#[trigger] unhandled@[i]),
                forall|end: StateModel|
                    self@.checked_run(polled@.skip(k as int), end) ==> #[trigger] start.checked_run(
                        polled@,
                        end,
                    ),
            decreases polled@.len() - k,
        {
            let id = polled[k];
            let ghost before = self@;
            let ghost rest = polled@.skip(k as int);
            assert(rest[0] == id);
            assert(rest.drop_first() =~= polled@.skip(k + 1));
            let response = self.connector.get_response(id);
            let info = self.connector.get_request_info(id);
            proof {
                assert(self@ =~= before.taken(id));
            }
            match (response, info) {
                (Some(response), Some(info)) => {
                    proof {
                        assert(before.has_reply(id));
                        assert(response@ == before.reply_of(id));
                        assert(info == before.info_of(id));
                    }
                    if !self.try_parse_request(response, info) {
                        assert(polled@[k as int] == id);
                        unhandled.push(id);
                    }
                },
                _ => {
                    proof {
                        assert(!before.has_reply(id));
                    }
                },
            }
            proof {
                assert(before.checked_step(self@, id));
                assert forall|end: StateModel|
                    self@.checked_run(polled@.skip(k + 1), end) implies #[trigger] start.checked_run(
                        polled@,
                        end,
                    ) by {
                    assert(before.checked_run(rest, end));
                }
            }
            k = k + 1;
        }
        proof {
            assert(polled@.skip(k as int) =~= Seq::<RequestId>::empty());
            assert(self@.checked_run(polled@.skip(k as int), self@));
        }
        (polled, unhandled)
    }
}

impl StateModel {
    /// Whether the reply that request `id` holds in this state can be
    /// handled once taken: a follow-up request it sends finds someone to
    /// sign it, and fresh request ids are left for its follow-up requests.
    pub open spec fn can_handle(self, id: RequestId) -> bool {
        let response = self.reply_of(id);
        let info = self.info_of(id);
        &&& (StateModel::needs_signed_in(response, info) ==> self.me is Some)
        &&& self.can_issue(StateModel::requests_for(response, info))
    }

    /// Whether `next` is the state after the reply to request `id` is taken
    /// and, when there is one that can be handled, handled.
    pub open spec fn checked_step(self, next: StateModel, id: RequestId) -> bool {
        if self.has_reply(id) && self.can_handle(id) {
            self.taken(id).handles(next, self.reply_of(id), self.info_of(id))
        } else {
            next == self.taken(id)
        }
    }

    /// Whether `end` is a state reached from this one by taking the replies
    /// to requests `ids`, in order, and handling those that can be handled.
    pub open spec fn checked_run(self, ids: Seq<RequestId>, end: StateModel) -> bool
        decreases ids.len(),
    {
        if ids.len() == 0 {
            end == self
        } else {
            exists|next: StateModel|
                #[trigger] self.checked_step(next, ids[0]) && next.checked_run(ids.drop_first(), end)
        }
    }
}

/// The first value of `s` with id `id` is the one at `k` when `k` holds that
/// id and no value before it does.
proof fn lemma_first_key_at<V: crate::table::Keyed>(s: Seq<V>, id: TableId, k: int)
    requires
        0 <= k < s.len(),
        s[k].key() == id,
        forall|j: int| 0 <= j < k ==> s[j].key() != id,
    ensures
        has_key(s, id),
        first_key_index(s, id) == k,
{
    assert(crate::table::is_first_key(s, id, k));
    let f = first_key_index(s, id);
    assert(crate::table::is_first_key(s, id, f));
    if f < k {
        assert(s[f].key() != id);
    } else if k < f {
        assert(s[k].key() != id);
    }
}

/// A reply that confirms the deletion of schedule `x` removes from the
/// schedules the first one with id `x` (the others stay, in order) and drops
/// all prepared days, so its planned events disappear; nothing else changes.
/// When no schedule has id `x`, nothing changes.
pub proof fn law_delete_schedule_reply(old: StateModel, new: StateModel, x: TableId)
    requires
        old.handles(new, AppRequestResponseView::DeleteSchedule, AppRequestInfo::DeleteSchedule(x)),
    ensures
        forall|k: int|
            #![trigger old.schedules[k]]
            0 <= k < old.schedules.len() && old.schedules[k].id == x && (forall|j: int|
                0 <= j < k ==> old.schedules[j].id != x) ==> new == (StateModel {
                schedules: old.schedules.remove(k),
                events_per_day: Map::empty(),
                ..old
            }),
        (forall|k: int| 0 <= k < old.schedules.len() ==> #[trigger] old.schedules[k].id != x) ==> new
            == old,
{
    assert forall|k: int|
        #![trigger old.schedules[k]]
        0 <= k < old.schedules.len() && old.schedules[k].id == x && (forall|j: int|
            0 <= j < k ==> old.schedules[j].id != x) implies new == (StateModel {
        schedules: old.schedules.remove(k),
        events_per_day: Map::empty(),
        ..old
    }) by {
        assert forall|j: int| 0 <= j < k implies old.schedules[j].key() != x by {}
        lemma_first_key_at(old.schedules, x, k);
        assert(new.events_per_day =~= Map::<i32, Seq<EventView>>::empty());
    }
    if forall|k: int| 0 <= k < old.schedules.len() ==> #[trigger] old.schedules[k].id != x {
        if has_key(old.schedules, x) {
            let i = choose|i: int| 0 <= i < old.schedules.len() && #[trigger] old.schedules[i].key() == x;
            assert(old.schedules[i].id != x);
        }
    }
}

/// A reply that confirms the deletion of event template `x` removes from the
/// templates the first one with id `x` (the others stay, in order); nothing
/// else changes. When no template has id `x`, nothing changes.
pub proof fn law_delete_event_template_reply(old: StateModel, new: StateModel, x: TableId)
    requires
        old.handles(new, AppRequestResponseView::DeleteEventTemplate, AppRequestInfo::DeleteEventTemplate(x)),
    ensures
        forall|k: int|
            #![trigger old.event_templates[k]]
            0 <= k < old.event_templates.len() && old.event_templates[k].id == x && (forall|j: int|
                0 <= j < k ==> old.event_templates[j].id != x) ==> new == (StateModel {
                event_templates: old.event_templates.remove(k),
                ..old
            }),
        (forall|k: int| 0 <= k < old.event_templates.len() ==> #[trigger] old.event_templates[k].id != x)
            ==> new == old,
{
    assert forall|k: int|
        #![trigger old.event_templates[k]]
        0 <= k < old.event_templates.len() && old.event_templates[k].id == x && (forall|j: int|
            0 <= j < k ==> old.event_templates[j].id != x) implies new == (StateModel {
        event_templates: old.event_templates.remove(k),
        ..old
    }) by {
        assert forall|j: int| 0 <= j < k implies old.event_templates[j].key() != x by {}
        lemma_first_key_at(old.event_templates, x, k);
    }
    if forall|k: int| 0 <= k < old.event_templates.len() ==> #[trigger] old.event_templates[k].id != x {
        if has_key(old.event_templates, x) {
            let i = choose|i: int|
                0 <= i < old.event_templates.len() && #[trigger] old.event_templates[i].key() == x;
            assert(old.event_templates[i].id != x);
        }
    }
}

/// A reply that confirms the deletion of event `x` removes from the events
/// the first one with id `x` (the others stay, in order) and drops the
/// prepared events of its day; other days and everything else stay. When no
/// event has id `x`, nothing changes.
pub proof fn law_delete_event_reply(old: StateModel, new: StateModel, x: TableId)
    requires
        old.handles(new, AppRequestResponseView::DeleteEvent, AppRequestInfo::DeleteEvent(x)),
    ensures
        forall|k: int|
            #![trigger old.events[k]]
            0 <= k < old.events.len() && old.events[k].id == x && (forall|j: int|
                0 <= j < k ==> old.events[j].id != x) ==> new == (StateModel {
                events: old.events.remove(k),
                events_per_day: old.events_per_day.remove(old.events[k].start.date.days_from_ce),
                ..old
            }),
        (forall|k: int| 0 <= k < old.events.len() ==> #[trigger] old.events[k].id != x) ==> new == old,
{
    assert forall|k: int|
        #![trigger old.events[k]]
        0 <= k < old.events.len() && old.events[k].id == x && (forall|j: int|
            0 <= j < k ==> old.events[j].id != x) implies new == (StateModel {
        events: old.events.remove(k),
        events_per_day: old.events_per_day.remove(old.events[k].start.date.days_from_ce),
        ..old
    }) by {
        assert forall|j: int| 0 <= j < k implies old.events[j].key() != x by {}
        lemma_first_key_at(old.events, x, k);
    }
    if forall|k: int| 0 <= k < old.events.len() ==> #[trigger] old.events[k].id != x {
        if has_key(old.events, x) {
            let i = choose|i: int| 0 <= i < old.events.len() && #[trigger] old.events[i].key() == x;
            assert(old.events[i].id != x);
        }
    }
}

} // verus!
