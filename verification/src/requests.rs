//! The requests that the client sends to the calendar server, and the replies
//! it gets back.
use crate::model::{
    copy_items, copy_string, copy_vec, AccessLevel, AccessLevelView, Event, EventTemplate,
    EventTemplateView, EventView, NewEvent, NewEventTemplate, NewPassword, NewSchedule, Role,
    Schedule, ScheduleView, UpdateEvent, UpdateEventTemplate, UpdateSchedule, User, UserView,
};
use crate::request_parser::FromResponse;
use crate::table::{item_views, TableId};
use vstd::prelude::*;

verus! {

/// The number by which a request is told apart from the others in flight.
pub type RequestId = u16;

/// How the client wants a request handled.
#[derive(Clone, Copy, Debug, PartialEq, Eq, Structural)]
pub struct RequestDescription {
    /// The id to give the request; a fresh one is reserved when there is none.
    pub request_id: Option<RequestId>,
    /// Keep the reply once read (it is handed out as a copy), instead of handing it over.
    pub save_results: bool,
}

impl Default for RequestDescription {
    fn default() -> (r: Self)
        ensures
            r.request_id is None,
            !r.save_results,
    {
        RequestDescription { request_id: None, save_results: false }
    }
}

impl RequestDescription {
    /// A description with a fresh id whose reply is handed over once read.
    pub fn new() -> (r: Self)
        ensures
            r.request_id is None,
            !r.save_results,
    {
        RequestDescription { request_id: None, save_results: false }
    }

    /// The same description, with the reply kept once read.
    pub fn save_results(self) -> (r: Self)
        ensures
            r.request_id == self.request_id,
            r.save_results,
    {
        RequestDescription { request_id: self.request_id, save_results: true }
    }

    /// The same description, with the request given the id `request_id`.
    pub fn with_request_id(self, request_id: RequestId) -> (r: Self)
        ensures
            r.request_id == Some(request_id),
            r.save_results == self.save_results,
    {
        RequestDescription { request_id: Some(request_id), save_results: self.save_results }
    }
}

/// What the server answers to a successful sign-in.
#[derive(Debug)]
pub struct LoginResponse {
    pub user: User,
    pub key: Vec<u8>,
    pub access_level: AccessLevel,
}

/// A sign-in answer, with its texts as characters.
pub struct LoginResponseView {
    pub user: UserView,
    pub key: Seq<u8>,
    pub access_level: AccessLevelView,
}

impl View for LoginResponse {
    type V = LoginResponseView;

    open spec fn view(&self) -> LoginResponseView {
        LoginResponseView { user: self.user@, key: self.key@, access_level: self.access_level@ }
    }
}

impl Clone for LoginResponse {
    fn clone(&self) -> (r: Self)
        ensures
            r@ == self@,
    {
        LoginResponse {
            user: self.user.clone(),
            key: copy_vec(&self.key),
            access_level: self.access_level.clone(),
        }
    }
}

/// Why the server refused a sign-in.
#[derive(Clone, Copy, Debug, PartialEq, Eq, Structural)]
pub enum LoginBadRequestResponse {
    UserNotFound,
    WrongPassword,
}

/// Why the server refused a registration.
#[derive(Clone, Copy, Debug, PartialEq, Eq, Structural)]
pub enum RegisterBadRequestResponse {
    EmailAlreadyUsed,
}

/// Why the server could not load an item by its id.
#[derive(Clone, Copy, Debug, PartialEq, Eq, Structural)]
pub enum LoadBadRequestResponse {
    NotFound,
}

/// Why the server could not load a user's data.
#[derive(Clone, Copy, Debug, PartialEq, Eq, Structural)]
pub enum UserStateBadRequestResponse {
    UserNotFound,
}

/// All the data of one user, as the server sends it in one reply.
#[derive(Debug)]
pub struct UserStateData {
    pub access_levels: Vec<AccessLevel>,
    pub events: Vec<Event>,
    pub schedules: Vec<Schedule>,
    pub event_templates: Vec<EventTemplate>,
}

/// All the data of one user, with texts as characters.
pub struct UserStateDataView {
    pub access_levels: Seq<AccessLevelView>,
    pub events: Seq<EventView>,
    pub schedules: Seq<ScheduleView>,
    pub event_templates: Seq<EventTemplateView>,
}

impl View for UserStateData {
    type V = UserStateDataView;

    open spec fn view(&self) -> UserStateDataView {
        UserStateDataView {
            access_levels: item_views(self.access_levels@),
            events: item_views(self.events@),
            schedules: item_views(self.schedules@),
            event_templates: item_views(self.event_templates@),
        }
    }
}

impl Clone for UserStateData {
    fn clone(&self) -> (r: Self)
        ensures
            r@ == self@,
    {
        UserStateData {
            access_levels: copy_items(&self.access_levels),
            events: copy_items(&self.events),
            schedules: copy_items(&self.schedules),
            event_templates: copy_items(&self.event_templates),
        }
    }
}

/// A reply of the server, read into the value it carries.
#[derive(Debug)]
pub enum AppRequestResponse {
    Login(LoginResponse),
    LoginError(LoginBadRequestResponse),
    LoginByKey(LoginResponse),
    Register,
    RegisterError(RegisterBadRequestResponse),
    NewPassword,
    LoadUserIds(Vec<TableId>),
    LoadUser(User),
    LoadUserError(LoadBadRequestResponse),
    LoadUsers(Vec<User>),
    LoadUserState(UserStateData),
    LoadUserStateError(UserStateBadRequestResponse),
    LoadAccessLevels(Vec<AccessLevel>),
    LoadUserRoles(Vec<Role>),
    LoadEvent(Event),
    LoadEventError(LoadBadRequestResponse),
    LoadEvents(Vec<Event>),
    InsertEvent,
    UpdateEvent,
    DeleteEvent,
    LoadEventTemplate(EventTemplate),
    LoadEventTemplateError(LoadBadRequestResponse),
    LoadEventTemplates(Vec<EventTemplate>),
    InsertEventTemplate,
    UpdateEventTemplate,
    DeleteEventTemplate,
    LoadSchedule(Schedule),
    LoadScheduleError(LoadBadRequestResponse),
    LoadSchedules(Vec<Schedule>),
    InsertSchedule,
    UpdateSchedule,
    DeleteSchedule,
    /// A reply that carries nothing to act on.
    Empty,
    /// A reply with an unexpected status: the status code and the body as text.
    Error(u16, String),
}

/// A reply of the server, with texts as characters.
pub enum AppRequestResponseView {
    Login(LoginResponseView),
    LoginError(LoginBadRequestResponse),
    LoginByKey(LoginResponseView),
    Register,
    RegisterError(RegisterBadRequestResponse),
    NewPassword,
    LoadUserIds(Seq<TableId>),
    LoadUser(UserView),
    LoadUserError(LoadBadRequestResponse),
    LoadUsers(Seq<UserView>),
    LoadUserState(UserStateDataView),
    LoadUserStateError(UserStateBadRequestResponse),
    LoadAccessLevels(Seq<AccessLevelView>),
    LoadUserRoles(Seq<Role>),
    LoadEvent(EventView),
    LoadEventError(LoadBadRequestResponse),
    LoadEvents(Seq<EventView>),
    InsertEvent,
    UpdateEvent,
    DeleteEvent,
    LoadEventTemplate(EventTemplateView),
    LoadEventTemplateError(LoadBadRequestResponse),
    LoadEventTemplates(Seq<EventTemplateView>),
    InsertEventTemplate,
    UpdateEventTemplate,
    DeleteEventTemplate,
    LoadSchedule(ScheduleView),
    LoadScheduleError(LoadBadRequestResponse),
    LoadSchedules(Seq<ScheduleView>),
    InsertSchedule,
    UpdateSchedule,
    DeleteSchedule,
    Empty,
    Error(u16, Seq<char>),
}

impl View for AppRequestResponse {
    type V = AppRequestResponseView;

    open spec fn view(&self) -> AppRequestResponseView {
        match self {
            AppRequestResponse::Login(r) => AppRequestResponseView::Login(r@),
            AppRequestResponse::LoginError(r) => AppRequestResponseView::LoginError(*r),
            AppRequestResponse::LoginByKey(r) => AppRequestResponseView::LoginByKey(r@),
            AppRequestResponse::Register => AppRequestResponseView::Register,
            AppRequestResponse::RegisterError(r) => AppRequestResponseView::RegisterError(*r),
            AppRequestResponse::NewPassword => AppRequestResponseView::NewPassword,
            AppRequestResponse::LoadUserIds(ids) => AppRequestResponseView::LoadUserIds(ids@),
            AppRequestResponse::LoadUser(u) => AppRequestResponseView::LoadUser(u@),
            AppRequestResponse::LoadUserError(r) => AppRequestResponseView::LoadUserError(*r),
            AppRequestResponse::LoadUsers(us) => AppRequestResponseView::LoadUsers(item_views(us@)),
            AppRequestResponse::LoadUserState(d) => AppRequestResponseView::LoadUserState(d@),
            AppRequestResponse::LoadUserStateError(r) => AppRequestResponseView::LoadUserStateError(*r),
            AppRequestResponse::LoadAccessLevels(ls) => AppRequestResponseView::LoadAccessLevels(item_views(ls@)),
            AppRequestResponse::LoadUserRoles(rs) => AppRequestResponseView::LoadUserRoles(rs@),
            AppRequestResponse::LoadEvent(e) => AppRequestResponseView::LoadEvent(e@),
            AppRequestResponse::LoadEventError(r) => AppRequestResponseView::LoadEventError(*r),
            AppRequestResponse::LoadEvents(es) => AppRequestResponseView::LoadEvents(item_views(es@)),
            AppRequestResponse::InsertEvent => AppRequestResponseView::InsertEvent,
            AppRequestResponse::UpdateEvent => AppRequestResponseView::UpdateEvent,
            AppRequestResponse::DeleteEvent => AppRequestResponseView::DeleteEvent,
            AppRequestResponse::LoadEventTemplate(t) => AppRequestResponseView::LoadEventTemplate(t@),
            AppRequestResponse::LoadEventTemplateError(r) => AppRequestResponseView::LoadEventTemplateError(*r),
            AppRequestResponse::LoadEventTemplates(ts) => AppRequestResponseView::LoadEventTemplates(item_views(ts@)),
            AppRequestResponse::InsertEventTemplate => AppRequestResponseView::InsertEventTemplate,
            AppRequestResponse::UpdateEventTemplate => AppRequestResponseView::UpdateEventTemplate,
            AppRequestResponse::DeleteEventTemplate => AppRequestResponseView::DeleteEventTemplate,
            AppRequestResponse::LoadSchedule(s) => AppRequestResponseView::LoadSchedule(s@),
            AppRequestResponse::LoadScheduleError(r) => AppRequestResponseView::LoadScheduleError(*r),
            AppRequestResponse::LoadSchedules(ss) => AppRequestResponseView::LoadSchedules(item_views(ss@)),
            AppRequestResponse::InsertSchedule => AppRequestResponseView::InsertSchedule,
            AppRequestResponse::UpdateSchedule => AppRequestResponseView::UpdateSchedule,
            AppRequestResponse::DeleteSchedule => AppRequestResponseView::DeleteSchedule,
            AppRequestResponse::Empty => AppRequestResponseView::Empty,
            AppRequestResponse::Error(code, text) => AppRequestResponseView::Error(*code, text@),
        }
    }
}

impl Clone for AppRequestResponse {
    fn clone(&self) -> (r: Self)
        ensures
            r@ == self@,
    {
        match self {
            AppRequestResponse::Login(r) => AppRequestResponse::Login(r.clone()),
            AppRequestResponse::LoginError(r) => AppRequestResponse::LoginError(*r),
            AppRequestResponse::LoginByKey(r) => AppRequestResponse::LoginByKey(r.clone()),
            AppRequestResponse::Register => AppRequestResponse::Register,
            AppRequestResponse::RegisterError(r) => AppRequestResponse::RegisterError(*r),
            AppRequestResponse::NewPassword => AppRequestResponse::NewPassword,
            AppRequestResponse::LoadUserIds(ids) => AppRequestResponse::LoadUserIds(copy_vec(ids)),
            AppRequestResponse::LoadUser(u) => AppRequestResponse::LoadUser(u.clone()),
            AppRequestResponse::LoadUserError(r) => AppRequestResponse::LoadUserError(*r),
            AppRequestResponse::LoadUsers(us) => AppRequestResponse::LoadUsers(copy_items(us)),
            AppRequestResponse::LoadUserState(d) => AppRequestResponse::LoadUserState(d.clone()),
            AppRequestResponse::LoadUserStateError(r) => AppRequestResponse::LoadUserStateError(*r),
            AppRequestResponse::LoadAccessLevels(ls) => AppRequestResponse::LoadAccessLevels(copy_items(ls)),
            AppRequestResponse::LoadUserRoles(rs) => AppRequestResponse::LoadUserRoles(copy_vec(rs)),
            AppRequestResponse::LoadEvent(e) => AppRequestResponse::LoadEvent(e.clone()),
            AppRequestResponse::LoadEventError(r) => AppRequestResponse::LoadEventError(*r),
            AppRequestResponse::LoadEvents(es) => AppRequestResponse::LoadEvents(copy_items(es)),
            AppRequestResponse::InsertEvent => AppRequestResponse::InsertEvent,
            AppRequestResponse::UpdateEvent => AppRequestResponse::UpdateEvent,
            AppRequestResponse::DeleteEvent => AppRequestResponse::DeleteEvent,
            AppRequestResponse::LoadEventTemplate(t) => AppRequestResponse::LoadEventTemplate(t.clone()),
            AppRequestResponse::LoadEventTemplateError(r) => AppRequestResponse::LoadEventTemplateError(*r),
            AppRequestResponse::LoadEventTemplates(ts) => AppRequestResponse::LoadEventTemplates(copy_items(ts)),
            AppRequestResponse::InsertEventTemplate => AppRequestResponse::InsertEventTemplate,
            AppRequestResponse::UpdateEventTemplate => AppRequestResponse::UpdateEventTemplate,
            AppRequestResponse::DeleteEventTemplate => AppRequestResponse::DeleteEventTemplate,
            AppRequestResponse::LoadSchedule(s) => AppRequestResponse::LoadSchedule(s.clone()),
            AppRequestResponse::LoadScheduleError(r) => AppRequestResponse::LoadScheduleError(*r),
            AppRequestResponse::LoadSchedules(ss) => AppRequestResponse::LoadSchedules(copy_items(ss)),
            AppRequestResponse::InsertSchedule => AppRequestResponse::InsertSchedule,
            AppRequestResponse::UpdateSchedule => AppRequestResponse::UpdateSchedule,
            AppRequestResponse::DeleteSchedule => AppRequestResponse::DeleteSchedule,
            AppRequestResponse::Empty => AppRequestResponse::Empty,
            AppRequestResponse::Error(code, text) => AppRequestResponse::Error(*code, copy_string(text)),
        }
    }
}

/// What the client remembers of a request besides its kind: the id of the
/// item that it is about.
#[derive(Clone, Copy, Debug, PartialEq, Eq, Structural)]
pub enum AppRequestInfo {
    LoadUser(i32),
    LoadUserState { user_id: i32 },
    LoadEvent(i32),
    UpdateEvent(i32),
    DeleteEvent(i32),
    LoadEventTemplate(i32),
    UpdateEventTemplate(i32),
    DeleteEventTemplate(i32),
    LoadSchedule(i32),
    UpdateSchedule(i32),
    DeleteSchedule(i32),
    Empty,
}

impl Default for AppRequestInfo {
    fn default() -> (r: Self)
        ensures
            r == AppRequestInfo::Empty,
    {
        AppRequestInfo::Empty
    }
}

/// A lightweight summary of a reply: the errors that a caller may want to show.
#[derive(Debug)]
pub enum AppRequestResponseInfo {
    LoginError(LoginBadRequestResponse),
    RegisterError(RegisterBadRequestResponse),
    LoadUserStateError(UserStateBadRequestResponse),
    LoadEventError(LoadBadRequestResponse),
    LoadEventTemplateError(LoadBadRequestResponse),
    LoadScheduleError(LoadBadRequestResponse),
    Empty,
    Error(u16, String),
}

impl Clone for AppRequestResponseInfo {
    fn clone(&self) -> (r: Self)
        ensures
            r == *self,
    {
        match self {
            AppRequestResponseInfo::LoginError(r) => AppRequestResponseInfo::LoginError(*r),
            AppRequestResponseInfo::RegisterError(r) => AppRequestResponseInfo::RegisterError(*r),
            AppRequestResponseInfo::LoadUserStateError(r) => AppRequestResponseInfo::LoadUserStateError(*r),
            AppRequestResponseInfo::LoadEventError(r) => AppRequestResponseInfo::LoadEventError(*r),
            AppRequestResponseInfo::LoadEventTemplateError(r) => AppRequestResponseInfo::LoadEventTemplateError(*r),
            AppRequestResponseInfo::LoadScheduleError(r) => AppRequestResponseInfo::LoadScheduleError(*r),
            AppRequestResponseInfo::Empty => AppRequestResponseInfo::Empty,
            AppRequestResponseInfo::Error(code, text) => AppRequestResponseInfo::Error(*code, text.clone()),
        }
    }
}

impl Default for AppRequestResponseInfo {
    fn default() -> (r: Self)
        ensures
            r is Empty,
    {
        AppRequestResponseInfo::Empty
    }
}

impl FromResponse<AppRequestResponse> for AppRequestResponseInfo {
    open spec fn spec_from_response(response: AppRequestResponse) -> AppRequestResponseInfo {
        match response {
            AppRequestResponse::LoginError(r) => AppRequestResponseInfo::LoginError(r),
            AppRequestResponse::RegisterError(r) => AppRequestResponseInfo::RegisterError(r),
            AppRequestResponse::LoadUserStateError(r) => AppRequestResponseInfo::LoadUserStateError(
                r,
            ),
            AppRequestResponse::LoadEventError(r) => AppRequestResponseInfo::LoadEventError(r),
            AppRequestResponse::LoadEventTemplateError(r) =>
                AppRequestResponseInfo::LoadEventTemplateError(r),
            AppRequestResponse::LoadScheduleError(r) => AppRequestResponseInfo::LoadScheduleError(
                r,
            ),
            AppRequestResponse::Error(status_code, error) => AppRequestResponseInfo::Error(
                status_code,
                error,
            ),
            _ => AppRequestResponseInfo::Empty,
        }
    }

    fn from_response(response: &AppRequestResponse) -> (r: AppRequestResponseInfo) {
        match response {
            AppRequestResponse::LoginError(r) => AppRequestResponseInfo::LoginError(*r),
            AppRequestResponse::RegisterError(r) => AppRequestResponseInfo::RegisterError(*r),
            AppRequestResponse::LoadUserStateError(r) => AppRequestResponseInfo::LoadUserStateError(
                *r,
            ),
            AppRequestResponse::LoadEventError(r) => AppRequestResponseInfo::LoadEventError(*r),
            AppRequestResponse::LoadEventTemplateError(r) =>
                AppRequestResponseInfo::LoadEventTemplateError(*r),
            AppRequestResponse::LoadScheduleError(r) => AppRequestResponseInfo::LoadScheduleError(
                *r,
            ),
            AppRequestResponse::Error(status_code, error) => AppRequestResponseInfo::Error(
                *status_code,
                error.clone(),
            ),
            _ => AppRequestResponseInfo::Empty,
        }
    }
}

/// The user id and key with which a request is signed.
#[derive(Clone, Debug)]
pub struct Credentials {
    pub user_id: TableId,
    pub key: Vec<u8>,
}

/// A request to the server, with what it carries.
#[derive(Clone, Debug)]
pub enum ApiRequest {
    LoadAccessLevels,
    LoadUserRoles,
    Logout,
    LoginByKey { user_id: TableId, key: Vec<u8> },
    Login { email: String, password: String },
    Register { name: String, email: String, password: String },
    NewPassword {
        user_id: TableId,
        access_level: i32,
        viewer_password: Option<NewPassword>,
        editor_password: Option<NewPassword>,
    },
    LoadEvent { id: TableId },
    LoadEvents,
    InsertEvent(NewEvent),
    UpdateEvent(UpdateEvent),
    DeleteEvent { id: TableId },
    LoadEventTemplate { id: TableId },
    LoadEventTemplates,
    InsertEventTemplate(NewEventTemplate),
    UpdateEventTemplate(UpdateEventTemplate),
    DeleteEventTemplate { id: TableId },
    LoadSchedule { id: TableId },
    LoadSchedules,
    InsertSchedule(NewSchedule),
    UpdateSchedule(UpdateSchedule),
    DeleteSchedule { id: TableId },
}

/// A request waiting to be sent: its id, the credentials to sign it with (for
/// requests that need them), and the request itself.
#[derive(Clone, Debug)]
pub struct OutgoingRequest {
    pub id: RequestId,
    pub credentials: Option<Credentials>,
    pub request: ApiRequest,
}

/// How a reply's status decides what the reply is read as.
#[derive(Clone, Copy, Debug, PartialEq, Eq, Structural)]
pub enum ReplyClass {
    /// The body is the answer the request asked for.
    Success,
    /// The body names why the server refused the request.
    Refusal,
    /// The reply is an error with the body as its text.
    Error,
    /// The reply is an error whose text is that signing out failed.
    LogoutError,
}

/// The status of a successful reply.
pub const STATUS_OK: u16 = 200;

/// The status of a reply that refuses a request.
pub const STATUS_BAD_REQUEST: u16 = 400;

/// Whether the server names the reason when it refuses `request`.
pub open spec fn names_refusals(request: ApiRequest) -> bool {
    match request {
        ApiRequest::Login { .. } => true,
        ApiRequest::Register { .. } => true,
        ApiRequest::LoadEvent { .. } => true,
        ApiRequest::LoadEventTemplate { .. } => true,
        ApiRequest::LoadSchedule { .. } => true,
        _ => false,
    }
}

/// What a reply with status `status` to `request` is read as: the answer on
/// success; the reason of a refusal for requests whose refusals are named;
/// otherwise an error (for signing out, one that says so).
pub open spec fn spec_classify_reply(request: ApiRequest, status: u16) -> ReplyClass {
    if status == STATUS_OK {
        ReplyClass::Success
    } else if request is Logout {
        ReplyClass::LogoutError
    } else if status == STATUS_BAD_REQUEST && names_refusals(request) {
        ReplyClass::Refusal
    } else {
        ReplyClass::Error
    }
}

/// What a reply with status `status` to `request` is read as.
pub fn classify_reply(request: &ApiRequest, status: u16) -> (c: ReplyClass)
    ensures
        c == spec_classify_reply(*request, status),
{
    if status == STATUS_OK {
        return ReplyClass::Success;
    }
    let named = match request {
        ApiRequest::Logout => {
            return ReplyClass::LogoutError;
        },
        ApiRequest::Login { .. } => true,
        ApiRequest::Register { .. } => true,
        ApiRequest::LoadEvent { .. } => true,
        ApiRequest::LoadEventTemplate { .. } => true,
        ApiRequest::LoadSchedule { .. } => true,
        _ => false,
    };
    if status == STATUS_BAD_REQUEST && named {
        ReplyClass::Refusal
    } else {
        ReplyClass::Error
    }
}

} // verus!
