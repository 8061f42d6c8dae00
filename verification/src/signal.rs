//! What the user interface asks of the state.
use crate::calendar::Date;
use crate::model::{
    NewEvent, NewEventTemplate, NewPassword, NewSchedule, UpdateEvent, UpdateEventTemplate,
    UpdateSchedule,
};
use crate::requests::RequestDescription;
use crate::table::TableId;
use vstd::prelude::*;

verus! {

/// A request that the user interface asks the state to send.
#[derive(Clone, Debug)]
pub enum RequestSignal {
    /// Sign in with an email and a password.
    Login(String, String),
    /// Register with a name, an email and a password.
    Register(String, String, String),
    InsertEvent(NewEvent),
    UpdateEvent(UpdateEvent),
    DeleteEvent(TableId),
    InsertEventTemplate(NewEventTemplate),
    UpdateEventTemplate(UpdateEventTemplate),
    DeleteEventTemplate(TableId),
    InsertSchedule(NewSchedule),
    UpdateSchedule(UpdateSchedule),
    DeleteSchedule(TableId),
    /// New viewer and editor passwords for an access level.
    InsertPassword(i32, Option<NewPassword>, Option<NewPassword>),
    /// Turn the slot `plan_id` of a schedule, on the given day, into an event.
    AcceptScheduledEvent(Date, TableId),
}

/// What the user interface asks of the state.
#[derive(Clone, Debug)]
pub enum StateSignal {
    /// Look at the calendar at another access level.
    ChangeAccessLevel(i32),
    /// Send a request, handled as the description says.
    RequestSignal(RequestDescription, RequestSignal),
}

} // verus!
