//! Where on the server each table lives: the path of one item and the path
//! of all items.
use crate::model::{AccessLevel, Event, EventTemplate, Schedule};
use vstd::prelude::*;

verus! {

/// The server paths of a table's items.
pub trait TableItemApiPath {
    /// The path of one item.
    const API_PATH: &'static str;
    /// The path of all items.
    const API_PATH_PLURAL: &'static str;
}

impl TableItemApiPath for AccessLevel {
    const API_PATH: &'static str = "access_level";
    const API_PATH_PLURAL: &'static str = "access_levels";
}

impl TableItemApiPath for Event {
    const API_PATH: &'static str = "event";
    const API_PATH_PLURAL: &'static str = "events";
}

impl TableItemApiPath for EventTemplate {
    const API_PATH: &'static str = "event_template";
    const API_PATH_PLURAL: &'static str = "event_templates";
}

impl TableItemApiPath for Schedule {
    const API_PATH: &'static str = "schedule";
    const API_PATH_PLURAL: &'static str = "schedules";
}

} // verus!
