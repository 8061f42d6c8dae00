//! Client-side state of a calendar application: the tables of events,
//! templates and schedules that the server holds for the signed-in user, the
//! requests in flight, and the rules by which replies update the state.
pub mod api_path;
pub mod calendar;
pub mod table;
pub mod user_state;
pub mod model;
pub mod request_parser;
pub mod requests;
pub mod requests_container;
pub mod config;
pub mod connector;
pub mod day_events;
pub mod day_laws;
pub mod main_state;
pub mod signal;
pub mod state;
pub mod state_action;
