# calendar_frontend

The client side of a calendar service: what a client keeps of the data that
the server holds for a user (events, event templates, schedules, access
levels), which requests it sends, and how each reply changes what it keeps.
The library is verified with Verus; `app/` is a small command-line client
around it that does the network and file work.

## Layout

- `src/calendar.rs` — days, times of day, moments and weekdays.
- `src/table.rs` — tables of items known by id; laws of putting items in and
  taking them out.
- `src/model.rs` — users, access levels, events, templates, schedules.
- `src/requests.rs`, `src/requests_container.rs`, `src/connector.rs` — the
  requests, the register of requests in flight and their replies, and the
  queue of requests to send.
- `src/day_events.rs` — what one day shows: stored events as a viewer at some
  access level sees them, and the events that schedules plan for that day.
- `src/state.rs` — the state of a signed-in user: requests, the handling of
  every reply, the access level in use, prepared days, and what the user
  interface asks for (`signal.rs`).
- `src/user_state.rs`, `src/main_state.rs` — the state of a client that looks
  at several users' data (its own, granted, or any user's for an
  administrator), with the handling of each table's replies.
- `src/state_action.rs` — questions about the replies of one round of polling.
- `src/config.rs`, `src/api_path.rs` — where the server is, and the paths of
  its tables.

Each public function states in its contract what it returns or changes; the
functions named `law_*` state properties that span several operations.
