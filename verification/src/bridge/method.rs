//! Method names, as they stand on the wire.
use vstd::prelude::*;

verus! {

pub const SUBMIT_EVENT: &'static str = "engine.submit_event";

pub const SNAPSHOT: &'static str = "engine.snapshot";

pub const EVENT_LOG: &'static str = "engine.event_log";

pub const HEALTH: &'static str = "engine.health";

/// Effects and their parameters.
pub const LIST_EFFECTS: &'static str = "engine.list_effects";

/// Past sessions on disk.
pub const LIST_SESSIONS: &'static str = "engine.list_sessions";

/// The state that a past session ended in.
pub const REPLAY_SESSION: &'static str = "engine.replay_session";

/// Authentication inside the connection.
pub const AUTH_HELLO: &'static str = "auth.hello";

pub const NOTIFY_STATE_CHANGED: &'static str = "engine.state_changed";

pub const NOTIFY_AUDIO_ALERT: &'static str = "engine.audio_alert";

pub const NOTIFY_DECODE_ERROR: &'static str = "engine.decode_error";

} // verus!
