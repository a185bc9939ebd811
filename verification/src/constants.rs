//! Settings shared by the capture, database and event plumbing.
use vstd::prelude::*;

verus! {

/// Pause, in milliseconds, before reading the clipboard after a double tap.
pub const CLIPBOARD_READ_DELAY_MILLIS: u64 = 100;

/// Longest wait, in milliseconds, for the script that reads the active context.
pub const OSASCRIPT_TIMEOUT_MILLIS: u64 = 1500;

/// File name of the SQLite database in the app data directory.
pub const DB_NAME: &'static str = "sentence_binder.db";

/// Connections in the database pool.
pub const MAX_DB_CONNECTIONS: u32 = 5;

/// Event sent to the frontend when a capture is triggered.
pub const EVENT_CAPTURE_TRIGGERED: &'static str = "double-tap-cmd-c";

} // verus!
