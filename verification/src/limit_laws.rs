//! The limits that the library keeps to.
use vstd::prelude::*;

verus! {

/// How long the client waits for the broker: half a minute for a call, five seconds for a
/// registration, a quarter of a minute on the command line; and for a connection ever longer,
/// twice as long each time.
pub proof fn the_client_waits_so_long(k: int)
    requires
        0 <= k < 5,
    ensures
        crate::broker_client::DEFAULT_CALL_TIMEOUT_MILLIS == 30_000,
        crate::broker_client::REGISTER_TIMEOUT_MILLIS == 5_000,
        crate::cli::DEFAULT_TIMEOUT_MS == 15_000,
        crate::scripting::DEFAULT_TIMEOUT_MS == 30_000,
        crate::broker_client::CONNECT_BACKOFF_MS@.len() == 6,
        crate::broker_client::CONNECT_BACKOFF_MS@[0] == 50,
        crate::broker_client::CONNECT_BACKOFF_MS@[k + 1] == 2
            * crate::broker_client::CONNECT_BACKOFF_MS@[k],
{
}

/// How much is taken in at once: lines of sixteen mebibytes, events and trace records of which
/// a thousand and twenty-four wait, sixteen clipboard entries.
pub proof fn so_much_is_taken_in()
    ensures
        crate::broker_client::MAX_LINE_BYTES == 16_777_216,
        crate::mcp::MAX_BODY_BYTES == 16_777_216,
        crate::mcp::MAX_HEADER_BYTES == 8_192,
        crate::trace::TRACE_CHANNEL_CAP == 1_024,
        crate::subscribe::CHANNEL_CAPACITY == 1_024,
        crate::clipboard::HISTORY_CAPACITY == 16,
        crate::clipboard::POLL_INTERVAL_MS == 100,
{
}

/// When a trace file is rotated: at a hundred mebibytes or after an hour.
pub proof fn trace_files_are_rotated_so()
    ensures
        crate::trace::DEFAULT_MAX_BYTES == 104_857_600,
        crate::trace::DEFAULT_MAX_AGE_SECS == 3_600,
{
}

/// How far searches and lists go.
pub proof fn searches_go_so_far()
    ensures
        crate::ax_walk::MAX_DEPTH == 64,
        crate::ax_walk::MAX_NODES == 5_000,
        crate::menu::MAX_MENU_NODES == 4_096,
        crate::menu::MAX_MENU_DEPTH == 12,
        crate::statusmenu::MAX_DEPTH == 6,
        crate::notification_center::MAX_DEPTH == 8,
        crate::notification_center::MAX_TITLES == 65,
        crate::spotlight::MAX_INDEX == 64,
{
}

/// How many steps a gesture is made of.
pub proof fn gestures_take_so_many_steps()
    ensures
        crate::gesture::SWIPE_STEPS == 8,
        crate::gesture::DRAG_STEPS == 12,
{
}

} // verus!
