//! Spotlight, driven by scripts.
use vstd::prelude::*;

use crate::actions::{
    activates, eval_script, is_harmless, lemma_harmless_join, lemma_harmless_repeated,
    lemma_plain_script, wrapped, ACTIVATE_REASON,
};
use crate::dock::{focus_allowed, require_focus_steal};
use crate::text::{
    join3, quote_inside, quoted_inside, repeat_between, repeated, starts_with_text,
};
use crate::types::NativeControlError;

verus! {

/// The application that sends keystrokes.
pub const SYSTEM_EVENTS: &'static str = "com.apple.systemevents";

/// The script that opens Spotlight: command and space.
pub const OPEN_SCRIPT: &'static str = "tell application \"System Events\" to key code 49 using {command down}";

/// Results from here on cannot be selected.
pub const MAX_INDEX: u32 = 64;

/// The script that opens Spotlight. Opening it takes the focus.
pub fn open(confirm: bool, focus_steal: bool) -> (r: Result<String, NativeControlError>)
    ensures
        match r {
            Ok(s) => focus_allowed(confirm, focus_steal) && s@ == OPEN_SCRIPT@,
            Err(NativeControlError::FocusStealForbidden { what }) => !focus_allowed(
                confirm,
                focus_steal,
            ) && what@ == "app.spotlight.open"@,
            Err(_) => false,
        },
{
    proof {
        reveal_strlit("tell ");
        reveal_strlit("tell application \"System Events\" to key code 49 using {command down}");
        assert(OPEN_SCRIPT@.subrange(0, 5) =~= "tell "@);
        lemma_plain_script(SYSTEM_EVENTS@, OPEN_SCRIPT@);
    }
    match require_focus_steal("app.spotlight.open", confirm, focus_steal) {
        Ok(_) => eval_script(SYSTEM_EVENTS, OPEN_SCRIPT),
        Err(e) => Err(e),
    }
}

/// The script that types a text.
pub open spec fn keystrokes(text: Seq<char>) -> Seq<char> {
    "tell application \"System Events\" to keystroke \""@ + quoted_inside(text) + "\""@
}

/// The script that types a query into an open Spotlight.
pub fn query(text: &str) -> (r: Result<String, NativeControlError>)
    ensures
        match r {
            Ok(s) => text@.len() > 0 && !activates(keystrokes(text@)) && s@ == wrapped(
                SYSTEM_EVENTS@,
                keystrokes(text@),
            ),
            Err(NativeControlError::Internal(msg)) => text@.len() == 0 && msg@
                == "spotlight query text is empty"@,
            Err(NativeControlError::ActivateForbidden { reason }) => text@.len() > 0 && activates(
                keystrokes(text@),
            ) && reason@ == ACTIVATE_REASON@,
            Err(_) => false,
        },
{
    if text.is_empty() {
        return Err(NativeControlError::Internal("spotlight query text is empty".to_owned()));
    }
    let escaped = quote_inside(text);
    let script = join3(
        "tell application \"System Events\" to keystroke \"",
        escaped.as_str(),
        "\"",
    );
    eval_script(SYSTEM_EVENTS, script.as_str())
}

/// The script that goes down so many results and presses return.
pub open spec fn selection(index: u32) -> Seq<char> {
    "tell application \"System Events\"\n"@ + repeated("    key code 125\n"@, index as nat)
        + "    key code 36\nend tell\n"@
}

proof fn lemma_selection(index: u32)
    ensures
        is_harmless(selection(index)),
        starts_with_text(selection(index), "tell "@),
{
    reveal_strlit("tell ");
    reveal_strlit("tell application \"System Events\"\n");
    reveal_strlit("    key code 125\n");
    reveal_strlit("    key code 36\nend tell\n");
    let head = "tell application \"System Events\"\n"@;
    let keys = repeated("    key code 125\n"@, index as nat);
    lemma_harmless_repeated("    key code 125\n"@, index as nat);
    lemma_harmless_join(head, keys);
    lemma_harmless_join(head + keys, "    key code 36\nend tell\n"@);
    assert(selection(index).subrange(0, 5) =~= "tell "@);
}

/// The script that selects a result, the top one being number zero.
pub fn select(index: u32) -> (r: Result<String, NativeControlError>)
    ensures
        match r {
            Ok(s) => index < MAX_INDEX && s@ == selection(index),
            Err(NativeControlError::Internal(msg)) => index >= MAX_INDEX && msg@
                == "spotlight select index out of bounds"@,
            Err(_) => false,
        },
{
    if index >= MAX_INDEX {
        return Err(
            NativeControlError::Internal("spotlight select index out of bounds".to_owned()),
        );
    }
    let script = repeat_between(
        "tell application \"System Events\"\n",
        "    key code 125\n",
        index,
        "    key code 36\nend tell\n",
    );
    proof {
        lemma_selection(index);
        lemma_plain_script(SYSTEM_EVENTS@, selection(index));
    }
    eval_script(SYSTEM_EVENTS, script.as_str())
}

} // verus!
