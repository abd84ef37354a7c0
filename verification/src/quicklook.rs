//! File previews.
use vstd::prelude::*;

use crate::actions::{eval_script, lemma_plain_script, show_code, shown_code, ProcessOutput};
use crate::permission::{screen_recording_outcome, SCREEN_RECORDING_DEEPLINK};
use crate::spotlight::SYSTEM_EVENTS;
use crate::text::{join2, join3, lossy, lossy_text, trim_text, trimmed};
use crate::types::NativeControlError;

verus! {

/// The script that closes a preview: escape.
pub const CLOSE_SCRIPT: &'static str = "tell application \"System Events\" to key code 53";

/// Whether a file can be shown: it must be there.
pub fn preview_allowed(path: &str, exists: bool) -> (r: Result<(), NativeControlError>)
    ensures
        match r {
            Ok(_) => exists,
            Err(NativeControlError::Internal(msg)) => !exists && msg@
                == "quicklook: path does not exist: "@ + path@,
            Err(_) => false,
        },
{
    if exists {
        Ok(())
    } else {
        Err(NativeControlError::Internal(join2("quicklook: path does not exist: ", path)))
    }
}

/// The outcome of showing a file.
pub fn preview_outcome(output: &ProcessOutput) -> (r: Result<(), NativeControlError>)
    ensures
        match r {
            Ok(_) => output.success,
            Err(NativeControlError::AppleScript { msg }) => !output.success && msg@
                == "qlmanage exit "@ + shown_code(output.code) + ": "@ + trimmed(
                lossy(output.stderr@),
            ),
            Err(_) => false,
        },
{
    if output.success {
        return Ok(());
    }
    let raw = lossy_text(output.stderr.as_slice());
    let stderr = trim_text(raw.as_str());
    let code = show_code(output.code);
    let head = join3("qlmanage exit ", code.as_str(), ": ");
    Err(NativeControlError::AppleScript { msg: join2(head.as_str(), stderr.as_str()) })
}

/// The script that closes a preview.
pub fn close() -> (r: Result<String, NativeControlError>)
    ensures
        r matches Ok(s) && s@ == CLOSE_SCRIPT@,
{
    proof {
        reveal_strlit("tell ");
        reveal_strlit("tell application \"System Events\" to key code 53");
        assert(CLOSE_SCRIPT@.subrange(0, 5) =~= "tell "@);
        lemma_plain_script(SYSTEM_EVENTS@, CLOSE_SCRIPT@);
    }
    eval_script(SYSTEM_EVENTS, CLOSE_SCRIPT)
}

/// Whether the text of a preview can be read.
pub fn require_screen_recording(granted: bool) -> (r: Result<(), NativeControlError>)
    ensures
        r is Ok <==> granted,
        !granted ==> (r matches Err(NativeControlError::ScreenRecordingMissing { settings_url })
            && settings_url@ == SCREEN_RECORDING_DEEPLINK@),
{
    screen_recording_outcome(granted)
}

} // verus!
