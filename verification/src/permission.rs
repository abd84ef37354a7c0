//! Permissions of the native surface.
use vstd::prelude::*;

use crate::types::NativeControlError;

verus! {

/// The settings pane for accessibility.
pub const SETTINGS_DEEPLINK: &'static str = "x-apple.systempreferences:com.apple.preference.security?Privacy_Accessibility";

/// The settings pane for screen recording.
pub const SCREEN_RECORDING_DEEPLINK: &'static str = "x-apple.systempreferences:com.apple.preference.security?Privacy_ScreenCapture";

/// Whether this process may use the accessibility interface, on a system that has none: it
/// never may. Where there is one, the system is asked instead.
pub fn is_trusted() -> (r: bool)
    ensures
        !r,
{
    false
}

/// The outcome of asking for trust, where the system's answer is known.
pub fn trust_outcome(trusted: bool) -> (r: Result<(), NativeControlError>)
    ensures
        r is Ok <==> trusted,
        !trusted ==> (r matches Err(NativeControlError::PermissionMissing { settings_url })
            && settings_url@ == SETTINGS_DEEPLINK@),
{
    if trusted {
        Ok(())
    } else {
        Err(NativeControlError::PermissionMissing { settings_url: SETTINGS_DEEPLINK })
    }
}

/// The outcome of asking the user for trust on a system without the interface.
pub fn ensure_trusted_with_prompt() -> (r: Result<(), NativeControlError>)
    ensures
        r matches Err(NativeControlError::UnsupportedPlatform),
{
    Err(NativeControlError::UnsupportedPlatform)
}

/// The settings pane for accessibility.
pub fn settings_deeplink() -> (s: &'static str)
    ensures
        s@ == SETTINGS_DEEPLINK@,
{
    SETTINGS_DEEPLINK
}

/// The settings pane for screen recording.
pub fn screen_recording_deeplink() -> (s: &'static str)
    ensures
        s@ == SCREEN_RECORDING_DEEPLINK@,
{
    SCREEN_RECORDING_DEEPLINK
}

/// Whether this process may record the screen, on a system that grants no such permission.
pub fn is_screen_recording_granted() -> (r: bool)
    ensures
        !r,
{
    false
}

/// The outcome of asking for screen recording, where the system's answer is known.
pub fn screen_recording_outcome(granted: bool) -> (r: Result<(), NativeControlError>)
    ensures
        r is Ok <==> granted,
        !granted ==> (r matches Err(NativeControlError::ScreenRecordingMissing { settings_url })
            && settings_url@ == SCREEN_RECORDING_DEEPLINK@),
{
    if granted {
        Ok(())
    } else {
        Err(
            NativeControlError::ScreenRecordingMissing { settings_url: SCREEN_RECORDING_DEEPLINK },
        )
    }
}

/// The outcome of asking for screen recording on a system that does not grant it.
pub fn ensure_screen_recording_granted() -> (r: Result<(), NativeControlError>)
    ensures
        r matches Err(NativeControlError::ScreenRecordingMissing { settings_url }) && settings_url@
            == SCREEN_RECORDING_DEEPLINK@,
{
    screen_recording_outcome(is_screen_recording_granted())
}

} // verus!
