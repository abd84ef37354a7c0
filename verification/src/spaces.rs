//! The spaces of the desktop.
use vstd::prelude::*;

use crate::actions::{
    eval_script, is_harmless, lemma_harmless_join, lemma_harmless_repeated, lemma_plain_script,
};
use crate::spotlight::SYSTEM_EVENTS;
use crate::text::{decimal, decimal_text, join2, repeat_between, repeated, starts_with_text};
use crate::types::{NativeControlError, SpaceInfo};

verus! {

/// What the window server says of the active space.
#[derive(Clone, Copy, Debug)]
pub enum ActiveSpace {
    /// The library was built without the private interfaces.
    NotBuilt,
    /// There is no connection function.
    NoConnection,
    /// There is no function for the active space.
    NoActiveSpace,
    Active(u64),
}

/// What is missing.
pub open spec fn missing_space(a: ActiveSpace) -> Seq<char> {
    match a {
        ActiveSpace::NotBuilt => "CGS spaces (build native-control with `private-apis`)"@,
        ActiveSpace::NoConnection => "CGSDefaultConnectionForThread"@,
        ActiveSpace::NoActiveSpace => "CGSGetActiveSpace"@,
        ActiveSpace::Active(_) => Seq::empty(),
    }
}

/// Lists the spaces: the active one alone.
pub fn list(a: ActiveSpace) -> (r: Result<Vec<SpaceInfo>, NativeControlError>)
    ensures
        match r {
            Ok(v) => a matches ActiveSpace::Active(id) && v@.len() == 1 && v@[0].space_id == id
                && v@[0].name@ == "Space "@ + decimal(id as nat) && v@[0].active,
            Err(NativeControlError::PrivateApiUnavailable { what }) => !(a is Active) && what@
                == missing_space(a),
            Err(_) => false,
        },
{
    match a {
        ActiveSpace::NotBuilt => Err(
            NativeControlError::PrivateApiUnavailable {
                what: "CGS spaces (build native-control with `private-apis`)",
            },
        ),
        ActiveSpace::NoConnection => Err(
            NativeControlError::PrivateApiUnavailable { what: "CGSDefaultConnectionForThread" },
        ),
        ActiveSpace::NoActiveSpace => Err(
            NativeControlError::PrivateApiUnavailable { what: "CGSGetActiveSpace" },
        ),
        ActiveSpace::Active(id) => {
            let n = decimal_text(id);
            let mut v: Vec<SpaceInfo> = Vec::new();
            v.push(SpaceInfo { space_id: id, name: join2("Space ", n.as_str()), active: true });
            Ok(v)
        },
    }
}

/// The line of a script that goes one space to the left or to the right.
pub open spec fn space_key(left: bool) -> Seq<char> {
    if left {
        "    key code 123 using {control down}\n"@
    } else {
        "    key code 124 using {control down}\n"@
    }
}

/// The script that goes `delta` spaces to the right, or to the left where it is negative.
pub open spec fn space_script(delta: i32) -> Seq<char> {
    "tell application \"System Events\"\n"@ + repeated(
        space_key(delta < 0),
        (if delta < 0 {
            -delta
        } else {
            delta as int
        }) as nat,
    ) + "end tell\n"@
}

proof fn lemma_space_script(delta: i32)
    ensures
        is_harmless(space_script(delta)),
        starts_with_text(space_script(delta), "tell "@),
{
    reveal_strlit("tell ");
    reveal_strlit("tell application \"System Events\"\n");
    reveal_strlit("    key code 123 using {control down}\n");
    reveal_strlit("    key code 124 using {control down}\n");
    reveal_strlit("end tell\n");
    let head = "tell application \"System Events\"\n"@;
    let times = (if delta < 0 {
        -delta
    } else {
        delta as int
    }) as nat;
    let keys = repeated(space_key(delta < 0), times);
    lemma_harmless_repeated(space_key(delta < 0), times);
    lemma_harmless_join(head, keys);
    lemma_harmless_join(head + keys, "end tell\n"@);
    assert(space_script(delta).subrange(0, 5) =~= "tell "@);
}

/// The script that goes `delta` spaces on. To go none takes no script.
pub fn switch_relative(delta: i32) -> (r: Result<Option<String>, NativeControlError>)
    ensures
        match r {
            Ok(None) => delta == 0,
            Ok(Some(s)) => delta != 0 && s@ == space_script(delta),
            Err(_) => false,
        },
{
    if delta == 0 {
        return Ok(None);
    }
    let line = if delta < 0 {
        "    key code 123 using {control down}\n"
    } else {
        "    key code 124 using {control down}\n"
    };
    let count: u32 = if delta == i32::MIN {
        2_147_483_648
    } else if delta < 0 {
        (-delta) as u32
    } else {
        delta as u32
    };
    let script = repeat_between("tell application \"System Events\"\n", line, count, "end tell\n");
    proof {
        lemma_space_script(delta);
        lemma_plain_script(SYSTEM_EVENTS@, space_script(delta));
    }
    match eval_script(SYSTEM_EVENTS, script.as_str()) {
        Ok(s) => Ok(Some(s)),
        Err(e) => Err(e),
    }
}

/// There is no way to move a window to another space.
pub fn move_window_relative(bundle_id: &str, delta: i32) -> (r: Result<(), NativeControlError>)
    ensures
        r matches Err(NativeControlError::PrivateApiUnavailable { what }) && what@
            == "per-window space move requires gesture composition (use app.gesture.* + spaces.switch_relative)"@,
{
    let _ = (bundle_id, delta);
    Err(
        NativeControlError::PrivateApiUnavailable {
            what: "per-window space move requires gesture composition (use app.gesture.* + spaces.switch_relative)",
        },
    )
}

} // verus!
