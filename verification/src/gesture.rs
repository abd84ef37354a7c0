//! Gestures, drags, input sources and the Touch Bar.
use vstd::prelude::*;

use crate::types::NativeControlError;

verus! {

/// A swipe is made of so many scroll events.
pub const SWIPE_STEPS: u32 = 8;

/// The bit pattern of the double one.
pub const ONE_BITS: u64 = 0x3ff0_0000_0000_0000;

/// The bit pattern of the double minus zero.
pub const MINUS_ZERO_BITS: u64 = 0x8000_0000_0000_0000;

/// The phase of a scroll event within a swipe.
#[derive(Clone, Copy, Debug, PartialEq, Eq, Structural)]
pub enum SwipePhase {
    Began,
    Changed,
    Ended,
}

/// The number by which the system knows a phase.
pub fn phase_number(p: SwipePhase) -> (n: i64)
    ensures
        n == (match p {
            SwipePhase::Began => 1i64,
            SwipePhase::Changed => 2i64,
            SwipePhase::Ended => 4i64,
        }),
{
    match p {
        SwipePhase::Began => 1,
        SwipePhase::Changed => 2,
        SwipePhase::Ended => 4,
    }
}

/// The phase of a step: the first begins the swipe, the last one ends it.
pub fn swipe_phase(step: u32) -> (p: SwipePhase)
    requires
        step < SWIPE_STEPS,
    ensures
        p == (if step == 0 {
            SwipePhase::Began
        } else if step == SWIPE_STEPS - 1 {
            SwipePhase::Ended
        } else {
            SwipePhase::Changed
        }),
{
    if step == 0 {
        SwipePhase::Began
    } else if step + 1 == SWIPE_STEPS {
        SwipePhase::Ended
    } else {
        SwipePhase::Changed
    }
}

/// The double with that bit pattern lies between zero and one.
pub open spec fn unit_interval(bits: u64) -> bool {
    bits <= ONE_BITS || bits == MINUS_ZERO_BITS
}

/// Whether a press can have that pressure, given by the bit pattern of a double.
pub fn force_touch_allowed(pressure_bits: u64) -> (r: Result<(), NativeControlError>)
    ensures
        match r {
            Ok(_) => unit_interval(pressure_bits),
            Err(NativeControlError::Internal(msg)) => !unit_interval(pressure_bits) && msg@
                == "pressure must be in [0,1]"@,
            Err(_) => false,
        },
{
    if pressure_bits <= ONE_BITS || pressure_bits == MINUS_ZERO_BITS {
        Ok(())
    } else {
        Err(NativeControlError::Internal("pressure must be in [0,1]".to_owned()))
    }
}

/// A drag is made of so many moves.
pub const DRAG_STEPS: u32 = 12;

/// Whether files can be dragged: there must be one.
pub fn drag_allowed(paths: &Vec<String>) -> (r: Result<(), NativeControlError>)
    ensures
        match r {
            Ok(_) => paths@.len() > 0,
            Err(NativeControlError::Internal(msg)) => paths@.len() == 0 && msg@
                == "drag.from_finder requires ≥1 path"@,
            Err(_) => false,
        },
{
    if paths.len() == 0 {
        Err(NativeControlError::Internal("drag.from_finder requires ≥1 path".to_owned()))
    } else {
        Ok(())
    }
}

/// What the input source services answered.
#[derive(Clone, Copy, Debug)]
pub enum InputSources {
    /// A function is missing.
    Missing(&'static str),
    /// There was no list.
    NoList,
    /// The list of sources with that id is empty.
    Empty,
    /// The source was selected, with that status.
    Selected(i32),
}

/// The outcome of selecting an input source.
pub fn input_source_outcome(a: InputSources) -> (r: Result<(), NativeControlError>)
    ensures
        match a {
            InputSources::Missing(name) => r matches Err(
                NativeControlError::PrivateApiUnavailable { what },
            ) && what@ == name@,
            InputSources::NoList => r matches Err(NativeControlError::Tis(c)) && c == -1,
            InputSources::Empty => r matches Err(NativeControlError::Tis(c)) && c == -50,
            InputSources::Selected(status) => (r is Ok <==> status == 0) && (status != 0 ==> (
            r matches Err(NativeControlError::Tis(c)) && c == status)),
        },
{
    match a {
        InputSources::Missing(what) => Err(NativeControlError::PrivateApiUnavailable { what }),
        InputSources::NoList => Err(NativeControlError::Tis(-1)),
        InputSources::Empty => Err(NativeControlError::Tis(-50)),
        InputSources::Selected(status) => if status == 0 {
            Ok(())
        } else {
            Err(NativeControlError::Tis(status))
        },
    }
}

/// What the Touch Bar framework answered.
#[derive(Clone, Copy, Debug)]
pub enum TouchBar {
    /// The library was built without the private interfaces.
    NotBuilt,
    /// A function is missing.
    Missing(&'static str),
    /// The identifier holds a NUL.
    BadIdentifier,
    /// Whether the preset was taken.
    Answered(bool),
}

/// The outcome of a tap on the Touch Bar.
pub fn touchbar_outcome(a: TouchBar) -> (r: Result<(), NativeControlError>)
    ensures
        match a {
            TouchBar::NotBuilt => r matches Err(
                NativeControlError::PrivateApiUnavailable { what },
            ) && what@ == "Touch Bar (build native-control with `private-apis`)"@,
            TouchBar::Missing(name) => r matches Err(
                NativeControlError::PrivateApiUnavailable { what },
            ) && what@ == name@,
            TouchBar::BadIdentifier => r matches Err(NativeControlError::Internal(msg)) && msg@
                == "identifier had embedded NUL"@,
            TouchBar::Answered(ok) => (r is Ok <==> ok) && (!ok ==> (r matches Err(
                NativeControlError::PrivateApiUnavailable { what },
            ) && what@ == "DFRElementSetControlStripPresetIdentifier returned false"@)),
        },
{
    match a {
        TouchBar::NotBuilt => Err(
            NativeControlError::PrivateApiUnavailable {
                what: "Touch Bar (build native-control with `private-apis`)",
            },
        ),
        TouchBar::Missing(what) => Err(NativeControlError::PrivateApiUnavailable { what }),
        TouchBar::BadIdentifier => Err(
            NativeControlError::Internal("identifier had embedded NUL".to_owned()),
        ),
        TouchBar::Answered(ok) => if ok {
            Ok(())
        } else {
            Err(
                NativeControlError::PrivateApiUnavailable {
                    what: "DFRElementSetControlStripPresetIdentifier returned false",
                },
            )
        },
    }
}

} // verus!
