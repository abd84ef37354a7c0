//! Types of the native application surface.
use vstd::prelude::*;

use crate::error::signed_text;
use crate::json::Json;
use crate::text::{join2, join3, same_text};

verus! {

/// The bundle id of an application, such as `com.apple.calculator`.
#[derive(Clone, Debug, PartialEq, Eq, Hash)]
pub struct AppId(pub String);

impl AppId {
    pub fn as_str(&self) -> (s: &str)
        ensures
            s@ == self.0@,
    {
        self.0.as_str()
    }
}

impl From<String> for AppId {
    fn from(s: String) -> (a: AppId) {
        AppId(s)
    }
}

impl vstd::std_specs::convert::FromSpecImpl<String> for AppId {
    open spec fn obeys_from_spec() -> bool {
        true
    }

    open spec fn from_spec(s: String) -> AppId {
        AppId(s)
    }
}

impl From<&str> for AppId {
    fn from(s: &str) -> (a: AppId)
        ensures
            a.0@ == s@,
    {
        AppId(s.to_owned())
    }
}

impl vstd::std_specs::convert::FromSpecImpl<&str> for AppId {
    open spec fn obeys_from_spec() -> bool {
        false
    }

    open spec fn from_spec(s: &str) -> AppId {
        arbitrary()
    }
}

/// A running application.
#[derive(Clone, Debug)]
pub struct AppHandle {
    pub bundle_id: String,
    pub pid: i32,
    pub name: String,
    /// Whether it is the frontmost application.
    pub has_focus: bool,
}

/// A rectangle on the screen, its origin at the top left. Each field is the bit pattern of
/// an IEEE 754 double.
#[derive(Clone, Copy, Debug, PartialEq, Eq, Structural)]
pub struct BBox {
    pub x: u64,
    pub y: u64,
    pub w: u64,
    pub h: u64,
}

/// The double with that bit pattern is zero or below: either its sign is set or it is
/// plus zero, and it is no NaN.
pub open spec fn double_le_zero(bits: u64) -> bool {
    bits == 0 || 0x8000_0000_0000_0000 <= bits <= 0xfff0_0000_0000_0000
}

/// The width or the height is not above zero.
pub open spec fn no_area(b: BBox) -> bool {
    double_le_zero(b.w) || double_le_zero(b.h)
}

impl BBox {
    /// Whether the width or the height is not above zero.
    pub fn is_zero_area(&self) -> (r: bool)
        ensures
            r == no_area(*self),
    {
        self.w == 0 || (0x8000_0000_0000_0000 <= self.w && self.w <= 0xfff0_0000_0000_0000)
            || self.h == 0 || (0x8000_0000_0000_0000 <= self.h && self.h <= 0xfff0_0000_0000_0000)
    }
}

/// The accessibility state of an element.
#[derive(Clone, Copy, Debug, PartialEq, Eq, Structural)]
pub struct ElementState {
    pub checked: Option<bool>,
    pub expanded: Option<bool>,
    pub pressed: Option<bool>,
    pub selected: Option<bool>,
    pub disabled: bool,
}

impl Default for ElementState {
    fn default() -> (s: ElementState)
        ensures
            s == (ElementState {
                checked: None,
                expanded: None,
                pressed: None,
                selected: None,
                disabled: false,
            }),
    {
        ElementState {
            checked: None,
            expanded: None,
            pressed: None,
            selected: None,
            disabled: false,
        }
    }
}

/// One element of a snapshot.
#[derive(Debug)]
pub struct AppElement {
    pub index: usize,
    /// The label of the element within its snapshot: `e0`, `e1` and so on.
    pub element_ref: String,
    pub role: String,
    pub name: String,
    pub value: Option<String>,
    pub description: Option<String>,
    pub state: ElementState,
    pub bbox: BBox,
    pub interactable: bool,
    /// The bundle id of the application.
    pub app_id: String,
    /// A digest of role, name, parent role and sibling index that outlives a snapshot.
    pub stable_id: String,
    /// The way from the application to the element, child by child.
    pub ax_path: Vec<u32>,
}

/// What an element is.
pub struct ElementView {
    pub index: usize,
    pub element_ref: Seq<char>,
    pub role: Seq<char>,
    pub name: Seq<char>,
    pub value: Option<Seq<char>>,
    pub description: Option<Seq<char>>,
    pub state: ElementState,
    pub bbox: BBox,
    pub interactable: bool,
    pub app_id: Seq<char>,
    pub stable_id: Seq<char>,
    pub ax_path: Seq<u32>,
}

impl View for AppElement {
    type V = ElementView;

    open spec fn view(&self) -> ElementView {
        ElementView {
            index: self.index,
            element_ref: self.element_ref@,
            role: self.role@,
            name: self.name@,
            value: crate::broker_client::opt_text(self.value),
            description: crate::broker_client::opt_text(self.description),
            state: self.state,
            bbox: self.bbox,
            interactable: self.interactable,
            app_id: self.app_id@,
            stable_id: self.stable_id@,
            ax_path: self.ax_path@,
        }
    }
}

/// What the elements of a list are.
pub open spec fn element_views(v: Seq<AppElement>) -> Seq<ElementView> {
    v.map_values(|e: AppElement| e@)
}

/// The accessibility tree of an application at one time.
#[derive(Debug)]
pub struct AppSnapshot {
    pub snapshot_seq: u64,
    pub app_id: String,
    pub bundle_id: String,
    pub pid: i32,
    pub title: String,
    /// The label of the element that has the focus.
    pub focused_ref: Option<String>,
    pub elements: Vec<AppElement>,
    /// The elements in short, for display.
    pub tree: Json,
    /// The cap that ended the walk early.
    pub truncated_at: Option<&'static str>,
}

/// What can go wrong with native applications.
#[derive(Debug)]
pub enum NativeControlError {
    /// The process may not use the accessibility interface.
    PermissionMissing { settings_url: &'static str },
    /// The process may not record the screen.
    ScreenRecordingMissing { settings_url: &'static str },
    /// No running application has that bundle id.
    AppNotFound { bundle_id: String },
    /// The label belongs to an older snapshot.
    RefStale { r: String },
    /// The element cannot be acted upon.
    NotActionable { r: String, reason: &'static str },
    /// An accessibility call failed with that code.
    AxError(i32),
    AppleScript { msg: String },
    /// The script would take the focus away from the user.
    ActivateForbidden { reason: &'static str },
    /// The session may not touch that application.
    Blocked { bundle_id: String },
    /// The action takes the focus and was not asked for as it must be.
    FocusStealForbidden { what: &'static str },
    PrivateApiUnavailable { what: &'static str },
    /// The window server failed with that code.
    Cgs(i32),
    /// The input source services failed with that code.
    Tis(i32),
    Io(String),
    Timeout(&'static str),
    Internal(String),
    /// There is no native surface on this platform.
    UnsupportedPlatform,
}

/// What `{:?}` writes for a text.
pub uninterp spec fn debug_text(s: Seq<char>) -> Seq<char>;

/// `std::fmt::Debug` of `str`: the text in quotes, with escapes. How it escapes is left to
/// std; only that it depends on the text alone is claimed.
#[verifier::external_body]
pub(crate) fn debug_str(s: &str) -> (r: String)
    ensures
        r@ == debug_text(s@),
{
    format!("{:?}", s)
}

/// What an error says in plain words.
pub open spec fn native_display(e: NativeControlError) -> Seq<char> {
    match e {
        NativeControlError::PermissionMissing { settings_url } => {
            "Accessibility permission missing — open System Settings → Privacy & Security → Accessibility ("@
                + settings_url@ + ") and grant the broker"@
        },
        NativeControlError::ScreenRecordingMissing { settings_url } => {
            "Screen Recording permission missing — open System Settings → Privacy & Security → Screen Recording ("@
                + settings_url@ + ") and grant the broker"@
        },
        NativeControlError::AppNotFound { bundle_id } => "no running application with bundle id "@
            + debug_text(bundle_id@),
        NativeControlError::RefStale { r } => "ref "@ + debug_text(r@)
            + " not present in current snapshot"@,
        NativeControlError::NotActionable { r, reason } => "element "@ + debug_text(r@)
            + " is not actionable: "@ + reason@,
        NativeControlError::AxError(code) => "AX call failed (AXError="@
            + crate::error::signed_decimal(code as int) + ")"@,
        NativeControlError::AppleScript { msg } => "AppleScript: "@ + msg@,
        NativeControlError::ActivateForbidden { reason } => {
            "AppleScript bodies that activate the target app are forbidden ("@ + reason@ + ")"@
        },
        NativeControlError::Blocked { bundle_id } => "app "@ + debug_text(bundle_id@)
            + " is blocked by session policy (app_blocklist)"@,
        NativeControlError::FocusStealForbidden { what } => {
            "focus-stealing action requires capabilities:[\"focus_steal\"] + confirm=true: "@
                + what@
        },
        NativeControlError::PrivateApiUnavailable { what } => "private API unavailable: "@ + what@,
        NativeControlError::Cgs(code) => "CoreGraphics Services error: "@
            + crate::error::signed_decimal(code as int),
        NativeControlError::Tis(code) => "Text Input Source error: "@
            + crate::error::signed_decimal(code as int),
        NativeControlError::Io(msg) => "osascript subprocess: "@ + msg@,
        NativeControlError::Timeout(what) => "timeout: "@ + what@,
        NativeControlError::Internal(msg) => "internal: "@ + msg@,
        NativeControlError::UnsupportedPlatform => "native-control is only implemented on macOS"@,
    }
}

impl NativeControlError {
    /// The error in plain words.
    pub fn describe(&self) -> (s: String)
        ensures
            s@ == native_display(*self),
    {
        match self {
            NativeControlError::PermissionMissing { settings_url } => join3(
                "Accessibility permission missing — open System Settings → Privacy & Security → Accessibility (",
                settings_url,
                ") and grant the broker",
            ),
            NativeControlError::ScreenRecordingMissing { settings_url } => join3(
                "Screen Recording permission missing — open System Settings → Privacy & Security → Screen Recording (",
                settings_url,
                ") and grant the broker",
            ),
            NativeControlError::AppNotFound { bundle_id } => {
                let q = debug_str(bundle_id.as_str());
                join2("no running application with bundle id ", q.as_str())
            },
            NativeControlError::RefStale { r } => {
                let q = debug_str(r.as_str());
                join3("ref ", q.as_str(), " not present in current snapshot")
            },
            NativeControlError::NotActionable { r, reason } => {
                let q = debug_str(r.as_str());
                let head = join3("element ", q.as_str(), " is not actionable: ");
                join2(head.as_str(), reason)
            },
            NativeControlError::AxError(code) => {
                let n = signed_text(*code as i64);
                join3("AX call failed (AXError=", n.as_str(), ")")
            },
            NativeControlError::AppleScript { msg } => join2("AppleScript: ", msg.as_str()),
            NativeControlError::ActivateForbidden { reason } => join3(
                "AppleScript bodies that activate the target app are forbidden (",
                reason,
                ")",
            ),
            NativeControlError::Blocked { bundle_id } => {
                let q = debug_str(bundle_id.as_str());
                join3("app ", q.as_str(), " is blocked by session policy (app_blocklist)")
            },
            NativeControlError::FocusStealForbidden { what } => join2(
                "focus-stealing action requires capabilities:[\"focus_steal\"] + confirm=true: ",
                what,
            ),
            NativeControlError::PrivateApiUnavailable { what } => join2(
                "private API unavailable: ",
                what,
            ),
            NativeControlError::Cgs(code) => {
                let n = signed_text(*code as i64);
                join2("CoreGraphics Services error: ", n.as_str())
            },
            NativeControlError::Tis(code) => {
                let n = signed_text(*code as i64);
                join2("Text Input Source error: ", n.as_str())
            },
            NativeControlError::Io(msg) => join2("osascript subprocess: ", msg.as_str()),
            NativeControlError::Timeout(what) => join2("timeout: ", what),
            NativeControlError::Internal(msg) => join2("internal: ", msg.as_str()),
            NativeControlError::UnsupportedPlatform => {
                "native-control is only implemented on macOS".to_owned()
            },
        }
    }
}

/// One item of a menu.
#[derive(Debug)]
pub struct MenuItem {
    /// The titles from the menu bar down to the item.
    pub path: Vec<String>,
    /// The titles in one text.
    pub display: String,
    pub interactable: bool,
    pub disabled: bool,
    pub shortcut: Option<String>,
}

/// One window.
#[derive(Debug)]
pub struct WindowHandle {
    /// The label of the window: `w0`, `w1` and so on.
    pub window_id: String,
    pub bundle_id: String,
    pub title: String,
    pub bbox: BBox,
    pub minimized: bool,
    pub fullscreen: bool,
    pub main: bool,
}

/// One item of the dock.
#[derive(Debug)]
pub struct DockItem {
    /// The label of the item: `d0`, `d1` and so on.
    pub dock_id: String,
    pub label: String,
    pub running: bool,
    pub bundle_id: String,
}

/// One space of the desktop.
#[derive(Debug)]
pub struct SpaceInfo {
    pub space_id: u64,
    pub name: String,
    pub active: bool,
}

/// What a clipboard entry holds.
#[derive(Clone, Copy, Debug, PartialEq, Eq, Structural)]
pub enum ClipboardKind {
    String,
    Files,
    Image,
    Other,
}

/// One clipboard entry.
#[derive(Debug)]
pub struct ClipboardItem {
    /// The change count of the clipboard when the entry was taken.
    pub change_count: i64,
    pub timestamp_ms: u64,
    /// The type identifiers of the entry.
    pub types: Vec<String>,
    pub kind: ClipboardKind,
    /// The text, where the entry holds text and may show it.
    pub text: Option<String>,
    pub files: Vec<String>,
    /// Whether the text is withheld.
    pub redacted: bool,
}

/// What a session may not touch and may not see.
#[derive(Debug)]
pub struct PrivacyPolicy {
    /// Parts of bundle ids.
    pub app_blocklist: Vec<String>,
    /// Regular expressions.
    pub redact_patterns: Vec<String>,
}

/// An accessibility event.
#[derive(Debug)]
pub struct AxEvent {
    pub bundle_id: String,
    pub topic: AxEventTopic,
    pub timestamp_ms: u64,
    pub element_ref: Option<String>,
    pub role: Option<String>,
    pub name: Option<String>,
    pub value: Option<String>,
}

/// What can be subscribed to.
#[derive(Clone, Copy, Debug, PartialEq, Eq, Hash, PartialOrd, Ord, Structural)]
pub enum AxEventTopic {
    ValueChanged,
    FocusedChanged,
    WindowCreated,
    WindowDestroyed,
    SelectionChanged,
}

/// The name of a topic.
pub open spec fn topic_name(t: AxEventTopic) -> Seq<char> {
    match t {
        AxEventTopic::ValueChanged => "value_changed"@,
        AxEventTopic::FocusedChanged => "focused_changed"@,
        AxEventTopic::WindowCreated => "window_created"@,
        AxEventTopic::WindowDestroyed => "window_destroyed"@,
        AxEventTopic::SelectionChanged => "selection_changed"@,
    }
}

/// All topics.
pub const ALL_TOPICS: [AxEventTopic; 5] = [
    AxEventTopic::ValueChanged,
    AxEventTopic::FocusedChanged,
    AxEventTopic::WindowCreated,
    AxEventTopic::WindowDestroyed,
    AxEventTopic::SelectionChanged,
];

proof fn lemma_topic_names_differ()
    ensures
        forall|a: AxEventTopic, b: AxEventTopic| topic_name(a) == topic_name(b) ==> a == b,
{
    reveal_strlit("value_changed");
    reveal_strlit("focused_changed");
    reveal_strlit("window_created");
    reveal_strlit("window_destroyed");
    reveal_strlit("selection_changed");
    assert("value_changed"@.len() == 13);
    assert("focused_changed"@.len() == 15);
    assert("window_created"@.len() == 14);
    assert("window_destroyed"@.len() == 16);
    assert("selection_changed"@.len() == 17);
}

impl AxEventTopic {
    /// The topic with that name.
    pub fn parse(s: &str) -> (r: Option<AxEventTopic>)
        ensures
            match r {
                Some(t) => topic_name(t) == s@,
                None => forall|t: AxEventTopic| #[trigger] topic_name(t) != s@,
            },
    {
        if same_text(s, "value_changed") {
            Some(AxEventTopic::ValueChanged)
        } else if same_text(s, "focused_changed") {
            Some(AxEventTopic::FocusedChanged)
        } else if same_text(s, "window_created") {
            Some(AxEventTopic::WindowCreated)
        } else if same_text(s, "window_destroyed") {
            Some(AxEventTopic::WindowDestroyed)
        } else if same_text(s, "selection_changed") {
            Some(AxEventTopic::SelectionChanged)
        } else {
            None
        }
    }

    /// The name of the topic.
    pub fn as_str(&self) -> (s: &'static str)
        ensures
            s@ == topic_name(*self),
    {
        match self {
            AxEventTopic::ValueChanged => "value_changed",
            AxEventTopic::FocusedChanged => "focused_changed",
            AxEventTopic::WindowCreated => "window_created",
            AxEventTopic::WindowDestroyed => "window_destroyed",
            AxEventTopic::SelectionChanged => "selection_changed",
        }
    }

    /// Every topic, once.
    pub fn all() -> (v: Vec<AxEventTopic>)
        ensures
            v@ == ALL_TOPICS@,
            forall|t: AxEventTopic| v@.contains(t),
            v@.no_duplicates(),
    {
        let mut v: Vec<AxEventTopic> = Vec::new();
        v.push(AxEventTopic::ValueChanged);
        v.push(AxEventTopic::FocusedChanged);
        v.push(AxEventTopic::WindowCreated);
        v.push(AxEventTopic::WindowDestroyed);
        v.push(AxEventTopic::SelectionChanged);
        proof {
            assert(v@ =~= ALL_TOPICS@);
            assert forall|t: AxEventTopic| v@.contains(t) by {
                match t {
                    AxEventTopic::ValueChanged => {
                        assert(v@[0] == t);
                    },
                    AxEventTopic::FocusedChanged => {
                        assert(v@[1] == t);
                    },
                    AxEventTopic::WindowCreated => {
                        assert(v@[2] == t);
                    },
                    AxEventTopic::WindowDestroyed => {
                        assert(v@[3] == t);
                    },
                    AxEventTopic::SelectionChanged => {
                        assert(v@[4] == t);
                    },
                }
            }
        }
        v
    }
}

/// A topic is read back from its name, and from no other topic's name.
pub proof fn topic_names_round_trip(a: AxEventTopic, b: AxEventTopic)
    ensures
        topic_name(a) == topic_name(b) <==> a == b,
{
    lemma_topic_names_differ();
}

/// A subscription to events.
#[derive(Debug)]
pub struct AxSubscription {
    pub subscription_id: String,
    pub bundle_id: String,
    pub topics: Vec<AxEventTopic>,
}

} // verus!
