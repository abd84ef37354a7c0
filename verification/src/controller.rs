//! The applications of a session: their latest snapshots, subscriptions and clipboard.
//!
//! Every request that names an application is first held against the policy of the session.
//! What is left to do after that is handed back as an [`AppAction`].
use vstd::prelude::*;

use crate::actions::{activates, eval_script, require_area, spells_activate, wrapped, ACTIVATE_REASON};
use crate::ax_walk::{build_tree, tree_view};
use crate::broker_client::{opt_text, texts};
use crate::clipboard::ClipboardCache;
use crate::dock::focus_allowed;
use crate::json::JsonView;
use crate::patterns::{any_matches, compilable};
use crate::privacy::{blocked_by, withheld, RedactionEngine};
use crate::slots::SlotMap;
use crate::text::{decimal, decimal_text, join2, same_text};
use crate::types::{
    element_views, no_area, AppElement, AppSnapshot, AxSubscription, ClipboardItem, ElementView,
    NativeControlError, PrivacyPolicy,
};
use crate::window::raise_allowed;

verus! {

/// What is left to do for a request.
#[derive(Debug)]
pub enum AppAction {
    /// Walk the application and store the snapshot under that number.
    Snapshot { bundle_id: String, seq: u64 },
    /// Press the element that the path leads to.
    Click { app_id: String, r: String, path: Vec<u32> },
    /// Put a text into the element that the path leads to.
    TypeText { app_id: String, r: String, path: Vec<u32>, text: String, clear_first: bool },
    /// Scroll the application.
    Scroll { bundle_id: String },
    /// Run the script.
    Eval { script: String },
    /// List the items of the menu bar.
    MenuList { bundle_id: String },
    /// Press the item of the menu bar that the titles lead to.
    MenuClick { bundle_id: String, path: Vec<String> },
    /// List the windows.
    WindowList { bundle_id: String },
    /// Change a window.
    Window { bundle_id: String, window_id: String, change: WindowChange },
    /// Observe the application under that subscription id.
    Subscribe { bundle_id: String, subscription_id: String },
}

/// What is to be done to a window. Coordinates are bit patterns of doubles.
#[derive(Clone, Copy, Debug, PartialEq, Eq, Structural)]
pub enum WindowChange {
    Raise,
    Minimize(bool),
    Fullscreen(bool),
    MoveTo { x: u64, y: u64 },
    Resize { w: u64, h: u64 },
}

/// What a snapshot is.
pub struct SnapshotView {
    pub snapshot_seq: u64,
    pub app_id: Seq<char>,
    pub bundle_id: Seq<char>,
    pub pid: i32,
    pub title: Seq<char>,
    pub focused_ref: Option<Seq<char>>,
    pub elements: Seq<ElementView>,
    pub tree: JsonView,
    pub truncated_at: Option<Seq<char>>,
}

impl View for AppSnapshot {
    type V = SnapshotView;

    open spec fn view(&self) -> SnapshotView {
        SnapshotView {
            snapshot_seq: self.snapshot_seq,
            app_id: self.app_id@,
            bundle_id: self.bundle_id@,
            pid: self.pid,
            title: self.title@,
            focused_ref: opt_text(self.focused_ref),
            elements: element_views(self.elements@),
            tree: self.tree@,
            truncated_at: match self.truncated_at {
                Some(t) => Some(t@),
                None => None,
            },
        }
    }
}

/// A text as the session may see it.
pub open spec fn shown_text(patterns: Seq<Seq<char>>, text: Seq<char>) -> Seq<char> {
    if any_matches(patterns, text) {
        withheld(text)
    } else {
        text
    }
}

pub open spec fn shown_opt(patterns: Seq<Seq<char>>, text: Option<Seq<char>>) -> Option<
    Seq<char>,
> {
    match text {
        Some(t) => Some(shown_text(patterns, t)),
        None => None,
    }
}

/// An element as the session may see it: name, value and description, each for itself.
pub open spec fn shown_element(patterns: Seq<Seq<char>>, e: ElementView) -> ElementView {
    ElementView {
        name: shown_text(patterns, e.name),
        value: shown_opt(patterns, e.value),
        description: shown_opt(patterns, e.description),
        ..e
    }
}

pub open spec fn shown_elements(patterns: Seq<Seq<char>>, elements: Seq<ElementView>) -> Seq<
    ElementView,
> {
    elements.map_values(|e: ElementView| shown_element(patterns, e))
}

/// A snapshot as the session may see it. Without a policy it is what it is.
pub open spec fn shown_snapshot(
    patterns: Seq<Seq<char>>,
    blocklist: Seq<Seq<char>>,
    s: SnapshotView,
) -> SnapshotView {
    if patterns.len() == 0 && blocklist.len() == 0 {
        s
    } else {
        let elements = shown_elements(patterns, s.elements);
        SnapshotView { elements, tree: tree_view(elements), ..s }
    }
}

/// The `i`-th element has that label, and none before it.
pub open spec fn first_ref(elements: Seq<ElementView>, r: Seq<char>, i: int) -> bool {
    &&& 0 <= i < elements.len()
    &&& elements[i].element_ref == r
    &&& forall|k: int| 0 <= k < i ==> (#[trigger] elements[k]).element_ref != r
}

pub open spec fn no_ref(elements: Seq<ElementView>, r: Seq<char>) -> bool {
    forall|k: int| 0 <= k < elements.len() ==> (#[trigger] elements[k]).element_ref != r
}

/// The applications of a session.
pub struct AppController {
    seq: u64,
    snapshots: SlotMap<AppSnapshot>,
    subscriptions: Vec<AxSubscription>,
    privacy: RedactionEngine,
    clipboard: ClipboardCache,
}

/// Why a request for a blocked application is refused.
pub open spec fn is_blocked_error(e: NativeControlError, bundle_id: Seq<char>) -> bool {
    e matches NativeControlError::Blocked { bundle_id: id } && id@ == bundle_id
}

/// The label is stale.
pub open spec fn is_stale(e: NativeControlError, r: Seq<char>) -> bool {
    e matches NativeControlError::RefStale { r: what } && what@ == r
}

impl AppController {
    pub closed spec fn wf(self) -> bool {
        self.snapshots.wf() && self.clipboard.wf()
    }

    /// The number that the latest snapshot or subscription took.
    pub closed spec fn count(self) -> u64 {
        self.seq
    }

    /// The latest snapshot of each application.
    pub closed spec fn snapshots(self) -> Map<Seq<char>, AppSnapshot> {
        self.snapshots@
    }

    /// The subscriptions, the oldest first.
    pub closed spec fn subscriptions(self) -> Seq<AxSubscription> {
        self.subscriptions@
    }

    pub closed spec fn policy(self) -> RedactionEngine {
        self.privacy
    }

    pub closed spec fn clipboard_cache(self) -> ClipboardCache {
        self.clipboard
    }

    /// The session may not touch that application.
    pub open spec fn blocks(self, bundle_id: Seq<char>) -> bool {
        blocked_by(self.policy().blocklist(), bundle_id)
    }

    /// The label stands for that element of the latest snapshot of the application.
    pub open spec fn resolves(self, bundle_id: Seq<char>, r: Seq<char>, e: ElementView) -> bool {
        self.snapshots().contains_key(bundle_id) && exists|i: int| #[trigger]
            first_ref(self.snapshots()[bundle_id]@.elements, r, i)
                && self.snapshots()[bundle_id]@.elements[i] == e
    }

    /// The label stands for nothing: there is no snapshot, or it has no such label.
    pub open spec fn stale(self, bundle_id: Seq<char>, r: Seq<char>) -> bool {
        self.snapshots().contains_key(bundle_id) ==> no_ref(
            self.snapshots()[bundle_id]@.elements,
            r,
        )
    }

    pub fn new() -> (c: AppController)
        ensures
            c.wf(),
            c.count() == 0,
            c.snapshots() == Map::<Seq<char>, AppSnapshot>::empty(),
            c.subscriptions() == Seq::<AxSubscription>::empty(),
            c.policy().patterns() == Seq::<Seq<char>>::empty(),
            c.policy().blocklist() == Seq::<Seq<char>>::empty(),
            c.clipboard_cache()@.len() == 0,
            c.clipboard_cache().seen() == -1,
    {
        AppController {
            seq: 0,
            snapshots: SlotMap::new(),
            subscriptions: Vec::new(),
            privacy: RedactionEngine::new(),
            clipboard: ClipboardCache::new(),
        }
    }

    /// Whether the session may not touch that application.
    pub fn is_blocked(&self, bundle_id: &str) -> (r: bool)
        ensures
            r == self.blocks(bundle_id@),
    {
        self.privacy.is_blocked(bundle_id)
    }

    /// Refuses a request for an application that the session may not touch.
    pub fn require_not_blocked(&self, bundle_id: &str) -> (r: Result<(), NativeControlError>)
        ensures
            match r {
                Ok(_) => !self.blocks(bundle_id@),
                Err(e) => self.blocks(bundle_id@) && is_blocked_error(e, bundle_id@),
            },
    {
        if self.privacy.is_blocked(bundle_id) {
            Err(NativeControlError::Blocked { bundle_id: bundle_id.to_owned() })
        } else {
            Ok(())
        }
    }

    /// The policy in force.
    pub fn privacy(&self) -> (p: &RedactionEngine)
        ensures
            *p == self.policy(),
    {
        &self.privacy
    }

    /// Puts a policy in force in place of the one before.
    pub fn install_privacy(&mut self, policy: &PrivacyPolicy)
        requires
            old(self).wf(),
        ensures
            final(self).wf(),
            final(self).policy().patterns() == compilable(texts(policy.redact_patterns@)),
            final(self).policy().blocklist() == texts(policy.app_blocklist@),
            final(self).snapshots() == old(self).snapshots(),
            final(self).subscriptions() == old(self).subscriptions(),
            final(self).count() == old(self).count(),
            final(self).clipboard_cache() == old(self).clipboard_cache(),
    {
        self.privacy.install(policy);
    }

    /// The clipboard history of the session.
    pub fn clipboard(&self) -> (c: &ClipboardCache)
        ensures
            *c == self.clipboard_cache(),
    {
        &self.clipboard
    }

    /// Whether the clipboard has changed since the latest look, and notes the look.
    pub fn clipboard_changed(&mut self, change_count: i64) -> (r: bool)
        requires
            old(self).wf(),
        ensures
            final(self).wf(),
            final(self).policy() == old(self).policy(),
            final(self).snapshots() == old(self).snapshots(),
            final(self).subscriptions() == old(self).subscriptions(),
            final(self).count() == old(self).count(),
            final(self).clipboard_cache()@ == old(self).clipboard_cache()@,
            r == (change_count > old(self).clipboard_cache().seen()),
            final(self).clipboard_cache().seen() == (if r {
                change_count
            } else {
                old(self).clipboard_cache().seen()
            }),
    {
        self.clipboard.changed(change_count)
    }

    /// Adds a clipboard entry.
    pub fn clipboard_push(&mut self, item: ClipboardItem)
        requires
            old(self).wf(),
        ensures
            final(self).wf(),
            final(self).policy() == old(self).policy(),
            final(self).snapshots() == old(self).snapshots(),
            final(self).subscriptions() == old(self).subscriptions(),
            final(self).count() == old(self).count(),
            final(self).clipboard_cache()@ == crate::clipboard::pushed(
                old(self).clipboard_cache()@,
                item@,
            ),
            final(self).clipboard_cache().seen() == old(self).clipboard_cache().seen(),
    {
        self.clipboard.push(item);
    }

    /// Begins a snapshot of an application: gives it the next number.
    pub fn snapshot(&mut self, bundle_id: &str) -> (r: Result<AppAction, NativeControlError>)
        requires
            old(self).wf(),
        ensures
            final(self).wf(),
            final(self).policy() == old(self).policy(),
            final(self).snapshots() == old(self).snapshots(),
            final(self).subscriptions() == old(self).subscriptions(),
            final(self).clipboard_cache() == old(self).clipboard_cache(),
            match r {
                Ok(a) => !old(self).blocks(bundle_id@) && final(self).count()
                    == vstd::wrapping::u64_specs::wrapping_add(old(self).count(), 1) && (a matches AppAction::Snapshot {
                    bundle_id: id,
                    seq,
                } && id@ == bundle_id@ && seq == final(self).count()),
                Err(e) => old(self).blocks(bundle_id@) && is_blocked_error(e, bundle_id@)
                    && final(self).count() == old(self).count(),
            },
    {
        match self.require_not_blocked(bundle_id) {
            Ok(_) => {},
            Err(e) => {
                return Err(e);
            },
        }
        self.seq = self.seq.wrapping_add(1);
        Ok(AppAction::Snapshot { bundle_id: bundle_id.to_owned(), seq: self.seq })
    }

    /// Ends a snapshot of an application: from now on it is the latest, as the session may
    /// see it.
    pub fn publish(&mut self, bundle_id: &str, snap: AppSnapshot)
        requires
            old(self).wf(),
        ensures
            final(self).wf(),
            final(self).policy() == old(self).policy(),
            final(self).count() == old(self).count(),
            final(self).subscriptions() == old(self).subscriptions(),
            final(self).clipboard_cache() == old(self).clipboard_cache(),
            final(self).snapshots().dom() == old(self).snapshots().dom().insert(bundle_id@),
            final(self).snapshots()[bundle_id@]@ == shown_snapshot(
                old(self).policy().patterns(),
                old(self).policy().blocklist(),
                snap@,
            ),
            forall|k: Seq<char>|
                k != bundle_id@ && old(self).snapshots().contains_key(k) ==> #[trigger] final(self).snapshots()[k] == old(self).snapshots()[k],
    {
        let shown = self.redact_snapshot(snap);
        self.snapshots.insert(bundle_id, shown);
        assert(self.snapshots().dom() =~= old(self).snapshots().dom().insert(bundle_id@));
    }

    /// The latest snapshot of an application.
    pub fn latest(&self, bundle_id: &str) -> (r: Option<&AppSnapshot>)
        requires
            self.wf(),
        ensures
            match r {
                Some(s) => self.snapshots().contains_key(bundle_id@) && *s
                    == self.snapshots()[bundle_id@],
                None => !self.snapshots().contains_key(bundle_id@),
            },
    {
        self.snapshots.get(bundle_id)
    }

    /// The element of the latest snapshot that a label stands for.
    pub fn resolve_ref(&self, bundle_id: &str, r: &str) -> (o: Result<
        &AppElement,
        NativeControlError,
    >)
        requires
            self.wf(),
        ensures
            match o {
                Ok(e) => self.resolves(bundle_id@, r@, e@),
                Err(e) => self.stale(bundle_id@, r@) && is_stale(e, r@),
            },
    {
        let snap = match self.snapshots.get(bundle_id) {
            Some(s) => s,
            None => {
                return Err(NativeControlError::RefStale { r: r.to_owned() });
            },
        };
        let ghost views = element_views(snap.elements@);
        let mut i: usize = 0;
        while i < snap.elements.len()
            invariant
                i <= snap.elements@.len(),
                views == element_views(snap.elements@),
                self.snapshots().contains_key(bundle_id@),
                *snap == self.snapshots()[bundle_id@],
                forall|k: int| 0 <= k < i ==> (#[trigger] views[k]).element_ref != r@,
            decreases snap.elements@.len() - i,
        {
            let e = &snap.elements[i];
            assert(views[i as int] == e@);
            if same_text(e.element_ref.as_str(), r) {
                assert(self.snapshots()[bundle_id@]@.elements == views);
                assert(first_ref(self.snapshots()[bundle_id@]@.elements, r@, i as int));
                return Ok(e);
            }
            i += 1;
        }
        Err(NativeControlError::RefStale { r: r.to_owned() })
    }

    /// A click on the element that a label stands for.
    pub fn click(&self, bundle_id: &str, r: &str) -> (o: Result<AppAction, NativeControlError>)
        requires
            self.wf(),
        ensures
            self.blocks(bundle_id@) ==> (o matches Err(e) && is_blocked_error(e, bundle_id@)),
            !self.blocks(bundle_id@) && self.stale(bundle_id@, r@) ==> (o matches Err(e)
                && is_stale(e, r@)),
            !self.blocks(bundle_id@) && !self.stale(bundle_id@, r@) ==> exists|e: ElementView|
                #[trigger]
                self.resolves(bundle_id@, r@, e) && click_planned(e, o),
    {
        match self.require_not_blocked(bundle_id) {
            Ok(_) => {},
            Err(e) => {
                return Err(e);
            },
        }
        match self.resolve_ref(bundle_id, r) {
            Ok(elem) => {
                let ghost view = elem@;
                proof {
                    let all = self.snapshots()[bundle_id@]@.elements;
                    let i = choose|i: int| #[trigger]
                        first_ref(all, r@, i) && all[i] == view;
                    assert(all[i].element_ref == r@);
                    assert(!self.stale(bundle_id@, r@));
                }
                let out = match require_area(elem) {
                    Ok(_) => Ok(
                        AppAction::Click {
                            app_id: elem.app_id.clone(),
                            r: elem.element_ref.clone(),
                            path: copy_path(&elem.ax_path),
                        },
                    ),
                    Err(e) => Err(e),
                };
                assert(self.resolves(bundle_id@, r@, view) && click_planned(view, out));
                out
            },
            Err(e) => Err(e),
        }
    }

    /// Typing into the element that a label stands for.
    pub fn type_text(&self, bundle_id: &str, r: &str, text: &str, clear_first: bool) -> (o: Result<
        AppAction,
        NativeControlError,
    >)
        requires
            self.wf(),
        ensures
            self.blocks(bundle_id@) ==> (o matches Err(e) && is_blocked_error(e, bundle_id@)),
            !self.blocks(bundle_id@) && self.stale(bundle_id@, r@) ==> (o matches Err(e)
                && is_stale(e, r@)),
            !self.blocks(bundle_id@) && !self.stale(bundle_id@, r@) ==> exists|e: ElementView|
                #[trigger]
                self.resolves(bundle_id@, r@, e) && type_planned(e, text@, clear_first, o),
    {
        match self.require_not_blocked(bundle_id) {
            Ok(_) => {},
            Err(e) => {
                return Err(e);
            },
        }
        match self.resolve_ref(bundle_id, r) {
            Ok(elem) => {
                let ghost view = elem@;
                proof {
                    let all = self.snapshots()[bundle_id@]@.elements;
                    let i = choose|i: int| #[trigger]
                        first_ref(all, r@, i) && all[i] == view;
                    assert(all[i].element_ref == r@);
                    assert(!self.stale(bundle_id@, r@));
                }
                let out = match require_area(elem) {
                    Ok(_) => Ok(
                        AppAction::TypeText {
                            app_id: elem.app_id.clone(),
                            r: elem.element_ref.clone(),
                            path: copy_path(&elem.ax_path),
                            text: text.to_owned(),
                            clear_first,
                        },
                    ),
                    Err(e) => Err(e),
                };
                assert(self.resolves(bundle_id@, r@, view) && type_planned(
                    view,
                    text@,
                    clear_first,
                    out,
                ));
                out
            },
            Err(e) => Err(e),
        }
    }

    /// Scrolling in an application. A label, where one is given, must stand for something.
    pub fn scroll(&self, bundle_id: &str, r: Option<&str>) -> (o: Result<
        AppAction,
        NativeControlError,
    >)
        requires
            self.wf(),
        ensures
            self.blocks(bundle_id@) ==> (o matches Err(e) && is_blocked_error(e, bundle_id@)),
            !self.blocks(bundle_id@) ==> match o {
                Ok(AppAction::Scroll { bundle_id: id }) => id@ == bundle_id@ && (r matches Some(
                    label,
                ) ==> !self.stale(bundle_id@, label@)),
                Ok(_) => false,
                Err(e) => r matches Some(label) && self.stale(bundle_id@, label@) && is_stale(
                    e,
                    label@,
                ),
            },
    {
        match self.require_not_blocked(bundle_id) {
            Ok(_) => {},
            Err(e) => {
                return Err(e);
            },
        }
        match r {
            Some(label) => match self.resolve_ref(bundle_id, label) {
                Ok(elem) => {
                    proof {
                        let all = self.snapshots()[bundle_id@]@.elements;
                        let i = choose|i: int| #[trigger]
                            first_ref(all, label@, i) && all[i] == elem@;
                        assert(all[i].element_ref == label@);
                    }
                },
                Err(e) => {
                    return Err(e);
                },
            },
            None => {},
        }
        Ok(AppAction::Scroll { bundle_id: bundle_id.to_owned() })
    }

    /// A script for an application.
    pub fn eval(&self, bundle_id: &str, script: &str) -> (o: Result<AppAction, NativeControlError>)
        ensures
            self.blocks(bundle_id@) ==> (o matches Err(e) && is_blocked_error(e, bundle_id@)),
            !self.blocks(bundle_id@) ==> match o {
                Ok(AppAction::Eval { script: s }) => !activates(script@) && s@ == wrapped(
                    bundle_id@,
                    script@,
                ),
                Ok(_) => false,
                Err(NativeControlError::ActivateForbidden { reason }) => activates(script@)
                    && reason@ == ACTIVATE_REASON@,
                Err(_) => false,
            },
            spells_activate(script@) ==> o is Err,
    {
        match self.require_not_blocked(bundle_id) {
            Ok(_) => {},
            Err(e) => {
                return Err(e);
            },
        }
        match eval_script(bundle_id, script) {
            Ok(s) => Ok(AppAction::Eval { script: s }),
            Err(e) => Err(e),
        }
    }

    /// The items of the menu bar.
    pub fn menu_list(&self, bundle_id: &str) -> (o: Result<AppAction, NativeControlError>)
        ensures
            match o {
                Ok(AppAction::MenuList { bundle_id: id }) => !self.blocks(bundle_id@) && id@
                    == bundle_id@,
                Ok(_) => false,
                Err(e) => self.blocks(bundle_id@) && is_blocked_error(e, bundle_id@),
            },
    {
        match self.require_not_blocked(bundle_id) {
            Ok(_) => Ok(AppAction::MenuList { bundle_id: bundle_id.to_owned() }),
            Err(e) => Err(e),
        }
    }

    /// A click on an item of the menu bar.
    pub fn menu_click(&self, bundle_id: &str, path: Vec<String>) -> (o: Result<
        AppAction,
        NativeControlError,
    >)
        ensures
            self.blocks(bundle_id@) ==> (o matches Err(e) && is_blocked_error(e, bundle_id@)),
            !self.blocks(bundle_id@) ==> match o {
                Ok(AppAction::MenuClick { bundle_id: id, path: p }) => path@.len() > 0 && id@
                    == bundle_id@ && p@ == path@,
                Ok(_) => false,
                Err(NativeControlError::Internal(msg)) => path@.len() == 0 && msg@
                    == "empty menu path"@,
                Err(_) => false,
            },
    {
        match self.require_not_blocked(bundle_id) {
            Ok(_) => {},
            Err(e) => {
                return Err(e);
            },
        }
        match crate::menu::require_path(&path) {
            Ok(_) => Ok(AppAction::MenuClick { bundle_id: bundle_id.to_owned(), path }),
            Err(e) => Err(e),
        }
    }

    /// The windows of an application.
    pub fn window_list(&self, bundle_id: &str) -> (o: Result<AppAction, NativeControlError>)
        ensures
            match o {
                Ok(AppAction::WindowList { bundle_id: id }) => !self.blocks(bundle_id@) && id@
                    == bundle_id@,
                Ok(_) => false,
                Err(e) => self.blocks(bundle_id@) && is_blocked_error(e, bundle_id@),
            },
    {
        match self.require_not_blocked(bundle_id) {
            Ok(_) => Ok(AppAction::WindowList { bundle_id: bundle_id.to_owned() }),
            Err(e) => Err(e),
        }
    }

    /// Raising a window. That takes the focus.
    pub fn window_raise(&self, bundle_id: &str, window_id: &str, confirm: bool, focus_steal: bool) -> (o:
        Result<AppAction, NativeControlError>)
        ensures
            self.blocks(bundle_id@) ==> (o matches Err(e) && is_blocked_error(e, bundle_id@)),
            !self.blocks(bundle_id@) && focus_allowed(confirm, focus_steal) ==> window_planned(
                bundle_id@,
                window_id@,
                WindowChange::Raise,
                o,
            ),
            !self.blocks(bundle_id@) && !focus_allowed(confirm, focus_steal) ==> (o matches Err(
                NativeControlError::FocusStealForbidden { what },
            ) && what@ == "app.window.raise"@),
    {
        match self.require_not_blocked(bundle_id) {
            Ok(_) => {},
            Err(e) => {
                return Err(e);
            },
        }
        match raise_allowed(confirm, focus_steal) {
            Ok(_) => self.change_window(bundle_id, window_id, WindowChange::Raise),
            Err(e) => Err(e),
        }
    }

    fn change_window(&self, bundle_id: &str, window_id: &str, change: WindowChange) -> (o: Result<
        AppAction,
        NativeControlError,
    >)
        ensures
            self.blocks(bundle_id@) ==> (o matches Err(e) && is_blocked_error(e, bundle_id@)),
            !self.blocks(bundle_id@) ==> window_planned(bundle_id@, window_id@, change, o),
    {
        match self.require_not_blocked(bundle_id) {
            Ok(_) => Ok(
                AppAction::Window {
                    bundle_id: bundle_id.to_owned(),
                    window_id: window_id.to_owned(),
                    change,
                },
            ),
            Err(e) => Err(e),
        }
    }

    pub fn window_set_minimized(&self, bundle_id: &str, window_id: &str, value: bool) -> (o: Result<
        AppAction,
        NativeControlError,
    >)
        ensures
            self.blocks(bundle_id@) ==> (o matches Err(e) && is_blocked_error(e, bundle_id@)),
            !self.blocks(bundle_id@) ==> window_planned(
                bundle_id@,
                window_id@,
                WindowChange::Minimize(value),
                o,
            ),
    {
        self.change_window(bundle_id, window_id, WindowChange::Minimize(value))
    }

    pub fn window_set_fullscreen(&self, bundle_id: &str, window_id: &str, value: bool) -> (o:
        Result<AppAction, NativeControlError>)
        ensures
            self.blocks(bundle_id@) ==> (o matches Err(e) && is_blocked_error(e, bundle_id@)),
            !self.blocks(bundle_id@) ==> window_planned(
                bundle_id@,
                window_id@,
                WindowChange::Fullscreen(value),
                o,
            ),
    {
        self.change_window(bundle_id, window_id, WindowChange::Fullscreen(value))
    }

    /// Moving a window. The coordinates are bit patterns of doubles.
    pub fn window_move_to(&self, bundle_id: &str, window_id: &str, x: u64, y: u64) -> (o: Result<
        AppAction,
        NativeControlError,
    >)
        ensures
            self.blocks(bundle_id@) ==> (o matches Err(e) && is_blocked_error(e, bundle_id@)),
            !self.blocks(bundle_id@) ==> window_planned(
                bundle_id@,
                window_id@,
                (WindowChange::MoveTo { x, y }),
                o,
            ),
    {
        self.change_window(bundle_id, window_id, WindowChange::MoveTo { x, y })
    }

    /// Resizing a window. The sizes are bit patterns of doubles.
    pub fn window_resize(&self, bundle_id: &str, window_id: &str, w: u64, h: u64) -> (o: Result<
        AppAction,
        NativeControlError,
    >)
        ensures
            self.blocks(bundle_id@) ==> (o matches Err(e) && is_blocked_error(e, bundle_id@)),
            !self.blocks(bundle_id@) ==> window_planned(
                bundle_id@,
                window_id@,
                (WindowChange::Resize { w, h }),
                o,
            ),
    {
        self.change_window(bundle_id, window_id, WindowChange::Resize { w, h })
    }

    /// Moving a window to another space. There is no way to do so.
    pub fn spaces_move_window(&self, bundle_id: &str, delta: i32) -> (o: Result<
        (),
        NativeControlError,
    >)
        ensures
            self.blocks(bundle_id@) ==> (o matches Err(e) && is_blocked_error(e, bundle_id@)),
            !self.blocks(bundle_id@) ==> (o matches Err(
                NativeControlError::PrivateApiUnavailable { what },
            ) && what@
                == "per-window space move requires gesture composition (use app.gesture.* + spaces.switch_relative)"@),
    {
        match self.require_not_blocked(bundle_id) {
            Ok(_) => crate::spaces::move_window_relative(bundle_id, delta),
            Err(e) => Err(e),
        }
    }

    /// Begins a subscription to the events of an application: gives it the next number.
    pub fn subscribe(&mut self, bundle_id: &str) -> (r: Result<AppAction, NativeControlError>)
        requires
            old(self).wf(),
        ensures
            final(self).wf(),
            final(self).policy() == old(self).policy(),
            final(self).snapshots() == old(self).snapshots(),
            final(self).subscriptions() == old(self).subscriptions(),
            final(self).clipboard_cache() == old(self).clipboard_cache(),
            match r {
                Ok(a) => !old(self).blocks(bundle_id@) && final(self).count()
                    == vstd::wrapping::u64_specs::wrapping_add(old(self).count(), 1) && (a matches AppAction::Subscribe {
                    bundle_id: id,
                    subscription_id,
                } && id@ == bundle_id@ && subscription_id@ == subscription_name(
                    final(self).count(),
                )),
                Err(e) => old(self).blocks(bundle_id@) && is_blocked_error(e, bundle_id@)
                    && final(self).count() == old(self).count(),
            },
    {
        match self.require_not_blocked(bundle_id) {
            Ok(_) => {},
            Err(e) => {
                return Err(e);
            },
        }
        self.seq = self.seq.wrapping_add(1);
        let n = decimal_text(self.seq);
        Ok(
            AppAction::Subscribe {
                bundle_id: bundle_id.to_owned(),
                subscription_id: join2("axsub-", n.as_str()),
            },
        )
    }

    /// Ends the beginning of a subscription: it is live now.
    pub fn subscribed(&mut self, sub: AxSubscription)
        requires
            old(self).wf(),
        ensures
            final(self).wf(),
            final(self).policy() == old(self).policy(),
            final(self).snapshots() == old(self).snapshots(),
            final(self).count() == old(self).count(),
            final(self).clipboard_cache() == old(self).clipboard_cache(),
            final(self).subscriptions() == old(self).subscriptions().push(sub),
    {
        self.subscriptions.push(sub);
    }

    /// Ends a subscription. Says whether there was one.
    pub fn unsubscribe(&mut self, subscription_id: &str) -> (removed: bool)
        requires
            old(self).wf(),
        ensures
            final(self).wf(),
            final(self).policy() == old(self).policy(),
            final(self).snapshots() == old(self).snapshots(),
            final(self).count() == old(self).count(),
            final(self).clipboard_cache() == old(self).clipboard_cache(),
            final(self).subscriptions() == without(old(self).subscriptions(), subscription_id@),
            removed == exists|i: int|
                0 <= i < old(self).subscriptions().len() && (#[trigger] old(self).subscriptions()[i]).subscription_id@ == subscription_id@,
    {
        let ghost all = self.subscriptions@;
        let mut kept: Vec<AxSubscription> = Vec::new();
        let mut removed = false;
        let total: usize = self.subscriptions.len();
        let mut i: usize = 0;
        assert(self.subscriptions@ =~= all.skip(0));
        assert(all.take(0) =~= Seq::<AxSubscription>::empty());
        while i < total
            invariant
                i <= total,
                total == all.len(),
                self.wf(),
                self.policy() == old(self).policy(),
                self.snapshots() == old(self).snapshots(),
                self.count() == old(self).count(),
                self.clipboard_cache() == old(self).clipboard_cache(),
                self.subscriptions@ == all.skip(i as int),
                kept@ == without(all.take(i as int), subscription_id@),
                removed == exists|k: int|
                    0 <= k < i && (#[trigger] all[k]).subscription_id@ == subscription_id@,
            decreases all.len() - i,
        {
            let sub = self.subscriptions.remove(0);
            assert(sub == all[i as int]);
            assert(all.skip(i as int).remove(0) =~= all.skip(i + 1));
            assert(all.take(i + 1).drop_last() =~= all.take(i as int));
            if same_text(sub.subscription_id.as_str(), subscription_id) {
                removed = true;
            } else {
                kept.push(sub);
            }
            i += 1;
        }
        assert(all.take(i as int) =~= all);
        self.subscriptions = kept;
        removed
    }

    /// Ends all subscriptions.
    pub fn shutdown(&mut self)
        requires
            old(self).wf(),
        ensures
            final(self).wf(),
            final(self).policy() == old(self).policy(),
            final(self).snapshots() == old(self).snapshots(),
            final(self).count() == old(self).count(),
            final(self).clipboard_cache() == old(self).clipboard_cache(),
            final(self).subscriptions() == Seq::<AxSubscription>::empty(),
    {
        self.subscriptions = Vec::new();
    }

    /// A snapshot as the session may see it.
    pub fn redact_snapshot(&self, snap: AppSnapshot) -> (s: AppSnapshot)
        ensures
            s@ == shown_snapshot(self.policy().patterns(), self.policy().blocklist(), snap@),
    {
        if self.privacy.is_empty() {
            return snap;
        }
        let ghost patterns = self.policy().patterns();
        let mut snap = snap;
        let ghost whole = snap@;
        let mut elements: Vec<AppElement> = Vec::new();
        let ghost all = snap.elements@;
        let total: usize = snap.elements.len();
        let mut i: usize = 0;
        assert(all.skip(0) =~= all);
        while i < total
            invariant
                i <= total,
                total == all.len(),
                patterns == self.policy().patterns(),
                snap.elements@ == all.skip(i as int),
                elements@.len() == i,
                forall|k: int|
                    0 <= k < i ==> (#[trigger] elements@[k])@ == shown_element(patterns, all[k]@),
                snap@ == (SnapshotView { elements: element_views(all.skip(i as int)), ..whole }),
            decreases all.len() - i,
        {
            let e = snap.elements.remove(0);
            assert(e == all[i as int]);
            assert(all.skip(i as int).remove(0) =~= all.skip(i + 1));
            elements.push(self.redact_element(e));
            i += 1;
        }
        assert(element_views(elements@) =~= shown_elements(patterns, element_views(all)));
        snap.tree = build_tree(&elements);
        snap.elements = elements;
        snap
    }

    /// An element as the session may see it.
    pub fn redact_element(&self, elem: AppElement) -> (e: AppElement)
        ensures
            e@ == shown_element(self.policy().patterns(), elem@),
    {
        let mut e = elem;
        e.name = self.show(e.name);
        e.value = match e.value {
            Some(v) => Some(self.show(v)),
            None => None,
        };
        e.description = match e.description {
            Some(d) => Some(self.show(d)),
            None => None,
        };
        e
    }

    fn show(&self, text: String) -> (s: String)
        ensures
            s@ == shown_text(self.policy().patterns(), text@),
    {
        match self.privacy.redact_text(text.as_str()) {
            Some(r) => r,
            None => text,
        }
    }
}

/// A click on that element is planned, or refused for want of area.
pub open spec fn click_planned(e: ElementView, o: Result<AppAction, NativeControlError>) -> bool {
    match o {
        Ok(AppAction::Click { app_id, r, path }) => !no_area(e.bbox) && app_id@ == e.app_id && r@
            == e.element_ref && path@ == e.ax_path,
        Ok(_) => false,
        Err(NativeControlError::NotActionable { r, reason }) => no_area(e.bbox) && r@
            == e.element_ref && reason@ == "zero area"@,
        Err(_) => false,
    }
}

/// Typing into that element is planned, or refused for want of area.
pub open spec fn type_planned(
    e: ElementView,
    what: Seq<char>,
    clear: bool,
    o: Result<AppAction, NativeControlError>,
) -> bool {
    match o {
        Ok(AppAction::TypeText { app_id, r, path, text, clear_first }) => !no_area(e.bbox)
            && app_id@ == e.app_id && r@ == e.element_ref && path@ == e.ax_path && text@ == what
            && clear_first == clear,
        Ok(_) => false,
        Err(NativeControlError::NotActionable { r, reason }) => no_area(e.bbox) && r@
            == e.element_ref && reason@ == "zero area"@,
        Err(_) => false,
    }
}

/// That change of that window is planned.
pub open spec fn window_planned(
    bundle_id: Seq<char>,
    window_id: Seq<char>,
    what: WindowChange,
    o: Result<AppAction, NativeControlError>,
) -> bool {
    o matches Ok(AppAction::Window { bundle_id: id, window_id: w, change }) && id@ == bundle_id
        && w@ == window_id && change == what
}

/// The id of the subscription with that number.
pub open spec fn subscription_name(n: u64) -> Seq<char> {
    "axsub-"@ + decimal(n as nat)
}

/// The subscriptions that have another id.
pub open spec fn without(subs: Seq<AxSubscription>, id: Seq<char>) -> Seq<AxSubscription>
    decreases subs.len(),
{
    if subs.len() == 0 {
        subs
    } else {
        let rest = without(subs.drop_last(), id);
        if subs.last().subscription_id@ == id {
            rest
        } else {
            rest.push(subs.last())
        }
    }
}

fn copy_path(path: &Vec<u32>) -> (p: Vec<u32>)
    ensures
        p@ == path@,
{
    let mut p: Vec<u32> = Vec::new();
    let mut i: usize = 0;
    while i < path.len()
        invariant
            i <= path@.len(),
            p@ == path@.take(i as int),
        decreases path@.len() - i,
    {
        p.push(path[i]);
        i += 1;
        assert(p@ =~= path@.take(i as int));
    }
    assert(path@.take(path@.len() as int) =~= path@);
    p
}

/// After a new snapshot of an application, only its labels count: one that the new snapshot
/// lacks is stale, whatever the older snapshots held.
pub proof fn old_labels_go_stale(
    before: AppController,
    after: AppController,
    bundle_id: Seq<char>,
    snap: SnapshotView,
    r: Seq<char>,
)
    requires
        after.snapshots().dom() == before.snapshots().dom().insert(bundle_id),
        after.snapshots()[bundle_id]@ == shown_snapshot(
            before.policy().patterns(),
            before.policy().blocklist(),
            snap,
        ),
        no_ref(snap.elements, r),
    ensures
        after.stale(bundle_id, r),
        forall|e: ElementView| !after.resolves(bundle_id, r, e),
{
    let elements = after.snapshots()[bundle_id]@.elements;
    assert forall|k: int| 0 <= k < elements.len() implies (#[trigger] elements[k]).element_ref
        != r by {
        assert(snap.elements[k].element_ref != r);
    }
}

/// Where the text matches a pattern, what stands in its place matches none.
pub open spec fn stays_hidden(patterns: Seq<Seq<char>>, t: Seq<char>) -> bool {
    any_matches(patterns, t) ==> !any_matches(patterns, withheld(t))
}

/// What a session may see of a snapshot: nothing that matches a pattern is in it, as long
/// as what stands in place of a text does not match either. Labels, roles, boxes and paths
/// are kept.
pub proof fn shown_elements_are_clean(patterns: Seq<Seq<char>>, e: ElementView)
    requires
        stays_hidden(patterns, e.name),
        e.value matches Some(v) ==> stays_hidden(patterns, v),
        e.description matches Some(d) ==> stays_hidden(patterns, d),
    ensures
        ({
            let s = shown_element(patterns, e);
            &&& !any_matches(patterns, s.name)
            &&& s.value matches Some(v) ==> !any_matches(patterns, v)
            &&& s.description matches Some(d) ==> !any_matches(patterns, d)
            &&& s.element_ref == e.element_ref
            &&& s.role == e.role
            &&& s.bbox == e.bbox
            &&& s.ax_path == e.ax_path
        }),
{
}

} // verus!
