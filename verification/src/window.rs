//! The windows of an application.
use vstd::prelude::*;

use crate::ax_find::title_of;
use crate::ax_walk::{no_box, text_or_none, AxNode};
use crate::dock::{focus_allowed, require_focus_steal};
use crate::text::{
    chars_of, decimal, decimal_text, join2, parse_unsigned, parse_unsigned_chars, same_text,
    slice_chars,
};
use crate::types::{BBox, NativeControlError, WindowHandle};

verus! {

/// The role of a window.
pub const WINDOW_ROLE: &'static str = "AXWindow";

/// What an application says of one of its children, where that may be a window.
#[derive(Debug)]
pub struct WindowNode {
    pub node: AxNode,
    pub minimized: Option<bool>,
    pub fullscreen: Option<bool>,
    pub main: Option<bool>,
}

/// What a window is.
pub struct WindowView {
    pub window_id: Seq<char>,
    pub bundle_id: Seq<char>,
    pub title: Seq<char>,
    pub bbox: BBox,
    pub minimized: bool,
    pub fullscreen: bool,
    pub main: bool,
}

impl View for WindowHandle {
    type V = WindowView;

    open spec fn view(&self) -> WindowView {
        WindowView {
            window_id: self.window_id@,
            bundle_id: self.bundle_id@,
            title: self.title@,
            bbox: self.bbox,
            minimized: self.minimized,
            fullscreen: self.fullscreen,
            main: self.main,
        }
    }
}

pub open spec fn window_views(v: Seq<WindowHandle>) -> Seq<WindowView> {
    v.map_values(|w: WindowHandle| w@)
}

pub open spec fn is_window(w: WindowNode) -> bool {
    text_or_none(w.node.role) == WINDOW_ROLE@
}

/// The window that a child is, as number `i` among the windows.
pub open spec fn window_of(w: WindowNode, bundle_id: Seq<char>, i: nat) -> WindowView {
    WindowView {
        window_id: "w"@ + decimal(i),
        bundle_id,
        title: text_or_none(w.node.title),
        bbox: match w.node.bbox {
            Some(b) => b,
            None => no_box(),
        },
        minimized: w.minimized == Some(true),
        fullscreen: w.fullscreen == Some(true),
        main: w.main == Some(true),
    }
}

/// The windows among the first `k` children, each labelled by its place among the windows.
pub open spec fn windows_among(kids: Seq<WindowNode>, bundle_id: Seq<char>, k: nat) -> Seq<
    WindowView,
>
    decreases k,
{
    if k == 0 {
        Seq::empty()
    } else {
        let rest = windows_among(kids, bundle_id, (k - 1) as nat);
        if is_window(kids[k - 1]) {
            rest.push(window_of(kids[k - 1], bundle_id, window_count(kids, (k - 1) as nat)))
        } else {
            rest
        }
    }
}

fn window(w: &WindowNode) -> (r: bool)
    ensures
        r == is_window(*w),
{
    match &w.node.role {
        Some(r) => same_text(r.as_str(), WINDOW_ROLE),
        None => {
            proof {
                reveal_strlit("AXWindow");
                assert(WINDOW_ROLE@.len() == 8);
            }
            false
        },
    }
}

fn set(b: Option<bool>) -> (r: bool)
    ensures
        r == (b == Some(true)),
{
    match b {
        Some(v) => v,
        None => false,
    }
}

/// Lists the windows of an application: its children that are windows, where the application
/// has a list of windows at all.
pub fn list(has_windows: bool, kids: &Vec<WindowNode>, bundle_id: &str) -> (out: Vec<WindowHandle>)
    ensures
        window_views(out@) == (if has_windows {
            windows_among(kids@, bundle_id@, kids@.len())
        } else {
            Seq::empty()
        }),
{
    let mut out: Vec<WindowHandle> = Vec::new();
    assert(window_views(out@) =~= Seq::<WindowView>::empty());
    if !has_windows {
        return out;
    }
    let mut i: usize = 0;
    while i < kids.len()
        invariant
            i <= kids@.len(),
            window_views(out@) == windows_among(kids@, bundle_id@, i as nat),
        decreases kids@.len() - i,
    {
        let k = &kids[i];
        if window(k) {
            let ghost before = out@;
            proof {
                lemma_list_len(kids@, bundle_id@, i as nat);
            }
            let n = decimal_text(out.len() as u64);
            let bbox = match k.node.bbox {
                Some(b) => b,
                None => BBox { x: 0, y: 0, w: 0, h: 0 },
            };
            out.push(
                WindowHandle {
                    window_id: join2("w", n.as_str()),
                    bundle_id: bundle_id.to_owned(),
                    title: title_of(&k.node),
                    bbox,
                    minimized: set(k.minimized),
                    fullscreen: set(k.fullscreen),
                    main: set(k.main),
                },
            );
            assert(window_views(out@) =~= window_views(before).push(out@.last()@));
        }
        i += 1;
    }
    out
}

/// The number in a window label: a `w` and a numeral.
pub open spec fn label_number(label: Seq<char>) -> Option<nat> {
    if label.len() > 0 && label[0] == 'w' {
        parse_unsigned(label.drop_first(), u64::MAX as nat)
    } else {
        None
    }
}

/// How many of the first `k` children are windows.
pub open spec fn window_count(kids: Seq<WindowNode>, k: nat) -> nat
    decreases k,
{
    if k == 0 {
        0
    } else {
        window_count(kids, (k - 1) as nat) + (if is_window(kids[k - 1]) {
            1nat
        } else {
            0
        })
    }
}

/// The child in place `k` is a window with `n` windows before it.
pub open spec fn nth_window(kids: Seq<WindowNode>, n: nat, k: int) -> bool {
    0 <= k < kids.len() && is_window(kids[k]) && window_count(kids, k as nat) == n
}

/// Reads the number of a window label.
pub fn window_number(window_id: &str) -> (r: Result<u64, NativeControlError>)
    ensures
        match r {
            Ok(n) => label_number(window_id@) == Some(n as nat),
            Err(NativeControlError::RefStale { r: what }) => label_number(window_id@) is None
                && what@ == window_id@,
            Err(_) => false,
        },
{
    let chars = chars_of(window_id);
    if chars.len() > 0 && chars[0] == 'w' {
        let rest = slice_chars(chars.as_slice(), 1, chars.len());
        assert(rest@ =~= window_id@.drop_first());
        match parse_unsigned_chars(rest.as_slice(), u64::MAX) {
            Some(n) => {
                return Ok(n);
            },
            None => {},
        }
    }
    Err(NativeControlError::RefStale { r: window_id.to_owned() })
}

/// The place, among the children, of the window that a label stands for: the label's number
/// counts the windows alone.
pub fn resolve_window(kids: &Vec<WindowNode>, window_id: &str) -> (r: Result<
    usize,
    NativeControlError,
>)
    ensures
        match r {
            Ok(k) => label_number(window_id@) is Some && nth_window(
                kids@,
                label_number(window_id@)->Some_0,
                k as int,
            ),
            Err(NativeControlError::RefStale { r: what }) => what@ == window_id@ && match label_number(
                window_id@,
            ) {
                Some(n) => n >= window_count(kids@, kids@.len()),
                None => true,
            },
            Err(_) => false,
        },
{
    let n: u64 = match window_number(window_id) {
        Ok(n) => n,
        Err(e) => {
            return Err(e);
        },
    };
    let mut seen: u64 = 0;
    let mut i: usize = 0;
    while i < kids.len()
        invariant
            i <= kids@.len(),
            seen <= i,
            seen <= n,
            seen == window_count(kids@, i as nat),
            label_number(window_id@) == Some(n as nat),
        decreases kids@.len() - i,
    {
        if window(&kids[i]) {
            if seen == n {
                assert(nth_window(kids@, n as nat, i as int));
                return Ok(i);
            }
            seen += 1;
        }
        i += 1;
    }
    Err(NativeControlError::RefStale { r: window_id.to_owned() })
}

/// Whether a window may be raised.
pub fn raise_allowed(confirm: bool, focus_steal: bool) -> (r: Result<(), NativeControlError>)
    ensures
        match r {
            Ok(_) => focus_allowed(confirm, focus_steal),
            Err(NativeControlError::FocusStealForbidden { what }) => !focus_allowed(
                confirm,
                focus_steal,
            ) && what@ == "app.window.raise"@,
            Err(_) => false,
        },
{
    require_focus_steal("app.window.raise", confirm, focus_steal)
}

proof fn lemma_listed(kids: Seq<WindowNode>, bundle_id: Seq<char>, k: nat, j: int)
    requires
        k <= kids.len(),
        0 <= j < windows_among(kids, bundle_id, k).len(),
    ensures
        exists|p: int| #[trigger]
            nth_window(kids, j as nat, p) && windows_among(kids, bundle_id, k)[j] == window_of(
                kids[p],
                bundle_id,
                j as nat,
            ),
    decreases k,
{
    lemma_list_len(kids, bundle_id, k);
    lemma_list_len(kids, bundle_id, (k - 1) as nat);
    let rest = windows_among(kids, bundle_id, (k - 1) as nat);
    if j < rest.len() {
        lemma_listed(kids, bundle_id, (k - 1) as nat, j);
    } else {
        assert(nth_window(kids, j as nat, k - 1));
    }
}

proof fn lemma_list_len(kids: Seq<WindowNode>, bundle_id: Seq<char>, k: nat)
    requires
        k <= kids.len(),
    ensures
        windows_among(kids, bundle_id, k).len() == window_count(kids, k),
    decreases k,
{
    if k > 0 {
        lemma_list_len(kids, bundle_id, (k - 1) as nat);
    }
}

/// The label under which a window is listed stands for that very window, whatever else is
/// among the children and wherever it stands.
pub proof fn listed_windows_resolve(kids: Seq<WindowNode>, bundle_id: Seq<char>, j: int)
    requires
        0 <= j < windows_among(kids, bundle_id, kids.len()).len(),
        kids.len() <= u64::MAX,
    ensures
        ({
            let listed = windows_among(kids, bundle_id, kids.len())[j];
            &&& label_number(listed.window_id) == Some(j as nat)
            &&& exists|p: int| #[trigger]
                nth_window(kids, j as nat, p) && listed == window_of(kids[p], bundle_id, j as nat)
        }),
{
    lemma_listed(kids, bundle_id, kids.len(), j);
    lemma_list_len(kids, bundle_id, kids.len());
    lemma_count_le(kids, kids.len());
    let label = "w"@ + decimal(j as nat);
    reveal_strlit("w");
    assert(label[0] == 'w');
    assert(label.drop_first() =~= decimal(j as nat));
    crate::text::decimal_round_trip(j as nat, u64::MAX as nat);
}

/// A label stands for one window at most.
pub proof fn labels_tell_windows_apart(kids: Seq<WindowNode>, n: nat, p: int, q: int)
    requires
        nth_window(kids, n, p),
        nth_window(kids, n, q),
    ensures
        p == q,
{
    if p < q {
        lemma_count_grows(kids, (p + 1) as nat, q as nat);
    } else if q < p {
        lemma_count_grows(kids, (q + 1) as nat, p as nat);
    }
}

proof fn lemma_count_grows(kids: Seq<WindowNode>, a: nat, b: nat)
    requires
        a <= b,
    ensures
        window_count(kids, a) <= window_count(kids, b),
    decreases b - a,
{
    if a < b {
        lemma_count_grows(kids, a, (b - 1) as nat);
    }
}

proof fn lemma_count_le(kids: Seq<WindowNode>, k: nat)
    ensures
        window_count(kids, k) <= k,
    decreases k,
{
    if k > 0 {
        lemma_count_le(kids, (k - 1) as nat);
    }
}

} // verus!
