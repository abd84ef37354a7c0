//! What a session may see and do, whatever its policy is.
use vstd::prelude::*;

use crate::clipboard::{captured, pushed};
use crate::controller::{
    click_planned, first_ref, is_blocked_error, is_stale, shown_snapshot, subscription_name,
    type_planned, window_planned, without, AppAction, AppController, SnapshotView, WindowChange,
};
use crate::dock::focus_allowed;
use crate::patterns::any_matches;
use crate::privacy::{blocked_by, shown_item, withheld, ClipboardView};
use crate::subscribe::{chosen, notification_name};
use crate::text::{contains_text, decimal};
use crate::types::{
    double_le_zero, no_area, topic_name, AxEventTopic, AxSubscription, ClipboardKind, ElementView,
    NativeControlError, ALL_TOPICS,
};

verus! {

/// A text that no pattern matches is shown as it is. In place of any other one stands its
/// length.
pub open spec fn is_shown(patterns: Seq<Seq<char>>, text: Seq<char>, shown: Seq<char>) -> bool {
    if any_matches(patterns, text) {
        shown == "[redacted len="@ + decimal(text.len()) + "]"@
    } else {
        shown == text
    }
}

/// Without a policy a snapshot is shown as it is. With one, the name, the value and the
/// description of each element are shown each for itself, everything else as it is, and the
/// tree says no more than the elements.
pub proof fn snapshots_are_shown_by_the_policy(
    patterns: Seq<Seq<char>>,
    blocklist: Seq<Seq<char>>,
    s: SnapshotView,
    i: int,
)
    requires
        0 <= i < s.elements.len(),
    ensures
        ({
            let t = shown_snapshot(patterns, blocklist, s);
            let a = s.elements[i];
            let b = t.elements[i];
            &&& t.elements.len() == s.elements.len()
            &&& t.snapshot_seq == s.snapshot_seq
            &&& t.app_id == s.app_id
            &&& t.bundle_id == s.bundle_id
            &&& t.pid == s.pid
            &&& t.title == s.title
            &&& t.focused_ref == s.focused_ref
            &&& t.truncated_at == s.truncated_at
            &&& is_shown(patterns, a.name, b.name)
            &&& a.value is Some <==> b.value is Some
            &&& a.value matches Some(v) ==> is_shown(patterns, v, b.value->Some_0)
            &&& a.description is Some <==> b.description is Some
            &&& a.description matches Some(d) ==> is_shown(patterns, d, b.description->Some_0)
            &&& b.index == a.index
            &&& b.element_ref == a.element_ref
            &&& b.role == a.role
            &&& b.state == a.state
            &&& b.bbox == a.bbox
            &&& b.interactable == a.interactable
            &&& b.app_id == a.app_id
            &&& b.stable_id == a.stable_id
            &&& b.ax_path == a.ax_path
            &&& patterns.len() == 0 && blocklist.len() == 0 ==> t == s
            &&& patterns.len() > 0 || blocklist.len() > 0 ==> t.tree == crate::ax_walk::tree_view(
                t.elements,
            )
        }),
{
    if patterns.len() == 0 {
        assert(!any_matches(patterns, s.elements[i].name));
        if let Some(v) = s.elements[i].value {
            assert(!any_matches(patterns, v));
        }
        if let Some(d) = s.elements[i].description {
            assert(!any_matches(patterns, d));
        }
    }
}

/// A text that is withheld is shown by its length alone.
pub proof fn withheld_texts_show_their_length(a: Seq<char>, b: Seq<char>)
    ensures
        a.len() == b.len() ==> withheld(a) == withheld(b),
        withheld(a) == "[redacted len="@ + decimal(a.len()) + "]"@,
{
}

/// A clipboard entry that holds a text which a pattern matches loses the text and is marked;
/// any other one is shown as it is.
pub proof fn matching_clipboard_texts_are_withheld(
    patterns: Seq<Seq<char>>,
    item: ClipboardView,
)
    ensures
        ({
            let shown = shown_item(patterns, item);
            let hide = item.kind == ClipboardKind::String && (item.text matches Some(t)
                && any_matches(patterns, t));
            &&& hide ==> shown.text is None && shown.redacted
            &&& !hide ==> shown == item
            &&& shown.change_count == item.change_count
            &&& shown.timestamp_ms == item.timestamp_ms
            &&& shown.types == item.types
            &&& shown.kind == item.kind
            &&& shown.files == item.files
        }),
{
}

/// An application is blocked by a list where it is blocked by one part of it or by the other; a
/// single entry blocks it where it is not empty and stands somewhere in the bundle id; an empty
/// list blocks nothing.
pub proof fn entries_block_each_for_itself(
    a: Seq<Seq<char>>,
    b: Seq<Seq<char>>,
    entry: Seq<char>,
    bundle_id: Seq<char>,
)
    ensures
        blocked_by(a + b, bundle_id) == (blocked_by(a, bundle_id) || blocked_by(b, bundle_id)),
        blocked_by(seq![entry], bundle_id) == (entry.len() > 0 && contains_text(bundle_id, entry)),
        !blocked_by(Seq::empty(), bundle_id),
{
    let all = a + b;
    if blocked_by(all, bundle_id) {
        let i = choose|i: int|
            0 <= i < all.len() && (#[trigger] all[i]).len() > 0 && contains_text(
                bundle_id,
                all[i],
            );
        if i < a.len() {
            assert(a[i] == all[i]);
        } else {
            assert(b[i - a.len()] == all[i]);
        }
    }
    if blocked_by(a, bundle_id) {
        let i = choose|i: int|
            0 <= i < a.len() && (#[trigger] a[i]).len() > 0 && contains_text(bundle_id, a[i]);
        assert(all[i] == a[i]);
    }
    if blocked_by(b, bundle_id) {
        let i = choose|i: int|
            0 <= i < b.len() && (#[trigger] b[i]).len() > 0 && contains_text(bundle_id, b[i]);
        assert(all[a.len() + i] == b[i]);
    }
    assert(seq![entry][0] == entry);
}

/// The clipboard history holds the latest sixteen entries, and all of them while there are
/// fewer.
pub proof fn the_history_holds_sixteen(history: Seq<ClipboardView>, item: ClipboardView)
    requires
        history.len() <= 16,
    ensures
        pushed(history, item).last() == item,
        history.len() < 16 ==> pushed(history, item).drop_last() == history,
        history.len() == 16 ==> pushed(history, item).drop_last() == history.drop_first(),
{
    if history.len() < 16 {
        assert(pushed(history, item).drop_last() =~= history);
    } else {
        assert(pushed(history, item).drop_last() =~= history.drop_first());
    }
}

/// What is on the clipboard is taken for files where it says so and there are any, else for
/// text, else for an image, else for something other. The entry holds just that, the types, the
/// change count and the time.
pub proof fn clipboard_contents_are_sorted_by_type(
    types: Seq<Seq<char>>,
    files: Option<Seq<Seq<char>>>,
    text: Option<Seq<char>>,
    change_count: i64,
    now_ms: u64,
)
    ensures
        ({
            let item = captured(types, files, text, change_count, now_ms);
            let as_files = types.contains("public.file-url"@) && files is Some;
            let as_text = !as_files && types.contains("public.utf8-plain-text"@) && text is Some;
            let as_image = !as_files && !as_text && (types.contains("public.png"@)
                || types.contains("public.tiff"@));
            &&& item.kind == ClipboardKind::Files <==> as_files
            &&& item.kind == ClipboardKind::String <==> as_text
            &&& item.kind == ClipboardKind::Image <==> as_image
            &&& as_files ==> files == Some(item.files)
            &&& !as_files ==> item.files.len() == 0
            &&& item.text == (if as_text {
                text
            } else {
                None
            })
            &&& item.types == types
            &&& item.change_count == change_count
            &&& item.timestamp_ms == now_ms
            &&& !item.redacted
        }),
{
}

/// An element without area is neither clicked nor typed into; any other one is, by its own
/// label and path and with the very text that was given.
pub proof fn elements_without_area_are_left_alone(
    e: ElementView,
    text: Seq<char>,
    clear: bool,
    click: Result<AppAction, NativeControlError>,
    typed: Result<AppAction, NativeControlError>,
)
    requires
        click_planned(e, click),
        type_planned(e, text, clear, typed),
    ensures
        double_le_zero(e.bbox.w) || double_le_zero(e.bbox.h) ==> click is Err && typed is Err,
        !double_le_zero(e.bbox.w) && !double_le_zero(e.bbox.h) ==> {
            &&& click matches Ok(AppAction::Click { app_id, r, path }) && app_id@ == e.app_id && r@
                == e.element_ref && path@ == e.ax_path
            &&& typed matches Ok(AppAction::TypeText { app_id, r, path, text: t, clear_first })
                && app_id@ == e.app_id && r@ == e.element_ref && path@ == e.ax_path && t@ == text
                && clear_first == clear
        },
        click matches Err(x) ==> (x matches NativeControlError::NotActionable { r, .. } && r@
            == e.element_ref),
{
}

/// A change of a window is planned for that window of that application.
pub proof fn window_changes_are_planned_for_that_window(
    bundle_id: Seq<char>,
    window_id: Seq<char>,
    what: WindowChange,
    o: Result<AppAction, NativeControlError>,
)
    requires
        window_planned(bundle_id, window_id, what, o),
    ensures
        o matches Ok(AppAction::Window { bundle_id: id, window_id: w, change }) && id@ == bundle_id
            && w@ == window_id && change == what,
{
}

/// A double is zero or below just where it is zero of either sign, or has its sign set and is
/// no NaN.
pub proof fn doubles_at_or_below_zero(bits: u64)
    ensures
        double_le_zero(bits) <==> bits == 0 || ((bits & 0x8000_0000_0000_0000) != 0 && !((bits
            & 0x7ff0_0000_0000_0000) == 0x7ff0_0000_0000_0000 && (bits & 0x000f_ffff_ffff_ffff)
            != 0)),
{
    assert((bits == 0 || 0x8000_0000_0000_0000 <= bits <= 0xfff0_0000_0000_0000) <==> (bits == 0
        || ((bits & 0x8000_0000_0000_0000) != 0 && !((bits & 0x7ff0_0000_0000_0000)
        == 0x7ff0_0000_0000_0000 && (bits & 0x000f_ffff_ffff_ffff) != 0)))) by (bit_vector);
}

/// A box has no area where its width or its height is not above zero.
pub proof fn boxes_need_width_and_height(b: crate::types::BBox)
    ensures
        no_area(b) <==> double_le_zero(b.w) || double_le_zero(b.h),
{
}

/// The names of the topics, and the notifications that stand for them.
pub proof fn topics_have_these_names(t: AxEventTopic)
    ensures
        match t {
            AxEventTopic::ValueChanged => topic_name(t) == "value_changed"@ && notification_name(t)
                == "AXValueChanged"@,
            AxEventTopic::FocusedChanged => topic_name(t) == "focused_changed"@
                && notification_name(t) == "AXFocusedUIElementChanged"@,
            AxEventTopic::WindowCreated => topic_name(t) == "window_created"@ && notification_name(
                t,
            ) == "AXWindowCreated"@,
            AxEventTopic::WindowDestroyed => topic_name(t) == "window_destroyed"@
                && notification_name(t) == "AXUIElementDestroyed"@,
            AxEventTopic::SelectionChanged => topic_name(t) == "selection_changed"@
                && notification_name(t) == "AXSelectedTextChanged"@,
        },
{
}

/// A subscription is to just the topics that were asked for, each once, in their own order.
pub proof fn subscriptions_are_to_what_was_asked(asked: Seq<AxEventTopic>)
    ensures
        chosen(asked, 5) == ALL_TOPICS@.filter(|t: AxEventTopic| asked.contains(t)),
        forall|t: AxEventTopic| chosen(asked, 5).contains(t) <==> asked.contains(t),
{
    lemma_chosen(asked, 5);
    let all = ALL_TOPICS@;
    let keep = |t: AxEventTopic| asked.contains(t);
    assert(all.take(5) =~= all);
    assert forall|t: AxEventTopic| chosen(asked, 5).contains(t) <==> asked.contains(t) by {
        let i: int = match t {
            AxEventTopic::ValueChanged => 0,
            AxEventTopic::FocusedChanged => 1,
            AxEventTopic::WindowCreated => 2,
            AxEventTopic::WindowDestroyed => 3,
            AxEventTopic::SelectionChanged => 4,
        };
        assert(all[i] == t);
        if asked.contains(t) {
            assert(keep(all[i]));
            all.lemma_filter_contains(keep, i);
        }
        if all.filter(keep).contains(t) {
            all.lemma_filter_contains_rev(keep, t);
        }
    }
}

proof fn lemma_chosen(asked: Seq<AxEventTopic>, k: nat)
    requires
        k <= 5,
    ensures
        chosen(asked, k) == ALL_TOPICS@.take(k as int).filter(
            |t: AxEventTopic| asked.contains(t),
        ),
    decreases k,
{
    reveal(Seq::filter);
    let all = ALL_TOPICS@;
    if k > 0 {
        lemma_chosen(asked, (k - 1) as nat);
        assert(all.take(k as int).drop_last() =~= all.take(k - 1));
        assert(all.take(k as int).last() == all[k - 1]);
    } else {
        assert(chosen(asked, k) =~= all.take(0).filter(|t: AxEventTopic| asked.contains(t)));
    }
}

/// Subscriptions are named by their number, so that no two share a name.
pub proof fn subscriptions_are_named_by_number(a: u64, b: u64)
    ensures
        subscription_name(a) == "axsub-"@ + decimal(a as nat),
        subscription_name(a) == subscription_name(b) ==> a == b,
{
    let head = "axsub-"@;
    let x = subscription_name(a);
    let y = subscription_name(b);
    assert(x.skip(head.len() as int) =~= decimal(a as nat));
    assert(y.skip(head.len() as int) =~= decimal(b as nat));
    crate::text::lemma_decimal_reads_back(a as nat);
    crate::text::lemma_decimal_reads_back(b as nat);
}

/// Ending a subscription takes out every one of that name and leaves all others, in order.
pub proof fn ending_a_subscription_leaves_the_others(subs: Seq<AxSubscription>, id: Seq<char>)
    ensures
        without(subs, id) == subs.filter(|s: AxSubscription| s.subscription_id@ != id),
    decreases subs.len(),
{
    reveal(Seq::filter);
    if subs.len() > 0 {
        ending_a_subscription_leaves_the_others(subs.drop_last(), id);
    } else {
        assert(without(subs, id) =~= subs.filter(
            |s: AxSubscription| s.subscription_id@ != id,
        ));
    }
}

/// The focus is taken only where the caller asks for it and the session may.
pub proof fn the_focus_is_taken_only_on_request(confirm: bool, focus_steal: bool)
    ensures
        focus_allowed(confirm, focus_steal) ==> confirm,
        focus_allowed(confirm, focus_steal) ==> focus_steal,
        confirm && focus_steal ==> focus_allowed(confirm, focus_steal),
{
}

/// A refusal names what it is about: the application that is blocked, or the label that is
/// stale.
pub proof fn refusals_name_what_they_are_about(
    e: NativeControlError,
    f: NativeControlError,
    bundle_id: Seq<char>,
    r: Seq<char>,
)
    requires
        is_blocked_error(e, bundle_id),
        is_stale(f, r),
    ensures
        e matches NativeControlError::Blocked { bundle_id: id } && id@ == bundle_id,
        f matches NativeControlError::RefStale { r: what } && what@ == r,
{
}

/// A label stands for an element of the latest snapshot of the application, the first that
/// bears it, and for nothing else; it is stale just where it stands for none.
pub proof fn labels_stand_for_one_element(
    c: AppController,
    bundle_id: Seq<char>,
    r: Seq<char>,
    e: ElementView,
    f: ElementView,
)
    ensures
        c.resolves(bundle_id, r, e) ==> e.element_ref == r && c.snapshots().contains_key(bundle_id)
            && c.snapshots()[bundle_id]@.elements.contains(e),
        c.resolves(bundle_id, r, e) && c.resolves(bundle_id, r, f) ==> e == f,
        c.resolves(bundle_id, r, e) ==> !c.stale(bundle_id, r),
        !c.stale(bundle_id, r) ==> exists|g: ElementView| #[trigger] c.resolves(bundle_id, r, g),
{
    let elements = c.snapshots()[bundle_id]@.elements;
    if c.resolves(bundle_id, r, e) {
        let i = choose|i: int| #[trigger] first_ref(elements, r, i) && elements[i] == e;
        assert(elements[i].element_ref == r);
        if c.resolves(bundle_id, r, f) {
            let j = choose|j: int| #[trigger] first_ref(elements, r, j) && elements[j] == f;
            if i < j {
                assert(elements[i].element_ref != r);
            } else if j < i {
                assert(elements[j].element_ref != r);
            }
        }
    }
    if !c.stale(bundle_id, r) {
        crate::search_laws::labels_stand_for_the_first_element(elements, r, 0);
        let j = choose|j: int| #[trigger] first_ref(elements, r, j);
        assert(first_ref(elements, r, j) && elements[j] == elements[j]);
        assert(c.resolves(bundle_id, r, elements[j]));
    }
}

} // verus!
