//! The dock.
use vstd::prelude::*;

use crate::actions::RunningApp;
use crate::ax_walk::{children_of, text_or_none, AxNode};
use crate::broker_client::opt_text;
use crate::text::{decimal, decimal_text, join2, same_text};
use crate::types::{debug_str, debug_text, DockItem, NativeControlError};

verus! {

/// The application that owns the dock.
pub const DOCK_BUNDLE: &'static str = "com.apple.dock";

/// What a dock item is.
pub struct DockItemView {
    pub dock_id: Seq<char>,
    pub label: Seq<char>,
    pub running: bool,
    pub bundle_id: Seq<char>,
}

impl View for DockItem {
    type V = DockItemView;

    open spec fn view(&self) -> DockItemView {
        DockItemView {
            dock_id: self.dock_id@,
            label: self.label@,
            running: self.running,
            bundle_id: self.bundle_id@,
        }
    }
}

pub open spec fn dock_views(v: Seq<DockItem>) -> Seq<DockItemView> {
    v.map_values(|d: DockItem| d@)
}

/// The label of a dock item: its title, or its description where it has no title.
pub open spec fn label_of(n: AxNode) -> Seq<char> {
    match n.title {
        Some(t) => t@,
        None => text_or_none(n.description),
    }
}

fn label(n: &AxNode) -> (s: String)
    ensures
        s@ == label_of(*n),
{
    match &n.title {
        Some(t) => t.clone(),
        None => match &n.description {
            Some(d) => d.clone(),
            None => {
                let s = String::new();
                assert(s@ =~= Seq::<char>::empty());
                s
            },
        },
    }
}

/// The bundle id of the first application that goes by that name, empty where there is none
/// or it has no bundle id.
pub open spec fn bundle_of(apps: Seq<RunningApp>, name: Seq<char>) -> Seq<char>
    decreases apps.len(),
{
    if apps.len() == 0 {
        Seq::empty()
    } else if opt_text(apps[0].name) == Some(name) {
        text_or_none(apps[0].bundle_id)
    } else {
        bundle_of(apps.drop_first(), name)
    }
}

/// The bundle id of a running application by its name.
pub fn bundle_id_for_running_app(apps: &Vec<RunningApp>, name: &str) -> (s: String)
    ensures
        s@ == bundle_of(apps@, name@),
{
    let mut i: usize = 0;
    assert(apps@.skip(0) =~= apps@);
    while i < apps.len()
        invariant
            i <= apps@.len(),
            bundle_of(apps@, name@) == bundle_of(apps@.skip(i as int), name@),
        decreases apps@.len() - i,
    {
        assert(apps@.skip(i as int)[0] == apps@[i as int]);
        assert(apps@.skip(i as int).drop_first() =~= apps@.skip(i + 1));
        match &apps[i].name {
            Some(n) => {
                if same_text(n.as_str(), name) {
                    return match &apps[i].bundle_id {
                        Some(id) => id.clone(),
                        None => {
                            let s = String::new();
                            assert(s@ =~= Seq::<char>::empty());
                            s
                        },
                    };
                }
            },
            None => {},
        }
        i += 1;
    }
    let s = String::new();
    assert(s@ =~= Seq::<char>::empty());
    s
}

/// The items among the first `k` children of a list: those that have a label. Each is
/// numbered by its place in its list.
pub open spec fn items_of(list: Seq<AxNode>, k: nat, apps: Seq<RunningApp>) -> Seq<DockItemView>
    decreases k,
{
    if k == 0 {
        Seq::empty()
    } else {
        let rest = items_of(list, (k - 1) as nat, apps);
        let text = label_of(list[k - 1]);
        if text.len() == 0 {
            rest
        } else {
            rest.push(
                DockItemView {
                    dock_id: "d"@ + decimal((k - 1) as nat),
                    label: text,
                    running: bundle_of(apps, text).len() > 0,
                    bundle_id: bundle_of(apps, text),
                },
            )
        }
    }
}

/// The items of the first `k` lists of the dock.
pub open spec fn dock_items(lists: Seq<AxNode>, k: nat, apps: Seq<RunningApp>) -> Seq<DockItemView>
    decreases k,
{
    if k == 0 {
        Seq::empty()
    } else {
        dock_items(lists, (k - 1) as nat, apps) + items_of(
            children_of(lists[k - 1]),
            children_of(lists[k - 1]).len(),
            apps,
        )
    }
}

/// Lists the items of the dock.
pub fn list(dock: &AxNode, apps: &Vec<RunningApp>) -> (out: Vec<DockItem>)
    ensures
        dock_views(out@) == dock_items(children_of(*dock), children_of(*dock).len(), apps@),
{
    let mut out: Vec<DockItem> = Vec::new();
    assert(dock_views(out@) =~= dock_items(children_of(*dock), 0, apps@));
    let lists = match &dock.children {
        Some(c) => c,
        None => {
            return out;
        },
    };
    let mut t: usize = 0;
    while t < lists.len()
        invariant
            t <= lists@.len(),
            dock_views(out@) == dock_items(lists@, t as nat, apps@),
        decreases lists@.len() - t,
    {
        let ghost before = dock_views(out@);
        let ghost items = children_of(lists@[t as int]);
        assert(before + items_of(items, 0, apps@) =~= before);
        match &lists[t].children {
            Some(kids) => {
                let mut i: usize = 0;
                while i < kids.len()
                    invariant
                        i <= kids@.len(),
                        items == kids@,
                        dock_views(out@) == before + items_of(items, i as nat, apps@),
                    decreases kids@.len() - i,
                {
                    let text = label(&kids[i]);
                    let ghost now = out@;
                    let ghost done = items_of(items, i as nat, apps@);
                    if !text.as_str().is_empty() {
                        let bundle = bundle_id_for_running_app(apps, text.as_str());
                        let running = !bundle.as_str().is_empty();
                        let n = decimal_text(i as u64);
                        out.push(
                            DockItem {
                                dock_id: join2("d", n.as_str()),
                                label: text,
                                running,
                                bundle_id: bundle,
                            },
                        );
                        assert(dock_views(out@) =~= dock_views(now).push(out@.last()@));
                        assert(before + done.push(out@.last()@) =~= (before + done).push(
                            out@.last()@,
                        ));
                    }
                    i += 1;
                }
            },
            None => {},
        }
        t += 1;
    }
    out
}

/// Whether an action that takes the focus may be performed: only where the caller asks for
/// it and the session may.
pub open spec fn focus_allowed(confirm: bool, focus_steal: bool) -> bool {
    confirm && focus_steal
}

/// Refuses an action that takes the focus, unless it is confirmed and the session has the
/// capability.
pub fn require_focus_steal(what: &'static str, confirm: bool, focus_steal: bool) -> (r: Result<
    (),
    NativeControlError,
>)
    ensures
        match r {
            Ok(_) => focus_allowed(confirm, focus_steal),
            Err(NativeControlError::FocusStealForbidden { what: w }) => !focus_allowed(
                confirm,
                focus_steal,
            ) && w@ == what@,
            Err(_) => false,
        },
{
    if confirm && focus_steal {
        Ok(())
    } else {
        Err(NativeControlError::FocusStealForbidden { what })
    }
}

/// Whether a click on the dock may go ahead.
pub fn click_allowed(confirm: bool, focus_steal: bool) -> (r: Result<(), NativeControlError>)
    ensures
        match r {
            Ok(_) => focus_allowed(confirm, focus_steal),
            Err(NativeControlError::FocusStealForbidden { what }) => !focus_allowed(
                confirm,
                focus_steal,
            ) && what@ == "app.dock.click"@,
            Err(_) => false,
        },
{
    require_focus_steal("app.dock.click", confirm, focus_steal)
}

/// The `i`-th child has that label, and none before it.
pub open spec fn first_labelled(nodes: Seq<AxNode>, text: Seq<char>, i: int) -> bool {
    &&& 0 <= i < nodes.len()
    &&& label_of(nodes[i]) == text
    &&& forall|k: int| 0 <= k < i ==> label_of(#[trigger] nodes[k]) != text
}

/// The list has children, and none of them has that label.
pub open spec fn lacks_label(list: AxNode, text: Seq<char>) -> bool {
    list.children is Some && forall|k: int|
        0 <= k < children_of(list).len() ==> label_of(#[trigger] children_of(list)[k]) != text
}

/// The item is the first one with that label in the `t`-th list, and the lists before it
/// lack the label.
pub open spec fn item_in(lists: Seq<AxNode>, text: Seq<char>, t: int, i: int) -> bool {
    &&& 0 <= t < lists.len()
    &&& lists[t].children is Some
    &&& first_labelled(children_of(lists[t]), text, i)
    &&& forall|k: int| 0 <= k < t ==> lacks_label(#[trigger] lists[k], text)
}

/// There is no such item: the search ends at a list without children, or all lists lack the
/// label.
pub open spec fn no_item(dock: AxNode, text: Seq<char>) -> bool {
    let lists = children_of(dock);
    exists|t: int|
        0 <= t <= lists.len() && (t < lists.len() ==> (#[trigger] lists[t]).children is None)
            && forall|k: int| 0 <= k < t ==> lacks_label(#[trigger] lists[k], text)
}

/// The dock item with that label. The search ends at the first list that has no children.
pub fn find_item<'a>(dock: &'a AxNode, text: &str) -> (r: Option<&'a AxNode>)
    ensures
        match r {
            Some(n) => exists|t: int, i: int| #[trigger]
                item_in(children_of(*dock), text@, t, i) && children_of(children_of(*dock)[t])[i]
                    == *n,
            None => no_item(*dock, text@),
        },
{
    let lists = match &dock.children {
        Some(c) => c,
        None => {
            assert(children_of(*dock).len() == 0);
            let ghost t = 0int;
            assert(no_item(*dock, text@)) by {
                let lists = children_of(*dock);
                assert(0 <= t <= lists.len() && (t < lists.len() ==> lists[t].children is None));
            }
            return None;
        },
    };
    let mut t: usize = 0;
    while t < lists.len()
        invariant
            t <= lists@.len(),
            dock.children == Some(*lists),
            forall|k: int| 0 <= k < t ==> lacks_label(#[trigger] lists@[k], text@),
        decreases lists@.len() - t,
    {
        let kids = match &lists[t].children {
            Some(c) => c,
            None => {
                assert(children_of(*dock)[t as int].children is None);
                return None;
            },
        };
        let mut i: usize = 0;
        while i < kids.len()
            invariant
                t < lists@.len(),
                i <= kids@.len(),
                dock.children == Some(*lists),
                lists@[t as int].children == Some(*kids),
                forall|k: int| 0 <= k < t ==> lacks_label(#[trigger] lists@[k], text@),
                forall|k: int| 0 <= k < i ==> label_of(#[trigger] kids@[k]) != text@,
            decreases kids@.len() - i,
        {
            let s = label(&kids[i]);
            if same_text(s.as_str(), text) {
                assert(item_in(children_of(*dock), text@, t as int, i as int));
                return Some(&kids[i]);
            }
            i += 1;
        }
        t += 1;
    }
    assert(no_item(*dock, text@)) by {
        let lists = children_of(*dock);
        let t = lists.len() as int;
        assert(t < lists.len() ==> lists[t].children is None);
    }
    None
}

/// The dock item to act on.
pub fn press_target<'a>(dock: &'a AxNode, text: &str) -> (r: Result<&'a AxNode, NativeControlError>)
    ensures
        match r {
            Ok(n) => exists|t: int, i: int| #[trigger]
                item_in(children_of(*dock), text@, t, i) && children_of(children_of(*dock)[t])[i]
                    == *n,
            Err(NativeControlError::RefStale { r: what }) => no_item(*dock, text@) && what@
                == "dock label "@ + debug_text(text@),
            Err(_) => false,
        },
{
    match find_item(dock, text) {
        Some(n) => Ok(n),
        None => {
            let q = debug_str(text);
            Err(NativeControlError::RefStale { r: join2("dock label ", q.as_str()) })
        },
    }
}

} // verus!
