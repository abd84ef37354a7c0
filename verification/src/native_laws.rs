//! What is found in and read from the accessibility tree, whatever the tree is.
use vstd::prelude::*;

use crate::actions::{from_the_last, handles, last_of, HandleView, RunningApp};
use crate::ax_find::{below_from, capped, descendants, reach, reach_from};
use crate::ax_walk::{ax_error_of, children_of, descend, located, AxNode};
use crate::dock::{bundle_of, dock_items, items_of, DockItemView};
use crate::menu::{menu_items, menu_items_from, menu_path, own_item, MenuItemView};
use crate::notification_center::{own_title, titles_of};
use crate::statusmenu::{matches_label, searched};
use crate::text::{contains_text, decimal, joined, lowered};
use crate::types::NativeControlError;
use crate::window::{window_count, windows_among, WindowNode, WindowView};

verus! {

/// The node that the steps lead to, child by child.
pub open spec fn node_at(n: AxNode, steps: Seq<int>) -> Option<AxNode>
    decreases steps.len(),
{
    if steps.len() == 0 {
        Some(n)
    } else {
        match n.children {
            Some(c) => if 0 <= steps[0] < c@.len() {
                node_at(c@[steps[0]], steps.drop_first())
            } else {
                None
            },
            None => None,
        }
    }
}

proof fn lemma_prepend(n: AxNode, k: int, steps: Seq<int>)
    requires
        n.children is Some,
        0 <= k < children_of(n).len(),
    ensures
        node_at(n, seq![k] + steps) == node_at(children_of(n)[k], steps),
{
    assert((seq![k] + steps).drop_first() =~= steps);
}

/// The descendants of a node are just the nodes that one step or more lead to.
pub proof fn descendants_are_what_steps_lead_to(n: AxNode, m: AxNode)
    ensures
        descendants(n).contains(m) <==> exists|steps: Seq<int>| #[trigger]
            node_at(n, steps) == Some(m) && steps.len() > 0,
{
    if descendants(n).contains(m) {
        lemma_descendant_has_steps(n, m);
    }
    if exists|steps: Seq<int>| #[trigger] node_at(n, steps) == Some(m) && steps.len() > 0 {
        let steps = choose|steps: Seq<int>| #[trigger]
            node_at(n, steps) == Some(m) && steps.len() > 0;
        lemma_steps_to_descendant(n, m, steps);
    }
}

proof fn lemma_descendant_has_steps(n: AxNode, m: AxNode)
    requires
        descendants(n).contains(m),
    ensures
        exists|steps: Seq<int>| #[trigger] node_at(n, steps) == Some(m) && steps.len() > 0,
    decreases n, 0int,
{
    match n.children {
        Some(c) => {
            assert(decreases_to!(n => n.children));
            assert(decreases_to!(n.children => n.children->Some_0));
            assert(decreases_to!(c => c@));
            let k = lemma_below_from(c@, 0, m);
            let steps = choose|steps: Seq<int>| #[trigger] node_at(c@[k], steps) == Some(m);
            lemma_prepend(n, k, steps);
            assert(node_at(n, seq![k] + steps) == Some(m));
        },
        None => {},
    }
}

proof fn lemma_below_from(children: Seq<AxNode>, i: int, m: AxNode) -> (k: int)
    requires
        0 <= i <= children.len(),
        below_from(children, i).contains(m),
    ensures
        i <= k < children.len(),
        exists|steps: Seq<int>| #[trigger] node_at(children[k], steps) == Some(m),
    decreases children, children.len() - i,
{
    let here = seq![children[i]];
    let own = descendants(children[i]);
    let rest = below_from(children, i + 1);
    let all = below_from(children, i);
    let j = choose|j: int| 0 <= j < all.len() && all[j] == m;
    if j == 0 {
        assert(node_at(children[i], Seq::<int>::empty()) == Some(m));
        i
    } else if j < 1 + own.len() {
        assert(own[j - 1] == m);
        lemma_descendant_has_steps(children[i], m);
        let steps = choose|steps: Seq<int>| #[trigger]
            node_at(children[i], steps) == Some(m) && steps.len() > 0;
        assert(node_at(children[i], steps) == Some(m));
        i
    } else {
        assert(rest[j - 1 - own.len()] == m);
        lemma_below_from(children, i + 1, m)
    }
}

proof fn lemma_steps_to_descendant(n: AxNode, m: AxNode, steps: Seq<int>)
    requires
        node_at(n, steps) == Some(m),
        steps.len() > 0,
    ensures
        descendants(n).contains(m),
    decreases steps.len(),
{
    let c = n.children->Some_0;
    let k = steps[0];
    let child = c@[k];
    if steps.len() > 1 {
        lemma_steps_to_descendant(child, m, steps.drop_first());
    } else {
        assert(node_at(child, steps.drop_first()) == Some(m));
    }
    lemma_in_below_from(c@, 0, k, m);
}

proof fn lemma_in_below_from(children: Seq<AxNode>, i: int, k: int, m: AxNode)
    requires
        0 <= i <= k < children.len(),
        children[k] == m || descendants(children[k]).contains(m),
    ensures
        below_from(children, i).contains(m),
    decreases k - i,
{
    let own = descendants(children[i]);
    let rest = below_from(children, i + 1);
    let all = below_from(children, i);
    if i == k {
        if children[k] == m {
            assert(all[0] == m);
        } else {
            let j = choose|j: int| 0 <= j < own.len() && own[j] == m;
            assert(all[1 + j] == m);
        }
    } else {
        lemma_in_below_from(children, i + 1, k, m);
        let j = choose|j: int| 0 <= j < rest.len() && rest[j] == m;
        assert(all[1 + own.len() + j] == m);
    }
}

/// The descendants stand in the order of the tree: a child, what is below it, then what is
/// below the next child.
pub proof fn descendants_are_in_order(n: AxNode, k: int)
    requires
        0 <= k < children_of(n).len(),
    ensures
        ({
            let before = below_from(children_of(n), 0).len() - below_from(children_of(n), k).len();
            let all = descendants(n);
            &&& 0 <= before < all.len()
            &&& all[before] == children_of(n)[k]
            &&& all.subrange(before + 1, before + 1 + descendants(children_of(n)[k]).len())
                == descendants(children_of(n)[k])
            &&& k == 0 ==> before == 0
        }),
{
    let c = children_of(n);
    lemma_tail(c, 0, k);
    let all = descendants(n);
    let tail = below_from(c, k);
    let before = all.len() - tail.len();
    let own = descendants(c[k]);
    assert(all.skip(before) == tail);
    assert(all[before] == all.skip(before)[0]);
    assert(all.subrange(before + 1, before + 1 + own.len()) =~= own) by {
        assert forall|x: int| 0 <= x < own.len() implies all[before + 1 + x] == own[x] by {
            assert(all[before + 1 + x] == all.skip(before)[1 + x]);
        }
    }
}

proof fn lemma_tail(children: Seq<AxNode>, i: int, k: int)
    requires
        0 <= i <= k <= children.len(),
    ensures
        below_from(children, k).len() <= below_from(children, i).len(),
        below_from(children, i).skip(
            below_from(children, i).len() - below_from(children, k).len(),
        ) == below_from(children, k),
    decreases k - i,
{
    let all = below_from(children, i);
    if i == k {
        assert(all.skip(0) =~= all);
    } else {
        lemma_tail(children, i + 1, k);
        let rest = below_from(children, i + 1);
        let tail = below_from(children, k);
        assert(all.skip(all.len() - tail.len()) =~= rest.skip(rest.len() - tail.len()));
    }
}

/// What is within reach is just what fewer steps than levels lead to, the node itself first.
pub proof fn reach_is_what_few_steps_lead_to(n: AxNode, levels: nat, m: AxNode)
    ensures
        reach(n, levels).contains(m) <==> exists|steps: Seq<int>| #[trigger]
            node_at(n, steps) == Some(m) && steps.len() < levels,
        levels > 0 ==> reach(n, levels)[0] == n,
        levels > 1 && children_of(n).len() > 0 ==> reach(n, levels)[1] == children_of(n)[0],
{
    if reach(n, levels).contains(m) {
        lemma_reach_has_steps(n, levels, m);
    }
    if exists|steps: Seq<int>| #[trigger] node_at(n, steps) == Some(m) && steps.len() < levels {
        let steps = choose|steps: Seq<int>| #[trigger]
            node_at(n, steps) == Some(m) && steps.len() < levels;
        lemma_steps_within_reach(n, levels, m, steps);
    }
    if levels > 1 && children_of(n).len() > 0 {
        let c = n.children->Some_0;
        let from = reach_from(c@, 0, (levels - 1) as nat);
        let first = reach(c@[0], (levels - 1) as nat);
        assert(from[0] == first[0]);
        assert(first[0] == c@[0]);
    }
}

proof fn lemma_reach_has_steps(n: AxNode, levels: nat, m: AxNode)
    requires
        reach(n, levels).contains(m),
    ensures
        exists|steps: Seq<int>| #[trigger] node_at(n, steps) == Some(m) && steps.len() < levels,
    decreases n, 0int,
{
    let all = reach(n, levels);
    let j = choose|j: int| 0 <= j < all.len() && all[j] == m;
    if j == 0 {
        assert(node_at(n, Seq::<int>::empty()) == Some(m));
    } else {
        let c = n.children->Some_0;
        assert(decreases_to!(n => n.children));
        assert(decreases_to!(n.children => n.children->Some_0));
        assert(decreases_to!(c => c@));
        let below = reach_from(c@, 0, (levels - 1) as nat);
        assert(below[j - 1] == m);
        let k = lemma_reach_from(c@, 0, (levels - 1) as nat, m);
        let steps = choose|steps: Seq<int>| #[trigger]
            node_at(c@[k], steps) == Some(m) && steps.len() < levels - 1;
        lemma_prepend(n, k, steps);
        assert(node_at(n, seq![k] + steps) == Some(m));
    }
}

proof fn lemma_reach_from(children: Seq<AxNode>, i: int, levels: nat, m: AxNode) -> (k: int)
    requires
        0 <= i <= children.len(),
        reach_from(children, i, levels).contains(m),
    ensures
        i <= k < children.len(),
        exists|steps: Seq<int>| #[trigger]
            node_at(children[k], steps) == Some(m) && steps.len() < levels,
    decreases children, children.len() - i,
{
    let own = reach(children[i], levels);
    let rest = reach_from(children, i + 1, levels);
    let all = reach_from(children, i, levels);
    let j = choose|j: int| 0 <= j < all.len() && all[j] == m;
    if j < own.len() {
        assert(own[j] == m);
        lemma_reach_has_steps(children[i], levels, m);
        i
    } else {
        assert(rest[j - own.len()] == m);
        lemma_reach_from(children, i + 1, levels, m)
    }
}

proof fn lemma_steps_within_reach(n: AxNode, levels: nat, m: AxNode, steps: Seq<int>)
    requires
        node_at(n, steps) == Some(m),
        steps.len() < levels,
    ensures
        reach(n, levels).contains(m),
    decreases steps.len(),
{
    let all = reach(n, levels);
    if steps.len() == 0 {
        assert(all[0] == m);
    } else {
        let c = n.children->Some_0;
        lemma_steps_within_reach(c@[steps[0]], (levels - 1) as nat, m, steps.drop_first());
        lemma_in_reach_from(c@, 0, steps[0], (levels - 1) as nat, m);
        let below = reach_from(c@, 0, (levels - 1) as nat);
        let j = choose|j: int| 0 <= j < below.len() && below[j] == m;
        assert(all[1 + j] == m);
    }
}

proof fn lemma_in_reach_from(children: Seq<AxNode>, i: int, k: int, levels: nat, m: AxNode)
    requires
        0 <= i <= k < children.len(),
        reach(children[k], levels).contains(m),
    ensures
        reach_from(children, i, levels).contains(m),
    decreases k - i,
{
    let own = reach(children[i], levels);
    let rest = reach_from(children, i + 1, levels);
    let all = reach_from(children, i, levels);
    if i == k {
        let j = choose|j: int| 0 <= j < own.len() && own[j] == m;
        assert(all[j] == m);
    } else {
        lemma_in_reach_from(children, i + 1, k, levels, m);
        let j = choose|j: int| 0 <= j < rest.len() && rest[j] == m;
        assert(all[own.len() + j] == m);
    }
}

/// The search for a popup menu takes in the node itself first, then everything that steps lead
/// to from it, the last child before the others.
pub proof fn popup_searches_take_in_everything(n: AxNode, m: AxNode, steps: Seq<int>)
    ensures
        from_the_last(n).len() > 0 && from_the_last(n)[0] == n,
        node_at(n, steps) == Some(m) ==> from_the_last(n).contains(m),
        children_of(n).len() > 0 ==> from_the_last(n)[1] == children_of(n).last(),
    decreases steps.len(),
{
    let all = from_the_last(n);
    if children_of(n).len() > 0 {
        let c = n.children->Some_0;
        let below = last_of(c@, c@.len() as int);
        let first = from_the_last(c@.last());
        assert(first[0] == c@.last());
        assert(below[0] == first[0]);
        assert(all[1] == below[0]);
    }
    if node_at(n, steps) == Some(m) {
        if steps.len() == 0 {
            assert(all[0] == m);
        } else {
            let c = n.children->Some_0;
            popup_searches_take_in_everything(c@[steps[0]], m, steps.drop_first());
            lemma_in_last_of(c@, c@.len() as int, steps[0], m);
            let below = last_of(c@, c@.len() as int);
            let j = choose|j: int| 0 <= j < below.len() && below[j] == m;
            assert(all[1 + j] == m);
        }
    }
}

proof fn lemma_in_last_of(children: Seq<AxNode>, i: int, k: int, m: AxNode)
    requires
        0 <= k < i <= children.len(),
        from_the_last(children[k]).contains(m),
    ensures
        last_of(children, i).contains(m),
    decreases i,
{
    let own = from_the_last(children[i - 1]);
    let rest = last_of(children, i - 1);
    let all = last_of(children, i);
    if k == i - 1 {
        let j = choose|j: int| 0 <= j < own.len() && own[j] == m;
        assert(all[j] == m);
    } else {
        lemma_in_last_of(children, i - 1, k, m);
        let j = choose|j: int| 0 <= j < rest.len() && rest[j] == m;
        assert(all[own.len() + j] == m);
    }
}

/// The applications that are listed are those that have a bundle id, in their order, each with
/// its own process, its name or else its bundle id, and the focus only where it is frontmost.
pub proof fn running_applications_are_listed(apps: Seq<RunningApp>, frontmost: Option<i32>)
    ensures
        handles(apps, frontmost) == apps.filter(|a: RunningApp| a.bundle_id is Some).map_values(
            |a: RunningApp|
                HandleView {
                    bundle_id: a.bundle_id->Some_0@,
                    pid: a.pid,
                    name: match a.name {
                        Some(t) => t@,
                        None => a.bundle_id->Some_0@,
                    },
                    has_focus: frontmost == Some(a.pid),
                },
        ),
    decreases apps.len(),
{
    reveal(Seq::filter);
    let shown = |a: RunningApp|
        HandleView {
            bundle_id: a.bundle_id->Some_0@,
            pid: a.pid,
            name: match a.name {
                Some(t) => t@,
                None => a.bundle_id->Some_0@,
            },
            has_focus: frontmost == Some(a.pid),
        };
    let keep = |a: RunningApp| a.bundle_id is Some;
    if apps.len() > 0 {
        running_applications_are_listed(apps.drop_last(), frontmost);
        let rest = apps.drop_last().filter(keep);
        assert(apps.filter(keep).map_values(shown) =~= if keep(apps.last()) {
            rest.map_values(shown).push(shown(apps.last()))
        } else {
            rest.map_values(shown)
        });
    } else {
        assert(handles(apps, frontmost) =~= apps.filter(keep).map_values(shown));
    }
}

/// The windows that are listed are the children of that role, in their order. Each is labelled
/// by its place among them and says what the child says: its title, its box, which is the
/// empty one at the origin only where it reports none, and whether it is minimized,
/// fullscreen and the main one.
pub proof fn windows_say_what_their_node_says(
    kids: Seq<WindowNode>,
    bundle_id: Seq<char>,
    j: int,
)
    ensures
        ({
            let ws = kids.filter(
                |w: WindowNode| w.node.role matches Some(r) && r@ == "AXWindow"@,
            );
            let all = windows_among(kids, bundle_id, kids.len());
            &&& all.len() == ws.len()
            &&& 0 <= j < ws.len() ==> window_shows(all[j], ws[j], bundle_id, j)
        }),
{
    lemma_windows(kids, bundle_id, kids.len());
    assert(kids.take(kids.len() as int) =~= kids);
}

/// A listed window says what its node says.
pub open spec fn window_shows(v: WindowView, w: WindowNode, bundle_id: Seq<char>, j: int) -> bool {
    &&& v.window_id == "w"@ + decimal(j as nat)
    &&& v.bundle_id == bundle_id
    &&& match w.node.title {
        Some(t) => v.title == t@,
        None => v.title.len() == 0,
    }
    &&& match w.node.bbox {
        Some(b) => v.bbox == b,
        None => v.bbox.x == 0 && v.bbox.y == 0 && v.bbox.w == 0 && v.bbox.h == 0,
    }
    &&& v.minimized == (w.minimized matches Some(b) && b)
    &&& v.fullscreen == (w.fullscreen matches Some(b) && b)
    &&& v.main == (w.main matches Some(b) && b)
}

proof fn lemma_windows(kids: Seq<WindowNode>, bundle_id: Seq<char>, k: nat)
    requires
        k <= kids.len(),
    ensures
        ({
            let ws = kids.take(k as int).filter(
                |w: WindowNode| w.node.role matches Some(r) && r@ == "AXWindow"@,
            );
            let all = windows_among(kids, bundle_id, k);
            &&& all.len() == ws.len() == window_count(kids, k)
            &&& forall|j: int|
                0 <= j < ws.len() ==> window_shows(#[trigger] all[j], ws[j], bundle_id, j)
        }),
    decreases k,
{
    reveal(Seq::filter);
    reveal_strlit("AXWindow");
    if k > 0 {
        lemma_windows(kids, bundle_id, (k - 1) as nat);
        assert(kids.take(k as int).drop_last() =~= kids.take(k - 1));
        assert(kids.take(k as int).last() == kids[k - 1]);
    }
}

/// The name that a dock item goes by: its title, else its description.
pub open spec fn dock_name(n: AxNode) -> Seq<char> {
    match (n.title, n.description) {
        (Some(t), _) => t@,
        (None, Some(d)) => d@,
        (None, None) => Seq::empty(),
    }
}

/// Each child of a dock list that goes by a name is listed, behind those before it and before
/// those behind it, under its place in the list. It counts as running just where an
/// application of that name has a bundle id.
pub proof fn dock_children_are_listed(list: Seq<AxNode>, k: nat, apps: Seq<RunningApp>)
    requires
        k < list.len(),
    ensures
        ({
            let before = items_of(list, k, apps);
            let after = items_of(list, k + 1, apps);
            let name = dock_name(list[k as int]);
            if name.len() == 0 {
                after == before
            } else {
                &&& after.len() == before.len() + 1
                &&& after.drop_last() == before
                &&& after.last().dock_id == "d"@ + decimal(k)
                &&& after.last().label == name
                &&& after.last().bundle_id == bundle_of(apps, name)
                &&& after.last().running == (bundle_of(apps, name).len() > 0)
            }
        }),
        items_of(list, k, apps).is_prefix_of(items_of(list, list.len(), apps)),
        items_of(list, 0, apps).len() == 0,
{
    lemma_items_grow(list, k, list.len(), apps);
    let before = items_of(list, k, apps);
    let after = items_of(list, k + 1, apps);
    if dock_name(list[k as int]).len() > 0 {
        assert(after.drop_last() =~= before);
    }
}

proof fn lemma_items_grow(list: Seq<AxNode>, k: nat, l: nat, apps: Seq<RunningApp>)
    requires
        k <= l <= list.len(),
    ensures
        items_of(list, k, apps).is_prefix_of(items_of(list, l, apps)),
    decreases l - k,
{
    if k < l {
        lemma_items_grow(list, k, (l - 1) as nat, apps);
    }
}

/// The items of the dock are those of its lists, one list behind the other.
pub proof fn dock_lists_follow_each_other(lists: Seq<AxNode>, k: nat, apps: Seq<RunningApp>)
    requires
        k < lists.len(),
    ensures
        dock_items(lists, k + 1, apps) == dock_items(lists, k, apps) + items_of(
            children_of(lists[k as int]),
            children_of(lists[k as int]).len(),
            apps,
        ),
        dock_items(lists, 0, apps) == Seq::<DockItemView>::empty(),
{
}

/// The bundle id that belongs to a name is that of the first application of the name; there is
/// none where no application has it.
pub proof fn names_belong_to_the_first_application(
    apps: Seq<RunningApp>,
    name: Seq<char>,
    i: int,
)
    requires
        0 <= i <= apps.len(),
        forall|k: int|
            0 <= k < i ==> !((#[trigger] apps[k]).name matches Some(t) && t@ == name),
    ensures
        i < apps.len() && (apps[i].name matches Some(t) && t@ == name) ==> (
        match apps[i].bundle_id {
            Some(b) => bundle_of(apps, name) == b@,
            None => bundle_of(apps, name).len() == 0,
        }),
        i == apps.len() ==> bundle_of(apps, name).len() == 0,
    decreases apps.len(),
{
    if i > 0 {
        let rest = apps.drop_first();
        assert(!(apps[0].name matches Some(t) && t@ == name));
        assert forall|k: int| 0 <= k < i - 1 implies !((#[trigger] rest[k]).name matches Some(t)
            && t@ == name) by {
            assert(rest[k] == apps[k + 1]);
        }
        names_belong_to_the_first_application(rest, name, i - 1);
    }
}

/// An item of the status menus matches a label where it can be pressed and its title or its
/// description, in lower case, holds the label, which must not be empty.
pub proof fn status_items_match_by_title_or_description(n: AxNode, needle: Seq<char>)
    ensures
        matches_label(n, needle) <==> n.can_press && needle.len() > 0 && ((n.title matches Some(t)
            && contains_text(lowered(t@), needle)) || (n.description matches Some(d)
            && contains_text(lowered(d@), needle))),
{
    if needle.len() > 0 {
        let none = lowered(Seq::<char>::empty());
        assert(none =~= Seq::<char>::empty());
        assert(!contains_text(none, needle));
    }
}

/// The search for a status item takes in what at most six steps lead to from the bar.
pub proof fn status_searches_go_six_steps_down(bar: AxNode, m: AxNode)
    ensures
        searched(bar).contains(m) <==> exists|steps: Seq<int>| #[trigger]
            node_at(bar, steps) == Some(m) && steps.len() <= 6,
{
    reach_is_what_few_steps_lead_to(bar, 7, m);
    if exists|steps: Seq<int>| #[trigger] node_at(bar, steps) == Some(m) && steps.len() <= 6 {
        let steps = choose|steps: Seq<int>| #[trigger]
            node_at(bar, steps) == Some(m) && steps.len() <= 6;
        assert(node_at(bar, steps) == Some(m) && steps.len() < 7);
    }
}

/// The titles of notifications are those of the nodes that can be pressed and have one, in
/// order.
pub proof fn titles_are_those_that_can_be_pressed(nodes: Seq<AxNode>)
    ensures
        titles_of(nodes) == nodes.filter(
            |n: AxNode| n.can_press && (n.title matches Some(t) && t@.len() > 0),
        ).map_values(|n: AxNode| n.title->Some_0@),
    decreases nodes.len(),
{
    let keep = |n: AxNode| n.can_press && (n.title matches Some(t) && t@.len() > 0);
    let show = |n: AxNode| n.title->Some_0@;
    reveal(Seq::filter);
    if nodes.len() > 0 {
        let rest = nodes.drop_first();
        let one = seq![nodes[0]];
        titles_are_those_that_can_be_pressed(rest);
        assert(nodes =~= one + rest);
        Seq::filter_distributes_over_add(one, rest, keep);
        assert(one.drop_last() =~= Seq::<AxNode>::empty());
        assert(one.drop_last().filter(keep).len() == 0);
        assert(one.last() == nodes[0]);
        assert(one.filter(keep) =~= if keep(nodes[0]) {
            one
        } else {
            Seq::empty()
        });
        assert(own_title(nodes[0]) =~= one.filter(keep).map_values(show));
        assert((one.filter(keep) + rest.filter(keep)).map_values(show) =~= one.filter(
            keep,
        ).map_values(show) + rest.filter(keep).map_values(show));
    } else {
        assert(titles_of(nodes) =~= nodes.filter(keep).map_values(show));
    }
}

/// A capped list is the beginning of the list, all of it where it is short enough.
pub proof fn caps_cut_off_the_end<T>(s: Seq<T>, cap: nat)
    ensures
        capped(s, cap).is_prefix_of(s),
        capped(s, cap).len() == (if s.len() < cap {
            s.len()
        } else {
            cap
        }),
{
}

/// The titles on the way down, of the nodes that have one. That of the first node is not
/// among them.
pub open spec fn titles_down(n: AxNode, steps: Seq<int>) -> Seq<Seq<char>>
    decreases steps.len(),
{
    if steps.len() == 0 {
        Seq::empty()
    } else {
        let next = children_of(n)[steps[0]];
        let rest = titles_down(next, steps.drop_first());
        match next.title {
            Some(t) => if t@.len() > 0 {
                seq![t@] + rest
            } else {
                rest
            },
            None => rest,
        }
    }
}

/// The menu item at the end of the steps: it is listed with the titles on the way, which are
/// also shown in one text, and as disabled just where it says that it is not enabled.
pub open spec fn item_at_end(
    item: MenuItemView,
    n: AxNode,
    above: Seq<Seq<char>>,
    steps: Seq<int>,
) -> bool {
    &&& node_at(n, steps) matches Some(m)
    &&& m.can_press
    &&& item.path == above + titles_down(n, steps)
    &&& item.path.len() > 0
    &&& item.display == joined(item.path, " > "@)
    &&& item.interactable
    &&& item.disabled == (m.enabled matches Some(b) && !b)
    &&& item.shortcut is None
}

spec fn leads_to_item(
    item: MenuItemView,
    n: AxNode,
    above: Seq<Seq<char>>,
    depth: nat,
    steps: Seq<int>,
) -> bool {
    2 <= depth + steps.len() <= 12 && item_at_end(item, n, above, steps)
}

proof fn lemma_menu_sound(n: AxNode, above: Seq<Seq<char>>, depth: nat, j: int)
    requires
        0 <= j < menu_items(n, above, depth).len(),
    ensures
        exists|steps: Seq<int>| #[trigger]
            leads_to_item(
                menu_items(n, above, depth)[j],
                n,
                menu_path(n, above, depth),
                depth,
                steps,
            ),
    decreases n, 0int,
{
    let path = menu_path(n, above, depth);
    let own = own_item(n, path, depth);
    let item = menu_items(n, above, depth)[j];
    if j < own.len() {
        let none = Seq::<int>::empty();
        assert(path + titles_down(n, none) =~= path);
        assert(leads_to_item(item, n, path, depth, none));
    } else {
        let c = n.children->Some_0;
        assert(decreases_to!(n => n.children));
        assert(decreases_to!(n.children => n.children->Some_0));
        assert(decreases_to!(c => c@));
        let k = lemma_menu_from_sound(c@, 0, path, depth + 1, j - own.len());
        let steps = choose|steps: Seq<int>| #[trigger]
            leads_to_item(item, c@[k], menu_path(c@[k], path, depth + 1), depth + 1, steps);
        let all = seq![k] + steps;
        assert(all.drop_first() =~= steps);
        assert(path + titles_down(n, all) =~= menu_path(c@[k], path, depth + 1) + titles_down(
            c@[k],
            steps,
        ));
        assert(leads_to_item(item, n, path, depth, all));
    }
}

proof fn lemma_menu_from_sound(
    children: Seq<AxNode>,
    i: int,
    above: Seq<Seq<char>>,
    depth: nat,
    j: int,
) -> (k: int)
    requires
        0 <= i <= children.len(),
        0 <= j < menu_items_from(children, i, above, depth).len(),
    ensures
        i <= k < children.len(),
        exists|steps: Seq<int>| #[trigger]
            leads_to_item(
                menu_items_from(children, i, above, depth)[j],
                children[k],
                menu_path(children[k], above, depth),
                depth,
                steps,
            ),
    decreases children, children.len() - i,
{
    let own = menu_items(children[i], above, depth);
    if j < own.len() {
        assert(menu_items_from(children, i, above, depth)[j] == own[j]);
        lemma_menu_sound(children[i], above, depth, j);
        i
    } else {
        let rest = menu_items_from(children, i + 1, above, depth);
        let item = menu_items_from(children, i, above, depth)[j];
        assert(item == rest[j - own.len()]);
        let k = lemma_menu_from_sound(children, i + 1, above, depth, j - own.len());
        let steps = choose|steps: Seq<int>| #[trigger]
            leads_to_item(item, children[k], menu_path(children[k], above, depth), depth, steps);
        assert(leads_to_item(item, children[k], menu_path(children[k], above, depth), depth, steps));
        k
    }
}

proof fn lemma_menu_complete(n: AxNode, above: Seq<Seq<char>>, depth: nat, steps: Seq<int>) -> (j:
    int)
    requires
        2 <= depth + steps.len() <= 12,
        node_at(n, steps) matches Some(m) && m.can_press,
        (menu_path(n, above, depth) + titles_down(n, steps)).len() > 0,
    ensures
        0 <= j < menu_items(n, above, depth).len(),
        item_at_end(menu_items(n, above, depth)[j], n, menu_path(n, above, depth), steps),
    decreases steps.len(),
{
    let path = menu_path(n, above, depth);
    let own = own_item(n, path, depth);
    if steps.len() == 0 {
        assert(path + titles_down(n, steps) =~= path);
        0
    } else {
        let c = n.children->Some_0;
        let k = steps[0];
        let rest = steps.drop_first();
        assert(path + titles_down(n, steps) =~= menu_path(c@[k], path, depth + 1) + titles_down(
            c@[k],
            rest,
        ));
        let j = lemma_menu_complete(c@[k], path, depth + 1, rest);
        let l = lemma_menu_from_holds(c@, 0, path, depth + 1, k, j);
        own.len() + l
    }
}

proof fn lemma_menu_from_holds(
    children: Seq<AxNode>,
    i: int,
    above: Seq<Seq<char>>,
    depth: nat,
    k: int,
    j: int,
) -> (l: int)
    requires
        0 <= i <= k < children.len(),
        0 <= j < menu_items(children[k], above, depth).len(),
    ensures
        0 <= l < menu_items_from(children, i, above, depth).len(),
        menu_items_from(children, i, above, depth)[l] == menu_items(children[k], above, depth)[j],
    decreases k - i,
{
    if i == k {
        j
    } else {
        let own = menu_items(children[i], above, depth);
        own.len() + lemma_menu_from_holds(children, i + 1, above, depth, k, j)
    }
}

/// Every item that a menu bar lists stands two to twelve steps below the bar, can be pressed,
/// and shows the titles on the way to it.
pub proof fn menu_items_show_the_way_to_them(bar: AxNode, j: int)
    requires
        0 <= j < menu_items(bar, Seq::empty(), 0).len(),
    ensures
        exists|steps: Seq<int>|
            2 <= steps.len() <= 12 && #[trigger] item_at_end(
                menu_items(bar, Seq::empty(), 0)[j],
                bar,
                Seq::empty(),
                steps,
            ),
{
    lemma_menu_sound(bar, Seq::empty(), 0, j);
    let item = menu_items(bar, Seq::empty(), 0)[j];
    let none = Seq::<Seq<char>>::empty();
    let steps = choose|steps: Seq<int>| #[trigger] leads_to_item(item, bar, none, 0, steps);
    assert(item_at_end(item, bar, none, steps));
}

/// Every node two to twelve steps below a menu bar that can be pressed is listed, unless
/// nothing on the way to it has a title.
pub proof fn menus_list_all_that_can_be_pressed(bar: AxNode, steps: Seq<int>)
    requires
        2 <= steps.len() <= 12,
        node_at(bar, steps) matches Some(m) && m.can_press,
        titles_down(bar, steps).len() > 0,
    ensures
        exists|j: int|
            0 <= j < menu_items(bar, Seq::empty(), 0).len() && item_at_end(
                #[trigger] menu_items(bar, Seq::empty(), 0)[j],
                bar,
                Seq::empty(),
                steps,
            ),
{
    let none = Seq::<Seq<char>>::empty();
    assert(none + titles_down(bar, steps) =~= titles_down(bar, steps));
    let j = lemma_menu_complete(bar, none, 0, steps);
    assert(item_at_end(menu_items(bar, none, 0)[j], bar, none, steps));
}

/// A failed call is told by its code: success is no failure, a call that is not permitted
/// names the settings, and every other code is handed on.
pub proof fn failed_calls_are_told_by_code(code: i32, e: NativeControlError)
    requires
        ax_error_of(code, e),
    ensures
        code == -25211 ==> (e matches NativeControlError::PermissionMissing { settings_url }
            && settings_url@
            == "x-apple.systempreferences:com.apple.preference.security?Privacy_Accessibility"@),
        code == 0 ==> (e matches NativeControlError::Internal(msg) && msg@
            == "map_ax_error called with success"@),
        code != -25211 && code != 0 ==> e == NativeControlError::AxError(code),
{
}

/// A path that leads nowhere is refused with the first step that cannot be taken: its number,
/// and whether there was nothing below or not enough.
pub proof fn lost_steps_are_named(roots: Seq<AxNode>, n: AxNode, step: u32)
    ensures
        step >= roots.len() ==> located(roots, seq![step]) == Err::<AxNode, Seq<char>>(
            "path[0]="@ + decimal(step as nat),
        ),
        step < roots.len() ==> located(roots, seq![step]) == Ok::<AxNode, Seq<char>>(
            roots[step as int],
        ),
        n.children is None ==> descend(n, seq![step]) == Err::<AxNode, Seq<char>>(
            "path step="@ + decimal(step as nat) + ", no children"@,
        ),
        n.children is Some && step >= children_of(n).len() ==> descend(n, seq![step]) == Err::<
            AxNode,
            Seq<char>,
        >("path step="@ + decimal(step as nat) + " out of range"@),
        n.children is Some && step < children_of(n).len() ==> descend(n, seq![step]) == Ok::<
            AxNode,
            Seq<char>,
        >(children_of(n)[step as int]),
{
    assert(seq![step].drop_first() =~= Seq::<u32>::empty());
    if n.children is Some && step < children_of(n).len() {
        assert(descend(children_of(n)[step as int], Seq::<u32>::empty()) == Ok::<
            AxNode,
            Seq<char>,
        >(children_of(n)[step as int]));
    }
}

} // verus!
