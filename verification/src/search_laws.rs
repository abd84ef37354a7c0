//! What a search finds: the first that fits, or nothing just where nothing fits.
use vstd::prelude::*;

use crate::actions::{
    descends_nowhere, descends_to, first_bundle, first_menu, first_process, RunningApp,
};
use crate::ax_find::{descendants, first_titled, none_titled, titled};
use crate::ax_walk::{children_of, is_focused, AxNode, FocusedElement};
use crate::controller::{first_ref, no_ref};
use crate::dock::{first_labelled, item_in, lacks_label, no_item};
use crate::menu::{breaks_at, leads_to, stale_step, steps_nowhere, steps_to};
use crate::native_laws::dock_name;
use crate::statusmenu::{first_match, match_in, matches_label, no_match, searched};
use crate::text::decimal;
use crate::types::{debug_text, AppElement, ElementView};

verus! {

/// The `i`-th item is the first one that fits.
pub open spec fn first_that<T>(s: Seq<T>, fits: spec_fn(T) -> bool, i: int) -> bool {
    &&& 0 <= i < s.len()
    &&& fits(s[i])
    &&& forall|k: int| 0 <= k < s.len() && fits(#[trigger] s[k]) ==> i <= k
}

proof fn lemma_first<T>(s: Seq<T>, fits: spec_fn(T) -> bool, k: int) -> (i: int)
    requires
        0 <= k < s.len(),
        fits(s[k]),
    ensures
        first_that(s, fits, i),
        i <= k,
    decreases k,
{
    if exists|j: int| 0 <= j < k && fits(#[trigger] s[j]) {
        let j = choose|j: int| 0 <= j < k && fits(#[trigger] s[j]);
        lemma_first(s, fits, j)
    } else {
        assert forall|j: int| 0 <= j < s.len() && fits(#[trigger] s[j]) implies k <= j by {}
        k
    }
}

/// A search by title finds the first node that has exactly the title, and nothing just where
/// none has it.
pub proof fn titles_find_the_first_node(nodes: Seq<AxNode>, title: Seq<char>, i: int)
    ensures
        ({
            let fits = |n: AxNode| n.title matches Some(t) && t@ == title;
            &&& first_titled(nodes, title, i) <==> first_that(nodes, fits, i)
            &&& none_titled(nodes, title) <==> forall|k: int|
                0 <= k < nodes.len() ==> !fits(#[trigger] nodes[k])
            &&& none_titled(nodes, title) <==> !exists|j: int| #[trigger]
                first_titled(nodes, title, j)
        }),
{
    let fits = |n: AxNode| n.title matches Some(t) && t@ == title;
    assert forall|n: AxNode| #[trigger] titled(n, title) == fits(n) by {}
    assert forall|j: int| #[trigger] first_titled(nodes, title, j) <==> first_that(
        nodes,
        fits,
        j,
    ) by {
        lemma_first_titled(nodes, title, j);
    }
    if !none_titled(nodes, title) {
        let k = choose|k: int| 0 <= k < nodes.len() && titled(#[trigger] nodes[k], title);
        let j = lemma_first(nodes, fits, k);
        assert(first_titled(nodes, title, j));
    }
    if none_titled(nodes, title) {
        assert forall|k: int| 0 <= k < nodes.len() implies !fits(#[trigger] nodes[k]) by {
            assert(!titled(nodes[k], title));
        }
    }
}

proof fn lemma_first_titled(nodes: Seq<AxNode>, title: Seq<char>, j: int)
    ensures
        ({
            let fits = |n: AxNode| n.title matches Some(t) && t@ == title;
            first_titled(nodes, title, j) <==> first_that(nodes, fits, j)
        }),
{
    let fits = |n: AxNode| n.title matches Some(t) && t@ == title;
    if first_titled(nodes, title, j) {
        assert forall|k: int| 0 <= k < nodes.len() && fits(#[trigger] nodes[k]) implies j <= k by {
            if k < j {
                assert(!titled(nodes[k], title));
            }
        }
        assert(titled(nodes[j], title));
    }
    if first_that(nodes, fits, j) {
        assert(titled(nodes[j], title));
        assert forall|k: int| 0 <= k < j implies !titled(#[trigger] nodes[k], title) by {
            if titled(nodes[k], title) {
                assert(fits(nodes[k]));
            }
        }
    }
}

/// A search in the dock goes through its lists up to the first that has no children. It finds
/// the first item that goes by the name in the first list that holds one, and nothing just
/// where there is none.
pub proof fn dock_names_find_the_first_item(dock: AxNode, text: Seq<char>, t: int, i: int)
    ensures
        ({
            let lists = children_of(dock);
            let fits = |n: AxNode| dock_name(n) == text;
            &&& first_labelled(children_of(lists[t]), text, i) <==> first_that(
                children_of(lists[t]),
                fits,
                i,
            )
            &&& item_in(lists, text, t, i) ==> {
                &&& 0 <= t < lists.len()
                &&& lists[t].children is Some
                &&& first_that(children_of(lists[t]), fits, i)
                &&& forall|k: int, j: int|
                    0 <= k < t && 0 <= j < children_of(#[trigger] lists[k]).len() ==> !fits(
                        #[trigger] children_of(lists[k])[j],
                    )
                &&& forall|k: int| 0 <= k < t ==> (#[trigger] lists[k]).children is Some
            }
            &&& no_item(dock, text) ==> !item_in(lists, text, t, i)
            &&& !no_item(dock, text) ==> exists|a: int, b: int| #[trigger] item_in(lists, text, a, b)
        }),
{
    let lists = children_of(dock);
    let fits = |n: AxNode| dock_name(n) == text;
    lemma_first_labelled(children_of(lists[t]), text, i);
    if item_in(lists, text, t, i) {
        assert forall|k: int, j: int|
            0 <= k < t && 0 <= j < children_of(#[trigger] lists[k]).len() implies !fits(
            #[trigger] children_of(lists[k])[j],
        ) by {
            assert(lacks_label(lists[k], text));
        }
        assert forall|k: int| 0 <= k < t implies (#[trigger] lists[k]).children is Some by {
            assert(lacks_label(lists[k], text));
        }
        if no_item(dock, text) {
            let e = choose|e: int|
                0 <= e <= lists.len() && (e < lists.len() ==> (#[trigger] lists[e]).children
                    is None) && forall|k: int| 0 <= k < e ==> lacks_label(#[trigger] lists[k], text);
            if t < e {
                assert(lacks_label(lists[t], text));
            } else if e < t {
                assert(lacks_label(lists[e], text));
            }
        }
    }
    if !no_item(dock, text) {
        lemma_dock(dock, text, 0);
    }
}

proof fn lemma_first_labelled(nodes: Seq<AxNode>, text: Seq<char>, i: int)
    ensures
        ({
            let fits = |n: AxNode| dock_name(n) == text;
            first_labelled(nodes, text, i) <==> first_that(nodes, fits, i)
        }),
{
    let fits = |n: AxNode| dock_name(n) == text;
    if first_labelled(nodes, text, i) {
        assert forall|k: int| 0 <= k < nodes.len() && fits(#[trigger] nodes[k]) implies i <= k by {
            if k < i {
                assert(crate::dock::label_of(nodes[k]) != text);
            }
        }
    }
    if first_that(nodes, fits, i) {
        assert forall|k: int| 0 <= k < i implies crate::dock::label_of(#[trigger] nodes[k])
            != text by {
            if dock_name(nodes[k]) == text {
                assert(fits(nodes[k]));
            }
        }
    }
}

proof fn lemma_dock(dock: AxNode, text: Seq<char>, e: int)
    requires
        0 <= e <= children_of(dock).len(),
        !no_item(dock, text),
        forall|k: int| 0 <= k < e ==> lacks_label(#[trigger] children_of(dock)[k], text),
    ensures
        exists|a: int, b: int| #[trigger] item_in(children_of(dock), text, a, b),
    decreases children_of(dock).len() - e,
{
    let lists = children_of(dock);
    if e == lists.len() {
        lemma_no_item(dock, text, e);
    } else if lists[e].children is None {
        lemma_no_item(dock, text, e);
    } else if lacks_label(lists[e], text) {
        lemma_dock(dock, text, e + 1);
    } else {
        let fits = |n: AxNode| dock_name(n) == text;
        let nodes = children_of(lists[e]);
        let k = choose|k: int|
            0 <= k < nodes.len() && crate::dock::label_of(#[trigger] nodes[k]) == text;
        let j = lemma_first(nodes, fits, k);
        lemma_first_labelled(nodes, text, j);
        assert(item_in(lists, text, e, j));
    }
}

proof fn lemma_no_item(dock: AxNode, text: Seq<char>, e: int)
    requires
        0 <= e <= children_of(dock).len(),
        e < children_of(dock).len() ==> children_of(dock)[e].children is None,
        forall|k: int| 0 <= k < e ==> lacks_label(#[trigger] children_of(dock)[k], text),
    ensures
        no_item(dock, text),
{
    let lists = children_of(dock);
    let there = lists[e];
    assert(0 <= e <= lists.len() && (e < lists.len() ==> lists[e].children is None));
}

/// A search in the status menus finds the first item that matches in the first bar that holds
/// one; a bar holds none just where nothing in it matches.
pub proof fn status_searches_find_the_first_match(
    bars: Seq<AxNode>,
    needle: Seq<char>,
    b: int,
    i: int,
)
    ensures
        ({
            let fits = |n: AxNode| matches_label(n, needle);
            &&& match_in(bars, needle, b, i) <==> {
                &&& 0 <= b < bars.len()
                &&& first_that(searched(bars[b]), fits, i)
                &&& forall|k: int| 0 <= k < b ==> no_match(searched(#[trigger] bars[k]), needle)
            }
            &&& no_match(searched(bars[b]), needle) <==> forall|k: int|
                0 <= k < searched(bars[b]).len() ==> !fits(#[trigger] searched(bars[b])[k])
            &&& !no_match(searched(bars[b]), needle) ==> exists|j: int| #[trigger]
                first_match(searched(bars[b]), needle, j)
        }),
{
    let fits = |n: AxNode| matches_label(n, needle);
    let nodes = searched(bars[b]);
    lemma_first_match(nodes, needle, i);
    if !no_match(nodes, needle) {
        let k = choose|k: int| 0 <= k < nodes.len() && matches_label(#[trigger] nodes[k], needle);
        let j = lemma_first(nodes, fits, k);
        lemma_first_match(nodes, needle, j);
        assert(first_match(nodes, needle, j));
    } else {
        assert forall|k: int| 0 <= k < nodes.len() implies !fits(#[trigger] nodes[k]) by {
            assert(!matches_label(nodes[k], needle));
        }
    }
}

proof fn lemma_first_match(nodes: Seq<AxNode>, needle: Seq<char>, i: int)
    ensures
        ({
            let fits = |n: AxNode| matches_label(n, needle);
            first_match(nodes, needle, i) <==> first_that(nodes, fits, i)
        }),
{
    let fits = |n: AxNode| matches_label(n, needle);
    if first_match(nodes, needle, i) {
        assert forall|k: int| 0 <= k < nodes.len() && fits(#[trigger] nodes[k]) implies i <= k by {
            if k < i {
                assert(!matches_label(nodes[k], needle));
            }
        }
    }
    if first_that(nodes, fits, i) {
        assert forall|k: int| 0 <= k < i implies !matches_label(#[trigger] nodes[k], needle) by {
            if matches_label(nodes[k], needle) {
                assert(fits(nodes[k]));
            }
        }
    }
}

/// The popup menu is the first node of the role, in the order of the search.
pub proof fn popup_menus_are_found_by_role(nodes: Seq<AxNode>, i: int)
    ensures
        first_menu(nodes, i) <==> first_that(
            nodes,
            |n: AxNode| n.role matches Some(r) && r@ == "AXMenu"@,
            i,
        ),
{
    let fits = |n: AxNode| n.role matches Some(r) && r@ == "AXMenu"@;
    if first_menu(nodes, i) {
        assert forall|k: int| 0 <= k < nodes.len() && fits(#[trigger] nodes[k]) implies i <= k by {
            if k < i {
                assert(!crate::actions::is_menu(nodes[k]));
            }
        }
    }
    if first_that(nodes, fits, i) {
        assert forall|k: int| 0 <= k < i implies !crate::actions::is_menu(#[trigger] nodes[k]) by {
            if crate::actions::is_menu(nodes[k]) {
                assert(fits(nodes[k]));
            }
        }
    }
}

/// An application is found by its bundle id, and its bundle id by its process: each time the
/// first that fits.
pub proof fn applications_are_found_first(
    apps: Seq<RunningApp>,
    bundle_id: Seq<char>,
    pid: i32,
    i: int,
)
    ensures
        first_bundle(apps, bundle_id, i) <==> first_that(
            apps,
            |a: RunningApp| a.bundle_id matches Some(b) && b@ == bundle_id,
            i,
        ),
        first_process(apps, pid, i) <==> first_that(
            apps,
            |a: RunningApp| a.pid == pid && a.bundle_id is Some,
            i,
        ),
{
    let named = |a: RunningApp| a.bundle_id matches Some(b) && b@ == bundle_id;
    let runs = |a: RunningApp| a.pid == pid && a.bundle_id is Some;
    if first_bundle(apps, bundle_id, i) {
        assert forall|k: int| 0 <= k < apps.len() && named(#[trigger] apps[k]) implies i <= k by {
            if k < i {
                assert(crate::broker_client::opt_text(apps[k].bundle_id) != Some(bundle_id));
            }
        }
    }
    if first_that(apps, named, i) {
        assert forall|k: int| 0 <= k < i implies crate::broker_client::opt_text(
            (#[trigger] apps[k]).bundle_id,
        ) != Some(bundle_id) by {
            if crate::broker_client::opt_text(apps[k].bundle_id) == Some(bundle_id) {
                assert(named(apps[k]));
            }
        }
    }
    if first_process(apps, pid, i) {
        assert forall|k: int| 0 <= k < apps.len() && runs(#[trigger] apps[k]) implies i <= k by {
            if k < i {
                assert(!(apps[k].pid == pid && apps[k].bundle_id is Some));
            }
        }
    }
    if first_that(apps, runs, i) {
        assert forall|k: int| 0 <= k < i implies !((#[trigger] apps[k]).pid == pid
            && apps[k].bundle_id is Some) by {
            if apps[k].pid == pid && apps[k].bundle_id is Some {
                assert(runs(apps[k]));
            }
        }
    }
}

/// A label stands for the first element that bears it, and for nothing just where none does.
pub proof fn labels_stand_for_the_first_element(
    elements: Seq<ElementView>,
    r: Seq<char>,
    i: int,
)
    ensures
        first_ref(elements, r, i) <==> first_that(elements, |e: ElementView| e.element_ref == r, i),
        no_ref(elements, r) <==> !exists|j: int| #[trigger] first_ref(elements, r, j),
{
    let fits = |e: ElementView| e.element_ref == r;
    lemma_first_ref(elements, r, i);
    if !no_ref(elements, r) {
        let k = choose|k: int|
            0 <= k < elements.len() && (#[trigger] elements[k]).element_ref == r;
        let j = lemma_first(elements, fits, k);
        lemma_first_ref(elements, r, j);
        assert(first_ref(elements, r, j));
    }
}

proof fn lemma_first_ref(elements: Seq<ElementView>, r: Seq<char>, i: int)
    ensures
        first_ref(elements, r, i) <==> first_that(elements, |e: ElementView| e.element_ref == r, i),
{
    let fits = |e: ElementView| e.element_ref == r;
    if first_ref(elements, r, i) {
        assert forall|k: int| 0 <= k < elements.len() && fits(#[trigger] elements[k]) implies i
            <= k by {
            if k < i {
                assert(elements[k].element_ref != r);
            }
        }
    }
    if first_that(elements, fits, i) {
        assert forall|k: int| 0 <= k < i implies (#[trigger] elements[k]).element_ref != r by {
            if elements[k].element_ref == r {
                assert(fits(elements[k]));
            }
        }
    }
}

/// A title leads from a menu to its first child of that title; only where no child has it, to
/// the first such child of the first child below which there is one. It leads nowhere just
/// where neither is there, and never to two places.
pub proof fn titles_lead_down_a_menu(n: AxNode, title: Seq<char>, a: AxNode, b: AxNode)
    ensures
        ({
            let fits = |m: AxNode| m.title matches Some(t) && t@ == title;
            let kids = children_of(n);
            &&& steps_to(n, title, a) && steps_to(n, title, b) ==> a == b
            &&& steps_nowhere(n, title) ==> !steps_to(n, title, a)
            &&& !steps_nowhere(n, title) ==> exists|to: AxNode| #[trigger] steps_to(n, title, to)
            &&& forall|i: int|
                first_that(kids, fits, i) && #[trigger] kids[i] == a ==> steps_to(n, title, a)
            &&& steps_to(n, title, a) ==> fits(a) && (kids.contains(a) || exists|m: int|
                0 <= m < kids.len() && children_of(#[trigger] kids[m]).contains(a))
            &&& steps_to(n, title, a) && !kids.contains(a) ==> forall|k: int|
                0 <= k < kids.len() ==> !fits(#[trigger] kids[k])
        }),
{
    let fits = |m: AxNode| m.title matches Some(t) && t@ == title;
    let kids = children_of(n);
    titles_find_the_first_node(kids, title, 0);
    assert forall|i: int| first_that(kids, fits, i) && #[trigger] kids[i] == a implies steps_to(
        n,
        title,
        a,
    ) by {
        lemma_first_titled(kids, title, i);
        assert(first_titled(kids, title, i));
    }
    if !none_titled(kids, title) {
        let j = choose|j: int| #[trigger] first_titled(kids, title, j);
        assert(steps_to(n, title, kids[j]));
        lemma_direct(n, title, a, j);
        lemma_direct(n, title, b, j);
    } else {
        assert forall|j: int| !#[trigger] first_titled(kids, title, j) by {}
        if !steps_nowhere(n, title) {
            let k = choose|k: int|
                0 <= k < kids.len() && !none_titled(children_of(#[trigger] kids[k]), title);
            let below = |m: AxNode| !none_titled(children_of(m), title);
            let m = lemma_first(kids, below, k);
            titles_find_the_first_node(children_of(kids[m]), title, 0);
            let j = choose|j: int| #[trigger] first_titled(children_of(kids[m]), title, j);
            assert forall|x: int| 0 <= x < m implies none_titled(
                children_of(#[trigger] kids[x]),
                title,
            ) by {
                if !none_titled(children_of(kids[x]), title) {
                    assert(below(kids[x]));
                }
            }
            assert(first_titled(children_of(kids[m]), title, j) && children_of(kids[m])[j]
                == children_of(kids[m])[j]);
            assert(steps_to(n, title, children_of(kids[m])[j]));
        }
        if steps_to(n, title, a) {
            let (m, i) = choose|m: int, i: int|
                0 <= m < kids.len() && #[trigger] first_titled(children_of(kids[m]), title, i)
                    && children_of(kids[m])[i] == a && forall|k: int|
                    0 <= k < m ==> none_titled(children_of(#[trigger] kids[k]), title);
            assert(titled(children_of(kids[m])[i], title));
            assert(children_of(kids[m]).contains(a));
            if steps_nowhere(n, title) {
                assert(none_titled(children_of(kids[m]), title));
            }
            if steps_to(n, title, b) {
                let (m2, i2) = choose|m2: int, i2: int|
                    0 <= m2 < kids.len() && #[trigger] first_titled(
                        children_of(kids[m2]),
                        title,
                        i2,
                    ) && children_of(kids[m2])[i2] == b && forall|k: int|
                        0 <= k < m2 ==> none_titled(children_of(#[trigger] kids[k]), title);
                assert(titled(children_of(kids[m2])[i2], title));
                if m < m2 {
                    assert(none_titled(children_of(kids[m]), title));
                } else if m2 < m {
                    assert(none_titled(children_of(kids[m2]), title));
                } else if i < i2 {
                    assert(!titled(children_of(kids[m])[i], title));
                } else if i2 < i {
                    assert(!titled(children_of(kids[m])[i2], title));
                }
            }
        }
        assert forall|k: int| 0 <= k < kids.len() implies !fits(#[trigger] kids[k]) by {
            assert(!titled(kids[k], title));
        }
    }
}

proof fn lemma_direct(n: AxNode, title: Seq<char>, a: AxNode, j: int)
    requires
        first_titled(children_of(n), title, j),
    ensures
        steps_to(n, title, a) ==> a == children_of(n)[j] && titled(a, title)
            && children_of(n).contains(a),
        !steps_nowhere(n, title),
{
    let kids = children_of(n);
    assert(titled(kids[j], title));
    if none_titled(kids, title) {
        assert(!titled(kids[j], title));
    }
    if steps_to(n, title, a) {
        let i = choose|i: int| #[trigger] first_titled(kids, title, i) && kids[i] == a;
        assert(titled(kids[i], title));
        if i < j {
            assert(!titled(kids[i], title));
        } else if j < i {
            assert(!titled(kids[j], title));
        }
    }
}

/// A path of titles leads to one item, or breaks at one title, never both.
pub proof fn menu_paths_lead_or_break(
    n: AxNode,
    path: Seq<Seq<char>>,
    a: AxNode,
    b: AxNode,
    at: int,
    at2: int,
)
    ensures
        leads_to(n, path, a) && leads_to(n, path, b) ==> a == b,
        leads_to(n, path, a) ==> !breaks_at(n, path, at),
        breaks_at(n, path, at) && breaks_at(n, path, at2) ==> at == at2,
        breaks_at(n, path, at) ==> 0 <= at < path.len(),
        (exists|item: AxNode| #[trigger] leads_to(n, path, item)) || (exists|k: int| #[trigger]
            breaks_at(n, path, k)),
        path.len() == 0 ==> leads_to(n, path, n),
    decreases path.len(),
{
    if path.len() == 0 {
        assert(leads_to(n, path, n));
    } else {
        let title = path[0];
        let rest = path.drop_first();
        if steps_nowhere(n, title) {
            assert forall|to: AxNode| !#[trigger] steps_to(n, title, to) by {
                titles_lead_down_a_menu(n, title, to, to);
            }
            assert(breaks_at(n, path, 0));
        } else {
            titles_lead_down_a_menu(n, title, a, b);
            let to = choose|to: AxNode| #[trigger] steps_to(n, title, to);
            assert forall|x: AxNode| #[trigger] steps_to(n, title, x) implies x == to by {
                titles_lead_down_a_menu(n, title, x, to);
            }
            menu_paths_lead_or_break(to, rest, a, b, at - 1, at2 - 1);
            if exists|item: AxNode| #[trigger] leads_to(to, rest, item) {
                let item = choose|item: AxNode| #[trigger] leads_to(to, rest, item);
                assert(steps_to(n, title, to) && leads_to(to, rest, item));
                assert(leads_to(n, path, item));
            } else {
                let k = choose|k: int| #[trigger] breaks_at(to, rest, k);
                menu_paths_lead_or_break(to, rest, a, b, k, k);
                assert(steps_to(n, title, to) && breaks_at(to, rest, k + 1 - 1));
                assert(breaks_at(n, path, k + 1));
            }
        }
    }
}

/// A title that leads nowhere is named with its place in the path.
pub proof fn lost_titles_are_named(path: Seq<Seq<char>>, at: nat)
    requires
        at < path.len(),
    ensures
        stale_step(path, at as int) == "menu path["@ + decimal(at) + "]="@ + debug_text(
            path[at as int],
        ),
{
}

/// A path of titles through a popup menu leads to one item, or nowhere, never both.
pub proof fn popup_paths_lead_or_do_not(
    root: AxNode,
    path: Seq<Seq<char>>,
    a: AxNode,
    b: AxNode,
)
    ensures
        descends_to(root, path, a) && descends_to(root, path, b) ==> a == b,
        descends_nowhere(root, path) ==> !descends_to(root, path, a),
        !descends_nowhere(root, path) ==> exists|t: AxNode| #[trigger] descends_to(root, path, t),
        path.len() == 0 ==> descends_to(root, path, root),
        path.len() > 0 && descends_to(root, path.take(1), a) ==> descendants(root).contains(a) && (
        a.title matches Some(t) && t@ == path[0]),
    decreases path.len(),
{
    if path.len() == 0 {
        assert(descends_to(root, path, root));
    } else {
        let nodes = descendants(root);
        let title = path[0];
        let rest = path.drop_first();
        titles_find_the_first_node(nodes, title, 0);
        let one = path.take(1);
        assert(one[0] == title);
        assert(one.drop_first() =~= Seq::<Seq<char>>::empty());
        if none_titled(nodes, title) {
            assert forall|j: int| !#[trigger] first_titled(nodes, title, j) by {}
        } else {
            let i = choose|i: int| #[trigger] first_titled(nodes, title, i);
            assert forall|j: int| #[trigger] first_titled(nodes, title, j) implies i == j by {
                if i < j {
                    assert(!titled(nodes[i], title));
                } else if j < i {
                    assert(!titled(nodes[j], title));
                }
            }
            assert(titled(nodes[i], title));
            popup_paths_lead_or_do_not(nodes[i], rest, a, b);
            if !descends_nowhere(root, path) {
                let t = choose|t: AxNode| #[trigger] descends_to(nodes[i], rest, t);
                assert(first_titled(nodes, title, i) && descends_to(nodes[i], rest, t));
                assert(descends_to(root, path, t));
            }
            if descends_to(root, one, a) {
                let j = choose|j: int| #[trigger]
                    first_titled(nodes, one[0], j) && descends_to(nodes[j], one.drop_first(), a);
                assert(nodes[j] == a);
            }
        }
    }
}

/// An element has the focus where the focused one has its role and its name and stands near it.
pub proof fn the_focus_is_told_by_role_name_and_place(
    elements: Seq<AppElement>,
    f: FocusedElement,
    i: int,
)
    requires
        0 <= i < elements.len(),
    ensures
        is_focused(elements, f, i) <==> {
            &&& f.role matches Some(r) && r@ == elements[i].role@
            &&& f.name@ == elements[i].name@
            &&& i < f.near@.len()
            &&& f.near@[i]
        },
{
}

} // verus!
