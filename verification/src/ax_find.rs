//! Searches over accessibility trees.
use vstd::prelude::*;

use crate::ax_walk::{children_of, map_ax_error, text_or_none, AxNode, AX_ACTION_UNSUPPORTED, AX_SUCCESS};
use crate::text::same_text;
use crate::types::NativeControlError;

verus! {

/// The descendants of a node, each before its own, in the order of the children.
pub open spec fn descendants(n: AxNode) -> Seq<AxNode>
    decreases n, 0int,
{
    match n.children {
        Some(c) => below_from(c@, 0),
        None => Seq::empty(),
    }
}

/// The children from `i` on, each with its descendants behind it.
pub open spec fn below_from(children: Seq<AxNode>, i: int) -> Seq<AxNode>
    decreases children, children.len() - i,
{
    if i < 0 || i >= children.len() {
        Seq::empty()
    } else {
        seq![children[i]] + descendants(children[i]) + below_from(children, i + 1)
    }
}

/// The node has exactly that title.
pub open spec fn titled(n: AxNode, title: Seq<char>) -> bool {
    n.title matches Some(t) && t@ == title
}

/// The `i`-th node has that title, and none before it.
pub open spec fn first_titled(nodes: Seq<AxNode>, title: Seq<char>, i: int) -> bool {
    &&& 0 <= i < nodes.len()
    &&& titled(nodes[i], title)
    &&& forall|k: int| 0 <= k < i ==> !titled(#[trigger] nodes[k], title)
}

pub open spec fn none_titled(nodes: Seq<AxNode>, title: Seq<char>) -> bool {
    forall|k: int| 0 <= k < nodes.len() ==> !titled(#[trigger] nodes[k], title)
}

/// Whether a node has that title.
pub fn is_titled(n: &AxNode, title: &str) -> (r: bool)
    ensures
        r == titled(*n, title@),
{
    match &n.title {
        Some(t) => same_text(t.as_str(), title),
        None => false,
    }
}

/// The first descendant with that title.
pub fn find_by_title<'a>(n: &'a AxNode, title: &str) -> (r: Option<&'a AxNode>)
    ensures
        match r {
            Some(m) => exists|i: int| #[trigger]
                first_titled(descendants(*n), title@, i) && descendants(*n)[i] == *m,
            None => none_titled(descendants(*n), title@),
        },
    decreases n,
{
    match &n.children {
        None => None,
        Some(kids) => {
            let mut i: usize = 0;
            let ghost mut seen = Seq::<AxNode>::empty();
            assert(seen + below_from(kids@, 0) =~= descendants(*n));
            while i < kids.len()
                invariant
                    i <= kids@.len(),
                    n.children == Some(*kids),
                    descendants(*n) == seen + below_from(kids@, i as int),
                    none_titled(seen, title@),
                decreases kids@.len() - i,
            {
                let ghost rest = below_from(kids@, i + 1);
                let ghost below = descendants(kids@[i as int]);
                assert(below_from(kids@, i as int) == seq![kids@[i as int]] + below + rest);
                if is_titled(&kids[i], title) {
                    assert(descendants(*n)[seen.len() as int] == kids@[i as int]);
                    assert(first_titled(descendants(*n), title@, seen.len() as int));
                    return Some(&kids[i]);
                }
                proof {
                    assert(decreases_to!(*n => n.children));
                    assert(decreases_to!(n.children => n.children->Some_0));
                    assert(decreases_to!(*kids => kids@));
                    assert(decreases_to!(kids@ => kids@[i as int]));
                }
                match find_by_title(&kids[i], title) {
                    Some(m) => {
                        proof {
                            let j = choose|j: int| #[trigger]
                                first_titled(below, title@, j) && below[j] == *m;
                            let at = seen.len() + 1 + j;
                            let all = descendants(*n);
                            assert(all[at] == below[j]);
                            assert forall|k: int| 0 <= k < at implies !titled(
                                #[trigger] all[k],
                                title@,
                            ) by {
                                if k < seen.len() {
                                    assert(all[k] == seen[k]);
                                } else if k > seen.len() {
                                    assert(all[k] == below[k - seen.len() - 1]);
                                }
                            }
                            assert(first_titled(all, title@, at));
                        }
                        return Some(m);
                    },
                    None => {},
                }
                proof {
                    let more = seen + seq![kids@[i as int]] + below;
                    assert forall|k: int| 0 <= k < more.len() implies !titled(
                        #[trigger] more[k],
                        title@,
                    ) by {
                        if k < seen.len() {
                            assert(more[k] == seen[k]);
                        } else if k > seen.len() {
                            assert(more[k] == below[k - seen.len() - 1]);
                        }
                    }
                    assert(descendants(*n) =~= more + rest);
                    seen = more;
                }
                i += 1;
            }
            assert(descendants(*n) =~= seen);
            None
        },
    }
}

/// The first child with that title.
pub fn find_child_by_title<'a>(n: &'a AxNode, title: &str) -> (r: Option<&'a AxNode>)
    ensures
        match r {
            Some(m) => exists|i: int| #[trigger]
                first_titled(children_of(*n), title@, i) && children_of(*n)[i] == *m,
            None => none_titled(children_of(*n), title@),
        },
{
    match &n.children {
        None => None,
        Some(kids) => {
            let mut i: usize = 0;
            while i < kids.len()
                invariant
                    i <= kids@.len(),
                    n.children == Some(*kids),
                    forall|k: int| 0 <= k < i ==> !titled(#[trigger] kids@[k], title@),
                decreases kids@.len() - i,
            {
                if is_titled(&kids[i], title) {
                    assert(first_titled(children_of(*n), title@, i as int));
                    return Some(&kids[i]);
                }
                i += 1;
            }
            None
        },
    }
}

/// The outcome of performing an action on an element: what it says where the element does
/// not support the action is for the caller to give.
pub fn action_outcome(code: i32, r: String, reason: &'static str) -> (o: Result<
    (),
    NativeControlError,
>)
    ensures
        code == AX_SUCCESS <==> o is Ok,
        code == AX_ACTION_UNSUPPORTED ==> (o matches Err(
            NativeControlError::NotActionable { r: what, reason: why },
        ) && what@ == r@ && why@ == reason@),
        code != AX_SUCCESS && code != AX_ACTION_UNSUPPORTED ==> (o matches Err(e)
            && crate::ax_walk::ax_error_of(code, e)),
{
    if code == AX_SUCCESS {
        Ok(())
    } else if code == AX_ACTION_UNSUPPORTED {
        Err(NativeControlError::NotActionable { r, reason })
    } else {
        Err(map_ax_error(code))
    }
}

/// The outcome of a call on an element.
pub fn call_outcome(code: i32) -> (o: Result<(), NativeControlError>)
    ensures
        code == AX_SUCCESS <==> o is Ok,
        code != AX_SUCCESS ==> (o matches Err(e) && crate::ax_walk::ax_error_of(code, e)),
{
    if code == AX_SUCCESS {
        Ok(())
    } else {
        Err(map_ax_error(code))
    }
}

/// At most the first `cap` of them.
pub open spec fn capped<T>(s: Seq<T>, cap: nat) -> Seq<T> {
    if s.len() <= cap {
        s
    } else {
        s.take(cap as int)
    }
}

/// Capping on the way does not matter where everything is capped in the end.
pub proof fn lemma_capped_twice<T>(a: Seq<T>, b: Seq<T>, cap: nat)
    ensures
        capped(capped(a, cap) + b, cap) == capped(a + b, cap),
{
    assert(capped(capped(a, cap) + b, cap) =~= capped(a + b, cap));
}

/// A node and its descendants down to `levels` levels in all, each before its own
/// descendants.
pub open spec fn reach(n: AxNode, levels: nat) -> Seq<AxNode>
    decreases n, 0int,
{
    if levels == 0 {
        Seq::empty()
    } else {
        match n.children {
            Some(c) => seq![n] + reach_from(c@, 0, (levels - 1) as nat),
            None => seq![n],
        }
    }
}

pub open spec fn reach_from(children: Seq<AxNode>, i: int, levels: nat) -> Seq<AxNode>
    decreases children, children.len() - i,
{
    if i < 0 || i >= children.len() {
        Seq::empty()
    } else {
        reach(children[i], levels) + reach_from(children, i + 1, levels)
    }
}

/// The title of a node, empty where it has none.
pub fn title_of(n: &AxNode) -> (s: String)
    ensures
        s@ == text_or_none(n.title),
{
    match &n.title {
        Some(t) => t.clone(),
        None => {
            let s = String::new();
            assert(s@ =~= Seq::<char>::empty());
            s
        },
    }
}

} // verus!
