//! The status items at the right of the menu bar.
use vstd::prelude::*;

use crate::ax_find::{reach, reach_from, title_of};
use crate::ax_walk::{text_or_none, AxNode};
use crate::text::{contains_text, join2, lower_text, lowered, text_contains};
use crate::types::{debug_str, debug_text, NativeControlError};

verus! {

/// The search does not go deeper than this.
pub const MAX_DEPTH: u32 = 6;

/// The title or the description of an item that can be pressed holds the text, in whatever
/// case. An empty text is held by none.
pub open spec fn matches_label(n: AxNode, needle: Seq<char>) -> bool {
    &&& n.can_press
    &&& needle.len() > 0
    &&& contains_text(lowered(text_or_none(n.title)), needle) || contains_text(
        lowered(text_or_none(n.description)),
        needle,
    )
}

/// The `i`-th node matches, and none before it.
pub open spec fn first_match(nodes: Seq<AxNode>, needle: Seq<char>, i: int) -> bool {
    &&& 0 <= i < nodes.len()
    &&& matches_label(nodes[i], needle)
    &&& forall|k: int| 0 <= k < i ==> !matches_label(#[trigger] nodes[k], needle)
}

pub open spec fn no_match(nodes: Seq<AxNode>, needle: Seq<char>) -> bool {
    forall|k: int| 0 <= k < nodes.len() ==> !matches_label(#[trigger] nodes[k], needle)
}

/// The nodes of a menu bar that the search takes in.
pub open spec fn searched(bar: AxNode) -> Seq<AxNode> {
    reach(bar, (MAX_DEPTH + 1) as nat)
}

fn is_match(n: &AxNode, needle: &str) -> (r: bool)
    ensures
        r == matches_label(*n, needle@),
{
    let title = title_of(n);
    let title = lower_text(title.as_str());
    let description = match &n.description {
        Some(d) => d.clone(),
        None => String::new(),
    };
    assert(description@ =~= text_or_none(n.description));
    let description = lower_text(description.as_str());
    n.can_press && (text_contains(title.as_str(), needle) || text_contains(
        description.as_str(),
        needle,
    )) && !needle.is_empty()
}

/// The first match at or below a node, not deeper than the search goes.
pub fn find_match<'a>(n: &'a AxNode, needle: &str, depth: u32) -> (r: Option<&'a AxNode>)
    requires
        depth <= MAX_DEPTH + 1,
    ensures
        ({
            let nodes = reach(*n, (MAX_DEPTH + 1 - depth) as nat);
            match r {
                Some(m) => exists|i: int| #[trigger]
                    first_match(nodes, needle@, i) && nodes[i] == *m,
                None => no_match(nodes, needle@),
            }
        }),
    decreases n,
{
    if depth > MAX_DEPTH {
        return None;
    }
    let ghost levels = (MAX_DEPTH - depth) as nat;
    let ghost nodes = reach(*n, levels + 1);
    assert(nodes == reach(*n, (MAX_DEPTH + 1 - depth) as nat));
    if is_match(n, needle) {
        assert(nodes[0] == *n);
        assert(first_match(nodes, needle@, 0) && nodes[0] == *n);
        return Some(n);
    }
    match &n.children {
        None => None,
        Some(kids) => {
            let mut i: usize = 0;
            let ghost mut seen = seq![*n];
            while i < kids.len()
                invariant
                    i <= kids@.len(),
                    depth <= MAX_DEPTH,
                    levels == MAX_DEPTH - depth,
                    n.children == Some(*kids),
                    nodes == reach(*n, levels + 1),
                    nodes == seen + reach_from(kids@, i as int, levels),
                    no_match(seen, needle@),
                decreases kids@.len() - i,
            {
                proof {
                    assert(decreases_to!(*n => n.children));
                    assert(decreases_to!(n.children => n.children->Some_0));
                    assert(decreases_to!(*kids => kids@));
                    assert(decreases_to!(kids@ => kids@[i as int]));
                }
                let ghost part = reach(kids@[i as int], levels);
                let ghost rest = reach_from(kids@, i + 1, levels);
                match find_match(&kids[i], needle, depth + 1) {
                    Some(m) => {
                        proof {
                            let j = choose|j: int| #[trigger]
                                first_match(part, needle@, j) && part[j] == *m;
                            let at = seen.len() + j;
                            assert(nodes[at] == part[j]);
                            assert forall|k: int| 0 <= k < at implies !matches_label(
                                #[trigger] nodes[k],
                                needle@,
                            ) by {
                                if k < seen.len() {
                                    assert(nodes[k] == seen[k]);
                                } else {
                                    assert(nodes[k] == part[k - seen.len()]);
                                }
                            }
                            assert(nodes == reach(*n, (MAX_DEPTH + 1 - depth) as nat));
                            assert(first_match(nodes, needle@, at) && nodes[at] == *m);
                        }
                        return Some(m);
                    },
                    None => {},
                }
                proof {
                    let more = seen + part;
                    assert forall|k: int| 0 <= k < more.len() implies !matches_label(
                        #[trigger] more[k],
                        needle@,
                    ) by {
                        if k < seen.len() {
                            assert(more[k] == seen[k]);
                        } else {
                            assert(more[k] == part[k - seen.len()]);
                        }
                    }
                    assert(nodes =~= more + rest);
                    seen = more;
                }
                i += 1;
            }
            assert(nodes =~= seen);
            None
        },
    }
}

/// The menu bars in which to look for status items: of each application with a bundle id
/// the bar of status items, then the menu bar.
#[derive(Debug)]
pub struct StatusBars {
    pub bars: Vec<AxNode>,
}

/// The item is the first match of the `b`-th bar, and the bars before it hold none.
pub open spec fn match_in(bars: Seq<AxNode>, needle: Seq<char>, b: int, i: int) -> bool {
    &&& 0 <= b < bars.len()
    &&& first_match(searched(bars[b]), needle, i)
    &&& forall|k: int| 0 <= k < b ==> no_match(searched(#[trigger] bars[k]), needle)
}

/// The status item to press: the first one, bar by bar, whose title or description holds
/// the label in whatever case.
pub fn click_target<'a>(bars: &'a StatusBars, label: &str) -> (r: Result<
    &'a AxNode,
    NativeControlError,
>)
    ensures
        match r {
            Ok(n) => exists|b: int, i: int| #[trigger]
                match_in(bars.bars@, lowered(label@), b, i) && searched(bars.bars@[b])[i] == *n,
            Err(NativeControlError::RefStale { r: what }) => what@ == "status menu item "@
                + debug_text(label@) && forall|k: int|
                0 <= k < bars.bars@.len() ==> no_match(
                    searched(#[trigger] bars.bars@[k]),
                    lowered(label@),
                ),
            Err(_) => false,
        },
{
    let needle = lower_text(label);
    let mut b: usize = 0;
    while b < bars.bars.len()
        invariant
            b <= bars.bars@.len(),
            needle@ == lowered(label@),
            forall|k: int|
                0 <= k < b ==> no_match(searched(#[trigger] bars.bars@[k]), needle@),
        decreases bars.bars@.len() - b,
    {
        match find_match(&bars.bars[b], needle.as_str(), 0) {
            Some(n) => {
                proof {
                    let nodes = searched(bars.bars@[b as int]);
                    let i = choose|i: int| #[trigger]
                        first_match(nodes, needle@, i) && nodes[i] == *n;
                    assert(match_in(bars.bars@, needle@, b as int, i));
                }
                return Ok(n);
            },
            None => {},
        }
        b += 1;
    }
    let q = debug_str(label);
    Err(NativeControlError::RefStale { r: join2("status menu item ", q.as_str()) })
}

/// An empty label matches nothing, whatever the bars hold.
pub proof fn empty_label_matches_nothing(nodes: Seq<AxNode>, needle: Seq<char>)
    requires
        needle.len() == 0,
    ensures
        no_match(nodes, needle),
{
}

} // verus!
