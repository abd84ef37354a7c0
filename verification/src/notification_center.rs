//! Notification Center.
use vstd::prelude::*;

use crate::actions::{eval_script, lemma_plain_script};
use crate::ax_find::{
    capped, descendants, find_by_title, first_titled, lemma_capped_twice, none_titled, reach,
    reach_from, title_of,
};
use crate::ax_walk::{text_or_none, AxNode};
use crate::broker_client::texts;
use crate::dock::{focus_allowed, require_focus_steal};
use crate::spotlight::SYSTEM_EVENTS;
use crate::text::join2;
use crate::types::{debug_str, debug_text, NativeControlError};

verus! {

/// The application that owns Notification Center.
pub const NC_BUNDLE: &'static str = "com.apple.notificationcenterui";

/// The search for titles does not go deeper than this.
pub const MAX_DEPTH: u32 = 8;

/// No more titles are listed than this.
pub const MAX_TITLES: usize = 65;

/// The script that opens Notification Center.
pub const OPEN_SCRIPT: &'static str = "tell application \"System Events\" to tell process \"ControlCenter\"\n    click menu bar item \"Notification Center\" of menu bar 1\nend tell";

/// The script that opens Notification Center. Opening it takes the focus.
pub fn open(confirm: bool, focus_steal: bool) -> (r: Result<String, NativeControlError>)
    ensures
        match r {
            Ok(s) => focus_allowed(confirm, focus_steal) && s@ == OPEN_SCRIPT@,
            Err(NativeControlError::FocusStealForbidden { what }) => !focus_allowed(
                confirm,
                focus_steal,
            ) && what@ == "app.notification_center.open"@,
            Err(_) => false,
        },
{
    proof {
        reveal_strlit("tell ");
        reveal_strlit("tell application \"System Events\" to tell process \"ControlCenter\"\n    click menu bar item \"Notification Center\" of menu bar 1\nend tell");
        assert(OPEN_SCRIPT@.subrange(0, 5) =~= "tell "@);
        lemma_plain_script(SYSTEM_EVENTS@, OPEN_SCRIPT@);
    }
    match require_focus_steal("app.notification_center.open", confirm, focus_steal) {
        Ok(_) => eval_script(SYSTEM_EVENTS, OPEN_SCRIPT),
        Err(e) => Err(e),
    }
}

/// The title of a node that has one and can be pressed.
pub open spec fn own_title(n: AxNode) -> Seq<Seq<char>> {
    if n.can_press && text_or_none(n.title).len() > 0 {
        seq![text_or_none(n.title)]
    } else {
        Seq::empty()
    }
}

/// The titles among nodes.
pub open spec fn titles_of(nodes: Seq<AxNode>) -> Seq<Seq<char>>
    decreases nodes.len(),
{
    if nodes.len() == 0 {
        Seq::empty()
    } else {
        own_title(nodes[0]) + titles_of(nodes.drop_first())
    }
}

proof fn lemma_titles_concat(a: Seq<AxNode>, b: Seq<AxNode>)
    ensures
        titles_of(a + b) == titles_of(a) + titles_of(b),
    decreases a.len(),
{
    if a.len() == 0 {
        assert(a + b =~= b);
        assert(titles_of(a) + titles_of(b) =~= titles_of(b));
    } else {
        assert((a + b).drop_first() =~= a.drop_first() + b);
        lemma_titles_concat(a.drop_first(), b);
        assert(own_title(a[0]) + (titles_of(a.drop_first()) + titles_of(b)) =~= titles_of(a)
            + titles_of(b));
    }
}

fn walk_titles(n: &AxNode, depth: u32, out: &mut Vec<String>)
    requires
        depth <= MAX_DEPTH + 1,
        old(out)@.len() <= MAX_TITLES,
    ensures
        final(out)@.len() <= MAX_TITLES,
        texts(final(out)@) == capped(
            texts(old(out)@) + titles_of(reach(*n, (MAX_DEPTH + 1 - depth) as nat)),
            MAX_TITLES as nat,
        ),
    decreases n,
{
    let ghost start = texts(out@);
    let ghost all = start + titles_of(reach(*n, (MAX_DEPTH + 1 - depth) as nat));
    if depth > MAX_DEPTH || out.len() >= MAX_TITLES {
        assert(texts(out@) =~= capped(all, MAX_TITLES as nat));
        return;
    }
    let ghost levels = (MAX_DEPTH - depth) as nat;
    let title = title_of(n);
    if !title.as_str().is_empty() && n.can_press {
        out.push(title);
    }
    assert(texts(out@) =~= start + own_title(*n));
    match &n.children {
        Some(kids) => {
            let mut i: usize = 0;
            proof {
                let below = reach_from(kids@, 0, levels);
                assert((seq![*n] + below).drop_first() =~= below);
                assert(all =~= texts(out@) + titles_of(below));
            }
            while i < kids.len()
                invariant
                    i <= kids@.len(),
                    depth <= MAX_DEPTH,
                    levels == MAX_DEPTH - depth,
                    n.children == Some(*kids),
                    out@.len() <= MAX_TITLES,
                    capped(
                        texts(out@) + titles_of(reach_from(kids@, i as int, levels)),
                        MAX_TITLES as nat,
                    ) == capped(all, MAX_TITLES as nat),
                decreases kids@.len() - i,
            {
                proof {
                    assert(decreases_to!(*n => n.children));
                    assert(decreases_to!(n.children => n.children->Some_0));
                    assert(decreases_to!(*kids => kids@));
                    assert(decreases_to!(kids@ => kids@[i as int]));
                }
                let ghost now = texts(out@);
                let ghost one = reach(kids@[i as int], levels);
                let ghost rest = reach_from(kids@, i + 1, levels);
                walk_titles(&kids[i], depth + 1, out);
                proof {
                    lemma_titles_concat(one, rest);
                    assert(now + (titles_of(one) + titles_of(rest)) =~= (now + titles_of(one))
                        + titles_of(rest));
                    lemma_capped_twice(now + titles_of(one), titles_of(rest), MAX_TITLES as nat);
                }
                i += 1;
            }
            assert(texts(out@) + titles_of(reach_from(kids@, kids@.len() as int, levels))
                =~= texts(out@));
        },
        None => {
            proof {
                assert(seq![*n].drop_first() =~= Seq::<AxNode>::empty());
                assert(titles_of(seq![*n].drop_first()) =~= Seq::<Seq<char>>::empty());
                assert(titles_of(seq![*n]) =~= own_title(*n));
                assert(texts(out@) =~= all);
            }
        },
    }
}

/// Lists the titles in Notification Center, at most sixty-five of them. Where it does not
/// run there are none.
pub fn list(root: Option<&AxNode>) -> (out: Vec<String>)
    ensures
        texts(out@) == (match root {
            Some(n) => capped(titles_of(reach(*n, (MAX_DEPTH + 1) as nat)), MAX_TITLES as nat),
            None => Seq::empty(),
        }),
{
    let mut out: Vec<String> = Vec::new();
    assert(texts(out@) =~= Seq::<Seq<char>>::empty());
    match root {
        Some(n) => {
            walk_titles(n, 0, &mut out);
            assert(Seq::<Seq<char>>::empty() + titles_of(reach(*n, (MAX_DEPTH + 1) as nat))
                =~= titles_of(reach(*n, (MAX_DEPTH + 1) as nat)));
        },
        None => {},
    }
    out
}

/// The first notification with exactly that title.
pub fn banner<'a>(root: &'a AxNode, title: &str) -> (r: Result<&'a AxNode, NativeControlError>)
    ensures
        match r {
            Ok(n) => exists|i: int| #[trigger]
                first_titled(descendants(*root), title@, i) && descendants(*root)[i] == *n,
            Err(NativeControlError::RefStale { r: what }) => none_titled(
                descendants(*root),
                title@,
            ) && what@ == "notification "@ + debug_text(title@),
            Err(_) => false,
        },
{
    match find_by_title(root, title) {
        Some(n) => Ok(n),
        None => {
            let q = debug_str(title);
            Err(NativeControlError::RefStale { r: join2("notification ", q.as_str()) })
        },
    }
}

} // verus!
