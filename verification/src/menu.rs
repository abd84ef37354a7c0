//! The menu bar of an application.
use vstd::prelude::*;

use crate::ax_find::{
    capped, find_child_by_title, first_titled, lemma_capped_twice, none_titled, title_of,
};
use crate::ax_walk::{children_of, text_or_none, AxNode};
use crate::broker_client::{opt_text, texts};
use crate::privacy::copy_texts;
use crate::text::{decimal, decimal_text, join2, join3, join_texts, joined};
use crate::types::{debug_str, debug_text, MenuItem, NativeControlError};

verus! {

/// The walk lists no more items than this.
pub const MAX_MENU_NODES: usize = 4_096;

/// The walk does not go deeper than this.
pub const MAX_MENU_DEPTH: u32 = 12;

/// What a menu item is.
pub struct MenuItemView {
    pub path: Seq<Seq<char>>,
    pub display: Seq<char>,
    pub interactable: bool,
    pub disabled: bool,
    pub shortcut: Option<Seq<char>>,
}

impl View for MenuItem {
    type V = MenuItemView;

    open spec fn view(&self) -> MenuItemView {
        MenuItemView {
            path: texts(self.path@),
            display: self.display@,
            interactable: self.interactable,
            disabled: self.disabled,
            shortcut: opt_text(self.shortcut),
        }
    }
}

pub open spec fn menu_views(v: Seq<MenuItem>) -> Seq<MenuItemView> {
    v.map_values(|m: MenuItem| m@)
}

/// The titles down to a node: its own, where it has one, behind those above it. The menu
/// bar itself gives none.
pub open spec fn menu_path(n: AxNode, above: Seq<Seq<char>>, depth: nat) -> Seq<Seq<char>> {
    if depth > 0 && text_or_none(n.title).len() > 0 {
        above.push(text_or_none(n.title))
    } else {
        above
    }
}

/// The item that a node itself is: one that can be pressed, below the titles of the bar.
pub open spec fn own_item(n: AxNode, path: Seq<Seq<char>>, depth: nat) -> Seq<MenuItemView> {
    if depth >= 2 && n.can_press && path.len() > 0 {
        seq![
            MenuItemView {
                path,
                display: joined(path, " > "@),
                interactable: true,
                disabled: n.enabled == Some(false),
                shortcut: None,
            },
        ]
    } else {
        Seq::empty()
    }
}

/// The items at and below a node, in the order of the menus.
pub open spec fn menu_items(n: AxNode, above: Seq<Seq<char>>, depth: nat) -> Seq<MenuItemView>
    decreases n, 0int,
{
    if depth > MAX_MENU_DEPTH {
        Seq::empty()
    } else {
        let path = menu_path(n, above, depth);
        match n.children {
            Some(c) => own_item(n, path, depth) + menu_items_from(c@, 0, path, depth + 1),
            None => own_item(n, path, depth),
        }
    }
}

pub open spec fn menu_items_from(
    children: Seq<AxNode>,
    i: int,
    above: Seq<Seq<char>>,
    depth: nat,
) -> Seq<MenuItemView>
    decreases children, children.len() - i,
{
    if i < 0 || i >= children.len() {
        Seq::empty()
    } else {
        menu_items(children[i], above, depth) + menu_items_from(children, i + 1, above, depth)
    }
}

fn walk(n: &AxNode, path: &mut Vec<String>, depth: u32, out: &mut Vec<MenuItem>)
    requires
        old(out)@.len() <= MAX_MENU_NODES,
        depth <= MAX_MENU_DEPTH + 1,
    ensures
        texts(final(path)@) == texts(old(path)@),
        final(out)@.len() <= MAX_MENU_NODES,
        menu_views(final(out)@) == capped(
            menu_views(old(out)@) + menu_items(*n, texts(old(path)@), depth as nat),
            MAX_MENU_NODES as nat,
        ),
    decreases n,
{
    let ghost above = texts(path@);
    let ghost start = menu_views(out@);
    let ghost all = start + menu_items(*n, above, depth as nat);
    if depth > MAX_MENU_DEPTH || out.len() >= MAX_MENU_NODES {
        assert(menu_views(out@) =~= capped(all, MAX_MENU_NODES as nat));
        return;
    }
    let title = title_of(n);
    let pushed = depth > 0 && !title.as_str().is_empty();
    if pushed {
        path.push(title);
    }
    let ghost here = menu_path(*n, above, depth as nat);
    assert(texts(path@) =~= here);
    if depth >= 2 && n.can_press && path.len() > 0 {
        let disabled = match n.enabled {
            Some(enabled) => !enabled,
            None => false,
        };
        let display = join_texts(path, " > ");
        out.push(
            MenuItem {
                path: copy_texts(path),
                display,
                interactable: true,
                disabled,
                shortcut: None,
            },
        );
        assert(menu_views(out@) =~= start + own_item(*n, here, depth as nat));
    } else {
        assert(menu_views(out@) =~= start + own_item(*n, here, depth as nat));
    }
    let ghost own = start + own_item(*n, here, depth as nat);
    match &n.children {
        Some(kids) => {
            let ghost below = menu_items_from(kids@, 0, here, (depth + 1) as nat);
            assert(all =~= own + below);
            let mut i: usize = 0;
            assert(capped(menu_views(out@) + below, MAX_MENU_NODES as nat) == capped(
                all,
                MAX_MENU_NODES as nat,
            ));
            while i < kids.len() && out.len() < MAX_MENU_NODES
                invariant
                    i <= kids@.len(),
                    n.children == Some(*kids),
                    depth <= MAX_MENU_DEPTH,
                    texts(path@) == here,
                    out@.len() <= MAX_MENU_NODES,
                    capped(
                        menu_views(out@) + menu_items_from(
                            kids@,
                            i as int,
                            here,
                            (depth + 1) as nat,
                        ),
                        MAX_MENU_NODES as nat,
                    ) == capped(all, MAX_MENU_NODES as nat),
                decreases kids@.len() - i,
            {
                proof {
                    assert(decreases_to!(*n => n.children));
                    assert(decreases_to!(n.children => n.children->Some_0));
                    assert(decreases_to!(*kids => kids@));
                    assert(decreases_to!(kids@ => kids@[i as int]));
                }
                let ghost now = menu_views(out@);
                let ghost one = menu_items(kids@[i as int], here, (depth + 1) as nat);
                let ghost rest = menu_items_from(kids@, i + 1, here, (depth + 1) as nat);
                walk(&kids[i], path, depth + 1, out);
                proof {
                    assert(now + (one + rest) =~= (now + one) + rest);
                    lemma_capped_twice(now + one, rest, MAX_MENU_NODES as nat);
                }
                i += 1;
            }
            assert(menu_views(out@) =~= capped(all, MAX_MENU_NODES as nat));
        },
        None => {
            assert(all =~= own);
            assert(menu_views(out@) =~= capped(all, MAX_MENU_NODES as nat));
        },
    }
    if pushed {
        let _ = path.pop();
        assert(here.drop_last() =~= above);
        assert(texts(path@) =~= here.drop_last());
    }
}

/// Lists the items of the menus below a menu bar, at most four thousand and ninety-six of
/// them. Without a menu bar there are none.
pub fn list(bar: Option<&AxNode>) -> (out: Vec<MenuItem>)
    ensures
        menu_views(out@) == (match bar {
            Some(b) => capped(menu_items(*b, Seq::empty(), 0), MAX_MENU_NODES as nat),
            None => Seq::empty(),
        }),
{
    let mut out: Vec<MenuItem> = Vec::new();
    assert(menu_views(out@) =~= Seq::<MenuItemView>::empty());
    match bar {
        Some(b) => {
            let mut path: Vec<String> = Vec::new();
            assert(texts(path@) =~= Seq::<Seq<char>>::empty());
            walk(b, &mut path, 0, &mut out);
            assert(Seq::<MenuItemView>::empty() + menu_items(*b, Seq::empty(), 0) =~= menu_items(
                *b,
                Seq::empty(),
                0,
            ));
        },
        None => {},
    }
    out
}

/// `to` is where a title leads from a node: to the first child that has it, or else, through
/// one menu in between, to the first child of the first child below which it is found.
pub open spec fn steps_to(n: AxNode, title: Seq<char>, to: AxNode) -> bool {
    ||| exists|i: int| #[trigger]
        first_titled(children_of(n), title, i) && children_of(n)[i] == to
    ||| none_titled(children_of(n), title) && exists|m: int, i: int|
        0 <= m < children_of(n).len() && #[trigger] first_titled(
            children_of(children_of(n)[m]),
            title,
            i,
        ) && children_of(children_of(n)[m])[i] == to && forall|k: int|
            0 <= k < m ==> none_titled(children_of(#[trigger] children_of(n)[k]), title)
}

/// A title leads nowhere from a node.
pub open spec fn steps_nowhere(n: AxNode, title: Seq<char>) -> bool {
    &&& none_titled(children_of(n), title)
    &&& forall|k: int|
        0 <= k < children_of(n).len() ==> none_titled(
            children_of(#[trigger] children_of(n)[k]),
            title,
        )
}

fn step<'a>(n: &'a AxNode, title: &str) -> (r: Option<&'a AxNode>)
    ensures
        match r {
            Some(to) => steps_to(*n, title@, *to),
            None => steps_nowhere(*n, title@),
        },
{
    match find_child_by_title(n, title) {
        Some(c) => {
            return Some(c);
        },
        None => {},
    }
    match &n.children {
        Some(kids) => {
            let mut m: usize = 0;
            while m < kids.len()
                invariant
                    m <= kids@.len(),
                    n.children == Some(*kids),
                    none_titled(children_of(*n), title@),
                    forall|k: int|
                        0 <= k < m ==> none_titled(children_of(#[trigger] kids@[k]), title@),
                decreases kids@.len() - m,
            {
                match find_child_by_title(&kids[m], title) {
                    Some(c) => {
                        proof {
                            let i = choose|i: int| #[trigger]
                                first_titled(children_of(kids@[m as int]), title@, i)
                                    && children_of(kids@[m as int])[i] == *c;
                            assert(first_titled(
                                children_of(children_of(*n)[m as int]),
                                title@,
                                i,
                            ));
                        }
                        return Some(c);
                    },
                    None => {},
                }
                m += 1;
            }
            None
        },
        None => None,
    }
}

/// The titles lead to that item.
pub open spec fn leads_to(n: AxNode, path: Seq<Seq<char>>, item: AxNode) -> bool
    decreases path.len(),
{
    if path.len() == 0 {
        n == item
    } else {
        exists|to: AxNode| #[trigger]
            steps_to(n, path[0], to) && leads_to(to, path.drop_first(), item)
    }
}

/// The title in place `at` is the first that leads nowhere.
pub open spec fn breaks_at(n: AxNode, path: Seq<Seq<char>>, at: int) -> bool
    decreases path.len(),
{
    if path.len() == 0 || at < 0 {
        false
    } else if at == 0 {
        steps_nowhere(n, path[0])
    } else {
        exists|to: AxNode| #[trigger]
            steps_to(n, path[0], to) && breaks_at(to, path.drop_first(), at - 1)
    }
}

fn follow<'a>(n: &'a AxNode, path: &Vec<String>, from: usize) -> (r: Result<&'a AxNode, usize>)
    requires
        from <= path@.len(),
    ensures
        match r {
            Ok(item) => leads_to(*n, texts(path@).skip(from as int), *item),
            Err(at) => from <= at < path@.len() && breaks_at(
                *n,
                texts(path@).skip(from as int),
                at - from,
            ),
        },
    decreases path@.len() - from,
{
    let ghost left = texts(path@).skip(from as int);
    if from == path.len() {
        return Ok(n);
    }
    assert(left[0] == path@[from as int]@);
    assert(left.drop_first() =~= texts(path@).skip(from + 1));
    match step(n, path[from].as_str()) {
        Some(to) => follow(to, path, from + 1),
        None => Err(from),
    }
}

/// What the error says of the title that leads nowhere.
pub open spec fn stale_step(path: Seq<Seq<char>>, at: int) -> Seq<char> {
    "menu path["@ + decimal(at as nat) + "]="@ + debug_text(path[at])
}

/// Refuses a path without titles.
pub fn require_path(path: &Vec<String>) -> (r: Result<(), NativeControlError>)
    ensures
        match r {
            Ok(_) => path@.len() > 0,
            Err(NativeControlError::Internal(msg)) => path@.len() == 0 && msg@
                == "empty menu path"@,
            Err(_) => false,
        },
{
    if path.len() == 0 {
        Err(NativeControlError::Internal("empty menu path".to_owned()))
    } else {
        Ok(())
    }
}

/// The item of the menu bar that the titles lead to. Without a menu bar there is no such
/// application to click in.
pub fn click_target<'a>(bundle_id: &str, bar: Option<&'a AxNode>, path: &Vec<String>) -> (r: Result<
    &'a AxNode,
    NativeControlError,
>)
    ensures
        match r {
            Ok(item) => path@.len() > 0 && bar is Some && leads_to(
                *bar->Some_0,
                texts(path@),
                *item,
            ),
            Err(NativeControlError::Internal(msg)) => path@.len() == 0 && msg@
                == "empty menu path"@,
            Err(NativeControlError::AppNotFound { bundle_id: id }) => path@.len() > 0 && bar is None
                && id@ == bundle_id@,
            Err(NativeControlError::RefStale { r: what }) => path@.len() > 0 && bar is Some
                && exists|at: int| #[trigger]
                breaks_at(*bar->Some_0, texts(path@), at) && what@ == stale_step(texts(path@), at),
            Err(_) => false,
        },
{
    match require_path(path) {
        Ok(_) => {},
        Err(e) => {
            return Err(e);
        },
    }
    let root = match bar {
        Some(b) => b,
        None => {
            return Err(NativeControlError::AppNotFound { bundle_id: bundle_id.to_owned() });
        },
    };
    assert(texts(path@).skip(0) =~= texts(path@));
    match follow(root, path, 0) {
        Ok(item) => Ok(item),
        Err(at) => {
            let n = decimal_text(at as u64);
            let head = join3("menu path[", n.as_str(), "]=");
            let q = debug_str(path[at].as_str());
            assert(breaks_at(*root, texts(path@), at as int));
            Err(NativeControlError::RefStale { r: join2(head.as_str(), q.as_str()) })
        },
    }
}

} // verus!
