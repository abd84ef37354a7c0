//! The depth-first walk over an accessibility tree.
//!
//! A tree is read into [`AxNode`]s; the walk turns it into the elements of a snapshot.
use vstd::prelude::*;

use crate::broker_client::opt_text;
use crate::digest::{hex_text, sha256_hex, sha256_of};
use crate::json::{array_of, lemma_member_at, Json, JsonView, ObjectBuilder};
use crate::mcp::object_view;
use crate::permission::SETTINGS_DEEPLINK;
use crate::text::{decimal, decimal_text, join2, join3, same_text};
use crate::text_map::TextMap;
use crate::types::{
    element_views, AppElement, AppSnapshot, BBox, ElementState, ElementView, NativeControlError,
};

verus! {

/// The walk does not go deeper than this.
pub const MAX_DEPTH: u32 = 64;

/// The walk does not take in more elements than this.
pub const MAX_NODES: usize = 5_000;

/// The code of a call that succeeded.
pub const AX_SUCCESS: i32 = 0;

/// The code of an action that the element does not support.
pub const AX_ACTION_UNSUPPORTED: i32 = -25206;

/// The code of a call that the user has not permitted.
pub const AX_API_DISABLED: i32 = -25211;

/// What an accessibility element says of itself.
#[derive(Debug)]
pub struct AxNode {
    pub role: Option<String>,
    pub title: Option<String>,
    pub description: Option<String>,
    pub value: Option<String>,
    pub help: Option<String>,
    pub selected: Option<bool>,
    pub focused: Option<bool>,
    pub enabled: Option<bool>,
    /// Whether it can be pressed.
    pub can_press: bool,
    /// Whether its value can be set.
    pub value_settable: bool,
    pub bbox: Option<BBox>,
    /// Its children, where it has that attribute.
    pub children: Option<Vec<AxNode>>,
    /// The place of the live element among all that were read.
    pub handle: usize,
}

/// The text, or nothing where there is none.
pub open spec fn text_or_none(s: Option<String>) -> Seq<char> {
    match s {
        Some(t) => t@,
        None => Seq::empty(),
    }
}

/// The text is there and is not empty.
pub open spec fn has_text(s: Option<String>) -> bool {
    text_or_none(s).len() > 0
}

/// The role of an element.
pub open spec fn role_of(n: AxNode) -> Seq<char> {
    text_or_none(n.role)
}

/// The name of an element: its title, else its description, else its value.
pub open spec fn name_of(n: AxNode) -> Seq<char> {
    if has_text(n.title) {
        text_or_none(n.title)
    } else if has_text(n.description) {
        text_or_none(n.description)
    } else {
        text_or_none(n.value)
    }
}

/// The description of an element: its own, else its help.
pub open spec fn description_of(n: AxNode) -> Option<Seq<char>> {
    match n.description {
        Some(d) => Some(d@),
        None => opt_text(n.help),
    }
}

pub open spec fn state_view(n: AxNode) -> ElementState {
    ElementState {
        checked: None,
        expanded: None,
        pressed: n.focused,
        selected: n.selected,
        disabled: n.enabled == Some(false),
    }
}

/// The children of an element.
pub open spec fn children_of(n: AxNode) -> Seq<AxNode> {
    match n.children {
        Some(c) => c@,
        None => Seq::empty(),
    }
}

/// A box without area at the origin.
pub open spec fn no_box() -> BBox {
    BBox { x: 0, y: 0, w: 0, h: 0 }
}

fn non_empty(s: &Option<String>) -> (r: Option<String>)
    ensures
        has_text(*s) ==> (r matches Some(t) && t@ == text_or_none(*s)),
        !has_text(*s) ==> r is None,
{
    match s {
        Some(t) => if t.as_str().is_empty() {
            None
        } else {
            Some(t.clone())
        },
        None => None,
    }
}

/// The name of an element: its title, else its description, else its value.
pub fn best_name(n: &AxNode) -> (s: String)
    ensures
        s@ == name_of(*n),
{
    match non_empty(&n.title) {
        Some(t) => t,
        None => match non_empty(&n.description) {
            Some(d) => d,
            None => match non_empty(&n.value) {
                Some(v) => v,
                None => {
                    let s = String::new();
                    assert(s@ =~= name_of(*n));
                    s
                },
            },
        },
    }
}

/// The accessibility state of an element.
pub fn state_of(n: &AxNode) -> (s: ElementState)
    ensures
        s == state_view(*n),
{
    let mut state = ElementState::default();
    match n.selected {
        Some(b) => {
            state.selected = Some(b);
        },
        None => {},
    }
    match n.focused {
        Some(b) => {
            state.pressed = Some(b);
        },
        None => {},
    }
    match n.enabled {
        Some(enabled) => {
            state.disabled = !enabled;
        },
        None => {},
    }
    state
}

/// Whether an element can be acted upon: it can be pressed, or its value can be set.
pub fn is_interactable(n: &AxNode) -> (r: bool)
    ensures
        r == (n.can_press || n.value_settable),
{
    n.can_press || n.value_settable
}

/// The text that a stable id is the digest of.
pub open spec fn stable_text(
    role: Seq<char>,
    name: Seq<char>,
    parent_role: Seq<char>,
    sibling: nat,
) -> Seq<char> {
    role + seq!['\u{1f}'] + name + seq!['\u{1f}'] + parent_role + seq!['\u{1f}'] + decimal(sibling)
}

/// The stable id of an element: the hexadecimal SHA-256 digest of its role, its name, the
/// role of its parent and its index among those of its role, with unit separators between
/// them.
pub open spec fn stable_id_view(
    role: Seq<char>,
    name: Seq<char>,
    parent_role: Seq<char>,
    sibling: nat,
) -> Seq<char> {
    hex_text(sha256_of(vstd::utf8::encode_utf8(stable_text(role, name, parent_role, sibling))))
}

/// The stable id of an element.
pub fn stable_id(role: &str, name: &str, parent_role: &str, sibling: u32) -> (s: String)
    ensures
        s@ == stable_id_view(role@, name@, parent_role@, sibling as nat),
        s@.len() == 64,
{
    proof {
        reveal_strlit("\u{1f}");
        assert("\u{1f}"@ =~= seq!['\u{1f}']);
    }
    let n = decimal_text(sibling as u64);
    let a = join3(role, "\u{1f}", name);
    let b = join3("\u{1f}", parent_role, "\u{1f}");
    let t = join3(a.as_str(), b.as_str(), n.as_str());
    assert(t@ =~= stable_text(role@, name@, parent_role@, sibling as nat));
    sha256_hex(t.as_str().as_bytes())
}

/// How many of the elements have that role and stand that many steps below the application.
pub open spec fn same_role_count(elements: Seq<ElementView>, role: Seq<char>, steps: nat) -> nat
    decreases elements.len(),
{
    if elements.len() == 0 {
        0
    } else {
        same_role_count(elements.drop_last(), role, steps) + if elements.last().role == role
            && elements.last().ax_path.len() == steps {
            1nat
        } else {
            0nat
        }
    }
}

/// The element that the walk makes of a node it meets at `path`, behind `before`.
pub open spec fn element_of(
    n: AxNode,
    parent_role: Seq<char>,
    path: Seq<u32>,
    bundle_id: Seq<char>,
    before: Seq<ElementView>,
) -> ElementView {
    ElementView {
        index: before.len() as usize,
        element_ref: "e"@ + decimal(before.len()),
        role: role_of(n),
        name: name_of(n),
        value: opt_text(n.value),
        description: description_of(n),
        state: state_view(n),
        bbox: match n.bbox {
            Some(b) => b,
            None => no_box(),
        },
        interactable: n.can_press || n.value_settable,
        app_id: bundle_id,
        stable_id: stable_id_view(
            role_of(n),
            name_of(n),
            parent_role,
            same_role_count(before, role_of(n), path.len()),
        ),
        ax_path: path,
    }
}

/// A cap that ended the walk.
pub enum Cap {
    Depth,
    Nodes,
}

/// What the walk has come to: the elements so far, and the cap that ended it.
pub struct Walked {
    pub elements: Seq<ElementView>,
    pub cap: Option<Cap>,
}

/// The walk over a node and everything below it. It stops for good at a cap.
pub open spec fn visit(
    n: AxNode,
    parent_role: Seq<char>,
    path: Seq<u32>,
    bundle_id: Seq<char>,
    w: Walked,
) -> Walked
    decreases n, 0int,
{
    if w.cap is Some {
        w
    } else if path.len() > MAX_DEPTH {
        Walked { cap: Some(Cap::Depth), ..w }
    } else if w.elements.len() >= MAX_NODES {
        Walked { cap: Some(Cap::Nodes), ..w }
    } else {
        let e = element_of(n, parent_role, path, bundle_id, w.elements);
        let after = Walked { elements: w.elements.push(e), cap: None };
        match n.children {
            Some(c) => visit_all(c@, 0, role_of(n), path, bundle_id, after),
            None => after,
        }
    }
}

/// The walk over the children from `i` on.
pub open spec fn visit_all(
    children: Seq<AxNode>,
    i: int,
    parent_role: Seq<char>,
    path: Seq<u32>,
    bundle_id: Seq<char>,
    w: Walked,
) -> Walked
    decreases children, children.len() - i,
{
    if i < 0 || i >= children.len() || w.cap is Some {
        w
    } else {
        visit_all(
            children,
            i + 1,
            parent_role,
            path,
            bundle_id,
            visit(children[i], parent_role, path.push(i as u32), bundle_id, w),
        )
    }
}

/// The walk over an application: its main window, then its other children.
pub open spec fn walk_of(roots: Seq<AxNode>, bundle_id: Seq<char>) -> Walked {
    visit_all(
        roots,
        0,
        "AXApplication"@,
        Seq::empty(),
        bundle_id,
        Walked { elements: Seq::empty(), cap: None },
    )
}

pub open spec fn cap_name(cap: Option<Cap>) -> Option<Seq<char>> {
    match cap {
        Some(Cap::Depth) => Some("depth"@),
        Some(Cap::Nodes) => Some("nodes"@),
        None => None,
    }
}

/// The counter of a role at a depth.
spec fn counter(counters: Seq<TextMap<u32>>, depth: int, role: Seq<char>) -> nat {
    if 0 <= depth < counters.len() && counters[depth]@.contains_key(role) {
        counters[depth]@[role] as nat
    } else {
        0
    }
}

struct Walker {
    elements: Vec<AppElement>,
    /// For each depth, how many elements of each role were met there.
    per_role_sibling: Vec<TextMap<u32>>,
    depth_capped: bool,
    nodes_capped: bool,
}

impl Walker {
    spec fn walked(self) -> Walked {
        Walked {
            elements: element_views(self.elements@),
            cap: if self.depth_capped {
                Some(Cap::Depth)
            } else if self.nodes_capped {
                Some(Cap::Nodes)
            } else {
                None
            },
        }
    }

    spec fn wf(self) -> bool {
        &&& self.elements@.len() <= MAX_NODES
        &&& !(self.depth_capped && self.nodes_capped)
        &&& forall|d: int|
            0 <= d < self.per_role_sibling@.len() ==> (#[trigger] self.per_role_sibling@[d]).wf()
        &&& forall|d: int, role: Seq<char>|
            0 <= d ==> #[trigger] counter(self.per_role_sibling@, d, role) == same_role_count(
                element_views(self.elements@),
                role,
                (d + 1) as nat,
            )
    }

    fn dfs(&mut self, n: &AxNode, parent_role: &str, depth: u32, path: &mut Vec<u32>, bundle_id: &str)
        requires
            old(self).wf(),
            old(path)@.len() == depth + 1,
            depth <= old(self).per_role_sibling@.len(),
            depth <= MAX_DEPTH,
        ensures
            final(self).wf(),
            final(path)@ == old(path)@,
            old(self).per_role_sibling@.len() <= final(self).per_role_sibling@.len(),
            final(self).walked() == visit(
                *n,
                parent_role@,
                old(path)@,
                bundle_id@,
                old(self).walked(),
            ),
        decreases n,
    {
        if self.depth_capped || self.nodes_capped {
            return;
        }
        if depth >= MAX_DEPTH {
            self.depth_capped = true;
            return;
        }
        if self.elements.len() >= MAX_NODES {
            self.nodes_capped = true;
            return;
        }
        let role = match &n.role {
            Some(r) => r.clone(),
            None => String::new(),
        };
        assert(role@ =~= role_of(*n));
        let name = best_name(n);
        let value = n.value.clone();
        let description = match &n.description {
            Some(d) => Some(d.clone()),
            None => n.help.clone(),
        };
        let ghost start = *self;
        let ghost before = element_views(self.elements@);
        if self.per_role_sibling.len() <= depth as usize {
            self.per_role_sibling.push(TextMap::new());
            proof {
                assert forall|d: int, r: Seq<char>| 0 <= d implies #[trigger] counter(self.per_role_sibling@, d, r)
                    == same_role_count(before, r, (d + 1) as nat) by {
                    assert(counter(start.per_role_sibling@, d, r) == same_role_count(before, r, (d + 1) as nat));
                    if d < start.per_role_sibling@.len() {
                        assert(self.per_role_sibling@[d] == start.per_role_sibling@[d]);
                    }
                }
            }
        }
        let ghost mid = *self;
        proof {
            lemma_count_le_len(before, role@, (depth + 1) as nat);
            assert(counter(mid.per_role_sibling@, depth as int, role@) == same_role_count(
                before,
                role@,
                (depth + 1) as nat,
            ));
        }
        let sibling: u32 = match self.per_role_sibling[depth as usize].get(role.as_str()) {
            Some(n) => *n,
            None => 0,
        };
        assert(sibling == counter(mid.per_role_sibling@, depth as int, role@));
        assert(sibling <= MAX_NODES);
        bump(&mut self.per_role_sibling, depth as usize, role.as_str(), sibling + 1);
        let id = stable_id(role.as_str(), name.as_str(), parent_role, sibling);
        let index: usize = self.elements.len();
        let number = decimal_text(index as u64);
        let record = AppElement {
            index,
            element_ref: join2("e", number.as_str()),
            role: role.clone(),
            name,
            value,
            description,
            state: state_of(n),
            bbox: match n.bbox {
                Some(b) => b,
                None => BBox { x: 0, y: 0, w: 0, h: 0 },
            },
            interactable: is_interactable(n),
            app_id: bundle_id.to_owned(),
            stable_id: id,
            ax_path: path.clone(),
        };
        let ghost rec = record@;
        self.elements.push(record);
        proof {
            assert(element_views(self.elements@) =~= before.push(rec));
            assert(before.push(rec).drop_last() =~= before);
            assert(rec.ax_path =~= path@);
            assert(rec == element_of(*n, parent_role@, path@, bundle_id@, before));
            assert forall|d: int, r: Seq<char>| 0 <= d implies #[trigger] counter(self.per_role_sibling@, d, r)
                == same_role_count(before.push(rec), r, (d + 1) as nat) by {
                assert(counter(mid.per_role_sibling@, d, r) == same_role_count(before, r, (d + 1) as nat));
                if d < mid.per_role_sibling@.len() && d != depth {
                    assert(self.per_role_sibling@[d] == mid.per_role_sibling@[d]);
                }
            }
            assert(self.wf());
        }
        match &n.children {
            None => {},
            Some(children) => {
                let ghost entry = self.walked();
                let ghost here = path@;
                let mut i: usize = 0;
                while i < children.len() && !(self.depth_capped || self.nodes_capped)
                    invariant
                        self.wf(),
                        n.children == Some(*children),
                        i <= children@.len(),
                        depth < MAX_DEPTH,
                        depth < self.per_role_sibling@.len(),
                        start.per_role_sibling@.len() <= self.per_role_sibling@.len(),
                        path@ == here,
                        here.len() == depth + 1,
                        role@ == role_of(*n),
                        visit_all(children@, i as int, role@, here, bundle_id@, self.walked())
                            == visit_all(children@, 0, role@, here, bundle_id@, entry),
                    decreases children@.len() - i,
                {
                    path.push(i as u32);
                    proof {
                        assert(decreases_to!(*n => n.children));
                        assert(decreases_to!(n.children => n.children->Some_0));
                        assert(decreases_to!(children => children@));
                        assert(decreases_to!(children@ => children@[i as int]));
                    }
                    self.dfs(&children[i], role.as_str(), depth + 1, path, bundle_id);
                    let _ = path.pop();
                    assert(path@ =~= here);
                    i += 1;
                }
            },
        }
    }
}

proof fn lemma_count_le_len(elements: Seq<ElementView>, role: Seq<char>, steps: nat)
    ensures
        same_role_count(elements, role, steps) <= elements.len(),
    decreases elements.len(),
{
    if elements.len() > 0 {
        lemma_count_le_len(elements.drop_last(), role, steps);
    }
}

/// Sets the counter of a role at a depth.
fn bump(counters: &mut Vec<TextMap<u32>>, depth: usize, role: &str, n: u32)
    requires
        depth < old(counters)@.len(),
        old(counters)@[depth as int].wf(),
    ensures
        final(counters)@.len() == old(counters)@.len(),
        final(counters)@[depth as int].wf(),
        final(counters)@[depth as int]@ == old(counters)@[depth as int]@.insert(role@, n),
        forall|d: int|
            0 <= d < old(counters)@.len() && d != depth ==> final(counters)@[d] == old(counters)@[d],
{
    let map = &mut counters[depth];
    map.insert(role.to_owned(), n);
}

/// What is shown of the elements in short.
pub open spec fn tree_view(elements: Seq<ElementView>) -> JsonView {
    JsonView::Array(
        elements.map_values(
            |e: ElementView|
                object_view(
                    seq![
                        ("ref"@, JsonView::String(e.element_ref)),
                        ("role"@, JsonView::String(e.role)),
                        ("name"@, JsonView::String(e.name)),
                        ("interactable"@, JsonView::Bool(e.interactable)),
                    ],
                ),
        ),
    )
}

/// The elements in short: label, role, name, and whether they can be acted upon.
pub fn build_tree(elements: &Vec<AppElement>) -> (j: Json)
    ensures
        j@ == tree_view(element_views(elements@)),
{
    let ghost views = element_views(elements@);
    let ghost want = tree_view(views)->Array_0;
    let mut items: Vec<Json> = Vec::new();
    let mut i: usize = 0;
    while i < elements.len()
        invariant
            i <= elements@.len(),
            items@.len() == i,
            views == element_views(elements@),
            want == tree_view(views)->Array_0,
            forall|k: int| 0 <= k < i ==> (#[trigger] items@[k])@ == want[k],
        decreases elements@.len() - i,
    {
        let e = &elements[i];
        let mut b = ObjectBuilder::new();
        b.put("ref", Json::text(e.element_ref.as_str()));
        b.put("role", Json::text(e.role.as_str()));
        b.put("name", Json::text(e.name.as_str()));
        b.put("interactable", Json::Bool(e.interactable));
        assert(views[i as int] == e@);
        assert(b@ =~= want[i as int]->Object_0);
        items.push(b.done());
        i += 1;
    }
    let j = array_of(items);
    assert(j@->Array_0 =~= want);
    j
}

/// Where a walk begins: at the main window, then at every child of the application, which
/// may hold the main window again.
pub fn roots_of(main_window: Option<AxNode>, children: Option<Vec<AxNode>>) -> (roots: Vec<AxNode>)
    ensures
        roots@ == (match main_window {
            Some(w) => seq![w],
            None => Seq::empty(),
        }) + (match children {
            Some(c) => c@,
            None => Seq::empty(),
        }),
{
    let mut roots: Vec<AxNode> = Vec::new();
    match main_window {
        Some(w) => {
            roots.push(w);
        },
        None => {},
    }
    match children {
        Some(c) => {
            let mut c = c;
            roots.append(&mut c);
        },
        None => {},
    }
    roots
}

/// Walks an application and makes a snapshot of it. The title is the application's own,
/// else its bundle id. Where a cap ends the walk, the snapshot says which.
pub fn walk(
    roots: &Vec<AxNode>,
    title: Option<String>,
    pid: i32,
    bundle_id: &str,
    snapshot_seq: u64,
) -> (s: AppSnapshot)
    ensures
        element_views(s.elements@) == walk_of(roots@, bundle_id@).elements,
        crate::trace::opt_str(s.truncated_at) == cap_name(walk_of(roots@, bundle_id@).cap),
        s.tree@ == tree_view(element_views(s.elements@)),
        s.title@ == (match title {
            Some(t) => t@,
            None => bundle_id@,
        }),
        s.snapshot_seq == snapshot_seq,
        s.app_id@ == bundle_id@,
        s.bundle_id@ == bundle_id@,
        s.pid == pid,
        s.focused_ref is None,
        forall|i: int|
            0 <= i < s.elements@.len() ==> {
                let e = #[trigger] s.elements@[i];
                &&& located(roots@, e.ax_path@) matches Ok(n)
                &&& n.bbox matches Some(b) ==> e.bbox == b
                &&& n.bbox is None ==> e.bbox.x == 0 && e.bbox.y == 0 && e.bbox.w == 0 && e.bbox.h
                    == 0
                &&& e.state.selected == n.selected
                &&& e.state.pressed == n.focused
                &&& e.state.disabled == (n.enabled matches Some(b) && !b)
            },
{
    let mut walker = Walker {
        elements: Vec::new(),
        per_role_sibling: Vec::new(),
        depth_capped: false,
        nodes_capped: false,
    };
    let ghost entry = Walked { elements: Seq::<ElementView>::empty(), cap: None };
    assert(element_views(walker.elements@) =~= Seq::<ElementView>::empty());
    assert(walker.walked() == entry);
    let mut path: Vec<u32> = Vec::new();
    let ghost here = path@;
    let mut i: usize = 0;
    while i < roots.len() && !(walker.depth_capped || walker.nodes_capped)
        invariant
            walker.wf(),
            i <= roots@.len(),
            path@ == here,
            here == Seq::<u32>::empty(),
            visit_all(roots@, i as int, "AXApplication"@, here, bundle_id@, walker.walked())
                == visit_all(roots@, 0, "AXApplication"@, here, bundle_id@, entry),
        decreases roots@.len() - i,
    {
        path.push(i as u32);
        walker.dfs(&roots[i], "AXApplication", 0, &mut path, bundle_id);
        let _ = path.pop();
        assert(path@ =~= here);
        i += 1;
    }
    let truncated_at: Option<&'static str> = if walker.depth_capped {
        Some("depth")
    } else if walker.nodes_capped {
        Some("nodes")
    } else {
        None
    };
    let tree = build_tree(&walker.elements);
    proof {
        let all = walk_of(roots@, bundle_id@).elements;
        assert(element_views(walker.elements@) == all);
        assert forall|i: int| 0 <= i < walker.elements@.len() implies ({
            let e = #[trigger] walker.elements@[i];
            &&& located(roots@, e.ax_path@) matches Ok(n)
            &&& n.bbox matches Some(b) ==> e.bbox == b
            &&& n.bbox is None ==> e.bbox.x == 0 && e.bbox.y == 0 && e.bbox.w == 0 && e.bbox.h == 0
            &&& e.state.selected == n.selected
            &&& e.state.pressed == n.focused
            &&& e.state.disabled == (n.enabled matches Some(b) && !b)
        }) by {
            walked_elements_are_found_again(roots@, bundle_id@, i);
            assert(all[i] == walker.elements@[i]@);
        }
    }
    AppSnapshot {
        snapshot_seq,
        app_id: bundle_id.to_owned(),
        bundle_id: bundle_id.to_owned(),
        pid,
        title: match title {
            Some(t) => t,
            None => bundle_id.to_owned(),
        },
        focused_ref: None,
        elements: walker.elements,
        tree,
        truncated_at,
    }
}

/// What is known of the element that has the focus.
#[derive(Debug)]
pub struct FocusedElement {
    pub role: Option<String>,
    pub name: String,
    /// For each element of the snapshot, whether it lies within half a pixel.
    pub near: Vec<bool>,
}

/// Whether the `i`-th element is the one that has the focus.
pub open spec fn is_focused(elements: Seq<AppElement>, f: FocusedElement, i: int) -> bool {
    &&& opt_text(f.role) == Some(elements[i].role@)
    &&& f.name@ == elements[i].name@
    &&& i < f.near@.len() && f.near@[i]
}

/// The label of the element that has the focus: the first one with its role, its name and
/// its place.
pub fn focused_ref_for(elements: &Vec<AppElement>, f: &FocusedElement) -> (r: Option<String>)
    ensures
        match r {
            Some(label) => exists|i: int|
                {
                    &&& 0 <= i < elements@.len()
                    &&& #[trigger] is_focused(elements@, *f, i)
                    &&& label@ == elements@[i].element_ref@
                    &&& forall|k: int| 0 <= k < i ==> !#[trigger] is_focused(elements@, *f, k)
                },
            None => forall|k: int|
                0 <= k < elements@.len() ==> !#[trigger] is_focused(elements@, *f, k),
        },
{
    let role = match &f.role {
        Some(r) => r,
        None => {
            return None;
        },
    };
    let mut i: usize = 0;
    while i < elements.len()
        invariant
            i <= elements@.len(),
            f.role == Some(*role),
            forall|k: int| 0 <= k < i ==> !#[trigger] is_focused(elements@, *f, k),
        decreases elements@.len() - i,
    {
        if same_text(role.as_str(), elements[i].role.as_str()) && same_text(
            f.name.as_str(),
            elements[i].name.as_str(),
        ) && i < f.near.len() && f.near[i] {
            assert(is_focused(elements@, *f, i as int));
            return Some(elements[i].element_ref.clone());
        }
        i += 1;
    }
    None
}

/// The node that the steps lead to from `n`, or what is wrong with the first step that
/// cannot be taken.
pub open spec fn descend(n: AxNode, path: Seq<u32>) -> Result<AxNode, Seq<char>>
    decreases path.len(),
{
    if path.len() == 0 {
        Ok(n)
    } else {
        match n.children {
            None => Err("path step="@ + decimal(path[0] as nat) + ", no children"@),
            Some(c) => if path[0] < c@.len() {
                descend(c@[path[0] as int], path.drop_first())
            } else {
                Err("path step="@ + decimal(path[0] as nat) + " out of range"@)
            },
        }
    }
}

/// The node that a path leads to, or what is wrong with its first step that cannot be
/// taken.
pub open spec fn located(roots: Seq<AxNode>, path: Seq<u32>) -> Result<AxNode, Seq<char>> {
    if path[0] < roots.len() {
        descend(roots[path[0] as int], path.drop_first())
    } else {
        Err("path[0]="@ + decimal(path[0] as nat))
    }
}

/// Finds the node that a path leads to. An empty path is a fault of the caller; a path
/// that leads nowhere is stale.
pub fn locate_by_path<'a>(roots: &'a Vec<AxNode>, path: &Vec<u32>) -> (r: Result<
    &'a AxNode,
    NativeControlError,
>)
    ensures
        match r {
            Ok(n) => path@.len() > 0 && located(roots@, path@) == Ok::<AxNode, Seq<char>>(*n),
            Err(NativeControlError::Internal(msg)) => path@.len() == 0 && msg@ == "empty ax_path"@,
            Err(NativeControlError::RefStale { r: msg }) => path@.len() > 0 && located(
                roots@,
                path@,
            ) == Err::<AxNode, Seq<char>>(msg@),
            Err(_) => false,
        },
{
    if path.len() == 0 {
        return Err(NativeControlError::Internal("empty ax_path".to_owned()));
    }
    let first: u32 = path[0];
    if first as usize >= roots.len() {
        let n = decimal_text(first as u64);
        return Err(NativeControlError::RefStale { r: join2("path[0]=", n.as_str()) });
    }
    let mut current: &'a AxNode = &roots[first as usize];
    let mut i: usize = 1;
    assert(path@.skip(1) =~= path@.drop_first());
    while i < path.len()
        invariant
            1 <= i <= path@.len(),
            path@[0] < roots@.len(),
            located(roots@, path@) == descend(*current, path@.skip(i as int)),
        decreases path@.len() - i,
    {
        let step: u32 = path[i];
        assert(path@.skip(i as int)[0] == step);
        assert(path@.skip(i as int).drop_first() =~= path@.skip(i + 1));
        match &current.children {
            None => {
                let n = decimal_text(step as u64);
                return Err(
                    NativeControlError::RefStale {
                        r: join3("path step=", n.as_str(), ", no children"),
                    },
                );
            },
            Some(kids) => {
                if step as usize >= kids.len() {
                    let n = decimal_text(step as u64);
                    return Err(
                        NativeControlError::RefStale {
                            r: join3("path step=", n.as_str(), " out of range"),
                        },
                    );
                }
                current = &kids[step as usize];
            },
        }
        i += 1;
    }
    assert(path@.skip(path@.len() as int) =~= Seq::<u32>::empty());
    Ok(current)
}

/// `e` is the error that stands for that code.
pub open spec fn ax_error_of(code: i32, e: NativeControlError) -> bool {
    if code == AX_SUCCESS {
        e matches NativeControlError::Internal(msg) && msg@ == "map_ax_error called with success"@
    } else if code == AX_API_DISABLED {
        e matches NativeControlError::PermissionMissing { settings_url } && settings_url@
            == SETTINGS_DEEPLINK@
    } else {
        e matches NativeControlError::AxError(c) && c == code
    }
}

/// The error of a failed accessibility call.
pub fn map_ax_error(code: i32) -> (e: NativeControlError)
    ensures
        ax_error_of(code, e),
{
    if code == AX_SUCCESS {
        NativeControlError::Internal("map_ax_error called with success".to_owned())
    } else if code == AX_API_DISABLED {
        NativeControlError::PermissionMissing { settings_url: SETTINGS_DEEPLINK }
    } else {
        NativeControlError::AxError(code)
    }
}

/// The element says what the node says: its role; its title, else its description, else its
/// value as a name, the first of them that is not empty; its value; its description, else its
/// help; its state; its box, which is the empty one at the origin only where the node reports
/// none; and whether it can be acted upon. Its label and index are its place in the list, and
/// it names its application.
pub open spec fn shows_node(e: ElementView, n: AxNode, bundle_id: Seq<char>, place: int) -> bool {
    &&& match n.role {
        Some(r) => e.role == r@,
        None => e.role.len() == 0,
    }
    &&& match (n.title, n.description, n.value) {
        (Some(t), _, _) if t@.len() > 0 => e.name == t@,
        (_, Some(d), _) if d@.len() > 0 => e.name == d@,
        (_, _, Some(v)) => e.name == v@,
        (_, _, None) => e.name.len() == 0,
    }
    &&& match n.value {
        Some(v) => e.value == Some(v@),
        None => e.value is None,
    }
    &&& match (n.description, n.help) {
        (Some(d), _) => e.description == Some(d@),
        (None, Some(h)) => e.description == Some(h@),
        (None, None) => e.description is None,
    }
    &&& e.state.selected == n.selected
    &&& e.state.pressed == n.focused
    &&& e.state.disabled == (n.enabled matches Some(b) && !b)
    &&& e.state.checked is None
    &&& e.state.expanded is None
    &&& match n.bbox {
        Some(b) => e.bbox == b,
        None => e.bbox.x == 0 && e.bbox.y == 0 && e.bbox.w == 0 && e.bbox.h == 0,
    }
    &&& e.interactable == (n.can_press || n.value_settable)
    &&& e.app_id == bundle_id
    &&& e.index == place
    &&& e.element_ref == "e"@ + decimal(place as nat)
}

/// The element at `place` was made of the node that its path leads to from `n`, which
/// stands at `path`.
pub open spec fn found_below(
    n: AxNode,
    path: Seq<u32>,
    bundle_id: Seq<char>,
    e: ElementView,
    place: int,
) -> bool {
    &&& path.len() <= e.ax_path.len() <= MAX_DEPTH
    &&& e.ax_path.take(path.len() as int) == path
    &&& match descend(n, e.ax_path.skip(path.len() as int)) {
        Ok(m) => shows_node(e, m, bundle_id, place),
        Err(_) => false,
    }
}

proof fn lemma_visit(
    n: AxNode,
    parent_role: Seq<char>,
    path: Seq<u32>,
    bundle_id: Seq<char>,
    w: Walked,
)
    requires
        w.elements.len() <= MAX_NODES,
    ensures
        ({
            let r = visit(n, parent_role, path, bundle_id, w);
            &&& w.elements.is_prefix_of(r.elements)
            &&& r.elements.len() <= MAX_NODES
            &&& r.cap is None ==> w.cap is None && r.elements.len() > w.elements.len()
            &&& forall|j: int|
                w.elements.len() <= j < r.elements.len() ==> found_below(
                    n,
                    path,
                    bundle_id,
                    #[trigger] r.elements[j],
                    j,
                )
        }),
    decreases n, 0int,
{
    let r = visit(n, parent_role, path, bundle_id, w);
    if w.cap is Some || path.len() > MAX_DEPTH || w.elements.len() >= MAX_NODES {
    } else {
        let e = element_of(n, parent_role, path, bundle_id, w.elements);
        let after = Walked { elements: w.elements.push(e), cap: None };
        assert(e.ax_path.take(path.len() as int) =~= path);
        assert(e.ax_path.skip(path.len() as int) =~= Seq::<u32>::empty());
        assert(found_below(n, path, bundle_id, e, w.elements.len() as int));
        match n.children {
            Some(c) => {
                assert(decreases_to!(n => n.children));
                assert(decreases_to!(n.children => n.children->Some_0));
                assert(decreases_to!(c => c@));
                lemma_visit_all(c@, 0, role_of(n), path, bundle_id, after);
                assert forall|j: int| w.elements.len() <= j < r.elements.len() implies found_below(
                    n,
                    path,
                    bundle_id,
                    #[trigger] r.elements[j],
                    j,
                ) by {
                    if j == w.elements.len() {
                        assert(r.elements[j] == after.elements[j]);
                    } else {
                        let e2 = r.elements[j];
                        let k = e2.ax_path[path.len() as int] as int;
                        assert(found_below(c@[k], path.push(k as u32), bundle_id, e2, j));
                        let tail = e2.ax_path.skip(path.len() as int);
                        assert(tail[0] == k as u32);
                        assert(tail.drop_first() =~= e2.ax_path.skip(path.len() as int + 1));
                        assert(e2.ax_path.take(path.len() as int) =~= path) by {
                            assert(e2.ax_path.take(path.len() as int + 1) =~= path.push(k as u32));
                            assert forall|x: int| 0 <= x < path.len() implies e2.ax_path[x]
                                == path[x] by {
                                assert(e2.ax_path.take(path.len() as int + 1)[x] == path.push(k as u32)[x]);
                            }
                        }
                    }
                }
            },
            None => {},
        }
    }
}

proof fn lemma_visit_all(
    children: Seq<AxNode>,
    i: int,
    parent_role: Seq<char>,
    path: Seq<u32>,
    bundle_id: Seq<char>,
    w: Walked,
)
    requires
        w.elements.len() <= MAX_NODES,
        0 <= i <= w.elements.len() || w.cap is Some,
    ensures
        ({
            let r = visit_all(children, i, parent_role, path, bundle_id, w);
            &&& w.elements.is_prefix_of(r.elements)
            &&& r.elements.len() <= MAX_NODES
            &&& r.cap is None ==> w.cap is None
            &&& forall|j: int|
                w.elements.len() <= j < r.elements.len() ==> {
                    let e = #[trigger] r.elements[j];
                    &&& path.len() < e.ax_path.len()
                    &&& e.ax_path[path.len() as int] < children.len()
                    &&& found_below(
                        children[e.ax_path[path.len() as int] as int],
                        path.push(e.ax_path[path.len() as int]),
                        bundle_id,
                        e,
                        j,
                    )
                }
        }),
    decreases children, children.len() - i,
{
    let r = visit_all(children, i, parent_role, path, bundle_id, w);
    if i < 0 || i >= children.len() || w.cap is Some {
    } else {
        let step = i as u32;
        let mid = visit(children[i], parent_role, path.push(step), bundle_id, w);
        lemma_visit(children[i], parent_role, path.push(step), bundle_id, w);
        lemma_visit_all(children, i + 1, parent_role, path, bundle_id, mid);
        assert forall|j: int| w.elements.len() <= j < r.elements.len() implies {
            let e = #[trigger] r.elements[j];
            &&& path.len() < e.ax_path.len()
            &&& e.ax_path[path.len() as int] < children.len()
            &&& found_below(
                children[e.ax_path[path.len() as int] as int],
                path.push(e.ax_path[path.len() as int]),
                bundle_id,
                e,
                j,
            )
        } by {
            if j < mid.elements.len() {
                let e = r.elements[j];
                assert(e == mid.elements[j]);
                assert(found_below(children[i], path.push(step), bundle_id, e, j));
                assert(e.ax_path.take(path.len() as int + 1)[path.len() as int] == step);
                assert(step == i);
            }
        }
    }
}

/// A walk takes in at most five thousand elements from at most sixty-four levels. Each
/// element is labelled by its place, and its path leads, in an unchanged tree, to the very
/// node that it was made of: role, name, value, description, state and box are that node's.
pub proof fn walked_elements_are_found_again(
    roots: Seq<AxNode>,
    bundle_id: Seq<char>,
    i: int,
)
    requires
        0 <= i < walk_of(roots, bundle_id).elements.len(),
    ensures
        walk_of(roots, bundle_id).elements.len() <= 5_000,
        ({
            let e = walk_of(roots, bundle_id).elements[i];
            &&& 1 <= e.ax_path.len() <= 64
            &&& match located(roots, e.ax_path) {
                Ok(n) => shows_node(e, n, bundle_id, i),
                Err(_) => false,
            }
        }),
{
    let none = Seq::<u32>::empty();
    let w = Walked { elements: Seq::<ElementView>::empty(), cap: None };
    lemma_visit_all(roots, 0, "AXApplication"@, none, bundle_id, w);
    let e = walk_of(roots, bundle_id).elements[i];
    let k = e.ax_path[0];
    assert(found_below(roots[k as int], none.push(k), bundle_id, e, i));
    assert(e.ax_path.skip(1) =~= e.ax_path.drop_first());
    assert(none.push(k).len() == 1);
}

/// The role of what holds the node that the steps lead to from `n`, where `n` is held by
/// something of that role.
spec fn holder_role(n: AxNode, parent_role: Seq<char>, steps: Seq<u32>) -> Seq<char> {
    if steps.len() == 0 {
        parent_role
    } else {
        match descend(n, steps.drop_last()) {
            Ok(m) => role_of(m),
            Err(_) => Seq::empty(),
        }
    }
}

spec fn identified(
    n: AxNode,
    parent_role: Seq<char>,
    path: Seq<u32>,
    elements: Seq<ElementView>,
    j: int,
) -> bool {
    let e = elements[j];
    e.stable_id == stable_id_view(
        e.role,
        e.name,
        holder_role(n, parent_role, e.ax_path.skip(path.len() as int)),
        same_role_count(elements.take(j), e.role, e.ax_path.len()),
    )
}

proof fn lemma_visit_identified(
    n: AxNode,
    parent_role: Seq<char>,
    path: Seq<u32>,
    bundle_id: Seq<char>,
    w: Walked,
)
    requires
        w.elements.len() <= MAX_NODES,
    ensures
        ({
            let r = visit(n, parent_role, path, bundle_id, w);
            forall|j: int|
                w.elements.len() <= j < r.elements.len() ==> #[trigger] identified(
                    n,
                    parent_role,
                    path,
                    r.elements,
                    j,
                )
        }),
    decreases n, 0int,
{
    let r = visit(n, parent_role, path, bundle_id, w);
    if w.cap is Some || path.len() > MAX_DEPTH || w.elements.len() >= MAX_NODES {
    } else {
        let e = element_of(n, parent_role, path, bundle_id, w.elements);
        let after = Walked { elements: w.elements.push(e), cap: None };
        lemma_visit(n, parent_role, path, bundle_id, w);
        assert(e.ax_path.skip(path.len() as int) =~= Seq::<u32>::empty());
        match n.children {
            Some(c) => {
                assert(decreases_to!(n => n.children));
                assert(decreases_to!(n.children => n.children->Some_0));
                assert(decreases_to!(c => c@));
                lemma_visit_all(c@, 0, role_of(n), path, bundle_id, after);
                lemma_visit_all_identified(c@, 0, role_of(n), path, bundle_id, after);
                assert forall|j: int|
                    w.elements.len() <= j < r.elements.len() implies #[trigger] identified(
                    n,
                    parent_role,
                    path,
                    r.elements,
                    j,
                ) by {
                    if j == w.elements.len() {
                        assert(r.elements[j] == after.elements[j]);
                        assert(r.elements.take(j) =~= w.elements);
                    } else {
                        let e2 = r.elements[j];
                        let k = e2.ax_path[path.len() as int];
                        assert(found_below(c@[k as int], path.push(k), bundle_id, e2, j));
                        assert(identified(c@[k as int], role_of(n), path.push(k), r.elements, j));
                        let steps = e2.ax_path.skip(path.len() as int);
                        let below = e2.ax_path.skip(path.len() as int + 1);
                        assert(steps.drop_first() =~= below);
                        if below.len() == 0 {
                            assert(steps.drop_last() =~= Seq::<u32>::empty());
                        } else {
                            assert(steps.drop_last().drop_first() =~= below.drop_last());
                            assert(steps.drop_last()[0] == k);
                        }
                    }
                }
            },
            None => {
                assert(r.elements[w.elements.len() as int] == e);
                assert(r.elements.take(w.elements.len() as int) =~= w.elements);
            },
        }
    }
}

proof fn lemma_visit_all_identified(
    children: Seq<AxNode>,
    i: int,
    parent_role: Seq<char>,
    path: Seq<u32>,
    bundle_id: Seq<char>,
    w: Walked,
)
    requires
        w.elements.len() <= MAX_NODES,
        0 <= i <= w.elements.len() || w.cap is Some,
    ensures
        ({
            let r = visit_all(children, i, parent_role, path, bundle_id, w);
            forall|j: int|
                w.elements.len() <= j < r.elements.len() ==> {
                    let k = (#[trigger] r.elements[j]).ax_path[path.len() as int];
                    identified(children[k as int], parent_role, path.push(k), r.elements, j)
                }
        }),
    decreases children, children.len() - i,
{
    let r = visit_all(children, i, parent_role, path, bundle_id, w);
    if i < 0 || i >= children.len() || w.cap is Some {
    } else {
        let step = i as u32;
        let mid = visit(children[i], parent_role, path.push(step), bundle_id, w);
        lemma_visit(children[i], parent_role, path.push(step), bundle_id, w);
        lemma_visit_identified(children[i], parent_role, path.push(step), bundle_id, w);
        lemma_visit_all(children, i + 1, parent_role, path, bundle_id, mid);
        lemma_visit_all_identified(children, i + 1, parent_role, path, bundle_id, mid);
        assert forall|j: int| w.elements.len() <= j < r.elements.len() implies {
            let k = (#[trigger] r.elements[j]).ax_path[path.len() as int];
            identified(children[k as int], parent_role, path.push(k), r.elements, j)
        } by {
            if j < mid.elements.len() {
                let e = r.elements[j];
                assert(e == mid.elements[j]);
                assert(found_below(children[i], path.push(step), bundle_id, e, j));
                assert(e.ax_path.take(path.len() as int + 1)[path.len() as int] == step);
                assert(identified(children[i], parent_role, path.push(step), mid.elements, j));
                assert(r.elements.take(j) =~= mid.elements.take(j));
            }
        }
    }
}

proof fn lemma_same_role_count(elements: Seq<ElementView>, role: Seq<char>, steps: nat)
    ensures
        same_role_count(elements, role, steps) == elements.filter(
            |f: ElementView| f.role == role && f.ax_path.len() == steps,
        ).len(),
    decreases elements.len(),
{
    reveal(Seq::filter);
    if elements.len() > 0 {
        lemma_same_role_count(elements.drop_last(), role, steps);
    }
}

/// The stable id of an element is the digest of four things, with unit separators between
/// them: its role, its name, the role of the node that holds it, which for the top is the
/// application, and the number of elements before it that have its role and stand as deep.
pub proof fn stable_ids_tell_role_name_holder_and_sibling(
    roots: Seq<AxNode>,
    bundle_id: Seq<char>,
    i: int,
)
    requires
        0 <= i < walk_of(roots, bundle_id).elements.len(),
    ensures
        ({
            let all = walk_of(roots, bundle_id).elements;
            let e = all[i];
            let holder = if e.ax_path.len() == 1 {
                "AXApplication"@
            } else {
                match located(roots, e.ax_path.drop_last()) {
                    Ok(m) => text_or_none(m.role),
                    Err(_) => Seq::empty(),
                }
            };
            let siblings = all.take(i).filter(
                |f: ElementView| f.role == e.role && f.ax_path.len() == e.ax_path.len(),
            );
            let told = e.role + seq!['\u{1f}'] + e.name + seq!['\u{1f}'] + holder + seq!['\u{1f}']
                + decimal(siblings.len());
            &&& e.stable_id == hex_text(sha256_of(vstd::utf8::encode_utf8(told)))
            &&& e.ax_path.len() > 1 ==> located(roots, e.ax_path.drop_last()) is Ok
        }),
{
    let none = Seq::<u32>::empty();
    let w = Walked { elements: Seq::<ElementView>::empty(), cap: None };
    lemma_visit_all(roots, 0, "AXApplication"@, none, bundle_id, w);
    lemma_visit_all_identified(roots, 0, "AXApplication"@, none, bundle_id, w);
    let all = walk_of(roots, bundle_id).elements;
    let e = all[i];
    let k = e.ax_path[0];
    lemma_same_role_count(all.take(i), e.role, e.ax_path.len());
    assert(found_below(roots[k as int], none.push(k), bundle_id, e, i));
    assert(identified(roots[k as int], "AXApplication"@, none.push(k), all, i));
    let steps = e.ax_path.skip(1);
    assert(none.push(k).len() == 1);
    if e.ax_path.len() > 1 {
        assert(e.ax_path.drop_last().drop_first() =~= steps.drop_last());
        lemma_shorter(roots[k as int], steps);
    }
}

proof fn lemma_shorter(n: AxNode, steps: Seq<u32>)
    requires
        descend(n, steps) is Ok,
        steps.len() > 0,
    ensures
        descend(n, steps.drop_last()) is Ok,
    decreases steps.len(),
{
    if steps.len() > 1 {
        let c = n.children->Some_0;
        lemma_shorter(c@[steps[0] as int], steps.drop_first());
        assert(steps.drop_last().drop_first() =~= steps.drop_first().drop_last());
        assert(steps.drop_last()[0] == steps[0]);
    }
}

/// Some element stands at that path.
pub open spec fn lists_path(elements: Seq<ElementView>, path: Seq<u32>) -> bool {
    exists|j: int| 0 <= j < elements.len() && (#[trigger] elements[j]).ax_path == path
}

proof fn lemma_still_listed(a: Seq<ElementView>, b: Seq<ElementView>, path: Seq<u32>)
    requires
        a.is_prefix_of(b),
        lists_path(a, path),
    ensures
        lists_path(b, path),
{
    let j = choose|j: int| 0 <= j < a.len() && (#[trigger] a[j]).ax_path == path;
    assert(b[j] == a[j]);
}

proof fn lemma_visit_complete(
    n: AxNode,
    parent_role: Seq<char>,
    path: Seq<u32>,
    bundle_id: Seq<char>,
    w: Walked,
    steps: Seq<u32>,
)
    requires
        w.elements.len() <= MAX_NODES,
        visit(n, parent_role, path, bundle_id, w).cap is None,
        descend(n, steps) is Ok,
    ensures
        lists_path(visit(n, parent_role, path, bundle_id, w).elements, path + steps),
    decreases n, 0int,
{
    let r = visit(n, parent_role, path, bundle_id, w);
    lemma_visit(n, parent_role, path, bundle_id, w);
    let e = element_of(n, parent_role, path, bundle_id, w.elements);
    let after = Walked { elements: w.elements.push(e), cap: None };
    if steps.len() == 0 {
        assert(path + steps =~= path);
        assert(after.elements[w.elements.len() as int].ax_path == path);
        match n.children {
            Some(c) => {
                lemma_visit_all(c@, 0, role_of(n), path, bundle_id, after);
                assert(lists_path(after.elements, path));
                lemma_still_listed(after.elements, r.elements, path);
            },
            None => {},
        }
    } else {
        let c = n.children->Some_0;
        assert(decreases_to!(n => n.children));
        assert(decreases_to!(n.children => n.children->Some_0));
        assert(decreases_to!(c => c@));
        lemma_visit_all_complete(
            c@,
            0,
            role_of(n),
            path,
            bundle_id,
            after,
            steps[0] as int,
            steps.drop_first(),
        );
        assert(path.push(steps[0]) + steps.drop_first() =~= path + steps);
    }
}

proof fn lemma_visit_all_complete(
    children: Seq<AxNode>,
    i: int,
    parent_role: Seq<char>,
    path: Seq<u32>,
    bundle_id: Seq<char>,
    w: Walked,
    k: int,
    steps: Seq<u32>,
)
    requires
        w.elements.len() <= MAX_NODES,
        0 <= i <= w.elements.len(),
        visit_all(children, i, parent_role, path, bundle_id, w).cap is None,
        i <= k < children.len(),
        descend(children[k], steps) is Ok,
    ensures
        lists_path(
            visit_all(children, i, parent_role, path, bundle_id, w).elements,
            path.push(k as u32) + steps,
        ),
    decreases children, children.len() - i,
{
    let r = visit_all(children, i, parent_role, path, bundle_id, w);
    lemma_visit_all(children, i, parent_role, path, bundle_id, w);
    let mid = visit(children[i], parent_role, path.push(i as u32), bundle_id, w);
    lemma_visit(children[i], parent_role, path.push(i as u32), bundle_id, w);
    lemma_visit_all(children, i + 1, parent_role, path, bundle_id, mid);
    if k == i {
        lemma_visit_complete(children[i], parent_role, path.push(i as u32), bundle_id, w, steps);
        lemma_still_listed(mid.elements, r.elements, path.push(k as u32) + steps);
    } else {
        lemma_visit_all_complete(children, i + 1, parent_role, path, bundle_id, mid, k, steps);
    }
}

/// Nothing is left out: where no cap ended the walk, every node that a path leads to is among
/// the elements.
pub proof fn walks_take_in_every_node(roots: Seq<AxNode>, bundle_id: Seq<char>, path: Seq<u32>)
    requires
        walk_of(roots, bundle_id).cap is None,
        path.len() > 0,
        located(roots, path) is Ok,
    ensures
        lists_path(walk_of(roots, bundle_id).elements, path),
{
    let none = Seq::<u32>::empty();
    let w = Walked { elements: Seq::<ElementView>::empty(), cap: None };
    lemma_visit_all_complete(
        roots,
        0,
        "AXApplication"@,
        none,
        bundle_id,
        w,
        path[0] as int,
        path.drop_first(),
    );
    assert(none.push(path[0]) + path.drop_first() =~= path);
}

/// A node at `p` comes before a node at `q` in the order of the tree: it is above it, or in an
/// earlier branch.
pub open spec fn comes_before(p: Seq<u32>, q: Seq<u32>) -> bool {
    exists|c: int|
        0 <= c <= p.len() && c < q.len() && #[trigger] p.take(c) == q.take(c) && (c == p.len()
            || p[c] < q[c])
}

spec fn in_order(elements: Seq<ElementView>) -> bool {
    forall|a: int, b: int|
        0 <= a < b < elements.len() ==> comes_before(
            (#[trigger] elements[a]).ax_path,
            (#[trigger] elements[b]).ax_path,
        )
}

spec fn all_before(elements: Seq<ElementView>, path: Seq<u32>) -> bool {
    forall|a: int| 0 <= a < elements.len() ==> comes_before((#[trigger] elements[a]).ax_path, path)
}

proof fn lemma_before_longer(p: Seq<u32>, q: Seq<u32>, k: u32)
    requires
        comes_before(p, q),
    ensures
        comes_before(p, q.push(k)),
{
    let c = choose|c: int|
        0 <= c <= p.len() && c < q.len() && #[trigger] p.take(c) == q.take(c) && (c == p.len()
            || p[c] < q[c]);
    assert(p.take(c) =~= q.push(k).take(c));
}

proof fn lemma_before_next(p: Seq<u32>, path: Seq<u32>, k: u32, l: u32)
    requires
        comes_before(p, path.push(k)),
        k < l,
    ensures
        comes_before(p, path.push(l)),
{
    let q = path.push(k);
    let c = choose|c: int|
        0 <= c <= p.len() && c < q.len() && #[trigger] p.take(c) == q.take(c) && (c == p.len()
            || p[c] < q[c]);
    assert(q.take(c) =~= path.push(l).take(c));
    assert(p.take(c) =~= path.push(l).take(c));
}

proof fn lemma_not_before_itself(p: Seq<u32>)
    ensures
        !comes_before(p, p),
{
}

/// Something below `n`, at that depth below it, is there.
spec fn reaches(n: AxNode, depth: int) -> bool {
    exists|steps: Seq<u32>| #[trigger] descend(n, steps) is Ok && steps.len() == depth
}

/// Some node below `n`, which stands at `path`, is not among the elements.
spec fn misses(n: AxNode, path: Seq<u32>, elements: Seq<ElementView>) -> bool {
    exists|steps: Seq<u32>| #[trigger] descend(n, steps) is Ok && !lists_path(elements, path + steps)
}

proof fn lemma_visit_order(
    n: AxNode,
    parent_role: Seq<char>,
    path: Seq<u32>,
    bundle_id: Seq<char>,
    w: Walked,
)
    requires
        w.elements.len() <= MAX_NODES,
        w.cap is None,
        path.len() <= MAX_DEPTH + 1,
        in_order(w.elements),
        all_before(w.elements, path),
    ensures
        ({
            let r = visit(n, parent_role, path, bundle_id, w);
            &&& in_order(r.elements)
            &&& r.cap == Some(Cap::Depth) ==> reaches(n, MAX_DEPTH + 1 - path.len())
            &&& r.cap == Some(Cap::Nodes) ==> r.elements.len() == MAX_NODES && misses(
                n,
                path,
                r.elements,
            )
        }),
    decreases n, 0int,
{
    let r = visit(n, parent_role, path, bundle_id, w);
    let here = Seq::<u32>::empty();
    if path.len() > MAX_DEPTH {
        assert(descend(n, here) is Ok && here.len() == 0);
    } else if w.elements.len() >= MAX_NODES {
        assert(descend(n, here) is Ok);
        assert(path + here =~= path);
        if lists_path(w.elements, path) {
            let j = choose|j: int|
                0 <= j < w.elements.len() && (#[trigger] w.elements[j]).ax_path == path;
            lemma_not_before_itself(path);
        }
    } else {
        let e = element_of(n, parent_role, path, bundle_id, w.elements);
        let after = Walked { elements: w.elements.push(e), cap: None };
        assert(in_order(after.elements));
        match n.children {
            Some(c) => {
                assert(decreases_to!(n => n.children));
                assert(decreases_to!(n.children => n.children->Some_0));
                assert(decreases_to!(c => c@));
                assert forall|a: int| 0 <= a < after.elements.len() implies comes_before(
                    (#[trigger] after.elements[a]).ax_path,
                    path.push(0),
                ) by {
                    if a < w.elements.len() {
                        assert(after.elements[a] == w.elements[a]);
                        lemma_before_longer(w.elements[a].ax_path, path, 0);
                    } else {
                        let l = path.len() as int;
                        assert(path.take(l) =~= path.push(0).take(l));
                    }
                }
                lemma_visit_all_order(c@, 0, role_of(n), path, bundle_id, after);
                if r.cap == Some(Cap::Depth) {
                    let k = choose|k: int|
                        0 <= k < c@.len() && k <= MAX_NODES && #[trigger] reaches(
                            c@[k],
                            MAX_DEPTH - path.len(),
                        );
                    let steps = choose|steps: Seq<u32>| #[trigger]
                        descend(c@[k], steps) is Ok && steps.len() == MAX_DEPTH - path.len();
                    let all = seq![k as u32] + steps;
                    assert(all.drop_first() =~= steps);
                    assert(descend(n, all) is Ok);
                }
                if r.cap == Some(Cap::Nodes) {
                    let k = choose|k: int|
                        0 <= k < c@.len() && k <= MAX_NODES && #[trigger] misses(
                            c@[k],
                            path.push(k as u32),
                            r.elements,
                        );
                    let steps = choose|steps: Seq<u32>| #[trigger]
                        descend(c@[k], steps) is Ok && !lists_path(
                            r.elements,
                            path.push(k as u32) + steps,
                        );
                    let all = seq![k as u32] + steps;
                    assert(all.drop_first() =~= steps);
                    assert(path + all =~= path.push(k as u32) + steps);
                    assert(descend(n, all) is Ok);
                }
            },
            None => {},
        }
    }
}

proof fn lemma_visit_all_order(
    children: Seq<AxNode>,
    i: int,
    parent_role: Seq<char>,
    path: Seq<u32>,
    bundle_id: Seq<char>,
    w: Walked,
)
    requires
        w.elements.len() <= MAX_NODES,
        0 <= i <= w.elements.len(),
        w.cap is None,
        path.len() <= MAX_DEPTH,
        in_order(w.elements),
        all_before(w.elements, path.push(i as u32)),
    ensures
        ({
            let r = visit_all(children, i, parent_role, path, bundle_id, w);
            &&& in_order(r.elements)
            &&& r.cap == Some(Cap::Depth) ==> exists|k: int|
                0 <= k < children.len() && k <= MAX_NODES && #[trigger] reaches(
                    children[k],
                    MAX_DEPTH - path.len(),
                )
            &&& r.cap == Some(Cap::Nodes) ==> r.elements.len() == MAX_NODES && exists|k: int|
                0 <= k < children.len() && k <= MAX_NODES && #[trigger] misses(
                    children[k],
                    path.push(k as u32),
                    r.elements,
                )
        }),
    decreases children, children.len() - i,
{
    if i < children.len() {
        let step = i as u32;
        let mid = visit(children[i], parent_role, path.push(step), bundle_id, w);
        lemma_visit(children[i], parent_role, path.push(step), bundle_id, w);
        lemma_visit_order(children[i], parent_role, path.push(step), bundle_id, w);
        if mid.cap is None {
            let next = (i + 1) as u32;
            assert forall|a: int| 0 <= a < mid.elements.len() implies comes_before(
                (#[trigger] mid.elements[a]).ax_path,
                path.push(next),
            ) by {
                let e = mid.elements[a];
                if a < w.elements.len() {
                    assert(e == w.elements[a]);
                    lemma_before_next(e.ax_path, path, step, next);
                } else {
                    let l = path.len() as int;
                    assert(found_below(children[i], path.push(step), bundle_id, e, a));
                    assert(e.ax_path.take(l + 1)[l] == step);
                    assert(e.ax_path.take(l) =~= path.push(next).take(l)) by {
                        assert forall|x: int| 0 <= x < l implies e.ax_path[x] == path[x] by {
                            assert(e.ax_path.take(l + 1)[x] == path.push(step)[x]);
                        }
                    }
                }
            }
            lemma_visit_all_order(children, i + 1, parent_role, path, bundle_id, mid);
        } else {
            assert(visit_all(children, i + 1, parent_role, path, bundle_id, mid) == mid);
            match mid.cap {
                Some(Cap::Depth) => {
                    assert(MAX_DEPTH + 1 - path.push(step).len() == MAX_DEPTH - path.len());
                    assert(reaches(children[i], MAX_DEPTH - path.len()));
                },
                Some(Cap::Nodes) => {
                    assert(misses(children[i], path.push(i as u32), mid.elements));
                },
                None => {},
            }
        }
    }
}

/// The elements stand in the order of the tree: a node before what is below it, and what is
/// below it before the next one. So no node is taken in twice.
pub proof fn walks_go_in_the_order_of_the_tree(
    roots: Seq<AxNode>,
    bundle_id: Seq<char>,
    a: int,
    b: int,
)
    requires
        0 <= a < b < walk_of(roots, bundle_id).elements.len(),
    ensures
        comes_before(
            walk_of(roots, bundle_id).elements[a].ax_path,
            walk_of(roots, bundle_id).elements[b].ax_path,
        ),
        walk_of(roots, bundle_id).elements[a].ax_path != walk_of(
            roots,
            bundle_id,
        ).elements[b].ax_path,
{
    let none = Seq::<u32>::empty();
    let w = Walked { elements: Seq::<ElementView>::empty(), cap: None };
    lemma_visit_all_order(roots, 0, "AXApplication"@, none, bundle_id, w);
    lemma_not_before_itself(walk_of(roots, bundle_id).elements[a].ax_path);
}

/// A walk says that it was cut off only where it was: by depth where some node stands deeper
/// than sixty-four levels, and by number where five thousand elements are taken in and some
/// node is not among them.
pub proof fn walks_are_cut_off_only_at_a_cap(roots: Seq<AxNode>, bundle_id: Seq<char>)
    ensures
        ({
            let r = walk_of(roots, bundle_id);
            match cap_name(r.cap) {
                Some(name) => {
                    ||| name == "depth"@ && exists|path: Seq<u32>| #[trigger]
                        located(roots, path) is Ok && path.len() == 65
                    ||| name == "nodes"@ && r.elements.len() == 5_000 && exists|path: Seq<u32>|
                        #[trigger] located(roots, path) is Ok && path.len() > 0 && !lists_path(
                            r.elements,
                            path,
                        )
                },
                None => r.cap is None,
            }
        }),
{
    let none = Seq::<u32>::empty();
    let w = Walked { elements: Seq::<ElementView>::empty(), cap: None };
    let r = walk_of(roots, bundle_id);
    lemma_visit_all_order(roots, 0, "AXApplication"@, none, bundle_id, w);
    if r.cap == Some(Cap::Depth) {
        let k = choose|k: int|
            0 <= k < roots.len() && k <= MAX_NODES && #[trigger] reaches(
                roots[k],
                MAX_DEPTH - none.len(),
            );
        let steps = choose|steps: Seq<u32>| #[trigger]
            descend(roots[k], steps) is Ok && steps.len() == MAX_DEPTH - none.len();
        let all = seq![k as u32] + steps;
        assert(all.drop_first() =~= steps);
        assert(located(roots, all) is Ok);
    } else if r.cap == Some(Cap::Nodes) {
        let k = choose|k: int|
            0 <= k < roots.len() && k <= MAX_NODES && #[trigger] misses(
                roots[k],
                none.push(k as u32),
                r.elements,
            );
        let steps = choose|steps: Seq<u32>| #[trigger]
            descend(roots[k], steps) is Ok && !lists_path(r.elements, none.push(k as u32) + steps);
        let all = seq![k as u32] + steps;
        assert(all.drop_first() =~= steps);
        assert(none.push(k as u32) + steps =~= all);
        assert(located(roots, all) is Ok);
    }
}

/// The tree of a snapshot shows each element in its place, by label, role, name and whether it
/// can be acted upon.
pub proof fn trees_show_each_element(elements: Seq<ElementView>, i: int)
    requires
        0 <= i < elements.len(),
    ensures
        ({
            &&& tree_view(elements) matches JsonView::Array(items)
            &&& items.len() == elements.len()
            &&& items[i].member("ref"@) == Some(JsonView::String(elements[i].element_ref))
            &&& items[i].member("role"@) == Some(JsonView::String(elements[i].role))
            &&& items[i].member("name"@) == Some(JsonView::String(elements[i].name))
            &&& items[i].member("interactable"@) == Some(JsonView::Bool(elements[i].interactable))
        }),
{
    reveal_strlit("ref");
    reveal_strlit("role");
    reveal_strlit("name");
    reveal_strlit("interactable");
    assert("ref"@.len() == 3 && "role"@.len() == 4 && "name"@.len() == 4
        && "interactable"@.len() == 12 && "role"@[0] == 'r' && "name"@[0] == 'n');
    let m = (tree_view(elements)->Array_0)[i]->Object_0;
    assert(m[0].0 == "ref"@ && m[1].0 == "role"@ && m[2].0 == "name"@
        && m[3].0 == "interactable"@);
    lemma_member_at(m, "ref"@, 0);
    lemma_member_at(m, "role"@, 1);
    lemma_member_at(m, "name"@, 2);
    lemma_member_at(m, "interactable"@, 3);
}

} // verus!
