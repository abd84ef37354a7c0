//! Decisions behind listing applications, clicking, typing and running scripts.
//!
//! Nothing here brings an application to the front: elements are pressed, values are set,
//! keys go to a process, and scripts that would activate an application are refused.
use vstd::prelude::*;

use crate::ax_find::{descendants, find_by_title, first_titled, none_titled};
use crate::ax_walk::{AxNode, AX_SUCCESS};
use crate::broker_client::{opt_text, texts};
use crate::error::{signed_decimal, signed_text};
use crate::json::{Json, JsonView};
use crate::text::{
    all_ascii, ascii_lowered, contains_text, join2, join3, join_texts, joined,
    lemma_lowered_start, lossy, lossy_text, lower_text, lowered, occurs_at, repeated, same_text, starts_with_text, text_contains, text_starts_with, trim_start_text, trim_text,
    trimmed, trimmed_start,
};
use crate::types::{
    debug_str, debug_text, no_area, AppElement, AppHandle, NativeControlError,
};

verus! {

/// What the workspace says of a running application.
#[derive(Debug)]
pub struct RunningApp {
    pub bundle_id: Option<String>,
    pub pid: i32,
    pub name: Option<String>,
}

/// What an application handle is.
pub struct HandleView {
    pub bundle_id: Seq<char>,
    pub pid: i32,
    pub name: Seq<char>,
    pub has_focus: bool,
}

impl View for AppHandle {
    type V = HandleView;

    open spec fn view(&self) -> HandleView {
        HandleView {
            bundle_id: self.bundle_id@,
            pid: self.pid,
            name: self.name@,
            has_focus: self.has_focus,
        }
    }
}

/// The applications that have a bundle id, in their order. One without a name goes by its
/// bundle id.
pub open spec fn handles(apps: Seq<RunningApp>, frontmost: Option<i32>) -> Seq<HandleView>
    decreases apps.len(),
{
    if apps.len() == 0 {
        Seq::empty()
    } else {
        let rest = handles(apps.drop_last(), frontmost);
        let app = apps.last();
        match app.bundle_id {
            Some(id) => rest.push(
                HandleView {
                    bundle_id: id@,
                    pid: app.pid,
                    name: match app.name {
                        Some(n) => n@,
                        None => id@,
                    },
                    has_focus: frontmost == Some(app.pid),
                },
            ),
            None => rest,
        }
    }
}

/// Lists the applications that have a bundle id.
pub fn list_apps(apps: &Vec<RunningApp>, frontmost: Option<i32>) -> (out: Vec<AppHandle>)
    ensures
        out@.map_values(|h: AppHandle| h@) == handles(apps@, frontmost),
{
    let mut out: Vec<AppHandle> = Vec::new();
    let mut i: usize = 0;
    assert(apps@.take(0) =~= Seq::<RunningApp>::empty());
    assert(out@.map_values(|h: AppHandle| h@) =~= handles(apps@.take(0), frontmost));
    while i < apps.len()
        invariant
            i <= apps@.len(),
            out@.map_values(|h: AppHandle| h@) == handles(apps@.take(i as int), frontmost),
        decreases apps@.len() - i,
    {
        let app = &apps[i];
        let ghost before = out@;
        assert(apps@.take(i + 1).drop_last() =~= apps@.take(i as int));
        match &app.bundle_id {
            Some(id) => {
                let name = match &app.name {
                    Some(n) => n.clone(),
                    None => id.clone(),
                };
                let has_focus = match frontmost {
                    Some(p) => p == app.pid,
                    None => false,
                };
                out.push(AppHandle { bundle_id: id.clone(), pid: app.pid, name, has_focus });
                assert(out@.map_values(|h: AppHandle| h@) =~= before.map_values(
                    |h: AppHandle| h@,
                ).push(out@.last()@));
            },
            None => {},
        }
        i += 1;
    }
    assert(apps@.take(apps@.len() as int) =~= apps@);
    out
}

/// The `i`-th application has that bundle id, and none before it.
pub open spec fn first_bundle(apps: Seq<RunningApp>, bundle_id: Seq<char>, i: int) -> bool {
    &&& 0 <= i < apps.len()
    &&& opt_text(apps[i].bundle_id) == Some(bundle_id)
    &&& forall|k: int|
        0 <= k < i ==> opt_text((#[trigger] apps[k]).bundle_id) != Some(bundle_id)
}

/// The process of the application with that bundle id.
pub fn resolve_pid(apps: &Vec<RunningApp>, bundle_id: &str) -> (r: Result<i32, NativeControlError>)
    ensures
        match r {
            Ok(pid) => exists|i: int| #[trigger]
                first_bundle(apps@, bundle_id@, i) && apps@[i].pid == pid,
            Err(NativeControlError::AppNotFound { bundle_id: id }) => id@ == bundle_id@ && forall|
                k: int,
            |
                0 <= k < apps@.len() ==> opt_text((#[trigger] apps@[k]).bundle_id) != Some(
                    bundle_id@,
                ),
            Err(_) => false,
        },
{
    let mut i: usize = 0;
    while i < apps.len()
        invariant
            i <= apps@.len(),
            forall|k: int|
                0 <= k < i ==> opt_text((#[trigger] apps@[k]).bundle_id) != Some(bundle_id@),
        decreases apps@.len() - i,
    {
        match &apps[i].bundle_id {
            Some(id) => {
                if same_text(id.as_str(), bundle_id) {
                    assert(first_bundle(apps@, bundle_id@, i as int));
                    return Ok(apps[i].pid);
                }
            },
            None => {},
        }
        i += 1;
    }
    Err(NativeControlError::AppNotFound { bundle_id: bundle_id.to_owned() })
}

/// The `i`-th application is the first one with a bundle id that runs as that process.
pub open spec fn first_process(apps: Seq<RunningApp>, pid: i32, i: int) -> bool {
    &&& 0 <= i < apps.len()
    &&& apps[i].pid == pid
    &&& apps[i].bundle_id is Some
    &&& forall|k: int|
        0 <= k < i ==> !((#[trigger] apps[k]).pid == pid && apps[k].bundle_id is Some)
}

/// The bundle id of the application that runs as that process.
pub fn resolve_bundle_id(apps: &Vec<RunningApp>, pid: i32) -> (r: Result<
    String,
    NativeControlError,
>)
    ensures
        match r {
            Ok(id) => exists|i: int| #[trigger]
                first_process(apps@, pid, i) && opt_text(apps@[i].bundle_id) == Some(id@),
            Err(NativeControlError::AppNotFound { bundle_id }) => bundle_id@ == "pid:"@
                + signed_decimal(pid as int) && forall|k: int|
                0 <= k < apps@.len() ==> !((#[trigger] apps@[k]).pid == pid
                    && apps@[k].bundle_id is Some),
            Err(_) => false,
        },
{
    let mut i: usize = 0;
    while i < apps.len()
        invariant
            i <= apps@.len(),
            forall|k: int|
                0 <= k < i ==> !((#[trigger] apps@[k]).pid == pid && apps@[k].bundle_id is Some),
        decreases apps@.len() - i,
    {
        if apps[i].pid == pid {
            match &apps[i].bundle_id {
                Some(id) => {
                    assert(first_process(apps@, pid, i as int));
                    return Ok(id.clone());
                },
                None => {},
            }
        }
        i += 1;
    }
    let n = signed_text(pid as i64);
    Err(NativeControlError::AppNotFound { bundle_id: join2("pid:", n.as_str()) })
}

/// Whether an element can be acted upon: one without area cannot.
pub fn require_area(elem: &AppElement) -> (r: Result<(), NativeControlError>)
    ensures
        match r {
            Ok(_) => !no_area(elem.bbox),
            Err(NativeControlError::NotActionable { r: what, reason }) => no_area(elem.bbox)
                && what@ == elem.element_ref@ && reason@ == "zero area"@,
            Err(_) => false,
        },
{
    if elem.bbox.is_zero_area() {
        Err(
            NativeControlError::NotActionable {
                r: elem.element_ref.clone(),
                reason: "zero area",
            },
        )
    } else {
        Ok(())
    }
}

/// How a text gets into an element.
#[derive(Clone, Copy, Debug, PartialEq, Eq, Structural)]
pub enum TypeStep {
    /// Set the value of the element.
    SetValue,
    /// Focus the element and send the keys to its process.
    SendKeys,
    /// It is there.
    Done,
}

/// How to begin: by setting the value, where the element says that it can be set.
pub fn type_begin(settable_code: i32, settable: bool) -> (s: TypeStep)
    ensures
        s == (if settable_code == AX_SUCCESS && settable {
            TypeStep::SetValue
        } else {
            TypeStep::SendKeys
        }),
{
    if settable_code == AX_SUCCESS && settable {
        TypeStep::SetValue
    } else {
        TypeStep::SendKeys
    }
}

/// How to go on after the value was set or could not be set after all.
pub fn type_after_set(set_code: i32) -> (s: TypeStep)
    ensures
        s == (if set_code == AX_SUCCESS {
            TypeStep::Done
        } else {
            TypeStep::SendKeys
        }),
{
    if set_code == AX_SUCCESS {
        TypeStep::Done
    } else {
        TypeStep::SendKeys
    }
}

/// The value to set: the text behind what is there, or the text alone.
pub fn typed_value(current: Option<String>, text: &str, clear_first: bool) -> (s: String)
    ensures
        s@ == (if clear_first || current is None {
            text@
        } else {
            current->Some_0@ + text@
        }),
{
    if clear_first {
        return text.to_owned();
    }
    match current {
        Some(c) => join2(c.as_str(), text),
        None => text.to_owned(),
    }
}

/// A node and its descendants, the last child with its own first.
pub open spec fn from_the_last(n: AxNode) -> Seq<AxNode>
    decreases n, 0int,
{
    match n.children {
        Some(c) => seq![n] + last_of(c@, c@.len() as int),
        None => seq![n],
    }
}

/// The first `i` children with their descendants, the last of them first.
pub open spec fn last_of(children: Seq<AxNode>, i: int) -> Seq<AxNode>
    decreases children, i,
{
    if i <= 0 || i > children.len() {
        Seq::empty()
    } else {
        from_the_last(children[i - 1]) + last_of(children, i - 1)
    }
}

/// What is still to be visited, the top of the stack first.
spec fn pending(stack: Seq<&AxNode>) -> Seq<AxNode>
    decreases stack.len(),
{
    if stack.len() == 0 {
        Seq::empty()
    } else {
        from_the_last(*stack.last()) + pending(stack.drop_last())
    }
}

pub open spec fn is_menu(n: AxNode) -> bool {
    n.role matches Some(r) && r@ == "AXMenu"@
}

/// The `i`-th node is a menu, and none before it.
pub open spec fn first_menu(nodes: Seq<AxNode>, i: int) -> bool {
    &&& 0 <= i < nodes.len()
    &&& is_menu(nodes[i])
    &&& forall|k: int| 0 <= k < i ==> !is_menu(#[trigger] nodes[k])
}

/// The menu at or below a node that comes first when the last child goes first.
pub fn find_popup_menu_root<'a>(n: &'a AxNode) -> (r: Option<&'a AxNode>)
    ensures
        match r {
            Some(m) => exists|i: int| #[trigger]
                first_menu(from_the_last(*n), i) && from_the_last(*n)[i] == *m,
            None => forall|k: int|
                0 <= k < from_the_last(*n).len() ==> !is_menu(#[trigger] from_the_last(*n)[k]),
        },
{
    let mut stack: Vec<&'a AxNode> = Vec::new();
    stack.push(n);
    let ghost all = from_the_last(*n);
    let ghost mut seen = Seq::<AxNode>::empty();
    proof {
        assert(stack@.drop_last() =~= Seq::<&AxNode>::empty());
        assert(pending(stack@.drop_last()) =~= Seq::<AxNode>::empty());
        assert(pending(stack@) =~= all);
    }
    while stack.len() > 0
        invariant
            all == from_the_last(*n),
            all =~= seen + pending(stack@),
            forall|k: int| 0 <= k < seen.len() ==> !is_menu(#[trigger] seen[k]),
        decreases pending(stack@).len(),
    {
        let ghost before = stack@;
        let current = match stack.pop() {
            Some(c) => c,
            None => {
                return None;
            },
        };
        let ghost rest = pending(stack@);
        assert(stack@ =~= before.drop_last());
        assert(pending(before) == from_the_last(*current) + rest);
        assert(all[seen.len() as int] == *current);
        match &current.role {
            Some(role) => {
                if same_text(role.as_str(), "AXMenu") {
                    assert forall|k: int| 0 <= k < seen.len() implies !is_menu(
                        #[trigger] all[k],
                    ) by {
                        assert(all[k] == seen[k]);
                    }
                    assert(first_menu(all, seen.len() as int));
                    return Some(current);
                }
            },
            None => {},
        }
        match &current.children {
            Some(kids) => {
                let mut i: usize = 0;
                assert(pending(stack@) =~= last_of(kids@, 0) + rest);
                while i < kids.len()
                    invariant
                        i <= kids@.len(),
                        pending(stack@) == last_of(kids@, i as int) + rest,
                    decreases kids@.len() - i,
                {
                    let ghost now = stack@;
                    stack.push(&kids[i]);
                    assert(stack@.drop_last() =~= now);
                    i += 1;
                    assert(pending(stack@) =~= last_of(kids@, i as int) + rest);
                }
            },
            None => {},
        }
        proof {
            assert(all =~= seen.push(*current) + pending(stack@));
            seen = seen.push(*current);
        }
    }
    assert(all =~= seen);
    None
}

/// The node that the titles lead to: for each title the first descendant that has it.
pub open spec fn descends_to(root: AxNode, path: Seq<Seq<char>>, target: AxNode) -> bool
    decreases path.len(),
{
    if path.len() == 0 {
        root == target
    } else {
        exists|i: int| #[trigger]
            first_titled(descendants(root), path[0], i) && descends_to(
                descendants(root)[i],
                path.drop_first(),
                target,
            )
    }
}

/// Some title leads nowhere.
pub open spec fn descends_nowhere(root: AxNode, path: Seq<Seq<char>>) -> bool
    decreases path.len(),
{
    path.len() > 0 && (none_titled(descendants(root), path[0]) || exists|i: int| #[trigger]
        first_titled(descendants(root), path[0], i) && descends_nowhere(
            descendants(root)[i],
            path.drop_first(),
        ))
}

/// Follows titles down a menu, each to the first descendant that has it.
pub fn descend_menu_path<'a>(root: &'a AxNode, path: &Vec<String>) -> (r: Option<&'a AxNode>)
    ensures
        match r {
            Some(m) => descends_to(*root, texts(path@), *m),
            None => descends_nowhere(*root, texts(path@)),
        },
{
    assert(texts(path@).skip(0) =~= texts(path@));
    descend_from(root, path, 0)
}

fn descend_from<'a>(root: &'a AxNode, path: &Vec<String>, at: usize) -> (r: Option<&'a AxNode>)
    requires
        at <= path@.len(),
    ensures
        match r {
            Some(m) => descends_to(*root, texts(path@).skip(at as int), *m),
            None => descends_nowhere(*root, texts(path@).skip(at as int)),
        },
    decreases path@.len() - at,
{
    let ghost left = texts(path@).skip(at as int);
    if at == path.len() {
        return Some(root);
    }
    assert(left[0] == path@[at as int]@);
    assert(left.drop_first() =~= texts(path@).skip(at + 1));
    match find_by_title(root, path[at].as_str()) {
        Some(child) => descend_from(child, path, at + 1),
        None => None,
    }
}

/// What a text list looks like in messages.
pub open spec fn debug_list(parts: Seq<Seq<char>>) -> Seq<char> {
    "["@ + joined(parts.map_values(|s: Seq<char>| debug_text(s)), ", "@) + "]"@
}

fn debug_texts(parts: &Vec<String>) -> (r: String)
    ensures
        r@ == debug_list(texts(parts@)),
{
    let mut quoted: Vec<String> = Vec::new();
    let mut i: usize = 0;
    while i < parts.len()
        invariant
            i <= parts@.len(),
            quoted@.len() == i,
            forall|k: int| 0 <= k < i ==> (#[trigger] quoted@[k])@ == debug_text(parts@[k]@),
        decreases parts@.len() - i,
    {
        quoted.push(debug_str(parts[i].as_str()));
        i += 1;
    }
    assert(quoted@.map_values(|s: String| s@) =~= texts(parts@).map_values(
        |s: Seq<char>| debug_text(s),
    ));
    let inside = join_texts(&quoted, ", ");
    join3("[", inside.as_str(), "]")
}

/// The item of an open popup menu that the titles lead to, from the element that has the
/// focus.
pub fn popup_menu_item<'a>(focused: Option<&'a AxNode>, path: &Vec<String>) -> (r: Result<
    &'a AxNode,
    NativeControlError,
>)
    ensures
        match r {
            Ok(item) => path@.len() > 0 && focused is Some && exists|i: int| #[trigger]
                first_menu(from_the_last(*focused->Some_0), i) && descends_to(
                    from_the_last(*focused->Some_0)[i],
                    texts(path@),
                    *item,
                ),
            Err(NativeControlError::Internal(msg)) => path@.len() == 0 && msg@
                == "empty menu path"@,
            Err(NativeControlError::NotActionable { r: what, reason }) => path@.len() > 0 && what@
                == joined(texts(path@), " > "@) && match focused {
                None => reason@ == "no focused UI element for popup menu traversal"@,
                Some(n) => reason@ == "focused element is not inside an AXMenu popup"@ && forall|
                    k: int,
                |
                    0 <= k < from_the_last(*n).len() ==> !is_menu(#[trigger] from_the_last(*n)[k]),
            },
            Err(NativeControlError::RefStale { r: what }) => path@.len() > 0 && what@
                == "menu path "@ + debug_list(texts(path@)) && focused is Some && exists|
                i: int,
            | #[trigger]
                first_menu(from_the_last(*focused->Some_0), i) && descends_nowhere(
                    from_the_last(*focused->Some_0)[i],
                    texts(path@),
                ),
            Err(_) => false,
        },
{
    if path.len() == 0 {
        return Err(NativeControlError::Internal("empty menu path".to_owned()));
    }
    let n = match focused {
        Some(n) => n,
        None => {
            return Err(
                NativeControlError::NotActionable {
                    r: join_texts(path, " > "),
                    reason: "no focused UI element for popup menu traversal",
                },
            );
        },
    };
    let root = match find_popup_menu_root(n) {
        Some(root) => root,
        None => {
            return Err(
                NativeControlError::NotActionable {
                    r: join_texts(path, " > "),
                    reason: "focused element is not inside an AXMenu popup",
                },
            );
        },
    };
    match descend_menu_path(root, path) {
        Some(item) => Ok(item),
        None => {
            let shown = debug_texts(path);
            Err(NativeControlError::RefStale { r: join2("menu path ", shown.as_str()) })
        },
    }
}

/// The word that scripts may not use.
pub const ACTIVATE: &'static str = "activate";

/// The script uses the word, in whatever case.
pub open spec fn activates(script: Seq<char>) -> bool {
    contains_text(lowered(script), ACTIVATE@)
}

/// What is said of a script that uses the word.
pub const ACTIVATE_REASON: &'static str = "AppleScript contains the word 'activate'; remove it to preserve focus-no-steal";

/// An ASCII text in which every `v` is followed by an `e`, so that it cannot hold the word.
pub open spec fn is_harmless(s: Seq<char>) -> bool {
    forall|i: int|
        0 <= i < s.len() ==> {
            &&& #[trigger] s[i] <= '\u{7f}'
            &&& s[i] == 'v' || s[i] == 'V' ==> i + 1 < s.len() && s[i + 1] == 'e'
        }
}

/// The script spells the word in ASCII letters of either case, whatever else it holds.
pub open spec fn spells_activate(script: Seq<char>) -> bool {
    contains_text(ascii_lowered(script), ACTIVATE@)
}

/// What spells the word in ASCII letters holds it in lower case.
pub proof fn lemma_spelled(script: Seq<char>, low: Seq<char>)
    requires
        spells_activate(script),
        forall|i: int, j: int|
            0 <= i <= j <= script.len() && all_ascii(#[trigger] script.subrange(i, j))
                ==> contains_text(low, ascii_lowered(script.subrange(i, j))),
    ensures
        contains_text(low, ACTIVATE@),
{
    reveal_strlit("activate");
    let i = choose|i: int| #[trigger] occurs_at(ascii_lowered(script), ACTIVATE@, i);
    let word = script.subrange(i, i + 8);
    assert(ascii_lowered(word) =~= ascii_lowered(script).subrange(i, i + 8));
    assert forall|k: int| 0 <= k < word.len() implies #[trigger] word[k] <= '\u{7f}' by {
        assert(ascii_lowered(word)[k] == ACTIVATE@[k]);
    }
}

/// A harmless text does not use the word.
pub proof fn lemma_harmless(s: Seq<char>)
    requires
        is_harmless(s),
    ensures
        !activates(s),
{
    reveal_strlit("activate");
    let low = ascii_lowered(s);
    assert forall|i: int| !#[trigger] occurs_at(low, ACTIVATE@, i) by {
        if occurs_at(low, ACTIVATE@, i) {
            let part = low.subrange(i, i + 8);
            assert(part[4] == 'v' && part[5] == 'a');
            assert(low[i + 4] == 'v' && low[i + 5] == 'a');
            assert(s[i + 4] == 'v' || s[i + 4] == 'V');
        }
    }
}

/// Harmless texts stay harmless when they are put together.
pub proof fn lemma_harmless_join(a: Seq<char>, b: Seq<char>)
    requires
        is_harmless(a),
        is_harmless(b),
    ensures
        is_harmless(a + b),
{
    let s = a + b;
    assert forall|i: int| 0 <= i < s.len() implies {
        &&& #[trigger] s[i] <= '\u{7f}'
        &&& s[i] == 'v' || s[i] == 'V' ==> i + 1 < s.len() && s[i + 1] == 'e'
    } by {
        if i < a.len() {
            assert(s[i] == a[i]);
        } else {
            assert(s[i] == b[i - a.len()]);
        }
    }
}

/// A harmless text is harmless however often it is repeated.
pub proof fn lemma_harmless_repeated(s: Seq<char>, times: nat)
    requires
        is_harmless(s),
    ensures
        is_harmless(repeated(s, times)),
    decreases times,
{
    if times > 0 {
        lemma_harmless_repeated(s, (times - 1) as nat);
        lemma_harmless_join(repeated(s, (times - 1) as nat), s);
    }
}

/// Refuses scripts that would take the focus away from the user.
pub fn validate_no_activate(applescript: &str) -> (r: Result<(), NativeControlError>)
    ensures
        match r {
            Ok(_) => !activates(applescript@),
            Err(NativeControlError::ActivateForbidden { reason }) => activates(applescript@)
                && reason@ == ACTIVATE_REASON@,
            Err(_) => false,
        },
        spells_activate(applescript@) ==> r is Err,
{
    let lower = lower_text(applescript);
    proof {
        if spells_activate(applescript@) {
            lemma_spelled(applescript@, lower@);
        }
    }
    if text_contains(lower.as_str(), ACTIVATE) {
        return Err(NativeControlError::ActivateForbidden { reason: ACTIVATE_REASON });
    }
    Ok(())
}

/// The script as it is run: one that does not begin with `tell` is told to the application.
pub open spec fn wrapped(bundle_id: Seq<char>, body: Seq<char>) -> Seq<char> {
    if starts_with_text(lowered(trimmed_start(body)), "tell "@) {
        body
    } else {
        "tell application id \""@ + bundle_id + "\"\n"@ + body + "\nend tell"@
    }
}

/// A script that begins with `tell` is run as it is.
pub proof fn lemma_told(bundle_id: Seq<char>, body: Seq<char>)
    requires
        starts_with_text(body, "tell "@),
    ensures
        wrapped(bundle_id, body) == body,
{
    reveal_strlit("tell ");
    assert(body.take(5) =~= "tell "@);
    assert(body[0] == body.take(5)[0]);
    assert(trimmed_start(body) == body);
    assert(ascii_lowered(body.take(5)) =~= "tell "@);
    lemma_lowered_start(body, 5);
}

/// A script is never wrapped twice: wrapping one that was made to run changes nothing,
/// whichever application it is for.
pub proof fn wrapping_again_changes_nothing(
    bundle_id: Seq<char>,
    other_id: Seq<char>,
    body: Seq<char>,
)
    ensures
        wrapped(other_id, wrapped(bundle_id, body)) == wrapped(bundle_id, body),
{
    let script = wrapped(bundle_id, body);
    if script != body {
        reveal_strlit("tell ");
        reveal_strlit("tell application id \"");
        assert(script.subrange(0, 5) =~= "tell "@);
        lemma_told(other_id, script);
    } else if !starts_with_text(lowered(trimmed_start(body)), "tell "@) {
        reveal_strlit("tell application id \"");
        assert("tell application id \""@.len() + body.len() <= script.len());
    }
}

/// A harmless script that begins with `tell` is neither refused nor changed.
pub proof fn lemma_plain_script(bundle_id: Seq<char>, body: Seq<char>)
    requires
        is_harmless(body),
        starts_with_text(body, "tell "@),
    ensures
        !activates(body),
        wrapped(bundle_id, body) == body,
{
    lemma_harmless(body);
    lemma_told(bundle_id, body);
}

/// Makes the script that is run.
pub fn wrap_script(bundle_id: &str, body: &str) -> (s: String)
    ensures
        s@ == wrapped(bundle_id@, body@),
{
    let start = trim_start_text(body);
    let lower = lower_text(start.as_str());
    if text_starts_with(lower.as_str(), "tell ") {
        body.to_owned()
    } else {
        let head = join3("tell application id \"", bundle_id, "\"\n");
        join3(head.as_str(), body, "\nend tell")
    }
}

/// The script to run for an application, unless it would activate one.
pub fn eval_script(bundle_id: &str, applescript: &str) -> (r: Result<String, NativeControlError>)
    ensures
        match r {
            Ok(s) => !activates(applescript@) && s@ == wrapped(bundle_id@, applescript@),
            Err(NativeControlError::ActivateForbidden { reason }) => activates(applescript@)
                && reason@ == ACTIVATE_REASON@,
            Err(_) => false,
        },
        spells_activate(applescript@) ==> r is Err,
{
    match validate_no_activate(applescript) {
        Ok(_) => Ok(wrap_script(bundle_id, applescript)),
        Err(e) => Err(e),
    }
}

/// What a finished process left behind.
#[derive(Debug)]
pub struct ProcessOutput {
    pub success: bool,
    pub code: Option<i32>,
    pub stdout: Vec<u8>,
    pub stderr: Vec<u8>,
}

/// What an exit code looks like in messages.
pub open spec fn shown_code(code: Option<i32>) -> Seq<char> {
    match code {
        Some(c) => "Some("@ + signed_decimal(c as int) + ")"@,
        None => "None"@,
    }
}

pub fn show_code(code: Option<i32>) -> (s: String)
    ensures
        s@ == shown_code(code),
{
    match code {
        Some(c) => {
            let n = signed_text(c as i64);
            join3("Some(", n.as_str(), ")")
        },
        None => "None".to_owned(),
    }
}

/// What a failed process is reported with: its error output, or its exit code where it
/// wrote none.
pub open spec fn failure_text(label: Seq<char>, output: ProcessOutput) -> Seq<char> {
    let stderr = trimmed(lossy(output.stderr@));
    if stderr.len() == 0 {
        label + " exit "@ + shown_code(output.code)
    } else {
        stderr
    }
}

/// What a process printed, or why it failed.
pub fn script_outcome(label: &'static str, output: &ProcessOutput) -> (r: Result<
    String,
    NativeControlError,
>)
    ensures
        match r {
            Ok(s) => output.success && s@ == trimmed(lossy(output.stdout@)),
            Err(NativeControlError::AppleScript { msg }) => !output.success && msg@ == failure_text(
                label@,
                *output,
            ),
            Err(_) => false,
        },
{
    if !output.success {
        let raw = lossy_text(output.stderr.as_slice());
        let stderr = trim_text(raw.as_str());
        let msg = if stderr.as_str().is_empty() {
            let code = show_code(output.code);
            join3(label, " exit ", code.as_str())
        } else {
            stderr
        };
        return Err(NativeControlError::AppleScript { msg });
    }
    let raw = lossy_text(output.stdout.as_slice());
    Ok(trim_text(raw.as_str()))
}

/// What a script returned: a JSON value where its output is one, else the output itself.
pub fn script_value(stdout: String, parsed: Option<Json>) -> (j: Json)
    ensures
        j@ == (match parsed {
            Some(v) => v@,
            None => JsonView::String(stdout@),
        }),
{
    match parsed {
        Some(v) => v,
        None => Json::text(stdout.as_str()),
    }
}

} // verus!
