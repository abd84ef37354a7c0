//! Names of log directories.
use vstd::prelude::*;

use crate::text::{chars_of, join2};
use crate::types::{debug_str, debug_text};

verus! {

/// Letters, digits, hyphens and underscores, all ASCII.
pub open spec fn plain_char(c: char) -> bool {
    ||| 'a' <= c <= 'z'
    ||| 'A' <= c <= 'Z'
    ||| '0' <= c <= '9'
    ||| c == '-'
    ||| c == '_'
}

/// A name that can stand in a path without leading out of it.
pub open spec fn plain_name(s: Seq<char>) -> bool {
    s.len() > 0 && forall|i: int| 0 <= i < s.len() ==> plain_char(#[trigger] s[i])
}

fn is_plain(c: char) -> (r: bool)
    ensures
        r == plain_char(c),
{
    ('a' <= c && c <= 'z') || ('A' <= c && c <= 'Z') || ('0' <= c && c <= '9') || c == '-' || c
        == '_'
}

/// The directory of a component below the log directory: its name, where the name is plain.
pub fn for_component(component: &str) -> (r: Result<String, String>)
    ensures
        match r {
            Ok(dir) => plain_name(component@) && dir@ == component@,
            Err(msg) => !plain_name(component@) && msg@ == "invalid component name: "@
                + debug_text(component@),
        },
{
    let chars = chars_of(component);
    let mut plain = chars.len() > 0;
    let mut i: usize = 0;
    while i < chars.len()
        invariant
            i <= chars@.len(),
            chars@ == component@,
            plain == (chars@.len() > 0 && forall|k: int|
                0 <= k < i ==> plain_char(#[trigger] chars@[k])),
        decreases chars@.len() - i,
    {
        if !is_plain(chars[i]) {
            plain = false;
        }
        i += 1;
    }
    if plain {
        Ok(component.to_owned())
    } else {
        let q = debug_str(component);
        Err(join2("invalid component name: ", q.as_str()))
    }
}

/// The directory of a component is one step below the log directory: its name holds no
/// separator and is neither `.` nor `..`.
pub proof fn plain_names_stay_inside(name: Seq<char>)
    requires
        plain_name(name),
    ensures
        !name.contains('/'),
        !name.contains('.'),
        name.len() > 0,
{
    if name.contains('/') {
        let i = choose|i: int| 0 <= i < name.len() && name[i] == '/';
        assert(plain_char(name[i]));
    }
    if name.contains('.') {
        let i = choose|i: int| 0 <= i < name.len() && name[i] == '.';
        assert(plain_char(name[i]));
    }
}

} // verus!
