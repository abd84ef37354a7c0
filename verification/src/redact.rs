//! Redaction of trace payloads: what a pattern matches and what a sensitive key holds never
//! reaches the disk.
use vstd::prelude::*;

use crate::broker_client::texts;
use crate::json::{Json, JsonView};
use crate::patterns::{compilable, regex_set_compiles, replaced_by_all, PatternSet, REDACTED};
use crate::text::{ascii_lowered, chars_of, lower_ascii_chars, same_text, string_of};

verus! {

/// Keys whose value is replaced whatever it is.
pub const HEADER_DENYLIST: [&'static str; 10] = [
    "cookie",
    "set-cookie",
    "authorization",
    "proxy-authorization",
    "x-api-key",
    "api-key",
    "x-auth-token",
    "password",
    "passwd",
    "secret",
];

/// The key is on the denylist, in whatever case it is written.
pub open spec fn is_denylisted(key: Seq<char>) -> bool {
    exists|i: int| 0 <= i < 10 && (#[trigger] HEADER_DENYLIST@[i])@ == ascii_lowered(key)
}

/// Whether a key is on the denylist, in whatever case it is written.
pub fn is_denylisted_key(key: &str) -> (r: bool)
    ensures
        r == is_denylisted(key@),
{
    let chars = chars_of(key);
    let lower = string_of(lower_ascii_chars(chars.as_slice()).as_slice());
    let mut i: usize = 0;
    while i < 10
        invariant
            i <= 10,
            lower@ == ascii_lowered(key@),
            forall|k: int| 0 <= k < i ==> (#[trigger] HEADER_DENYLIST@[k])@ != lower@,
        decreases 10 - i,
    {
        if same_text(HEADER_DENYLIST[i], lower.as_str()) {
            return true;
        }
        i += 1;
    }
    false
}

/// The value with every string redacted and every value under a denylisted key replaced.
/// Keys, numbers, booleans and nulls stay.
pub open spec fn redacted(patterns: Seq<Seq<char>>, v: JsonView) -> JsonView
    decreases v,
{
    match v {
        JsonView::String(s) => JsonView::String(replaced_by_all(patterns, s)),
        JsonView::Array(items) => JsonView::Array(
            Seq::new(
                items.len(),
                |i: int|
                    if 0 <= i < items.len() {
                        redacted(patterns, items[i])
                    } else {
                        JsonView::Null
                    },
            ),
        ),
        JsonView::Object(m) => JsonView::Object(
            Seq::new(
                m.len(),
                |i: int|
                    if 0 <= i < m.len() {
                        (
                            m[i].0,
                            if is_denylisted(m[i].0) {
                                JsonView::String(REDACTED@)
                            } else {
                                redacted(patterns, m[i].1)
                            },
                        )
                    } else {
                        (Seq::empty(), JsonView::Null)
                    },
            ),
        ),
        other => other,
    }
}

/// The compiled redaction of one session.
pub struct Redactor {
    set: PatternSet,
}

impl View for Redactor {
    type V = Seq<Seq<char>>;

    closed spec fn view(&self) -> Seq<Seq<char>> {
        self.set@
    }
}

impl Redactor {
    pub closed spec fn wf(self) -> bool {
        self.set.wf()
    }

    /// Compiles the patterns; those that are no regular expressions are skipped. None where
    /// the others cannot be compiled together.
    pub fn new(patterns: &Vec<String>) -> (r: Option<Redactor>)
        ensures
            match r {
                Some(red) => red.wf() && red@ == compilable(texts(patterns@))
                    && regex_set_compiles(red@),
                None => !regex_set_compiles(compilable(texts(patterns@))),
            },
    {
        match PatternSet::new(patterns) {
            Some(set) => Some(Redactor { set }),
            None => None,
        }
    }

    /// One string with its matches replaced.
    pub fn scrub_str(&self, s: &str) -> (r: String)
        requires
            self.wf(),
        ensures
            r@ == replaced_by_all(self@, s@),
    {
        self.set.scrub_str(s)
    }
}

/// What redacts the trace of a session: nothing where there are no patterns, or none that
/// can be used.
pub fn session_redactor(patterns: &Vec<String>) -> (r: Option<Redactor>)
    ensures
        match r {
            Some(red) => patterns@.len() > 0 && red.wf() && red@ == compilable(texts(patterns@))
                && regex_set_compiles(red@),
            None => patterns@.len() == 0 || !regex_set_compiles(compilable(texts(patterns@))),
        },
{
    if patterns.len() == 0 {
        return None;
    }
    Redactor::new(patterns)
}

/// The redacted value.
pub fn redact_value(value: &Json, r: &Redactor) -> (j: Json)
    requires
        r.wf(),
    ensures
        j@ == redacted(r@, value@),
    decreases value,
{
    match value {
        Json::String(s) => Json::String(r.scrub_str(s.as_str())),
        Json::Array(v) => {
            let mut out: Vec<Json> = Vec::new();
            let mut i: usize = 0;
            while i < v.len()
                invariant
                    i <= v@.len(),
                    r.wf(),
                    *value == Json::Array(*v),
                    out@.len() == i,
                    forall|k: int|
                        0 <= k < i ==> (#[trigger] out@[k])@ == redacted(r@, v@[k]@),
                decreases v@.len() - i,
            {
                proof {
                    assert(decreases_to!(*value => value->Array_0));
                    assert(decreases_to!(v => v@));
                    assert(decreases_to!(v@ => v@[i as int]));
                }
                out.push(redact_value(&v[i], r));
                i += 1;
            }
            let j = Json::Array(out);
            assert(j@->Array_0 =~= redacted(r@, value@)->Array_0);
            j
        },
        Json::Object(m) => {
            let mut out: Vec<(String, Json)> = Vec::new();
            let mut i: usize = 0;
            while i < m.len()
                invariant
                    i <= m@.len(),
                    r.wf(),
                    *value == Json::Object(*m),
                    out@.len() == i,
                    forall|k: int|
                        0 <= k < i ==> (#[trigger] out@[k]).0@ == m@[k].0@ && out@[k].1@ == (
                        if is_denylisted(m@[k].0@) {
                            JsonView::String(REDACTED@)
                        } else {
                            redacted(r@, m@[k].1@)
                        }),
                decreases m@.len() - i,
            {
                proof {
                    assert(decreases_to!(*value => value->Object_0));
                    assert(decreases_to!(m => m@));
                    assert(decreases_to!(m@ => m@[i as int]));
                    assert(decreases_to!(m@[i as int] => m@[i as int].1));
                }
                let entry = if is_denylisted_key(m[i].0.as_str()) {
                    Json::text(REDACTED)
                } else {
                    redact_value(&m[i].1, r)
                };
                out.push((m[i].0.clone(), entry));
                i += 1;
            }
            let j = Json::Object(out);
            assert(j@->Object_0 =~= redacted(r@, value@)->Object_0);
            j
        },
        other => other.copy(),
    }
}

/// Redaction keeps the keys of every object, and their order.
pub proof fn redaction_keeps_keys(
    patterns: Seq<Seq<char>>,
    m: Seq<(Seq<char>, JsonView)>,
    i: int,
)
    requires
        0 <= i < m.len(),
    ensures
        redacted(patterns, JsonView::Object(m)) is Object,
        redacted(patterns, JsonView::Object(m))->Object_0.len() == m.len(),
        redacted(patterns, JsonView::Object(m))->Object_0[i].0 == m[i].0,
{
}

/// Whatever stands under a denylisted key is replaced, at whatever depth the object is and
/// in whatever case the key is written.
pub proof fn denylisted_values_are_replaced(
    patterns: Seq<Seq<char>>,
    m: Seq<(Seq<char>, JsonView)>,
    i: int,
)
    requires
        0 <= i < m.len(),
        is_denylisted(m[i].0),
    ensures
        redacted(patterns, JsonView::Object(m))->Object_0[i].1 == JsonView::String(REDACTED@),
{
}

/// No object anywhere in the value holds anything but the replacement under a denylisted
/// key.
pub open spec fn denylist_clean(v: JsonView) -> bool
    decreases v,
{
    match v {
        JsonView::Array(items) => forall|i: int|
            0 <= i < items.len() ==> denylist_clean(#[trigger] items[i]),
        JsonView::Object(m) => forall|i: int|
            0 <= i < m.len() ==> (if is_denylisted((#[trigger] m[i]).0) {
                m[i].1 == JsonView::String(REDACTED@)
            } else {
                denylist_clean(m[i].1)
            }),
        _ => true,
    }
}

/// After redaction no sensitive key, however deep, holds its value.
pub proof fn redaction_is_denylist_clean(patterns: Seq<Seq<char>>, v: JsonView)
    ensures
        denylist_clean(redacted(patterns, v)),
    decreases v,
{
    match v {
        JsonView::Array(items) => {
            let out = redacted(patterns, v)->Array_0;
            assert forall|i: int| 0 <= i < out.len() implies denylist_clean(#[trigger] out[i]) by {
                redaction_is_denylist_clean(patterns, items[i]);
            }
        },
        JsonView::Object(m) => {
            let out = redacted(patterns, v)->Object_0;
            assert forall|i: int| 0 <= i < out.len() implies (if is_denylisted(
                (#[trigger] out[i]).0,
            ) {
                out[i].1 == JsonView::String(REDACTED@)
            } else {
                denylist_clean(out[i].1)
            }) by {
                if !is_denylisted(m[i].0) {
                    redaction_is_denylist_clean(patterns, m[i].1);
                }
            }
        },
        _ => {},
    }
}

/// The sensitive keys are these ten words, in whatever case they are written, and no others.
pub proof fn the_denylist_holds_these_words(key: Seq<char>)
    ensures
        is_denylisted(key) == {
            let k = ascii_lowered(key);
            ||| k == "cookie"@
            ||| k == "set-cookie"@
            ||| k == "authorization"@
            ||| k == "proxy-authorization"@
            ||| k == "x-api-key"@
            ||| k == "api-key"@
            ||| k == "x-auth-token"@
            ||| k == "password"@
            ||| k == "passwd"@
            ||| k == "secret"@
        },
{
    let k = ascii_lowered(key);
    if k == "cookie"@ {
        assert(HEADER_DENYLIST@[0]@ == k);
    }
    if k == "set-cookie"@ {
        assert(HEADER_DENYLIST@[1]@ == k);
    }
    if k == "authorization"@ {
        assert(HEADER_DENYLIST@[2]@ == k);
    }
    if k == "proxy-authorization"@ {
        assert(HEADER_DENYLIST@[3]@ == k);
    }
    if k == "x-api-key"@ {
        assert(HEADER_DENYLIST@[4]@ == k);
    }
    if k == "api-key"@ {
        assert(HEADER_DENYLIST@[5]@ == k);
    }
    if k == "x-auth-token"@ {
        assert(HEADER_DENYLIST@[6]@ == k);
    }
    if k == "password"@ {
        assert(HEADER_DENYLIST@[7]@ == k);
    }
    if k == "passwd"@ {
        assert(HEADER_DENYLIST@[8]@ == k);
    }
    if k == "secret"@ {
        assert(HEADER_DENYLIST@[9]@ == k);
    }
}

/// What stands at a place in a value. Each step is the place of an item in its array or of a
/// member in its object.
pub open spec fn value_at(v: JsonView, path: Seq<int>) -> Option<JsonView>
    decreases path.len(),
{
    if path.len() == 0 {
        Some(v)
    } else {
        match v {
            JsonView::Array(items) => if 0 <= path[0] < items.len() {
                value_at(items[path[0]], path.drop_first())
            } else {
                None
            },
            JsonView::Object(m) => if 0 <= path[0] < m.len() {
                value_at(m[path[0]].1, path.drop_first())
            } else {
                None
            },
            _ => None,
        }
    }
}

/// On the way to a place there is a member whose key is denylisted.
pub open spec fn under_denylisted_key(v: JsonView, path: Seq<int>) -> bool
    decreases path.len(),
{
    if path.len() == 0 {
        false
    } else {
        match v {
            JsonView::Array(items) => 0 <= path[0] < items.len() && under_denylisted_key(
                items[path[0]],
                path.drop_first(),
            ),
            JsonView::Object(m) => 0 <= path[0] < m.len() && (is_denylisted(m[path[0]].0)
                || under_denylisted_key(m[path[0]].1, path.drop_first())),
            _ => false,
        }
    }
}

/// Redaction works place by place. At every place that is not under a denylisted key, however
/// deep in arrays and objects: a string is the original one with the matches of all patterns
/// replaced; an array has as many items and an object the same keys in the same order; numbers,
/// booleans and nulls are as they were; and where there was nothing there is nothing.
pub proof fn every_string_is_redacted_in_place(
    patterns: Seq<Seq<char>>,
    v: JsonView,
    path: Seq<int>,
)
    requires
        !under_denylisted_key(v, path),
    ensures
        match value_at(v, path) {
            Some(JsonView::String(s)) => value_at(redacted(patterns, v), path) == Some(
                JsonView::String(replaced_by_all(patterns, s)),
            ),
            Some(JsonView::Array(items)) => value_at(redacted(patterns, v), path) matches Some(
                JsonView::Array(out),
            ) && out.len() == items.len(),
            Some(JsonView::Object(m)) => {
                &&& value_at(redacted(patterns, v), path) matches Some(JsonView::Object(out))
                &&& out.len() == m.len()
                &&& forall|i: int| 0 <= i < m.len() ==> (#[trigger] out[i]).0 == m[i].0
            },
            Some(other) => value_at(redacted(patterns, v), path) == Some(other),
            None => value_at(redacted(patterns, v), path) is None,
        },
    decreases path.len(),
{
    if path.len() > 0 {
        match v {
            JsonView::Array(items) => {
                if 0 <= path[0] < items.len() {
                    every_string_is_redacted_in_place(patterns, items[path[0]], path.drop_first());
                    assert(redacted(patterns, v)->Array_0[path[0]] == redacted(
                        patterns,
                        items[path[0]],
                    ));
                }
            },
            JsonView::Object(m) => {
                if 0 <= path[0] < m.len() {
                    every_string_is_redacted_in_place(patterns, m[path[0]].1, path.drop_first());
                    assert(redacted(patterns, v)->Object_0[path[0]].1 == redacted(
                        patterns,
                        m[path[0]].1,
                    ));
                }
            },
            _ => {},
        }
    }
}

/// What stood under a denylisted key, wherever the key is, gives way to the replacement.
pub proof fn denylisted_places_hold_the_replacement(
    patterns: Seq<Seq<char>>,
    v: JsonView,
    path: Seq<int>,
    i: int,
)
    requires
        !under_denylisted_key(v, path),
        value_at(v, path) matches Some(JsonView::Object(m)) && 0 <= i < m.len() && is_denylisted(
            m[i].0,
        ),
    ensures
        value_at(redacted(patterns, v), path.push(i)) == Some(JsonView::String("<REDACTED>"@)),
    decreases path.len(),
{
    let rest = path.drop_first();
    if path.len() > 0 {
        assert(path.push(i).drop_first() =~= rest.push(i));
        match v {
            JsonView::Array(items) => {
                denylisted_places_hold_the_replacement(patterns, items[path[0]], rest, i);
                assert(redacted(patterns, v)->Array_0[path[0]] == redacted(
                    patterns,
                    items[path[0]],
                ));
            },
            JsonView::Object(m) => {
                denylisted_places_hold_the_replacement(patterns, m[path[0]].1, rest, i);
                assert(redacted(patterns, v)->Object_0[path[0]].1 == redacted(
                    patterns,
                    m[path[0]].1,
                ));
            },
            _ => {},
        }
    } else {
        assert(path.push(i).drop_first() =~= Seq::<int>::empty());
        assert(value_at(JsonView::String("<REDACTED>"@), Seq::<int>::empty()) == Some(
            JsonView::String("<REDACTED>"@),
        ));
    }
}

} // verus!
