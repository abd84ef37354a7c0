//! JSON values as the library reads and builds them.
use vstd::prelude::*;

use crate::text::same_text;

verus! {

/// A JSON number. A number with a fraction or an exponent is carried as the bit pattern
/// of its IEEE 754 double.
#[derive(Clone, Copy, Debug, PartialEq, Eq, Structural)]
pub enum JsonNumber {
    PosInt(u64),
    /// Always below zero.
    NegInt(i64),
    Float { bits: u64 },
    /// A number that was a single: the bit pattern of its IEEE 754 single.
    Float32 { single_bits: u32 },
}

/// A JSON value. The members of an object have different keys; their order carries no
/// meaning.
#[derive(Debug)]
pub enum Json {
    Null,
    Bool(bool),
    Number(JsonNumber),
    String(String),
    Array(Vec<Json>),
    Object(Vec<(String, Json)>),
}

/// What a JSON value is: the same shape over sequences.
#[verifier::ext_equal]
pub enum JsonView {
    Null,
    Bool(bool),
    Number(JsonNumber),
    String(Seq<char>),
    Array(Seq<JsonView>),
    Object(Seq<(Seq<char>, JsonView)>),
}

/// What the JSON value `j` is.
pub open spec fn view_of(j: Json) -> JsonView
    decreases j,
{
    match j {
        Json::Null => JsonView::Null,
        Json::Bool(b) => JsonView::Bool(b),
        Json::Number(n) => JsonView::Number(n),
        Json::String(s) => JsonView::String(s@),
        Json::Array(v) => JsonView::Array(
            Seq::new(
                v@.len(),
                |i: int|
                    if 0 <= i < v@.len() {
                        view_of(v@[i])
                    } else {
                        JsonView::Null
                    },
            ),
        ),
        Json::Object(m) => JsonView::Object(
            Seq::new(
                m@.len(),
                |i: int|
                    if 0 <= i < m@.len() {
                        (m@[i].0@, view_of(m@[i].1))
                    } else {
                        (Seq::empty(), JsonView::Null)
                    },
            ),
        ),
    }
}

impl View for Json {
    type V = JsonView;

    open spec fn view(&self) -> JsonView {
        view_of(*self)
    }
}

impl JsonView {
    /// The member of an object under `key`.
    pub open spec fn member(self, key: Seq<char>) -> Option<JsonView> {
        match self {
            JsonView::Object(m) => member_of(m, key),
            _ => None,
        }
    }
}

/// The first member with that key.
pub open spec fn member_of(m: Seq<(Seq<char>, JsonView)>, key: Seq<char>) -> Option<JsonView>
    decreases m.len(),
{
    if m.len() == 0 {
        None
    } else if m[0].0 == key {
        Some(m[0].1)
    } else {
        member_of(m.drop_first(), key)
    }
}

/// A member that is added under a new key is found under it.
pub proof fn lemma_member_of_push(m: Seq<(Seq<char>, JsonView)>, key: Seq<char>, v: JsonView)
    requires
        member_of(m, key) is None,
    ensures
        member_of(m.push((key, v)), key) == Some(v),
    decreases m.len(),
{
    let n = m.push((key, v));
    if m.len() > 0 {
        lemma_member_of_push(m.drop_first(), key, v);
        assert(n.drop_first() =~= m.drop_first().push((key, v)));
        assert(n[0] == m[0]);
    }
}

/// A member that is added at the end is found where its key is new.
pub broadcast proof fn lemma_member_pushed(
    m: Seq<(Seq<char>, JsonView)>,
    k: Seq<char>,
    v: JsonView,
    key: Seq<char>,
)
    ensures
        #[trigger] member_of(m.push((k, v)), key) == (match member_of(m, key) {
            Some(x) => Some(x),
            None => if k == key {
                Some(v)
            } else {
                None
            },
        }),
    decreases m.len(),
{
    let n = m.push((k, v));
    if m.len() > 0 {
        lemma_member_pushed(m.drop_first(), k, v, key);
        assert(n.drop_first() =~= m.drop_first().push((k, v)));
        assert(n[0] == m[0]);
    } else {
        assert(n[0] == (k, v));
        assert(n.drop_first() =~= Seq::<(Seq<char>, JsonView)>::empty());
        assert(member_of(n.drop_first(), key) is None);
    }
}

/// The members of one list go before those of the list behind it.
pub proof fn lemma_member_join(
    a: Seq<(Seq<char>, JsonView)>,
    b: Seq<(Seq<char>, JsonView)>,
    key: Seq<char>,
)
    ensures
        member_of(a + b, key) == (match member_of(a, key) {
            Some(v) => Some(v),
            None => member_of(b, key),
        }),
    decreases a.len(),
{
    if a.len() > 0 {
        lemma_member_join(a.drop_first(), b, key);
        assert((a + b).drop_first() =~= a.drop_first() + b);
    } else {
        assert(a + b =~= b);
    }
}

/// An object gives under a key the value at the first place that has the key, and none where
/// no place has it.
pub proof fn a_member_is_the_first_with_its_key(
    m: Seq<(Seq<char>, JsonView)>,
    key: Seq<char>,
    i: int,
)
    requires
        0 <= i <= m.len(),
        forall|k: int| 0 <= k < i ==> (#[trigger] m[k]).0 != key,
    ensures
        i < m.len() && m[i].0 == key ==> JsonView::Object(m).member(key) == Some(m[i].1),
        i == m.len() ==> JsonView::Object(m).member(key) is None,
    decreases m.len(),
{
    if i > 0 {
        let rest = m.drop_first();
        assert(m[0].0 != key);
        assert forall|k: int| 0 <= k < i - 1 implies (#[trigger] rest[k]).0 != key by {
            assert(m[k + 1].0 != key);
        }
        a_member_is_the_first_with_its_key(rest, key, i - 1);
    }
}

/// The member at a place whose key no place before it has.
pub proof fn lemma_member_at(m: Seq<(Seq<char>, JsonView)>, key: Seq<char>, i: int)
    requires
        0 <= i < m.len(),
        m[i].0 == key,
        forall|k: int| 0 <= k < i ==> (#[trigger] m[k]).0 != key,
    ensures
        member_of(m, key) == Some(m[i].1),
{
    a_member_is_the_first_with_its_key(m, key, i);
}

/// Whatever is no object has no members.
pub proof fn only_objects_have_members(v: JsonView, key: Seq<char>)
    requires
        v.member(key) is Some,
    ensures
        v is Object,
{
}

/// A finite double is written as the number with its very bits, and any other one as null:
/// a double is finite exactly where the eleven bits behind its sign are not all set.
pub proof fn doubles_keep_their_bits(bits: u64)
    ensures
        match double_view(bits) {
            JsonView::Number(JsonNumber::Float { bits: b }) => b == bits && (bits
                & 0x7ff0_0000_0000_0000) != 0x7ff0_0000_0000_0000,
            JsonView::Null => (bits & 0x7ff0_0000_0000_0000) == 0x7ff0_0000_0000_0000,
            _ => false,
        },
{
    assert(((bits & 0x7ff0_0000_0000_0000) == 0x7ff0_0000_0000_0000) == ((bits
        / 0x10_0000_0000_0000) % 2048 == 2047)) by (bit_vector);
}

/// A finite single is written as the number with its very bits, and any other one as null:
/// a single is finite exactly where the eight bits behind its sign are not all set.
pub proof fn singles_keep_their_bits(bits: u32)
    ensures
        match single_view(bits) {
            JsonView::Number(JsonNumber::Float32 { single_bits }) => single_bits == bits && (bits
                & 0x7f80_0000) != 0x7f80_0000,
            JsonView::Null => (bits & 0x7f80_0000) == 0x7f80_0000,
            _ => false,
        },
{
    assert(((bits & 0x7f80_0000) == 0x7f80_0000) == ((bits / 0x80_0000) % 256 == 255))
        by (bit_vector);
}

/// An integer is written as a number with its value, whatever its sign.
pub proof fn integers_keep_their_value(n: i64)
    ensures
        match int_number(n) {
            JsonNumber::PosInt(m) => m == n,
            JsonNumber::NegInt(m) => m == n && n < 0,
            _ => false,
        },
{
}

impl Json {
    /// The member of an object under `key`.
    pub fn get<'a>(&'a self, key: &str) -> (r: Option<&'a Json>)
        ensures
            match r {
                Some(v) => self@.member(key@) == Some(v@),
                None => self@.member(key@) is None,
            },
    {
        match self {
            Json::Object(m) => {
                let ghost all = self@->Object_0;
                let mut i: usize = 0;
                assert(all.skip(0) =~= all);
                while i < m.len()
                    invariant
                        i <= m@.len(),
                        all == self@->Object_0,
                        *self == Json::Object(*m),
                        all.len() == m@.len(),
                        member_of(all, key@) == member_of(all.skip(i as int), key@),
                    decreases m@.len() - i,
                {
                    assert(all[i as int] == (m@[i as int].0@, m@[i as int].1@));
                    assert(all.skip(i as int).drop_first() =~= all.skip(i + 1));
                    if same_text(m[i].0.as_str(), key) {
                        return Some(&m[i].1);
                    }
                    i += 1;
                }
                None
            },
            _ => None,
        }
    }
}

impl Json {
    /// The text of a JSON string.
    pub fn as_text<'a>(&'a self) -> (r: Option<&'a str>)
        ensures
            match r {
                Some(t) => self@ == JsonView::String(t@),
                None => !(self@ is String),
            },
    {
        match self {
            Json::String(s) => Some(s.as_str()),
            _ => None,
        }
    }

    /// The value of a number that is a non-negative integer.
    pub fn as_u64(&self) -> (r: Option<u64>)
        ensures
            r == self@.unsigned(),
    {
        match self {
            Json::Number(JsonNumber::PosInt(n)) => Some(*n),
            _ => None,
        }
    }

    pub fn as_bool(&self) -> (r: Option<bool>)
        ensures
            r == self@.boolean(),
    {
        match self {
            Json::Bool(b) => Some(*b),
            _ => None,
        }
    }

    pub fn is_null(&self) -> (r: bool)
        ensures
            r == (self@ is Null),
    {
        match self {
            Json::Null => true,
            _ => false,
        }
    }

    /// A JSON string.
    pub fn text(s: &str) -> (j: Json)
        ensures
            j@ == JsonView::String(s@),
    {
        Json::String(s.to_owned())
    }

    /// A JSON number that is a non-negative integer.
    pub fn uint(n: u64) -> (j: Json)
        ensures
            j@ == JsonView::Number(JsonNumber::PosInt(n)),
    {
        Json::Number(JsonNumber::PosInt(n))
    }

    /// A JSON number that is an integer.
    pub fn signed(n: i64) -> (j: Json)
        ensures
            j@ == JsonView::Number(int_number(n)),
    {
        if n >= 0 {
            Json::Number(JsonNumber::PosInt(n as u64))
        } else {
            Json::Number(JsonNumber::NegInt(n))
        }
    }

    /// A copy of the value.
    pub fn copy(&self) -> (j: Json)
        ensures
            j@ == self@,
        decreases self,
    {
        match self {
            Json::Null => Json::Null,
            Json::Bool(b) => Json::Bool(*b),
            Json::Number(n) => Json::Number(*n),
            Json::String(s) => Json::text(s.as_str()),
            Json::Array(v) => {
                let mut out: Vec<Json> = Vec::new();
                let mut i: usize = 0;
                while i < v.len()
                    invariant
                        i <= v@.len(),
                        *self == Json::Array(*v),
                        out@.len() == i,
                        forall|k: int| 0 <= k < i ==> (#[trigger] out@[k])@ == v@[k]@,
                    decreases v@.len() - i,
                {
                    proof {
                        assert(decreases_to!(*self => self->Array_0));
                        assert(decreases_to!(v => v@));
                        assert(decreases_to!(v@ => v@[i as int]));
                    }
                    out.push(v[i].copy());
                    i += 1;
                }
                let r = Json::Array(out);
                assert(r@->Array_0 =~= self@->Array_0);
                r
            },
            Json::Object(m) => {
                let mut out: Vec<(String, Json)> = Vec::new();
                let mut i: usize = 0;
                while i < m.len()
                    invariant
                        i <= m@.len(),
                        *self == Json::Object(*m),
                        out@.len() == i,
                        forall|k: int|
                            0 <= k < i ==> (#[trigger] out@[k]).0@ == m@[k].0@ && out@[k].1@
                                == m@[k].1@,
                    decreases m@.len() - i,
                {
                    proof {
                        assert(decreases_to!(*self => self->Object_0));
                        assert(decreases_to!(m => m@));
                        assert(decreases_to!(m@ => m@[i as int]));
                        assert(decreases_to!(m@[i as int] => m@[i as int].1));
                    }
                    out.push((m[i].0.clone(), m[i].1.copy()));
                    i += 1;
                }
                let r = Json::Object(out);
                assert(r@->Object_0 =~= self@->Object_0);
                r
            },
        }
    }
}

/// The number of an integer.
pub open spec fn int_number(n: i64) -> JsonNumber {
    if n >= 0 {
        JsonNumber::PosInt(n as u64)
    } else {
        JsonNumber::NegInt(n)
    }
}

impl JsonView {
    pub open spec fn unsigned(self) -> Option<u64> {
        match self {
            JsonView::Number(JsonNumber::PosInt(n)) => Some(n),
            _ => None,
        }
    }

    pub open spec fn boolean(self) -> Option<bool> {
        match self {
            JsonView::Bool(b) => Some(b),
            _ => None,
        }
    }

    pub open spec fn textual(self) -> Option<Seq<char>> {
        match self {
            JsonView::String(s) => Some(s),
            _ => None,
        }
    }
}

/// The bit pattern of a double that is neither infinite nor a NaN.
pub open spec fn finite_double(bits: u64) -> bool {
    (bits / 0x10_0000_0000_0000) % 2048 != 2047
}

/// The bit pattern of a single that is neither infinite nor a NaN.
pub open spec fn finite_single(bits: u32) -> bool {
    (bits / 0x80_0000) % 256 != 255
}

/// The JSON value of a double: null where it is not finite.
pub open spec fn double_view(bits: u64) -> JsonView {
    if finite_double(bits) {
        JsonView::Number(JsonNumber::Float { bits })
    } else {
        JsonView::Null
    }
}

/// The JSON value of a single: null where it is not finite.
pub open spec fn single_view(bits: u32) -> JsonView {
    if finite_single(bits) {
        JsonView::Number(JsonNumber::Float32 { single_bits: bits })
    } else {
        JsonView::Null
    }
}

impl Json {
    /// The JSON value of a double, given by its bit pattern.
    pub fn double(bits: u64) -> (j: Json)
        ensures
            j@ == double_view(bits),
    {
        if (bits / 0x10_0000_0000_0000) % 2048 != 2047 {
            Json::Number(JsonNumber::Float { bits })
        } else {
            Json::Null
        }
    }

    /// The JSON value of a single, given by its bit pattern.
    pub fn single(bits: u32) -> (j: Json)
        ensures
            j@ == single_view(bits),
    {
        if (bits / 0x80_0000) % 256 != 255 {
            Json::Number(JsonNumber::Float32 { single_bits: bits })
        } else {
            Json::Null
        }
    }
}

/// An object under construction, member by member.
pub struct ObjectBuilder {
    members: Vec<(String, Json)>,
}

impl View for ObjectBuilder {
    type V = Seq<(Seq<char>, JsonView)>;

    closed spec fn view(&self) -> Seq<(Seq<char>, JsonView)> {
        self.members@.map_values(|e: (String, Json)| (e.0@, e.1@))
    }
}

impl ObjectBuilder {
    pub fn new() -> (b: ObjectBuilder)
        ensures
            b@ == Seq::<(Seq<char>, JsonView)>::empty(),
    {
        let b = ObjectBuilder { members: Vec::new() };
        assert(b@ =~= Seq::<(Seq<char>, JsonView)>::empty());
        b
    }

    /// Adds a member behind those that are there.
    pub fn put(&mut self, key: &str, value: Json)
        ensures
            final(self)@ == old(self)@.push((key@, value@)),
    {
        self.members.push((key.to_owned(), value));
        assert(self@ =~= old(self)@.push((key@, value@)));
    }

    /// The object.
    pub fn done(self) -> (j: Json)
        ensures
            j@ == JsonView::Object(self@),
    {
        let ghost v = self@;
        let j = Json::Object(self.members);
        assert(j@->Object_0 =~= v);
        j
    }
}

/// The JSON array of these values.
pub fn array_of(items: Vec<Json>) -> (j: Json)
    ensures
        j@ == JsonView::Array(items@.map_values(|e: Json| e@)),
{
    let ghost v = items@.map_values(|e: Json| e@);
    let j = Json::Array(items);
    assert(j@->Array_0 =~= v);
    j
}

/// The JSON array of these strings.
pub fn array_of_texts(items: &Vec<String>) -> (j: Json)
    ensures
        j@ == texts_view(items@.map_values(|e: String| e@)),
{
    let mut out: Vec<Json> = Vec::new();
    let mut i: usize = 0;
    while i < items.len()
        invariant
            i <= items@.len(),
            out@.len() == i,
            forall|k: int| 0 <= k < i ==> (#[trigger] out@[k])@ == JsonView::String(items@[k]@),
        decreases items@.len() - i,
    {
        out.push(Json::text(items[i].as_str()));
        i += 1;
    }
    let j = array_of(out);
    assert(j@->Array_0 =~= texts_view(items@.map_values(|e: String| e@))->Array_0);
    j
}

/// The array of strings.
pub open spec fn texts_view(items: Seq<Seq<char>>) -> JsonView {
    JsonView::Array(items.map_values(|t: Seq<char>| JsonView::String(t)))
}

/// A value stands for what it holds: the items of an array and the members of an object, each
/// in its place, a text by its characters, and a truth value by itself.
pub proof fn values_stand_for_what_they_hold(
    items: Vec<Json>,
    m: Vec<(String, Json)>,
    s: String,
    b: bool,
    i: int,
)
    ensures
        Json::Array(items)@ matches JsonView::Array(v) && v.len() == items@.len() && (0 <= i
            < items@.len() ==> v[i] == items@[i]@),
        Json::Object(m)@ matches JsonView::Object(v) && v.len() == m@.len() && (0 <= i < m@.len()
            ==> v[i].0 == m@[i].0@ && v[i].1 == m@[i].1@),
        Json::String(s)@ == JsonView::String(s@),
        Json::Bool(b)@ == JsonView::Bool(b),
        Json::Null@ == JsonView::Null,
{
}

/// A value is read as a number, a truth value or a text just where it is one, and then as the
/// very one that it is.
pub proof fn scalars_are_read_as_they_are(j: JsonView, n: u64, b: bool, s: Seq<char>)
    ensures
        j.unsigned() == Some(n) <==> j == JsonView::Number(JsonNumber::PosInt(n)),
        j.boolean() == Some(b) <==> j == JsonView::Bool(b),
        j.textual() == Some(s) <==> j == JsonView::String(s),
{
}

} // verus!
