//! Text primitives: characters, trimming, splitting, ordering and decimal numerals.
//!
//! Contracts speak of a string as the sequence of its characters.
use vstd::prelude::*;

verus! {

/// The Unicode `White_Space` property.
pub open spec fn is_white_space(c: char) -> bool {
    ||| '\u{9}' <= c <= '\u{d}'
    ||| c == '\u{20}'
    ||| c == '\u{85}'
    ||| c == '\u{a0}'
    ||| c == '\u{1680}'
    ||| '\u{2000}' <= c <= '\u{200a}'
    ||| c == '\u{2028}'
    ||| c == '\u{2029}'
    ||| c == '\u{202f}'
    ||| c == '\u{205f}'
    ||| c == '\u{3000}'
}

/// The text without leading and trailing white space.
pub open spec fn trimmed(s: Seq<char>) -> Seq<char>
    decreases s.len(),
{
    if s.len() == 0 {
        s
    } else if is_white_space(s[0]) {
        trimmed(s.drop_first())
    } else if is_white_space(s.last()) {
        trimmed(s.drop_last())
    } else {
        s
    }
}

/// Lexicographic order of texts by code point.
pub open spec fn text_lt(a: Seq<char>, b: Seq<char>) -> bool
    decreases a.len(),
{
    if b.len() == 0 {
        false
    } else if a.len() == 0 {
        true
    } else if a[0] != b[0] {
        a[0] < b[0]
    } else {
        text_lt(a.drop_first(), b.drop_first())
    }
}

/// The pieces of `s` between occurrences of `sep`.
pub open spec fn split_on(s: Seq<char>, sep: char) -> Seq<Seq<char>>
    decreases s.len(),
{
    if s.len() == 0 {
        seq![s]
    } else {
        let rest = split_on(s.drop_last(), sep);
        if s.last() == sep {
            rest.push(Seq::empty())
        } else {
            rest.drop_last().push(rest.last().push(s.last()))
        }
    }
}

/// The decimal digit of value `d`.
pub open spec fn digit_char(d: nat) -> char {
    (48 + d % 10) as u8 as char
}

/// The decimal numeral of `n`, without leading zeros.
pub open spec fn decimal(n: nat) -> Seq<char>
    decreases n,
{
    if n < 10 {
        seq![digit_char(n)]
    } else {
        decimal(n / 10).push(digit_char(n % 10))
    }
}

/// The numeral of `n`, padded on the left with zeros to `width` characters.
pub open spec fn decimal_padded(n: nat, width: nat) -> Seq<char> {
    let d = decimal(n);
    if d.len() < width {
        Seq::new((width - d.len()) as nat, |i: int| '0') + d
    } else {
        d
    }
}

pub open spec fn is_digit(c: char) -> bool {
    '0' <= c <= '9'
}

pub open spec fn all_digits(s: Seq<char>) -> bool {
    forall|i: int| 0 <= i < s.len() ==> is_digit(#[trigger] s[i])
}

/// The value of a run of decimal digits.
pub open spec fn digits_value(s: Seq<char>) -> nat
    decreases s.len(),
{
    if s.len() == 0 {
        0
    } else {
        10 * digits_value(s.drop_last()) + (s.last() as nat - 48) as nat
    }
}

/// The digits of a numeral, without an optional leading plus sign.
pub open spec fn unsigned_digits(s: Seq<char>) -> Seq<char> {
    if s.len() > 0 && s[0] == '+' {
        s.drop_first()
    } else {
        s
    }
}

/// Reads an unsigned decimal numeral that is at most `max`: at least one digit, an
/// optional leading `+`, nothing else.
pub open spec fn parse_unsigned(s: Seq<char>, max: nat) -> Option<nat> {
    let d = unsigned_digits(s);
    if d.len() > 0 && all_digits(d) && digits_value(d) <= max {
        Some(digits_value(d))
    } else {
        None
    }
}

pub open spec fn ascii_lower(c: char) -> char {
    if 'A' <= c <= 'Z' {
        (c as u8 + 32) as u8 as char
    } else {
        c
    }
}

pub open spec fn ascii_lowered(s: Seq<char>) -> Seq<char> {
    s.map_values(|c: char| ascii_lower(c))
}

/// `needle` occurs in `s` at position `i`.
pub open spec fn occurs_at(s: Seq<char>, needle: Seq<char>, i: int) -> bool {
    &&& 0 <= i
    &&& i + needle.len() <= s.len()
    &&& s.subrange(i, i + needle.len()) == needle
}

pub open spec fn contains_text(s: Seq<char>, needle: Seq<char>) -> bool {
    exists|i: int| #[trigger] occurs_at(s, needle, i)
}

pub open spec fn starts_with_text(s: Seq<char>, prefix: Seq<char>) -> bool {
    occurs_at(s, prefix, 0)
}

pub open spec fn ends_with_text(s: Seq<char>, suffix: Seq<char>) -> bool {
    occurs_at(s, suffix, s.len() - suffix.len())
}

/// `std::string::String::push`: appends one character at the end.
#[verifier::external_body]
pub(crate) fn push_char(s: &mut String, c: char)
    ensures
        final(s)@ == old(s)@.push(c),
{
    s.push(c)
}

/// The characters of a string, in order.
pub fn chars_of(s: &str) -> (v: Vec<char>)
    ensures
        v@ == s@,
{
    let mut v: Vec<char> = Vec::new();
    for c in it: s.chars()
        invariant
            v@ == s@.take(it.index() as int),
            it.seq() == s@,
    {
        proof {
            assert(s@.take(it.index() + 1) =~= s@.take(it.index() as int).push(s@[it.index() as int]));
        }
        v.push(c);
    }
    assert(s@.take(s@.len() as int) =~= s@);
    v
}

/// The string made of these characters.
pub fn string_of(v: &[char]) -> (s: String)
    ensures
        s@ == v@,
{
    let mut s = String::new();
    let mut i: usize = 0;
    while i < v.len()
        invariant
            i <= v@.len(),
            s@ == v@.take(i as int),
        decreases v@.len() - i,
    {
        push_char(&mut s, v[i]);
        i += 1;
        assert(v@.take(i as int) =~= v@.take(i - 1).push(v@[i - 1]));
    }
    assert(v@.take(v@.len() as int) =~= v@);
    s
}

/// Whether two strings hold the same characters.
pub fn same_text(a: &str, b: &str) -> (r: bool)
    ensures
        r == (a@ == b@),
{
    let x = a.to_owned();
    let y = b.to_owned();
    x == y
}

pub fn white_space(c: char) -> (r: bool)
    ensures
        r == is_white_space(c),
{
    ('\u{9}' <= c && c <= '\u{d}') || c == '\u{20}' || c == '\u{85}' || c == '\u{a0}' || c
        == '\u{1680}' || ('\u{2000}' <= c && c <= '\u{200a}') || c == '\u{2028}' || c == '\u{2029}'
        || c == '\u{202f}' || c == '\u{205f}' || c == '\u{3000}'
}

/// A copy of the characters from `from` up to `to`.
pub fn slice_chars(s: &[char], from: usize, to: usize) -> (v: Vec<char>)
    requires
        from <= to <= s@.len(),
    ensures
        v@ == s@.subrange(from as int, to as int),
{
    let mut v: Vec<char> = Vec::new();
    let mut i: usize = from;
    while i < to
        invariant
            from <= i <= to <= s@.len(),
            v@ == s@.subrange(from as int, i as int),
        decreases to - i,
    {
        v.push(s[i]);
        i += 1;
        assert(s@.subrange(from as int, i as int) =~= s@.subrange(from as int, i - 1).push(
            s@[i - 1],
        ));
    }
    v
}

/// Removes white space at both ends.
pub fn trim_chars(s: &[char]) -> (v: Vec<char>)
    ensures
        v@ == trimmed(s@),
{
    let mut a: usize = 0;
    let mut b: usize = s.len();
    assert(s@.subrange(0, s@.len() as int) =~= s@);
    while a < b && white_space(s[a])
        invariant
            a <= b <= s@.len(),
            trimmed(s@) == trimmed(s@.subrange(a as int, b as int)),
        decreases b - a,
    {
        assert(s@.subrange(a as int, b as int).drop_first() =~= s@.subrange(a + 1, b as int));
        a += 1;
    }
    while a < b && white_space(s[b - 1])
        invariant
            a <= b <= s@.len(),
            a < b ==> !is_white_space(s@[a as int]),
            trimmed(s@) == trimmed(s@.subrange(a as int, b as int)),
        decreases b - a,
    {
        assert(s@.subrange(a as int, b as int).drop_last() =~= s@.subrange(a as int, b - 1));
        b -= 1;
    }
    slice_chars(s, a, b)
}

/// Cuts the text at every `sep`.
pub fn split_chars(s: &[char], sep: char) -> (parts: Vec<Vec<char>>)
    ensures
        parts@.len() == split_on(s@, sep).len(),
        forall|i: int| 0 <= i < parts@.len() ==> (#[trigger] parts@[i])@ == split_on(s@, sep)[i],
{
    let mut parts: Vec<Vec<char>> = Vec::new();
    let mut cur: Vec<char> = Vec::new();
    let mut i: usize = 0;
    assert(s@.take(0) =~= Seq::<char>::empty());
    while i < s.len()
        invariant
            i <= s@.len(),
            split_on(s@.take(i as int), sep).len() == parts@.len() + 1,
            split_on(s@.take(i as int), sep).last() == cur@,
            forall|k: int|
                0 <= k < parts@.len() ==> (#[trigger] parts@[k])@ == split_on(
                    s@.take(i as int),
                    sep,
                )[k],
        decreases s@.len() - i,
    {
        let c = s[i];
        assert(s@.take(i + 1).drop_last() =~= s@.take(i as int));
        if c == sep {
            parts.push(cur);
            cur = Vec::new();
        } else {
            cur.push(c);
        }
        i += 1;
    }
    assert(s@.take(s@.len() as int) =~= s@);
    parts.push(cur);
    parts
}

/// Whether `a` comes before `b` in code point order.
pub fn chars_before(a: &[char], b: &[char]) -> (r: bool)
    ensures
        r == text_lt(a@, b@),
{
    let mut i: usize = 0;
    assert(a@.skip(0) =~= a@);
    assert(b@.skip(0) =~= b@);
    while i < a.len() && i < b.len() && a[i] == b[i]
        invariant
            i <= a@.len(),
            i <= b@.len(),
            text_lt(a@, b@) == text_lt(a@.skip(i as int), b@.skip(i as int)),
        decreases a@.len() - i,
    {
        assert(a@.skip(i as int).drop_first() =~= a@.skip(i + 1));
        assert(b@.skip(i as int).drop_first() =~= b@.skip(i + 1));
        i += 1;
    }
    if i == b.len() {
        false
    } else if i == a.len() {
        true
    } else {
        a[i] < b[i]
    }
}

/// Whether the text `a` comes before the text `b` in code point order.
pub fn text_before(a: &str, b: &str) -> (r: bool)
    ensures
        r == text_lt(a@, b@),
{
    let x = chars_of(a);
    let y = chars_of(b);
    chars_before(x.as_slice(), y.as_slice())
}

pub fn digit(d: u8) -> (c: char)
    requires
        d < 10,
    ensures
        c == digit_char(d as nat),
{
    (48 + d) as char
}

/// Writes `n` in decimal.
pub fn decimal_chars(n: u64) -> (v: Vec<char>)
    ensures
        v@ == decimal(n as nat),
    decreases n,
{
    if n < 10 {
        let mut v: Vec<char> = Vec::new();
        v.push(digit(n as u8));
        assert(v@ =~= decimal(n as nat));
        v
    } else {
        let mut v = decimal_chars(n / 10);
        v.push(digit((n % 10) as u8));
        v
    }
}

/// Writes `n` in decimal.
pub fn decimal_text(n: u64) -> (s: String)
    ensures
        s@ == decimal(n as nat),
{
    let v = decimal_chars(n);
    string_of(v.as_slice())
}

/// Writes `n` in decimal with at least `width` characters, filled up with zeros.
pub fn padded_text(n: u64, width: usize) -> (s: String)
    ensures
        s@ == decimal_padded(n as nat, width as nat),
{
    let d = decimal_chars(n);
    let mut v: Vec<char> = Vec::new();
    if d.len() < width {
        let fill: usize = width - d.len();
        let mut i: usize = 0;
        while i < fill
            invariant
                i <= fill,
                v@ == Seq::new(i as nat, |k: int| '0'),
            decreases fill - i,
        {
            v.push('0');
            i += 1;
            assert(Seq::new(i as nat, |k: int| '0') =~= Seq::new((i - 1) as nat, |k: int| '0').push(
                '0',
            ));
        }
    }
    let mut all = v;
    let ghost before = all@;
    let mut j: usize = 0;
    while j < d.len()
        invariant
            j <= d@.len(),
            all@ == before + d@.take(j as int),
        decreases d@.len() - j,
    {
        all.push(d[j]);
        j += 1;
        assert(before + d@.take(j as int) =~= (before + d@.take(j - 1)).push(d@[j - 1]));
    }
    assert(d@.take(d@.len() as int) =~= d@);
    assert(all@ =~= decimal_padded(n as nat, width as nat));
    string_of(all.as_slice())
}

proof fn lemma_digits_value_prefix(s: Seq<char>, i: int)
    requires
        all_digits(s),
        0 <= i <= s.len(),
    ensures
        digits_value(s.take(i)) <= digits_value(s),
    decreases s.len() - i,
{
    if i < s.len() {
        lemma_digits_value_prefix(s, i + 1);
        assert(s.take(i + 1).drop_last() =~= s.take(i));
        assert(is_digit(s[i]));
    } else {
        assert(s.take(i) =~= s);
    }
}

/// Reads an unsigned decimal numeral of at most `max`.
pub fn parse_unsigned_chars(s: &[char], max: u64) -> (r: Option<u64>)
    ensures
        match r {
            Some(v) => parse_unsigned(s@, max as nat) == Some(v as nat),
            None => parse_unsigned(s@, max as nat) is None,
        },
{
    let start: usize = if s.len() > 0 && s[0] == '+' {
        1
    } else {
        0
    };
    let ghost d = unsigned_digits(s@);
    assert(d =~= s@.skip(start as int));
    if start == s.len() {
        return None;
    }
    let mut value: u64 = 0;
    let mut i: usize = start;
    assert(d.take(0) =~= Seq::<char>::empty());
    while i < s.len()
        invariant
            start <= i <= s@.len(),
            d == s@.skip(start as int),
            d == unsigned_digits(s@),
            all_digits(d.take(i - start)),
            value == digits_value(d.take(i - start)),
            value <= max,
        decreases s@.len() - i,
    {
        let c = s[i];
        assert(c == d[i - start]);
        if !('0' <= c && c <= '9') {
            assert(!is_digit(d[i - start]));
            return None;
        }
        let v: u64 = c as u64 - 48;
        proof {
            assert(d.take(i + 1 - start).drop_last() =~= d.take(i - start));
            assert(d.take(i + 1 - start).last() == c);
            assert(all_digits(d.take(i + 1 - start))) by {
                assert forall|k: int| 0 <= k < i + 1 - start implies is_digit(
                    #[trigger] d.take(i + 1 - start)[k],
                ) by {
                    if k < i - start {
                        assert(is_digit(d.take(i - start)[k]));
                    }
                }
            }
            if all_digits(d) {
                lemma_digits_value_prefix(d, i + 1 - start);
            }
        }
        if value > max / 10 || v > max || value * 10 > max - v {
            return None;
        }
        value = value * 10 + v;
        i += 1;
    }
    assert(d.take(s@.len() - start) =~= d);
    Some(value)
}

/// Whether `needle` stands in `s` at position `at`.
pub fn chars_at(s: &[char], needle: &[char], at: usize) -> (r: bool)
    ensures
        r == occurs_at(s@, needle@, at as int),
{
    if at > s.len() || needle.len() > s.len() - at {
        return false;
    }
    let n: usize = s.len();
    let mut i: usize = 0;
    while i < needle.len()
        invariant
            i <= needle@.len(),
            n == s@.len(),
            at + needle@.len() <= n,
            forall|k: int| 0 <= k < i ==> s@[at + k] == needle@[k],
        decreases needle@.len() - i,
    {
        if s[at + i] != needle[i] {
            assert(s@.subrange(at as int, at + needle@.len())[i as int] != needle@[i as int]);
            return false;
        }
        i += 1;
    }
    assert(s@.subrange(at as int, at + needle@.len()) =~= needle@);
    true
}

/// The first position at which `needle` occurs.
pub fn find_chars(s: &[char], needle: &[char]) -> (r: Option<usize>)
    ensures
        match r {
            Some(at) => occurs_at(s@, needle@, at as int) && forall|k: int|
                0 <= k < at ==> !#[trigger] occurs_at(s@, needle@, k),
            None => !contains_text(s@, needle@),
        },
{
    let mut at: usize = 0;
    loop
        invariant
            at <= s@.len(),
            forall|k: int| 0 <= k < at ==> !#[trigger] occurs_at(s@, needle@, k),
        decreases s@.len() - at,
    {
        if chars_at(s, needle, at) {
            return Some(at);
        }
        if at == s.len() {
            return None;
        }
        at += 1;
    }
}

/// Whether `needle` occurs anywhere in `s`.
pub fn text_contains(s: &str, needle: &str) -> (r: bool)
    ensures
        r == contains_text(s@, needle@),
{
    let v = chars_of(s);
    let n = chars_of(needle);
    let r = find_chars(v.as_slice(), n.as_slice());
    match r {
        Some(at) => {
            assert(occurs_at(s@, needle@, at as int));
            true
        },
        None => false,
    }
}

/// The text with the first occurrence of `from` replaced by `to`, or as it is without one.
pub open spec fn first_replaced(s: Seq<char>, from: Seq<char>, to: Seq<char>) -> Seq<char>
    decreases s.len(),
{
    if starts_with_text(s, from) {
        to + s.skip(from.len() as int)
    } else if s.len() == 0 {
        s
    } else {
        seq![s[0]] + first_replaced(s.drop_first(), from, to)
    }
}

proof fn lemma_first_replaced(s: Seq<char>, from: Seq<char>, to: Seq<char>, i: int)
    requires
        occurs_at(s, from, i),
        forall|k: int| 0 <= k < i ==> !#[trigger] occurs_at(s, from, k),
    ensures
        first_replaced(s, from, to) == s.take(i) + to + s.skip(i + from.len()),
    decreases i,
{
    if i == 0 {
        assert(s.take(0) + to + s.skip(from.len() as int) =~= to + s.skip(from.len() as int));
    } else {
        let rest = s.drop_first();
        assert(!occurs_at(s, from, 0));
        assert forall|k: int| 0 <= k < i implies #[trigger] occurs_at(rest, from, k) == occurs_at(
            s,
            from,
            k + 1,
        ) by {
            if 0 <= k && k + 1 + from.len() <= s.len() {
                assert(rest.subrange(k, k + from.len()) =~= s.subrange(k + 1, k + 1 + from.len()));
            }
        }
        lemma_first_replaced(rest, from, to, i - 1);
        assert(s.take(i) =~= seq![s[0]] + rest.take(i - 1));
        assert(s.skip(i + from.len()) =~= rest.skip(i - 1 + from.len()));
        assert(seq![s[0]] + (rest.take(i - 1) + to + rest.skip(i - 1 + from.len())) =~= s.take(i)
            + to + s.skip(i + from.len()));
    }
}

proof fn lemma_none_replaced(s: Seq<char>, from: Seq<char>, to: Seq<char>)
    requires
        !contains_text(s, from),
    ensures
        first_replaced(s, from, to) == s,
    decreases s.len(),
{
    assert(!occurs_at(s, from, 0));
    if s.len() > 0 {
        let rest = s.drop_first();
        assert forall|k: int| !#[trigger] occurs_at(rest, from, k) by {
            if occurs_at(rest, from, k) {
                assert(rest.subrange(k, k + from.len()) =~= s.subrange(k + 1, k + 1 + from.len()));
                assert(occurs_at(s, from, k + 1));
            }
        }
        lemma_none_replaced(rest, from, to);
        assert(seq![s[0]] + rest =~= s);
    }
}

/// Replaces the first occurrence of a text by another.
pub fn replace_first(s: &str, from: &str, to: &str) -> (r: String)
    ensures
        r@ == first_replaced(s@, from@, to@),
{
    let v = chars_of(s);
    let f = chars_of(from);
    match find_chars(v.as_slice(), f.as_slice()) {
        Some(at) => {
            let n: usize = v.len();
            assert(at + f@.len() <= n);
            let head = string_of(slice_chars(v.as_slice(), 0, at).as_slice());
            let tail = string_of(slice_chars(v.as_slice(), at + f.len(), n).as_slice());
            proof {
                lemma_first_replaced(s@, from@, to@, at as int);
                assert(head@ =~= s@.take(at as int));
                assert(tail@ =~= s@.skip(at + from@.len()));
            }
            join3(head.as_str(), to, tail.as_str())
        },
        None => {
            proof {
                lemma_none_replaced(s@, from@, to@);
            }
            s.to_owned()
        },
    }
}

pub fn text_starts_with(s: &str, prefix: &str) -> (r: bool)
    ensures
        r == starts_with_text(s@, prefix@),
{
    let v = chars_of(s);
    let n = chars_of(prefix);
    chars_at(v.as_slice(), n.as_slice(), 0)
}

pub fn text_ends_with(s: &str, suffix: &str) -> (r: bool)
    ensures
        r == ends_with_text(s@, suffix@),
{
    let v = chars_of(s);
    let n = chars_of(suffix);
    if n.len() > v.len() {
        false
    } else {
        chars_at(v.as_slice(), n.as_slice(), v.len() - n.len())
    }
}

/// Removes white space at both ends of a string.
pub fn trim_text(s: &str) -> (r: String)
    ensures
        r@ == trimmed(s@),
{
    let v = chars_of(s);
    let t = trim_chars(v.as_slice());
    string_of(t.as_slice())
}

/// Lowers the ASCII letters and keeps every other character.
pub fn lower_ascii_chars(s: &[char]) -> (v: Vec<char>)
    ensures
        v@ == ascii_lowered(s@),
{
    let mut v: Vec<char> = Vec::new();
    let mut i: usize = 0;
    while i < s.len()
        invariant
            i <= s@.len(),
            v@ == ascii_lowered(s@.take(i as int)),
        decreases s@.len() - i,
    {
        let c = s[i];
        if 'A' <= c && c <= 'Z' {
            v.push((c as u8 + 32) as char);
        } else {
            v.push(c);
        }
        i += 1;
        assert(v@ =~= ascii_lowered(s@.take(i as int)));
    }
    assert(s@.take(s@.len() as int) =~= s@);
    v
}

/// Concatenates two texts.
pub fn join2(a: &str, b: &str) -> (s: String)
    ensures
        s@ == a@ + b@,
{
    let mut s = a.to_owned();
    s.append(b);
    s
}

/// Concatenates three texts.
pub fn join3(a: &str, b: &str, c: &str) -> (s: String)
    ensures
        s@ == a@ + b@ + c@,
{
    let mut s = a.to_owned();
    s.append(b);
    s.append(c);
    s
}

/// An order of code points has no cycles and no gaps: two different texts are
/// comparable in exactly one direction.
pub proof fn lemma_text_lt_total(a: Seq<char>, b: Seq<char>)
    ensures
        text_lt(a, b) || text_lt(b, a) || a == b,
        !(text_lt(a, b) && text_lt(b, a)),
        !text_lt(a, a),
    decreases a.len(),
{
    if a.len() > 0 {
        lemma_text_lt_total(a.drop_first(), a.drop_first());
    }
    if a.len() > 0 && b.len() > 0 && a[0] == b[0] {
        lemma_text_lt_total(a.drop_first(), b.drop_first());
        if a.drop_first() == b.drop_first() {
            assert(a =~= seq![a[0]] + a.drop_first());
            assert(b =~= seq![b[0]] + b.drop_first());
        }
    }
    if a.len() == 0 && b.len() == 0 {
        assert(a =~= b);
    }
}

/// The order is transitive.
pub proof fn lemma_text_lt_trans(a: Seq<char>, b: Seq<char>, c: Seq<char>)
    requires
        text_lt(a, b),
        text_lt(b, c),
    ensures
        text_lt(a, c),
    decreases a.len(),
{
    if a.len() > 0 && a[0] == b[0] && b[0] == c[0] {
        lemma_text_lt_trans(a.drop_first(), b.drop_first(), c.drop_first());
    }
}

/// The text before and behind the first `sep`.
pub open spec fn split_once(s: Seq<char>, sep: char) -> Option<(Seq<char>, Seq<char>)>
    decreases s.len(),
{
    if s.len() == 0 {
        None
    } else if s[0] == sep {
        Some((Seq::empty(), s.drop_first()))
    } else {
        match split_once(s.drop_first(), sep) {
            Some((a, b)) => Some((seq![s[0]] + a, b)),
            None => None,
        }
    }
}

/// The first `sep` cuts a text into what stands before it and what stands behind it.
pub proof fn lemma_split_once(a: Seq<char>, sep: char, b: Seq<char>)
    requires
        forall|i: int| 0 <= i < a.len() ==> a[i] != sep,
    ensures
        split_once(a.push(sep) + b, sep) == Some((a, b)),
    decreases a.len(),
{
    let s = a.push(sep) + b;
    if a.len() == 0 {
        assert(s.drop_first() =~= b);
        assert(a =~= Seq::empty());
    } else {
        lemma_split_once(a.drop_first(), sep, b);
        assert(s.drop_first() =~= a.drop_first().push(sep) + b);
        assert(a =~= seq![s[0]] + a.drop_first());
    }
}

proof fn lemma_split_once_none(s: Seq<char>, sep: char)
    requires
        forall|i: int| 0 <= i < s.len() ==> s[i] != sep,
    ensures
        split_once(s, sep) is None,
    decreases s.len(),
{
    if s.len() > 0 {
        lemma_split_once_none(s.drop_first(), sep);
    }
}

/// The position of the first `sep`.
pub fn find_char(s: &[char], sep: char) -> (r: Option<usize>)
    ensures
        match r {
            Some(i) => i < s@.len() && s@[i as int] == sep && split_once(s@, sep) == Some(
                (s@.take(i as int), s@.skip(i + 1)),
            ),
            None => split_once(s@, sep) is None && forall|k: int|
                0 <= k < s@.len() ==> s@[k] != sep,
        },
{
    let mut i: usize = 0;
    while i < s.len()
        invariant
            i <= s@.len(),
            forall|k: int| 0 <= k < i ==> s@[k] != sep,
        decreases s@.len() - i,
    {
        if s[i] == sep {
            proof {
                lemma_split_once(s@.take(i as int), sep, s@.skip(i + 1));
                assert(s@.take(i as int).push(sep) + s@.skip(i + 1) =~= s@);
            }
            return Some(i);
        }
        i += 1;
    }
    proof {
        lemma_split_once_none(s@, sep);
    }
    None
}

/// A decimal numeral consists of digits, at least one, and reads back as its number.
pub proof fn lemma_decimal_reads_back(n: nat)
    ensures
        decimal(n).len() >= 1,
        all_digits(decimal(n)),
        digits_value(decimal(n)) == n,
    decreases n,
{
    if n < 10 {
        assert(decimal(n).drop_last() =~= Seq::<char>::empty());
        assert(digits_value(Seq::<char>::empty()) == 0);
        assert(decimal(n).last() == digit_char(n));
    } else {
        lemma_decimal_reads_back(n / 10);
        assert(decimal(n).drop_last() =~= decimal(n / 10));
        assert forall|i: int| 0 <= i < decimal(n).len() implies is_digit(#[trigger] decimal(n)[i]) by {
            if i < decimal(n / 10).len() {
                assert(is_digit(decimal(n / 10)[i]));
            }
        }
    }
}

/// A number written in decimal is read back as that number.
pub proof fn decimal_round_trip(n: nat, max: nat)
    requires
        n <= max,
    ensures
        parse_unsigned(decimal(n), max) == Some(n),
{
    lemma_decimal_reads_back(n);
    assert(is_digit(decimal(n)[0]));
}

proof fn lemma_leading_zeros(k: nat, d: Seq<char>)
    ensures
        digits_value(Seq::new(k, |i: int| '0') + d) == digits_value(d),
    decreases k + d.len(),
{
    let zeros = Seq::new(k, |i: int| '0');
    let s = zeros + d;
    if d.len() > 0 {
        assert(s.drop_last() =~= zeros + d.drop_last());
        lemma_leading_zeros(k, d.drop_last());
    } else if k > 0 {
        let fewer = Seq::new((k - 1) as nat, |i: int| '0');
        assert(s.drop_last() =~= fewer + d);
        assert(s.last() == '0');
        lemma_leading_zeros((k - 1) as nat, d);
    } else {
        assert(s =~= d);
    }
}

/// A padded numeral is a run of digits that reads as its number.
pub proof fn lemma_padded_reads_back(n: nat, width: nat)
    ensures
        all_digits(decimal_padded(n, width)),
        digits_value(decimal_padded(n, width)) == n,
{
    lemma_decimal_reads_back(n);
    let d = decimal(n);
    if d.len() < width {
        lemma_leading_zeros((width - d.len()) as nat, d);
        let p = decimal_padded(n, width);
        assert forall|i: int| 0 <= i < p.len() implies is_digit(#[trigger] p[i]) by {
            if i >= width - d.len() {
                assert(is_digit(d[i - (width - d.len())]));
            }
        }
    }
}

/// A numeral has at most one digit more than its number has tens.
pub proof fn lemma_decimal_len(n: nat, k: nat)
    requires
        n < pow10(k),
        k >= 1,
    ensures
        decimal(n).len() <= k,
    decreases k,
{
    if n >= 10 {
        if k == 1 {
            assert(pow10(0) == 1);
        } else {
            assert(n / 10 < pow10((k - 1) as nat));
            lemma_decimal_len(n / 10, (k - 1) as nat);
        }
    }
}

pub open spec fn pow10(k: nat) -> nat
    decreases k,
{
    if k == 0 {
        1
    } else {
        10 * pow10((k - 1) as nat)
    }
}

/// Text without white space at its ends stays as it is.
pub proof fn lemma_trimmed_fixed(s: Seq<char>)
    requires
        s.len() > 0 ==> !is_white_space(s[0]) && !is_white_space(s.last()),
    ensures
        trimmed(s) == s,
{
}

/// `std::str::from_utf8`: a byte slice is a text exactly if it is valid UTF-8, and the
/// text is the one that the bytes encode.
#[verifier::external_body]
pub(crate) fn utf8_text(bytes: &[u8]) -> (r: Option<String>)
    ensures
        match r {
            Some(s) => vstd::utf8::valid_utf8(bytes@) && s@ == vstd::utf8::decode_utf8(bytes@),
            None => !vstd::utf8::valid_utf8(bytes@),
        },
{
    std::str::from_utf8(bytes).ok().map(|s| s.to_owned())
}

/// Every character is an ASCII character.
pub open spec fn all_ascii(s: Seq<char>) -> bool {
    forall|i: int| 0 <= i < s.len() ==> #[trigger] s[i] <= '\u{7f}'
}

/// How many ASCII characters the text begins with.
pub open spec fn ascii_lead(s: Seq<char>) -> nat
    decreases s.len(),
{
    if s.len() == 0 || s[0] > '\u{7f}' {
        0
    } else {
        1 + ascii_lead(s.drop_first())
    }
}

/// What `str::to_lowercase` makes of a text, behind the ASCII characters that it begins with.
pub uninterp spec fn unicode_lowered(s: Seq<char>) -> Seq<char>;

/// `str::to_lowercase`: the lowercase equivalent of the text, character by character, by the
/// Unicode tables. Claimed are that it depends on the text alone, and that ASCII characters,
/// wherever they stand, stay together and become the letters `a` to `z` where they are `A`
/// to `Z`: a text that begins with them begins with their lower case, and an ASCII text is
/// lowered whole. What becomes of other characters is named, not described.
#[verifier::external_body]
pub(crate) fn lower_text(s: &str) -> (r: String)
    ensures
        r@ == ascii_lowered(s@.take(ascii_lead(s@) as int)) + unicode_lowered(s@),
        all_ascii(s@) ==> r@ == ascii_lowered(s@),
        forall|i: int, j: int|
            0 <= i <= j <= s@.len() && all_ascii(#[trigger] s@.subrange(i, j)) ==> contains_text(
                r@,
                ascii_lowered(s@.subrange(i, j)),
            ),
{
    s.to_lowercase()
}

/// The text in lower case. On ASCII texts only the letters `A` to `Z` change.
pub open spec fn lowered(s: Seq<char>) -> Seq<char> {
    if all_ascii(s) {
        ascii_lowered(s)
    } else {
        ascii_lowered(s.take(ascii_lead(s) as int)) + unicode_lowered(s)
    }
}

/// ASCII characters at the start are lowered in place.
pub proof fn lemma_lowered_start(s: Seq<char>, k: int)
    requires
        0 <= k <= s.len(),
        all_ascii(s.take(k)),
    ensures
        starts_with_text(lowered(s), ascii_lowered(s.take(k))),
{
    lemma_ascii_lead(s, k);
    assert(lowered(s).subrange(0, k) =~= ascii_lowered(s.take(k)));
}

proof fn lemma_ascii_lead(s: Seq<char>, k: int)
    requires
        0 <= k <= s.len(),
        all_ascii(s.take(k)),
    ensures
        k <= ascii_lead(s) <= s.len(),
    decreases s.len(),
{
    if s.len() > 0 && s[0] <= '\u{7f}' {
        let rest = s.drop_first();
        let n = if k > 0 {
            k - 1
        } else {
            0
        };
        assert forall|i: int| 0 <= i < n implies #[trigger] rest.take(n)[i] <= '\u{7f}' by {
            assert(s.take(k)[i + 1] <= '\u{7f}');
        }
        lemma_ascii_lead(rest, n);
    } else if k > 0 {
        assert(s.take(k)[0] <= '\u{7f}');
    }
}

/// What `String::from_utf8_lossy` makes of bytes.
pub uninterp spec fn lossy(bytes: Seq<u8>) -> Seq<char>;

/// `String::from_utf8_lossy`: the text that the bytes encode, with a replacement character
/// in place of what is no UTF-8. Claimed are that it depends on the bytes alone and what it
/// gives for valid UTF-8.
#[verifier::external_body]
pub(crate) fn lossy_text(bytes: &[u8]) -> (r: String)
    ensures
        r@ == lossy(bytes@),
        vstd::utf8::valid_utf8(bytes@) ==> r@ == vstd::utf8::decode_utf8(bytes@),
{
    String::from_utf8_lossy(bytes).into_owned()
}

/// The text without the white space at its start.
pub open spec fn trimmed_start(s: Seq<char>) -> Seq<char>
    decreases s.len(),
{
    if s.len() > 0 && is_white_space(s[0]) {
        trimmed_start(s.drop_first())
    } else {
        s
    }
}

/// Drops the white space at the start.
pub fn trim_start_text(s: &str) -> (r: String)
    ensures
        r@ == trimmed_start(s@),
{
    let v = chars_of(s);
    let mut i: usize = 0;
    assert(v@.skip(0) =~= v@);
    while i < v.len() && white_space(v[i])
        invariant
            i <= v@.len(),
            trimmed_start(v@) == trimmed_start(v@.skip(i as int)),
        decreases v@.len() - i,
    {
        assert(v@.skip(i as int).drop_first() =~= v@.skip(i + 1));
        i += 1;
    }
    let t = slice_chars(v.as_slice(), i, v.len());
    assert(t@ =~= v@.skip(i as int));
    string_of(t.as_slice())
}

/// The text as it stands between double quotes: a backslash before each backslash and each
/// double quote.
pub open spec fn quoted_inside(s: Seq<char>) -> Seq<char>
    decreases s.len(),
{
    if s.len() == 0 {
        s
    } else {
        let rest = quoted_inside(s.drop_last());
        if s.last() == '\\' || s.last() == '"' {
            rest.push('\\').push(s.last())
        } else {
            rest.push(s.last())
        }
    }
}

/// Puts a backslash before each backslash and each double quote.
pub fn quote_inside(s: &str) -> (r: String)
    ensures
        r@ == quoted_inside(s@),
{
    let v = chars_of(s);
    let mut out: Vec<char> = Vec::new();
    let mut i: usize = 0;
    assert(v@.take(0) =~= Seq::<char>::empty());
    while i < v.len()
        invariant
            i <= v@.len(),
            out@ == quoted_inside(v@.take(i as int)),
        decreases v@.len() - i,
    {
        assert(v@.take(i + 1).drop_last() =~= v@.take(i as int));
        assert(v@.take(i + 1).last() == v@[i as int]);
        if v[i] == '\\' || v[i] == '"' {
            out.push('\\');
        }
        out.push(v[i]);
        i += 1;
    }
    assert(v@.take(v@.len() as int) =~= v@);
    string_of(out.as_slice())
}

/// A text, so many times over.
pub open spec fn repeated(s: Seq<char>, times: nat) -> Seq<char>
    decreases times,
{
    if times == 0 {
        Seq::empty()
    } else {
        repeated(s, (times - 1) as nat) + s
    }
}

/// A text, so many times over, between two others.
pub fn repeat_between(head: &str, s: &str, times: u32, tail: &str) -> (r: String)
    ensures
        r@ == head@ + repeated(s@, times as nat) + tail@,
{
    let mut r = head.to_owned();
    let mut i: u32 = 0;
    assert(head@ + repeated(s@, 0) =~= head@);
    while i < times
        invariant
            i <= times,
            r@ == head@ + repeated(s@, i as nat),
        decreases times - i,
    {
        r.append(s);
        i += 1;
        assert(r@ =~= head@ + repeated(s@, i as nat));
    }
    r.append(tail);
    r
}

/// Texts with a separator between them.
pub open spec fn joined(parts: Seq<Seq<char>>, sep: Seq<char>) -> Seq<char>
    decreases parts.len(),
{
    if parts.len() == 0 {
        Seq::empty()
    } else if parts.len() == 1 {
        parts[0]
    } else {
        joined(parts.drop_last(), sep) + sep + parts.last()
    }
}

/// The text holds no `sep`.
pub open spec fn lacks(s: Seq<char>, sep: char) -> bool {
    forall|i: int| 0 <= i < s.len() ==> #[trigger] s[i] != sep
}

/// The pieces of a text lack what it was split at, and there is at least one.
pub proof fn lemma_split_lacks(s: Seq<char>, sep: char)
    ensures
        split_on(s, sep).len() >= 1,
        forall|i: int| 0 <= i < split_on(s, sep).len() ==> lacks(#[trigger] split_on(s, sep)[i], sep),
    decreases s.len(),
{
    if s.len() > 0 {
        lemma_split_lacks(s.drop_last(), sep);
        let rest = split_on(s.drop_last(), sep);
        assert(lacks(rest.last(), sep));
    }
}

proof fn lemma_split_behind(s: Seq<char>, sep: char, t: Seq<char>)
    requires
        lacks(t, sep),
    ensures
        split_on(s.push(sep) + t, sep) == split_on(s, sep).push(t),
    decreases t.len(),
{
    let all = s.push(sep) + t;
    if t.len() == 0 {
        assert(all =~= s.push(sep));
        assert(all.drop_last() =~= s);
        assert(t =~= Seq::<char>::empty());
    } else {
        assert(all.drop_last() =~= s.push(sep) + t.drop_last());
        assert(t.last() == t[t.len() - 1]);
        lemma_split_behind(s, sep, t.drop_last());
        assert(split_on(s, sep).push(t.drop_last()).drop_last() =~= split_on(s, sep));
        assert(t.drop_last().push(t.last()) =~= t);
    }
}

proof fn lemma_split_whole(t: Seq<char>, sep: char)
    requires
        lacks(t, sep),
    ensures
        split_on(t, sep) == seq![t],
    decreases t.len(),
{
    if t.len() > 0 {
        lemma_split_whole(t.drop_last(), sep);
        assert(t.last() == t[t.len() - 1]);
        assert(t.drop_last().push(t.last()) =~= t);
        assert(split_on(t, sep) =~= seq![t]);
    }
}

/// Texts that were joined come apart again at the separator, where none of them holds it.
pub proof fn splitting_undoes_joining(parts: Seq<Seq<char>>, sep: char)
    requires
        parts.len() >= 1,
        forall|i: int| 0 <= i < parts.len() ==> lacks(#[trigger] parts[i], sep),
    ensures
        split_on(joined(parts, seq![sep]), sep) == parts,
    decreases parts.len(),
{
    if parts.len() == 1 {
        lemma_split_whole(parts[0], sep);
        assert(seq![parts[0]] =~= parts);
    } else {
        let rest = parts.drop_last();
        assert forall|i: int| 0 <= i < rest.len() implies lacks(#[trigger] rest[i], sep) by {
            assert(rest[i] == parts[i]);
        }
        splitting_undoes_joining(rest, sep);
        let head = joined(rest, seq![sep]);
        assert(head + seq![sep] + parts.last() =~= head.push(sep) + parts.last());
        lemma_split_behind(head, sep, parts.last());
        assert(rest.push(parts.last()) =~= parts);
    }
}

/// Trimming takes characters away at the ends only, and once is enough.
pub proof fn lemma_trimmed(s: Seq<char>, sep: char)
    ensures
        trimmed(trimmed(s)) == trimmed(s),
        lacks(s, sep) ==> lacks(trimmed(s), sep),
    decreases s.len(),
{
    if s.len() == 0 {
    } else if is_white_space(s[0]) {
        lemma_trimmed(s.drop_first(), sep);
        if lacks(s, sep) {
            assert forall|i: int| 0 <= i < s.drop_first().len() implies #[trigger] s.drop_first()[i]
                != sep by {
                assert(s[i + 1] != sep);
            }
        }
    } else if is_white_space(s.last()) {
        lemma_trimmed(s.drop_last(), sep);
        if lacks(s, sep) {
            assert forall|i: int| 0 <= i < s.drop_last().len() implies #[trigger] s.drop_last()[i]
                != sep by {
                assert(s[i] != sep);
            }
        }
    }
}

/// Joins texts with a separator between them.
pub fn join_texts(parts: &Vec<String>, sep: &str) -> (r: String)
    ensures
        r@ == joined(parts@.map_values(|s: String| s@), sep@),
{
    let ghost views = parts@.map_values(|s: String| s@);
    if parts.len() == 0 {
        let r = String::new();
        assert(r@ =~= joined(views, sep@));
        return r;
    }
    let mut r = parts[0].clone();
    let mut i: usize = 1;
    while i < parts.len()
        invariant
            1 <= i <= parts@.len(),
            views == parts@.map_values(|s: String| s@),
            r@ == joined(views.take(i as int), sep@),
        decreases parts@.len() - i,
    {
        assert(views.take(i + 1).drop_last() =~= views.take(i as int));
        assert(views.take(i + 1).last() == parts@[i as int]@);
        r.append(sep);
        r.append(parts[i].as_str());
        i += 1;
    }
    assert(views.take(parts@.len() as int) =~= views);
    r
}

/// Nothing is lost in splitting: the pieces, with the separator between them, are the text.
pub proof fn joining_undoes_splitting(s: Seq<char>, sep: char)
    ensures
        joined(split_on(s, sep), seq![sep]) == s,
    decreases s.len(),
{
    let all = split_on(s, sep);
    lemma_split_lacks(s, sep);
    if s.len() > 0 {
        let rest = split_on(s.drop_last(), sep);
        lemma_split_lacks(s.drop_last(), sep);
        joining_undoes_splitting(s.drop_last(), sep);
        if s.last() == sep {
            assert(all.drop_last() =~= rest);
            assert(joined(all, seq![sep]) =~= s);
        } else {
            let grown = rest.last().push(s.last());
            assert(all.drop_last() =~= rest.drop_last());
            assert(all.last() == grown);
            if rest.len() == 1 {
                assert(all.len() == 1);
                assert(joined(rest, seq![sep]) == rest[0]);
                assert(joined(all, seq![sep]) =~= s);
            } else {
                assert(all.len() == rest.len());
                let head = joined(rest.drop_last(), seq![sep]);
                assert(joined(rest, seq![sep]) == head + seq![sep] + rest.last());
                assert(joined(all, seq![sep]) == head + seq![sep] + grown);
                assert(head + seq![sep] + grown =~= (head + seq![sep] + rest.last()).push(
                    s.last(),
                ));
                assert(s.drop_last().push(s.last()) =~= s);
            }
        }
    } else {
        assert(all.len() == 1 && all[0] == s);
    }
}

/// Every character is white space.
pub open spec fn only_white_space(s: Seq<char>) -> bool {
    forall|i: int| 0 <= i < s.len() ==> is_white_space(#[trigger] s[i])
}

/// Trimming takes white space away at both ends, nothing else, and all of it.
pub proof fn trimming_takes_only_white_space(s: Seq<char>)
    ensures
        exists|a: Seq<char>, b: Seq<char>|
            only_white_space(a) && only_white_space(b) && s == #[trigger] (a + trimmed(s) + b),
        trimmed(s).len() > 0 ==> !is_white_space(trimmed(s)[0]) && !is_white_space(
            trimmed(s).last(),
        ),
    decreases s.len(),
{
    let t = trimmed(s);
    let none = Seq::<char>::empty();
    if s.len() == 0 {
        assert(none + t + none =~= s);
    } else if is_white_space(s[0]) {
        trimming_takes_only_white_space(s.drop_first());
        let (a, b) = choose|a: Seq<char>, b: Seq<char>|
            only_white_space(a) && only_white_space(b) && s.drop_first() == #[trigger] (a + t + b);
        let longer = seq![s[0]] + a;
        assert forall|i: int| 0 <= i < longer.len() implies is_white_space(#[trigger] longer[i]) by {
            if i > 0 {
                assert(longer[i] == a[i - 1]);
            }
        }
        assert(longer + t + b =~= seq![s[0]] + (a + t + b));
        assert(seq![s[0]] + s.drop_first() =~= s);
    } else if is_white_space(s.last()) {
        trimming_takes_only_white_space(s.drop_last());
        let (a, b) = choose|a: Seq<char>, b: Seq<char>|
            only_white_space(a) && only_white_space(b) && s.drop_last() == #[trigger] (a + t + b);
        let longer = b.push(s.last());
        assert forall|i: int| 0 <= i < longer.len() implies is_white_space(#[trigger] longer[i]) by {
            if i < b.len() {
                assert(longer[i] == b[i]);
            }
        }
        assert(a + t + longer =~= (a + t + b).push(s.last()));
        assert(s.drop_last().push(s.last()) =~= s);
    } else {
        assert(none + t + none =~= s);
    }
}

/// Numerals are in base ten: one digit more at the end is ten times the number and the digit.
pub proof fn numerals_are_in_base_ten(n: nat, d: nat)
    requires
        d < 10,
    ensures
        decimal(d) == seq![digit_char(d)],
        n > 0 ==> decimal(10 * n + d) == decimal(n).push(digit_char(d)),
        digit_char(d) as int == '0' as int + d,
{
}

/// A number may be written with a plus sign before it. It is refused where anything but digits
/// stands in it, where there are none, and where it is too large.
pub proof fn numbers_are_read_strictly(n: nat, max: nat, s: Seq<char>, i: int)
    ensures
        n <= max ==> parse_unsigned(seq!['+'] + decimal(n), max) == Some(n),
        n > max ==> parse_unsigned(decimal(n), max) is None,
        parse_unsigned(Seq::empty(), max) is None,
        parse_unsigned(seq!['+'], max) is None,
        0 < i < s.len() && !('0' <= s[i] <= '9') ==> parse_unsigned(s, max) is None,
        parse_unsigned(s, max) matches Some(v) ==> v <= max,
{
    lemma_decimal_reads_back(n);
    assert((seq!['+'] + decimal(n)).drop_first() =~= decimal(n));
    assert(seq!['+'].drop_first() =~= Seq::<char>::empty());
    assert(is_digit(decimal(n)[0]));
    if 0 < i < s.len() && !('0' <= s[i] <= '9') {
        if s[0] == '+' {
            assert(s.drop_first()[i - 1] == s[i]);
        }
        assert(!all_digits(unsigned_digits(s)));
    }
}

/// Texts are ordered by their first difference: the one with the smaller character there comes
/// first, and a text comes before every longer one that begins with it.
pub proof fn texts_are_ordered_by_their_first_difference(
    head: Seq<char>,
    a: Seq<char>,
    b: Seq<char>,
)
    ensures
        a.len() > 0 && b.len() > 0 && a[0] < b[0] ==> text_lt(head + a, head + b) && !text_lt(
            head + b,
            head + a,
        ),
        b.len() > 0 ==> text_lt(head, head + b) && !text_lt(head + b, head),
        !text_lt(head, head),
    decreases head.len(),
{
    if head.len() > 0 {
        let rest = head.drop_first();
        texts_are_ordered_by_their_first_difference(rest, a, b);
        assert((head + a).drop_first() =~= rest + a);
        assert((head + b).drop_first() =~= rest + b);
    } else {
        assert(head + a =~= a);
        assert(head + b =~= b);
    }
}

/// The first occurrence of a text gives way to another one, and nothing else changes; where it
/// does not occur nothing does.
pub proof fn the_first_occurrence_is_replaced(
    s: Seq<char>,
    from: Seq<char>,
    to: Seq<char>,
    i: int,
)
    ensures
        occurs_at(s, from, i) && (forall|k: int| 0 <= k < i ==> !#[trigger] occurs_at(s, from, k))
            ==> first_replaced(s, from, to) == s.take(i) + to + s.skip(i + from.len()),
        !contains_text(s, from) ==> first_replaced(s, from, to) == s,
{
    if occurs_at(s, from, i) && (forall|k: int| 0 <= k < i ==> !#[trigger] occurs_at(s, from, k)) {
        lemma_first_replaced(s, from, to, i);
    }
    if !contains_text(s, from) {
        lemma_none_replaced(s, from, to);
    }
}

/// Lower case in ASCII: the letters A to Z become a to z, and every other character stays, each
/// in its place.
pub proof fn ascii_letters_are_lowered(s: Seq<char>, i: int)
    requires
        0 <= i < s.len(),
    ensures
        ascii_lowered(s).len() == s.len(),
        'A' <= s[i] <= 'Z' ==> ascii_lowered(s)[i] as int == s[i] as int + 32,
        !('A' <= s[i] <= 'Z') ==> ascii_lowered(s)[i] == s[i],
{
}

/// White space is what Unicode calls so.
pub proof fn white_space_is_these_characters(c: char)
    ensures
        is_white_space(c) <==> {
            let n = c as u32;
            ||| 9 <= n <= 13
            ||| n == 32
            ||| n == 133
            ||| n == 160
            ||| n == 5760
            ||| 8192 <= n <= 8202
            ||| n == 8232
            ||| n == 8233
            ||| n == 8239
            ||| n == 8287
            ||| n == 12288
        },
{
}

/// White space at the beginning is taken away, all of it and nothing else.
pub proof fn leading_white_space_is_taken_away(s: Seq<char>)
    ensures
        exists|a: Seq<char>| only_white_space(a) && s == #[trigger] (a + trimmed_start(s)),
        trimmed_start(s).len() > 0 ==> !is_white_space(trimmed_start(s)[0]),
    decreases s.len(),
{
    let t = trimmed_start(s);
    if s.len() > 0 && is_white_space(s[0]) {
        leading_white_space_is_taken_away(s.drop_first());
        let a = choose|a: Seq<char>| only_white_space(a) && s.drop_first() == #[trigger] (a + t);
        let longer = seq![s[0]] + a;
        assert forall|i: int| 0 <= i < longer.len() implies is_white_space(#[trigger] longer[i]) by {
            if i > 0 {
                assert(longer[i] == a[i - 1]);
            }
        }
        assert(longer + t =~= seq![s[0]] + (a + t));
        assert(seq![s[0]] + s.drop_first() =~= s);
    } else {
        assert(Seq::<char>::empty() + t =~= s);
    }
}

} // verus!
