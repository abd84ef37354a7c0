//! Regular expressions, and what redaction makes of a text.
use regex::{Regex, RegexSet};
use vstd::prelude::*;

use crate::broker_client::texts;

verus! {

/// What redaction writes in place of a match.
pub const REDACTED: &'static str = "<REDACTED>";

/// A compiled regular expression of the `regex` crate.
#[verifier::external_type_specification]
#[verifier::external_body]
pub struct ExRegex(regex::Regex);

/// A compiled set of regular expressions of the `regex` crate.
#[verifier::external_type_specification]
#[verifier::external_body]
pub struct ExRegexSet(regex::RegexSet);

/// The pattern that a regular expression was compiled from (`Regex::as_str`).
pub uninterp spec fn regex_source(re: Regex) -> Seq<char>;

/// The patterns that a set was compiled from, in order (`RegexSet::patterns`).
pub uninterp spec fn set_sources(set: RegexSet) -> Seq<Seq<char>>;

/// Whether a pattern is a regular expression that `Regex::new` accepts.
pub uninterp spec fn regex_compiles(pattern: Seq<char>) -> bool;

/// Whether `RegexSet::new` accepts these patterns together.
pub uninterp spec fn regex_set_compiles(patterns: Seq<Seq<char>>) -> bool;

/// Whether the regular expression matches somewhere in the text.
pub uninterp spec fn regex_matches(pattern: Seq<char>, text: Seq<char>) -> bool;

/// The text with every match of the regular expression replaced.
pub uninterp spec fn regex_replaced(
    pattern: Seq<char>,
    text: Seq<char>,
    replacement: Seq<char>,
) -> Seq<char>;

/// `regex::Regex::new`: compiles a pattern; whether it can is a property of the pattern.
#[verifier::external_body]
fn compile(pattern: &str) -> (r: Option<Regex>)
    ensures
        match r {
            Some(re) => regex_compiles(pattern@) && regex_source(re) == pattern@,
            None => !regex_compiles(pattern@),
        },
{
    Regex::new(pattern).ok()
}

/// `regex::RegexSet::new`: compiles the patterns together; whether it can is a property of
/// the patterns.
#[verifier::external_body]
fn compile_set(patterns: &Vec<String>) -> (r: Option<RegexSet>)
    ensures
        match r {
            Some(set) => regex_set_compiles(texts(patterns@)) && set_sources(set) == texts(
                patterns@,
            ),
            None => !regex_set_compiles(texts(patterns@)),
        },
{
    RegexSet::new(patterns).ok()
}

/// `regex::Regex::is_match`: whether the pattern matches anywhere in the text.
#[verifier::external_body]
fn matches_text(re: &Regex, text: &str) -> (r: bool)
    ensures
        r == regex_matches(regex_source(*re), text@),
{
    re.is_match(text)
}

/// `regex::RegexSet::is_match`: whether one of the patterns matches anywhere in the text.
#[verifier::external_body]
fn set_matches_text(set: &RegexSet, text: &str) -> (r: bool)
    ensures
        r == any_matches(set_sources(*set), text@),
{
    set.is_match(text)
}

/// `regex::Regex::replace_all`: replaces every match; a text without a match stays as it
/// is.
#[verifier::external_body]
fn replace_matches(re: &Regex, text: &str, replacement: &str) -> (r: String)
    ensures
        r@ == regex_replaced(regex_source(*re), text@, replacement@),
        !regex_matches(regex_source(*re), text@) ==> r@ == text@,
{
    re.replace_all(text, replacement).into_owned()
}

/// Whether some pattern matches the text.
pub open spec fn any_matches(patterns: Seq<Seq<char>>, text: Seq<char>) -> bool {
    exists|i: int| 0 <= i < patterns.len() && #[trigger] regex_matches(patterns[i], text)
}

/// The patterns that compile, in order.
pub open spec fn compilable(patterns: Seq<Seq<char>>) -> Seq<Seq<char>>
    decreases patterns.len(),
{
    if patterns.len() == 0 {
        Seq::empty()
    } else {
        let before = compilable(patterns.drop_last());
        if regex_compiles(patterns.last()) {
            before.push(patterns.last())
        } else {
            before
        }
    }
}

/// The text with the matches of the patterns replaced, one pattern after the other.
pub open spec fn replaced_by_all(patterns: Seq<Seq<char>>, text: Seq<char>) -> Seq<char>
    decreases patterns.len(),
{
    if patterns.len() == 0 {
        text
    } else {
        let t = replaced_by_all(patterns.drop_last(), text);
        if regex_matches(patterns.last(), t) {
            regex_replaced(patterns.last(), t, REDACTED@)
        } else {
            t
        }
    }
}

/// What the patterns of compiled expressions are.
pub open spec fn sources_of(v: Seq<Regex>) -> Seq<Seq<char>> {
    v.map_values(|re: Regex| regex_source(re))
}

/// Compiled patterns, in the order in which they were given.
pub struct PatternList {
    regexes: Vec<Regex>,
}

impl View for PatternList {
    type V = Seq<Seq<char>>;

    closed spec fn view(&self) -> Seq<Seq<char>> {
        sources_of(self.regexes@)
    }
}

impl PatternList {
    pub fn empty() -> (p: PatternList)
        ensures
            p@ == Seq::<Seq<char>>::empty(),
    {
        let p = PatternList { regexes: Vec::new() };
        assert(p@ =~= Seq::<Seq<char>>::empty());
        p
    }

    /// Compiles the patterns and skips those that are no regular expressions. The second
    /// part of the result are the patterns that remain, as they were given.
    pub fn compile_all(patterns: &Vec<String>) -> (r: (PatternList, Vec<String>))
        ensures
            r.0@ == compilable(texts(patterns@)),
            texts(r.1@) == compilable(texts(patterns@)),
    {
        let mut regexes: Vec<Regex> = Vec::new();
        let mut sources: Vec<String> = Vec::new();
        let ghost all = texts(patterns@);
        let mut i: usize = 0;
        assert(all.take(0) =~= Seq::<Seq<char>>::empty());
        assert(sources_of(regexes@) =~= Seq::<Seq<char>>::empty());
        assert(texts(sources@) =~= Seq::<Seq<char>>::empty());
        while i < patterns.len()
            invariant
                i <= patterns@.len(),
                all == texts(patterns@),
                sources_of(regexes@) == compilable(all.take(i as int)),
                texts(sources@) == compilable(all.take(i as int)),
            decreases patterns@.len() - i,
        {
            assert(all.take(i + 1).drop_last() =~= all.take(i as int));
            assert(all.take(i + 1).last() == patterns@[i as int]@);
            match compile(patterns[i].as_str()) {
                Some(re) => {
                    let ghost before = regexes@;
                    regexes.push(re);
                    assert(sources_of(regexes@) =~= sources_of(before).push(regex_source(re)));
                    let ghost kept = sources@;
                    sources.push(patterns[i].clone());
                    assert(texts(sources@) =~= texts(kept).push(patterns@[i as int]@));
                },
                None => {},
            }
            i += 1;
        }
        assert(all.take(all.len() as int) =~= all);
        (PatternList { regexes }, sources)
    }

    pub fn is_empty(&self) -> (r: bool)
        ensures
            r == (self@.len() == 0),
    {
        self.regexes.len() == 0
    }

    /// Whether some pattern matches the text.
    pub fn any_match(&self, text: &str) -> (r: bool)
        ensures
            r == any_matches(self@, text@),
    {
        let mut i: usize = 0;
        while i < self.regexes.len()
            invariant
                i <= self.regexes@.len(),
                forall|k: int| 0 <= k < i ==> !#[trigger] regex_matches(self@[k], text@),
            decreases self.regexes@.len() - i,
        {
            assert(self@[i as int] == regex_source(self.regexes@[i as int]));
            if matches_text(&self.regexes[i], text) {
                assert(regex_matches(self@[i as int], text@));
                return true;
            }
            i += 1;
        }
        false
    }

    /// Replaces what the patterns match, one pattern after the other, and says whether any
    /// of them matched when its turn came.
    pub fn replace_all(&self, text: &str) -> (r: (String, bool))
        ensures
            r.0@ == replaced_by_all(self@, text@),
            r.1 == hit_in_turn(self@, text@),
    {
        let mut current = text.to_owned();
        let mut hit = false;
        let mut i: usize = 0;
        let ghost all = self@;
        assert(all.take(0) =~= Seq::<Seq<char>>::empty());
        while i < self.regexes.len()
            invariant
                i <= self.regexes@.len(),
                all == self@,
                all.len() == self.regexes@.len(),
                current@ == replaced_by_all(all.take(i as int), text@),
                hit == hit_in_turn(all.take(i as int), text@),
            decreases self.regexes@.len() - i,
        {
            assert(all.take(i + 1).drop_last() =~= all.take(i as int));
            assert(all.take(i + 1).last() == regex_source(self.regexes@[i as int]));
            if matches_text(&self.regexes[i], current.as_str()) {
                hit = true;
                current = replace_matches(&self.regexes[i], current.as_str(), REDACTED);
            }
            i += 1;
        }
        assert(all.take(all.len() as int) =~= all);
        (current, hit)
    }
}

/// Some pattern matches the text that those before it left.
pub open spec fn hit_in_turn(patterns: Seq<Seq<char>>, text: Seq<char>) -> bool
    decreases patterns.len(),
{
    if patterns.len() == 0 {
        false
    } else {
        ||| hit_in_turn(patterns.drop_last(), text)
        ||| regex_matches(patterns.last(), replaced_by_all(patterns.drop_last(), text))
    }
}

/// A text that no pattern matches is left as it is.
pub proof fn unmatched_text_is_kept(patterns: Seq<Seq<char>>, text: Seq<char>)
    requires
        !any_matches(patterns, text),
    ensures
        replaced_by_all(patterns, text) == text,
        !hit_in_turn(patterns, text),
    decreases patterns.len(),
{
    if patterns.len() > 0 {
        let p = patterns.drop_last();
        assert forall|i: int| 0 <= i < p.len() implies !#[trigger] regex_matches(p[i], text) by {
            assert(regex_matches(p[i], text) == regex_matches(patterns[i], text));
        }
        unmatched_text_is_kept(p, text);
        assert(!regex_matches(patterns[patterns.len() - 1], text));
    }
}

proof fn lemma_hit_when_some_match(patterns: Seq<Seq<char>>, text: Seq<char>)
    requires
        any_matches(patterns, text),
    ensures
        hit_in_turn(patterns, text),
    decreases patterns.len(),
{
    let i = choose|i: int| 0 <= i < patterns.len() && #[trigger] regex_matches(patterns[i], text);
    let p = patterns.drop_last();
    if i < p.len() {
        assert(regex_matches(p[i], text));
        lemma_hit_when_some_match(p, text);
    } else if any_matches(p, text) {
        lemma_hit_when_some_match(p, text);
    } else {
        unmatched_text_is_kept(p, text);
    }
}

/// Replacing hits something exactly if some pattern matches the text as it was given.
pub proof fn hit_iff_some_match(patterns: Seq<Seq<char>>, text: Seq<char>)
    ensures
        hit_in_turn(patterns, text) == any_matches(patterns, text),
{
    if any_matches(patterns, text) {
        lemma_hit_when_some_match(patterns, text);
    } else {
        unmatched_text_is_kept(patterns, text);
    }
}

/// A set of patterns with the single patterns beside it.
pub struct PatternSet {
    set: RegexSet,
    list: PatternList,
}

impl View for PatternSet {
    type V = Seq<Seq<char>>;

    closed spec fn view(&self) -> Seq<Seq<char>> {
        self.list@
    }
}

impl PatternSet {
    /// The set holds the same patterns as the list.
    pub closed spec fn wf(self) -> bool {
        set_sources(self.set) == self.list@
    }

    /// Compiles the patterns and skips those that are no regular expressions. Fails only
    /// where those that remain cannot be compiled together.
    pub fn new(patterns: &Vec<String>) -> (r: Option<PatternSet>)
        ensures
            match r {
                Some(s) => s.wf() && s@ == compilable(texts(patterns@)) && regex_set_compiles(s@),
                None => !regex_set_compiles(compilable(texts(patterns@))),
            },
    {
        let (list, sources) = PatternList::compile_all(patterns);
        match compile_set(&sources) {
            Some(set) => Some(PatternSet { set, list }),
            None => None,
        }
    }

    /// The text with every match replaced.
    pub fn scrub_str(&self, s: &str) -> (r: String)
        requires
            self.wf(),
        ensures
            r@ == replaced_by_all(self@, s@),
    {
        if self.list.is_empty() || !set_matches_text(&self.set, s) {
            proof {
                unmatched_text_is_kept(self@, s@);
            }
            return s.to_owned();
        }
        let (out, _) = self.list.replace_all(s);
        out
    }
}

/// The patterns that are used are those of the given ones that are regular expressions, in
/// their order.
pub proof fn compilable_patterns_are_kept(patterns: Seq<Seq<char>>)
    ensures
        compilable(patterns) == patterns.filter(|p: Seq<char>| regex_compiles(p)),
    decreases patterns.len(),
{
    reveal(Seq::filter);
    if patterns.len() > 0 {
        compilable_patterns_are_kept(patterns.drop_last());
    } else {
        assert(compilable(patterns) =~= patterns.filter(|p: Seq<char>| regex_compiles(p)));
    }
}

/// One pattern replaces every match of its own in a text, and leaves a text alone in which
/// there is none.
pub proof fn one_pattern_replaces_its_matches(pattern: Seq<char>, text: Seq<char>)
    ensures
        regex_matches(pattern, text) ==> replaced_by_all(seq![pattern], text) == regex_replaced(
            pattern,
            text,
            "<REDACTED>"@,
        ),
        !regex_matches(pattern, text) ==> replaced_by_all(seq![pattern], text) == text,
{
    let one = seq![pattern];
    assert(one.drop_last() =~= Seq::<Seq<char>>::empty());
    assert(one.last() == pattern);
    assert(replaced_by_all(one.drop_last(), text) == text);
}

/// Patterns work one behind the other: more patterns behind the first ones replace what those
/// have left.
pub proof fn patterns_replace_in_turn(a: Seq<Seq<char>>, b: Seq<Seq<char>>, text: Seq<char>)
    ensures
        replaced_by_all(a + b, text) == replaced_by_all(b, replaced_by_all(a, text)),
        replaced_by_all(Seq::empty(), text) == text,
    decreases b.len(),
{
    if b.len() > 0 {
        patterns_replace_in_turn(a, b.drop_last(), text);
        assert((a + b).drop_last() =~= a + b.drop_last());
        assert((a + b).last() == b.last());
    } else {
        assert(a + b =~= a);
    }
}

} // verus!
