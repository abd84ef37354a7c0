//! What a session may not touch and may not see.
use vstd::prelude::*;

use crate::broker_client::{opt_text, texts};
use crate::patterns::{any_matches, compilable, replaced_by_all, PatternList};
use crate::text::{contains_text, decimal, decimal_text, join3, text_contains};
use crate::types::{ClipboardItem, ClipboardKind, PrivacyPolicy};

verus! {

/// What a clipboard entry is.
pub struct ClipboardView {
    pub change_count: i64,
    pub timestamp_ms: u64,
    pub types: Seq<Seq<char>>,
    pub kind: ClipboardKind,
    pub text: Option<Seq<char>>,
    pub files: Seq<Seq<char>>,
    pub redacted: bool,
}

impl View for ClipboardItem {
    type V = ClipboardView;

    open spec fn view(&self) -> ClipboardView {
        ClipboardView {
            change_count: self.change_count,
            timestamp_ms: self.timestamp_ms,
            types: texts(self.types@),
            kind: self.kind,
            text: opt_text(self.text),
            files: texts(self.files@),
            redacted: self.redacted,
        }
    }
}

/// A copy of a list of strings.
pub fn copy_texts(v: &Vec<String>) -> (r: Vec<String>)
    ensures
        texts(r@) == texts(v@),
{
    let mut r: Vec<String> = Vec::new();
    let mut i: usize = 0;
    while i < v.len()
        invariant
            i <= v@.len(),
            r@.len() == i,
            forall|k: int| 0 <= k < i ==> (#[trigger] r@[k])@ == v@[k]@,
        decreases v@.len() - i,
    {
        r.push(v[i].clone());
        i += 1;
    }
    assert(texts(r@) =~= texts(v@));
    r
}

/// A copy of a clipboard entry.
pub fn copy_item(item: &ClipboardItem) -> (r: ClipboardItem)
    ensures
        r@ == item@,
{
    ClipboardItem {
        change_count: item.change_count,
        timestamp_ms: item.timestamp_ms,
        types: copy_texts(&item.types),
        kind: item.kind,
        text: match &item.text {
            Some(t) => Some(t.clone()),
            None => None,
        },
        files: copy_texts(&item.files),
        redacted: item.redacted,
    }
}

/// The policy of a session, compiled.
pub struct RedactionEngine {
    patterns: PatternList,
    app_blocklist: Vec<String>,
}

/// An entry of the blocklist is part of the bundle id. Empty entries block nothing.
pub open spec fn blocked_by(blocklist: Seq<Seq<char>>, bundle_id: Seq<char>) -> bool {
    exists|i: int|
        0 <= i < blocklist.len() && (#[trigger] blocklist[i]).len() > 0 && contains_text(
            bundle_id,
            blocklist[i],
        )
}

/// What stands in place of a text that may not be seen.
pub open spec fn withheld(text: Seq<char>) -> Seq<char> {
    "[redacted len="@ + decimal(text.len()) + "]"@
}

/// The clipboard entry as the session may see it: a text that matches is left out.
pub open spec fn shown_item(patterns: Seq<Seq<char>>, item: ClipboardView) -> ClipboardView {
    match item.text {
        Some(t) => if item.kind == ClipboardKind::String && any_matches(patterns, t) {
            ClipboardView { text: None, redacted: true, ..item }
        } else {
            item
        },
        None => item,
    }
}

impl RedactionEngine {
    /// The patterns in force.
    pub closed spec fn patterns(self) -> Seq<Seq<char>> {
        self.patterns@
    }

    pub closed spec fn blocklist(self) -> Seq<Seq<char>> {
        texts(self.app_blocklist@)
    }

    /// Without a policy: nothing is blocked or withheld.
    pub fn new() -> (e: RedactionEngine)
        ensures
            e.patterns() == Seq::<Seq<char>>::empty(),
            e.blocklist() == Seq::<Seq<char>>::empty(),
    {
        let e = RedactionEngine { patterns: PatternList::empty(), app_blocklist: Vec::new() };
        assert(e.blocklist() =~= Seq::<Seq<char>>::empty());
        e
    }

    /// Puts a policy in force in place of the one before. Patterns that are no regular
    /// expressions are skipped.
    pub fn install(&mut self, policy: &PrivacyPolicy)
        ensures
            final(self).patterns() == compilable(texts(policy.redact_patterns@)),
            final(self).blocklist() == texts(policy.app_blocklist@),
    {
        let (patterns, _) = PatternList::compile_all(&policy.redact_patterns);
        self.patterns = patterns;
        self.app_blocklist = copy_texts(&policy.app_blocklist);
    }

    /// Whether the session may not touch that application.
    pub fn is_blocked(&self, bundle_id: &str) -> (r: bool)
        ensures
            r == blocked_by(self.blocklist(), bundle_id@),
    {
        let mut i: usize = 0;
        while i < self.app_blocklist.len()
            invariant
                i <= self.app_blocklist@.len(),
                forall|k: int|
                    0 <= k < i ==> !((#[trigger] self.blocklist()[k]).len() > 0 && contains_text(
                        bundle_id@,
                        self.blocklist()[k],
                    )),
            decreases self.app_blocklist@.len() - i,
        {
            let needle = self.app_blocklist[i].as_str();
            assert(self.blocklist()[i as int] == needle@);
            if !needle.is_empty() && text_contains(bundle_id, needle) {
                return true;
            }
            i += 1;
        }
        false
    }

    /// Whether the policy blocks anything at all.
    pub fn has_blocklist(&self) -> (r: bool)
        ensures
            r == exists|i: int|
                0 <= i < self.blocklist().len() && (#[trigger] self.blocklist()[i]).len() > 0,
    {
        let mut i: usize = 0;
        while i < self.app_blocklist.len()
            invariant
                i <= self.app_blocklist@.len(),
                forall|k: int| 0 <= k < i ==> (#[trigger] self.blocklist()[k]).len() == 0,
            decreases self.app_blocklist@.len() - i,
        {
            assert(self.blocklist()[i as int] == self.app_blocklist@[i as int]@);
            if !self.app_blocklist[i].as_str().is_empty() {
                return true;
            }
            i += 1;
        }
        false
    }

    /// Whether some pattern matches the text.
    pub fn matches(&self, s: &str) -> (r: bool)
        ensures
            r == any_matches(self.patterns(), s@),
    {
        self.patterns.any_match(s)
    }

    /// The clipboard entry as the session may see it.
    pub fn apply_clipboard(&self, item: &ClipboardItem) -> (r: ClipboardItem)
        ensures
            r@ == shown_item(self.patterns(), item@),
    {
        let needs = match &item.text {
            Some(t) => match item.kind {
                ClipboardKind::String => self.matches(t.as_str()),
                _ => false,
            },
            None => false,
        };
        let mut r = copy_item(item);
        if needs {
            r.text = None;
            r.redacted = true;
        }
        r
    }

    /// The text with its matches replaced and all else kept, or none where nothing
    /// matches.
    pub fn scrub_text(&self, s: &str) -> (r: Option<String>)
        ensures
            match r {
                Some(t) => any_matches(self.patterns(), s@) && t@ == replaced_by_all(
                    self.patterns(),
                    s@,
                ),
                None => !any_matches(self.patterns(), s@),
            },
    {
        let (out, hit) = self.patterns.replace_all(s);
        proof {
            crate::patterns::hit_iff_some_match(self.patterns(), s@);
        }
        if hit {
            Some(out)
        } else {
            None
        }
    }

    /// What stands in place of a text that matches, or none where nothing matches.
    pub fn redact_text(&self, s: &str) -> (r: Option<String>)
        ensures
            match r {
                Some(t) => any_matches(self.patterns(), s@) && t@ == withheld(s@),
                None => !any_matches(self.patterns(), s@),
            },
    {
        if !self.matches(s) {
            return None;
        }
        let n = decimal_text(s.unicode_len() as u64);
        Some(join3("[redacted len=", n.as_str(), "]"))
    }

    /// Whether the policy is empty.
    pub fn is_empty(&self) -> (r: bool)
        ensures
            r == (self.patterns().len() == 0 && self.blocklist().len() == 0),
    {
        self.patterns.is_empty() && self.app_blocklist.len() == 0
    }
}

} // verus!
