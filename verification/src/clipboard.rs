//! The clipboard history of a session.
use vstd::prelude::*;

use crate::broker_client::{holds_text, opt_text, texts};
use crate::patterns::any_matches;
use crate::privacy::{shown_item, ClipboardView, RedactionEngine};
use crate::types::{ClipboardItem, ClipboardKind, NativeControlError};

verus! {

/// How many entries the history keeps.
pub const HISTORY_CAPACITY: usize = 16;

/// Milliseconds between two looks at the clipboard.
pub const POLL_INTERVAL_MS: u64 = 100;

/// The type of plain text.
pub const TYPE_STRING: &'static str = "public.utf8-plain-text";

/// The type of a file reference.
pub const TYPE_FILE_URL: &'static str = "public.file-url";

pub const TYPE_PNG: &'static str = "public.png";

pub const TYPE_TIFF: &'static str = "public.tiff";

/// The views of clipboard entries.
pub open spec fn item_views(v: Seq<ClipboardItem>) -> Seq<ClipboardView> {
    v.map_values(|i: ClipboardItem| i@)
}

/// The history with one entry more: a full one loses its oldest entry.
pub open spec fn pushed(history: Seq<ClipboardView>, item: ClipboardView) -> Seq<ClipboardView> {
    if history.len() == HISTORY_CAPACITY {
        history.drop_first().push(item)
    } else {
        history.push(item)
    }
}

/// A history as the session may see it.
pub open spec fn shown_history(
    patterns: Seq<Seq<char>>,
    history: Seq<ClipboardView>,
) -> Seq<ClipboardView> {
    history.map_values(|i: ClipboardView| shown_item(patterns, i))
}

/// The clipboard entries that a session has seen.
pub struct ClipboardCache {
    history: Vec<ClipboardItem>,
    last_change_count: i64,
}

impl View for ClipboardCache {
    type V = Seq<ClipboardView>;

    closed spec fn view(&self) -> Seq<ClipboardView> {
        item_views(self.history@)
    }
}

impl ClipboardCache {
    /// The history never outgrows its capacity.
    pub closed spec fn wf(self) -> bool {
        self.history@.len() <= HISTORY_CAPACITY
    }

    /// The change count of the latest look.
    pub closed spec fn seen(self) -> i64 {
        self.last_change_count
    }

    pub fn new() -> (c: ClipboardCache)
        ensures
            c.wf(),
            c@ == Seq::<ClipboardView>::empty(),
            c.seen() == -1,
    {
        let c = ClipboardCache { history: Vec::new(), last_change_count: -1 };
        assert(c@ =~= Seq::<ClipboardView>::empty());
        c
    }

    /// The latest entry, as the session may see it.
    pub fn read(&self, engine: &RedactionEngine) -> (r: Option<ClipboardItem>)
        ensures
            match r {
                Some(i) => self@.len() > 0 && i@ == shown_item(engine.patterns(), self@.last()),
                None => self@.len() == 0,
            },
    {
        if self.history.len() == 0 {
            None
        } else {
            Some(engine.apply_clipboard(&self.history[self.history.len() - 1]))
        }
    }

    /// The text of the latest entry, where it has one that the session may see.
    pub fn read_string(&self, engine: &RedactionEngine) -> (r: Option<String>)
        ensures
            opt_text(r) == (if self@.len() > 0 {
                shown_item(engine.patterns(), self@.last()).text
            } else {
                None
            }),
    {
        match self.read(engine) {
            Some(item) => item.text,
            None => None,
        }
    }

    /// The files of the latest entry.
    pub fn read_files(&self) -> (r: Vec<String>)
        ensures
            texts(r@) == (if self@.len() > 0 {
                self@.last().files
            } else {
                Seq::empty()
            }),
    {
        if self.history.len() == 0 {
            let r: Vec<String> = Vec::new();
            assert(texts(r@) =~= Seq::<Seq<char>>::empty());
            r
        } else {
            crate::privacy::copy_texts(&self.history[self.history.len() - 1].files)
        }
    }

    /// The types of the latest entry.
    pub fn types(&self) -> (r: Vec<String>)
        ensures
            texts(r@) == (if self@.len() > 0 {
                self@.last().types
            } else {
                Seq::empty()
            }),
    {
        if self.history.len() == 0 {
            let r: Vec<String> = Vec::new();
            assert(texts(r@) =~= Seq::<Seq<char>>::empty());
            r
        } else {
            crate::privacy::copy_texts(&self.history[self.history.len() - 1].types)
        }
    }

    /// All entries, the oldest first, as the session may see them.
    pub fn history(&self, engine: &RedactionEngine) -> (all: Vec<ClipboardItem>)
        ensures
            item_views(all@) == shown_history(engine.patterns(), self@),
    {
        let mut all: Vec<ClipboardItem> = Vec::new();
        let mut i: usize = 0;
        while i < self.history.len()
            invariant
                i <= self.history@.len(),
                all@.len() == i,
                forall|k: int|
                    0 <= k < i ==> (#[trigger] all@[k])@ == shown_item(
                        engine.patterns(),
                        self.history@[k]@,
                    ),
            decreases self.history@.len() - i,
        {
            all.push(engine.apply_clipboard(&self.history[i]));
            i += 1;
        }
        assert(item_views(all@) =~= shown_history(engine.patterns(), self@));
        all
    }

    /// Adds an entry; a full history loses its oldest one.
    pub fn push(&mut self, item: ClipboardItem)
        requires
            old(self).wf(),
        ensures
            final(self).wf(),
            final(self)@ == pushed(old(self)@, item@),
            final(self).seen() == old(self).seen(),
    {
        if self.history.len() == HISTORY_CAPACITY {
            let _ = self.history.remove(0);
        }
        self.history.push(item);
        assert(self@ =~= pushed(old(self)@, item@));
    }

    /// Whether the clipboard has changed since the latest look, and notes the look.
    pub fn changed(&mut self, change_count: i64) -> (r: bool)
        requires
            old(self).wf(),
        ensures
            final(self).wf(),
            final(self)@ == old(self)@,
            r == (change_count > old(self).seen()),
            final(self).seen() == (if r {
                change_count
            } else {
                old(self).seen()
            }),
    {
        if change_count <= self.last_change_count {
            return false;
        }
        self.last_change_count = change_count;
        assert(self@ =~= old(self)@);
        true
    }
}

/// What was found on the clipboard: its types, and what it holds of each kind that could
/// be read.
#[derive(Debug)]
pub struct ClipboardContents {
    pub types: Vec<String>,
    pub files: Option<Vec<String>>,
    pub text: Option<String>,
}

/// The entry that clipboard contents make: files go before text, text before images.
pub open spec fn captured(
    types: Seq<Seq<char>>,
    files: Option<Seq<Seq<char>>>,
    text: Option<Seq<char>>,
    change_count: i64,
    now_ms: u64,
) -> ClipboardView {
    let plain = ClipboardView {
        change_count,
        timestamp_ms: now_ms,
        types,
        kind: ClipboardKind::Other,
        text: None,
        files: Seq::empty(),
        redacted: false,
    };
    if types.contains(TYPE_FILE_URL@) && files is Some {
        ClipboardView { kind: ClipboardKind::Files, files: files->Some_0, ..plain }
    } else if types.contains(TYPE_STRING@) && text is Some {
        ClipboardView { kind: ClipboardKind::String, text, ..plain }
    } else if types.contains(TYPE_PNG@) || types.contains(TYPE_TIFF@) {
        ClipboardView { kind: ClipboardKind::Image, ..plain }
    } else {
        plain
    }
}

/// The view of an optional list of strings.
pub open spec fn opt_texts(v: Option<Vec<String>>) -> Option<Seq<Seq<char>>> {
    match v {
        Some(t) => Some(texts(t@)),
        None => None,
    }
}

/// Makes an entry of clipboard contents.
pub fn capture(c: ClipboardContents, change_count: i64, now_ms: u64) -> (item: ClipboardItem)
    ensures
        item@ == captured(
            texts(c.types@),
            opt_texts(c.files),
            opt_text(c.text),
            change_count,
            now_ms,
        ),
{
    let mut item = ClipboardItem {
        change_count,
        timestamp_ms: now_ms,
        types: c.types,
        kind: ClipboardKind::Other,
        text: None,
        files: Vec::new(),
        redacted: false,
    };
    assert(texts(item.files@) =~= Seq::<Seq<char>>::empty());
    if has_type(&item.types, TYPE_FILE_URL) {
        match c.files {
            Some(files) => {
                item.kind = ClipboardKind::Files;
                item.files = files;
                return item;
            },
            None => {},
        }
    }
    if has_type(&item.types, TYPE_STRING) {
        match c.text {
            Some(text) => {
                item.kind = ClipboardKind::String;
                item.text = Some(text);
                return item;
            },
            None => {},
        }
    }
    if has_type(&item.types, TYPE_PNG) || has_type(&item.types, TYPE_TIFF) {
        item.kind = ClipboardKind::Image;
        return item;
    }
    item
}

/// Whether a type is among those of an entry.
pub fn has_type(types: &Vec<String>, needle: &str) -> (r: bool)
    ensures
        r == texts(types@).contains(needle@),
{
    holds_text(types, needle)
}

/// The entry that a written text leaves in the history.
pub fn written_text(text: String, change_count: i64, now_ms: u64) -> (item: ClipboardItem)
    ensures
        item@ == (ClipboardView {
            change_count,
            timestamp_ms: now_ms,
            types: seq![TYPE_STRING@],
            kind: ClipboardKind::String,
            text: Some(text@),
            files: Seq::empty(),
            redacted: false,
        }),
{
    let mut types: Vec<String> = Vec::new();
    types.push(TYPE_STRING.to_owned());
    let item = ClipboardItem {
        change_count,
        timestamp_ms: now_ms,
        types,
        kind: ClipboardKind::String,
        text: Some(text),
        files: Vec::new(),
        redacted: false,
    };
    assert(item@.types =~= seq![TYPE_STRING@]);
    assert(item@.files =~= Seq::<Seq<char>>::empty());
    item
}

/// The entry that written files leave in the history. There must be a file.
pub fn written_files(paths: Vec<String>, change_count: i64, now_ms: u64) -> (r: Result<
    ClipboardItem,
    NativeControlError,
>)
    ensures
        match r {
            Ok(item) => paths@.len() > 0 && item@ == (ClipboardView {
                change_count,
                timestamp_ms: now_ms,
                types: seq![TYPE_FILE_URL@],
                kind: ClipboardKind::Files,
                text: None,
                files: texts(paths@),
                redacted: false,
            }),
            Err(NativeControlError::Internal(msg)) => paths@.len() == 0 && msg@
                == "write_files requires ≥1 path"@,
            Err(_) => false,
        },
{
    if paths.len() == 0 {
        return Err(NativeControlError::Internal("write_files requires ≥1 path".to_owned()));
    }
    let mut types: Vec<String> = Vec::new();
    types.push(TYPE_FILE_URL.to_owned());
    let item = ClipboardItem {
        change_count,
        timestamp_ms: now_ms,
        types,
        kind: ClipboardKind::Files,
        text: None,
        files: paths,
        redacted: false,
    };
    assert(item@.types =~= seq![TYPE_FILE_URL@]);
    Ok(item)
}

/// The data, empty where there is none.
pub open spec fn data_of(d: Option<Vec<u8>>) -> Seq<u8> {
    match d {
        Some(v) => v@,
        None => Seq::empty(),
    }
}

/// The image on the clipboard: as PNG, or as TIFF where there is no PNG. Empty data counts
/// as none.
pub fn read_image(png: Option<Vec<u8>>, tiff: Option<Vec<u8>>) -> (r: Result<
    Vec<u8>,
    NativeControlError,
>)
    ensures
        match r {
            Ok(data) => data@.len() > 0 && data@ == (if data_of(png).len() > 0 {
                data_of(png)
            } else {
                data_of(tiff)
            }),
            Err(NativeControlError::Internal(msg)) => data_of(png).len() == 0 && data_of(
                tiff,
            ).len() == 0 && msg@ == "no image data on clipboard"@,
            Err(_) => false,
        },
{
    match png {
        Some(data) => if data.len() > 0 {
            return Ok(data);
        },
        None => {},
    }
    match tiff {
        Some(data) => if data.len() > 0 {
            return Ok(data);
        },
        None => {},
    }
    Err(NativeControlError::Internal("no image data on clipboard".to_owned()))
}

/// The entry that a written image leaves in the history. There must be data.
pub fn written_image(png_bytes: &Vec<u8>, change_count: i64, now_ms: u64) -> (r: Result<
    ClipboardItem,
    NativeControlError,
>)
    ensures
        match r {
            Ok(item) => png_bytes@.len() > 0 && item@ == (ClipboardView {
                change_count,
                timestamp_ms: now_ms,
                types: seq![TYPE_PNG@],
                kind: ClipboardKind::Image,
                text: None,
                files: Seq::empty(),
                redacted: false,
            }),
            Err(NativeControlError::Internal(msg)) => png_bytes@.len() == 0 && msg@
                == "write_image requires non-empty bytes"@,
            Err(_) => false,
        },
{
    if png_bytes.len() == 0 {
        return Err(
            NativeControlError::Internal("write_image requires non-empty bytes".to_owned()),
        );
    }
    let mut types: Vec<String> = Vec::new();
    types.push(TYPE_PNG.to_owned());
    let item = ClipboardItem {
        change_count,
        timestamp_ms: now_ms,
        types,
        kind: ClipboardKind::Image,
        text: None,
        files: Vec::new(),
        redacted: false,
    };
    assert(item@.types =~= seq![TYPE_PNG@]);
    assert(item@.files =~= Seq::<Seq<char>>::empty());
    Ok(item)
}

/// The files that a file reference on the clipboard names: the path of the reference, or
/// the reference itself where it has no path.
pub fn referenced_files(reference: Option<String>, path: Option<String>) -> (r: Option<
    Vec<String>,
>)
    ensures
        match r {
            Some(v) => reference is Some && texts(v@) == seq![
                match path {
                    Some(p) => p@,
                    None => reference->Some_0@,
                },
            ],
            None => reference is None,
        },
{
    match reference {
        Some(text) => {
            let mut v: Vec<String> = Vec::new();
            match path {
                Some(p) => {
                    v.push(p);
                    assert(texts(v@) =~= seq![p@]);
                },
                None => {
                    v.push(text);
                    assert(texts(v@) =~= seq![text@]);
                },
            }
            Some(v)
        },
        None => None,
    }
}

/// The history keeps the latest entries in the order in which they came: pushing gives the
/// end of the old history with the new entry behind it, sixteen entries at most.
pub proof fn history_keeps_the_latest(history: Seq<ClipboardView>, item: ClipboardView)
    requires
        history.len() <= HISTORY_CAPACITY,
    ensures
        ({
            let all = history.push(item);
            let after = pushed(history, item);
            &&& after.len() <= HISTORY_CAPACITY
            &&& after == all.skip(all.len() - after.len())
            &&& after.last() == item
        }),
{
    let all = history.push(item);
    if history.len() == HISTORY_CAPACITY {
        assert(pushed(history, item) =~= all.skip(1));
    } else {
        assert(pushed(history, item) =~= all.skip(0));
    }
}

/// A policy applies to entries that were captured before it: whatever patterns are in force
/// when the history is read, none matches a text that is shown, and all else is shown as it
/// was captured. Entries of another kind than text are never withheld.
pub proof fn policy_applies_to_history(
    patterns: Seq<Seq<char>>,
    history: Seq<ClipboardView>,
    k: int,
)
    requires
        0 <= k < history.len(),
    ensures
        shown_history(patterns, history).len() == history.len(),
        ({
            let raw = history[k];
            let shown = shown_history(patterns, history)[k];
            if raw.kind == ClipboardKind::String && (raw.text matches Some(t) && any_matches(
                patterns,
                t,
            )) {
                shown == (ClipboardView { text: None, redacted: true, ..raw })
            } else {
                shown == raw
            }
        }),
{
}

} // verus!
