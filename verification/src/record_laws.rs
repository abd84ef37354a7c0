//! What is said of a record is said of its own fields.
use vstd::prelude::*;

use crate::cli::SpawnArgs;
use crate::scripting::CommandLine;
use crate::trace::ManifestFile;
use crate::types::{
    AppElement, AppHandle, AppSnapshot, ClipboardItem, DockItem, MenuItem, WindowHandle,
};

verus! {

/// An element stands for its fields.
pub proof fn elements_stand_for_their_fields(e: AppElement)
    ensures
        e@.index == e.index,
        e@.element_ref == e.element_ref@,
        e@.role == e.role@,
        e@.name == e.name@,
        match e.value {
            Some(t) => e@.value == Some(t@),
            None => e@.value is None,
        },
        match e.description {
            Some(t) => e@.description == Some(t@),
            None => e@.description is None,
        },
        e@.state == e.state,
        e@.bbox == e.bbox,
        e@.interactable == e.interactable,
        e@.app_id == e.app_id@,
        e@.stable_id == e.stable_id@,
        e@.ax_path == e.ax_path@,
{
}

/// A window stands for its fields.
pub proof fn windows_stand_for_their_fields(w: WindowHandle)
    ensures
        w@.window_id == w.window_id@,
        w@.bundle_id == w.bundle_id@,
        w@.title == w.title@,
        w@.bbox == w.bbox,
        w@.minimized == w.minimized,
        w@.fullscreen == w.fullscreen,
        w@.main == w.main,
{
}

/// A dock item stands for its fields.
pub proof fn dock_items_stand_for_their_fields(d: DockItem)
    ensures
        d@.dock_id == d.dock_id@,
        d@.label == d.label@,
        d@.running == d.running,
        d@.bundle_id == d.bundle_id@,
{
}

/// A menu item stands for its fields.
pub proof fn menu_items_stand_for_their_fields(m: MenuItem)
    ensures
        m@.path.len() == m.path@.len(),
        forall|i: int| 0 <= i < m.path@.len() ==> #[trigger] m@.path[i] == m.path@[i]@,
        m@.display == m.display@,
        m@.interactable == m.interactable,
        m@.disabled == m.disabled,
        match m.shortcut {
            Some(t) => m@.shortcut == Some(t@),
            None => m@.shortcut is None,
        },
{
}

/// An application stands for its fields.
pub proof fn applications_stand_for_their_fields(h: AppHandle)
    ensures
        h@.bundle_id == h.bundle_id@,
        h@.pid == h.pid,
        h@.name == h.name@,
        h@.has_focus == h.has_focus,
{
}

/// A clipboard entry stands for its fields.
pub proof fn clipboard_items_stand_for_their_fields(c: ClipboardItem)
    ensures
        c@.change_count == c.change_count,
        c@.timestamp_ms == c.timestamp_ms,
        c@.types.len() == c.types@.len(),
        forall|i: int| 0 <= i < c.types@.len() ==> #[trigger] c@.types[i] == c.types@[i]@,
        c@.kind == c.kind,
        match c.text {
            Some(t) => c@.text == Some(t@),
            None => c@.text is None,
        },
        c@.files.len() == c.files@.len(),
        forall|i: int| 0 <= i < c.files@.len() ==> #[trigger] c@.files[i] == c.files@[i]@,
        c@.redacted == c.redacted,
{
}

/// A snapshot stands for its fields.
pub proof fn snapshots_stand_for_their_fields(s: AppSnapshot)
    ensures
        s@.snapshot_seq == s.snapshot_seq,
        s@.app_id == s.app_id@,
        s@.bundle_id == s.bundle_id@,
        s@.pid == s.pid,
        s@.title == s.title@,
        match s.focused_ref {
            Some(t) => s@.focused_ref == Some(t@),
            None => s@.focused_ref is None,
        },
        s@.elements.len() == s.elements@.len(),
        forall|i: int| 0 <= i < s.elements@.len() ==> #[trigger] s@.elements[i] == s.elements@[i]@,
        s@.tree == s.tree@,
        match s.truncated_at {
            Some(t) => s@.truncated_at == Some(t@),
            None => s@.truncated_at is None,
        },
{
}

/// An entry of the manifest stands for its fields.
pub proof fn manifest_entries_stand_for_their_fields(f: ManifestFile)
    ensures
        f@.path == f.path@,
        f@.bytes == f.bytes,
        f@.sha256 == f.sha256@,
        f@.gzipped == f.gzipped,
        f@.seq == f.seq,
{
}

/// What a spawn asks for stands for its fields.
pub proof fn spawns_stand_for_their_fields(a: SpawnArgs)
    ensures
        match a.label {
            Some(t) => a@.label == Some(t@),
            None => a@.label is None,
        },
        a@.inherit.len() == a.inherit@.len(),
        forall|i: int| 0 <= i < a.inherit@.len() ==> #[trigger] a@.inherit[i] == a.inherit@[i]@,
        match a.profile {
            Some(t) => a@.profile == Some(t@),
            None => a@.profile is None,
        },
        match a.instructions {
            Some(t) => a@.instructions == Some(t@),
            None => a@.instructions is None,
        },
        a@.rest.len() == a.rest@.len(),
        forall|i: int| 0 <= i < a.rest@.len() ==> #[trigger] a@.rest[i] == a.rest@[i]@,
{
}

/// A command stands for its fields.
pub proof fn commands_stand_for_their_fields(c: CommandLine)
    ensures
        c@.program == c.program@,
        c@.args.len() == c.args@.len(),
        forall|i: int| 0 <= i < c.args@.len() ==> #[trigger] c@.args[i] == c.args@[i]@,
        c@.label == c.label@,
{
}

} // verus!
