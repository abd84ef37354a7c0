//! What scripts and messages say, whatever they are made of.
use vstd::prelude::*;

use crate::actions::{debug_list, failure_text, shown_code, wrapped, ProcessOutput};
use crate::client_laws::begins_and_ends;
use crate::error::signed_decimal;
use crate::gesture::unit_interval;
use crate::scripting::terminal_script;
use crate::spaces::{missing_space, space_script, ActiveSpace};
use crate::spotlight::{keystrokes, selection};
use crate::text::{
    contains_text, lossy, lowered, quoted_inside, repeated, starts_with_text, trimmed,
    trimmed_start,
};
use crate::types::{debug_text, native_display, NativeControlError};

verus! {

/// Quoting works character by character: a backslash stands before every quotation mark and
/// every backslash, and all other characters stay.
pub proof fn quoting_escapes_each_character(a: Seq<char>, b: Seq<char>, c: char)
    ensures
        quoted_inside(a + b) == quoted_inside(a) + quoted_inside(b),
        quoted_inside(Seq::empty()) == Seq::<char>::empty(),
        quoted_inside(seq![c]) == (if c == '"' || c == '\\' {
            seq!['\\', c]
        } else {
            seq![c]
        }),
    decreases b.len(),
{
    if b.len() > 0 {
        quoting_escapes_each_character(a, b.drop_last(), c);
        assert((a + b).drop_last() =~= a + b.drop_last());
        assert((a + b).last() == b.last());
        assert(quoted_inside(a + b) =~= quoted_inside(a) + quoted_inside(b));
    } else {
        assert(a + b =~= a);
        assert(quoted_inside(a) + quoted_inside(b) =~= quoted_inside(a));
    }
    let one = seq![c];
    assert(one.drop_last() =~= Seq::<char>::empty());
    assert(quoted_inside(one.drop_last()) =~= Seq::<char>::empty());
    assert(quoted_inside(one) =~= if c == '"' || c == '\\' {
        seq!['\\', c]
    } else {
        seq![c]
    });
}

/// A text that is typed, and a command that is run in a terminal, stand quoted in the script.
pub proof fn scripts_quote_what_they_are_given(text: Seq<char>)
    ensures
        begins_and_ends(
            keystrokes(text),
            "tell application \"System Events\" to keystroke \""@,
            quoted_inside(text) + "\""@,
        ),
        begins_and_ends(
            terminal_script(text),
            "tell application \"Terminal\" to do script \""@,
            quoted_inside(text) + "\""@,
        ),
{
    lemma_joined(
        "tell application \"System Events\" to keystroke \""@,
        quoted_inside(text) + "\""@,
        keystrokes(text),
    );
    lemma_joined(
        "tell application \"Terminal\" to do script \""@,
        quoted_inside(text) + "\""@,
        terminal_script(text),
    );
}

proof fn lemma_joined(head: Seq<char>, tail: Seq<char>, text: Seq<char>)
    requires
        text =~= head + tail,
    ensures
        begins_and_ends(text, head, tail),
{
    assert(text.subrange(0, head.len() as int) =~= head);
    assert(text.subrange(text.len() - tail.len(), text.len() as int) =~= tail);
}

/// A text so many times over, once more.
pub proof fn repeating_once_more(s: Seq<char>, n: nat)
    ensures
        repeated(s, 0) == Seq::<char>::empty(),
        repeated(s, n + 1) == s + repeated(s, n),
        repeated(s, n + 1) == repeated(s, n) + s,
    decreases n,
{
    if n > 0 {
        repeating_once_more(s, (n - 1) as nat);
        assert(repeated(s, n + 1) =~= s + repeated(s, n));
    } else {
        assert(repeated(s, 1) =~= s + repeated(s, 0));
        assert(repeated(s, 1) =~= repeated(s, 0) + s);
    }
}

/// To go one space further, the script presses its key once more: the right one to the right,
/// the left one to the left.
pub proof fn each_space_takes_one_key(delta: i32)
    ensures
        space_script(0) == "tell application \"System Events\"\n"@ + "end tell\n"@,
        0 <= delta < i32::MAX ==> space_script((delta + 1) as i32) == lengthened(
            space_script(delta),
            "tell application \"System Events\"\n"@,
            "    key code 124 using {control down}\n"@,
        ),
        i32::MIN < delta <= 0 ==> space_script((delta - 1) as i32) == lengthened(
            space_script(delta),
            "tell application \"System Events\"\n"@,
            "    key code 123 using {control down}\n"@,
        ),
{
    let head = "tell application \"System Events\"\n"@;
    let tail = "end tell\n"@;
    let right = "    key code 124 using {control down}\n"@;
    let left = "    key code 123 using {control down}\n"@;
    assert(repeated(right, 0) =~= Seq::<char>::empty());
    assert(repeated(left, 0) =~= Seq::<char>::empty());
    assert(space_script(0) =~= head + tail);
    if 0 <= delta < i32::MAX {
        repeating_once_more(right, delta as nat);
        lemma_lengthened(head, right, repeated(right, delta as nat), tail);
        assert(space_script(delta) =~= head + repeated(right, delta as nat) + tail);
        assert(space_script((delta + 1) as i32) =~= head + repeated(right, (delta + 1) as nat)
            + tail);
    }
    if i32::MIN < delta <= 0 {
        let n = (-delta) as nat;
        repeating_once_more(left, n);
        lemma_lengthened(head, left, repeated(left, n), tail);
        assert(space_script(delta) =~= head + repeated(left, n) + tail);
        assert(space_script((delta - 1) as i32) =~= head + repeated(left, n + 1) + tail);
    }
}

/// The text with one line more behind its head.
pub open spec fn lengthened(text: Seq<char>, head: Seq<char>, line: Seq<char>) -> Seq<char> {
    head + line + text.skip(head.len() as int)
}

proof fn lemma_lengthened(head: Seq<char>, line: Seq<char>, lines: Seq<char>, tail: Seq<char>)
    ensures
        lengthened(head + lines + tail, head, line) == head + (line + lines) + tail,
{
    assert((head + lines + tail).skip(head.len() as int) =~= lines + tail);
    assert(lengthened(head + lines + tail, head, line) =~= head + (line + lines) + tail);
}

/// To select one result further, the script goes down once more; then it presses return.
pub proof fn each_result_takes_one_key(index: u32)
    ensures
        selection(0) == "tell application \"System Events\"\n"@ + "    key code 36\nend tell\n"@,
        index < u32::MAX ==> selection((index + 1) as u32) == lengthened(
            selection(index),
            "tell application \"System Events\"\n"@,
            "    key code 125\n"@,
        ),
{
    let head = "tell application \"System Events\"\n"@;
    let line = "    key code 125\n"@;
    let tail = "    key code 36\nend tell\n"@;
    assert(repeated(line, 0) =~= Seq::<char>::empty());
    assert(selection(0) =~= head + tail);
    if index < u32::MAX {
        repeating_once_more(line, index as nat);
        lemma_lengthened(head, line, repeated(line, index as nat), tail);
    }
}

/// A script that tells something already is run as it is; any other one is told to the
/// application, whole, between a first and a last line.
pub proof fn scripts_are_told_to_the_application(bundle_id: Seq<char>, body: Seq<char>)
    ensures
        ({
            let tells = starts_with_text(lowered(trimmed_start(body)), "tell "@);
            let head = "tell application id \""@ + bundle_id + "\"\n"@;
            let s = wrapped(bundle_id, body);
            &&& tells ==> s == body
            &&& !tells ==> begins_and_ends(s, head, body + "\nend tell"@)
            &&& contains_text(s, body)
        }),
{
    let head = "tell application id \""@ + bundle_id + "\"\n"@;
    let s = wrapped(bundle_id, body);
    if starts_with_text(lowered(trimmed_start(body)), "tell "@) {
        assert(s.subrange(0, body.len() as int) =~= body);
        assert(crate::text::occurs_at(s, body, 0));
    } else {
        lemma_joined(head, body + "\nend tell"@, s);
        assert(s.subrange(head.len() as int, (head.len() + body.len()) as int) =~= body);
        assert(crate::text::occurs_at(s, body, head.len() as int));
    }
}

/// A process that failed is reported with what it wrote to its error output, trimmed; where
/// that is nothing, with its name and its exit code.
pub proof fn failed_processes_are_reported(label: Seq<char>, output: ProcessOutput)
    ensures
        ({
            let wrote = trimmed(lossy(output.stderr@));
            let shown = failure_text(label, output);
            &&& wrote.len() > 0 ==> shown == wrote
            &&& wrote.len() == 0 ==> begins_and_ends(
                shown,
                label + " exit "@,
                shown_code(output.code),
            )
        }),
        output.code is None ==> shown_code(output.code) == "None"@,
        output.code matches Some(c) ==> begins_and_ends(
            shown_code(output.code),
            "Some("@ + signed_decimal(c as int),
            ")"@,
        ),
{
    lemma_joined(
        label + " exit "@,
        shown_code(output.code),
        label + " exit "@ + shown_code(output.code),
    );
    if let Some(c) = output.code {
        lemma_joined("Some("@ + signed_decimal(c as int), ")"@, shown_code(output.code));
    }
}

/// A double lies between zero and one just where its bits are not above those of one, or it is
/// minus zero.
pub proof fn pressures_lie_between_zero_and_one(bits: u64)
    ensures
        unit_interval(bits) <==> bits <= 0x3ff0_0000_0000_0000 || bits == 0x8000_0000_0000_0000,
{
}

/// What an error says begins with the kind of failure and names what it is about.
pub proof fn native_errors_name_what_they_are_about(e: NativeControlError)
    ensures
        match e {
            NativeControlError::PermissionMissing { settings_url } => contains_text(
                native_display(e),
                settings_url@,
            ) && starts_with_text(native_display(e), "Accessibility permission missing"@),
            NativeControlError::ScreenRecordingMissing { settings_url } => contains_text(
                native_display(e),
                settings_url@,
            ) && starts_with_text(native_display(e), "Screen Recording permission missing"@),
            NativeControlError::AppNotFound { bundle_id } => begins_and_ends(
                native_display(e),
                "no running application with bundle id "@,
                debug_text(bundle_id@),
            ),
            NativeControlError::RefStale { r } => begins_and_ends(
                native_display(e),
                "ref "@ + debug_text(r@),
                " not present in current snapshot"@,
            ),
            NativeControlError::NotActionable { r, reason } => begins_and_ends(
                native_display(e),
                "element "@ + debug_text(r@) + " is not actionable: "@,
                reason@,
            ),
            NativeControlError::AxError(code) => begins_and_ends(
                native_display(e),
                "AX call failed (AXError="@ + signed_decimal(code as int),
                ")"@,
            ),
            NativeControlError::AppleScript { msg } => begins_and_ends(
                native_display(e),
                "AppleScript: "@,
                msg@,
            ),
            NativeControlError::ActivateForbidden { reason } => contains_text(
                native_display(e),
                reason@,
            ),
            NativeControlError::Blocked { bundle_id } => begins_and_ends(
                native_display(e),
                "app "@ + debug_text(bundle_id@),
                " is blocked by session policy (app_blocklist)"@,
            ),
            NativeControlError::FocusStealForbidden { what } => begins_and_ends(
                native_display(e),
                "focus-stealing action requires capabilities:[\"focus_steal\"] + confirm=true: "@,
                what@,
            ),
            NativeControlError::PrivateApiUnavailable { what } => begins_and_ends(
                native_display(e),
                "private API unavailable: "@,
                what@,
            ),
            NativeControlError::Cgs(code) => begins_and_ends(
                native_display(e),
                "CoreGraphics Services error: "@,
                signed_decimal(code as int),
            ),
            NativeControlError::Tis(code) => begins_and_ends(
                native_display(e),
                "Text Input Source error: "@,
                signed_decimal(code as int),
            ),
            NativeControlError::Io(msg) => begins_and_ends(
                native_display(e),
                "osascript subprocess: "@,
                msg@,
            ),
            NativeControlError::Timeout(what) => begins_and_ends(
                native_display(e),
                "timeout: "@,
                what@,
            ),
            NativeControlError::Internal(msg) => begins_and_ends(
                native_display(e),
                "internal: "@,
                msg@,
            ),
            NativeControlError::UnsupportedPlatform => native_display(e)
                == "native-control is only implemented on macOS"@,
        },
{
    let d = native_display(e);
    match e {
        NativeControlError::PermissionMissing { settings_url } => {
            let head = "Accessibility permission missing — open System Settings → Privacy & Security → Accessibility ("@;
            reveal_strlit("Accessibility permission missing — open System Settings → Privacy & Security → Accessibility (");
            reveal_strlit("Accessibility permission missing");
            lemma_within(head, settings_url@, ") and grant the broker"@, d);
            assert(d.subrange(0, 32) =~= "Accessibility permission missing"@);
        },
        NativeControlError::ScreenRecordingMissing { settings_url } => {
            let head = "Screen Recording permission missing — open System Settings → Privacy & Security → Screen Recording ("@;
            reveal_strlit("Screen Recording permission missing — open System Settings → Privacy & Security → Screen Recording (");
            reveal_strlit("Screen Recording permission missing");
            lemma_within(head, settings_url@, ") and grant the broker"@, d);
            assert(d.subrange(0, 35) =~= "Screen Recording permission missing"@);
        },
        NativeControlError::AppNotFound { bundle_id } => {
            lemma_joined("no running application with bundle id "@, debug_text(bundle_id@), d);
        },
        NativeControlError::RefStale { r } => {
            lemma_joined("ref "@ + debug_text(r@), " not present in current snapshot"@, d);
        },
        NativeControlError::NotActionable { r, reason } => {
            lemma_joined("element "@ + debug_text(r@) + " is not actionable: "@, reason@, d);
        },
        NativeControlError::AxError(code) => {
            lemma_joined("AX call failed (AXError="@ + signed_decimal(code as int), ")"@, d);
        },
        NativeControlError::AppleScript { msg } => {
            lemma_joined("AppleScript: "@, msg@, d);
        },
        NativeControlError::ActivateForbidden { reason } => {
            lemma_within(
                "AppleScript bodies that activate the target app are forbidden ("@,
                reason@,
                ")"@,
                d,
            );
        },
        NativeControlError::Blocked { bundle_id } => {
            lemma_joined(
                "app "@ + debug_text(bundle_id@),
                " is blocked by session policy (app_blocklist)"@,
                d,
            );
        },
        NativeControlError::FocusStealForbidden { what } => {
            lemma_joined(
                "focus-stealing action requires capabilities:[\"focus_steal\"] + confirm=true: "@,
                what@,
                d,
            );
        },
        NativeControlError::PrivateApiUnavailable { what } => {
            lemma_joined("private API unavailable: "@, what@, d);
        },
        NativeControlError::Cgs(code) => {
            lemma_joined("CoreGraphics Services error: "@, signed_decimal(code as int), d);
        },
        NativeControlError::Tis(code) => {
            lemma_joined("Text Input Source error: "@, signed_decimal(code as int), d);
        },
        NativeControlError::Io(msg) => {
            lemma_joined("osascript subprocess: "@, msg@, d);
        },
        NativeControlError::Timeout(what) => {
            lemma_joined("timeout: "@, what@, d);
        },
        NativeControlError::Internal(msg) => {
            lemma_joined("internal: "@, msg@, d);
        },
        NativeControlError::UnsupportedPlatform => {},
    }
}

proof fn lemma_within(head: Seq<char>, middle: Seq<char>, tail: Seq<char>, text: Seq<char>)
    requires
        text =~= head + middle + tail,
    ensures
        contains_text(text, middle),
{
    assert(text.subrange(head.len() as int, (head.len() + middle.len()) as int) =~= middle);
    assert(crate::text::occurs_at(text, middle, head.len() as int));
}

/// A list of texts is shown between brackets, its items one behind the other.
pub proof fn lists_are_shown_in_brackets(parts: Seq<Seq<char>>, last: Seq<char>)
    ensures
        debug_list(Seq::empty()) == "["@ + "]"@,
        debug_list(seq![last]) == "["@ + debug_text(last) + "]"@,
        parts.len() > 0 ==> debug_list(parts.push(last)) == debug_list(parts).drop_last() + ", "@
            + debug_text(last) + "]"@,
{
    reveal_strlit("]");
    let show = |s: Seq<char>| debug_text(s);
    let none = Seq::<Seq<char>>::empty();
    assert(none.map_values(show).len() == 0);
    assert(debug_list(none) =~= "["@ + "]"@);
    let one = seq![last].map_values(show);
    assert(one.len() == 1 && one[0] == debug_text(last));
    assert(debug_list(seq![last]) =~= "["@ + debug_text(last) + "]"@);
    if parts.len() > 0 {
        let all = parts.push(last).map_values(show);
        let before = parts.map_values(show);
        assert(all.drop_last() =~= before);
        assert(all.last() == debug_text(last));
        let j = crate::text::joined(before, ", "@);
        assert(crate::text::joined(all, ", "@) == j + ", "@ + debug_text(last));
        assert(debug_list(parts).drop_last() =~= "["@ + j);
        assert(debug_list(parts.push(last)) =~= "["@ + j + ", "@ + debug_text(last) + "]"@);
    }
}

/// Where there are no spaces to list, what is missing is named.
pub proof fn missing_spaces_are_explained(a: ActiveSpace)
    ensures
        match a {
            ActiveSpace::NotBuilt => missing_space(a)
                == "CGS spaces (build native-control with `private-apis`)"@,
            ActiveSpace::NoConnection => missing_space(a) == "CGSDefaultConnectionForThread"@,
            ActiveSpace::NoActiveSpace => missing_space(a) == "CGSGetActiveSpace"@,
            ActiveSpace::Active(_) => missing_space(a).len() == 0,
        },
{
}

} // verus!
