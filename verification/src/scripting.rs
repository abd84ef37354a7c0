//! Scripts that run in a process of their own.
use vstd::prelude::*;

use crate::actions::{activates, lemma_spelled, spells_activate};
use crate::broker_client::texts;
use crate::dock::{focus_allowed, require_focus_steal};
use crate::text::{
    contains_text, join3, lower_text, quote_inside, quoted_inside, text_contains,
};
use crate::types::NativeControlError;

verus! {

/// How long a script may run, in milliseconds.
pub const DEFAULT_TIMEOUT_MS: u64 = 30_000;

/// A program with its arguments, and what it is called in messages.
#[derive(Debug)]
pub struct CommandLine {
    pub program: &'static str,
    pub args: Vec<String>,
    pub label: &'static str,
}

/// What a command line is.
pub struct CommandView {
    pub program: Seq<char>,
    pub args: Seq<Seq<char>>,
    pub label: Seq<char>,
}

impl View for CommandLine {
    type V = CommandView;

    open spec fn view(&self) -> CommandView {
        CommandView { program: self.program@, args: texts(self.args@), label: self.label@ }
    }
}

fn command(program: &'static str, label: &'static str) -> (c: CommandLine)
    ensures
        c@ == (CommandView { program: program@, args: Seq::empty(), label: label@ }),
{
    let c = CommandLine { program, args: Vec::new(), label };
    assert(texts(c.args@) =~= Seq::<Seq<char>>::empty());
    c
}

impl CommandLine {
    fn arg(&mut self, text: &str)
        ensures
            final(self)@ == (CommandView { args: old(self)@.args.push(text@), ..old(self)@ }),
    {
        let ghost before = self.args@;
        self.args.push(text.to_owned());
        assert(texts(self.args@) =~= texts(before).push(text@));
    }
}

/// Runs a shortcut by its name.
pub fn shortcut_run(name: &str, input: Option<&str>) -> (c: CommandLine)
    ensures
        c@ == (CommandView {
            program: "/usr/bin/shortcuts"@,
            args: match input {
                Some(i) => seq!["run"@, "--name"@, name@, "--input"@, i@],
                None => seq!["run"@, "--name"@, name@],
            },
            label: "shortcuts"@,
        }),
{
    let mut c = command("/usr/bin/shortcuts", "shortcuts");
    c.arg("run");
    c.arg("--name");
    c.arg(name);
    match input {
        Some(i) => {
            c.arg("--input");
            c.arg(i);
            assert(c@.args =~= seq!["run"@, "--name"@, name@, "--input"@, i@]);
        },
        None => {
            assert(c@.args =~= seq!["run"@, "--name"@, name@]);
        },
    }
    c
}

/// Runs a workflow by its path.
pub fn automator_run(workflow_path: &str) -> (c: CommandLine)
    ensures
        c@ == (CommandView {
            program: "/usr/bin/automator"@,
            args: seq![workflow_path@],
            label: "automator"@,
        }),
{
    let mut c = command("/usr/bin/automator", "automator");
    c.arg(workflow_path);
    assert(c@.args =~= seq![workflow_path@]);
    c
}

/// Runs a script as it stands. One that would activate an application is refused.
pub fn applescript(source: &str) -> (r: Result<CommandLine, NativeControlError>)
    ensures
        match r {
            Ok(c) => !activates(source@) && c@ == (CommandView {
                program: "/usr/bin/osascript"@,
                args: seq!["-e"@, source@],
                label: "osascript"@,
            }),
            Err(NativeControlError::ActivateForbidden { reason }) => activates(source@) && reason@
                == "AppleScript contains the word 'activate'"@,
            Err(_) => false,
        },
        spells_activate(source@) ==> r is Err,
{
    let lower = lower_text(source);
    proof {
        if spells_activate(source@) {
            lemma_spelled(source@, lower@);
        }
    }
    if text_contains(lower.as_str(), crate::actions::ACTIVATE) {
        return Err(
            NativeControlError::ActivateForbidden {
                reason: "AppleScript contains the word 'activate'",
            },
        );
    }
    let mut c = command("/usr/bin/osascript", "osascript");
    c.arg("-e");
    c.arg(source);
    assert(c@.args =~= seq!["-e"@, source@]);
    Ok(c)
}

/// Runs JavaScript for Automation. A script that calls `.activate(` is refused.
pub fn jxa(source: &str) -> (r: Result<CommandLine, NativeControlError>)
    ensures
        match r {
            Ok(c) => !contains_text(source@, ".activate("@) && c@ == (CommandView {
                program: "/usr/bin/osascript"@,
                args: seq!["-l"@, "JavaScript"@, "-e"@, source@],
                label: "osascript-jxa"@,
            }),
            Err(NativeControlError::ActivateForbidden { reason }) => contains_text(
                source@,
                ".activate("@,
            ) && reason@ == "JXA snippet contains a .activate() call"@,
            Err(_) => false,
        },
{
    if text_contains(source, ".activate(") {
        return Err(
            NativeControlError::ActivateForbidden {
                reason: "JXA snippet contains a .activate() call",
            },
        );
    }
    let mut c = command("/usr/bin/osascript", "osascript-jxa");
    c.arg("-l");
    c.arg("JavaScript");
    c.arg("-e");
    c.arg(source);
    assert(c@.args =~= seq!["-l"@, "JavaScript"@, "-e"@, source@]);
    Ok(c)
}

/// The script that runs a command in a new terminal session.
pub open spec fn terminal_script(command: Seq<char>) -> Seq<char> {
    "tell application \"Terminal\" to do script \""@ + quoted_inside(command) + "\""@
}

/// Opens a terminal session. That takes the focus; a command with the word `activate` is
/// refused.
pub fn terminal_spawn_session(text: &str, confirm: bool, focus_steal: bool) -> (r: Result<
    CommandLine,
    NativeControlError,
>)
    ensures
        match r {
            Ok(c) => focus_allowed(confirm, focus_steal) && !contains_text(text@, "activate"@)
                && c@ == (CommandView {
                program: "/usr/bin/osascript"@,
                args: seq!["-e"@, terminal_script(text@)],
                label: "terminal-spawn"@,
            }),
            Err(NativeControlError::FocusStealForbidden { what }) => !focus_allowed(
                confirm,
                focus_steal,
            ) && what@ == "app.terminal.spawn_session"@,
            Err(NativeControlError::ActivateForbidden { reason }) => focus_allowed(
                confirm,
                focus_steal,
            ) && contains_text(text@, "activate"@) && reason@
                == "Terminal command contains 'activate'"@,
            Err(_) => false,
        },
{
    match require_focus_steal("app.terminal.spawn_session", confirm, focus_steal) {
        Ok(_) => {},
        Err(e) => {
            return Err(e);
        },
    }
    if text_contains(text, "activate") {
        return Err(
            NativeControlError::ActivateForbidden {
                reason: "Terminal command contains 'activate'",
            },
        );
    }
    let escaped = quote_inside(text);
    let script = join3(
        "tell application \"Terminal\" to do script \"",
        escaped.as_str(),
        "\"",
    );
    let mut c = command("/usr/bin/osascript", "terminal-spawn");
    c.arg("-e");
    c.arg(script.as_str());
    assert(c@.args =~= seq!["-e"@, terminal_script(text@)]);
    Ok(c)
}

} // verus!
