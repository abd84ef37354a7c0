//! The command line of the operator.
use vstd::prelude::*;

use crate::broker_client::{default_socket_path, holds_text, opt_text, texts, SocketChoice};
use crate::json::{
    a_member_is_the_first_with_its_key, array_of_texts, lemma_member_at, lemma_member_join,
    texts_view, Json, JsonNumber, JsonView, ObjectBuilder,
};
use crate::mcp::object_view;
use crate::text::{
    chars_of, decimal, decimal_text, join2, join3, joined, lacks, same_text, split_chars,
    split_on, splitting_undoes_joining, starts_with_text, string_of, text_starts_with, trim_chars,
    trimmed,
};

verus! {

/// The flag that names the broker's socket.
pub const SOCKET_FLAG: &'static str = "--socket";

/// How long a reply may take, in milliseconds.
pub const DEFAULT_TIMEOUT_MS: u64 = 15_000;

/// What the operator asks for.
#[derive(Clone, Copy, Debug, PartialEq, Eq, Structural)]
pub enum Subcommand {
    Spawn,
    List,
    Attach,
    Merge,
    Kill,
    Logs,
    Help,
    Version,
}

/// The words for a subcommand.
pub open spec fn names_subcommand(word: Seq<char>, c: Subcommand) -> bool {
    match c {
        Subcommand::Spawn => word == "spawn"@,
        Subcommand::List => word == "list"@ || word == "ls"@,
        Subcommand::Attach => word == "attach"@,
        Subcommand::Merge => word == "merge"@,
        Subcommand::Kill => word == "kill"@,
        Subcommand::Logs => word == "logs"@,
        Subcommand::Help => word == "help"@ || word == "--help"@ || word == "-h"@,
        Subcommand::Version => word == "--version"@ || word == "-V"@,
    }
}

/// The subcommand that the first argument names.
pub fn dispatch(args: &Vec<String>) -> (r: Result<Subcommand, String>)
    ensures
        match r {
            Ok(c) => args@.len() > 0 && names_subcommand(args@[0]@, c),
            Err(msg) => if args@.len() == 0 {
                msg@ == "no subcommand"@
            } else {
                msg@ == "unknown subcommand `"@ + args@[0]@ + "` — try `ofa help`"@ && forall|
                    c: Subcommand,
                | !#[trigger] names_subcommand(args@[0]@, c)
            },
        },
{
    if args.len() == 0 {
        return Err("no subcommand".to_owned());
    }
    let head = args[0].as_str();
    if same_text(head, "spawn") {
        Ok(Subcommand::Spawn)
    } else if same_text(head, "list") || same_text(head, "ls") {
        Ok(Subcommand::List)
    } else if same_text(head, "attach") {
        Ok(Subcommand::Attach)
    } else if same_text(head, "merge") {
        Ok(Subcommand::Merge)
    } else if same_text(head, "kill") {
        Ok(Subcommand::Kill)
    } else if same_text(head, "logs") {
        Ok(Subcommand::Logs)
    } else if same_text(head, "help") || same_text(head, "--help") || same_text(head, "-h") {
        Ok(Subcommand::Help)
    } else if same_text(head, "--version") || same_text(head, "-V") {
        Ok(Subcommand::Version)
    } else {
        Err(join3("unknown subcommand `", head, "` — try `ofa help`"))
    }
}

/// What stands behind the first occurrence of a flag.
pub open spec fn behind(argv: Seq<Seq<char>>, flag: Seq<char>) -> Option<Seq<char>>
    decreases argv.len(),
{
    if argv.len() == 0 {
        None
    } else if argv[0] == flag {
        if argv.len() > 1 {
            Some(argv[1])
        } else {
            None
        }
    } else {
        behind(argv.drop_first(), flag)
    }
}

/// The value of a flag: the argument behind its first occurrence.
pub fn arg_value(argv: &Vec<String>, flag: &str) -> (r: Option<String>)
    ensures
        opt_text(r) == behind(texts(argv@), flag@),
{
    let ghost views = texts(argv@);
    let mut i: usize = 0;
    assert(views.skip(0) =~= views);
    while i < argv.len()
        invariant
            i <= argv@.len(),
            views == texts(argv@),
            behind(views, flag@) == behind(views.skip(i as int), flag@),
        decreases argv@.len() - i,
    {
        assert(views.skip(i as int)[0] == argv@[i as int]@);
        if same_text(argv[i].as_str(), flag) {
            if i + 1 < argv.len() {
                assert(views.skip(i as int)[1] == argv@[i + 1]@);
                return Some(argv[i + 1].clone());
            }
            return None;
        }
        assert(views.skip(i as int).drop_first() =~= views.skip(i + 1));
        i += 1;
    }
    None
}

/// The broker's socket: the flag goes before the environment, and that before the home
/// directory. A flag without a value is an error.
pub fn resolve_socket_path(argv: &Vec<String>, named: Option<String>, home: Option<String>) -> (r:
    Result<SocketChoice, String>)
    ensures
        match r {
            Ok(SocketChoice::Named(p)) => if texts(argv@).contains(SOCKET_FLAG@) {
                behind(texts(argv@), SOCKET_FLAG@) == Some(p@)
            } else {
                named matches Some(n) && p@ == n@
            },
            Ok(SocketChoice::UnderHome(h)) => !texts(argv@).contains(SOCKET_FLAG@) && named is None
                && (home matches Some(d) && h@ == d@),
            Ok(SocketChoice::NoHome) => false,
            Err(msg) => if texts(argv@).contains(SOCKET_FLAG@) {
                behind(texts(argv@), SOCKET_FLAG@) is None && msg@
                    == "--socket requires an argument"@
            } else {
                named is None && home is None && msg@ == "could not resolve home dir"@
            },
        },
{
    if holds_text(argv, SOCKET_FLAG) {
        return match arg_value(argv, SOCKET_FLAG) {
            Some(p) => Ok(SocketChoice::Named(p)),
            None => Err("--socket requires an argument".to_owned()),
        };
    }
    match default_socket_path(named, home) {
        SocketChoice::NoHome => Err("could not resolve home dir".to_owned()),
        choice => Ok(choice),
    }
}

/// The arguments without the socket flags and their values.
pub open spec fn stripped(argv: Seq<Seq<char>>) -> Seq<Seq<char>>
    decreases argv.len(),
{
    if argv.len() == 0 {
        argv
    } else if argv[0] == SOCKET_FLAG@ {
        if argv.len() == 1 {
            Seq::empty()
        } else {
            stripped(argv.skip(2))
        }
    } else {
        seq![argv[0]] + stripped(argv.drop_first())
    }
}

/// Drops the socket flags and their values.
pub fn strip_socket_flag(argv: &Vec<String>) -> (out: Vec<String>)
    ensures
        texts(out@) == stripped(texts(argv@)),
{
    let ghost views = texts(argv@);
    let mut out: Vec<String> = Vec::new();
    let mut skip_next = false;
    let mut i: usize = 0;
    assert(views.skip(0) =~= views);
    assert(texts(out@) + stripped(views) =~= stripped(views));
    while i < argv.len()
        invariant
            i <= argv@.len(),
            views == texts(argv@),
            skip_next ==> i < argv@.len(),
            texts(out@) + stripped(
                views.skip(
                    if skip_next {
                        i + 1
                    } else {
                        i as int
                    },
                ),
            ) == stripped(views),
        decreases argv@.len() - i,
    {
        if skip_next {
            skip_next = false;
        } else {
            let ghost left = views.skip(i as int);
            assert(left[0] == argv@[i as int]@);
            if same_text(argv[i].as_str(), SOCKET_FLAG) {
                if i + 1 < argv.len() {
                    skip_next = true;
                    assert(left.skip(2) =~= views.skip(i + 2));
                } else {
                    assert(views.skip(i + 1) =~= Seq::<Seq<char>>::empty());
                }
            } else {
                let ghost before = out@;
                assert(left.drop_first() =~= views.skip(i + 1));
                out.push(argv[i].clone());
                assert(texts(out@) =~= texts(before) + seq![left[0]]);
                assert(texts(out@) + stripped(left.drop_first()) =~= texts(before) + stripped(
                    left,
                ));
            }
        }
        i += 1;
    }
    assert(views.skip(i as int) =~= Seq::<Seq<char>>::empty());
    assert(texts(out@) + stripped(views.skip(i as int)) =~= texts(out@));
    out
}

/// No socket flag is left, so that stripping again changes nothing.
pub proof fn stripping_is_complete(argv: Seq<Seq<char>>)
    ensures
        !stripped(argv).contains(SOCKET_FLAG@),
        stripped(stripped(argv)) == stripped(argv),
    decreases argv.len(),
{
    if argv.len() == 0 {
    } else if argv[0] == SOCKET_FLAG@ {
        if argv.len() > 1 {
            stripping_is_complete(argv.skip(2));
        }
    } else {
        let rest = argv.drop_first();
        stripping_is_complete(rest);
        let s = stripped(argv);
        assert(s.drop_first() =~= stripped(rest));
        if s.contains(SOCKET_FLAG@) {
            let i = choose|i: int| 0 <= i < s.len() && s[i] == SOCKET_FLAG@;
            assert(stripped(rest)[i - 1] == SOCKET_FLAG@);
        }
        assert(stripped(s) =~= s);
    }
}

/// Arguments without the flag are kept as they are.
pub proof fn stripping_keeps_the_rest(argv: Seq<Seq<char>>)
    requires
        !argv.contains(SOCKET_FLAG@),
    ensures
        stripped(argv) == argv,
    decreases argv.len(),
{
    if argv.len() > 0 {
        let rest = argv.drop_first();
        assert(argv[0] != SOCKET_FLAG@);
        if rest.contains(SOCKET_FLAG@) {
            let i = choose|i: int| 0 <= i < rest.len() && rest[i] == SOCKET_FLAG@;
            assert(argv[i + 1] == SOCKET_FLAG@);
        }
        stripping_keeps_the_rest(rest);
        assert(stripped(argv) =~= argv);
    }
}

/// The parts that are more than white space, without the white space around them.
pub open spec fn filled(parts: Seq<Seq<char>>) -> Seq<Seq<char>>
    decreases parts.len(),
{
    if parts.len() == 0 {
        parts
    } else {
        let rest = filled(parts.drop_last());
        if trimmed(parts.last()).len() == 0 {
            rest
        } else {
            rest.push(trimmed(parts.last()))
        }
    }
}

/// The items of a list with commas.
pub open spec fn csv(s: Seq<char>) -> Seq<Seq<char>> {
    filled(split_on(s, ','))
}

fn csv_items(s: &str) -> (out: Vec<String>)
    ensures
        texts(out@) == csv(s@),
{
    let chars = chars_of(s);
    let parts = split_chars(chars.as_slice(), ',');
    let ghost views = split_on(s@, ',');
    let mut out: Vec<String> = Vec::new();
    let mut i: usize = 0;
    assert(views.take(0) =~= Seq::<Seq<char>>::empty());
    assert(texts(out@) =~= filled(views.take(0)));
    while i < parts.len()
        invariant
            i <= parts@.len(),
            parts@.len() == views.len(),
            forall|k: int| 0 <= k < parts@.len() ==> (#[trigger] parts@[k])@ == views[k],
            texts(out@) == filled(views.take(i as int)),
        decreases parts@.len() - i,
    {
        let ghost before = out@;
        assert(views.take(i + 1).drop_last() =~= views.take(i as int));
        assert(views.take(i + 1).last() == parts@[i as int]@);
        let t = trim_chars(parts[i].as_slice());
        if t.len() > 0 {
            out.push(string_of(t.as_slice()));
            assert(texts(out@) =~= texts(before).push(t@));
        }
        i += 1;
    }
    assert(views.take(views.len() as int) =~= views);
    out
}

/// How a session is to be spawned.
#[derive(Debug)]
pub struct SpawnArgs {
    pub label: Option<String>,
    pub inherit: Vec<String>,
    pub profile: Option<String>,
    pub instructions: Option<String>,
    /// The command to run in the session.
    pub rest: Vec<String>,
}

/// What spawn arguments are.
pub struct SpawnView {
    pub label: Option<Seq<char>>,
    pub inherit: Seq<Seq<char>>,
    pub profile: Option<Seq<char>>,
    pub instructions: Option<Seq<char>>,
    pub rest: Seq<Seq<char>>,
}

impl View for SpawnArgs {
    type V = SpawnView;

    open spec fn view(&self) -> SpawnView {
        SpawnView {
            label: opt_text(self.label),
            inherit: texts(self.inherit@),
            profile: opt_text(self.profile),
            instructions: opt_text(self.instructions),
            rest: texts(self.rest@),
        }
    }
}

/// Nothing asked for.
pub open spec fn no_spawn_args() -> SpawnView {
    SpawnView {
        label: None,
        inherit: Seq::empty(),
        profile: None,
        instructions: None,
        rest: Seq::empty(),
    }
}

/// The arguments of `spawn`: flags with values, in any order; the last value of a flag
/// counts, and the lists to inherit add up. What stands behind `--` is the command.
pub open spec fn spawn_from(argv: Seq<Seq<char>>, so_far: SpawnView) -> Result<SpawnView, Seq<char>>
    decreases argv.len(),
{
    if argv.len() == 0 {
        Ok(so_far)
    } else if argv[0] == "--"@ {
        Ok(SpawnView { rest: so_far.rest + argv.drop_first(), ..so_far })
    } else if argv[0] == "--label"@ {
        if argv.len() > 1 {
            spawn_from(argv.skip(2), SpawnView { label: Some(argv[1]), ..so_far })
        } else {
            Err("--label requires a value"@)
        }
    } else if argv[0] == "--inherit"@ {
        if argv.len() > 1 {
            spawn_from(
                argv.skip(2),
                SpawnView { inherit: so_far.inherit + csv(argv[1]), ..so_far },
            )
        } else {
            Err("--inherit requires a value"@)
        }
    } else if argv[0] == "--profile"@ {
        if argv.len() > 1 {
            spawn_from(argv.skip(2), SpawnView { profile: Some(argv[1]), ..so_far })
        } else {
            Err("--profile requires a value"@)
        }
    } else if argv[0] == "--instructions"@ {
        if argv.len() > 1 {
            spawn_from(argv.skip(2), SpawnView { instructions: Some(argv[1]), ..so_far })
        } else {
            Err("--instructions requires a value"@)
        }
    } else if starts_with_text(argv[0], "-"@) {
        Err("unknown flag for `ofa spawn`: "@ + argv[0])
    } else {
        Err(
            "`ofa spawn` takes flags then `-- <command>`; got positional `"@ + argv[0] + "`"@,
        )
    }
}

fn append(list: &mut Vec<String>, more: Vec<String>)
    ensures
        texts(final(list)@) == texts(old(list)@) + texts(more@),
{
    let ghost start = texts(list@);
    let mut i: usize = 0;
    assert(texts(list@) =~= start + texts(more@).take(0));
    while i < more.len()
        invariant
            i <= more@.len(),
            texts(list@) == start + texts(more@).take(i as int),
        decreases more@.len() - i,
    {
        let ghost before = list@;
        list.push(more[i].clone());
        assert(texts(list@) =~= texts(before).push(more@[i as int]@));
        i += 1;
        assert(texts(list@) =~= start + texts(more@).take(i as int));
    }
    assert(texts(more@).take(more@.len() as int) =~= texts(more@));
}

/// Reads the arguments of `spawn`.
pub fn parse_spawn(argv: &Vec<String>) -> (r: Result<SpawnArgs, String>)
    ensures
        match r {
            Ok(a) => spawn_from(texts(argv@), no_spawn_args()) == Ok::<SpawnView, Seq<char>>(a@),
            Err(msg) => spawn_from(texts(argv@), no_spawn_args()) == Err::<SpawnView, Seq<char>>(
                msg@,
            ),
        },
{
    let ghost views = texts(argv@);
    let mut out = SpawnArgs {
        label: None,
        inherit: Vec::new(),
        profile: None,
        instructions: None,
        rest: Vec::new(),
    };
    assert(out@.inherit =~= Seq::<Seq<char>>::empty());
    assert(out@.rest =~= Seq::<Seq<char>>::empty());
    assert(views.skip(0) =~= views);
    let mut i: usize = 0;
    while i < argv.len()
        invariant
            i <= argv@.len(),
            views == texts(argv@),
            spawn_from(views, no_spawn_args()) == spawn_from(views.skip(i as int), out@),
        decreases argv@.len() - i,
    {
        let ghost left = views.skip(i as int);
        let ghost before = out@;
        let word = argv[i].as_str();
        assert(left[0] == word@);
        if same_text(word, "--") {
            let mut k: usize = i + 1;
            assert(out@.rest + left.drop_first().take(0) =~= out@.rest);
            while k < argv.len()
                invariant
                    i < k <= argv@.len(),
                    views == texts(argv@),
                    left == views.skip(i as int),
                    out@ == (SpawnView {
                        rest: before.rest + left.drop_first().take(k - i - 1),
                        ..before
                    }),
                decreases argv@.len() - k,
            {
                let ghost now = out.rest@;
                out.rest.push(argv[k].clone());
                assert(texts(out.rest@) =~= texts(now).push(argv@[k as int]@));
                k += 1;
                assert(out@.rest =~= before.rest + left.drop_first().take(k - i - 1));
            }
            assert(left.drop_first().take(k - i - 1) =~= left.drop_first());
            return Ok(out);
        }
        let has_value = i + 1 < argv.len();
        proof {
            if has_value {
                assert(left[1] == argv@[i + 1]@);
                assert(left.skip(2) =~= views.skip(i + 2));
            }
        }
        if same_text(word, "--label") {
            if !has_value {
                return Err("--label requires a value".to_owned());
            }
            out.label = Some(argv[i + 1].clone());
        } else if same_text(word, "--inherit") {
            if !has_value {
                return Err("--inherit requires a value".to_owned());
            }
            let items = csv_items(argv[i + 1].as_str());
            append(&mut out.inherit, items);
        } else if same_text(word, "--profile") {
            if !has_value {
                return Err("--profile requires a value".to_owned());
            }
            out.profile = Some(argv[i + 1].clone());
        } else if same_text(word, "--instructions") {
            if !has_value {
                return Err("--instructions requires a value".to_owned());
            }
            out.instructions = Some(argv[i + 1].clone());
        } else if text_starts_with(word, "-") {
            return Err(join2("unknown flag for `ofa spawn`: ", word));
        } else {
            return Err(
                join3(
                    "`ofa spawn` takes flags then `-- <command>`; got positional `",
                    word,
                    "`",
                ),
            );
        }
        i += 2;
    }
    assert(views.skip(i as int) =~= Seq::<Seq<char>>::empty());
    Ok(out)
}

/// A member, where there is a value.
pub open spec fn member_if(key: Seq<char>, value: Option<Seq<char>>) -> Seq<
    (Seq<char>, JsonView),
> {
    match value {
        Some(v) => seq![(key, JsonView::String(v))],
        None => Seq::empty(),
    }
}

/// What the broker is told to spawn: only what was asked for.
pub open spec fn spawn_params_view(a: SpawnView) -> JsonView {
    object_view(
        member_if("label"@, a.label) + (if a.inherit.len() > 0 {
            seq![("inherit"@, texts_view(a.inherit))]
        } else {
            Seq::empty()
        }) + member_if("profile"@, a.profile) + member_if("instructions"@, a.instructions),
    )
}

fn put_if(b: &mut ObjectBuilder, key: &str, value: &Option<String>)
    ensures
        final(b)@ == old(b)@ + member_if(key@, opt_text(*value)),
{
    match value {
        Some(v) => {
            b.put(key, Json::text(v.as_str()));
        },
        None => {},
    }
    assert(b@ =~= old(b)@ + member_if(key@, opt_text(*value)));
}

/// The parameters of the call that spawns a session.
pub fn spawn_params(a: &SpawnArgs) -> (j: Json)
    ensures
        j@ == spawn_params_view(a@),
{
    let mut b = ObjectBuilder::new();
    put_if(&mut b, "label", &a.label);
    let ghost one = b@;
    if a.inherit.len() > 0 {
        b.put("inherit", array_of_texts(&a.inherit));
        assert(b@ =~= one + seq![("inherit"@, texts_view(a@.inherit))]);
    } else {
        assert(b@ =~= one + Seq::<(Seq<char>, JsonView)>::empty());
    }
    put_if(&mut b, "profile", &a.profile);
    put_if(&mut b, "instructions", &a.instructions);
    assert(b@ =~= spawn_params_view(a@)->Object_0);
    b.done()
}

/// The session that the broker has spawned, or what is wrong with its reply. `shown` is the
/// reply as text.
pub fn spawned_session(reply: &Json, shown: &str) -> (r: Result<String, String>)
    ensures
        match r {
            Ok(id) => reply@.member("session_id"@) == Some(JsonView::String(id@)),
            Err(msg) => !(reply@.member("session_id"@) matches Some(JsonView::String(_))) && msg@
                == "broker did not return session_id: "@ + shown@,
        },
{
    match reply.get("session_id") {
        Some(v) => match v.as_text() {
            Some(id) => Ok(id.to_owned()),
            None => Err(join2("broker did not return session_id: ", shown)),
        },
        None => Err(join2("broker did not return session_id: ", shown)),
    }
}

/// What is printed of a spawned session.
pub fn spawn_report(session_id: &str, label: &Option<String>) -> (j: Json)
    ensures
        j@ == object_view(
            seq![
                ("session_id"@, JsonView::String(session_id@)),
                (
                    "label"@,
                    match opt_text(*label) {
                        Some(l) => JsonView::String(l),
                        None => JsonView::Null,
                    },
                ),
            ],
        ),
        j@.member("session_id"@) == Some(JsonView::String(session_id@)),
        match label {
            Some(l) => j@.member("label"@) == Some(JsonView::String(l@)),
            None => j@.member("label"@) == Some(JsonView::Null),
        },
{
    let mut b = ObjectBuilder::new();
    b.put("session_id", Json::text(session_id));
    let shown = match label {
        Some(l) => Json::text(l.as_str()),
        None => Json::Null,
    };
    b.put("label", shown);
    let ghost want = seq![
        ("session_id"@, JsonView::String(session_id@)),
        (
            "label"@,
            match opt_text(*label) {
                Some(l) => JsonView::String(l),
                None => JsonView::Null,
            },
        ),
    ];
    assert(b@ =~= want);
    proof {
        reveal_strlit("session_id");
        reveal_strlit("label");
        assert("session_id"@.len() == 10 && "label"@.len() == 5);
        assert(want[0].0 == "session_id"@ && want[1].0 == "label"@);
        lemma_member_at(want, "session_id"@, 0);
        lemma_member_at(want, "label"@, 1);
    }
    b.done()
}

/// The session that a flag names, or what is missing.
pub fn required_session(command: &str, argv: &Vec<String>) -> (r: Result<String, String>)
    ensures
        match r {
            Ok(id) => behind(texts(argv@), "--session"@) == Some(id@),
            Err(msg) => behind(texts(argv@), "--session"@) is None && msg@ == "`ofa "@ + command@
                + "` requires --session <ID>"@,
        },
{
    match arg_value(argv, "--session") {
        Some(id) => Ok(id),
        None => Err(join3("`ofa ", command, "` requires --session <ID>")),
    }
}

/// What the broker is told to merge.
pub open spec fn merge_view(argv: Seq<Seq<char>>) -> Result<JsonView, Seq<char>> {
    match behind(argv, "--session"@) {
        None => Err("`ofa merge` requires --session <ID>"@),
        Some(session) => match behind(argv, "--paths"@) {
            None => Err("`ofa merge` requires --paths <csv>"@),
            Some(paths) => {
                let apply = argv.contains("--apply"@);
                let dry_run = argv.contains("--dry-run"@);
                if csv(paths).len() == 0 {
                    Err("--paths must be a non-empty CSV"@)
                } else if apply && dry_run {
                    Err("--apply and --dry-run are mutually exclusive"@)
                } else {
                    Ok(
                        object_view(
                            seq![
                                ("child_session_id"@, JsonView::String(session)),
                                ("paths"@, texts_view(csv(paths))),
                                (
                                    "strategy"@,
                                    JsonView::String(
                                        match behind(argv, "--strategy"@) {
                                            Some(s) => s,
                                            None => "prompt"@,
                                        },
                                    ),
                                ),
                                ("apply"@, JsonView::Bool(apply)),
                                ("dry_run"@, JsonView::Bool(dry_run)),
                            ],
                        ),
                    )
                }
            },
        },
    }
}

/// The parameters of the call that merges a session.
pub fn merge_params(argv: &Vec<String>) -> (r: Result<Json, String>)
    ensures
        match r {
            Ok(j) => merge_view(texts(argv@)) == Ok::<JsonView, Seq<char>>(j@),
            Err(msg) => merge_view(texts(argv@)) == Err::<JsonView, Seq<char>>(msg@),
        },
{
    let session = match arg_value(argv, "--session") {
        Some(s) => s,
        None => {
            return Err("`ofa merge` requires --session <ID>".to_owned());
        },
    };
    let list = match arg_value(argv, "--paths") {
        Some(s) => s,
        None => {
            return Err("`ofa merge` requires --paths <csv>".to_owned());
        },
    };
    let strategy = match arg_value(argv, "--strategy") {
        Some(s) => s,
        None => "prompt".to_owned(),
    };
    let apply = holds_text(argv, "--apply");
    let dry_run = holds_text(argv, "--dry-run");
    let paths = csv_items(list.as_str());
    if paths.len() == 0 {
        return Err("--paths must be a non-empty CSV".to_owned());
    }
    if apply && dry_run {
        return Err("--apply and --dry-run are mutually exclusive".to_owned());
    }
    let mut b = ObjectBuilder::new();
    b.put("child_session_id", Json::text(session.as_str()));
    b.put("paths", array_of_texts(&paths));
    b.put("strategy", Json::text(strategy.as_str()));
    b.put("apply", Json::Bool(apply));
    b.put("dry_run", Json::Bool(dry_run));
    assert(b@ =~= (merge_view(texts(argv@))->Ok_0)->Object_0);
    Ok(b.done())
}

/// What is to be killed.
#[derive(Debug)]
pub enum KillPlan {
    All,
    One(String),
}

/// Reads what is to be killed: exactly one of all sessions or one session.
pub fn kill_plan(argv: &Vec<String>) -> (r: Result<KillPlan, String>)
    ensures
        ({
            let all = texts(argv@).contains("--all"@);
            let one = behind(texts(argv@), "--session"@);
            match r {
                Ok(KillPlan::All) => all && one is None,
                Ok(KillPlan::One(id)) => !all && one == Some(id@),
                Err(msg) => all == (one is Some) && msg@
                    == "`ofa kill` requires exactly one of --session <ID> or --all"@,
            }
        }),
{
    let all = holds_text(argv, "--all");
    match arg_value(argv, "--session") {
        Some(id) => if all {
            Err("`ofa kill` requires exactly one of --session <ID> or --all".to_owned())
        } else {
            Ok(KillPlan::One(id))
        },
        None => if all {
            Ok(KillPlan::All)
        } else {
            Err("`ofa kill` requires exactly one of --session <ID> or --all".to_owned())
        },
    }
}

/// The sessions in a status report, where it lists any.
pub open spec fn rows_of(status: JsonView) -> Option<Seq<JsonView>> {
    match status.member("sessions"@) {
        Some(JsonView::Array(rows)) => Some(rows),
        _ => None,
    }
}

/// The rows of a status report.
pub fn session_rows<'a>(status: &'a Json) -> (r: Option<&'a Vec<Json>>)
    ensures
        match r {
            Some(v) => rows_of(status@) == Some(v@.map_values(|j: Json| j@)),
            None => rows_of(status@) is None,
        },
{
    match status.get("sessions") {
        Some(Json::Array(v)) => {
            assert(JsonView::Array(v@.map_values(|j: Json| j@)) == Json::Array(*v)@) by {
                assert(v@.map_values(|j: Json| j@) =~= Json::Array(*v)@->Array_0);
            }
            Some(v)
        },
        _ => None,
    }
}

/// The session of a row.
pub fn row_session(row: &Json) -> (r: Result<String, String>)
    ensures
        match r {
            Ok(id) => row@.member("session_id"@) == Some(JsonView::String(id@)),
            Err(msg) => !(row@.member("session_id"@) matches Some(JsonView::String(_))) && msg@
                == "status row missing session_id"@,
        },
{
    match row.get("session_id") {
        Some(v) => match v.as_text() {
            Some(id) => Ok(id.to_owned()),
            None => Err("status row missing session_id".to_owned()),
        },
        None => Err("status row missing session_id".to_owned()),
    }
}

/// So many spaces.
pub open spec fn spaces(n: int) -> Seq<char> {
    Seq::new(
        if n > 0 {
            n as nat
        } else {
            0
        },
        |i: int| ' ',
    )
}

/// A text at the left of a column.
pub open spec fn at_left(s: Seq<char>, width: nat) -> Seq<char> {
    s + spaces(width - s.len())
}

/// A text at the right of a column.
pub open spec fn at_right(s: Seq<char>, width: nat) -> Seq<char> {
    spaces(width - s.len()) + s
}

fn fill(s: &str, width: usize) -> (r: String)
    ensures
        r@ == spaces(width - s@.len()),
{
    let n: usize = s.unicode_len();
    let mut v: Vec<char> = Vec::new();
    let mut i: usize = n;
    assert(v@ =~= spaces(0));
    while i < width
        invariant
            n == s@.len(),
            n <= i,
            i <= width || i == n,
            v@ == spaces(i - n),
        decreases width - i,
    {
        v.push(' ');
        i += 1;
        assert(v@ =~= spaces(i - n));
    }
    assert(v@ =~= spaces(width - s@.len()));
    string_of(v.as_slice())
}

/// One line of the session table.
pub open spec fn table_line(
    id: Seq<char>,
    tabs: Seq<char>,
    last: Seq<char>,
    created: Seq<char>,
    label: Seq<char>,
) -> Seq<char> {
    at_left(id, 14) + " "@ + at_right(tabs, 5) + " "@ + at_right(last, 10) + " "@ + at_right(
        created,
        14,
    ) + "  "@ + label + "\n"@
}

fn line(id: &str, tabs: &str, last: &str, created: &str, label: &str) -> (r: String)
    ensures
        r@ == table_line(id@, tabs@, last@, created@, label@),
{
    let mut r = id.to_owned();
    let pad = fill(id, 14);
    r.append(pad.as_str());
    r.append(" ");
    let pad = fill(tabs, 5);
    let cell = join2(pad.as_str(), tabs);
    r.append(cell.as_str());
    r.append(" ");
    let pad = fill(last, 10);
    let cell = join2(pad.as_str(), last);
    r.append(cell.as_str());
    r.append(" ");
    let pad = fill(created, 14);
    let cell = join2(pad.as_str(), created);
    r.append(cell.as_str());
    r.append("  ");
    r.append(label);
    r.append("\n");
    r
}

/// A text member of a row, or something in its place.
pub open spec fn text_or(row: JsonView, key: Seq<char>, other: Seq<char>) -> Seq<char> {
    match row.member(key) {
        Some(JsonView::String(s)) => s,
        _ => other,
    }
}

/// A number member of a row, zero where it has none.
pub open spec fn number_or_zero(row: JsonView, key: Seq<char>) -> nat {
    match row.member(key) {
        Some(v) => match v.unsigned() {
            Some(n) => n as nat,
            None => 0,
        },
        None => 0,
    }
}

/// The line of a session.
pub open spec fn row_line(row: JsonView) -> Seq<char> {
    table_line(
        text_or(row, "session_id"@, "?"@),
        decimal(number_or_zero(row, "tab_count"@)),
        decimal(number_or_zero(row, "last_activity_ms"@)),
        decimal(number_or_zero(row, "created_at_ms"@)),
        text_or(row, "label"@, ""@),
    )
}

/// The session table: a heading and a line for each session.
pub open spec fn table(rows: Seq<JsonView>) -> Seq<char>
    decreases rows.len(),
{
    if rows.len() == 0 {
        table_line("SESSION"@, "TABS"@, "ACT_AGO_MS"@, "CREATED_MS"@, "LABEL"@)
    } else {
        table(rows.drop_last()) + row_line(rows.last())
    }
}

fn row_text(row: &Json, key: &str, other: &str) -> (s: String)
    ensures
        s@ == text_or(row@, key@, other@),
{
    match row.get(key) {
        Some(v) => match v.as_text() {
            Some(t) => t.to_owned(),
            None => other.to_owned(),
        },
        None => other.to_owned(),
    }
}

fn row_number(row: &Json, key: &str) -> (s: String)
    ensures
        s@ == decimal(number_or_zero(row@, key@)),
{
    let n: u64 = match row.get(key) {
        Some(v) => match v.as_u64() {
            Some(n) => n,
            None => 0,
        },
        None => 0,
    };
    decimal_text(n)
}

/// What `list` prints: the session table, or that there are no sessions.
pub fn list_output(status: &Json) -> (r: Result<String, String>)
    ensures
        match r {
            Ok(s) => match rows_of(status@) {
                Some(rows) => s@ == (if rows.len() == 0 {
                    "(no sessions)\n"@
                } else {
                    table(rows)
                }),
                None => false,
            },
            Err(msg) => rows_of(status@) is None && msg@ == "_internal.status missing `sessions`"@,
        },
{
    let rows = match session_rows(status) {
        Some(rows) => rows,
        None => {
            return Err("_internal.status missing `sessions`".to_owned());
        },
    };
    let ghost views = rows@.map_values(|j: Json| j@);
    if rows.len() == 0 {
        return Ok("(no sessions)\n".to_owned());
    }
    let mut out = line("SESSION", "TABS", "ACT_AGO_MS", "CREATED_MS", "LABEL");
    let mut i: usize = 0;
    assert(views.take(0) =~= Seq::<JsonView>::empty());
    while i < rows.len()
        invariant
            i <= rows@.len(),
            views == rows@.map_values(|j: Json| j@),
            out@ == table(views.take(i as int)),
        decreases rows@.len() - i,
    {
        let row = &rows[i];
        assert(views.take(i + 1).drop_last() =~= views.take(i as int));
        assert(views.take(i + 1).last() == row@);
        let id = row_text(row, "session_id", "?");
        let tabs = row_number(row, "tab_count");
        let last = row_number(row, "last_activity_ms");
        let created = row_number(row, "created_at_ms");
        let label = row_text(row, "label", "");
        let text = line(
            id.as_str(),
            tabs.as_str(),
            last.as_str(),
            created.as_str(),
            label.as_str(),
        );
        out.append(text.as_str());
        i += 1;
    }
    assert(views.take(views.len() as int) =~= views);
    Ok(out)
}

/// A file of a trace directory, with the time of its latest change in nanoseconds.
#[derive(Debug)]
pub struct TraceEntry {
    pub name: String,
    pub modified: u128,
}

/// The name has the extension of a live trace: something, a dot and `jsonl`, where the dot
/// is the last one.
pub open spec fn is_live_trace(name: Seq<char>) -> bool {
    name.len() > 6 && name.subrange(name.len() - 6, name.len() as int) == ".jsonl"@
}

/// The `i`-th entry is the first of the live traces that were changed last.
pub open spec fn latest_trace(entries: Seq<TraceEntry>, i: int) -> bool {
    &&& 0 <= i < entries.len()
    &&& is_live_trace(entries[i].name@)
    &&& forall|k: int|
        0 <= k < entries.len() && is_live_trace((#[trigger] entries[k]).name@)
            ==> entries[k].modified <= entries[i].modified
    &&& forall|k: int|
        0 <= k < i && is_live_trace((#[trigger] entries[k]).name@) ==> entries[k].modified
            < entries[i].modified
}

fn live_trace(name: &str) -> (r: bool)
    ensures
        r == is_live_trace(name@),
{
    let n: usize = name.unicode_len();
    proof {
        reveal_strlit(".jsonl");
    }
    n > 6 && crate::text::text_ends_with(name, ".jsonl")
}

/// The live trace that was changed last.
pub fn pick_trace(entries: &Vec<TraceEntry>) -> (r: Option<usize>)
    ensures
        match r {
            Some(i) => latest_trace(entries@, i as int),
            None => forall|k: int|
                0 <= k < entries@.len() ==> !is_live_trace((#[trigger] entries@[k]).name@),
        },
{
    let mut best: Option<usize> = None;
    let mut i: usize = 0;
    assert(entries@.take(0) =~= Seq::<TraceEntry>::empty());
    while i < entries.len()
        invariant
            i <= entries@.len(),
            match best {
                Some(b) => b < i && latest_trace(entries@.take(i as int), b as int),
                None => forall|k: int|
                    0 <= k < i ==> !is_live_trace((#[trigger] entries@[k]).name@),
            },
        decreases entries@.len() - i,
    {
        let ghost seen = entries@.take(i as int);
        let ghost more = entries@.take(i + 1);
        assert forall|k: int| 0 <= k < i implies more[k] == #[trigger] entries@[k] && seen[k]
            == entries@[k] by {}
        if live_trace(entries[i].name.as_str()) {
            match best {
                Some(b) => {
                    if entries[i].modified > entries[b].modified {
                        best = Some(i);
                    }
                },
                None => {
                    best = Some(i);
                },
            }
        }
        proof {
            match best {
                Some(b) => {
                    assert forall|k: int|
                        0 <= k < more.len() && is_live_trace(
                            (#[trigger] more[k]).name@,
                        ) implies more[k].modified <= more[b as int].modified by {
                        if k < i {
                            assert(more[k] == entries@[k]);
                            assert(seen[k] == more[k]);
                        }
                    }
                    assert forall|k: int|
                        0 <= k < b && is_live_trace(
                            (#[trigger] more[k]).name@,
                        ) implies more[k].modified < more[b as int].modified by {
                        if k < i {
                            assert(more[k] == entries@[k]);
                            assert(seen[k] == more[k]);
                        }
                    }
                    assert(latest_trace(more, b as int));
                },
                None => {},
            }
        }
        i += 1;
    }
    assert(entries@.take(entries@.len() as int) =~= entries@);
    best
}

/// What a line from the broker means to a caller that waits for one reply.
#[derive(Debug)]
pub enum CliReply {
    /// It is for somebody else.
    Skip,
    /// The call failed with that error.
    Error(Json),
    Result(Json),
}

/// Reads a line from the broker: notifications and replies to other calls are skipped, an
/// error goes before a result, and a reply without either is null.
pub fn cli_reply(m: &Json, id: u64) -> (r: CliReply)
    ensures
        ({
            let mine = match m@.member("id"@) {
                Some(v) => v.unsigned() == Some(id),
                None => false,
            };
            match r {
                CliReply::Skip => !mine,
                CliReply::Error(e) => mine && m@.member("error"@) == Some(e@),
                CliReply::Result(v) => mine && m@.member("error"@) is None && v@ == (match m@.member(
                    "result"@,
                ) {
                    Some(x) => x,
                    None => JsonView::Null,
                }),
            }
        }),
{
    let mine = match m.get("id") {
        Some(v) => match v.as_u64() {
            Some(n) => n == id,
            None => false,
        },
        None => false,
    };
    if !mine {
        return CliReply::Skip;
    }
    match m.get("error") {
        Some(e) => CliReply::Error(e.copy()),
        None => match m.get("result") {
            Some(v) => CliReply::Result(v.copy()),
            None => CliReply::Result(Json::Null),
        },
    }
}

/// How the operator's client introduces itself.
pub fn cli_register_params(version: &str) -> (j: Json)
    ensures
        j@ == object_view(
            seq![
                ("client_name"@, JsonView::String("ofa/"@ + version@)),
                ("client_version"@, JsonView::String(version@)),
                ("capabilities"@, JsonView::Array(Seq::empty())),
                ("trace"@, JsonView::Bool(false)),
            ],
        ),
        j@.member("client_name"@) == Some(JsonView::String("ofa/"@ + version@)),
        j@.member("client_version"@) == Some(JsonView::String(version@)),
        j@.member("capabilities"@) matches Some(JsonView::Array(caps)) && caps.len() == 0,
        j@.member("trace"@) == Some(JsonView::Bool(false)),
{
    let name = join2("ofa/", version);
    let none: Vec<Json> = Vec::new();
    let mut b = ObjectBuilder::new();
    b.put("client_name", Json::text(name.as_str()));
    b.put("client_version", Json::text(version));
    let list = crate::json::array_of(none);
    assert(list@ == JsonView::Array(Seq::empty())) by {
        assert(list@->Array_0 =~= Seq::<JsonView>::empty());
    }
    b.put("capabilities", list);
    b.put("trace", Json::Bool(false));
    let ghost want = seq![
        ("client_name"@, JsonView::String("ofa/"@ + version@)),
        ("client_version"@, JsonView::String(version@)),
        ("capabilities"@, JsonView::Array(Seq::empty())),
        ("trace"@, JsonView::Bool(false)),
    ];
    assert(b@ =~= want);
    proof {
        reveal_strlit("client_name");
        reveal_strlit("client_version");
        reveal_strlit("capabilities");
        reveal_strlit("trace");
        assert("client_name"@.len() == 11 && "client_version"@.len() == 14
            && "capabilities"@.len() == 12 && "trace"@.len() == 5);
        assert(want[0].0 == "client_name"@ && want[1].0 == "client_version"@
            && want[2].0 == "capabilities"@ && want[3].0 == "trace"@);
        lemma_member_at(want, "client_name"@, 0);
        lemma_member_at(want, "client_version"@, 1);
        lemma_member_at(want, "capabilities"@, 2);
        lemma_member_at(want, "trace"@, 3);
    }
    b.done()
}

/// The words that name a subcommand, each of them just one.
pub proof fn subcommands_have_these_names(c: Subcommand)
    ensures
        names_subcommand("spawn"@, c) == (c == Subcommand::Spawn),
        names_subcommand("list"@, c) == (c == Subcommand::List),
        names_subcommand("ls"@, c) == (c == Subcommand::List),
        names_subcommand("attach"@, c) == (c == Subcommand::Attach),
        names_subcommand("merge"@, c) == (c == Subcommand::Merge),
        names_subcommand("kill"@, c) == (c == Subcommand::Kill),
        names_subcommand("logs"@, c) == (c == Subcommand::Logs),
        names_subcommand("help"@, c) == (c == Subcommand::Help),
        names_subcommand("--help"@, c) == (c == Subcommand::Help),
        names_subcommand("-h"@, c) == (c == Subcommand::Help),
        names_subcommand("--version"@, c) == (c == Subcommand::Version),
        names_subcommand("-V"@, c) == (c == Subcommand::Version),
{
    reveal_strlit("spawn");
    reveal_strlit("list");
    reveal_strlit("ls");
    reveal_strlit("attach");
    reveal_strlit("merge");
    reveal_strlit("kill");
    reveal_strlit("logs");
    reveal_strlit("help");
    reveal_strlit("--help");
    reveal_strlit("-h");
    reveal_strlit("--version");
    reveal_strlit("-V");
    assert("spawn"@.len() == 5 && "list"@.len() == 4 && "ls"@.len() == 2 && "attach"@.len() == 6
        && "merge"@.len() == 5 && "kill"@.len() == 4 && "logs"@.len() == 4 && "help"@.len() == 4
        && "--help"@.len() == 6 && "-h"@.len() == 2 && "--version"@.len() == 9 && "-V"@.len() == 2
        && "spawn"@[0] == 's' && "merge"@[0] == 'm' && "list"@[0] == 'l' && "kill"@[0] == 'k'
        && "list"@[1] == 'i' && "logs"@[1] == 'o' && "help"@[0] == 'h' && "ls"@[0] == 'l'
        && "-h"@[0] == '-' && "-V"@[0] == '-' && "attach"@[0] == 'a' && "--help"@[0] == '-'
        && "logs"@[0] == 'l' && "-h"@[1] == 'h' && "-V"@[1] == 'V');
}

/// The `i`-th argument is the first one that is the flag.
pub open spec fn first_at(argv: Seq<Seq<char>>, flag: Seq<char>, i: int) -> bool {
    &&& 0 <= i < argv.len()
    &&& argv[i] == flag
    &&& forall|k: int| 0 <= k < i ==> #[trigger] argv[k] != flag
}

/// The value of a flag is the argument right behind the first place where the flag stands.
/// There is none where the flag is missing, or where it is the last argument.
pub proof fn a_flag_has_the_value_behind_it(argv: Seq<Seq<char>>, flag: Seq<char>, i: int)
    ensures
        first_at(argv, flag, i) && i + 1 < argv.len() ==> behind(argv, flag) == Some(argv[i + 1]),
        first_at(argv, flag, i) && i + 1 == argv.len() ==> behind(argv, flag) is None,
        !argv.contains(flag) ==> behind(argv, flag) is None,
    decreases argv.len(),
{
    if argv.len() > 0 {
        let rest = argv.drop_first();
        a_flag_has_the_value_behind_it(rest, flag, i - 1);
        if first_at(argv, flag, i) && i > 0 {
            assert(argv[0] != flag);
            assert forall|k: int| 0 <= k < i - 1 implies #[trigger] rest[k] != flag by {
                assert(argv[k + 1] != flag);
            }
            assert(first_at(rest, flag, i - 1));
        }
        if !argv.contains(flag) {
            assert(argv[0] != flag);
            if rest.contains(flag) {
                let k = choose|k: int| 0 <= k < rest.len() && rest[k] == flag;
                assert(argv[k + 1] == flag);
            }
        }
    }
}

/// What a merge asks for is what the arguments say: the session behind the first `--session`,
/// the items of the list behind the first `--paths`, the strategy behind the first
/// `--strategy`, and whether `--apply` and `--dry-run` are there. The strategy is `prompt` only
/// where the flag is missing or has no value behind it.
pub proof fn merges_say_what_the_arguments_say(argv: Seq<Seq<char>>, s: int, p: int, t: int)
    requires
        first_at(argv, "--session"@, s),
        s + 1 < argv.len(),
        first_at(argv, "--paths"@, p),
        p + 1 < argv.len(),
        csv(argv[p + 1]).len() > 0,
        !(argv.contains("--apply"@) && argv.contains("--dry-run"@)),
    ensures
        ({
            &&& merge_view(argv) matches Ok(j)
            &&& j.member("child_session_id"@) == Some(JsonView::String(argv[s + 1]))
            &&& j.member("paths"@) matches Some(JsonView::Array(items))
            &&& items.len() == csv(argv[p + 1]).len()
            &&& forall|k: int|
                0 <= k < items.len() ==> #[trigger] items[k] == JsonView::String(
                    csv(argv[p + 1])[k],
                )
            &&& first_at(argv, "--strategy"@, t) && t + 1 < argv.len() ==> j.member("strategy"@)
                == Some(JsonView::String(argv[t + 1]))
            &&& first_at(argv, "--strategy"@, t) && t + 1 == argv.len() ==> j.member("strategy"@)
                == Some(JsonView::String("prompt"@))
            &&& !argv.contains("--strategy"@) ==> j.member("strategy"@) == Some(
                JsonView::String("prompt"@),
            )
            &&& j.member("apply"@) == Some(JsonView::Bool(argv.contains("--apply"@)))
            &&& j.member("dry_run"@) == Some(JsonView::Bool(argv.contains("--dry-run"@)))
        }),
{
    a_flag_has_the_value_behind_it(argv, "--session"@, s);
    a_flag_has_the_value_behind_it(argv, "--paths"@, p);
    a_flag_has_the_value_behind_it(argv, "--strategy"@, t);
    reveal_strlit("child_session_id");
    reveal_strlit("paths");
    reveal_strlit("strategy");
    reveal_strlit("apply");
    reveal_strlit("dry_run");
    assert("child_session_id"@.len() == 16 && "paths"@.len() == 5 && "strategy"@.len() == 8
        && "apply"@.len() == 5 && "dry_run"@.len() == 7 && "paths"@[0] == 'p'
        && "apply"@[0] == 'a');
    let m = (merge_view(argv)->Ok_0)->Object_0;
    assert(m[0].0 == "child_session_id"@ && m[1].0 == "paths"@ && m[2].0 == "strategy"@
        && m[3].0 == "apply"@ && m[4].0 == "dry_run"@);
    lemma_member_at(m, "child_session_id"@, 0);
    lemma_member_at(m, "paths"@, 1);
    lemma_member_at(m, "strategy"@, 2);
    lemma_member_at(m, "apply"@, 3);
    lemma_member_at(m, "dry_run"@, 4);
}

/// A merge needs a session and a list of paths that is not empty, and is either applied or
/// tried, not both; nothing else is wrong with its arguments.
pub proof fn merges_are_refused_for_a_reason(argv: Seq<Seq<char>>)
    ensures
        match merge_view(argv) {
            Ok(_) => {
                &&& argv.contains("--session"@)
                &&& argv.contains("--paths"@)
                &&& !(argv.contains("--apply"@) && argv.contains("--dry-run"@))
            },
            Err(msg) => {
                ||| msg == "`ofa merge` requires --session <ID>"@ && behind(argv, "--session"@)
                    is None
                ||| msg == "`ofa merge` requires --paths <csv>"@ && behind(argv, "--session"@)
                    is Some && behind(argv, "--paths"@) is None
                ||| msg == "--paths must be a non-empty CSV"@ && (behind(argv, "--paths"@) matches
                    Some(list) && csv(list).len() == 0)
                ||| msg == "--apply and --dry-run are mutually exclusive"@ && argv.contains(
                    "--apply"@,
                ) && argv.contains("--dry-run"@)
            },
        },
{
    a_flag_has_the_value_behind_it(argv, "--session"@, 0);
    a_flag_has_the_value_behind_it(argv, "--paths"@, 0);
}

/// A list with commas gives what stands between them, in order, without the white space around
/// it and without what is white space alone.
pub proof fn lists_give_what_stands_between_commas(s: Seq<char>)
    ensures
        csv(s) == split_on(s, ',').map_values(|p: Seq<char>| trimmed(p)).filter(
            |p: Seq<char>| p.len() > 0,
        ),
{
    lemma_filled(split_on(s, ','));
}

proof fn lemma_filled(parts: Seq<Seq<char>>)
    ensures
        filled(parts) == parts.map_values(|p: Seq<char>| trimmed(p)).filter(
            |p: Seq<char>| p.len() > 0,
        ),
    decreases parts.len(),
{
    reveal(Seq::filter);
    let all = parts.map_values(|p: Seq<char>| trimmed(p));
    if parts.len() > 0 {
        lemma_filled(parts.drop_last());
        assert(all.drop_last() =~= parts.drop_last().map_values(|p: Seq<char>| trimmed(p)));
        assert(all.last() == trimmed(parts.last()));
    } else {
        assert(filled(parts) =~= all.filter(|p: Seq<char>| p.len() > 0));
    }
}

/// An item that a list with commas can hold: not empty, without white space at its ends and
/// without a comma.
pub open spec fn is_plain_item(s: Seq<char>) -> bool {
    s.len() > 0 && trimmed(s) == s && lacks(s, ',')
}

/// The items of a list are read back from the list.
pub proof fn lists_are_read_back(items: Seq<Seq<char>>)
    requires
        items.len() > 0,
        forall|i: int| 0 <= i < items.len() ==> is_plain_item(#[trigger] items[i]),
    ensures
        csv(joined(items, seq![','])) == items,
{
    assert forall|i: int| 0 <= i < items.len() implies lacks(#[trigger] items[i], ',') by {
        assert(is_plain_item(items[i]));
    }
    splitting_undoes_joining(items, ',');
    lemma_filled_plain(items);
}

proof fn lemma_filled_plain(items: Seq<Seq<char>>)
    requires
        forall|i: int| 0 <= i < items.len() ==> is_plain_item(#[trigger] items[i]),
    ensures
        filled(items) == items,
    decreases items.len(),
{
    if items.len() > 0 {
        let rest = items.drop_last();
        assert forall|i: int| 0 <= i < rest.len() implies is_plain_item(#[trigger] rest[i]) by {
            assert(is_plain_item(items[i]));
        }
        lemma_filled_plain(rest);
        assert(is_plain_item(items[items.len() - 1]));
        assert(rest.push(items.last()) =~= items);
    }
}

/// A flag and its value.
pub open spec fn flag_if(flag: Seq<char>, value: Option<Seq<char>>) -> Seq<Seq<char>> {
    match value {
        Some(v) => Seq::empty().push(flag).push(v),
        None => Seq::empty(),
    }
}

/// The arguments that ask for a spawn.
pub open spec fn spawn_argv(a: SpawnView) -> Seq<Seq<char>> {
    flag_if("--label"@, a.label) + (flag_if(
        "--inherit"@,
        if a.inherit.len() > 0 {
            Some(joined(a.inherit, seq![',']))
        } else {
            None
        },
    ) + (flag_if("--profile"@, a.profile) + (flag_if("--instructions"@, a.instructions)
        + seq!["--"@] + a.rest)))
}

/// What is asked of a spawn is read back from the arguments that ask for it, each value from
/// its own flag and the command from behind `--`.
pub proof fn spawn_arguments_are_read_back(a: SpawnView)
    requires
        forall|i: int| 0 <= i < a.inherit.len() ==> is_plain_item(#[trigger] a.inherit[i]),
    ensures
        ({
            &&& spawn_from(spawn_argv(a), no_spawn_args()) matches Ok(b)
            &&& b.label == a.label
            &&& b.inherit == a.inherit
            &&& b.profile == a.profile
            &&& b.instructions == a.instructions
            &&& b.rest == a.rest
        }),
{
    reveal_strlit("--label");
    reveal_strlit("--inherit");
    reveal_strlit("--profile");
    reveal_strlit("--instructions");
    reveal_strlit("--");
    assert("--label"@.len() == 7 && "--inherit"@.len() == 9 && "--profile"@.len() == 9
        && "--instructions"@.len() == 14 && "--"@.len() == 2 && "--inherit"@[2] == 'i'
        && "--profile"@[2] == 'p');
    let tail4 = seq!["--"@] + a.rest;
    assert(flag_if("--instructions"@, a.instructions) + seq!["--"@] + a.rest =~= flag_if(
        "--instructions"@,
        a.instructions,
    ) + tail4);
    let tail3 = flag_if("--instructions"@, a.instructions) + tail4;
    let tail2 = flag_if("--profile"@, a.profile) + tail3;
    let list = if a.inherit.len() > 0 {
        Some(joined(a.inherit, seq![',']))
    } else {
        None
    };
    let tail1 = flag_if("--inherit"@, list) + tail2;
    let v0 = no_spawn_args();
    let v1 = SpawnView { label: a.label, ..v0 };
    let v2 = SpawnView { inherit: a.inherit, ..v1 };
    let v3 = SpawnView { profile: a.profile, ..v2 };
    let v4 = SpawnView { instructions: a.instructions, ..v3 };
    spawn_flags_set_their_own_field(tail1, v0, text_of(a.label));
    if a.label is None {
        assert(flag_if("--label"@, a.label) + tail1 =~= tail1);
    }
    assert(spawn_from(spawn_argv(a), v0) == spawn_from(tail1, v1));
    spawn_flags_set_their_own_field(tail2, v1, text_of(list));
    if list is None {
        assert(flag_if("--inherit"@, list) + tail2 =~= tail2);
        assert(a.inherit =~= Seq::<Seq<char>>::empty());
    } else {
        lists_are_read_back(a.inherit);
        assert(v1.inherit + a.inherit =~= a.inherit);
    }
    assert(spawn_from(tail1, v1) == spawn_from(tail2, v2));
    spawn_flags_set_their_own_field(tail3, v2, text_of(a.profile));
    if a.profile is None {
        assert(flag_if("--profile"@, a.profile) + tail3 =~= tail3);
    }
    assert(spawn_from(tail2, v2) == spawn_from(tail3, v3));
    spawn_flags_set_their_own_field(tail4, v3, text_of(a.instructions));
    if a.instructions is None {
        assert(flag_if("--instructions"@, a.instructions) + tail4 =~= tail4);
    }
    assert(spawn_from(tail3, v3) == spawn_from(tail4, v4));
    assert(tail4[0] == "--"@);
    assert(tail4.drop_first() =~= a.rest);
    assert(v4.rest + a.rest =~= a.rest);
}

spec fn text_of(s: Option<Seq<char>>) -> Seq<char> {
    match s {
        Some(t) => t,
        None => Seq::empty(),
    }
}

/// A flag of `spawn` sets the field of its name to the value behind it, whatever was set
/// before, and touches no other; `--inherit` adds the items of its list. Without a value it is
/// refused.
pub proof fn spawn_flags_set_their_own_field(argv: Seq<Seq<char>>, a: SpawnView, v: Seq<char>)
    ensures
        spawn_from(flag_if("--label"@, Some(v)) + argv, a) == spawn_from(
            argv,
            SpawnView { label: Some(v), ..a },
        ),
        spawn_from(flag_if("--inherit"@, Some(v)) + argv, a) == spawn_from(
            argv,
            SpawnView { inherit: a.inherit + csv(v), ..a },
        ),
        spawn_from(flag_if("--profile"@, Some(v)) + argv, a) == spawn_from(
            argv,
            SpawnView { profile: Some(v), ..a },
        ),
        spawn_from(flag_if("--instructions"@, Some(v)) + argv, a) == spawn_from(
            argv,
            SpawnView { instructions: Some(v), ..a },
        ),
        spawn_from(Seq::empty(), a) == Ok::<SpawnView, Seq<char>>(a),
        spawn_from(seq!["--label"@], a) == Err::<SpawnView, Seq<char>>("--label requires a value"@),
        spawn_from(seq!["--inherit"@], a) == Err::<SpawnView, Seq<char>>("--inherit requires a value"@),
        spawn_from(seq!["--profile"@], a) == Err::<SpawnView, Seq<char>>("--profile requires a value"@),
        spawn_from(seq!["--instructions"@], a) == Err::<SpawnView, Seq<char>>("--instructions requires a value"@),
{
    reveal_strlit("--label");
    reveal_strlit("--inherit");
    reveal_strlit("--profile");
    reveal_strlit("--instructions");
    reveal_strlit("--");
    assert("--label"@.len() == 7 && "--inherit"@.len() == 9 && "--profile"@.len() == 9
        && "--instructions"@.len() == 14 && "--"@.len() == 2 && "--inherit"@[2] == 'i'
        && "--profile"@[2] == 'p');
    let one = flag_if("--label"@, Some(v)) + argv;
    assert(one[0] == "--label"@ && one[1] == v);
    assert(one.skip(2) =~= argv);
    let one = flag_if("--inherit"@, Some(v)) + argv;
    assert(one[0] == "--inherit"@ && one[1] == v);
    assert(one.skip(2) =~= argv);
    let one = flag_if("--profile"@, Some(v)) + argv;
    assert(one[0] == "--profile"@ && one[1] == v);
    assert(one.skip(2) =~= argv);
    let one = flag_if("--instructions"@, Some(v)) + argv;
    assert(one[0] == "--instructions"@ && one[1] == v);
    assert(one.skip(2) =~= argv);
}

/// What the broker is told of a spawn is what was asked for: each member is there exactly
/// where its value is, and holds it.
pub proof fn spawn_parameters_say_what_was_asked(a: SpawnView)
    ensures
        ({
            let j = spawn_params_view(a);
            &&& match a.label {
                Some(v) => j.member("label"@) == Some(JsonView::String(v)),
                None => j.member("label"@) is None,
            }
            &&& match a.profile {
                Some(v) => j.member("profile"@) == Some(JsonView::String(v)),
                None => j.member("profile"@) is None,
            }
            &&& match a.instructions {
                Some(v) => j.member("instructions"@) == Some(JsonView::String(v)),
                None => j.member("instructions"@) is None,
            }
            &&& match j.member("inherit"@) {
                Some(JsonView::Array(items)) => {
                    &&& items.len() == a.inherit.len() > 0
                    &&& forall|k: int|
                        0 <= k < items.len() ==> #[trigger] items[k] == JsonView::String(
                            a.inherit[k],
                        )
                },
                Some(_) => false,
                None => a.inherit.len() == 0,
            }
        }),
{
    reveal_strlit("label");
    reveal_strlit("inherit");
    reveal_strlit("profile");
    reveal_strlit("instructions");
    assert("label"@.len() == 5 && "inherit"@.len() == 7 && "profile"@.len() == 7
        && "instructions"@.len() == 12 && "inherit"@[0] == 'i' && "profile"@[0] == 'p');
    let p1 = member_if("label"@, a.label);
    let p2 = if a.inherit.len() > 0 {
        seq![("inherit"@, texts_view(a.inherit))]
    } else {
        Seq::empty()
    };
    let p3 = member_if("profile"@, a.profile);
    let p4 = member_if("instructions"@, a.instructions);
    lemma_member_join(p1 + p2 + p3, p4, "label"@);
    lemma_member_join(p1 + p2, p3, "label"@);
    lemma_member_join(p1, p2, "label"@);
    lemma_lone_member(p1, "label"@);
    lemma_lone_member(p2, "label"@);
    lemma_lone_member(p3, "label"@);
    lemma_lone_member(p4, "label"@);
    lemma_member_join(p1 + p2 + p3, p4, "inherit"@);
    lemma_member_join(p1 + p2, p3, "inherit"@);
    lemma_member_join(p1, p2, "inherit"@);
    lemma_lone_member(p1, "inherit"@);
    lemma_lone_member(p2, "inherit"@);
    lemma_lone_member(p3, "inherit"@);
    lemma_lone_member(p4, "inherit"@);
    lemma_member_join(p1 + p2 + p3, p4, "profile"@);
    lemma_member_join(p1 + p2, p3, "profile"@);
    lemma_member_join(p1, p2, "profile"@);
    lemma_lone_member(p1, "profile"@);
    lemma_lone_member(p2, "profile"@);
    lemma_lone_member(p3, "profile"@);
    lemma_lone_member(p4, "profile"@);
    lemma_member_join(p1 + p2 + p3, p4, "instructions"@);
    lemma_member_join(p1 + p2, p3, "instructions"@);
    lemma_member_join(p1, p2, "instructions"@);
    lemma_lone_member(p1, "instructions"@);
    lemma_lone_member(p2, "instructions"@);
    lemma_lone_member(p3, "instructions"@);
    lemma_lone_member(p4, "instructions"@);
}

proof fn lemma_lone_member(m: Seq<(Seq<char>, JsonView)>, key: Seq<char>)
    requires
        m.len() <= 1,
    ensures
        crate::json::member_of(m, key) == (if m.len() == 1 && m[0].0 == key {
            Some(m[0].1)
        } else {
            None
        }),
{
    if m.len() == 1 && m[0].0 == key {
        lemma_member_at(m, key, 0);
    } else {
        a_member_is_the_first_with_its_key(m, key, m.len() as int);
    }
}

/// Where they fit, the cells of a line stand in their columns: the session at the left of the
/// first fourteen characters, the three numbers at the right of the next columns, and the label
/// behind two spaces at the end of the line.
pub proof fn lines_have_columns(
    id: Seq<char>,
    tabs: Seq<char>,
    last: Seq<char>,
    created: Seq<char>,
    label: Seq<char>,
)
    requires
        id.len() <= 14,
        tabs.len() <= 5,
        last.len() <= 10,
        created.len() <= 14,
    ensures
        ({
            let l = table_line(id, tabs, last, created, label);
            &&& l.len() == 49 + label.len()
            &&& l.take(id.len() as int) == id
            &&& l.subrange(20 - tabs.len(), 20) == tabs
            &&& l.subrange(31 - last.len(), 31) == last
            &&& l.subrange(46 - created.len(), 46) == created
            &&& l.subrange(48, (48 + label.len()) as int) == label
            &&& l.last() == '\n'
            &&& forall|i: int|
                (id.len() <= i < 20 - tabs.len() || 20 <= i < 31 - last.len() || 31 <= i < 46
                    - created.len() || 46 <= i < 48) ==> #[trigger] l[i] == ' '
        }),
{
    reveal_strlit(" ");
    reveal_strlit("  ");
    reveal_strlit("\n");
    let l = table_line(id, tabs, last, created, label);
    let a = at_left(id, 14);
    let b = a + " "@ + at_right(tabs, 5);
    let c = b + " "@ + at_right(last, 10);
    let d = c + " "@ + at_right(created, 14);
    assert(a.len() == 14 && b.len() == 20 && c.len() == 31 && d.len() == 46);
    assert(l =~= d + "  "@ + label + "\n"@);
    assert(l.take(id.len() as int) =~= id);
    assert forall|i: int| 0 <= i < 20 implies l[i] == b[i] by {}
    assert forall|i: int| 0 <= i < 31 implies l[i] == c[i] by {}
    assert forall|i: int| 0 <= i < 46 implies l[i] == d[i] by {}
    assert(l.subrange(20 - tabs.len(), 20) =~= tabs);
    assert(l.subrange(31 - last.len(), 31) =~= last);
    assert(l.subrange(46 - created.len(), 46) =~= created);
    assert(l.subrange(48, (48 + label.len()) as int) =~= label);
}

/// The line of a session shows what its row says under the names of the columns.
pub proof fn rows_are_shown_in_their_line(
    row: JsonView,
    id: Seq<char>,
    tabs: u64,
    last: u64,
    created: u64,
    label: Seq<char>,
)
    requires
        row.member("session_id"@) == Some(JsonView::String(id)),
        row.member("label"@) == Some(JsonView::String(label)),
        row.member("tab_count"@) == Some(JsonView::Number(JsonNumber::PosInt(tabs))),
        row.member("last_activity_ms"@) == Some(JsonView::Number(JsonNumber::PosInt(last))),
        row.member("created_at_ms"@) == Some(JsonView::Number(JsonNumber::PosInt(created))),
    ensures
        row_line(row) == table_line(
            id,
            decimal(tabs as nat),
            decimal(last as nat),
            decimal(created as nat),
            label,
        ),
{
}

/// The table begins with the heading, and the lines of the sessions stand in it in order, with
/// nothing between them.
pub proof fn the_table_has_a_line_for_each_session(rows: Seq<JsonView>, i: int)
    requires
        0 <= i < rows.len(),
    ensures
        table_line("SESSION"@, "TABS"@, "ACT_AGO_MS"@, "CREATED_MS"@, "LABEL"@) + row_line(
            rows[0],
        ) == table(rows.take(1)),
        (table(rows.take(i)) + row_line(rows[i])).is_prefix_of(table(rows)),
        i + 1 == rows.len() ==> table(rows) == table(rows.take(i)) + row_line(rows[i]),
    decreases rows.len(),
{
    assert(rows.take(1).drop_last() =~= Seq::<JsonView>::empty());
    assert(rows.take(1).last() == rows[0]);
    assert(table(rows.take(1).drop_last()) == table_line(
        "SESSION"@,
        "TABS"@,
        "ACT_AGO_MS"@,
        "CREATED_MS"@,
        "LABEL"@,
    ));
    let rest = rows.drop_last();
    if i + 1 == rows.len() {
        assert(rest =~= rows.take(i));
    } else {
        the_table_has_a_line_for_each_session(rest, i);
        assert(rest.take(i) =~= rows.take(i));
        assert(rest[i] == rows[i]);
    }
}

/// A live trace is a file whose name is some stem and `.jsonl` behind it.
pub proof fn live_traces_are_named_so(name: Seq<char>)
    ensures
        is_live_trace(name) == exists|stem: Seq<char>|
            stem.len() > 0 && name == #[trigger] (stem + ".jsonl"@),
{
    reveal_strlit(".jsonl");
    if is_live_trace(name) {
        let stem = name.take(name.len() - 6);
        assert(name =~= stem + ".jsonl"@);
    }
    if exists|stem: Seq<char>| stem.len() > 0 && name == #[trigger] (stem + ".jsonl"@) {
        let stem = choose|stem: Seq<char>| stem.len() > 0 && name == #[trigger] (stem + ".jsonl"@);
        assert(name.subrange(name.len() - 6, name.len() as int) =~= ".jsonl"@);
    }
}

/// The sessions of a status report are the items under `sessions`; a report without such a
/// list has none to show.
pub proof fn sessions_are_listed_under_their_name(status: JsonView)
    ensures
        match status.member("sessions"@) {
            Some(JsonView::Array(rows)) => rows_of(status) == Some(rows),
            _ => rows_of(status) is None,
        },
{
}

/// A row without a session or a label shows a question mark and nothing, and a number that is
/// missing or negative shows as zero.
pub proof fn missing_cells_are_filled(row: JsonView)
    ensures
        !(row.member("session_id"@) matches Some(JsonView::String(_))) && !(row.member(
            "label"@,
        ) matches Some(JsonView::String(_))) && row.member("tab_count"@) is None && row.member(
            "last_activity_ms"@,
        ) is None && row.member("created_at_ms"@) is None ==> row_line(row) == table_line(
            "?"@,
            decimal(0),
            decimal(0),
            decimal(0),
            ""@,
        ),
{
}

/// The trace that is picked is live, no live one was changed later, and of those that were
/// changed at the same time it is the first.
pub proof fn the_latest_live_trace_is_picked(entries: Seq<TraceEntry>, i: int, k: int)
    requires
        latest_trace(entries, i),
        0 <= k < entries.len(),
        is_live_trace(entries[k].name@),
    ensures
        is_live_trace(entries[i].name@),
        entries[k].modified <= entries[i].modified,
        entries[k].modified == entries[i].modified ==> i <= k,
{
    if k < i {
        assert(entries[k].modified < entries[i].modified);
    }
}

} // verus!
