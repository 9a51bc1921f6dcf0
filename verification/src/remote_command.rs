//! The command line of the registry: what its arguments ask for, and what the
//! user is told.

use vstd::prelude::*;
use vstd::slice::slice_subrange;
use vstd::string::*;

use crate::compare::{opt_text, views};
use crate::frame::texts;
use crate::registry::{RemoteInstance, RemoteInstanceView};
use crate::text::same_text;

verus! {

/// What a command line asks for. `Help` and `Usage` print a text and end with an
/// exit code; the others work on the registry.
#[derive(Debug)]
pub enum RemoteCommand {
    List { json: bool },
    Add { target: String, name: Option<String>, session: Option<String> },
    Remove { id: String },
    SetEnabled { id: String, enabled: bool },
    Help { code: i32 },
    Usage { text: String, code: i32 },
}

/// The mathematical model of what a command line asks for.
pub enum RemoteCommandView {
    List { json: bool },
    Add { target: Seq<char>, name: Option<Seq<char>>, session: Option<Seq<char>> },
    Remove { id: Seq<char> },
    SetEnabled { id: Seq<char>, enabled: bool },
    Help { code: i32 },
    Usage { text: Seq<char>, code: i32 },
}

impl View for RemoteCommand {
    type V = RemoteCommandView;

    open spec fn view(&self) -> RemoteCommandView {
        match self {
            RemoteCommand::List { json } => RemoteCommandView::List {
                json: *json,
            },
            RemoteCommand::Add { target, name, session } => RemoteCommandView::Add {
                target: target@,
                name: opt_text(*name),
                session: opt_text(*session),
            },
            RemoteCommand::Remove { id } => RemoteCommandView::Remove {
                id: id@,
            },
            RemoteCommand::SetEnabled { id, enabled } => RemoteCommandView::SetEnabled {
                id: id@,
                enabled: *enabled,
            },
            RemoteCommand::Help { code } => RemoteCommandView::Help {
                code: *code,
            },
            RemoteCommand::Usage { text, code } => RemoteCommandView::Usage {
                text: text@,
                code: *code,
            },
        }
    }
}

/// The answer to a command line that is not understood.
pub open spec fn usage_of(text: Seq<char>) -> RemoteCommandView {
    RemoteCommandView::Usage { text, code: 2 }
}

/// What the arguments of `list` ask for.
pub open spec fn list_command(args: Seq<Seq<char>>) -> RemoteCommandView {
    if args.len() == 0 {
        RemoteCommandView::List { json: false }
    } else if args.len() == 1 && args[0] == "--json"@ {
        RemoteCommandView::List { json: true }
    } else {
        usage_of("usage: herdr remote list [--json]"@)
    }
}

/// What the flags of `add` give, after what was given already: each flag at
/// most once, and each with a value.
pub open spec fn add_flags(
    args: Seq<Seq<char>>,
    name: Option<Seq<char>>,
    session: Option<Seq<char>>,
) -> Option<(Option<Seq<char>>, Option<Seq<char>>)>
    decreases args.len(),
{
    if args.len() == 0 {
        Some((name, session))
    } else if args.len() == 1 {
        None
    } else if args[0] == "--name"@ && name is None {
        add_flags(args.skip(2), Some(args[1]), session)
    } else if args[0] == "--session"@ && session is None {
        add_flags(args.skip(2), name, Some(args[1]))
    } else {
        None
    }
}

/// What the arguments of `add` ask for.
pub open spec fn add_command(args: Seq<Seq<char>>) -> RemoteCommandView {
    let usage = usage_of(
        "usage: herdr remote add <SSH_TARGET> [--name NAME] [--session NAME]"@,
    );
    if args.len() == 0 || starts_with_dash(args[0]) {
        usage
    } else {
        match add_flags(args.skip(1), None, None) {
            Some((name, session)) => RemoteCommandView::Add { target: args[0], name, session },
            None => usage,
        }
    }
}

/// What the arguments of `remove` ask for.
pub open spec fn remove_command(args: Seq<Seq<char>>) -> RemoteCommandView {
    if args.len() == 1 {
        RemoteCommandView::Remove { id: args[0] }
    } else {
        usage_of("usage: herdr remote remove <REMOTE_ID>"@)
    }
}

/// What the arguments of `enable` and `disable` ask for.
pub open spec fn set_enabled_command(args: Seq<Seq<char>>, enabled: bool) -> RemoteCommandView {
    if args.len() == 1 {
        RemoteCommandView::SetEnabled { id: args[0], enabled }
    } else if enabled {
        usage_of("usage: herdr remote enable <REMOTE_ID>"@)
    } else {
        usage_of("usage: herdr remote disable <REMOTE_ID>"@)
    }
}

/// What the arguments of `remote` ask for.
pub open spec fn remote_command(args: Seq<Seq<char>>) -> RemoteCommandView {
    if args.len() == 0 {
        RemoteCommandView::Help { code: 2 }
    } else if args[0] == "list"@ {
        list_command(args.skip(1))
    } else if args[0] == "add"@ {
        add_command(args.skip(1))
    } else if args[0] == "remove"@ {
        remove_command(args.skip(1))
    } else if args[0] == "enable"@ {
        set_enabled_command(args.skip(1), true)
    } else if args[0] == "disable"@ {
        set_enabled_command(args.skip(1), false)
    } else if args[0] == "help"@ || args[0] == "--help"@ || args[0] == "-h"@ {
        RemoteCommandView::Help { code: 0 }
    } else {
        RemoteCommandView::Help { code: 2 }
    }
}

/// Whether a text starts with a dash.
pub open spec fn starts_with_dash(s: Seq<char>) -> bool {
    s.len() > 0 && s[0] == '-'
}

fn is_dashed(s: &str) -> (r: bool)
    ensures
        r == starts_with_dash(s@),
{
    s.unicode_len() > 0 && s.get_char(0) == '-'
}

fn usage(text: &str) -> (r: RemoteCommand)
    ensures
        r@ == usage_of(text@),
{
    RemoteCommand::Usage { text: text.to_string(), code: 2 }
}

/// Reads the arguments of `list`.
pub fn list(args: &[String]) -> (r: RemoteCommand)
    ensures
        r@ == list_command(texts(args@)),
{
    if args.len() == 0 {
        RemoteCommand::List { json: false }
    } else if args.len() == 1 && same_text(args[0].as_str(), "--json") {
        RemoteCommand::List { json: true }
    } else {
        usage("usage: herdr remote list [--json]")
    }
}

/// Reads the arguments of `add`.
pub fn add(args: &[String]) -> (r: RemoteCommand)
    ensures
        r@ == add_command(texts(args@)),
{
    let ghost whole = texts(args@);
    if args.len() == 0 || is_dashed(args[0].as_str()) {
        return usage("usage: herdr remote add <SSH_TARGET> [--name NAME] [--session NAME]");
    }
    let mut name: Option<String> = None;
    let mut session: Option<String> = None;
    let mut index: usize = 1;
    while index < args.len()
        invariant
            whole == texts(args@),
            1 <= index <= args@.len(),
            add_flags(whole.skip(1), None, None) == add_flags(
                whole.skip(index as int),
                opt_text(name),
                opt_text(session),
            ),
        decreases args@.len() - index,
    {
        let ghost rest = whole.skip(index as int);
        assert(rest[0] == args@[index as int]@);
        if args.len() - index < 2 {
            return usage("usage: herdr remote add <SSH_TARGET> [--name NAME] [--session NAME]");
        }
        assert(rest[1] == args@[index + 1]@);
        assert(rest.skip(2) =~= whole.skip(index + 2));
        if same_text(args[index].as_str(), "--name") && name.is_none() {
            name = Some(args[index + 1].clone());
        } else if same_text(args[index].as_str(), "--session") && session.is_none() {
            session = Some(args[index + 1].clone());
        } else {
            return usage("usage: herdr remote add <SSH_TARGET> [--name NAME] [--session NAME]");
        }
        index += 2;
    }
    RemoteCommand::Add { target: args[0].clone(), name, session }
}

/// Reads the arguments of `remove`.
pub fn remove(args: &[String]) -> (r: RemoteCommand)
    ensures
        r@ == remove_command(texts(args@)),
{
    if args.len() == 1 {
        RemoteCommand::Remove { id: args[0].clone() }
    } else {
        usage("usage: herdr remote remove <REMOTE_ID>")
    }
}

/// Reads the arguments of `enable` and `disable`.
pub fn set_enabled(args: &[String], enabled: bool) -> (r: RemoteCommand)
    ensures
        r@ == set_enabled_command(texts(args@), enabled),
{
    if args.len() == 1 {
        RemoteCommand::SetEnabled { id: args[0].clone(), enabled }
    } else if enabled {
        usage("usage: herdr remote enable <REMOTE_ID>")
    } else {
        usage("usage: herdr remote disable <REMOTE_ID>")
    }
}

/// Reads the arguments of `remote`.
pub fn run_remote_command(args: &[String]) -> (r: RemoteCommand)
    ensures
        r@ == remote_command(texts(args@)),
{
    if args.len() == 0 {
        return RemoteCommand::Help { code: 2 };
    }
    let command = args[0].as_str();
    let rest = slice_subrange(args, 1, args.len());
    assert(texts(rest@) =~= texts(args@).skip(1));
    if same_text(command, "list") {
        list(rest)
    } else if same_text(command, "add") {
        self::add(rest)
    } else if same_text(command, "remove") {
        remove(rest)
    } else if same_text(command, "enable") {
        set_enabled(rest, true)
    } else if same_text(command, "disable") {
        set_enabled(rest, false)
    } else if same_text(command, "help") || same_text(command, "--help") || same_text(
        command,
        "-h",
    ) {
        RemoteCommand::Help { code: 0 }
    } else {
        RemoteCommand::Help { code: 2 }
    }
}

/// The lines of the help text.
pub open spec fn help_text() -> Seq<Seq<char>> {
    seq![
        "herdr remote commands:"@,
        "  herdr remote list [--json]"@,
        "  herdr remote add <SSH_TARGET> [--name NAME] [--session NAME]"@,
        "  herdr remote remove <REMOTE_ID>"@,
        "  herdr remote enable <REMOTE_ID>"@,
        "  herdr remote disable <REMOTE_ID>"@,
    ]
}

/// The lines of the help text.
pub fn print_help() -> (r: Vec<String>)
    ensures
        texts(r@) == help_text(),
{
    let mut lines: Vec<String> = Vec::new();
    lines.push("herdr remote commands:".to_string());
    lines.push("  herdr remote list [--json]".to_string());
    lines.push("  herdr remote add <SSH_TARGET> [--name NAME] [--session NAME]".to_string());
    lines.push("  herdr remote remove <REMOTE_ID>".to_string());
    lines.push("  herdr remote enable <REMOTE_ID>".to_string());
    lines.push("  herdr remote disable <REMOTE_ID>".to_string());
    assert(texts(lines@) =~= help_text());
    lines
}

/// The line of a listing that shows a remote.
pub open spec fn listing_line(remote: RemoteInstanceView) -> Seq<char> {
    let state = if remote.enabled {
        "enabled"@
    } else {
        "disabled"@
    };
    let session = match remote.session {
        Some(session) => session,
        None => "default"@,
    };
    remote.id + "\t"@ + state + "\t"@ + remote.name + "\t"@ + remote.target + "\t"@ + session
}

/// The lines of a listing of remotes.
pub open spec fn listing(remotes: Seq<RemoteInstanceView>) -> Seq<Seq<char>> {
    if remotes.len() == 0 {
        seq!["No remote instances configured."@]
    } else {
        remotes.map_values(|remote: RemoteInstanceView| listing_line(remote))
    }
}

fn remote_line(remote: &RemoteInstance) -> (r: String)
    ensures
        r@ == listing_line(remote@),
{
    let state = if remote.enabled {
        "enabled"
    } else {
        "disabled"
    };
    let session = match &remote.session {
        Some(session) => session.as_str(),
        None => "default",
    };
    remote.id.as_str().to_string().concat("\t").concat(state).concat("\t").concat(
        remote.name.as_str(),
    ).concat("\t").concat(remote.target.as_str()).concat("\t").concat(session)
}

/// The lines that list the remotes.
pub fn list_remotes(remotes: &Vec<RemoteInstance>) -> (r: Vec<String>)
    ensures
        texts(r@) == listing(views(remotes@)),
{
    let mut lines: Vec<String> = Vec::new();
    if remotes.len() == 0 {
        lines.push("No remote instances configured.".to_string());
        assert(texts(lines@) =~= seq!["No remote instances configured."@]);
        return lines;
    }
    let mut i: usize = 0;
    while i < remotes.len()
        invariant
            i <= remotes@.len(),
            lines@.len() == i,
            forall|j: int| 0 <= j < i ==> (#[trigger] lines@[j])@ == listing_line(remotes@[j]@),
        decreases remotes@.len() - i,
    {
        lines.push(remote_line(&remotes[i]));
        i += 1;
    }
    assert(texts(lines@) =~= listing(views(remotes@)));
    lines
}

/// What the user is told of a remote that was added.
pub open spec fn added_text(remote: RemoteInstanceView) -> Seq<char> {
    "Added "@ + remote.name + " ("@ + remote.target + ") as "@ + remote.id + "."@
}

/// What the user is told of a remote that was removed.
pub open spec fn removed_text(remote: RemoteInstanceView) -> Seq<char> {
    "Removed "@ + remote.name + " ("@ + remote.id + ")."@
}

/// What the user is told of a remote that was switched on or off.
pub open spec fn enabled_text(remote: RemoteInstanceView, enabled: bool) -> Seq<char> {
    (if enabled {
        "Enabled "@
    } else {
        "Disabled "@
    }) + remote.name + " ("@ + remote.id + ")."@
}

/// What the user is told of a remote that was added.
pub fn added_message(remote: &RemoteInstance) -> (r: String)
    ensures
        r@ == added_text(remote@),
{
    "Added ".to_string().concat(remote.name.as_str()).concat(" (").concat(
        remote.target.as_str(),
    ).concat(") as ").concat(remote.id.as_str()).concat(".")
}

/// What the user is told of a remote that was removed.
pub fn removed_message(remote: &RemoteInstance) -> (r: String)
    ensures
        r@ == removed_text(remote@),
{
    "Removed ".to_string().concat(remote.name.as_str()).concat(" (").concat(
        remote.id.as_str(),
    ).concat(").")
}

/// What the user is told of a remote that was switched on or off.
pub fn enabled_message(remote: &RemoteInstance, enabled: bool) -> (r: String)
    ensures
        r@ == enabled_text(remote@, enabled),
{
    let verb = if enabled {
        "Enabled "
    } else {
        "Disabled "
    };
    verb.to_string().concat(remote.name.as_str()).concat(" (").concat(remote.id.as_str()).concat(
        ").",
    )
}

/// Flags of `add` may come in either order.
pub proof fn law_add_flags_commute(name: Seq<char>, session: Seq<char>)
    ensures
        add_flags(seq!["--name"@, name, "--session"@, session], None, None) == Some(
            (Some(name), Some(session)),
        ),
        add_flags(seq!["--session"@, session, "--name"@, name], None, None) == Some(
            (Some(name), Some(session)),
        ),
{
    reveal_strlit("--name");
    reveal_strlit("--session");
    reveal_with_fuel(add_flags, 3);
    assert("--name"@.len() != "--session"@.len());
    let a = seq!["--name"@, name, "--session"@, session];
    let b = seq!["--session"@, session, "--name"@, name];
    assert(a.skip(2) =~= seq!["--session"@, session]);
    assert(b.skip(2) =~= seq!["--name"@, name]);
    assert(a.skip(2).skip(2) =~= seq![]);
    assert(b.skip(2).skip(2) =~= seq![]);
}

/// A target that `add` takes never starts with a dash, so that no option can be
/// taken for one.
pub proof fn law_add_takes_no_option_as_target(args: Seq<Seq<char>>)
    ensures
        remote_command(args) matches RemoteCommandView::Add { target, .. } ==> args.len() >= 2
            && target == args[1] && !starts_with_dash(target),
{
}

proof fn lemma_words_differ()
    ensures
        "list"@ != "add"@,
        "list"@ != "remove"@,
        "list"@ != "enable"@,
        "list"@ != "disable"@,
        "add"@ != "remove"@,
        "add"@ != "enable"@,
        "add"@ != "disable"@,
        "remove"@ != "enable"@,
        "remove"@ != "disable"@,
        "enable"@ != "disable"@,
        "--name"@ != "--session"@,
{
    reveal_strlit("list");
    reveal_strlit("add");
    reveal_strlit("remove");
    reveal_strlit("enable");
    reveal_strlit("disable");
    reveal_strlit("--name");
    reveal_strlit("--session");
    assert("list"@[0] == 'l');
    assert("add"@[0] == 'a');
    assert("remove"@[0] == 'r');
    assert("enable"@[0] == 'e');
    assert("disable"@[0] == 'd');
    assert("--name"@.len() == 6);
    assert("--session"@.len() == 9);
}

/// Without a command the help is shown and it counts as a mistake, and so does a
/// command that there is not. Asking for the help does not.
pub proof fn law_help_is_shown(args: Seq<Seq<char>>)
    requires
        args.len() > 0 ==> args[0] != "list"@ && args[0] != "add"@ && args[0] != "remove"@
            && args[0] != "enable"@ && args[0] != "disable"@,
    ensures
        remote_command(args) matches RemoteCommandView::Help { code } && {
            &&& args.len() == 0 ==> code == 2
            &&& args.len() > 0 && (args[0] == "help"@ || args[0] == "--help"@ || args[0] == "-h"@)
                ==> code == 0
            &&& args.len() > 0 && args[0] != "help"@ && args[0] != "--help"@ && args[0] != "-h"@
                ==> code == 2
        },
{
}

/// The remotes are listed as text, or as JSON where that is asked for. Anything
/// else behind the command is answered by how it is used.
pub proof fn law_remotes_are_listed(rest: Seq<Seq<char>>)
    ensures
        ({
            let command = remote_command(seq!["list"@] + rest);
            &&& rest.len() == 0 ==> command == (RemoteCommandView::List { json: false })
            &&& rest == seq!["--json"@] ==> command == (RemoteCommandView::List { json: true })
            &&& rest.len() > 0 && rest != seq!["--json"@] ==> command == (
            RemoteCommandView::Usage { text: "usage: herdr remote list [--json]"@, code: 2 })
        }),
{
    let args = seq!["list"@] + rest;
    assert(args.skip(1) =~= rest);
    if rest.len() == 1 && rest[0] == "--json"@ {
        assert(rest =~= seq!["--json"@]);
    }
}

/// A remote is removed, enabled or disabled by its id, whatever the id is. More or
/// less than one id is answered by how the command is used.
pub proof fn law_remotes_are_told_by_id(rest: Seq<Seq<char>>)
    ensures
        ({
            let removing = remote_command(seq!["remove"@] + rest);
            let enabling = remote_command(seq!["enable"@] + rest);
            let disabling = remote_command(seq!["disable"@] + rest);
            &&& rest.len() == 1 ==> removing == (RemoteCommandView::Remove { id: rest[0] })
            &&& rest.len() == 1 ==> enabling == (RemoteCommandView::SetEnabled {
                id: rest[0],
                enabled: true,
            })
            &&& rest.len() == 1 ==> disabling == (RemoteCommandView::SetEnabled {
                id: rest[0],
                enabled: false,
            })
            &&& rest.len() != 1 ==> removing == (RemoteCommandView::Usage {
                text: "usage: herdr remote remove <REMOTE_ID>"@,
                code: 2,
            })
            &&& rest.len() != 1 ==> enabling == (RemoteCommandView::Usage {
                text: "usage: herdr remote enable <REMOTE_ID>"@,
                code: 2,
            })
            &&& rest.len() != 1 ==> disabling == (RemoteCommandView::Usage {
                text: "usage: herdr remote disable <REMOTE_ID>"@,
                code: 2,
            })
        }),
{
    lemma_words_differ();
    assert((seq!["remove"@] + rest).skip(1) =~= rest);
    assert((seq!["enable"@] + rest).skip(1) =~= rest);
    assert((seq!["disable"@] + rest).skip(1) =~= rest);
}

/// A remote is added by its target, which is no option, with the name and the
/// session that flags give. A flag that is there twice, has no value, or is not
/// known is answered by how the command is used, and so is a missing target.
pub proof fn law_remotes_are_added_by_target(
    target: Seq<char>,
    name: Seq<char>,
    session: Seq<char>,
    flag: Seq<char>,
    value: Seq<char>,
)
    requires
        target.len() > 0 ==> target[0] != '-',
    ensures
        ({
            let usage = RemoteCommandView::Usage {
                text: "usage: herdr remote add <SSH_TARGET> [--name NAME] [--session NAME]"@,
                code: 2,
            };
            let n = "--name"@;
            let s = "--session"@;
            &&& remote_command(seq!["add"@]) == usage
            &&& remote_command(seq!["add"@, target]) == (RemoteCommandView::Add {
                target,
                name: None,
                session: None,
            })
            &&& remote_command(seq!["add"@, target, n, name]) == (RemoteCommandView::Add {
                target,
                name: Some(name),
                session: None,
            })
            &&& remote_command(seq!["add"@, target, s, session]) == (RemoteCommandView::Add {
                target,
                name: None,
                session: Some(session),
            })
            &&& remote_command(seq!["add"@, target, n, name, s, session]) == (
            RemoteCommandView::Add { target, name: Some(name), session: Some(session) })
            &&& remote_command(seq!["add"@, target, n, name, n, value]) == usage
            &&& remote_command(seq!["add"@, target, s, session, s, value]) == usage
            &&& remote_command(seq!["add"@, target, flag]) == usage
            &&& flag != n && flag != s ==> remote_command(seq!["add"@, target, flag, value])
                == usage
        }),
{
    lemma_words_differ();
    reveal_with_fuel(add_flags, 3);
    let n = "--name"@;
    let s = "--session"@;
    assert(seq!["add"@].skip(1) =~= seq![]);
    assert(seq!["add"@, target].skip(1) =~= seq![target]);
    assert(seq![target].skip(1) =~= seq![]);
    let a = seq!["add"@, target, n, name];
    assert(a.skip(1) =~= seq![target, n, name]);
    assert(a.skip(1).skip(1) =~= seq![n, name]);
    assert(a.skip(1).skip(1).skip(2) =~= seq![]);
    let b = seq!["add"@, target, s, session];
    assert(b.skip(1) =~= seq![target, s, session]);
    assert(b.skip(1).skip(1) =~= seq![s, session]);
    assert(b.skip(1).skip(1).skip(2) =~= seq![]);
    let c = seq!["add"@, target, n, name, s, session];
    assert(c.skip(1) =~= seq![target, n, name, s, session]);
    assert(c.skip(1).skip(1) =~= seq![n, name, s, session]);
    assert(c.skip(1).skip(1).skip(2) =~= seq![s, session]);
    assert(c.skip(1).skip(1).skip(2).skip(2) =~= seq![]);
    let d = seq!["add"@, target, n, name, n, value];
    assert(d.skip(1) =~= seq![target, n, name, n, value]);
    assert(d.skip(1).skip(1) =~= seq![n, name, n, value]);
    assert(d.skip(1).skip(1).skip(2) =~= seq![n, value]);
    let e = seq!["add"@, target, s, session, s, value];
    assert(e.skip(1) =~= seq![target, s, session, s, value]);
    assert(e.skip(1).skip(1) =~= seq![s, session, s, value]);
    assert(e.skip(1).skip(1).skip(2) =~= seq![s, value]);
    let f = seq!["add"@, target, flag];
    assert(f.skip(1) =~= seq![target, flag]);
    assert(f.skip(1).skip(1) =~= seq![flag]);
    let g = seq!["add"@, target, flag, value];
    assert(g.skip(1) =~= seq![target, flag, value]);
    assert(g.skip(1).skip(1) =~= seq![flag, value]);
}

/// A flag gives its value once, before whatever the other arguments give, and a
/// flag that was given already is refused, wherever it stands.
pub proof fn law_flags_are_read_in_pairs(
    value: Seq<char>,
    rest: Seq<Seq<char>>,
    name: Option<Seq<char>>,
    session: Option<Seq<char>>,
)
    ensures
        add_flags(seq!["--name"@, value] + rest, None, session) == add_flags(
            rest,
            Some(value),
            session,
        ),
        add_flags(seq!["--session"@, value] + rest, name, None) == add_flags(
            rest,
            name,
            Some(value),
        ),
        name is Some ==> add_flags(seq!["--name"@, value] + rest, name, session) is None,
        session is Some ==> add_flags(seq!["--session"@, value] + rest, name, session) is None,
        add_flags(seq![], name, session) == Some((name, session)),
{
    lemma_words_differ();
    assert((seq!["--name"@, value] + rest).skip(2) =~= rest);
    assert((seq!["--session"@, value] + rest).skip(2) =~= rest);
}

/// A listing has a line for each remote, in order: its id, whether it is enabled,
/// its name, its target, and its session or that it is the default one, with tabs
/// between them. Without remotes it says so.
pub proof fn law_listings_show_each_remote(remotes: Seq<RemoteInstanceView>, i: int)
    requires
        0 <= i < remotes.len(),
    ensures
        ({
            let lines = listing(remotes);
            let remote = remotes[i];
            &&& listing(Seq::empty()) == seq!["No remote instances configured."@]
            &&& lines.len() == remotes.len()
            &&& remote.enabled && remote.session is Some ==> lines[i] == remote.id + "\t"@
                + "enabled"@ + "\t"@ + remote.name + "\t"@ + remote.target + "\t"@
                + remote.session->0
            &&& !remote.enabled && remote.session is Some ==> lines[i] == remote.id + "\t"@
                + "disabled"@ + "\t"@ + remote.name + "\t"@ + remote.target + "\t"@
                + remote.session->0
            &&& remote.enabled && remote.session is None ==> lines[i] == remote.id + "\t"@
                + "enabled"@ + "\t"@ + remote.name + "\t"@ + remote.target + "\t"@ + "default"@
            &&& !remote.enabled && remote.session is None ==> lines[i] == remote.id + "\t"@
                + "disabled"@ + "\t"@ + remote.name + "\t"@ + remote.target + "\t"@
                + "default"@
        }),
{
}

/// What was done is told with the name and the id of the remote, and where it was
/// added, with its target.
pub proof fn law_changes_are_told(remote: RemoteInstanceView)
    ensures
        added_text(remote) == "Added "@ + remote.name + " ("@ + remote.target + ") as "@
            + remote.id + "."@,
        removed_text(remote) == "Removed "@ + remote.name + " ("@ + remote.id + ")."@,
        enabled_text(remote, true) == "Enabled "@ + remote.name + " ("@ + remote.id + ")."@,
        enabled_text(remote, false) == "Disabled "@ + remote.name + " ("@ + remote.id + ")."@,
{
}

/// The help has a line for each command, indented, which is what the user is told
/// of its use where its arguments are not understood.
pub proof fn law_help_shows_the_uses()
    ensures
        ({
            let help = help_text();
            &&& help.len() == 6
            &&& help[0] == "herdr remote commands:"@
            &&& help[1] == "  herdr remote list [--json]"@
            &&& "usage: herdr remote list [--json]"@ == "usage:"@ + help[1].skip(1)
            &&& help[2] == "  herdr remote add <SSH_TARGET> [--name NAME] [--session NAME]"@
            &&& "usage: herdr remote add <SSH_TARGET> [--name NAME] [--session NAME]"@
                == "usage:"@ + help[2].skip(1)
            &&& help[3] == "  herdr remote remove <REMOTE_ID>"@
            &&& "usage: herdr remote remove <REMOTE_ID>"@ == "usage:"@ + help[3].skip(1)
            &&& help[4] == "  herdr remote enable <REMOTE_ID>"@
            &&& "usage: herdr remote enable <REMOTE_ID>"@ == "usage:"@ + help[4].skip(1)
            &&& help[5] == "  herdr remote disable <REMOTE_ID>"@
            &&& "usage: herdr remote disable <REMOTE_ID>"@ == "usage:"@ + help[5].skip(1)
        }),
{
    reveal_strlit("usage:");
    reveal_strlit("  herdr remote list [--json]");
    reveal_strlit("usage: herdr remote list [--json]");
    reveal_strlit("  herdr remote add <SSH_TARGET> [--name NAME] [--session NAME]");
    reveal_strlit("usage: herdr remote add <SSH_TARGET> [--name NAME] [--session NAME]");
    reveal_strlit("  herdr remote remove <REMOTE_ID>");
    reveal_strlit("usage: herdr remote remove <REMOTE_ID>");
    reveal_strlit("  herdr remote enable <REMOTE_ID>");
    reveal_strlit("usage: herdr remote enable <REMOTE_ID>");
    reveal_strlit("  herdr remote disable <REMOTE_ID>");
    reveal_strlit("usage: herdr remote disable <REMOTE_ID>");
    assert("usage: herdr remote list [--json]"@ =~= "usage:"@
        + "  herdr remote list [--json]"@.skip(1));
    assert("usage: herdr remote add <SSH_TARGET> [--name NAME] [--session NAME]"@ =~= "usage:"@
        + "  herdr remote add <SSH_TARGET> [--name NAME] [--session NAME]"@.skip(1));
    assert("usage: herdr remote remove <REMOTE_ID>"@ =~= "usage:"@
        + "  herdr remote remove <REMOTE_ID>"@.skip(1));
    assert("usage: herdr remote enable <REMOTE_ID>"@ =~= "usage:"@
        + "  herdr remote enable <REMOTE_ID>"@.skip(1));
    assert("usage: herdr remote disable <REMOTE_ID>"@ =~= "usage:"@
        + "  herdr remote disable <REMOTE_ID>"@.skip(1));
}

} // verus!
