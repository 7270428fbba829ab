//! The command line: what the arguments ask for, and the texts it prints.

use vstd::prelude::*;
use crate::strings::{decimal, push_str, starts_with_char, str_eq, to_owned_string, usize_to_decimal};

verus! {

#[derive(Debug, PartialEq, Eq)]
pub enum CliCommand {
    Edit(String),
    Help,
    Version,
    Keys,
    Doctor,
}

/// Which command a `CliCommand` is, without its file path.
#[derive(Debug, Clone, Copy, PartialEq, Eq, Structural)]
pub enum CommandKind {
    Edit,
    Help,
    Version,
    Keys,
    Doctor,
}

/// `c` is the command of kind `kind`, with file path `path` for `Edit`.
pub open spec fn command_is(c: CliCommand, kind: CommandKind, path: Seq<char>) -> bool {
    match c {
        CliCommand::Edit(p) => kind == CommandKind::Edit && p@ == path,
        CliCommand::Help => kind == CommandKind::Help,
        CliCommand::Version => kind == CommandKind::Version,
        CliCommand::Keys => kind == CommandKind::Keys,
        CliCommand::Doctor => kind == CommandKind::Doctor,
    }
}

pub const VERSION: &'static str = "0.3.3";

pub const DESCRIPTION: &'static str = "A terminal-native Markdown editor built for the age of AI Agents.";

pub const KEYS_TEXT: &'static str = "\
Punc Keyboard Shortcuts

Editing
  Alt+S     Save
  Alt+Q     Quit
  Alt+Z     Undo
  Alt+Y     Redo
  Alt+V     Paste
  Tab       Insert 4 spaces

Navigation
  Arrow keys / Home / End / PageUp / PageDown

Overlays
  Alt+P     Preview
  Alt+O     Outline
  Alt+D     Diff external changes
  Esc       Close overlay

Diff View
  A         Accept external changes
  R         Reject external changes
  E         Accept and keep editing
  Up/Down   Scroll
  Esc       Decide later

Quit Confirmation
  Left/Right or Tab     Select action
  Enter                 Confirm selected action
  S                     Save and quit
  D                     Discard and quit
  Esc                   Cancel
";

pub const HELP_TAIL: &'static str = "\n\nCommands:\n  doctor          Check terminal, clipboard, and file watcher support\n\nOptions:\n  -h, --help      Show this help\n  -V, --version   Show version\n      --keys      Show keyboard shortcuts\n\nExamples:\n  punc README.md\n  punc --version\n  punc --keys\n  punc doctor\n  punc -- --version\n";

/// The usage lines, naming the program `p`.
pub open spec fn usage_spec(p: Seq<char>) -> Seq<char> {
    "Usage:\n  "@ + p + " <file>\n  "@ + p + " --help\n  "@ + p + " --version\n  "@ + p
        + " --keys\n  "@ + p + " doctor\n  "@ + p + " -- <file-starting-with-dash>"@
}

/// The error for an argument after one that takes none.
pub open spec fn extra_arg_error(program: Seq<char>, context: Seq<char>, arg: Seq<char>) -> Seq<char> {
    "Unexpected argument `"@ + arg + "` after `"@ + context + "`.\n\n"@ + usage_spec(program)
}

/// The error for a second file path.
pub open spec fn second_path_error(program: Seq<char>, arg: Seq<char>) -> Seq<char> {
    "punc accepts exactly one file path. Unexpected argument `"@ + arg + "`.\n\n"@ + usage_spec(
        program,
    )
}

/// The command that an option stands for, if it is one of the options that
/// take no argument.
pub open spec fn option_command(a: Seq<char>) -> Option<CommandKind> {
    if a == "-h"@ || a == "--help"@ {
        Some(CommandKind::Help)
    } else if a == "-V"@ || a == "--version"@ {
        Some(CommandKind::Version)
    } else if a == "--keys"@ {
        Some(CommandKind::Keys)
    } else if a == "doctor"@ {
        Some(CommandKind::Doctor)
    } else {
        None
    }
}

/// What the arguments (the program's name first) ask for: a command and,
/// for editing, the file; or the error message.
pub open spec fn cli_outcome(args: Seq<Seq<char>>) -> Result<(CommandKind, Seq<char>), Seq<char>> {
    let program = if args.len() > 0 {
        args[0]
    } else {
        "punc"@
    };
    if args.len() < 2 {
        Err("No file provided.\n\n"@ + usage_spec(program))
    } else {
        let first = args[1];
        match option_command(first) {
            Some(kind) => if args.len() > 2 {
                Err(extra_arg_error(program, first, args[2]))
            } else {
                Ok((kind, Seq::<char>::empty()))
            },
            None => if first == "--"@ {
                if args.len() < 3 {
                    Err("Missing file path after `--`.\n\n"@ + usage_spec(program))
                } else if args.len() > 3 {
                    Err(second_path_error(program, args[3]))
                } else {
                    Ok((CommandKind::Edit, args[2]))
                }
            } else if first.len() > 0 && first[0] == '-' {
                Err("Unknown option `"@ + first + "`.\n\n"@ + usage_spec(program))
            } else if args.len() > 2 {
                Err(second_path_error(program, args[2]))
            } else {
                Ok((CommandKind::Edit, first))
            },
        }
    }
}

/// The views of a list of strings.
pub open spec fn views(args: Seq<String>) -> Seq<Seq<char>> {
    args.map_values(|a: String| a@)
}

fn option_kind(a: &str) -> (k: Option<CommandKind>)
    ensures
        k == option_command(a@),
{
    if str_eq(a, "-h") || str_eq(a, "--help") {
        Some(CommandKind::Help)
    } else if str_eq(a, "-V") || str_eq(a, "--version") {
        Some(CommandKind::Version)
    } else if str_eq(a, "--keys") {
        Some(CommandKind::Keys)
    } else if str_eq(a, "doctor") {
        Some(CommandKind::Doctor)
    } else {
        None
    }
}

fn command_of_kind(kind: CommandKind) -> (c: CliCommand)
    requires
        kind != CommandKind::Edit,
    ensures
        command_is(c, kind, Seq::<char>::empty()),
{
    match kind {
        CommandKind::Help => CliCommand::Help,
        CommandKind::Version => CliCommand::Version,
        CommandKind::Keys => CliCommand::Keys,
        _ => CliCommand::Doctor,
    }
}

fn second_path(program: &str, arg: &str) -> (e: String)
    ensures
        e@ == second_path_error(program@, arg@),
{
    let mut e = to_owned_string("punc accepts exactly one file path. Unexpected argument `");
    push_str(&mut e, arg);
    push_str(&mut e, "`.\n\n");
    let usage = usage_text(program);
    push_str(&mut e, usage.as_str());
    assert(e@ =~= second_path_error(program@, arg@));
    e
}

/// Reads the arguments, the program's name first (see `cli_outcome`).
pub fn parse_cli(args: Vec<String>) -> (res: Result<CliCommand, String>)
    ensures
        match cli_outcome(views(args@)) {
            Ok((kind, path)) => res matches Ok(c) && command_is(c, kind, path),
            Err(m) => res matches Err(e) && e@ == m,
        },
{
    let ghost a = views(args@);
    let program = if args.len() > 0 {
        args[0].clone()
    } else {
        to_owned_string("punc")
    };
    assert(program@ == if a.len() > 0 { a[0] } else { "punc"@ });
    if args.len() < 2 {
        let mut e = to_owned_string("No file provided.\n\n");
        let usage = usage_text(program.as_str());
        push_str(&mut e, usage.as_str());
        return Err(e);
    }
    let first = &args[1];
    assert(first@ == a[1]);
    match option_kind(first.as_str()) {
        Some(kind) => {
            let extra = if args.len() > 2 {
                assert(args@[2]@ == a[2]);
                Some(args[2].clone())
            } else {
                None
            };
            match ensure_no_extra_args(program.as_str(), first.as_str(), extra) {
                Ok(()) => Ok(command_of_kind(kind)),
                Err(e) => Err(e),
            }
        },
        None => {
            if str_eq(first.as_str(), "--") {
                if args.len() < 3 {
                    let mut e = to_owned_string("Missing file path after `--`.\n\n");
                    let usage = usage_text(program.as_str());
                    push_str(&mut e, usage.as_str());
                    return Err(e);
                }
                if args.len() > 3 {
                    assert(args@[3]@ == a[3]);
                    return Err(second_path(program.as_str(), args[3].as_str()));
                }
                assert(args@[2]@ == a[2]);
                Ok(CliCommand::Edit(args[2].clone()))
            } else if starts_with_char(first.as_str(), '-') {
                let mut e = to_owned_string("Unknown option `");
                push_str(&mut e, first.as_str());
                push_str(&mut e, "`.\n\n");
                let usage = usage_text(program.as_str());
                push_str(&mut e, usage.as_str());
                Err(e)
            } else {
                if args.len() > 2 {
                    assert(args@[2]@ == a[2]);
                    return Err(second_path(program.as_str(), args[2].as_str()));
                }
                Ok(CliCommand::Edit(first.clone()))
            }
        },
    }
}

/// An error when an argument follows `context`, which takes none.
pub fn ensure_no_extra_args(program: &str, context: &str, extra: Option<String>) -> (res: Result<(), String>)
    ensures
        match extra {
            Some(arg) => res matches Err(e) && e@ == extra_arg_error(program@, context@, arg@),
            None => res is Ok,
        },
{
    match extra {
        Some(arg) => {
            let mut e = to_owned_string("Unexpected argument `");
            push_str(&mut e, arg.as_str());
            push_str(&mut e, "` after `");
            push_str(&mut e, context);
            push_str(&mut e, "`.\n\n");
            let usage = usage_text(program);
            push_str(&mut e, usage.as_str());
            assert(e@ =~= extra_arg_error(program@, context@, arg@));
            Err(e)
        },
        None => Ok(()),
    }
}

/// The usage lines, naming the program `program`.
pub fn usage_text(program: &str) -> (s: String)
    ensures
        s@ == usage_spec(program@),
{
    let mut s = to_owned_string("Usage:\n  ");
    push_str(&mut s, program);
    push_str(&mut s, " <file>\n  ");
    push_str(&mut s, program);
    push_str(&mut s, " --help\n  ");
    push_str(&mut s, program);
    push_str(&mut s, " --version\n  ");
    push_str(&mut s, program);
    push_str(&mut s, " --keys\n  ");
    push_str(&mut s, program);
    push_str(&mut s, " doctor\n  ");
    push_str(&mut s, program);
    push_str(&mut s, " -- <file-starting-with-dash>");
    assert(s@ =~= usage_spec(program@));
    s
}

/// The help text: version, description, usage, commands, options and examples.
pub fn help_text() -> (s: String)
    ensures
        s@ == "punc "@ + VERSION@ + "\n"@ + DESCRIPTION@ + "\n\n"@ + usage_spec("punc"@) + HELP_TAIL@,
{
    let mut s = to_owned_string("punc ");
    push_str(&mut s, VERSION);
    push_str(&mut s, "\n");
    push_str(&mut s, DESCRIPTION);
    push_str(&mut s, "\n\n");
    let usage = usage_text("punc");
    push_str(&mut s, usage.as_str());
    push_str(&mut s, HELP_TAIL);
    s
}

/// The keyboard shortcuts.
pub fn keys_text() -> (s: &'static str)
    ensures
        s@ == KEYS_TEXT@,
{
    KEYS_TEXT
}

pub fn yes_no(value: bool) -> (s: &'static str)
    ensures
        value ==> s@ == "yes"@,
        !value ==> s@ == "no"@,
{
    if value {
        "yes"
    } else {
        "no"
    }
}

/// The clipboard helpers to try, in order: each program by absolute path,
/// with the arguments that make it print the clipboard.
pub open spec fn clipboard_table() -> Seq<(Seq<char>, Seq<Seq<char>>)> {
    let xclip = seq!["-selection"@, "clipboard"@, "-o"@];
    let xsel = seq!["--clipboard"@, "--output"@];
    let none = Seq::<Seq<char>>::empty();
    seq![
        ("/usr/bin/xclip"@, xclip),
        ("/usr/local/bin/xclip"@, xclip),
        ("/bin/xclip"@, xclip),
        ("/usr/bin/xsel"@, xsel),
        ("/usr/local/bin/xsel"@, xsel),
        ("/bin/xsel"@, xsel),
        ("/usr/bin/pbpaste"@, none),
        ("/usr/local/bin/pbpaste"@, none),
        ("/opt/homebrew/bin/pbpaste"@, none),
        ("/opt/local/bin/pbpaste"@, none),
        ("/bin/pbpaste"@, none),
    ]
}

/// The views of a list of string slices.
pub open spec fn str_views(v: Seq<&'static str>) -> Seq<Seq<char>> {
    v.map_values(|a: &'static str| a@)
}

fn xclip_args() -> (v: Vec<&'static str>)
    ensures
        str_views(v@) == seq!["-selection"@, "clipboard"@, "-o"@],
{
    let v = vec!["-selection", "clipboard", "-o"];
    assert(str_views(v@) =~= seq!["-selection"@, "clipboard"@, "-o"@]);
    v
}

fn xsel_args() -> (v: Vec<&'static str>)
    ensures
        str_views(v@) == seq!["--clipboard"@, "--output"@],
{
    let v = vec!["--clipboard", "--output"];
    assert(str_views(v@) =~= seq!["--clipboard"@, "--output"@]);
    v
}

fn no_args() -> (v: Vec<&'static str>)
    ensures
        str_views(v@) == Seq::<Seq<char>>::empty(),
{
    let v: Vec<&'static str> = Vec::new();
    assert(str_views(v@) =~= Seq::<Seq<char>>::empty());
    v
}

/// The clipboard helpers to try (see `clipboard_table`).
pub fn clipboard_commands() -> (cmds: Vec<(&'static str, Vec<&'static str>)>)
    ensures
        cmds@.len() == clipboard_table().len(),
        forall|i: int|
            0 <= i < cmds@.len() ==> (#[trigger] cmds@[i]).0@ == clipboard_table()[i].0
                && str_views(cmds@[i].1@) == clipboard_table()[i].1,
        forall|i: int| 0 <= i < cmds@.len() ==> is_absolute(#[trigger] cmds@[i].0@),
{
    proof {
        reveal_strlit("/usr/bin/xclip");
        reveal_strlit("/usr/local/bin/xclip");
        reveal_strlit("/bin/xclip");
        reveal_strlit("/usr/bin/xsel");
        reveal_strlit("/usr/local/bin/xsel");
        reveal_strlit("/bin/xsel");
        reveal_strlit("/usr/bin/pbpaste");
        reveal_strlit("/usr/local/bin/pbpaste");
        reveal_strlit("/opt/homebrew/bin/pbpaste");
        reveal_strlit("/opt/local/bin/pbpaste");
        reveal_strlit("/bin/pbpaste");
    }
    let cmds = vec![
        ("/usr/bin/xclip", xclip_args()),
        ("/usr/local/bin/xclip", xclip_args()),
        ("/bin/xclip", xclip_args()),
        ("/usr/bin/xsel", xsel_args()),
        ("/usr/local/bin/xsel", xsel_args()),
        ("/bin/xsel", xsel_args()),
        ("/usr/bin/pbpaste", no_args()),
        ("/usr/local/bin/pbpaste", no_args()),
        ("/opt/homebrew/bin/pbpaste", no_args()),
        ("/opt/local/bin/pbpaste", no_args()),
        ("/bin/pbpaste", no_args()),
    ];
    cmds
}

/// A path that starts at the root.
pub open spec fn is_absolute(p: Seq<char>) -> bool {
    p.len() > 0 && p[0] == '/'
}

/// Asks `Path::is_file`, which looks at the file system, whether `path`
/// names a regular file; what it answers depends on the disk at the time.
#[verifier::external_body]
fn path_is_file(path: &str) -> bool {
    std::path::Path::new(path).is_file()
}

/// The program of the first table entry at or after `i` that is present.
pub open spec fn first_present_from(present: Seq<bool>, i: int) -> Option<Seq<char>>
    decreases present.len() - i,
{
    if i < 0 || i >= present.len() {
        None
    } else if present[i] {
        Some(clipboard_table()[i].0)
    } else {
        first_present_from(present, i + 1)
    }
}

/// The program of the first table entry whose helper is present, given
/// whether each entry's program is present, in table order.
pub open spec fn first_present(present: Seq<bool>) -> Option<Seq<char>> {
    first_present_from(present, 0)
}

/// Picks the first clipboard helper that is present (see `first_present`).
pub fn first_present_command(present: &Vec<bool>) -> (p: Option<&'static str>)
    requires
        present@.len() == clipboard_table().len(),
    ensures
        match p {
            Some(q) => first_present(present@) == Some(q@),
            None => first_present(present@) is None,
        },
{
    let cmds = clipboard_commands();
    let mut i: usize = 0;
    while i < present.len()
        invariant
            i <= present@.len() == cmds@.len() == clipboard_table().len(),
            forall|k: int| 0 <= k < cmds@.len() ==> (#[trigger] cmds@[k]).0@ == clipboard_table()[k].0,
            first_present_from(present@, i as int) == first_present(present@),
        decreases present@.len() - i,
    {
        if present[i] {
            return Some(cmds[i].0);
        }
        i += 1;
    }
    None
}

/// The first clipboard helper that is present on this machine: each helper
/// of the table is looked up on disk, in order, and the first one found is
/// picked.  Which one that is depends on the disk at the time of the call.
pub fn available_clipboard_command() -> (program: Option<&'static str>)
    ensures
        program matches Some(p) ==> is_absolute(p@) && exists|i: int|
            0 <= i < clipboard_table().len() && clipboard_table()[i].0 == p@,
{
    let cmds = clipboard_commands();
    let mut present: Vec<bool> = Vec::new();
    let mut i: usize = 0;
    while i < cmds.len()
        invariant
            i <= cmds@.len() == clipboard_table().len(),
            present@.len() == i,
        decreases cmds@.len() - i,
    {
        present.push(path_is_file(cmds[i].0));
        i += 1;
    }
    let program = first_present_command(&present);
    proof {
        lemma_first_present_in_table(present@, 0);
    }
    program
}

proof fn lemma_first_present_in_table(present: Seq<bool>, i: int)
    requires
        0 <= i,
        present.len() == clipboard_table().len(),
    ensures
        first_present_from(present, i) matches Some(p) ==> is_absolute(p) && exists|j: int|
            0 <= j < clipboard_table().len() && clipboard_table()[j].0 == p,
    decreases present.len() - i,
{
    if i < present.len() {
        if present[i] {
            reveal_strlit("/usr/bin/xclip");
            reveal_strlit("/usr/local/bin/xclip");
            reveal_strlit("/bin/xclip");
            reveal_strlit("/usr/bin/xsel");
            reveal_strlit("/usr/local/bin/xsel");
            reveal_strlit("/bin/xsel");
            reveal_strlit("/usr/bin/pbpaste");
            reveal_strlit("/usr/local/bin/pbpaste");
            reveal_strlit("/opt/homebrew/bin/pbpaste");
            reveal_strlit("/opt/local/bin/pbpaste");
            reveal_strlit("/bin/pbpaste");
            assert(clipboard_table()[i].0 == clipboard_table()[i].0);
        } else {
            lemma_first_present_in_table(present, i + 1);
        }
    }
}

/// An option never opens a file: the file to edit is either the one
/// argument after the program's name, when it does not start with `-`, or
/// the one argument after `--`.
pub proof fn law_options_never_open_files(args: Seq<Seq<char>>, path: Seq<char>)
    requires
        cli_outcome(args) == Ok::<(CommandKind, Seq<char>), Seq<char>>((CommandKind::Edit, path)),
    ensures
        (args.len() == 2 && path == args[1] && !(path.len() > 0 && path[0] == '-'))
            || (args.len() == 3 && args[1] == "--"@ && path == args[2]),
{
    if args.len() >= 2 && option_command(args[1]) is None && args[1] != "--"@ {
        assert(args.len() == 2);
    }
}

/// `yes` or `no`.
pub open spec fn yes_no_spec(value: bool) -> Seq<char> {
    if value {
        "yes"@
    } else {
        "no"@
    }
}

/// The doctor's first lines: its title, the version, the platform, and
/// whether stdin and stdout are terminals.
pub open spec fn doctor_head(os: Seq<char>, arch: Seq<char>, stdin_tty: bool, stdout_tty: bool) -> Seq<char> {
    "punc doctor\n"@ + "version: "@ + VERSION@ + "\n"@ + "platform: "@ + os + " "@ + arch + "\n"@
        + "stdin tty: "@ + yes_no_spec(stdin_tty) + "\n"@ + "stdout tty: "@ + yes_no_spec(stdout_tty)
        + "\n"@
}

/// The doctor's line on the terminal's size, or on why it is unknown.
pub open spec fn terminal_line(terminal: Result<(u16, u16), String>) -> Seq<char> {
    match terminal {
        Ok((cols, rows)) => "terminal size: "@ + decimal(cols as nat) + "x"@ + decimal(rows as nat) + "\n"@,
        Err(e) => "terminal size: unavailable ("@ + e@ + ")\n"@,
    }
}

/// The doctor's line on the clipboard helper.
pub open spec fn clipboard_line(clipboard: Option<Seq<char>>) -> Seq<char> {
    match clipboard {
        Some(p) => "clipboard helper: "@ + p + "\n"@,
        None => "clipboard helper: unavailable (install xclip/xsel on Linux, or use terminal paste)\n"@,
    }
}

/// The doctor's line on the file watcher.
pub open spec fn watcher_line(watcher: Result<(), String>) -> Seq<char> {
    match watcher {
        Ok(()) => "file watcher: ok\n"@,
        Err(e) => "file watcher: unavailable ("@ + e@ + ")\n"@,
    }
}

/// The doctor's report from what the probes found, one line each.
pub open spec fn doctor_text(
    os: Seq<char>,
    arch: Seq<char>,
    stdin_tty: bool,
    stdout_tty: bool,
    terminal: Result<(u16, u16), String>,
    clipboard: Option<Seq<char>>,
    watcher: Result<(), String>,
) -> Seq<char> {
    doctor_head(os, arch, stdin_tty, stdout_tty) + terminal_line(terminal) + clipboard_line(clipboard)
        + watcher_line(watcher)
}

fn doctor_head_text(os: &str, arch: &str, stdin_tty: bool, stdout_tty: bool) -> (s: String)
    ensures
        s@ == doctor_head(os@, arch@, stdin_tty, stdout_tty),
{
    let mut r = to_owned_string("punc doctor\n");
    push_str(&mut r, "version: ");
    push_str(&mut r, VERSION);
    push_str(&mut r, "\n");
    push_str(&mut r, "platform: ");
    push_str(&mut r, os);
    push_str(&mut r, " ");
    push_str(&mut r, arch);
    push_str(&mut r, "\n");
    push_str(&mut r, "stdin tty: ");
    push_str(&mut r, yes_no(stdin_tty));
    push_str(&mut r, "\n");
    push_str(&mut r, "stdout tty: ");
    push_str(&mut r, yes_no(stdout_tty));
    push_str(&mut r, "\n");
    r
}

fn terminal_line_text(terminal: &Result<(u16, u16), String>) -> (s: String)
    ensures
        s@ == terminal_line(*terminal),
{
    match terminal {
        Ok((cols, rows)) => {
            let mut r = to_owned_string("terminal size: ");
            let c = usize_to_decimal(*cols as usize);
            push_str(&mut r, c.as_str());
            push_str(&mut r, "x");
            let w = usize_to_decimal(*rows as usize);
            push_str(&mut r, w.as_str());
            push_str(&mut r, "\n");
            r
        },
        Err(e) => {
            let mut r = to_owned_string("terminal size: unavailable (");
            push_str(&mut r, e.as_str());
            push_str(&mut r, ")\n");
            r
        },
    }
}

fn clipboard_line_text(clipboard: Option<&str>) -> (s: String)
    ensures
        s@ == clipboard_line(
            match clipboard {
                Some(p) => Some(p@),
                None => None,
            },
        ),
{
    match clipboard {
        Some(p) => {
            let mut r = to_owned_string("clipboard helper: ");
            push_str(&mut r, p);
            push_str(&mut r, "\n");
            r
        },
        None => to_owned_string(
            "clipboard helper: unavailable (install xclip/xsel on Linux, or use terminal paste)\n",
        ),
    }
}

fn watcher_line_text(watcher: &Result<(), String>) -> (s: String)
    ensures
        s@ == watcher_line(*watcher),
{
    match watcher {
        Ok(()) => to_owned_string("file watcher: ok\n"),
        Err(e) => {
            let mut r = to_owned_string("file watcher: unavailable (");
            push_str(&mut r, e.as_str());
            push_str(&mut r, ")\n");
            r
        },
    }
}

/// The doctor's report from what the probes found (see `doctor_text`).
pub fn doctor_report(
    os: &str,
    arch: &str,
    stdin_tty: bool,
    stdout_tty: bool,
    terminal: Result<(u16, u16), String>,
    clipboard: Option<&str>,
    watcher: Result<(), String>,
) -> (report: String)
    ensures
        report@ == doctor_text(
            os@,
            arch@,
            stdin_tty,
            stdout_tty,
            terminal,
            match clipboard {
                Some(p) => Some(p@),
                None => None,
            },
            watcher,
        ),
{
    let mut r = doctor_head_text(os, arch, stdin_tty, stdout_tty);
    let t = terminal_line_text(&terminal);
    push_str(&mut r, t.as_str());
    let c = clipboard_line_text(clipboard);
    push_str(&mut r, c.as_str());
    let w = watcher_line_text(&watcher);
    push_str(&mut r, w.as_str());
    r
}

} // verus!
