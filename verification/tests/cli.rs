use punc::cli::{available_clipboard_command, doctor_report, first_present_command, clipboard_commands, help_text, keys_text, parse_cli, usage_text, yes_no, CliCommand};

fn args(list: &[&str]) -> Vec<String> {
    list.iter().map(|s| s.to_string()).collect()
}

#[test]
fn clipboard_commands_use_absolute_paths() {
    assert!(clipboard_commands()
        .iter()
        .all(|(program, _)| program.starts_with('/')));
}

#[test]
fn parse_version_flag() {
    let command = parse_cli(args(&["punc", "--version"])).unwrap();
    assert_eq!(command, CliCommand::Version);
}

#[test]
fn parse_doctor_command() {
    let command = parse_cli(args(&["punc", "doctor"])).unwrap();
    assert_eq!(command, CliCommand::Doctor);
}

#[test]
fn dash_dash_allows_dash_prefixed_file_name() {
    let command = parse_cli(args(&["punc", "--", "--version"])).unwrap();
    assert_eq!(command, CliCommand::Edit("--version".into()));
}

#[test]
fn unknown_flag_returns_error() {
    let err = parse_cli(args(&["punc", "--wat"])).unwrap_err();
    assert!(err.contains("Unknown option `--wat`"));
}

#[test]
fn help_and_keys_text_cover_new_cli_commands() {
    assert!(help_text().contains("punc --version"));
    assert!(help_text().contains("punc doctor"));
    assert!(keys_text().contains("Alt+D"));
}

#[test]
fn plain_file_argument_opens_it() {
    assert_eq!(
        parse_cli(args(&["punc", "notes.md"])).unwrap(),
        CliCommand::Edit("notes.md".to_string())
    );
}

#[test]
fn short_flags_and_keys() {
    assert_eq!(parse_cli(args(&["punc", "-h"])).unwrap(), CliCommand::Help);
    assert_eq!(parse_cli(args(&["punc", "--help"])).unwrap(), CliCommand::Help);
    assert_eq!(parse_cli(args(&["punc", "-V"])).unwrap(), CliCommand::Version);
    assert_eq!(parse_cli(args(&["punc", "--keys"])).unwrap(), CliCommand::Keys);
}

#[test]
fn missing_file_is_an_error_with_usage() {
    let err = parse_cli(args(&["punc"])).unwrap_err();
    assert_eq!(err, format!("No file provided.\n\n{}", usage_text("punc")));
    let err = parse_cli(Vec::new()).unwrap_err();
    assert!(err.starts_with("No file provided."));
}

#[test]
fn extra_argument_after_flag_is_an_error() {
    let err = parse_cli(args(&["tool", "--version", "x"])).unwrap_err();
    assert_eq!(
        err,
        format!("Unexpected argument `x` after `--version`.\n\n{}", usage_text("tool"))
    );
}

#[test]
fn second_file_path_is_an_error() {
    let err = parse_cli(args(&["punc", "a.md", "b.md"])).unwrap_err();
    assert!(err.starts_with("punc accepts exactly one file path. Unexpected argument `b.md`."));
    let err = parse_cli(args(&["punc", "--", "a.md", "b.md"])).unwrap_err();
    assert!(err.contains("Unexpected argument `b.md`"));
    let err = parse_cli(args(&["punc", "--"])).unwrap_err();
    assert!(err.starts_with("Missing file path after `--`."));
}

#[test]
fn usage_names_the_program() {
    assert_eq!(
        usage_text("p"),
        "Usage:\n  p <file>\n  p --help\n  p --version\n  p --keys\n  p doctor\n  p -- <file-starting-with-dash>"
    );
}

#[test]
fn help_text_starts_with_version() {
    assert!(help_text().starts_with("punc 0.3.3\n"));
    assert!(help_text().contains(&usage_text("punc")));
}

#[test]
fn yes_no_words() {
    assert_eq!(yes_no(true), "yes");
    assert_eq!(yes_no(false), "no");
}

#[test]
fn clipboard_commands_list_eleven_helpers() {
    let cmds = clipboard_commands();
    assert_eq!(cmds.len(), 11);
    assert_eq!(cmds[0].0, "/usr/bin/xclip");
    assert_eq!(cmds[0].1, vec!["-selection", "clipboard", "-o"]);
    assert_eq!(cmds[3].1, vec!["--clipboard", "--output"]);
    assert!(cmds[6].1.is_empty());
}

#[test]
fn first_present_helper_is_picked_in_table_order() {
    let mut present = vec![false; 11];
    assert_eq!(first_present_command(&present), None);
    present[4] = true;
    present[9] = true;
    assert_eq!(first_present_command(&present), Some("/usr/local/bin/xsel"));
    present[0] = true;
    assert_eq!(first_present_command(&present), Some("/usr/bin/xclip"));
    present = vec![false; 11];
    present[10] = true;
    assert_eq!(first_present_command(&present), Some("/bin/pbpaste"));
}

#[test]
fn available_helper_comes_from_the_table() {
    if let Some(p) = available_clipboard_command() {
        assert!(clipboard_commands().iter().any(|(q, _)| *q == p));
    }
}

#[test]
fn doctor_report_includes_expected_sections() {
    let output = doctor_report(
        "linux",
        "x86_64",
        true,
        false,
        Ok((80, 24)),
        None,
        Ok(()),
    );
    assert!(output.contains("punc doctor"));
    assert!(output.contains("clipboard helper:"));
    assert!(output.contains("file watcher:"));
}

#[test]
fn doctor_report_lines() {
    let output = doctor_report(
        "linux",
        "x86_64",
        true,
        false,
        Err("not a tty".to_string()),
        Some("/usr/bin/xclip"),
        Err("no inotify".to_string()),
    );
    assert_eq!(
        output,
        "punc doctor\nversion: 0.3.3\nplatform: linux x86_64\nstdin tty: yes\nstdout tty: no\n\
         terminal size: unavailable (not a tty)\nclipboard helper: /usr/bin/xclip\n\
         file watcher: unavailable (no inotify)\n"
    );
    let output = doctor_report("macos", "aarch64", false, true, Ok((120, 40)), None, Ok(()));
    assert!(output.contains("terminal size: 120x40\n"));
    assert!(output.contains(
        "clipboard helper: unavailable (install xclip/xsel on Linux, or use terminal paste)\n"
    ));
    assert!(output.ends_with("file watcher: ok\n"));
}
