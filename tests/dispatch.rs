use minishell::command::{parse, resolve, scan, Command};
use minishell::shell::{execute_command, step, Action, ShellState};

fn strings(v: &[&str]) -> Vec<String> {
    v.iter().map(|s| s.to_string()).collect()
}

fn printed(a: &Action) -> Option<String> {
    match a {
        Action::Print(s) => Some(s.clone()),
        _ => None,
    }
}

#[test]
fn scan_splits_on_single_spaces() {
    let t = scan(String::from("echo a   b"));
    assert_eq!(t, strings(&["echo", "a", "", "", "b"]));
}

#[test]
fn scan_empty_line_gives_one_empty_token() {
    assert_eq!(scan(String::new()), strings(&[""]));
}

#[test]
fn scan_keeps_tabs_inside_tokens() {
    assert_eq!(scan(String::from("a\tb c")), strings(&["a\tb", "c"]));
}

#[test]
fn tokenize_then_resolve_matches_manual_split() {
    let line = "ls -l /tmp";
    let manual: Vec<String> = line.split(' ').map(String::from).collect();
    let (name, args) = parse(scan(line.to_string())).unwrap();
    assert_eq!(name, manual[0]);
    assert_eq!(args, manual[1..].to_vec());
}

#[test]
fn parse_empty_tokens_is_none() {
    assert!(parse(Vec::new()).is_none());
}

#[test]
fn parse_single_token_has_no_arguments() {
    let (name, args) = parse(strings(&["exit"])).unwrap();
    assert_eq!(name, "exit");
    assert!(args.is_empty());
}

#[test]
fn resolve_names() {
    assert_eq!(resolve(&String::from("echo")), Command::Echo);
    assert_eq!(resolve(&String::from("exit")), Command::Exit);
    assert_eq!(resolve(&String::from("ls")), Command::Ls);
    assert_eq!(resolve(&String::new()), Command::Blank);
    assert_eq!(resolve(&String::from("lss")), Command::Unknown);
    assert_eq!(resolve(&String::from("Echo")), Command::Unknown);
}

#[test]
fn echo_keeps_empty_token_artifacts() {
    let (state, action) = step(ShellState::Running, "echo a   b");
    assert_eq!(state, ShellState::Running);
    assert_eq!(printed(&action).unwrap(), "a   b");
}

#[test]
fn echo_trims_the_joined_text() {
    let (_, action) = step(ShellState::Running, "echo  a");
    assert_eq!(printed(&action).unwrap(), "a");
    let (_, action) = step(ShellState::Running, "echo \t x");
    assert_eq!(printed(&action).unwrap(), "x");
}

#[test]
fn echo_without_arguments_prints_empty_line() {
    let (_, action) = step(ShellState::Running, "echo");
    assert_eq!(printed(&action).unwrap(), "");
}

#[test]
fn line_is_trimmed_before_tokenizing() {
    let (_, action) = step(ShellState::Running, "  echo hi \n");
    assert_eq!(printed(&action).unwrap(), "hi");
}

#[test]
fn exit_says_goodbye_and_terminates() {
    let (state, action) = step(ShellState::Running, "exit");
    assert_eq!(state, ShellState::Terminated);
    match action {
        Action::Stop(s) => assert_eq!(s, "Goodbye!"),
        other => panic!("unexpected {:?}", other),
    }
}

#[test]
fn terminated_shell_reads_nothing() {
    let (state, action) = step(ShellState::Terminated, "echo hi");
    assert_eq!(state, ShellState::Terminated);
    assert!(matches!(action, Action::Idle));
}

#[test]
fn unknown_command_is_reported_and_loop_continues() {
    let (state, action) = step(ShellState::Running, "foo");
    assert_eq!(state, ShellState::Running);
    match action {
        Action::Warn(s) => assert_eq!(s, "command not found : foo"),
        other => panic!("unexpected {:?}", other),
    }
    let (state, action) = step(state, "echo still here");
    assert_eq!(state, ShellState::Running);
    assert_eq!(printed(&action).unwrap(), "still here");
}

#[test]
fn blank_line_does_nothing() {
    let (state, action) = step(ShellState::Running, "   ");
    assert_eq!(state, ShellState::Running);
    assert!(matches!(action, Action::Idle));
}

#[test]
fn execute_command_dispatches_ls() {
    let action = execute_command(String::from("ls"), strings(&["-l", "dir"]));
    match action {
        Action::List { path, long } => {
            assert_eq!(path, "dir");
            assert!(long);
        }
        other => panic!("unexpected {:?}", other),
    }
}
