use minishell::ls::{
    execute, handle_error, invalid_option, long_entry_line, parse, report, validate_ls_options,
    AccessError, EntryInfo, FileKind, Listing,
};
use minishell::permissions::Mode;
use minishell::shell::{step, Action, ShellState};

fn strings(v: &[&str]) -> Vec<String> {
    v.iter().map(|s| s.to_string()).collect()
}

fn entry(path: &str, kind: FileKind, mode: u32, uid: u32, gid: u32, size: u64) -> EntryInfo {
    EntryInfo { path: path.to_string(), kind, mode: Mode(mode), uid, gid, size }
}

fn two_files() -> Listing {
    Listing::Read {
        entries: vec![
            entry("./a", FileKind::Regular, 0o100644, 0, 0, 0),
            entry("./b", FileKind::Regular, 0o100644, 0, 0, 0),
        ],
        errors: Vec::new(),
    }
}

#[test]
fn parse_without_arguments_lists_current_dir() {
    let (path, flags) = parse(Vec::new());
    assert_eq!(path, ".");
    assert!(flags.is_empty());
}

#[test]
fn parse_plain_path() {
    let (path, flags) = parse(strings(&["dir", "-l"]));
    assert_eq!(path, "dir");
    assert!(flags.is_empty());
}

#[test]
fn parse_flags_then_path() {
    let (path, flags) = parse(strings(&["-l", "dir"]));
    assert_eq!(path, "dir");
    assert_eq!(flags, vec!['l']);
}

#[test]
fn parse_deduplicates_flags_in_first_occurrence_order() {
    let (path, flags) = parse(strings(&["-lalz"]));
    assert_eq!(path, ".");
    assert_eq!(flags, vec!['l', 'a', 'z']);
}

#[test]
fn parse_lone_dash_is_a_path() {
    let (path, flags) = parse(strings(&["-", "x"]));
    assert_eq!(path, "-");
    assert!(flags.is_empty());
}

#[test]
fn validate_accepts_empty_and_l() {
    assert_eq!(validate_ls_options(&Vec::new()), Ok(()));
    assert_eq!(validate_ls_options(&vec!['l']), Ok(()));
}

#[test]
fn validate_reports_first_unrecognized() {
    assert_eq!(validate_ls_options(&vec!['l', 'z', 'q']), Err('z'));
    assert_eq!(validate_ls_options(&vec!['a']), Err('a'));
}

#[test]
fn invalid_option_message_is_exact() {
    let (state, action) = step(ShellState::Running, "ls -z");
    assert_eq!(state, ShellState::Running);
    match action {
        Action::Warn(s) => assert_eq!(s, "ls : invalid option - 'z'"),
        other => panic!("unexpected {:?}", other),
    }
    assert_eq!(invalid_option('q'), "ls : invalid option - 'q'");
}

#[test]
fn ls_without_arguments_lists_current_dir_plainly() {
    match execute(Vec::new()) {
        Action::List { path, long } => {
            assert_eq!(path, ".");
            assert!(!long);
        }
        other => panic!("unexpected {:?}", other),
    }
}

#[test]
fn plain_listing_joins_paths_on_one_line() {
    let out = report(&String::from("."), false, &two_files());
    assert_eq!(out.out, strings(&["./a ./b"]));
    assert!(out.err.is_empty());
}

#[test]
fn plain_listing_of_empty_directory_is_one_empty_line() {
    let listing = Listing::Read { entries: Vec::new(), errors: Vec::new() };
    let out = report(&String::from("."), false, &listing);
    assert_eq!(out.out, strings(&[""]));
}

#[test]
fn long_listing_of_regular_file() {
    let listing = Listing::Read {
        entries: vec![entry("d/f", FileKind::Regular, 0o100644, 1000, 1000, 12)],
        errors: Vec::new(),
    };
    let out = report(&String::from("d"), true, &listing);
    assert_eq!(out.out.len(), 1);
    assert!(out.out[0].starts_with("-rw-r--r-- 1000 1000 12 d/f"));
    assert_eq!(out.out[0], "-rw-r--r-- 1000 1000 12 d/f");
}

#[test]
fn long_line_kinds_and_large_numbers() {
    let e = entry("x", FileKind::Directory, 0o40755, 0, 4294967295, u64::MAX);
    assert_eq!(long_entry_line(&e), "drwxr-xr-x 0 4294967295 18446744073709551615 x");
    let e = entry("s", FileKind::Socket, 0o777, 1, 2, 3);
    assert_eq!(long_entry_line(&e), "srwxrwxrwx 1 2 3 s");
    let e = entry("l", FileKind::Symlink, 0o4700, 1, 2, 3);
    assert_eq!(long_entry_line(&e), "srwx------ 1 2 3 l");
}

#[test]
fn file_kind_glyphs() {
    assert_eq!(FileKind::Regular.glyph(), '-');
    assert_eq!(FileKind::Directory.glyph(), 'd');
    assert_eq!(FileKind::Symlink.glyph(), 's');
    assert_eq!(FileKind::BlockDevice.glyph(), 'b');
    assert_eq!(FileKind::CharDevice.glyph(), 'c');
    assert_eq!(FileKind::Socket.glyph(), 's');
    assert_eq!(FileKind::Fifo.glyph(), 'p');
}

#[test]
fn missing_directory_is_reported_on_stderr() {
    let (state, action) = step(ShellState::Running, "ls /nonexistent");
    assert_eq!(state, ShellState::Running);
    let (path, long) = match action {
        Action::List { path, long } => (path, long),
        other => panic!("unexpected {:?}", other),
    };
    let out = report(&path, long, &Listing::Failed(AccessError::NotFound));
    assert!(out.out.is_empty());
    assert_eq!(out.err, strings(&["no such file or directory: /nonexistent"]));
}

#[test]
fn access_error_messages() {
    let p = String::from("/root");
    assert_eq!(
        handle_error(AccessError::PermissionDenied, &p),
        "permission denied to view contents of: /root"
    );
    assert_eq!(handle_error(AccessError::NotADirectory, &p), "file is not a directory: /root");
    assert_eq!(handle_error(AccessError::NotFound, &p), "no such file or directory: /root");
}

#[test]
fn entry_errors_discard_all_entries() {
    let listing = Listing::Read {
        entries: vec![entry("./a", FileKind::Regular, 0o644, 0, 0, 0)],
        errors: strings(&["first failure", "second failure"]),
    };
    let out = report(&String::from("."), true, &listing);
    assert_eq!(out.out, strings(&["first failure", "second failure"]));
    assert!(out.err.is_empty());
}

#[test]
fn repeated_listing_is_identical() {
    let first = report(&String::from("."), false, &two_files());
    let second = report(&String::from("."), false, &two_files());
    assert_eq!(first.out, second.out);
    assert_eq!(first.err, second.err);
    let (s1, a1) = step(ShellState::Running, "ls -l .");
    let (s2, a2) = step(ShellState::Running, "ls -l .");
    assert_eq!(s1, s2);
    assert_eq!(format!("{:?}", a1), format!("{:?}", a2));
}
