//! The `ls` built-in: option parsing, option validation, access-error
//! messages and the rendering of a directory listing.
use vstd::prelude::*;
use crate::permissions::{mode_text, permissions_text, Mode};
use crate::shell::{Action, ActionView};
use crate::text::{contains_char, decimal, join, join_spaced, push_char, push_decimal, views};

verus! {

/// `s` with every repeated character dropped, first occurrences kept in order.
pub open spec fn dedup(s: Seq<char>) -> Seq<char>
    decreases s.len(),
{
    if s.len() == 0 {
        Seq::empty()
    } else {
        let d = dedup(s.drop_last());
        if d.contains(s.last()) {
            d
        } else {
            d.push(s.last())
        }
    }
}

/// `dedup` keeps exactly the characters of its input, each once.
pub proof fn lemma_dedup(s: Seq<char>)
    ensures
        dedup(s).no_duplicates(),
        forall|c: char| dedup(s).contains(c) <==> s.contains(c),
    decreases s.len(),
{
    if s.len() > 0 {
        lemma_dedup(s.drop_last());
        let d = dedup(s.drop_last());
        assert forall|c: char| s.contains(c) <==> (s.drop_last().contains(c) || c == s.last()) by {
            if s.contains(c) {
                let k = choose|k: int| 0 <= k < s.len() && s[k] == c;
                if k < s.len() - 1 {
                    assert(s.drop_last()[k] == c);
                }
            }
            if s.drop_last().contains(c) {
                let k = choose|k: int| 0 <= k < s.len() - 1 && s.drop_last()[k] == c;
                assert(s[k] == c);
            }
            if c == s.last() {
                assert(s[s.len() - 1] == c);
            }
        }
        if !d.contains(s.last()) {
            assert forall|c: char| d.push(s.last()).contains(c) <==> (d.contains(c) || c
                == s.last()) by {
                if d.push(s.last()).contains(c) {
                    let k = choose|k: int| 0 <= k < d.len() + 1 && d.push(s.last())[k] == c;
                    if k < d.len() {
                        assert(d[k] == c);
                    }
                }
                if d.contains(c) {
                    let k = choose|k: int| 0 <= k < d.len() && d[k] == c;
                    assert(d.push(s.last())[k] == c);
                }
                if c == s.last() {
                    assert(d.push(s.last())[d.len() as int] == c);
                }
            }
        }
    }
}

/// The working directory, listed when no path is given.
pub open spec fn current_dir() -> Seq<char> {
    seq!['.']
}

/// Whether the first argument is a flag group: a `-` with at least one letter after it.
pub open spec fn has_flag_group(args: Seq<Seq<char>>) -> bool {
    args.len() > 0 && args[0].len() > 1 && args[0][0] == '-'
}

/// The path that `ls` lists for the given arguments.
pub open spec fn ls_target(args: Seq<Seq<char>>) -> Seq<char> {
    if args.len() == 0 {
        current_dir()
    } else if has_flag_group(args) {
        if args.len() > 1 {
            args[1]
        } else {
            current_dir()
        }
    } else {
        args[0]
    }
}

/// The flag letters of the given arguments, each once, in order of first occurrence.
pub open spec fn ls_flags(args: Seq<Seq<char>>) -> Seq<char> {
    if has_flag_group(args) {
        dedup(args[0].drop_first())
    } else {
        Seq::empty()
    }
}

/// Reads the target path and the flag letters out of the arguments of `ls`.
pub fn parse(args: Vec<String>) -> (r: (String, Vec<char>))
    ensures
        r.0@ == ls_target(views(args@)),
        r.1@ == ls_flags(views(args@)),
        r.1@.no_duplicates(),
{
    proof {
        reveal_strlit(".");
    }
    let mut uniques: Vec<char> = Vec::new();
    if args.len() == 0 {
        assert("."@ =~= current_dir());
        return (String::from_str("."), uniques);
    }
    let first = args[0].as_str();
    let n = first.unicode_len();
    if n > 1 && first.get_char(0) == '-' {
        let mut i: usize = 1;
        assert(first@.subrange(1, 1) =~= Seq::<char>::empty());
        while i < n
            invariant
                n == first@.len(),
                1 <= i <= n,
                uniques@ == dedup(first@.subrange(1, i as int)),
            decreases n - i,
        {
            let c = first.get_char(i);
            assert(first@.subrange(1, i as int + 1).drop_last() =~= first@.subrange(
                1,
                i as int,
            ));
            if !contains_char(&uniques, c) {
                uniques.push(c);
            }
            i = i + 1;
        }
        assert(first@.subrange(1, n as int) =~= first@.drop_first());
        proof {
            lemma_dedup(first@.drop_first());
        }
        if args.len() > 1 {
            (args[1].clone(), uniques)
        } else {
            assert("."@ =~= current_dir());
            (String::from_str("."), uniques)
        }
    } else {
        (args[0].clone(), uniques)
    }
}

/// The flag letters that `ls` recognizes.
pub open spec fn is_recognized(c: char) -> bool {
    c == 'l'
}

/// The first letter of `flags` that `ls` does not recognize, if any.
pub open spec fn first_unrecognized(flags: Seq<char>) -> Option<char>
    decreases flags.len(),
{
    if flags.len() == 0 {
        None
    } else if !is_recognized(flags[0]) {
        Some(flags[0])
    } else {
        first_unrecognized(flags.drop_first())
    }
}

/// Accepts the flags when all are recognized, else reports the first one that is not.
pub fn validate_ls_options(options: &Vec<char>) -> (r: Result<(), char>)
    ensures
        r == match first_unrecognized(options@) {
            None => Ok(()),
            Some(c) => Err(c),
        },
{
    let mut i: usize = 0;
    assert(options@.skip(0) =~= options@);
    while i < options.len()
        invariant
            i <= options.len(),
            first_unrecognized(options@) == first_unrecognized(options@.skip(i as int)),
        decreases options.len() - i,
    {
        if options[i] != 'l' {
            return Err(options[i]);
        }
        assert(options@.skip(i as int).drop_first() =~= options@.skip(i as int + 1));
        i = i + 1;
    }
    Ok(())
}

/// The message for a flag letter that `ls` does not recognize.
pub open spec fn invalid_option_message(c: char) -> Seq<char> {
    "ls : invalid option - '"@ + seq![c, '\'']
}

/// The way in which opening a directory failed.
#[derive(Clone, Copy, Debug, PartialEq, Eq, Structural)]
pub enum AccessError {
    NotFound,
    PermissionDenied,
    /// Any other failure; reported as the path not being a directory.
    NotADirectory,
}

/// The message reported when `path` cannot be opened as a directory.
pub open spec fn access_message(error: AccessError, path: Seq<char>) -> Seq<char> {
    match error {
        AccessError::NotFound => "no such file or directory: "@ + path,
        AccessError::PermissionDenied => "permission denied to view contents of: "@ + path,
        AccessError::NotADirectory => "file is not a directory: "@ + path,
    }
}

/// The message for a failure to open `path` as a directory.
pub fn handle_error(error: AccessError, path: &String) -> (r: String)
    ensures
        r@ == access_message(error, path@),
{
    let mut s = match error {
        AccessError::NotFound => String::from_str("no such file or directory: "),
        AccessError::PermissionDenied => String::from_str("permission denied to view contents of: "),
        AccessError::NotADirectory => String::from_str("file is not a directory: "),
    };
    s.append(path.as_str());
    s
}

/// What kind of file a directory entry is.
#[derive(Clone, Copy, Debug, PartialEq, Eq, Structural)]
pub enum FileKind {
    /// A regular file, or any kind not listed here.
    Regular,
    Directory,
    Symlink,
    BlockDevice,
    CharDevice,
    Socket,
    Fifo,
}

/// The type character of the long listing; symlinks and sockets share `s`.
pub open spec fn kind_glyph(kind: FileKind) -> char {
    match kind {
        FileKind::Regular => '-',
        FileKind::Directory => 'd',
        FileKind::Symlink => 's',
        FileKind::BlockDevice => 'b',
        FileKind::CharDevice => 'c',
        FileKind::Socket => 's',
        FileKind::Fifo => 'p',
    }
}

impl FileKind {
    /// The type character of the long listing.
    pub fn glyph(&self) -> (r: char)
        ensures
            r == kind_glyph(*self),
    {
        match self {
            FileKind::Regular => '-',
            FileKind::Directory => 'd',
            FileKind::Symlink => 's',
            FileKind::BlockDevice => 'b',
            FileKind::CharDevice => 'c',
            FileKind::Socket => 's',
            FileKind::Fifo => 'p',
        }
    }
}

/// What the listing shows of one directory entry.
#[derive(Debug)]
pub struct EntryInfo {
    pub path: String,
    pub kind: FileKind,
    pub mode: Mode,
    pub uid: u32,
    pub gid: u32,
    pub size: u64,
}

/// The mathematical value of an `EntryInfo`.
pub struct EntryView {
    pub path: Seq<char>,
    pub kind: FileKind,
    pub mode: u32,
    pub uid: u32,
    pub gid: u32,
    pub size: u64,
}

impl View for EntryInfo {
    type V = EntryView;

    open spec fn view(&self) -> EntryView {
        EntryView {
            path: self.path@,
            kind: self.kind,
            mode: self.mode.0,
            uid: self.uid,
            gid: self.gid,
            size: self.size,
        }
    }
}

/// The line of the long listing for one entry:
/// type, permissions, owner, group, size and path.
pub open spec fn long_line(e: EntryView) -> Seq<char> {
    seq![kind_glyph(e.kind)] + mode_text(e.mode) + seq![' '] + decimal(e.uid as nat) + seq![' ']
        + decimal(e.gid as nat) + seq![' '] + decimal(e.size as nat) + seq![' '] + e.path
}

/// Renders the long-listing line of one entry.
pub fn long_entry_line(e: &EntryInfo) -> (r: String)
    ensures
        r@ == long_line(e@),
{
    let mut s = String::new();
    push_char(&mut s, e.kind.glyph());
    let perms = permissions_text(&e.mode);
    s.append(perms.as_str());
    push_char(&mut s, ' ');
    push_decimal(&mut s, e.uid as u64);
    push_char(&mut s, ' ');
    push_decimal(&mut s, e.gid as u64);
    push_char(&mut s, ' ');
    push_decimal(&mut s, e.size);
    push_char(&mut s, ' ');
    s.append(e.path.as_str());
    assert(s@ =~= long_line(e@));
    s
}

/// The message for a flag letter that `ls` does not recognize.
pub fn invalid_option(c: char) -> (r: String)
    ensures
        r@ == invalid_option_message(c),
{
    let mut s = String::from_str("ls : invalid option - '");
    push_char(&mut s, c);
    push_char(&mut s, '\'');
    assert(s@ =~= invalid_option_message(c));
    s
}

/// What `ls` does with the given arguments: report an unrecognized flag on standard error,
/// or list the target path, in the long form when a flag was given.
pub open spec fn ls_action(args: Seq<Seq<char>>) -> ActionView {
    match first_unrecognized(ls_flags(args)) {
        Some(c) => ActionView::Warn(invalid_option_message(c)),
        None => ActionView::List(ls_target(args), ls_flags(args).len() > 0),
    }
}

/// Runs the option handling of `ls`; the listing itself is left to the caller.
pub fn execute(args: Vec<String>) -> (r: Action)
    ensures
        r@ == ls_action(views(args@)),
{
    let (path, options) = parse(args);
    match validate_ls_options(&options) {
        Err(c) => Action::Warn(invalid_option(c)),
        Ok(()) => Action::List { path, long: options.len() > 0 },
    }
}

/// What reading a directory gave.
#[derive(Debug)]
pub enum Listing {
    /// The directory was opened; the entries read, and the errors met while reading.
    Read { entries: Vec<EntryInfo>, errors: Vec<String> },
    /// The directory could not be opened.
    Failed(AccessError),
}

/// The mathematical value of a `Listing`.
pub enum ListingView {
    Read(Seq<EntryView>, Seq<Seq<char>>),
    Failed(AccessError),
}

/// The views of a sequence of entries.
pub open spec fn entry_views(v: Seq<EntryInfo>) -> Seq<EntryView> {
    v.map_values(|e: EntryInfo| e@)
}

impl View for Listing {
    type V = ListingView;

    open spec fn view(&self) -> ListingView {
        match self {
            Listing::Read { entries, errors } => ListingView::Read(
                entry_views(entries@),
                views(errors@),
            ),
            Listing::Failed(e) => ListingView::Failed(*e),
        }
    }
}

/// Lines for standard output and for standard error.
#[derive(Debug)]
pub struct Output {
    pub out: Vec<String>,
    pub err: Vec<String>,
}

/// The standard-output lines of a listing: the read errors if there were any
/// (and then no entry), else all paths on one line, or one long line per entry.
pub open spec fn listing_out(long: bool, listing: ListingView) -> Seq<Seq<char>> {
    match listing {
        ListingView::Failed(_) => Seq::empty(),
        ListingView::Read(entries, errors) => if errors.len() > 0 {
            errors
        } else if long {
            entries.map_values(|e: EntryView| long_line(e))
        } else {
            seq![join_spaced(entries.map_values(|e: EntryView| e.path))]
        },
    }
}

/// The standard-error lines of a listing: the access error, if the directory
/// could not be opened.
pub open spec fn listing_err(path: Seq<char>, listing: ListingView) -> Seq<Seq<char>> {
    match listing {
        ListingView::Failed(e) => seq![access_message(e, path)],
        ListingView::Read(_, _) => Seq::empty(),
    }
}

/// Renders what reading the directory at `path` gave.
pub fn report(path: &String, long: bool, listing: &Listing) -> (r: Output)
    ensures
        views(r.out@) == listing_out(long, listing@),
        views(r.err@) == listing_err(path@, listing@),
{
    match listing {
        Listing::Failed(e) => {
            let mut err: Vec<String> = Vec::new();
            err.push(handle_error(*e, path));
            assert(views(err@) =~= listing_err(path@, listing@));
            let out: Vec<String> = Vec::new();
            assert(views(out@) =~= Seq::<Seq<char>>::empty());
            Output { out, err }
        },
        Listing::Read { entries, errors } => {
            let err: Vec<String> = Vec::new();
            assert(views(err@) =~= Seq::<Seq<char>>::empty());
            let mut out: Vec<String> = Vec::new();
            if errors.len() > 0 {
                let mut i: usize = 0;
                while i < errors.len()
                    invariant
                        i <= errors.len(),
                        views(out@) == views(errors@).take(i as int),
                    decreases errors.len() - i,
                {
                    let ghost before = out@;
                    out.push(errors[i].clone());
                    assert(views(out@) =~= views(before).push(errors@[i as int]@));
                    assert(views(errors@).take(i as int + 1) =~= views(errors@).take(
                        i as int,
                    ).push(errors@[i as int]@));
                    i = i + 1;
                }
                assert(views(errors@).take(errors.len() as int) =~= views(errors@));
            } else if long {
                let ghost ev = entry_views(entries@);
                let mut i: usize = 0;
                while i < entries.len()
                    invariant
                        i <= entries.len(),
                        ev == entry_views(entries@),
                        views(out@) == ev.map_values(|e: EntryView| long_line(e)).take(i as int),
                    decreases entries.len() - i,
                {
                    let ghost before = out@;
                    out.push(long_entry_line(&entries[i]));
                    assert(views(out@) =~= views(before).push(long_line(ev[i as int])));
                    assert(ev.map_values(|e: EntryView| long_line(e)).take(i as int + 1)
                        =~= ev.map_values(|e: EntryView| long_line(e)).take(i as int).push(
                        long_line(ev[i as int]),
                    ));
                    i = i + 1;
                }
                assert(ev.map_values(|e: EntryView| long_line(e)).take(entries.len() as int)
                    =~= ev.map_values(|e: EntryView| long_line(e)));
            } else {
                let ghost ev = entry_views(entries@);
                let mut paths: Vec<String> = Vec::new();
                let mut i: usize = 0;
                while i < entries.len()
                    invariant
                        i <= entries.len(),
                        ev == entry_views(entries@),
                        views(paths@) == ev.map_values(|e: EntryView| e.path).take(i as int),
                    decreases entries.len() - i,
                {
                    let ghost before = paths@;
                    paths.push(entries[i].path.clone());
                    assert(views(paths@) =~= views(before).push(ev[i as int].path));
                    assert(ev.map_values(|e: EntryView| e.path).take(i as int + 1)
                        =~= ev.map_values(|e: EntryView| e.path).take(i as int).push(
                        ev[i as int].path,
                    ));
                    i = i + 1;
                }
                assert(ev.map_values(|e: EntryView| e.path).take(entries.len() as int)
                    =~= ev.map_values(|e: EntryView| e.path));
                out.push(join(&paths));
                assert(views(out@) =~= listing_out(long, listing@));
            }
            Output { out, err }
        },
    }
}

} // verus!
