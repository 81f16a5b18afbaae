//! Splitting an input line into tokens and resolving the command they name.
use vstd::prelude::*;
use crate::text::{join_spaced, views};

verus! {

/// The pieces of `s` between single spaces; consecutive spaces give empty pieces.
pub open spec fn split_spaces(s: Seq<char>) -> Seq<Seq<char>>
    decreases s.len(),
{
    if s.len() == 0 {
        seq![Seq::empty()]
    } else {
        let prev = split_spaces(s.drop_last());
        if s.last() == ' ' {
            prev.push(Seq::empty())
        } else {
            prev.update(prev.len() - 1, prev.last().push(s.last()))
        }
    }
}

/// Splitting always yields at least one piece.
pub proof fn lemma_split_nonempty(s: Seq<char>)
    ensures
        split_spaces(s).len() >= 1,
    decreases s.len(),
{
    if s.len() > 0 {
        lemma_split_nonempty(s.drop_last());
    }
}

/// The pieces of a line hold no space, and joined with single spaces they give the line back.
pub proof fn lemma_split_join(s: Seq<char>)
    ensures
        join_spaced(split_spaces(s)) == s,
        forall|i: int, j: int|
            0 <= i < split_spaces(s).len() && 0 <= j < split_spaces(s)[i].len()
                ==> split_spaces(s)[i][j] != ' ',
    decreases s.len(),
{
    lemma_split_nonempty(s);
    if s.len() == 0 {
        assert(split_spaces(s) =~= seq![Seq::<char>::empty()]);
        assert(s =~= Seq::<char>::empty());
    } else {
        let prev = split_spaces(s.drop_last());
        lemma_split_nonempty(s.drop_last());
        lemma_split_join(s.drop_last());
        let cur = split_spaces(s);
        if s.last() == ' ' {
            assert(cur.drop_last() =~= prev);
            assert(join_spaced(cur) =~= s);
            assert forall|i: int, j: int| 0 <= i < cur.len() && 0 <= j < cur[i].len() implies cur[i][j]
                != ' ' by {
                assert(i < prev.len());
                assert(cur[i] == prev[i]);
            }
        } else {
            let k = prev.len() - 1;
            if prev.len() == 1 {
                assert(cur =~= seq![prev[0].push(s.last())]);
                assert(join_spaced(cur) == cur[0]);
                assert(join_spaced(prev) == prev[0]);
                assert(cur[0] =~= s);
            } else {
                assert(cur.drop_last() =~= prev.drop_last());
                assert(join_spaced(prev) == join_spaced(prev.drop_last()) + seq![' '] + prev.last());
                assert(cur.last() == prev.last().push(s.last()));
                assert(join_spaced(cur) == join_spaced(cur.drop_last()) + seq![' '] + cur.last());
                assert(s =~= s.drop_last().push(s.last()));
                assert(join_spaced(cur) =~= s);
            }
            assert forall|i: int, j: int| 0 <= i < cur.len() && 0 <= j < cur[i].len() implies cur[i][j]
                != ' ' by {
                if i < k {
                    assert(cur[i] == prev[i]);
                } else if j < prev[k].len() {
                    assert(cur[i][j] == prev[k][j]);
                }
            }
        }
    }
}

/// A piece with no space splits into itself alone.
pub proof fn lemma_split_spaceless(a: Seq<char>)
    requires
        forall|j: int| 0 <= j < a.len() ==> a[j] != ' ',
    ensures
        split_spaces(a) == seq![a],
    decreases a.len(),
{
    if a.len() == 0 {
        assert(a =~= Seq::<char>::empty());
        assert(split_spaces(a) =~= seq![a]);
    } else {
        lemma_split_spaceless(a.drop_last());
        assert(a.drop_last().push(a.last()) =~= a);
        assert(split_spaces(a) =~= seq![a]);
    }
}

/// A spaceless piece, a space, then more text: the piece comes first, then the
/// pieces of the rest.
pub proof fn lemma_split_after_word(a: Seq<char>, b: Seq<char>)
    requires
        forall|j: int| 0 <= j < a.len() ==> a[j] != ' ',
    ensures
        split_spaces(a + seq![' '] + b) == seq![a] + split_spaces(b),
    decreases b.len(),
{
    let s = a + seq![' '] + b;
    if b.len() == 0 {
        lemma_split_spaceless(a);
        assert(s.drop_last() =~= a);
        assert(split_spaces(s) =~= seq![a] + split_spaces(b));
    } else {
        let c = b.last();
        lemma_split_after_word(a, b.drop_last());
        lemma_split_nonempty(b.drop_last());
        assert(s.drop_last() =~= a + seq![' '] + b.drop_last());
        assert(s.last() == c);
        let prev = split_spaces(b.drop_last());
        if c == ' ' {
            assert(split_spaces(s) =~= seq![a] + split_spaces(b));
        } else {
            assert((seq![a] + prev).update(prev.len() as int, prev.last().push(c)) =~= seq![a]
                + prev.update(prev.len() - 1, prev.last().push(c)));
            assert(split_spaces(s) =~= seq![a] + split_spaces(b));
        }
    }
}

/// Tokenizing a line and then resolving the tokens yields what splitting the line
/// on single spaces by hand gives: the first piece is the command name and the
/// other pieces, in order, are its arguments. The pieces hold no space, and
/// joining them with single spaces gives the line back.
pub proof fn lemma_tokenize_resolve(line: Seq<char>)
    ensures
        split_spaces(line).len() >= 1,
        invocation_of(split_spaces(line)) == Some(
            (split_spaces(line)[0], split_spaces(line).drop_first()),
        ),
        join_spaced(split_spaces(line)) == line,
        forall|i: int, j: int|
            0 <= i < split_spaces(line).len() && 0 <= j < split_spaces(line)[i].len()
                ==> split_spaces(line)[i][j] != ' ',
{
    lemma_split_nonempty(line);
    lemma_split_join(line);
}

/// The command name and the arguments of a token sequence, if it has a first token.
pub open spec fn invocation_of(tokens: Seq<Seq<char>>) -> Option<(Seq<char>, Seq<Seq<char>>)> {
    if tokens.len() == 0 {
        None
    } else {
        Some((tokens[0], tokens.drop_first()))
    }
}

/// Splits a line on single spaces.
pub fn scan(input: String) -> (r: Vec<String>)
    ensures
        views(r@) == split_spaces(input@),
{
    let s = input.as_str();
    let n = s.unicode_len();
    let mut tokens: Vec<String> = Vec::new();
    let mut start: usize = 0;
    let mut i: usize = 0;
    assert(s@.take(0) =~= Seq::<char>::empty());
    assert(views(tokens@).push(s@.subrange(0, 0)) =~= split_spaces(s@.take(0)));
    while i < n
        invariant
            n == s@.len(),
            start <= i <= n,
            views(tokens@).push(s@.subrange(start as int, i as int)) == split_spaces(
                s@.take(i as int),
            ),
        decreases n - i,
    {
        let c = s.get_char(i);
        let ghost prev = views(tokens@).push(s@.subrange(start as int, i as int));
        assert(s@.take(i as int + 1).drop_last() =~= s@.take(i as int));
        assert(s@.take(i as int + 1).last() == c);
        if c == ' ' {
            let piece = String::from_str(s.substring_char(start, i));
            let ghost before = tokens@;
            tokens.push(piece);
            assert(views(tokens@) =~= views(before).push(s@.subrange(start as int, i as int)));
            start = i + 1;
            assert(s@.subrange(start as int, i as int + 1) =~= Seq::<char>::empty());
            assert(views(tokens@).push(s@.subrange(start as int, i as int + 1)) =~= prev.push(
                Seq::empty(),
            ));
        } else {
            assert(s@.subrange(start as int, i as int + 1) =~= s@.subrange(
                start as int,
                i as int,
            ).push(c));
            assert(views(tokens@).push(s@.subrange(start as int, i as int + 1)) =~= prev.update(
                prev.len() - 1,
                prev.last().push(c),
            ));
        }
        i = i + 1;
    }
    let piece = String::from_str(s.substring_char(start, n));
    let ghost before = tokens@;
    tokens.push(piece);
    assert(views(tokens@) =~= views(before).push(s@.subrange(start as int, n as int)));
    assert(s@.take(n as int) =~= s@);
    assert(views(tokens@) =~= split_spaces(input@));
    tokens
}

/// Separates the first token (the command name) from the rest (its arguments).
pub fn parse(tokens: Vec<String>) -> (r: Option<(String, Vec<String>)>)
    ensures
        match r {
            None => invocation_of(views(tokens@)) is None,
            Some((name, args)) => invocation_of(views(tokens@)) == Some(
                (name@, views(args@)),
            ),
        },
{
    if tokens.len() == 0 {
        return None;
    }
    let name = tokens[0].clone();
    let mut args: Vec<String> = Vec::new();
    let mut i: usize = 1;
    while i < tokens.len()
        invariant
            1 <= i <= tokens.len(),
            views(args@) == views(tokens@).subrange(1, i as int),
        decreases tokens.len() - i,
    {
        let ghost before = args@;
        args.push(tokens[i].clone());
        assert(views(args@) =~= views(before).push(tokens@[i as int]@));
        i = i + 1;
        assert(views(args@) =~= views(tokens@).subrange(1, i as int));
    }
    assert(views(args@) =~= views(tokens@).drop_first());
    Some((name, args))
}

/// The built-in commands, and the two ways a name can fail to be one.
#[derive(Clone, Copy, Debug, PartialEq, Eq, Structural)]
pub enum Command {
    /// An empty name: the line was blank.
    Blank,
    Echo,
    Exit,
    Ls,
    /// Any other name.
    Unknown,
}

/// The command that a name selects.
pub open spec fn command_named(name: Seq<char>) -> Command {
    if name.len() == 0 {
        Command::Blank
    } else if name == "echo"@ {
        Command::Echo
    } else if name == "exit"@ {
        Command::Exit
    } else if name == "ls"@ {
        Command::Ls
    } else {
        Command::Unknown
    }
}

/// Resolves a command name to the command it selects.
pub fn resolve(name: &String) -> (r: Command)
    ensures
        r == command_named(name@),
{
    if name.as_str().unicode_len() == 0 {
        Command::Blank
    } else if *name == String::from_str("echo") {
        Command::Echo
    } else if *name == String::from_str("exit") {
        Command::Exit
    } else if *name == String::from_str("ls") {
        Command::Ls
    } else {
        Command::Unknown
    }
}

} // verus!
