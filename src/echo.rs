//! The `echo` built-in.
use vstd::prelude::*;
use crate::shell::{Action, ActionView};
use crate::text::{join, join_spaced, trim, trimmed, views};

verus! {

/// The text that `echo` prints: its arguments joined by single spaces, trimmed.
pub open spec fn echo_text(args: Seq<Seq<char>>) -> Seq<char> {
    trimmed(join_spaced(args))
}

/// Prints the arguments, joined by single spaces and trimmed, and goes on.
pub fn execute(args: Vec<String>) -> (r: Action)
    ensures
        r@ == ActionView::Print(echo_text(views(args@))),
{
    let joined = join(&args);
    Action::Print(trim(joined.as_str()))
}

} // verus!
