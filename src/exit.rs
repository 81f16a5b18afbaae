//! The `exit` built-in.
use vstd::prelude::*;
use crate::shell::{Action, ActionView};

verus! {

/// The farewell printed by `exit`.
pub open spec fn farewell() -> Seq<char> {
    "Goodbye!"@
}

/// Says goodbye and stops the shell.
pub fn execute() -> (r: Action)
    ensures
        r@ == ActionView::Stop(farewell()),
{
    Action::Stop(String::from_str("Goodbye!"))
}

} // verus!
