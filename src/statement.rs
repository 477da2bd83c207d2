use vstd::prelude::*;

verus! {

/// The parsed form of the statement that rolls back the current transaction.
/// It carries no fields: every value of it is the same statement.
#[derive(Clone, Copy, Debug, Default, PartialEq, Eq, Structural)]
pub struct CancelStatement;

/// The canonical text of the statement, whatever spelling it was parsed from.
pub open spec fn render_spec() -> Seq<char> {
    "CANCEL TRANSACTION"@
}

impl CancelStatement {
    /// Renders the statement as canonical text.
    pub fn render(&self) -> (r: String)
        ensures
            r@ == render_spec(),
    {
        String::from_str("CANCEL TRANSACTION")
    }
}

} // verus!
