use vstd::prelude::*;
use crate::statement::CancelStatement;

verus! {

/// A lifecycle call that an execution makes on the active transaction,
/// while it holds the transaction's lock.
#[derive(Clone, Copy, Debug, PartialEq, Eq, Structural)]
pub enum TxnCall {
    Cancel,
}

/// The call that executing CANCEL makes: a cancel when a transaction is
/// active, none otherwise.
pub open spec fn call_for(active: bool) -> Option<TxnCall> {
    if active {
        Some(TxnCall::Cancel)
    } else {
        None
    }
}

/// The result of an execution, from the outcome of the call it made
/// (`None` when it made none): the outcome itself, unchanged, or the neutral
/// success when there was no call.
pub open spec fn result_of<E>(outcome: Option<Result<(), E>>) -> Result<(), E> {
    match outcome {
        Some(r) => r,
        None => Ok(()),
    }
}

impl CancelStatement {
    /// Decides which lifecycle call an execution of this statement makes,
    /// given whether a transaction is active.
    pub fn call(&self, active: bool) -> (r: Option<TxnCall>)
        ensures
            r == call_for(active),
    {
        if active {
            Some(TxnCall::Cancel)
        } else {
            None
        }
    }

    /// Gives the result of an execution from the outcome of the call it
    /// made: a failure of the transaction is handed on as it came.
    pub fn finish<E>(&self, outcome: Option<Result<(), E>>) -> (r: Result<(), E>)
        ensures
            r == result_of(outcome),
    {
        match outcome {
            Some(res) => res,
            None => Ok(()),
        }
    }
}

/// Executing CANCEL where no transaction is active calls nothing on any
/// transaction and succeeds, however often it is repeated.
pub proof fn lemma_cancel_without_transaction<E>()
    ensures
        call_for(false) is None,
        result_of::<E>(None) is Ok,
{
}

/// Executing CANCEL against an active transaction makes exactly one call, a
/// cancel, and its result is that call's outcome, success or failure.
pub proof fn lemma_cancel_propagates<E>(outcome: Result<(), E>)
    ensures
        call_for(true) == Some(TxnCall::Cancel),
        result_of(Some(outcome)) == outcome,
{
}

} // verus!
