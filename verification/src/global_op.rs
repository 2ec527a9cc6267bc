//! The global "operation ongoing" flag.
//!
//! Planning endpoints require the flag set, claiming endpoints require it
//! clear; the owner toggles it around a batch of planning calls.

use vstd::prelude::*;

use crate::errors::ContractError;

verus! {

/// Coordination flag shared by the planning and claiming endpoints.
pub struct GlobalOperationModule {
    ongoing: bool,
}

impl GlobalOperationModule {
    pub closed spec fn is_ongoing(self) -> bool {
        self.ongoing
    }

    /// A fresh flag: no global operation in progress.
    pub fn new() -> (r: GlobalOperationModule)
        ensures
            !r.is_ongoing(),
    {
        GlobalOperationModule { ongoing: false }
    }

    /// Marks the start of a global operation.
    pub fn start(&mut self)
        ensures
            final(self).is_ongoing(),
    {
        self.ongoing = true;
    }

    /// Marks the end of a global operation.
    pub fn stop(&mut self)
        ensures
            !final(self).is_ongoing(),
    {
        self.ongoing = false;
    }

    /// Fails with a state error unless a global operation is ongoing.
    pub fn require_ongoing(&self) -> (r: Result<(), ContractError>)
        ensures
            r.is_ok() <==> self.is_ongoing(),
            r.is_err() ==> r == Err::<(), ContractError>(ContractError::StateError),
    {
        if self.ongoing {
            Ok(())
        } else {
            Err(ContractError::StateError)
        }
    }

    /// Fails with a state error if a global operation is ongoing.
    pub fn require_not_ongoing(&self) -> (r: Result<(), ContractError>)
        ensures
            r.is_ok() <==> !self.is_ongoing(),
            r.is_err() ==> r == Err::<(), ContractError>(ContractError::StateError),
    {
        if !self.ongoing {
            Ok(())
        } else {
            Err(ContractError::StateError)
        }
    }
}

} // verus!
