use vstd::prelude::*;

verus! {

/// The failure taxonomy every operation surfaces. `NotFound` says the root
/// entity is absent (or filtered out); `PreconditionFailed` says a state
/// transition or uniqueness rule was violated; `StoreFailure` is an
/// underlying storage fault; `PartialMatch` reports the subset of requested
/// ids that could not be found by a batch membership addition.
#[derive(Debug)]
pub enum DomainError {
    NotFound,
    PreconditionFailed,
    StoreFailure,
    PartialMatch(Vec<i32>),
}

impl DomainError {
    pub fn is_not_found(&self) -> (r: bool)
        ensures
            r == (self is NotFound),
    {
        match self {
            DomainError::NotFound => true,
            _ => false,
        }
    }

    pub fn is_precondition_failed(&self) -> (r: bool)
        ensures
            r == (self is PreconditionFailed),
    {
        match self {
            DomainError::PreconditionFailed => true,
            _ => false,
        }
    }
}

} // verus!
