use vstd::prelude::*;

verus! {

/// The outcome of a future that must complete within a duration.
#[derive(Debug)]
pub enum TimeoutResult<O, E> {
    /// The duration elapsed first.
    Timeout,

    /// The future resulted in an error.
    Error(E),

    /// The future resolved correctly with a success value.
    Success(O),
}

impl<O, E> TimeoutResult<O, E> {
    /// Classifies what a future gave within the duration: nothing (the
    /// duration elapsed), an error, or a success value.
    pub fn from_outcome(outcome: Option<Result<O, E>>) -> (r: Self)
        ensures
            match outcome {
                None => r is Timeout,
                Some(Err(e)) => r == TimeoutResult::<O, E>::Error(e),
                Some(Ok(o)) => r == TimeoutResult::<O, E>::Success(o),
            },
    {
        match outcome {
            Some(res) => match res {
                Ok(o) => TimeoutResult::Success(o),
                Err(err) => TimeoutResult::Error(err),
            },
            None => TimeoutResult::Timeout,
        }
    }
}

} // verus!
