use crate::error::CursorError;
use vstd::prelude::*;

verus! {

/// What one step of a decode hands back.
#[derive(Debug, PartialEq, Eq)]
pub enum Step<T> {
    /// The decode is complete.
    Done(T),
    /// The window does not hold the bytes that the decode needs. The host
    /// reads `[start, end)` from the source, hands the outcome to
    /// `load_chunk`, and repeats the call with `resume` as its argument
    /// (decodes without such an argument always report `None`).
    Load { start: u64, end: u64, resume: Option<u32> },
}

impl<T: View> View for Step<T> {
    type V = Step<T::V>;

    open spec fn view(&self) -> Step<T::V> {
        match *self {
            Step::Done(value) => Step::Done(value@),
            Step::Load { start, end, resume } => Step::Load { start, end, resume },
        }
    }
}

/// The result of a decode step with its value taken by its view.
pub open spec fn decoded<T: View>(result: Result<Step<T>, CursorError>) -> Result<
    Step<T::V>,
    CursorError,
> {
    match result {
        Ok(step) => Ok(step@),
        Err(error) => Err(error),
    }
}

} // verus!
