//! The response envelope every endpoint returns.

use vstd::prelude::*;

verus! {

/// Exactly one of two shapes: a success carrying a payload, or a failure
/// carrying a human-readable message — never both. The two variants are
/// rendered at the transport layer as `{ success: true, data: … }` and
/// `{ success: false, err: … }`.
#[derive(Debug)]
pub enum AppResp<T> {
    Success(T),
    Exception(String),
}

impl<T> AppResp<T> {
    /// Whether this envelope is the success shape.
    pub fn is_success(&self) -> (r: bool)
        ensures
            r == (self is Success),
    {
        match self {
            AppResp::Success(_) => true,
            AppResp::Exception(_) => false,
        }
    }
}

} // verus!
