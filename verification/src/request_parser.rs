//! What is kept of a reply besides the reply itself.
use vstd::prelude::*;

verus! {

/// A lightweight summary that can be taken from a reply of type `Response`.
pub trait FromResponse<Response>: Sized {
    /// The summary of `response`.
    spec fn spec_from_response(response: Response) -> Self;

    /// The summary of `response`.
    fn from_response(response: &Response) -> (r: Self)
        ensures
            r == Self::spec_from_response(*response),
    ;
}

} // verus!
