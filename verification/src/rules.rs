//! The shape of a refused request: the code and the message of the first rule it breaks.
use vstd::prelude::*;
use crate::text::{blank, required_text};

verus! {

/// The first broken rule of a request, as its error code and message; `None` when the
/// request breaks none.
pub type Refusal = Option<(Seq<char>, Seq<char>)>;

/// A request refused with code `invalid` and `message`.
pub open spec fn invalid_because(message: Seq<char>) -> Refusal {
    Some(("invalid"@, message))
}

/// The refusal of a blank required field.
pub open spec fn required(field: Seq<char>, value: Seq<char>) -> Refusal {
    if blank(value) {
        invalid_because(required_text(field))
    } else {
        None
    }
}

/// The refusal of a request that `b` refuses only when `a` lets it through.
pub open spec fn then_check(a: Refusal, b: Refusal) -> Refusal {
    if a is Some {
        a
    } else {
        b
    }
}

} // verus!
