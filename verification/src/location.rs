//! Naming a detected place (the coordinates themselves are handled outside,
//! in floating point).
use vstd::prelude::*;
use crate::text::{owned, push_str};

verus! {

/// The label of a place: "city, country", or whichever of the two is known.
pub open spec fn label_text(city: Option<String>, country: Option<String>) -> Option<Seq<char>> {
    match (city, country) {
        (Some(c), Some(k)) => Some(c@ + ", "@ + k@),
        (Some(c), None) => Some(c@),
        (None, Some(k)) => Some(k@),
        (None, None) => None,
    }
}

/// The label shown for a detected place.
pub fn place_label(city: Option<String>, country: Option<String>) -> (r: Option<String>)
    ensures
        match label_text(city, country) {
            Some(t) => r matches Some(s) && s@ == t,
            None => r is None,
        },
{
    match (city, country) {
        (Some(c), Some(k)) => {
            let mut s = owned(c.as_str());
            push_str(&mut s, ", ");
            push_str(&mut s, k.as_str());
            Some(s)
        },
        (Some(c), None) => Some(c),
        (None, Some(k)) => Some(k),
        (None, None) => None,
    }
}

} // verus!
