//! Kinds of filters the player can apply.
use vstd::prelude::*;

verus! {

/// A kind of filter.
#[derive(Clone, Copy, Debug, PartialEq, Eq, Structural)]
pub enum FilterType {
    Lowpass,
}

impl FilterType {
    /// The name of the filter, as shown to the user.
    pub fn name(&self) -> (r: &'static str)
        ensures
            r@ == (match *self {
                FilterType::Lowpass => "lowpass"@,
            }),
    {
        match self {
            FilterType::Lowpass => "lowpass",
        }
    }
}

} // verus!
