//! The titlebar's back and forward buttons.

use vstd::prelude::*;

verus! {

/// One of the titlebar's browser-like navigation directions.
#[derive(Debug, Clone, Copy, PartialEq, Eq, Structural)]
pub enum NavigationDirection {
    Back,
    Forward,
}

/// The human-readable label of a direction.
pub fn label(direction: NavigationDirection) -> (r: &'static str)
    ensures
        r@ == match direction {
            NavigationDirection::Back => "Back"@,
            NavigationDirection::Forward => "Forward"@,
        },
{
    match direction {
        NavigationDirection::Back => "Back",
        NavigationDirection::Forward => "Forward",
    }
}

} // verus!
