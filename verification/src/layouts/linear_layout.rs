//! The directions in which a linear layout puts one child after another.

use vstd::prelude::*;

verus! {

/// The side a linear layout starts from and the side it runs to.
#[derive(Copy, Clone, Eq, PartialEq, Debug, Structural)]
pub enum LinearLayoutDirection {
    LeftToRight,
    RightToLeft,
    TopToBottom,
    BotomToTop,
}

} // verus!
