//! One constrained quantity of an axis.

use vstd::prelude::*;

verus! {

/// A stretch weight, a size range and the size resolved within it.
#[derive(Clone, Copy, Debug, PartialEq, Eq, Structural)]
pub struct Item {
    /// Relative weight; zero is legal.
    pub stretch: u32,
    /// Lower bound of the resolved size.
    pub min_size: u32,
    /// Upper bound of the resolved size; a solve raises it to `min_size`
    /// where it was below.
    pub max_size: u32,
    /// The resolved size.
    pub current_size: u32,
}

impl Item {
    /// An unresolved item; the minimum defaults to zero and the maximum to
    /// the largest representable size.
    pub fn new(stretch: u32, min_size: Option<u32>, max_size: Option<u32>) -> (item: Self)
        ensures
            item.stretch == stretch,
            item.min_size == (match min_size {
                Some(m) => m,
                None => 0u32,
            }),
            item.max_size == (match max_size {
                Some(m) => m,
                None => u32::MAX,
            }),
            item.current_size == 0,
    {
        Item {
            stretch,
            min_size: match min_size {
                Some(m) => m,
                None => 0,
            },
            max_size: match max_size {
                Some(m) => m,
                None => u32::MAX,
            },
            current_size: 0,
        }
    }

    pub fn get_stretch(&self) -> (stretch: u32)
        ensures
            stretch == self.stretch,
    {
        self.stretch
    }

    pub fn get_min_size(&self) -> (min_size: u32)
        ensures
            min_size == self.min_size,
    {
        self.min_size
    }

    pub fn get_max_size(&self) -> (max_size: u32)
        ensures
            max_size == self.max_size,
    {
        self.max_size
    }

    pub fn get_current_size(&self) -> (current_size: u32)
        ensures
            current_size == self.current_size,
    {
        self.current_size
    }
}

impl Default for Item {
    /// Stretch 1 and no bound on the size.
    fn default() -> (item: Self)
        ensures
            item == (Item { stretch: 1, min_size: 0, max_size: u32::MAX, current_size: 0 }),
    {
        Item { stretch: 1, min_size: 0, max_size: u32::MAX, current_size: 0 }
    }
}

} // verus!
