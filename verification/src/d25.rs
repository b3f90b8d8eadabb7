//! Day 25: the text adventure.  The exploration itself is interactive and
//! lives with the driver; the answer found by playing is recorded here.
use vstd::prelude::*;

verus! {

/// The airlock password discovered by exploring the ship by hand.
pub fn part_a() -> (r: u64)
    ensures
        r == 8462464,
{
    8462464
}

} // verus!
