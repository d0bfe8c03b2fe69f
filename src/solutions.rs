use vstd::prelude::*;

verus! {

/// The first part of the first day's puzzle: no answer yet.
pub fn part_one(input: &str) -> (r: Option<u64>)
    ensures
        r is None,
{
    None
}

/// The second part of the first day's puzzle: no answer yet.
pub fn part_two(input: &str) -> (r: Option<u64>)
    ensures
        r is None,
{
    None
}

/// The third part of the first day's puzzle: no answer yet.
pub fn part_three(input: &str) -> (r: Option<u64>)
    ensures
        r is None,
{
    None
}

} // verus!
