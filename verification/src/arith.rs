use vstd::prelude::*;

verus! {

/// Adds two to a machine integer.
pub fn add_two(a: i32) -> (r: i32)
    requires
        a + 2 <= i32::MAX,
    ensures
        r == a + 2,
{
    a + 2
}

/// Increments the value inside an `Option`, passing `None` through.
pub fn plus_one(num: Option<i32>) -> (r: Option<i32>)
    requires
        num matches Some(i) ==> i + 1 <= i32::MAX,
    ensures
        num is None ==> r is None,
        num matches Some(i) ==> r matches Some(j) && j == i + 1,
{
    match num {
        None => None,
        Some(i) => Some(i + 1),
    }
}

} // verus!
