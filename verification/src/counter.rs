use vstd::prelude::*;

verus! {

/// A counter that yields the numbers one through five, then stops.
#[derive(PartialEq, Debug)]
pub struct Counter {
    pub value: u32,
}

impl Counter {
    /// Builds a counter that has yielded nothing yet.
    pub fn new() -> (r: Self)
        ensures
            r.value == 0,
    {
        Counter { value: 0 }
    }

    /// Yields the next number, or `None` once five numbers have been yielded.
    pub fn next(&mut self) -> (r: Option<u32>)
        ensures
            old(self).value < 5 ==> final(self).value == old(self).value + 1 && r == Some(
                final(self).value,
            ),
            old(self).value >= 5 ==> final(self).value == old(self).value && r is None,
    {
        if self.value < 5 {
            self.value = self.value + 1;
            Some(self.value)
        } else {
            None
        }
    }
}

} // verus!
