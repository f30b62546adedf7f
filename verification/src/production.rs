use vstd::prelude::*;

verus! {

/// Items a machine finishes per minute at the given speed setting: the
/// machine produces 221 items per hour per speed unit, of which 90% are
/// usable at speeds five through eight and 77% at other speeds above four
/// or at zero; the hourly count is spread over 60 minutes and truncated.
pub fn working_items_per_minute(speed: u8) -> (r: u32)
    ensures
        1 <= speed <= 4 ==> r == speed * 221 / 60,
        5 <= speed <= 8 ==> r == speed * 1989 / 600,
        speed == 0 || speed > 8 ==> r == speed * 17017 / 6000,
{
    let s = speed as u32;
    if 1 <= speed && speed <= 4 {
        s * 221 / 60
    } else if 5 <= speed && speed <= 8 {
        s * 1989 / 600
    } else {
        s * 17017 / 6000
    }
}

} // verus!
