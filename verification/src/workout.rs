use vstd::prelude::*;
use crate::cache::Cacher;

verus! {

broadcast use vstd::std_specs::hash::group_hash_axioms;

/// What a day's training is: a round of exercises, a rest day, or a run.
#[derive(Debug, PartialEq, Eq, Structural)]
pub enum Workout {
    Exercise { pushups: u32, situps: u32 },
    TakeABreak,
    Run { minutes: u32 },
}

/// Decides the day's workout from the requested intensity and the day's
/// random number, memoizing the (simulated) expensive intensity calculation
/// so that it runs at most once however many numbers the plan needs.
pub fn generate_workout(intensity: u32, random_number: u32) -> (w: Workout)
    ensures
        intensity < 25 ==> w == (Workout::Exercise { pushups: intensity, situps: intensity }),
        intensity >= 25 && random_number == 3 ==> w == Workout::TakeABreak,
        intensity >= 25 && random_number != 3 ==> w == (Workout::Run { minutes: intensity }),
{
    let expensive_closure = |num: u32| -> (r: u32)
        ensures
            r == num,
        { num };
    let mut cache = Cacher::new(expensive_closure);
    if intensity < 25 {
        let pushups = cache.value(intensity);
        let situps = cache.value(intensity);
        Workout::Exercise { pushups, situps }
    } else if random_number == 3 {
        Workout::TakeABreak
    } else {
        Workout::Run { minutes: cache.value(intensity) }
    }
}

} // verus!
