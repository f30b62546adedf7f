use vstd::prelude::*;

verus! {

/// How many times `x` occurs in `s`.
pub open spec fn count_of(s: Seq<i32>, x: i32) -> nat
    decreases s.len(),
{
    if s.len() == 0 {
        0
    } else {
        count_of(s.drop_last(), x) + if s.last() == x {
            1nat
        } else {
            0nat
        }
    }
}

/// An element that occurs in a sequence occurs at least once.
proof fn lemma_contains_count(s: Seq<i32>, x: i32)
    requires
        s.contains(x),
    ensures
        count_of(s, x) >= 1,
    decreases s.len(),
{
    if s.last() != x {
        let j = choose|j: int| 0 <= j < s.len() && s[j] == x;
        assert(s.drop_last()[j] == x);
        lemma_contains_count(s.drop_last(), x);
    }
}

/// Counts how many times `x` occurs in `v`.
fn count_occurrences(v: &Vec<i32>, x: i32) -> (c: usize)
    ensures
        c == count_of(v@, x),
{
    let mut c: usize = 0;
    let mut i: usize = 0;
    while i < v.len()
        invariant
            i <= v.len(),
            c == count_of(v@.take(i as int), x),
            c <= i,
        decreases v.len() - i,
    {
        proof {
            assert(v@.take(i as int + 1).drop_last() =~= v@.take(i as int));
            assert(v@.take(i as int + 1).last() == v@[i as int]);
        }
        if v[i] == x {
            c = c + 1;
        }
        i = i + 1;
    }
    proof {
        assert(v@.take(v@.len() as int) =~= v@);
    }
    c
}

/// The mode of a non-empty list: an element that occurs at least as often
/// as every other element.  When several elements share the highest count,
/// which of them is returned is not specified.
pub fn get_mode(vec: &Vec<i32>) -> (mode: i32)
    requires
        vec.len() > 0,
    ensures
        vec@.contains(mode),
        forall|x: i32| vec@.contains(x) ==> count_of(vec@, x) <= count_of(vec@, mode),
{
    let mut max: usize = 0;
    let mut res: i32 = vec[0];
    let mut i: usize = 0;
    while i < vec.len()
        invariant
            vec.len() > 0,
            i <= vec.len(),
            i == 0 ==> max == 0,
            i > 0 ==> vec@.contains(res) && max == count_of(vec@, res),
            forall|j: int| 0 <= j < i ==> count_of(vec@, #[trigger] vec@[j]) <= max,
        decreases vec.len() - i,
    {
        proof {
            assert(vec@.contains(vec@[i as int]));
            lemma_contains_count(vec@, vec@[i as int]);
        }
        let c = count_occurrences(vec, vec[i]);
        if c > max {
            max = c;
            res = vec[i];
        }
        i = i + 1;
    }
    proof {
        assert forall|x: i32| vec@.contains(x) implies count_of(vec@, x) <= count_of(
            vec@,
            res,
        ) by {
            let j = choose|j: int| 0 <= j < vec@.len() && vec@[j] == x;
            assert(count_of(vec@, vec@[j]) <= max);
        }
    }
    res
}

} // verus!
