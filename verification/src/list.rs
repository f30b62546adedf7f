use vstd::prelude::*;

verus! {

/// A node of a singly-linked list of integers.
#[derive(PartialEq, Eq, Debug)]
pub struct ListNode {
    pub val: i32,
    pub next: Option<Box<ListNode>>,
}

impl ListNode {
    /// A node holding `val` with no successor.
    #[inline]
    pub fn new(val: i32) -> (r: Self)
        ensures
            r.val == val,
            r.next is None,
    {
        ListNode { next: None, val }
    }
}

/// Merges the heads of two sorted lists.
///
/// Only the head comparison is implemented: when either list is empty the
/// other is returned whole; otherwise a single node with no successor is
/// returned, holding the first head value when it is the smaller one and a
/// placeholder value of `3` when it is not.  The tails are not traversed.
pub fn merge_two_lists(list1: Option<Box<ListNode>>, list2: Option<Box<ListNode>>) -> (r: Option<
    Box<ListNode>,
>)
    ensures
        list1 is None ==> r == list2,
        list1 is Some && list2 is None ==> r == list1,
        list1 matches Some(n1) ==> list2 matches Some(n2) ==> n1.val < n2.val ==> (r matches Some(m)
            && m.val == n1.val && m.next is None),
        list1 matches Some(n1) ==> list2 matches Some(n2) ==> n1.val >= n2.val ==> (r matches Some(
            m,
        ) && m.val == 3 && m.next is None),
{
    let n1 = match list1 {
        Some(n) => n,
        None => {
            return list2;
        },
    };
    let n2 = match list2 {
        Some(n) => n,
        None => {
            return Some(n1);
        },
    };
    if n1.val < n2.val {
        Some(Box::new(ListNode::new(n1.val)))
    } else {
        Some(Box::new(ListNode::new(3)))
    }
}

} // verus!
