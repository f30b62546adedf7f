use exercises::arith::plus_one;
use exercises::fib::nth_fibonacci;
use exercises::fib::test_nth_fibonacci;
use exercises::list::merge_two_lists;
use exercises::list::ListNode;
use exercises::production::working_items_per_minute;
use exercises::rect::Rectangle;
use exercises::stats::get_mode;
use exercises::workout::generate_workout;
use exercises::workout::Workout;

#[test]
fn fibonacci_values() {
    test_nth_fibonacci();
    assert_eq!(nth_fibonacci(1), 1);
    assert_eq!(nth_fibonacci(2), 1);
    assert_eq!(nth_fibonacci(3), 2);
    assert_eq!(nth_fibonacci(4), 3);
    assert_eq!(nth_fibonacci(5), 5);
    assert_eq!(nth_fibonacci(6), 8);
    assert_eq!(nth_fibonacci(7), 13);
    assert_eq!(nth_fibonacci(8), 21);
    assert_eq!(nth_fibonacci(0), 0);
    assert_eq!(nth_fibonacci(-4), 0);
}

#[test]
fn plus_one_cases() {
    assert_eq!(plus_one(Some(5)), Some(6));
    assert_eq!(plus_one(None), None);
}

#[test]
fn rectangle_geometry() {
    let rect1 = Rectangle {
        width: 30,
        height: 50,
    };
    assert_eq!(rect1.area(), 1500);

    let rect2 = Rectangle {
        width: 70,
        height: 40,
    };
    assert!(!rect1.can_hold(&rect2));
    assert!(!rect2.can_hold(&rect1));

    let rect3 = Rectangle {
        width: 10,
        height: 40,
    };
    assert!(rect1.can_hold(&rect3));

    let square = Rectangle::square(3);
    assert_eq!(square.width, 3);
    assert_eq!(square.height, 3);
}

#[test]
fn merge_handles_empty_lists() {
    assert_eq!(merge_two_lists(None, None), None);

    let merged = merge_two_lists(None, Some(Box::new(ListNode::new(4))));
    assert_eq!(merged, Some(Box::new(ListNode::new(4))));
    let merged = merge_two_lists(Some(Box::new(ListNode::new(4))), None);
    assert_eq!(merged, Some(Box::new(ListNode::new(4))));
}

#[test]
fn merge_compares_heads() {
    let a = Some(Box::new(ListNode::new(1)));
    let b = Some(Box::new(ListNode::new(2)));
    let merged = merge_two_lists(a, b).unwrap();
    assert_eq!(merged.val, 1);
    assert_eq!(merged.next, None);

    let a = Some(Box::new(ListNode::new(5)));
    let b = Some(Box::new(ListNode::new(2)));
    let merged = merge_two_lists(a, b).unwrap();
    assert_eq!(merged.val, 3);
    assert_eq!(merged.next, None);
}

#[test]
fn mode_of_a_list() {
    assert_eq!(get_mode(&vec![2, 4, 5, 6, 7, 7]), 7);
    assert_eq!(get_mode(&vec![3, 6, 9, 8, 9]), 9);
    assert_eq!(get_mode(&vec![1]), 1);
}

#[test]
fn production_rates_per_speed() {
    assert_eq!(working_items_per_minute(0), 0);
    assert_eq!(working_items_per_minute(1), 3);
    assert_eq!(working_items_per_minute(4), 14);
    assert_eq!(working_items_per_minute(5), 16);
    assert_eq!(working_items_per_minute(6), 19);
    assert_eq!(working_items_per_minute(8), 26);
    assert_eq!(working_items_per_minute(9), 25);
    assert_eq!(working_items_per_minute(255), 723);
}

#[test]
fn workout_decisions() {
    assert_eq!(
        generate_workout(10, 7),
        Workout::Exercise {
            pushups: 10,
            situps: 10
        }
    );
    assert_eq!(generate_workout(30, 3), Workout::TakeABreak);
    assert_eq!(generate_workout(30, 7), Workout::Run { minutes: 30 });
}
