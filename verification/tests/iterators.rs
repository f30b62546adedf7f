use exercises::counter::Counter;

#[test]
fn filters_by_size() {
    let mut counter = Counter::new();
    assert_eq!(counter.value, 0);
    assert_eq!(counter.next(), Some(1));
    assert_eq!(counter.next(), Some(2));
    assert_eq!(counter.next(), Some(3));
    assert_eq!(counter.next(), Some(4));
    assert_eq!(counter.next(), Some(5));
    assert_eq!(counter.next(), None);
}

#[test]
fn using_other_iterator_trait_methods() {
    let mut first = Counter::new();
    let mut second = Counter::new();
    second.next();
    let mut sum: u32 = 0;
    loop {
        match (first.next(), second.next()) {
            // (1, 2), (2, 3), (3, 4), (4, 5)
            (Some(a), Some(b)) => {
                let product = a * b;
                //  2, 6, 12, 20
                if product % 3 == 0 {
                    // 6, 12
                    sum += product;
                }
            }
            _ => break,
        }
    }
    assert_eq!(18, sum);
}
