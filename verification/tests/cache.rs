use std::cell::Cell;

use exercises::cache::new_fallible;
use exercises::cache::try_value;
use exercises::cache::Cacher;

#[test]
fn call_with_different_values() {
    let mut c = Cacher::new(|a: u32| a);

    let v1 = c.value(1);
    assert_eq!(v1, 1);

    let v2 = c.value(2);
    assert_eq!(v2, 2);
}

#[test]
fn same_key_computes_once() {
    let calls = Cell::new(0u32);
    let mut c = Cacher::new(|a: u32| {
        calls.set(calls.get() + 1);
        a * 10
    });

    let first = c.value(7);
    let second = c.value(7);
    assert_eq!(calls.get(), 1);
    assert_eq!(first, 70);
    assert_eq!(second, 70);
}

#[test]
fn distinct_keys_compute_separately() {
    let calls = Cell::new(0u32);
    let mut c = Cacher::new(|a: u32| {
        calls.set(calls.get() + 1);
        a * 10
    });

    assert_eq!(c.value(1), 10);
    assert_eq!(c.value(2), 20);
    assert_eq!(calls.get(), 2);
}

#[test]
fn identity_cache_scenario() {
    let mut c = Cacher::new(|x: u32| x);
    assert_eq!(c.value(1), 1);
    assert_eq!(c.value(2), 2);
    assert_eq!(c.value(1), 1);
}

#[test]
fn failure_is_not_stored() {
    let calls = Cell::new(0u32);
    let mut c = new_fallible(|a: u32| {
        calls.set(calls.get() + 1);
        if calls.get() == 1 {
            Err(String::from("first attempt fails"))
        } else {
            Ok(a * 10)
        }
    });

    assert_eq!(try_value(&mut c, 4), Err(String::from("first attempt fails")));
    assert_eq!(try_value(&mut c, 4), Ok(40));
    assert_eq!(calls.get(), 2);
    // the stored value is now served without a third call
    assert_eq!(try_value(&mut c, 4), Ok(40));
    assert_eq!(calls.get(), 2);
}

#[test]
fn many_keys_do_not_evict_the_first() {
    let calls = Cell::new(0u32);
    let mut c = Cacher::new(|a: u32| {
        calls.set(calls.get() + 1);
        a + 1000
    });

    assert_eq!(c.value(0), 1000);
    for k in 1..100u32 {
        c.value(k);
    }
    assert_eq!(calls.get(), 100);
    // re-querying the first key hits the stored value: no new call
    assert_eq!(c.value(0), 1000);
    assert_eq!(calls.get(), 100);
}
