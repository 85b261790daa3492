use minigrep::Cacher;
use std::cell::Cell;

#[test]
fn call_with_different_values() {
    let mut cacher = Cacher::new(|x| x);
    let v1 = cacher.value(1);
    let v2 = cacher.value(2);
    let v3 = cacher.value(3);
    let v4 = cacher.value(555);
    assert_eq!(v1, 1);
    assert_eq!(v2, 2);
    assert_eq!(v3, 3);
    assert_eq!(v4, 555);
}

#[test]
fn call_cacher_with_different_types() {
    let mut cacher = Cacher::new(|x| format!("{}", x));
    let v1 = cacher.value(1);
    assert_eq!(v1, "1")
}

#[test]
fn identity_sequence_invokes_once_per_distinct_input() {
    let counter = Cell::new(0u32);
    let mut cacher = Cacher::new(|x: u32| {
        counter.set(counter.get() + 1);
        x
    });
    let results = vec![
        cacher.value(1),
        cacher.value(2),
        cacher.value(3),
        cacher.value(1),
    ];
    assert_eq!(results, vec![1, 2, 3, 1]);
    assert_eq!(counter.get(), 3);
}

#[test]
fn counter_stays_at_input_count_over_repeated_rounds() {
    let counter = Cell::new(0u32);
    let mut cacher = Cacher::new(|x: u64| {
        counter.set(counter.get() + 1);
        x * 2
    });
    for _round in 0..4 {
        for input in 0..5u64 {
            assert_eq!(cacher.value(input), input * 2);
        }
    }
    assert_eq!(counter.get(), 5);
}

#[test]
fn side_effect_fires_once_for_a_repeated_query() {
    let counter = Cell::new(0u32);
    let mut cacher = Cacher::new(|x: u32| {
        counter.set(counter.get() + 1);
        x + 100
    });
    let first = cacher.value(5);
    let second = cacher.value(5);
    assert_eq!(first, 105);
    assert_eq!(second, 105);
    assert_eq!(counter.get(), 1);
}

#[test]
fn distinct_inputs_are_computed_independently() {
    let mut cacher = Cacher::new(|x: i32| x * x);
    assert_eq!(cacher.value(2), 4);
    assert_eq!(cacher.value(3), 9);
    assert_eq!(cacher.value(2), 4);
    assert_eq!(cacher.value(3), 9);
}

#[test]
fn caches_string_slice_lengths() {
    let mut cacher = Cacher::new(|s: &str| s.len());
    assert_eq!(cacher.value("moin"), 4);
    assert_eq!(cacher.value(""), 0);
    assert_eq!(cacher.value("moin"), 4);
}
