#[test]
fn iterator_demonstration() {
    let vec = vec![1, 2, 3];
    // mut is necessary because next() changes the internal state.
    let mut iter = vec.iter();

    assert_eq!(iter.next(), Some(&1));
    assert_eq!(iter.next(), Some(&2));
    assert_eq!(iter.next(), Some(&3));
    assert_eq!(iter.next(), None);
}

#[test]
fn iterator_sum() {
    let vec = vec![1, 2, 3];
    let total: u32 = vec.iter().sum();
    assert_eq!(total, 6);
}

#[test]
fn iterator_map() {
    let v1 = vec![1, 2, 3];
    let v1_iter = v1.iter();
    let v1_iterated: Vec<u32> = v1_iter.map(|x| x + 1).collect();
    assert_eq!(v1_iterated, vec![2, 3, 4]);
    let total: u32 = v1_iterated.iter().sum();
    assert_eq!(total, 9);
}
