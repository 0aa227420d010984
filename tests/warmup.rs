use deet::warmup::{add_n, add_n_inplace, dedup};

#[test]
fn test_add_n() {
    assert_eq!(add_n(vec![1], 2), vec![3]);
}

#[test]
fn test_add_n_inplace() {
    let mut v = vec![1];
    add_n_inplace(&mut v, 2);
    assert_eq!(v, vec![3]);
}

#[test]
fn test_dedup() {
    let mut v = vec![3, 1, 0, 1, 4, 4];
    dedup(&mut v);
    assert_eq!(v, vec![3, 1, 0, 4]);
}

#[test]
fn add_n_negative_and_empty() {
    assert_eq!(add_n(vec![5, -5, 0], -3), vec![2, -8, -3]);
    assert_eq!(add_n(Vec::new(), 7), Vec::<i32>::new());
}

#[test]
fn dedup_empty_and_all_equal() {
    let mut v: Vec<i32> = Vec::new();
    dedup(&mut v);
    assert!(v.is_empty());
    let mut w = vec![9, 9, 9];
    dedup(&mut w);
    assert_eq!(w, vec![9]);
}
