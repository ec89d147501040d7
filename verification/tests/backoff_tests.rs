use aws_iot_device_sdk::backoff_algo::BackoffAlgorithm;

#[test]
fn next_test() {
    let mut bfa = BackoffAlgorithm::new(1, 16, None);
    assert_eq!(bfa.next(), Some(1));
    assert_eq!(bfa.get(), 1);
    assert_eq!(bfa.next(), Some(2));
    assert_eq!(bfa.get(), 2);
    assert_eq!(bfa.next(), Some(4));
    assert_eq!(bfa.get(), 4);
    assert_eq!(bfa.next(), Some(8));
    assert_eq!(bfa.next(), Some(16));
    assert_eq!(bfa.get(), 16);
    assert_eq!(bfa.next(), None);
    assert_eq!(bfa.get(), 32);
}

#[test]
fn next_with_random_test() {
    let mut bfa = BackoffAlgorithm::new(8, 64, Some(rand::random::<u64>() as usize));
    println!("{}", bfa.get());
    assert!(bfa.next() <= Some(16));
    println!("{}", bfa.get());
    assert!(bfa.next() <= Some(32));
    println!("{}", bfa.get());
    assert!(bfa.next() <= Some(64));
    println!("{}", bfa.get());
}

#[test]
fn next_with_fixed_jitter() {
    let mut bfa = BackoffAlgorithm::new(8, 64, Some(5));
    assert_eq!(bfa.next(), Some(13));
    assert_eq!(bfa.next(), Some(21));
    assert_eq!(bfa.next(), Some(37));
    assert_eq!(bfa.next(), None);
    assert_eq!(bfa.get(), 69);
}
