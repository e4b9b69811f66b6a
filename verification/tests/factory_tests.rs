use tcp_reactor::SequentialTokenFactory;

#[test]
fn factory_starts_at_one() {
    let mut f = SequentialTokenFactory::new();
    let t = f.produce();
    assert_eq!(t.0, 1);
}

#[test]
fn factory_tokens_strictly_increase() {
    let mut f = SequentialTokenFactory::new();
    let t1 = f.produce();
    let t2 = f.produce();
    let t3 = f.produce();
    assert!(t2.0 > t1.0);
    assert!(t3.0 > t2.0);
    assert_eq!((t1.0, t2.0, t3.0), (1, 2, 3));
}

#[test]
fn factory_never_reuses_a_value() {
    let mut f = SequentialTokenFactory::new();
    let mut seen = Vec::new();
    for _ in 0..100 {
        let t = f.produce();
        assert!(!seen.contains(&t.0));
        seen.push(t.0);
    }
}
