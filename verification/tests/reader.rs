use cleese::irc::connection::{ReaderAction, ReaderPolicy};

#[test]
fn five_failures_stop_the_reader() {
    let mut p = ReaderPolicy::new();
    for _ in 0..4 {
        let a = p.on_read(false);
        assert!(matches!(a, ReaderAction::Retry));
    }
    let a = p.on_read(false);
    assert!(matches!(a, ReaderAction::Stop));
    assert_eq!(p.failures, 5);
}

#[test]
fn success_resets_the_failure_counter() {
    let mut p = ReaderPolicy::new();
    let a = p.on_read(false);
    assert!(matches!(a, ReaderAction::Retry));
    assert_eq!(p.failures, 1);
    let a = p.on_read(true);
    assert!(matches!(a, ReaderAction::Deliver));
    assert_eq!(p.failures, 0);
}
