use idempotency_kit::{Claim, Span};

#[test]
fn claim_variants_are_constructible_and_comparable() {
    assert_eq!(Claim::First, Claim::First);
    assert_eq!(
        Claim::Replay(b"resp".to_vec()),
        Claim::Replay(b"resp".to_vec())
    );
    assert_ne!(Claim::First, Claim::InFlight);
    let debug = format!("{:?}", Claim::Replay(vec![1]));
    assert!(debug.contains("Replay"));
}

#[test]
fn spans_are_exact() {
    assert_eq!(Span::from_millis(1_500), Span::new(1, 500_000_000));
    assert_eq!(Span::from_secs(2).as_nanos(), 2_000_000_000);
    assert_eq!(Span::from_millis(80).as_nanos(), 80_000_000);
    assert_eq!(Span::from_millis(1_999).as_secs(), 1);
    assert_eq!(
        Span::new(u64::MAX, 999_999_999).as_nanos(),
        18_446_744_073_709_551_615_999_999_999
    );
}
