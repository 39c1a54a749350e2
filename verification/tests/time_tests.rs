use aide_de_camp::{Span, StdDuration, Timestamp};

#[test]
fn span_constructors() {
    assert_eq!(Span::milliseconds(5).as_nanos(), 5_000_000);
    assert_eq!(Span::seconds(2).as_nanos(), 2_000_000_000);
    assert_eq!(Span::minutes(1).as_nanos(), 60_000_000_000);
    assert_eq!(Span::hours(-1).as_nanos(), -3_600_000_000_000);
    assert_eq!(Span::days(1).as_nanos(), 86_400_000_000_000);
    assert_eq!(Span::zero().as_nanos(), 0);
}

#[test]
fn span_seconds_round_down() {
    let s = Span::milliseconds(-1500);
    assert_eq!(s.whole_secs(), -2);
    assert_eq!(s.subsec_nanos(), 500_000_000);
    let s = Span::milliseconds(1500);
    assert_eq!(s.whole_secs(), 1);
    assert_eq!(s.subsec_nanos(), 500_000_000);
}

#[test]
fn span_addition_is_checked() {
    let a = Span::milliseconds(i64::MAX);
    assert!(a.checked_add(&Span::milliseconds(1)).is_none());
    assert_eq!(
        Span::seconds(1).checked_add(&Span::milliseconds(-250)).unwrap().as_nanos(),
        750_000_000
    );
    assert!(Span::from_nanos(i128::MAX).is_none());
}

#[test]
fn span_to_std() {
    let d = Span::milliseconds(2500).to_std().unwrap();
    assert_eq!(d.as_secs(), 2);
    assert_eq!(d.subsec_nanos(), 500_000_000);
    assert!(Span::milliseconds(-1).to_std().is_none());
}

#[test]
fn std_duration_constructors() {
    let d = StdDuration::new(1, 2_500_000_000);
    assert_eq!(d.as_secs(), 3);
    assert_eq!(d.subsec_nanos(), 500_000_000);
    assert_eq!(StdDuration::from_millis(1234).as_secs(), 1);
    assert_eq!(StdDuration::from_millis(1234).subsec_nanos(), 234_000_000);
    assert_eq!(StdDuration::from_secs(7).as_secs(), 7);
}

#[test]
fn timestamp_order_and_addition() {
    let t = Timestamp::new(100, 500);
    assert!(t.before(&Timestamp::new(100, 501)));
    assert!(!t.before(&t));
    assert!(t.not_after(&t));
    assert!(Timestamp::new(99, 999_999_999).before(&t));
    let later = t.checked_add(&Span::milliseconds(1500)).unwrap();
    assert_eq!(later, Timestamp::new(101, 500_000_500));
    let earlier = t.checked_add(&Span::milliseconds(-1)).unwrap();
    assert_eq!(earlier, Timestamp::new(99, 999_000_500));
    assert!(Timestamp::new(i64::MAX, 0).checked_add(&Span::zero()).is_none());
}

#[test]
fn xid_parse() {
    let id = aide_de_camp::Xid::parse("9m4e2mr0ui3e8a215n4g").unwrap();
    assert_eq!(
        id.raw,
        [0x4d, 0x88, 0xe1, 0x5b, 0x60, 0xf4, 0x86, 0xe4, 0x28, 0x41, 0x2d, 0xc9]
    );
    assert!(aide_de_camp::Xid::parse("9m4e2mr0ui3e8a215n4").is_none());
    assert!(aide_de_camp::Xid::parse("9m4e2mr0ui3e8a215n4z").is_none());
    assert!(id.same(&id));
    assert!(!id.same(&aide_de_camp::Xid { raw: [0; 12] }));
}
