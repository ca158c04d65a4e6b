use countdown::duration::Duration;

#[test]
fn builds_from_seconds_and_milliseconds() {
    assert_eq!(Duration::zero().as_nanos(), 0);
    assert_eq!(Duration::from_secs(5).as_nanos(), 5_000_000_000);
    assert_eq!(Duration::from_millis(1_500).as_nanos(), 1_500_000_000);
    assert_eq!(Duration::from_millis(1_500).as_secs(), 1);
    assert_eq!(Duration::from_millis(1_500).subsec_nanos(), 500_000_000);
    assert_eq!(Duration::from_millis(1_500).subsec_millis(), 500);
    assert_eq!(Duration::from_millis(999).as_secs(), 0);
    assert_eq!(Duration::from_millis(1_000), Duration::from_secs(1));
    assert_eq!(
        Duration::from_secs(u64::MAX).as_nanos(),
        18_446_744_073_709_551_615_000_000_000
    );
    assert_eq!(
        Duration::from_millis(u64::MAX).as_nanos(),
        18_446_744_073_709_551_615_000_000
    );
}

#[test]
fn agrees_with_the_standard_duration() {
    for millis in [0u64, 1, 999, 1_000, 1_001, 86_400_000, u64::MAX] {
        let ours = Duration::from_millis(millis);
        let theirs = std::time::Duration::from_millis(millis);
        assert_eq!(ours.as_secs(), theirs.as_secs());
        assert_eq!(ours.subsec_nanos(), theirs.subsec_nanos());
        assert_eq!(ours.subsec_millis(), theirs.subsec_millis());
        assert_eq!(ours.as_nanos(), theirs.as_nanos());
    }
    assert_eq!(
        Duration::from_secs(u64::MAX)
            .checked_add(Duration::from_millis(999))
            .map(|d| d.as_nanos()),
        std::time::Duration::from_secs(u64::MAX)
            .checked_add(std::time::Duration::from_millis(999))
            .map(|d| d.as_nanos())
    );
    assert_eq!(std::time::Duration::MAX.as_nanos(), 18_446_744_073_709_551_615_999_999_999);
}

#[test]
fn tells_zero_from_the_rest() {
    assert!(Duration::zero().is_zero());
    assert!(Duration::from_secs(0).is_zero());
    assert!(!Duration::from_millis(1).is_zero());
    assert!(!Duration::from_secs(1).is_zero());
}

#[test]
fn compares_by_length() {
    assert!(Duration::from_millis(999).le(&Duration::from_secs(1)));
    assert!(Duration::from_secs(1).le(&Duration::from_secs(1)));
    assert!(!Duration::from_millis(1_001).le(&Duration::from_secs(1)));
    assert!(Duration::from_millis(1_999).le(&Duration::from_secs(2)));
    assert!(!Duration::from_secs(2).le(&Duration::from_millis(1_999)));
}

#[test]
fn adds_with_carry() {
    assert_eq!(
        Duration::from_millis(700).checked_add(Duration::from_millis(800)),
        Some(Duration::from_millis(1_500))
    );
    assert_eq!(
        Duration::from_millis(500).checked_add(Duration::from_millis(500)),
        Some(Duration::from_secs(1))
    );
    assert_eq!(
        Duration::from_secs(1).checked_add(Duration::zero()),
        Some(Duration::from_secs(1))
    );
}

#[test]
fn addition_detects_overflow() {
    let longest_whole = Duration::from_secs(u64::MAX);
    assert_eq!(longest_whole.checked_add(Duration::from_secs(1)), None);
    assert_eq!(longest_whole.checked_add(Duration::from_millis(1_000)), None);
    let nearly = longest_whole.checked_add(Duration::from_millis(999)).unwrap();
    assert_eq!(nearly.as_nanos(), 18_446_744_073_709_551_615_999_000_000);
    assert_eq!(nearly.checked_add(Duration::from_millis(1)), None);
    assert_eq!(nearly.checked_add(Duration::zero()), Some(nearly));
    assert_eq!(
        Duration::from_secs(u64::MAX - 1).checked_add(Duration::from_millis(1_999)),
        longest_whole.checked_add(Duration::from_millis(999))
    );
}

#[test]
fn subtracts_with_borrow() {
    assert_eq!(
        Duration::from_millis(1_500).checked_sub(Duration::from_millis(700)),
        Some(Duration::from_millis(800))
    );
    assert_eq!(
        Duration::from_secs(2).checked_sub(Duration::from_millis(1)),
        Some(Duration::from_millis(1_999))
    );
    assert_eq!(
        Duration::from_secs(1).checked_sub(Duration::from_secs(1)),
        Some(Duration::zero())
    );
    assert_eq!(Duration::from_millis(999).checked_sub(Duration::from_secs(1)), None);
    assert_eq!(Duration::from_millis(1_200).checked_sub(Duration::from_millis(1_300)), None);
    assert_eq!(Duration::zero().checked_sub(Duration::from_millis(1)), None);
}

#[test]
fn saturating_subtraction_stops_at_zero() {
    assert_eq!(
        Duration::from_secs(3).saturating_sub(Duration::from_secs(1)),
        Duration::from_secs(2)
    );
    assert_eq!(
        Duration::from_millis(500).saturating_sub(Duration::from_secs(1)),
        Duration::zero()
    );
    assert_eq!(Duration::zero().saturating_sub(Duration::from_secs(1)), Duration::zero());
    assert_eq!(
        Duration::from_millis(1_500).saturating_sub(Duration::from_secs(1)),
        Duration::from_millis(500)
    );
}
