use tunefold::domain::SECOND;
use tunefold::notices::{Notices, NOTICE_CAP, NOTICE_LIFETIME};

#[test]
fn notices_dedup_repeating_stream_errors() {
    let mut notices = Notices::default();
    let t0: u64 = 1000 * SECOND;
    notices.push("buffer overrun".to_string(), t0);
    notices.push("buffer overrun".to_string(), t0 + 2 * SECOND);
    assert_eq!(notices.items.len(), 1, "el mismo aviso no se duplica");
    assert!(
        notices.active(t0 + 9 * SECOND).contains("overrun"),
        "renovar alarga la vida del aviso"
    );
}

#[test]
fn notices_ring_evicts_oldest_and_expires() {
    let mut notices = Notices::default();
    let t0: u64 = 1000 * SECOND;
    for i in 0..NOTICE_CAP + 2 {
        notices.push(format!("error-{i}"), t0);
    }
    assert_eq!(notices.items.len(), NOTICE_CAP);
    assert!(!notices.active(t0).contains("error-0"));
    assert!(notices.active(t0).contains("error-4"));
    assert!(
        notices.active(t0 + NOTICE_LIFETIME + SECOND).is_empty(),
        "los avisos caducan solos"
    );
}

#[test]
fn notices_are_joined_in_order() {
    let mut notices = Notices::default();
    notices.push("uno".to_string(), 0);
    notices.push("dos".to_string(), SECOND);
    assert_eq!(notices.active(SECOND), "uno · dos");
    assert_eq!(notices.active(NOTICE_LIFETIME), "dos");
}

#[test]
fn any_live_notice_is_renewed() {
    let t0: u64 = 1000 * SECOND;
    let mut notices = Notices::default();
    notices.push("a".to_string(), t0);
    notices.push("b".to_string(), t0);
    notices.push("a".to_string(), t0 + 2 * SECOND);
    let items: Vec<(&str, u64)> =
        notices.items.iter().map(|n| (n.text.as_str(), n.expires)).collect();
    assert_eq!(items, vec![("a", t0 + 10 * SECOND), ("b", t0 + 8 * SECOND)]);
    assert_eq!(notices.active(t0 + 9 * SECOND), "a");
}

#[test]
fn expired_notices_come_back() {
    let mut notices = Notices::default();
    notices.push("a".to_string(), 0);
    notices.push("b".to_string(), SECOND);
    notices.push("a".to_string(), NOTICE_LIFETIME);
    assert_eq!(notices.active(NOTICE_LIFETIME), "b · a");
    let mut alone = Notices::default();
    alone.push("a".to_string(), 0);
    alone.push("a".to_string(), 2 * NOTICE_LIFETIME);
    assert_eq!(alone.items.len(), 1);
}
