use rotate_keys::resource::{
    has_distinct_keys, is_deadline_representable, is_expired, is_expired_at, requeue, should_reconcile, RotateKeys,
    RotateKeysSpec, Target, Timestamp, LATEST_SECS,
};

fn resource(not_ready: bool, own_update: bool, last_success: Option<Timestamp>) -> RotateKeys {
    RotateKeys {
        spec: RotateKeysSpec { depth: 5, interval_seconds: 3600, targets: Vec::new() },
        not_ready,
        own_update,
        last_success,
    }
}

#[test]
fn never_rotated_is_expired() {
    assert!(is_expired_at(None, 3600, Timestamp { secs: 0, nanos: 0 }));
    assert!(is_expired(&resource(false, true, None)));
}

#[test]
fn expiry_after_the_interval() {
    let last = Some(Timestamp { secs: 1000, nanos: 500 });
    assert!(!is_expired_at(last, 3600, Timestamp { secs: 4600, nanos: 500 }));
    assert!(is_expired_at(last, 3600, Timestamp { secs: 4600, nanos: 501 }));
    assert!(!is_expired_at(last, 3600, Timestamp { secs: 2000, nanos: 0 }));
    assert!(is_expired_at(last, 3600, Timestamp { secs: 4601, nanos: 0 }));
}

#[test]
fn current_time_is_after_the_epoch() {
    let now = rotate_keys::resource::current_time();
    assert!(now.secs > 1_600_000_000);
    assert!(now.nanos < 1_000_000_000);
}

#[test]
fn recent_success_is_not_expired_now() {
    let obj = resource(false, true, Some(Timestamp { secs: 8_000_000_000_000, nanos: 0 }));
    assert!(!is_expired(&obj));
    let old = resource(false, true, Some(Timestamp { secs: 0, nanos: 0 }));
    assert!(is_expired(&old));
}

#[test]
fn reconcile_when_not_ready_or_changed_by_others() {
    assert!(should_reconcile(&resource(true, true, None)));
    assert!(should_reconcile(&resource(false, false, None)));
    assert!(!should_reconcile(&resource(false, true, None)));
}

#[test]
fn requeue_after_the_interval() {
    assert_eq!(requeue(&resource(false, true, None)), 3600);
}

#[test]
fn leap_seconds_leave_the_leap_when_the_interval_is_added() {
    // 23:59:60.5 plus one second is 00:00:00.5 of the next day.
    let leap = Some(Timestamp { secs: 86_399, nanos: 1_500_000_000 });
    assert!(!is_expired_at(leap, 1, Timestamp { secs: 86_400, nanos: 500_000_000 }));
    assert!(is_expired_at(leap, 1, Timestamp { secs: 86_400, nanos: 500_000_001 }));
    // Without an interval the moment stays within the leap second.
    assert!(!is_expired_at(leap, 0, Timestamp { secs: 86_399, nanos: 999_999_999 }));
    assert!(is_expired_at(leap, 0, Timestamp { secs: 86_400, nanos: 0 }));
}

#[test]
fn deadlines_past_the_last_representable_moment() {
    let near_end = resource(false, true, Some(Timestamp { secs: LATEST_SECS - 3600, nanos: 0 }));
    assert!(is_deadline_representable(&near_end));
    let past_end = resource(false, true, Some(Timestamp { secs: LATEST_SECS - 3599, nanos: 0 }));
    assert!(!is_deadline_representable(&past_end));
    assert!(is_deadline_representable(&resource(false, true, None)));
}

#[test]
fn templates_without_repeated_keys_are_maps() {
    let entries = vec![("a".to_string(), "1".to_string()), ("b".to_string(), "2".to_string())];
    assert!(has_distinct_keys(&entries));
    let twice = vec![("a".to_string(), "1".to_string()), ("a".to_string(), "2".to_string())];
    assert!(!has_distinct_keys(&twice));
    let spec = RotateKeysSpec {
        depth: 5,
        interval_seconds: 3600,
        targets: vec![Target {
            config_map_field: "keys.json".to_string(),
            name: "n".to_string(),
            namespace: "ns".to_string(),
            template: twice,
        }],
    };
    assert!(!spec.templates_are_maps());
}
