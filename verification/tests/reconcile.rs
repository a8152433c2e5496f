use rotate_keys::error::{KubeFailure, OperatorError};
use rotate_keys::key_set::{KeySet, PublicKey};
use rotate_keys::reconcile::{Child, Phase, Reconciliation, Request, Response};
use rotate_keys::resource::{RotateKeys, RotateKeysSpec, Target, Timestamp, LATEST_SECS};

fn target(namespace: &str) -> Target {
    Target {
        config_map_field: "keys.json".to_string(),
        name: "test".to_string(),
        namespace: namespace.to_string(),
        template: vec![("pem".to_string(), "{PEM}".to_string())],
    }
}

fn resource(not_ready: bool, own_update: bool, last_success: Option<Timestamp>, targets: Vec<Target>) -> RotateKeys {
    RotateKeys {
        spec: RotateKeysSpec { depth: 5, interval_seconds: 3600, targets },
        not_ready,
        own_update,
        last_success,
    }
}

fn own(data: Vec<(String, String)>) -> Response {
    Response::Fetched(Ok(Some(Child { own_update: true, data })))
}

fn missing() -> Response {
    Response::Fetched(Ok(None))
}

fn ok() -> Response {
    Response::Written(Ok(()))
}

fn failure(message: &str, source: Option<&str>) -> KubeFailure {
    KubeFailure { message: message.to_string(), source: source.map(|s| s.to_string()) }
}

fn step(r: Reconciliation, resp: Response) -> (Reconciliation, Request) {
    assert!(r.accepts(&resp));
    assert!(!r.overflows(&resp));
    r.step(resp)
}

fn is_get_secret(req: &Request, namespace: &str) -> bool {
    matches!(req, Request::GetSecret { namespace: ns, name } if ns == namespace && name == "test")
}

fn is_get_config_map(req: &Request, namespace: &str) -> bool {
    matches!(req, Request::GetConfigMap { namespace: ns, name } if ns == namespace && name == "test")
}

fn public_key(kid: &str) -> PublicKey {
    PublicKey {
        alg: "RS512".to_string(),
        e: "AQAB".to_string(),
        kid: kid.to_string(),
        kty: "RSA".to_string(),
        n: "n".to_string(),
        use_field: "sig".to_string(),
    }
}

#[test]
fn not_ready_resources_back_off_then_rotate() {
    let (r, req) = Reconciliation::begin(resource(true, true, None, vec![target("ns")]));
    assert!(matches!(req, Request::BackOff { seconds: 5 }));
    assert_eq!(r.phase, Phase::BackingOff);
    let (r, req) = step(r, Response::BackedOff);
    assert!(is_get_secret(&req, "ns"));
    assert_eq!(r.phase, Phase::FindingSecret(0));
    assert!(r.key.is_some());
}

#[test]
fn a_full_rotation() {
    let (r, req) = Reconciliation::begin(resource(false, true, None, vec![target("ns")]));
    assert!(is_get_secret(&req, "ns"));
    assert_eq!(r.phase, Phase::CheckingSecret(0));
    let (r, req) = step(r, own(Vec::new()));
    assert!(is_get_config_map(&req, "ns"));
    let (r, req) = step(r, own(Vec::new()));
    assert!(matches!(req, Request::ReadClock));
    assert_eq!(r.phase, Phase::CheckingExpiry);
    let (r, req) = step(r, Response::Clock(Timestamp { secs: 0, nanos: 0 }));
    // Nothing changed, but there never was a success: the keys rotate.
    assert!(is_get_secret(&req, "ns"));
    assert_eq!(r.phase, Phase::FindingSecret(0));
    let pem = r.key.as_ref().unwrap().pem.clone();
    let kid = r.key.as_ref().unwrap().kid.clone();
    let (r, req) = step(r, missing());
    match &req {
        Request::CreateSecret(s) => {
            assert_eq!(s.name, "test");
            assert_eq!(s.namespace, "ns");
            assert_eq!(s.type_, "Opaque");
            assert_eq!(s.string_data, vec![("pem".to_string(), pem)]);
        }
        other => panic!("unexpected {other:?}"),
    }
    let (r, req) = step(r, ok());
    assert!(is_get_config_map(&req, "ns"));
    let stored = vec![("keys.json".to_string(), "stored".to_string())];
    let (r, req) = step(r, own(stored));
    assert!(matches!(&req, Request::ParseKeySet(t) if t == "stored"));
    let old = KeySet { keys: ["a", "b", "c", "d", "e"].iter().map(|k| public_key(k)).collect() };
    let (r, req) = step(r, Response::Parsed(Some(old)));
    match &req {
        Request::SerialiseKeySet(ks) => {
            let kids: Vec<&str> = ks.keys.iter().map(|k| k.kid.as_str()).collect();
            assert_eq!(kids, vec!["b", "c", "d", "e", kid.as_str()]);
        }
        other => panic!("unexpected {other:?}"),
    }
    let (r, req) = step(r, Response::Serialised(Ok("json".to_string())));
    assert!(is_get_config_map(&req, "ns"));
    let (r, req) = step(r, own(Vec::new()));
    match &req {
        Request::ReplaceConfigMap(c) => {
            assert_eq!(c.name, "test");
            assert_eq!(c.namespace, "ns");
            assert_eq!(c.data, vec![("keys.json".to_string(), "json".to_string())]);
        }
        other => panic!("unexpected {other:?}"),
    }
    let (r, req) = step(r, ok());
    assert!(matches!(req, Request::PatchStatus { error: None }));
    let (r, req) = step(r, ok());
    assert!(matches!(req, Request::Finish(Ok(3600))));
    assert!(r.is_finished());
    assert!(!r.accepts(&ok()));
}

#[test]
fn nothing_to_do_requeues() {
    let last = Some(Timestamp { secs: 1_000, nanos: 0 });
    let (r, _) = Reconciliation::begin(resource(false, true, last, vec![target("ns")]));
    let (r, _) = step(r, own(Vec::new()));
    let (r, req) = step(r, own(Vec::new()));
    assert!(matches!(req, Request::ReadClock));
    let (r, req) = step(r, Response::Clock(Timestamp { secs: 4_600, nanos: 0 }));
    assert!(matches!(req, Request::Finish(Ok(3600))));
    assert!(r.is_finished());
    assert!(r.key.is_none());
}

#[test]
fn no_targets_and_nothing_to_do_requeues() {
    let last = Some(Timestamp { secs: 1_000, nanos: 0 });
    let (r, req) = Reconciliation::begin(resource(false, true, last, Vec::new()));
    assert!(matches!(req, Request::ReadClock));
    let (r, req) = step(r, Response::Clock(Timestamp { secs: 2_000, nanos: 0 }));
    assert!(matches!(req, Request::Finish(Ok(3600))));
    assert!(r.is_finished());
}

#[test]
fn changed_child_causes_rotation() {
    let recent = Some(Timestamp { secs: 8_000_000_000_000, nanos: 0 });
    let (r, _) = Reconciliation::begin(resource(false, true, recent, vec![target("ns")]));
    let (r, _) = step(r, missing());
    assert!(r.changed);
    let (r, req) = step(r, own(Vec::new()));
    assert!(is_get_secret(&req, "ns"));
    assert_eq!(r.phase, Phase::FindingSecret(0));
}

#[test]
fn foreign_update_of_the_resource_causes_rotation() {
    let recent = Some(Timestamp { secs: 8_000_000_000_000, nanos: 0 });
    let (r, req) = Reconciliation::begin(resource(false, false, recent, vec![target("ns")]));
    assert!(is_get_secret(&req, "ns"));
    assert_eq!(r.phase, Phase::FindingSecret(0));
}

#[test]
fn failed_child_check_ends_without_status() {
    let (r, _) = Reconciliation::begin(resource(false, true, None, vec![target("ns")]));
    let (r, req) = step(r, Response::Fetched(Err(failure("boom", Some("inner")))));
    assert!(matches!(&req, Request::Finish(Err(OperatorError::Kube(m))) if m == "boom"));
    assert!(r.is_finished());
}

#[test]
fn failed_secret_write_is_recorded_and_published() {
    let (r, _) = Reconciliation::begin(resource(true, true, None, vec![target("ns")]));
    let (r, _) = step(r, Response::BackedOff);
    let (r, _) = step(r, own(Vec::new()));
    let (r, req) = step(r, Response::Written(Err(failure("outer", Some("inner")))));
    assert!(
        matches!(&req, Request::PatchStatus { error: Some(m) } if m == "the secret could not be created: inner")
    );
    let (r, req) = step(r, ok());
    assert!(matches!(&req, Request::PublishEvent { note, action }
        if note == "the secret could not be created: inner" && action == "update"));
    let (r, req) = step(r, ok());
    assert!(matches!(&req, Request::Finish(Err(OperatorError::SecretCreation(m))) if m == "inner"));
    assert!(r.is_finished());
}

#[test]
fn failed_status_patch_is_a_kube_error() {
    let (r, _) = Reconciliation::begin(resource(true, true, None, Vec::new()));
    let (r, req) = step(r, Response::BackedOff);
    assert!(matches!(req, Request::PatchStatus { error: None }));
    let (_, req) = step(r, Response::Written(Err(failure("denied", None))));
    assert!(matches!(&req, Request::Finish(Err(OperatorError::Kube(m))) if m == "denied"));
}

#[test]
fn failed_key_set_read_is_a_kube_error() {
    let (r, _) = Reconciliation::begin(resource(true, true, None, vec![target("ns")]));
    let (r, _) = step(r, Response::BackedOff);
    let (r, _) = step(r, missing());
    let (r, _) = step(r, ok());
    let (_, req) = step(r, Response::Fetched(Err(failure("gone", Some("inner")))));
    assert!(matches!(&req, Request::PatchStatus { error: Some(m) } if m == "kube API error: gone"));
}

#[test]
fn missing_key_set_starts_a_new_one() {
    let (r, _) = Reconciliation::begin(resource(true, true, None, vec![target("ns")]));
    let (r, _) = step(r, Response::BackedOff);
    let kid = r.key.as_ref().unwrap().kid.clone();
    let (r, _) = step(r, missing());
    let (r, _) = step(r, ok());
    let (r, req) = step(r, missing());
    match &req {
        Request::SerialiseKeySet(ks) => {
            assert_eq!(ks.keys.len(), 1);
            assert_eq!(ks.keys[0].kid, kid);
            assert_eq!(ks.keys[0].kty, "RSA");
            assert_eq!(ks.keys[0].use_field, "sig");
        }
        other => panic!("unexpected {other:?}"),
    }
    let (_, req) = step(r, Response::Serialised(Err("bad".to_string())));
    assert!(matches!(&req, Request::PatchStatus { error: Some(m) } if m == "key set serialisation error: bad"));
}

#[test]
fn unreadable_key_set_starts_a_new_one() {
    let (r, _) = Reconciliation::begin(resource(true, true, None, vec![target("ns")]));
    let (r, _) = step(r, Response::BackedOff);
    let (r, _) = step(r, missing());
    let (r, _) = step(r, ok());
    let (r, _) = step(r, own(vec![("keys.json".to_string(), "not json".to_string())]));
    let (_, req) = step(r, Response::Parsed(None));
    assert!(matches!(&req, Request::SerialiseKeySet(ks) if ks.keys.len() == 1));
}

#[test]
fn targets_are_written_in_order_with_one_key() {
    let (r, _) = Reconciliation::begin(resource(true, true, None, vec![target("a"), target("b")]));
    let (r, req) = step(r, Response::BackedOff);
    assert!(is_get_secret(&req, "a"));
    let pem = r.key.as_ref().unwrap().pem.clone();
    let (r, _) = step(r, missing());
    let (r, _) = step(r, ok());
    let (r, _) = step(r, missing());
    let (r, _) = step(r, Response::Serialised(Ok("json".to_string())));
    let (r, req) = step(r, missing());
    assert!(matches!(&req, Request::CreateConfigMap(c) if c.namespace == "a"));
    let (r, req) = step(r, ok());
    assert!(is_get_secret(&req, "b"));
    let (r, req) = step(r, own(Vec::new()));
    assert!(matches!(&req, Request::ReplaceSecret(s) if s.namespace == "b" && s.string_data[0].1 == pem));
    let (r, _) = step(r, ok());
    let (r, _) = step(r, missing());
    let (r, _) = step(r, Response::Serialised(Ok("json".to_string())));
    let (r, req) = step(r, Response::Fetched(Err(failure("outer", None))));
    assert!(
        matches!(&req, Request::PatchStatus { error: Some(m) } if m == "the config map could not be created: outer")
    );
    assert_eq!(r.phase, Phase::PatchingStatus);
}

#[test]
fn mismatched_responses_are_not_accepted() {
    let (r, _) = Reconciliation::begin(resource(true, true, None, Vec::new()));
    assert!(r.accepts(&Response::BackedOff));
    assert!(!r.accepts(&ok()));
    assert!(!r.accepts(&Response::Parsed(None)));
}

#[test]
fn passed_interval_causes_rotation() {
    let last = Some(Timestamp { secs: 1_000, nanos: 0 });
    let (r, _) = Reconciliation::begin(resource(false, true, last, vec![target("ns")]));
    let (r, _) = step(r, own(Vec::new()));
    let (r, _) = step(r, own(Vec::new()));
    let (r, req) = step(r, Response::Clock(Timestamp { secs: 4_600, nanos: 1 }));
    assert!(is_get_secret(&req, "ns"));
    assert_eq!(r.phase, Phase::FindingSecret(0));
    assert!(r.key.is_some());
}

#[test]
fn unrepresentable_deadlines_and_zero_depth_are_flagged() {
    let last = Some(Timestamp { secs: LATEST_SECS, nanos: 0 });
    let (r, _) = Reconciliation::begin(resource(false, true, last, Vec::new()));
    assert!(r.overflows(&Response::Clock(Timestamp { secs: 0, nanos: 0 })));

    let mut obj = resource(true, true, None, vec![target("ns")]);
    obj.spec.depth = 0;
    let (r, _) = Reconciliation::begin(obj);
    let (r, _) = step(r, Response::BackedOff);
    assert!(!r.overflows(&missing()));
    let (r, _) = step(r, missing());
    let (r, _) = step(r, ok());
    assert!(r.overflows(&missing()));
    assert!(!r.overflows(&Response::Fetched(Err(failure("x", None)))));
    assert!(!r.overflows(&own(vec![("keys.json".to_string(), "stored".to_string())])));
}

#[test]
fn an_expired_run_writes_one_fresh_key_to_every_target_in_order() {
    let last = Some(Timestamp { secs: 1_000, nanos: 0 });
    let (r, _) = Reconciliation::begin(resource(false, true, last, vec![target("a"), target("b")]));
    let (r, _) = step(r, own(Vec::new()));
    let (r, _) = step(r, own(Vec::new()));
    let (r, _) = step(r, own(Vec::new()));
    let (r, req) = step(r, own(Vec::new()));
    assert!(matches!(req, Request::ReadClock));
    let (r, req) = step(r, Response::Clock(Timestamp { secs: 5_000, nanos: 0 }));
    assert!(is_get_secret(&req, "a"));
    let pem = r.key.as_ref().unwrap().pem.clone();
    let mut written = Vec::new();
    let (mut r, mut req) = (r, req);
    loop {
        let resp = match &req {
            Request::GetSecret { .. } | Request::GetConfigMap { .. } => missing(),
            Request::CreateSecret(s) => {
                written.push((s.namespace.clone(), s.string_data[0].1.clone()));
                ok()
            }
            Request::SerialiseKeySet(_) => Response::Serialised(Ok("json".to_string())),
            Request::CreateConfigMap(_) | Request::PatchStatus { .. } => ok(),
            Request::Finish(result) => {
                assert!(matches!(result, Ok(3600)));
                break;
            }
            other => panic!("unexpected {other:?}"),
        };
        let next = step(r, resp);
        r = next.0;
        req = next.1;
    }
    assert_eq!(written, vec![("a".to_string(), pem.clone()), ("b".to_string(), pem)]);
}
