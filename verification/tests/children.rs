use rotate_keys::children::{find_field, make_config_map, make_secret, replace_anchors, secret_data};
use rotate_keys::keys::Key;
use rotate_keys::resource::Target;

fn key() -> Key {
    Key {
        alg: "RS512".to_string(),
        e: "AQAB".to_string(),
        kid: "kid-1".to_string(),
        n: "modulus".to_string(),
        pem: "-----BEGIN\\nxyz".to_string(),
    }
}

fn target() -> Target {
    Target {
        config_map_field: "keys.json".to_string(),
        name: "test".to_string(),
        namespace: "test1".to_string(),
        template: vec![
            ("alg".to_string(), "{ALG}".to_string()),
            ("kid".to_string(), "{KID}".to_string()),
            ("pem".to_string(), "{PEM}".to_string()),
        ],
    }
}

#[test]
fn anchors_are_replaced() {
    let k = key();
    assert_eq!(replace_anchors(&"{ALG}".to_string(), &k), "RS512");
    assert_eq!(
        replace_anchors(&r#"{"alg": "{ALG}", "kid": "{KID}", "pem": "{PEM}"}"#.to_string(), &k),
        r#"{"alg": "RS512", "kid": "kid-1", "pem": "-----BEGIN\nxyz"}"#
    );
    assert_eq!(replace_anchors(&"{KID}{KID}".to_string(), &k), "kid-1kid-1");
}

#[test]
fn values_without_anchors_are_copied() {
    assert_eq!(replace_anchors(&"plain {kid} value".to_string(), &key()), "plain {kid} value");
}

#[test]
fn secret_data_follows_the_template() {
    let data = secret_data(&target(), &key());
    assert_eq!(
        data,
        vec![
            ("alg".to_string(), "RS512".to_string()),
            ("kid".to_string(), "kid-1".to_string()),
            ("pem".to_string(), "-----BEGIN\\nxyz".to_string()),
        ]
    );
}

#[test]
fn secret_of_a_target() {
    let s = make_secret(&target(), &key());
    assert_eq!(s.name, "test");
    assert_eq!(s.namespace, "test1");
    assert_eq!(s.type_, "Opaque");
    assert_eq!(s.string_data.len(), 3);
}

#[test]
fn config_map_of_a_target() {
    let c = make_config_map(&target(), "{\"keys\":[]}".to_string());
    assert_eq!(c.name, "test");
    assert_eq!(c.namespace, "test1");
    assert_eq!(c.data, vec![("keys.json".to_string(), "{\"keys\":[]}".to_string())]);
}

#[test]
fn fields_are_found_by_name() {
    let data = vec![("a".to_string(), "1".to_string()), ("keys.json".to_string(), "2".to_string())];
    assert_eq!(find_field(&data, &"keys.json".to_string()), Some("2".to_string()));
    assert_eq!(find_field(&data, &"b".to_string()), None);
    assert_eq!(find_field(&Vec::new(), &"a".to_string()), None);
}
