use rotate_keys::key_set::PublicKey;
use rotate_keys::resource::{error_policy, RotateKeysSpec, Target};

#[test]
fn depth_defaults_to_five() {
    assert_eq!(RotateKeysSpec::default_depth(), 5);
}

#[test]
fn interval_defaults_to_an_hour() {
    assert_eq!(RotateKeysSpec::default_interval_seconds(), 3600);
}

#[test]
fn config_map_field_defaults_to_keys_json() {
    assert_eq!(Target::default_config_map_field(), "keys.json");
}

#[test]
fn public_key_defaults() {
    assert_eq!(PublicKey::default_alg(), "RS512");
    assert_eq!(PublicKey::default_kty(), "RSA");
    assert_eq!(PublicKey::default_use(), "sig");
}

#[test]
fn failed_reconciliations_are_retried_after_five_seconds() {
    assert_eq!(error_policy(), 5);
}
