use rotate_keys::error::{source_message, KubeFailure, OperatorError};

#[test]
fn messages_of_each_error() {
    assert_eq!(
        OperatorError::ConfigMapCreation("x".to_string()).message(),
        "the config map could not be created: x"
    );
    assert_eq!(OperatorError::KeySet("x".to_string()).message(), "key set serialisation error: x");
    assert_eq!(OperatorError::Kube("x".to_string()).message(), "kube API error: x");
    assert_eq!(OperatorError::Rsa("x".to_string()).message(), "RSA error: x");
    assert_eq!(
        OperatorError::SecretCreation("x".to_string()).message(),
        "the secret could not be created: x"
    );
    assert_eq!(OperatorError::Utf8("x".to_string()).message(), "UTF-8 error: x");
}

#[test]
fn source_message_prefers_the_source() {
    let f = KubeFailure { message: "outer".to_string(), source: Some("inner".to_string()) };
    assert_eq!(source_message(&f), "inner");
}

#[test]
fn source_message_without_source() {
    let f = KubeFailure { message: "outer".to_string(), source: None };
    assert_eq!(source_message(&f), "outer");
}
