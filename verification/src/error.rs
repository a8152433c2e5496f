//! The errors of a reconciliation and the messages that report them.
use vstd::prelude::*;

verus! {

/// Why a reconciliation failed. Each variant carries the message of what went wrong.
#[derive(Debug)]
pub enum OperatorError {
    ConfigMapCreation(String),
    KeySet(String),
    Kube(String),
    Rsa(String),
    SecretCreation(String),
    Utf8(String),
}

/// The text by which an error is reported.
pub open spec fn message_of(e: OperatorError) -> Seq<char> {
    match e {
        OperatorError::ConfigMapCreation(m) => "the config map could not be created: "@ + m@,
        OperatorError::KeySet(m) => "key set serialisation error: "@ + m@,
        OperatorError::Kube(m) => "kube API error: "@ + m@,
        OperatorError::Rsa(m) => "RSA error: "@ + m@,
        OperatorError::SecretCreation(m) => "the secret could not be created: "@ + m@,
        OperatorError::Utf8(m) => "UTF-8 error: "@ + m@,
    }
}

fn prefixed(prefix: &str, m: &String) -> (r: String)
    ensures
        r@ == prefix@ + m@,
{
    let mut r = prefix.to_string();
    r.append(m.as_str());
    r
}

impl OperatorError {
    /// The text by which the error is reported.
    pub fn message(&self) -> (r: String)
        ensures
            r@ == message_of(*self),
    {
        match self {
            OperatorError::ConfigMapCreation(m) => prefixed("the config map could not be created: ", m),
            OperatorError::KeySet(m) => prefixed("key set serialisation error: ", m),
            OperatorError::Kube(m) => prefixed("kube API error: ", m),
            OperatorError::Rsa(m) => prefixed("RSA error: ", m),
            OperatorError::SecretCreation(m) => prefixed("the secret could not be created: ", m),
            OperatorError::Utf8(m) => prefixed("UTF-8 error: ", m),
        }
    }
}

/// A failed call of the Kubernetes API: the error's own message and that of its source, if
/// it has one.
#[derive(Debug)]
pub struct KubeFailure {
    pub message: String,
    pub source: Option<String>,
}

/// The message of the error's source when there is one, else the error's own.
pub open spec fn spec_source_message(error: KubeFailure) -> Seq<char> {
    match error.source {
        Some(s) => s@,
        None => error.message@,
    }
}

/// The message by which a failed write of a child resource is reported.
pub fn source_message(error: &KubeFailure) -> (r: String)
    ensures
        r@ == spec_source_message(*error),
        error.source is Some ==> r@ == error.source->Some_0@,
        error.source is None ==> r@ == error.message@,
{
    match &error.source {
        Some(s) => s.clone(),
        None => error.message.clone(),
    }
}

} // verus!
