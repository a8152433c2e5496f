//! Rotation of RSA key pairs for a Kubernetes operator.
pub mod key_set;
pub mod window;
pub mod text;
pub mod resource;
pub mod error;
pub mod keys;
pub mod children;
pub mod reconcile;
pub mod laws;
