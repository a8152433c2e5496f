//! The JSON Web Key Set that the config map of each target holds.
use vstd::prelude::*;

verus! {

/// A set of public keys, oldest first.
#[derive(Debug)]
pub struct KeySet {
    pub keys: Vec<PublicKey>,
}

/// The public half of an RSA key in JSON Web Key form.
#[derive(Debug)]
pub struct PublicKey {
    pub alg: String,
    pub e: String,
    pub kid: String,
    pub kty: String,
    pub n: String,
    pub use_field: String,
}

impl Clone for PublicKey {
    fn clone(&self) -> (res: Self)
        ensures
            res == *self,
    {
        PublicKey {
            alg: self.alg.clone(),
            e: self.e.clone(),
            kid: self.kid.clone(),
            kty: self.kty.clone(),
            n: self.n.clone(),
            use_field: self.use_field.clone(),
        }
    }
}

impl PublicKey {
    /// The signature algorithm that a key set advertises when it says none.
    pub fn default_alg() -> (alg: String)
        ensures
            alg@ == "RS512"@,
    {
        "RS512".to_string()
    }

    /// The key type of every key in a set.
    pub fn default_kty() -> (kty: String)
        ensures
            kty@ == "RSA"@,
    {
        "RSA".to_string()
    }

    /// The intended use of every key in a set: signatures.
    pub fn default_use() -> (key_use: String)
        ensures
            key_use@ == "sig"@,
    {
        "sig".to_string()
    }
}

} // verus!
