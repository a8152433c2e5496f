//! The secret and the config map that each target receives.
use crate::keys::Key;
use crate::resource::{distinct_keys, Target};
use crate::text::{replace, replaced};
use vstd::prelude::*;

verus! {

/// The secret of a target: its `stringData` fields hold the key pair.
#[derive(Debug)]
pub struct SecretObject {
    pub name: String,
    pub namespace: String,
    /// The secret's type, `Opaque`.
    pub type_: String,
    pub string_data: Vec<(String, String)>,
}

/// The config map of a target: one field holds the JSON Web Key Set.
#[derive(Debug)]
pub struct ConfigMapObject {
    pub name: String,
    pub namespace: String,
    pub data: Vec<(String, String)>,
}

/// A template value with the placeholders `{KID}`, `{PEM}` and `{ALG}` replaced, in that order,
/// by the key's identifier, private key and algorithm.
pub open spec fn anchored(value: Seq<char>, key: Key) -> Seq<char> {
    replaced(
        replaced(replaced(value, "{KID}"@, key.kid@), "{PEM}"@, key.pem@),
        "{ALG}"@,
        key.alg@,
    )
}

/// A template value filled in with a key.
pub fn replace_anchors(value: &String, key: &Key) -> (r: String)
    ensures
        r@ == anchored(value@, *key),
{
    replace(
        &replace(
            &replace(value, &"{KID}".to_string(), &key.kid),
            &"{PEM}".to_string(),
            &key.pem,
        ),
        &"{ALG}".to_string(),
        &key.alg,
    )
}

/// The fields of a target's secret for a key: the template's, with the values filled in.
pub open spec fn is_secret_data(data: Seq<(String, String)>, template: Seq<(String, String)>, key: Key) -> bool {
    &&& data.len() == template.len()
    &&& forall|i: int|
        0 <= i < data.len() ==> (#[trigger] data[i]).0 == template[i].0 && data[i].1@ == anchored(
            template[i].1@,
            key,
        )
}

/// The fields of a target's secret for a key.
pub fn secret_data(target: &Target, key: &Key) -> (r: Vec<(String, String)>)
    requires
        target.wf(),
    ensures
        is_secret_data(r@, target.template@, *key),
        distinct_keys(r@),
        r@.len() == target.template@.len(),
        forall|i: int|
            0 <= i < r@.len() ==> (#[trigger] r@[i]).0 == target.template@[i].0 && r@[i].1@
                == replaced(
                replaced(replaced(target.template@[i].1@, "{KID}"@, key.kid@), "{PEM}"@, key.pem@),
                "{ALG}"@,
                key.alg@,
            ),
{
    let mut r: Vec<(String, String)> = Vec::new();
    let n = target.template.len();
    for i in 0..n
        invariant
            n == target.template@.len(),
            r@.len() == i,
            forall|j: int|
                0 <= j < i ==> (#[trigger] r@[j]).0 == target.template@[j].0 && r@[j].1@
                    == anchored(target.template@[j].1@, *key),
    {
        let entry = &target.template[i];
        r.push((entry.0.clone(), replace_anchors(&entry.1, key)));
    }
    proof {
        assert forall|a: int, b: int| 0 <= a < b < r@.len() implies (#[trigger] r@[a]).0@
            != (#[trigger] r@[b]).0@ by {
            assert(r@[a].0 == target.template@[a].0);
            assert(r@[b].0 == target.template@[b].0);
        }
    }
    r
}

/// What the secret of a target is for a key.
pub open spec fn is_secret_for(s: SecretObject, target: Target, key: Key) -> bool {
    &&& s.name == target.name
    &&& s.namespace == target.namespace
    &&& s.type_@ == "Opaque"@
    &&& is_secret_data(s.string_data@, target.template@, key)
}

/// The secret of a target for a key.
pub fn make_secret(target: &Target, key: &Key) -> (s: SecretObject)
    requires
        target.wf(),
    ensures
        is_secret_for(s, *target, *key),
        distinct_keys(s.string_data@),
        s.name == target.name && s.namespace == target.namespace && s.type_@ == "Opaque"@,
        s.string_data@.len() == target.template@.len(),
{
    SecretObject {
        name: target.name.clone(),
        namespace: target.namespace.clone(),
        type_: "Opaque".to_string(),
        string_data: secret_data(target, key),
    }
}

/// What the config map of a target is for a serialised key set.
pub open spec fn is_config_map_for(c: ConfigMapObject, target: Target, key_set: String) -> bool {
    &&& c.name == target.name
    &&& c.namespace == target.namespace
    &&& c.data@.len() == 1
    &&& c.data@[0].0 == target.config_map_field
    &&& c.data@[0].1 == key_set
}

/// The config map of a target that holds the given serialised key set.
pub fn make_config_map(target: &Target, key_set: String) -> (c: ConfigMapObject)
    ensures
        is_config_map_for(c, *target, key_set),
        c.name == target.name && c.namespace == target.namespace,
        c.data@ == seq![(target.config_map_field, key_set)],
{
    let mut data: Vec<(String, String)> = Vec::new();
    data.push((target.config_map_field.clone(), key_set));
    proof {
        assert(data@ =~= seq![(target.config_map_field, key_set)]);
    }
    ConfigMapObject { name: target.name.clone(), namespace: target.namespace.clone(), data }
}

/// The value of the first entry with the given key, if there is one.
pub open spec fn lookup(entries: Seq<(String, String)>, key: Seq<char>) -> Option<String>
    decreases entries.len(),
{
    if entries.len() == 0 {
        None
    } else if entries[0].0@ == key {
        Some(entries[0].1)
    } else {
        lookup(entries.drop_first(), key)
    }
}

/// The value of the entry with the given key, if there is one.
pub fn find_field(entries: &Vec<(String, String)>, key: &String) -> (r: Option<String>)
    ensures
        r == lookup(entries@, key@),
{
    let n = entries.len();
    proof {
        assert(entries@.skip(0) =~= entries@);
    }
    for i in 0..n
        invariant
            n == entries@.len(),
            lookup(entries@, key@) == lookup(entries@.skip(i as int), key@),
    {
        proof {
            assert(entries@.skip(i as int).drop_first() =~= entries@.skip(i + 1));
        }
        if entries[i].0 == *key {
            return Some(entries[i].1.clone());
        }
    }
    proof {
        assert(entries@.skip(n as int) =~= Seq::<(String, String)>::empty());
    }
    None
}

} // verus!
