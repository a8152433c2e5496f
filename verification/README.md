# rotate_keys

A Kubernetes operator that generates RSA key pairs in a rotating fashion. A cluster-scoped
`RotateKeys` resource declares the rotation interval, the depth of the key sets and the
targets; every target receives a secret with the private key, filled into a template with the
placeholders `{KID}`, `{PEM}` and `{ALG}`, and a config map whose field (by default
`keys.json`) holds a JSON Web Key Set with the newest keys in circulation.

## Layout

- `src/` is the library, verified with Verus:
  - `resource.rs`: the resource's specification, its defaults, and when keys are due;
  - `key_set.rs`: the JSON Web Key Set;
  - `keys.rs`: generating key pairs (OpenSSL, base64, UUID) and building key sets;
  - `children.rs`: the secret and the config map of a target;
  - `text.rs`: substring replacement;
  - `window.rs`: keeping the newest elements of a history;
  - `error.rs`: the errors of a reconciliation and their messages;
  - `reconcile.rs`: one reconciliation as a state machine that asks for the calls against the
    cluster and decides on their answers;
  - `laws.rs`: what holds of every step and of every run of a reconciliation.
- `app/` is the program around it: the controller, the calls against the cluster, the clock
  reading (through the library's `current_time`), the JSON
  codec and the CustomResourceDefinition (`rotate_keys crd` prints it).
- `tests/` runs the library on concrete values.
