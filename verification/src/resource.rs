//! The `RotateKeys` custom resource: what it asks for and what the operator reads of it.
use vstd::prelude::*;

verus! {

/// Whether no key occurs twice among the entries of a string map held as pairs.
pub open spec fn distinct_keys(entries: Seq<(String, String)>) -> bool {
    forall|i: int, j: int|
        0 <= i < j < entries.len() ==> (#[trigger] entries[i]).0@ != (#[trigger] entries[j]).0@
}

/// The specification of a `RotateKeys` resource.
#[derive(Debug)]
pub struct RotateKeysSpec {
    /// How many keys stay in circulation in each key set.
    pub depth: u32,
    /// How many seconds a key pair serves before the next one is generated.
    pub interval_seconds: u32,
    /// Where the keys go.
    pub targets: Vec<Target>,
}

impl RotateKeysSpec {
    /// The depth of a resource that does not give one.
    pub fn default_depth() -> (depth: u32)
        ensures
            depth == 5,
    {
        5
    }

    /// The rotation interval of a resource that does not give one: an hour.
    pub fn default_interval_seconds() -> (seconds: u32)
        ensures
            seconds == 3600,
    {
        3600
    }
}

/// A namespace that receives a secret and a config map, both named `name`.
#[derive(Debug)]
pub struct Target {
    /// The field of the config map that holds the JSON Web Key Set.
    pub config_map_field: String,
    pub name: String,
    pub namespace: String,
    /// The fields of the secret, with placeholders for the key's values; no key twice.
    pub template: Vec<(String, String)>,
}

impl Target {
    /// The config map field of a target that does not give one.
    pub fn default_config_map_field() -> (field: String)
        ensures
            field@ == "keys.json"@,
    {
        "keys.json".to_string()
    }

    /// The template is a string map: no key occurs twice.
    pub open spec fn wf(&self) -> bool {
        distinct_keys(self.template@)
    }
}

/// Whether the templates of all targets are string maps.
pub open spec fn spec_templates_are_maps(spec: RotateKeysSpec) -> bool {
    forall|i: int| 0 <= i < spec.targets@.len() ==> (#[trigger] spec.targets@[i]).wf()
}

/// Whether no key occurs twice among the entries.
pub fn has_distinct_keys(entries: &Vec<(String, String)>) -> (r: bool)
    ensures
        r == distinct_keys(entries@),
{
    let n = entries.len();
    for j in 0..n
        invariant
            n == entries@.len(),
            forall|a: int, b: int|
                0 <= a < b < j ==> (#[trigger] entries@[a]).0@ != (#[trigger] entries@[b]).0@,
    {
        for i in 0..j
            invariant
                n == entries@.len(),
                j < n,
                forall|a: int, b: int|
                    0 <= a < b < j ==> (#[trigger] entries@[a]).0@ != (#[trigger] entries@[b]).0@,
                forall|a: int| 0 <= a < i ==> (#[trigger] entries@[a]).0@ != entries@[j as int].0@,
        {
            if entries[i].0 == entries[j].0 {
                return false;
            }
        }
    }
    true
}

impl RotateKeysSpec {
    /// Whether the templates of all targets are string maps.
    pub fn templates_are_maps(&self) -> (r: bool)
        ensures
            r == spec_templates_are_maps(*self),
    {
        let n = self.targets.len();
        for i in 0..n
            invariant
                n == self.targets@.len(),
                forall|k: int| 0 <= k < i ==> (#[trigger] self.targets@[k]).wf(),
        {
            if !has_distinct_keys(&self.targets[i].template) {
                return false;
            }
        }
        true
    }
}

/// A point in time: seconds since the Unix epoch and the nanoseconds within that second.
#[derive(Clone, Copy, Debug, PartialEq, Eq, Structural)]
pub struct Timestamp {
    pub secs: i64,
    pub nanos: u32,
}

/// What the operator reads of a `RotateKeys` resource.
#[derive(Debug)]
pub struct RotateKeys {
    pub spec: RotateKeysSpec,
    /// The status is missing or its phase is not ready.
    pub not_ready: bool,
    /// The last change to the resource was made by this operator.
    pub own_update: bool,
    /// When the last condition of the status, if it says ready, was recorded.
    pub last_success: Option<Timestamp>,
}

/// The last second that `chrono` represents, 262142-12-31T23:59:59 UTC, in seconds since the epoch.
pub const LATEST_SECS: i64 = 8210266876799;

/// Whether the moment at which the keys installed at `last_success` are due can be computed:
/// `chrono` panics when adding the interval goes past the last moment it represents.
pub open spec fn deadline_representable(last_success: Option<Timestamp>, interval_seconds: u32) -> bool {
    match last_success {
        None => true,
        Some(t) => t.secs + interval_seconds <= LATEST_SECS,
    }
}

/// Whether a key pair that was installed at `last_success` has served its interval at `now`:
/// whether `last_success` plus the interval comes before `now`, as `chrono` adds and compares.
/// A moment within a leap second has nanoseconds of a second or more; adding whole seconds
/// takes it out of the leap second. Without a recorded success the keys are always due.
pub open spec fn expired(last_success: Option<Timestamp>, interval_seconds: u32, now: Timestamp) -> bool {
    match last_success {
        None => true,
        Some(t) => {
            let secs = t.secs + interval_seconds;
            let nanos = if t.nanos >= 1_000_000_000 && interval_seconds > 0 {
                t.nanos - 1_000_000_000
            } else {
                t.nanos as int
            };
            secs < now.secs || (secs == now.secs && nanos < now.nanos)
        },
    }
}

/// Whether the deadline of a resource's keys can be computed.
pub fn is_deadline_representable(obj: &RotateKeys) -> (r: bool)
    ensures
        r == deadline_representable(obj.last_success, obj.spec.interval_seconds),
{
    match obj.last_success {
        None => true,
        Some(t) => (t.secs as i128) + (obj.spec.interval_seconds as i128) <= LATEST_SECS as i128,
    }
}

/// Whether the keys of a resource are due for rotation at `now`.
pub fn is_expired_at(last_success: Option<Timestamp>, interval_seconds: u32, now: Timestamp) -> (r: bool)
    requires
        deadline_representable(last_success, interval_seconds),
    ensures
        r == expired(last_success, interval_seconds, now),
        last_success is None ==> r,
        last_success is Some && last_success->Some_0.nanos < 1_000_000_000 ==> (r <==> (
        last_success->Some_0.secs + interval_seconds < now.secs || (last_success->Some_0.secs
            + interval_seconds == now.secs && last_success->Some_0.nanos < now.nanos))),
        last_success is Some && r ==> now.secs >= last_success->Some_0.secs + interval_seconds,
{
    match last_success {
        None => true,
        Some(t) => {
            let secs: i64 = t.secs + interval_seconds as i64;
            let nanos: u32 = if t.nanos >= 1_000_000_000 && interval_seconds > 0 {
                t.nanos - 1_000_000_000
            } else {
                t.nanos
            };
            secs < now.secs || (secs == now.secs && nanos < now.nanos)
        },
    }
}

/// `chrono::Utc::now`, taken apart into the seconds since the epoch and the nanoseconds within
/// the second. It reads the system clock, so nothing ties its result to anything; it comes from
/// a `std::time::Duration` since the epoch, whose sub-second part is below a second.
#[verifier::external_body]
fn utc_now() -> (now: Timestamp)
    ensures
        now.secs >= 0,
        now.nanos < 1_000_000_000,
{
    let now = chrono::Utc::now();
    Timestamp { secs: now.timestamp(), nanos: now.timestamp_subsec_nanos() }
}

/// What the clock shows now. It reads the system clock, so nothing ties its result to
/// anything but the range of its parts.
pub fn current_time() -> (now: Timestamp)
    ensures
        now.secs >= 0,
        now.nanos < 1_000_000_000,
{
    utc_now()
}

/// Whether the keys of a resource are due for rotation now: the clock is read once and
/// the result is that of `is_expired_at` for that moment. Which moment it was is not known.
pub fn is_expired(obj: &RotateKeys) -> (r: bool)
    requires
        deadline_representable(obj.last_success, obj.spec.interval_seconds),
    ensures
        exists|now: Timestamp|
            now.secs >= 0 && now.nanos < 1_000_000_000 && r == #[trigger] expired(
                obj.last_success,
                obj.spec.interval_seconds,
                now,
            ),
        obj.last_success is None ==> r,
{
    let now = current_time();
    is_expired_at(obj.last_success, obj.spec.interval_seconds, now)
}

/// Once the keys of a resource are due, they stay due as the clock moves on.
pub proof fn law_expiry_is_monotone(
    last_success: Option<Timestamp>,
    interval_seconds: u32,
    earlier: Timestamp,
    later: Timestamp,
)
    requires
        earlier.secs < later.secs || (earlier.secs == later.secs && earlier.nanos <= later.nanos),
        expired(last_success, interval_seconds, earlier),
    ensures
        expired(last_success, interval_seconds, later),
{
}

/// A resource is reconciled when it is not ready or someone other than this operator changed it.
pub open spec fn spec_should_reconcile(obj: &RotateKeys) -> bool {
    obj.not_ready || !obj.own_update
}

/// Whether a resource needs reconciliation whatever its children look like.
pub fn should_reconcile(obj: &RotateKeys) -> (r: bool)
    ensures
        r == spec_should_reconcile(obj),
        obj.not_ready ==> r,
        !obj.own_update ==> r,
        r ==> obj.not_ready || !obj.own_update,
{
    obj.not_ready || !obj.own_update
}

/// The number of seconds after which a resource whose reconciliation failed is looked at again.
pub fn error_policy() -> (seconds: u64)
    ensures
        seconds == 5,
{
    5
}

/// The number of seconds after which a resource is looked at again.
pub fn requeue(obj: &RotateKeys) -> (seconds: u64)
    ensures
        seconds == obj.spec.interval_seconds,
{
    obj.spec.interval_seconds as u64
}

} // verus!
