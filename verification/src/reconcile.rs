//! One reconciliation of a `RotateKeys` resource, as a state machine.
//!
//! The caller performs each request (a call of the Kubernetes API, a wait, a reading of the
//! clock, or the JSON codec) and hands back the response; `step` decides what comes next. A
//! reconciliation backs off when the resource is not ready, decides whether the keys must
//! rotate (the resource asks for it, a child was changed or is missing, or the interval has
//! passed at the moment the clock shows), then generates one key pair
//! and, target by target, writes the secret and the config map with the extended key set.
//! The outcome is recorded in the resource's status; an error is also published as an event.
use crate::children::{
    is_config_map_for, is_secret_for, lookup, make_config_map, make_secret, find_field,
    ConfigMapObject, SecretObject,
};
use crate::error::{message_of, source_message, spec_source_message, KubeFailure, OperatorError};
use crate::key_set::KeySet;
use crate::keys::{generate_key, generated, is_public_key_of, next_key_set, retained, Key};
use crate::resource::{
    deadline_representable, expired, is_deadline_representable, is_expired_at, requeue, spec_templates_are_maps, Timestamp, should_reconcile, spec_should_reconcile, RotateKeys, Target,
};
use vstd::prelude::*;

verus! {

/// The seconds to wait before a resource that is not ready is looked at.
pub const BACK_OFF_SECONDS: u64 = 5;

/// Where a reconciliation stands. The index is that of the target being worked on.
#[derive(Clone, Copy, Debug, PartialEq, Eq, Structural)]
pub enum Phase {
    /// Waiting out the back-off for a resource that is not ready.
    BackingOff,
    /// Looking up the secret of a target to see whether someone else changed it.
    CheckingSecret(usize),
    /// Looking up the config map of a target to see whether someone else changed it.
    CheckingConfigMap(usize),
    /// Waiting for the clock, to see whether the keys have served their interval.
    CheckingExpiry,
    /// Looking up the secret of a target to know whether to create or replace it.
    FindingSecret(usize),
    /// Creating or replacing the secret of a target.
    WritingSecret(usize),
    /// Reading the config map of a target for the key set it holds.
    ReadingKeys(usize),
    /// Waiting for the key set that the config map holds to be parsed.
    ParsingKeys(usize),
    /// Waiting for the new key set to be serialised.
    SerialisingKeys(usize),
    /// Looking up the config map of a target to know whether to create or replace it.
    FindingConfigMap(usize),
    /// Creating or replacing the config map of a target.
    WritingConfigMap(usize),
    /// Recording the outcome in the status of the resource.
    PatchingStatus,
    /// Publishing the event for a failed reconciliation.
    PublishingEvent,
    /// Nothing more to do.
    Finished,
}

/// The state of one reconciliation.
#[derive(Debug)]
pub struct Reconciliation {
    pub obj: RotateKeys,
    pub phase: Phase,
    /// Whether a child of the resource was found missing or changed by someone else.
    pub changed: bool,
    /// The key pair of this reconciliation, once generated.
    pub key: Option<Key>,
    /// The serialised key set for the config map of the current target.
    pub key_set: Option<String>,
    /// The outcome to record in the status.
    pub outcome: Option<Result<u64, OperatorError>>,
}

/// What the caller is asked to do next.
#[derive(Debug)]
pub enum Request {
    /// Wait the given number of seconds.
    BackOff { seconds: u64 },
    /// Look up a secret.
    GetSecret { namespace: String, name: String },
    /// Look up a config map.
    GetConfigMap { namespace: String, name: String },
    /// Read the clock.
    ReadClock,
    CreateSecret(SecretObject),
    ReplaceSecret(SecretObject),
    /// Parse the text as a key set; none when it is not one.
    ParseKeySet(String),
    /// Serialise the key set as JSON.
    SerialiseKeySet(KeySet),
    CreateConfigMap(ConfigMapObject),
    ReplaceConfigMap(ConfigMapObject),
    /// Record in the status that the reconciliation succeeded, or failed with the message.
    PatchStatus { error: Option<String> },
    /// Publish a warning event about the resource.
    PublishEvent { note: String, action: String },
    /// The reconciliation is over: requeue after the seconds, or report the error.
    Finish(Result<u64, OperatorError>),
}

/// What the caller learned of a child resource that exists.
#[derive(Debug)]
pub struct Child {
    /// The last change to it was made by this operator.
    pub own_update: bool,
    /// The data of a config map; empty for a secret.
    pub data: Vec<(String, String)>,
}

/// The answer to a request.
#[derive(Debug)]
pub enum Response {
    BackedOff,
    /// The time that the clock showed.
    Clock(Timestamp),
    /// The child, if it exists, or why it could not be looked up.
    Fetched(Result<Option<Child>, KubeFailure>),
    /// The parsed key set, or none when the text was not a key set.
    Parsed(Option<KeySet>),
    /// The JSON text, or the message of the serialisation error.
    Serialised(Result<String, String>),
    /// Whether a write, a status patch or an event succeeded.
    Written(Result<(), KubeFailure>),
}

// ---------------------------------------------------------------------------------------------
// The rules, stated over the state

pub open spec fn targets(r: Reconciliation) -> Seq<Target> {
    r.obj.spec.targets@
}

pub open spec fn interval(r: Reconciliation) -> u64 {
    r.obj.spec.interval_seconds as u64
}

/// The request that looks up the secret of a target.
pub open spec fn get_secret(t: Target) -> Request {
    Request::GetSecret { namespace: t.namespace, name: t.name }
}

/// The request that looks up the config map of a target.
pub open spec fn get_config_map(t: Target) -> Request {
    Request::GetConfigMap { namespace: t.namespace, name: t.name }
}

/// A child counts as changed when it is missing or someone else changed it last.
pub open spec fn child_changed(c: Option<Child>) -> bool {
    match c {
        None => true,
        Some(c) => !c.own_update,
    }
}

/// The data of a looked-up config map; none when it is missing.
pub open spec fn data_of(c: Option<Child>) -> Seq<(String, String)> {
    match c {
        None => Seq::empty(),
        Some(c) => c.data@,
    }
}

/// The status patch that records an outcome: no error for a success, the error's message
/// for a failure.
pub open spec fn is_status_patch(req: Request, outcome: Result<u64, OperatorError>) -> bool {
    &&& req is PatchStatus
    &&& match outcome {
        Ok(_) => req->error is None,
        Err(e) => req->error matches Some(m) && m@ == message_of(e),
    }
}

/// The outcome is settled and is recorded in the status next.
pub open spec fn concluded(
    pre: Reconciliation,
    outcome: Result<u64, OperatorError>,
    post: Reconciliation,
    req: Request,
) -> bool {
    &&& post == Reconciliation { phase: Phase::PatchingStatus, outcome: Some(outcome), ..pre }
    &&& is_status_patch(req, outcome)
}

/// The reconciliation ends with the given result.
pub open spec fn finished(
    pre: Reconciliation,
    result: Result<u64, OperatorError>,
    post: Reconciliation,
    req: Request,
) -> bool {
    &&& post == Reconciliation { phase: Phase::Finished, outcome: None, ..pre }
    &&& req == Request::Finish(result)
}

/// The outcome is an error that reports `f` by its source's message, as the writes of
/// children do; `secret` tells which child.
pub open spec fn concluded_write_failure(
    pre: Reconciliation,
    f: KubeFailure,
    secret: bool,
    post: Reconciliation,
    req: Request,
) -> bool {
    &&& post.outcome matches Some(Err(e))
    &&& (if secret {
        e matches OperatorError::SecretCreation(m) && m@ == spec_source_message(f)
    } else {
        e matches OperatorError::ConfigMapCreation(m) && m@ == spec_source_message(f)
    })
    &&& concluded(pre, post.outcome->Some_0, post, req)
}

/// The key pair has been generated and the first target is next, or there is none and the
/// reconciliation succeeded; or the generation failed and that is the outcome.
pub open spec fn patching_begun(pre: Reconciliation, post: Reconciliation, req: Request) -> bool {
    ||| {
        &&& post.outcome matches Some(Err(e))
        &&& (e is Rsa || e is Utf8)
        &&& concluded(pre, post.outcome->Some_0, post, req)
    }
    ||| {
        &&& post.key matches Some(k)
        &&& generated(k)
        &&& {
            let with_key = Reconciliation { key: Some(k), ..pre };
            if targets(pre).len() == 0 {
                concluded(with_key, Ok(interval(pre)), post, req)
            } else {
                &&& post == Reconciliation { phase: Phase::FindingSecret(0), ..with_key }
                &&& req == get_secret(targets(pre)[0])
            }
        }
    }
}

/// All children have been looked at: the keys rotate when a child changed; otherwise the
/// clock is read to see whether the interval has passed.
pub open spec fn checks_done(pre: Reconciliation, post: Reconciliation, req: Request) -> bool {
    if pre.changed {
        patching_begun(pre, post, req)
    } else {
        &&& post == Reconciliation { phase: Phase::CheckingExpiry, ..pre }
        &&& req == Request::ReadClock
    }
}

/// What the clock decides: the keys rotate when their interval has passed at `now`;
/// otherwise the resource is requeued and nothing is written.
pub open spec fn expiry_decided(pre: Reconciliation, now: Timestamp, post: Reconciliation, req: Request) -> bool {
    if expired(pre.obj.last_success, pre.obj.spec.interval_seconds, now) {
        patching_begun(pre, post, req)
    } else {
        finished(pre, Ok(interval(pre)), post, req)
    }
}

/// What follows the decision whether the resource needs reconciliation by itself.
pub open spec fn decided(pre: Reconciliation, post: Reconciliation, req: Request) -> bool {
    if spec_should_reconcile(&pre.obj) {
        patching_begun(pre, post, req)
    } else if targets(pre).len() == 0 {
        checks_done(pre, post, req)
    } else {
        &&& post == Reconciliation { phase: Phase::CheckingSecret(0), ..pre }
        &&& req == get_secret(targets(pre)[0])
    }
}

/// The state in which a reconciliation of `obj` starts.
pub open spec fn initial(obj: RotateKeys) -> Reconciliation {
    Reconciliation {
        obj,
        phase: Phase::BackingOff,
        changed: false,
        key: None,
        key_set: None,
        outcome: None,
    }
}

/// The request that writes a child: a replacement when it exists, else a creation.
pub open spec fn writes_secret(req: Request, found: bool, t: Target, key: Key) -> bool {
    if found {
        req matches Request::ReplaceSecret(s) && is_secret_for(s, t, key)
    } else {
        req matches Request::CreateSecret(s) && is_secret_for(s, t, key)
    }
}

/// The request that writes a config map: a replacement when it exists, else a creation.
pub open spec fn writes_config_map(req: Request, found: bool, t: Target, key_set: String) -> bool {
    if found {
        req matches Request::ReplaceConfigMap(c) && is_config_map_for(c, t, key_set)
    } else {
        req matches Request::CreateConfigMap(c) && is_config_map_for(c, t, key_set)
    }
}

/// The request to serialise the key set that follows `existing` with the reconciliation's key.
pub open spec fn serialises_next_key_set(
    req: Request,
    existing: Option<KeySet>,
    key: Key,
    depth: u32,
) -> bool {
    &&& req matches Request::SerialiseKeySet(ks)
    &&& {
        let old_keys = match existing {
            Some(s) => s.keys@,
            None => Seq::empty(),
        };
        let ks = req->SerialiseKeySet_0;
        &&& ks.keys@.drop_last() == retained(old_keys, depth)
        &&& ks.keys@.len() == retained(old_keys, depth).len() + 1
        &&& is_public_key_of(ks.keys@.last(), key)
    }
}

/// Whether a response answers the request that a state is waiting on.
pub open spec fn spec_accepts(r: Reconciliation, resp: Response) -> bool {
    match r.phase {
        Phase::BackingOff => resp is BackedOff,
        Phase::CheckingExpiry => resp is Clock,
        Phase::CheckingSecret(_) | Phase::CheckingConfigMap(_) | Phase::FindingSecret(_)
        | Phase::ReadingKeys(_) | Phase::FindingConfigMap(_) => resp is Fetched,
        Phase::WritingSecret(_) | Phase::WritingConfigMap(_) | Phase::PatchingStatus
        | Phase::PublishingEvent => resp is Written,
        Phase::ParsingKeys(_) => resp is Parsed,
        Phase::SerialisingKeys(_) => resp is Serialised,
        Phase::Finished => false,
    }
}

/// Whether answering this response overflows: the clock check adds the interval to the last
/// success past the last moment that `chrono` represents, or the next key set is computed for
/// a depth of zero, whose `depth - 1` older keys underflow.
pub open spec fn spec_overflows(r: Reconciliation, resp: Response) -> bool {
    match r.phase {
        Phase::CheckingExpiry => !deadline_representable(r.obj.last_success, r.obj.spec.interval_seconds),
        Phase::ReadingKeys(i) => r.obj.spec.depth == 0 && match resp {
            Response::Fetched(Ok(c)) => lookup(data_of(c), targets(r)[i as int].config_map_field@) is None,
            _ => false,
        },
        Phase::ParsingKeys(_) => r.obj.spec.depth == 0,
        _ => false,
    }
}

/// The transition that a response causes: the next state and the next request.
pub open spec fn next(pre: Reconciliation, resp: Response, post: Reconciliation, req: Request) -> bool {
    let n = targets(pre).len();
    match pre.phase {
        Phase::BackingOff => decided(pre, post, req),
        Phase::CheckingSecret(i) => match resp {
            Response::Fetched(Err(f)) => finished(pre, Err(OperatorError::Kube(f.message)), post, req),
            Response::Fetched(Ok(c)) => {
                &&& post == Reconciliation {
                    phase: Phase::CheckingConfigMap(i),
                    changed: pre.changed || child_changed(c),
                    ..pre
                }
                &&& req == get_config_map(targets(pre)[i as int])
            },
            _ => false,
        },
        Phase::CheckingConfigMap(i) => match resp {
            Response::Fetched(Err(f)) => finished(pre, Err(OperatorError::Kube(f.message)), post, req),
            Response::Fetched(Ok(c)) => {
                let seen = Reconciliation { changed: pre.changed || child_changed(c), ..pre };
                if i + 1 < n {
                    &&& post == Reconciliation { phase: Phase::CheckingSecret((i + 1) as usize), ..seen }
                    &&& req == get_secret(targets(pre)[i + 1])
                } else {
                    checks_done(seen, post, req)
                }
            },
            _ => false,
        },
        Phase::CheckingExpiry => match resp {
            Response::Clock(now) => expiry_decided(pre, now, post, req),
            _ => false,
        },
        Phase::FindingSecret(i) => match resp {
            Response::Fetched(Err(f)) => concluded_write_failure(pre, f, true, post, req),
            Response::Fetched(Ok(c)) => {
                &&& post == Reconciliation { phase: Phase::WritingSecret(i), ..pre }
                &&& writes_secret(req, c is Some, targets(pre)[i as int], pre.key->Some_0)
            },
            _ => false,
        },
        Phase::WritingSecret(i) => match resp {
            Response::Written(Err(f)) => concluded_write_failure(pre, f, true, post, req),
            Response::Written(Ok(())) => {
                &&& post == Reconciliation { phase: Phase::ReadingKeys(i), ..pre }
                &&& req == get_config_map(targets(pre)[i as int])
            },
            _ => false,
        },
        Phase::ReadingKeys(i) => match resp {
            Response::Fetched(Err(f)) => concluded(pre, Err(OperatorError::Kube(f.message)), post, req),
            Response::Fetched(Ok(c)) => match lookup(data_of(c), targets(pre)[i as int].config_map_field@) {
                Some(text) => {
                    &&& post == Reconciliation { phase: Phase::ParsingKeys(i), ..pre }
                    &&& req == Request::ParseKeySet(text)
                },
                None => {
                    &&& post == Reconciliation { phase: Phase::SerialisingKeys(i), ..pre }
                    &&& serialises_next_key_set(req, None, pre.key->Some_0, pre.obj.spec.depth)
                },
            },
            _ => false,
        },
        Phase::ParsingKeys(i) => match resp {
            Response::Parsed(existing) => {
                &&& post == Reconciliation { phase: Phase::SerialisingKeys(i), ..pre }
                &&& serialises_next_key_set(req, existing, pre.key->Some_0, pre.obj.spec.depth)
            },
            _ => false,
        },
        Phase::SerialisingKeys(i) => match resp {
            Response::Serialised(Err(m)) => concluded(pre, Err(OperatorError::KeySet(m)), post, req),
            Response::Serialised(Ok(text)) => {
                &&& post == Reconciliation { phase: Phase::FindingConfigMap(i), key_set: Some(text), ..pre }
                &&& req == get_config_map(targets(pre)[i as int])
            },
            _ => false,
        },
        Phase::FindingConfigMap(i) => match resp {
            Response::Fetched(Err(f)) => concluded_write_failure(pre, f, false, post, req),
            Response::Fetched(Ok(c)) => {
                &&& post == Reconciliation { phase: Phase::WritingConfigMap(i), key_set: None, ..pre }
                &&& writes_config_map(req, c is Some, targets(pre)[i as int], pre.key_set->Some_0)
            },
            _ => false,
        },
        Phase::WritingConfigMap(i) => match resp {
            Response::Written(Err(f)) => concluded_write_failure(pre, f, false, post, req),
            Response::Written(Ok(())) => if i + 1 < n {
                &&& post == Reconciliation { phase: Phase::FindingSecret((i + 1) as usize), ..pre }
                &&& req == get_secret(targets(pre)[i + 1])
            } else {
                concluded(pre, Ok(interval(pre)), post, req)
            },
            _ => false,
        },
        Phase::PatchingStatus => match resp {
            Response::Written(Err(f)) => finished(pre, Err(OperatorError::Kube(f.message)), post, req),
            Response::Written(Ok(())) => match pre.outcome {
                Some(Ok(seconds)) => finished(pre, Ok(seconds), post, req),
                Some(Err(e)) => {
                    &&& post == Reconciliation { phase: Phase::PublishingEvent, ..pre }
                    &&& req matches Request::PublishEvent { note, action }
                    &&& note@ == message_of(e)
                    &&& action@ == "update"@
                },
                None => false,
            },
            _ => false,
        },
        Phase::PublishingEvent => match resp {
            Response::Written(Err(f)) => finished(pre, Err(OperatorError::Kube(f.message)), post, req),
            Response::Written(Ok(())) => finished(pre, pre.outcome->Some_0, post, req),
            _ => false,
        },
        Phase::Finished => false,
    }
}

impl Reconciliation {
    /// The invariant of a reconciliation: the templates of the resource are string maps, the
    /// target index is in range, the key exists while targets are written, the serialised
    /// key set exists while a config map is looked up, and the outcome exists (an error while
    /// an event is published) once it is being recorded.
    pub open spec fn wf(&self) -> bool {
        let n = self.obj.spec.targets@.len();
        &&& n <= usize::MAX
        &&& spec_templates_are_maps(self.obj.spec)
        &&& (self.outcome matches Some(Ok(s)) ==> s == self.obj.spec.interval_seconds)
        &&& match self.phase {
            Phase::BackingOff => !self.changed && self.key is None && self.key_set is None
                && self.outcome is None,
            Phase::CheckingSecret(i) | Phase::CheckingConfigMap(i) => i < n && self.key is None
                && self.key_set is None && self.outcome is None,
            Phase::CheckingExpiry => !self.changed && self.key is None && self.key_set is None
                && self.outcome is None,
            Phase::FindingSecret(i) | Phase::WritingSecret(i) | Phase::ReadingKeys(i)
            | Phase::ParsingKeys(i) | Phase::SerialisingKeys(i) | Phase::WritingConfigMap(i) => i < n
                && self.key is Some && self.key_set is None && self.outcome is None,
            Phase::FindingConfigMap(i) => i < n && self.key is Some && self.key_set is Some
                && self.outcome is None,
            Phase::PatchingStatus => self.outcome is Some,
            Phase::PublishingEvent => self.outcome matches Some(Err(_)),
            Phase::Finished => true,
        }
    }

    /// Whether the response answers the request that the reconciliation waits on.
    pub fn accepts(&self, resp: &Response) -> (r: bool)
        ensures
            r == spec_accepts(*self, *resp),
    {
        match self.phase {
            Phase::BackingOff => matches!(resp, Response::BackedOff),
            Phase::CheckingExpiry => matches!(resp, Response::Clock(_)),
            Phase::CheckingSecret(_) | Phase::CheckingConfigMap(_) | Phase::FindingSecret(_)
            | Phase::ReadingKeys(_) | Phase::FindingConfigMap(_) => matches!(resp, Response::Fetched(_)),
            Phase::WritingSecret(_) | Phase::WritingConfigMap(_) | Phase::PatchingStatus
            | Phase::PublishingEvent => matches!(resp, Response::Written(_)),
            Phase::ParsingKeys(_) => matches!(resp, Response::Parsed(_)),
            Phase::SerialisingKeys(_) => matches!(resp, Response::Serialised(_)),
            Phase::Finished => false,
        }
    }

    /// Whether answering this response overflows: the interval added to the last success goes
    /// past `chrono`'s last moment, or a key set is computed for a depth of zero.
    pub fn overflows(&self, resp: &Response) -> (r: bool)
        requires
            self.wf(),
        ensures
            r == spec_overflows(*self, *resp),
    {
        match self.phase {
            Phase::CheckingExpiry => !is_deadline_representable(&self.obj),
            Phase::ReadingKeys(i) => self.obj.spec.depth == 0 && match resp {
                Response::Fetched(Ok(c)) => {
                    let none: Vec<(String, String)> = Vec::new();
                    let data = match c {
                        Some(c) => &c.data,
                        None => &none,
                    };
                    find_field(data, &self.obj.spec.targets[i].config_map_field).is_none()
                },
                _ => false,
            },
            Phase::ParsingKeys(_) => self.obj.spec.depth == 0,
            _ => false,
        }
    }

    /// Whether the reconciliation is over.
    pub fn is_finished(&self) -> (r: bool)
        ensures
            r == (self.phase == Phase::Finished),
    {
        matches!(self.phase, Phase::Finished)
    }

    /// Starts the reconciliation of a resource: a back-off when it is not ready, else the
    /// decision whether it needs reconciliation.
    pub fn begin(obj: RotateKeys) -> (res: (Reconciliation, Request))
        requires
            spec_templates_are_maps(obj.spec),
        ensures
            res.0.wf(),
            obj.not_ready ==> res.0 == initial(obj) && res.1 == (Request::BackOff {
                seconds: BACK_OFF_SECONDS,
            }),
            !obj.not_ready ==> decided(initial(obj), res.0, res.1),
    {
        let not_ready = obj.not_ready;
        proof {
            assert(obj.spec.targets@.len() == obj.spec.targets.len());
        }
        let r = Reconciliation {
            obj,
            phase: Phase::BackingOff,
            changed: false,
            key: None,
            key_set: None,
            outcome: None,
        };
        if not_ready {
            (r, Request::BackOff { seconds: BACK_OFF_SECONDS })
        } else {
            r.decide()
        }
    }

    fn get_secret_of(t: &Target) -> (req: Request)
        ensures
            req == get_secret(*t),
    {
        Request::GetSecret { namespace: t.namespace.clone(), name: t.name.clone() }
    }

    fn get_config_map_of(t: &Target) -> (req: Request)
        ensures
            req == get_config_map(*t),
    {
        Request::GetConfigMap { namespace: t.namespace.clone(), name: t.name.clone() }
    }

    fn conclude(self, outcome: Result<u64, OperatorError>) -> (res: (Reconciliation, Request))
        ensures
            concluded(self, outcome, res.0, res.1),
    {
        let error = match &outcome {
            Ok(_) => None,
            Err(e) => Some(e.message()),
        };
        (
            Reconciliation { phase: Phase::PatchingStatus, outcome: Some(outcome), ..self },
            Request::PatchStatus { error },
        )
    }

    fn finish(self, result: Result<u64, OperatorError>) -> (res: (Reconciliation, Request))
        ensures
            finished(self, result, res.0, res.1),
    {
        (Reconciliation { phase: Phase::Finished, outcome: None, ..self }, Request::Finish(result))
    }

    fn begin_patching(self) -> (res: (Reconciliation, Request))
        requires
            self.wf(),
            self.key is None,
            self.key_set is None,
            self.outcome is None,
        ensures
            patching_begun(self, res.0, res.1),
            res.0.wf(),
    {
        match generate_key() {
            Err(e) => self.conclude(Err(e)),
            Ok(key) => {
                let seconds = requeue(&self.obj);
                let with_key = Reconciliation { key: Some(key), ..self };
                if with_key.obj.spec.targets.len() == 0 {
                    with_key.conclude(Ok(seconds))
                } else {
                    let req = Self::get_secret_of(&with_key.obj.spec.targets[0]);
                    (Reconciliation { phase: Phase::FindingSecret(0), ..with_key }, req)
                }
            },
        }
    }

    fn checks_over(self) -> (res: (Reconciliation, Request))
        requires
            self.wf(),
            self.key is None,
            self.key_set is None,
            self.outcome is None,
        ensures
            checks_done(self, res.0, res.1),
            res.0.wf(),
    {
        if self.changed {
            self.begin_patching()
        } else {
            (Reconciliation { phase: Phase::CheckingExpiry, ..self }, Request::ReadClock)
        }
    }

    fn decide(self) -> (res: (Reconciliation, Request))
        requires
            self.wf(),
            !self.changed,
            self.key is None,
            self.key_set is None,
            self.outcome is None,
        ensures
            decided(self, res.0, res.1),
            res.0.wf(),
    {
        if should_reconcile(&self.obj) {
            self.begin_patching()
        } else if self.obj.spec.targets.len() == 0 {
            self.checks_over()
        } else {
            let req = Self::get_secret_of(&self.obj.spec.targets[0]);
            (Reconciliation { phase: Phase::CheckingSecret(0), ..self }, req)
        }
    }

    /// Takes the response to the pending request and says what comes next.
    pub fn step(self, resp: Response) -> (res: (Reconciliation, Request))
        requires
            self.wf(),
            spec_accepts(self, resp),
            !spec_overflows(self, resp),
        ensures
            res.0.wf(),
            next(self, resp, res.0, res.1),
    {
        let n = self.obj.spec.targets.len();
        match self.phase {
            Phase::BackingOff => self.decide(),
            Phase::CheckingSecret(i) => match resp {
                Response::Fetched(Err(f)) => self.finish(Err(OperatorError::Kube(f.message))),
                Response::Fetched(Ok(c)) => {
                    let changed = self.changed || match &c {
                        None => true,
                        Some(c) => !c.own_update,
                    };
                    let req = Self::get_config_map_of(&self.obj.spec.targets[i]);
                    (Reconciliation { phase: Phase::CheckingConfigMap(i), changed, ..self }, req)
                },
                _ => {
                    assert(false);
                    self.finish(Ok(0))
                },
            },
            Phase::CheckingConfigMap(i) => match resp {
                Response::Fetched(Err(f)) => self.finish(Err(OperatorError::Kube(f.message))),
                Response::Fetched(Ok(c)) => {
                    let changed = self.changed || match &c {
                        None => true,
                        Some(c) => !c.own_update,
                    };
                    let seen = Reconciliation { changed, ..self };
                    if i + 1 < n {
                        let req = Self::get_secret_of(&seen.obj.spec.targets[i + 1]);
                        (Reconciliation { phase: Phase::CheckingSecret(i + 1), ..seen }, req)
                    } else {
                        seen.checks_over()
                    }
                },
                _ => {
                    assert(false);
                    self.finish(Ok(0))
                },
            },
            Phase::CheckingExpiry => match resp {
                Response::Clock(now) => {
                    if is_expired_at(self.obj.last_success, self.obj.spec.interval_seconds, now) {
                        self.begin_patching()
                    } else {
                        let seconds = requeue(&self.obj);
                        self.finish(Ok(seconds))
                    }
                },
                _ => {
                    assert(false);
                    self.finish(Ok(0))
                },
            },
            Phase::FindingSecret(i) => match resp {
                Response::Fetched(Err(f)) => {
                    let m = source_message(&f);
                    self.conclude(Err(OperatorError::SecretCreation(m)))
                },
                Response::Fetched(Ok(c)) => {
                    let req = match &self.key {
                        Some(key) => {
                            let secret = make_secret(&self.obj.spec.targets[i], key);
                            if c.is_some() {
                                Request::ReplaceSecret(secret)
                            } else {
                                Request::CreateSecret(secret)
                            }
                        },
                        None => {
                            assert(false);
                            Request::Finish(Ok(0))
                        },
                    };
                    (Reconciliation { phase: Phase::WritingSecret(i), ..self }, req)
                },
                _ => {
                    assert(false);
                    self.finish(Ok(0))
                },
            },
            Phase::WritingSecret(i) => match resp {
                Response::Written(Err(f)) => {
                    let m = source_message(&f);
                    self.conclude(Err(OperatorError::SecretCreation(m)))
                },
                Response::Written(Ok(())) => {
                    let req = Self::get_config_map_of(&self.obj.spec.targets[i]);
                    (Reconciliation { phase: Phase::ReadingKeys(i), ..self }, req)
                },
                _ => {
                    assert(false);
                    self.finish(Ok(0))
                },
            },
            Phase::ReadingKeys(i) => match resp {
                Response::Fetched(Err(f)) => self.conclude(Err(OperatorError::Kube(f.message))),
                Response::Fetched(Ok(c)) => {
                    let data = match c {
                        Some(c) => c.data,
                        None => Vec::new(),
                    };
                    let found = find_field(&data, &self.obj.spec.targets[i].config_map_field);
                    match found {
                        Some(text) => (
                            Reconciliation { phase: Phase::ParsingKeys(i), ..self },
                            Request::ParseKeySet(text),
                        ),
                        None => self.next_key_set_request(i, None),
                    }
                },
                _ => {
                    assert(false);
                    self.finish(Ok(0))
                },
            },
            Phase::ParsingKeys(i) => match resp {
                Response::Parsed(existing) => self.next_key_set_request(i, existing),
                _ => {
                    assert(false);
                    self.finish(Ok(0))
                },
            },
            Phase::SerialisingKeys(i) => match resp {
                Response::Serialised(Err(m)) => self.conclude(Err(OperatorError::KeySet(m))),
                Response::Serialised(Ok(text)) => {
                    let req = Self::get_config_map_of(&self.obj.spec.targets[i]);
                    (
                        Reconciliation {
                            phase: Phase::FindingConfigMap(i),
                            key_set: Some(text),
                            ..self
                        },
                        req,
                    )
                },
                _ => {
                    assert(false);
                    self.finish(Ok(0))
                },
            },
            Phase::FindingConfigMap(i) => match resp {
                Response::Fetched(Err(f)) => {
                    let m = source_message(&f);
                    self.conclude(Err(OperatorError::ConfigMapCreation(m)))
                },
                Response::Fetched(Ok(c)) => {
                    let found = c.is_some();
                    let Reconciliation { obj, phase: _, changed, key, key_set, outcome } = self;
                    let req = match key_set {
                        Some(text) => {
                            let config_map = make_config_map(&obj.spec.targets[i], text);
                            if found {
                                Request::ReplaceConfigMap(config_map)
                            } else {
                                Request::CreateConfigMap(config_map)
                            }
                        },
                        None => {
                            assert(false);
                            Request::Finish(Ok(0))
                        },
                    };
                    (
                        Reconciliation {
                            obj,
                            phase: Phase::WritingConfigMap(i),
                            changed,
                            key,
                            key_set: None,
                            outcome,
                        },
                        req,
                    )
                },
                _ => {
                    assert(false);
                    self.finish(Ok(0))
                },
            },
            Phase::WritingConfigMap(i) => match resp {
                Response::Written(Err(f)) => {
                    let m = source_message(&f);
                    self.conclude(Err(OperatorError::ConfigMapCreation(m)))
                },
                Response::Written(Ok(())) => {
                    if i + 1 < n {
                        let req = Self::get_secret_of(&self.obj.spec.targets[i + 1]);
                        (Reconciliation { phase: Phase::FindingSecret(i + 1), ..self }, req)
                    } else {
                        let seconds = requeue(&self.obj);
                        self.conclude(Ok(seconds))
                    }
                },
                _ => {
                    assert(false);
                    self.finish(Ok(0))
                },
            },
            Phase::PatchingStatus => match resp {
                Response::Written(Err(f)) => self.finish(Err(OperatorError::Kube(f.message))),
                Response::Written(Ok(())) => {
                    let note = match &self.outcome {
                        Some(Ok(_)) => None,
                        Some(Err(e)) => Some(e.message()),
                        None => {
                            assert(false);
                            None
                        },
                    };
                    match note {
                        Some(note) => (
                            Reconciliation { phase: Phase::PublishingEvent, ..self },
                            Request::PublishEvent { note, action: "update".to_string() },
                        ),
                        None => {
                            let seconds = match self.outcome {
                                Some(Ok(seconds)) => seconds,
                                _ => {
                                    assert(false);
                                    0
                                },
                            };
                            Reconciliation { outcome: Some(Ok(seconds)), ..self }.finish(Ok(seconds))
                        },
                    }
                },
                _ => {
                    assert(false);
                    self.finish(Ok(0))
                },
            },
            Phase::PublishingEvent => match resp {
                Response::Written(Err(f)) => self.finish(Err(OperatorError::Kube(f.message))),
                Response::Written(Ok(())) => {
                    let Reconciliation { obj, phase: _, changed, key, key_set, outcome } = self;
                    let result = match outcome {
                        Some(result) => result,
                        None => {
                            assert(false);
                            Ok(0)
                        },
                    };
                    (
                        Reconciliation { obj, phase: Phase::Finished, changed, key, key_set, outcome: None },
                        Request::Finish(result),
                    )
                },
                _ => {
                    assert(false);
                    self.finish(Ok(0))
                },
            },
            Phase::Finished => {
                assert(false);
                self.finish(Ok(0))
            },
        }
    }

    fn next_key_set_request(self, i: usize, existing: Option<KeySet>) -> (res: (Reconciliation, Request))
        requires
            self.wf(),
            self.obj.spec.depth >= 1,
            self.key is Some,
            self.key_set is None,
            self.outcome is None,
            i < self.obj.spec.targets@.len(),
        ensures
            res.0 == (Reconciliation { phase: Phase::SerialisingKeys(i), ..self }),
            serialises_next_key_set(res.1, existing, self.key->Some_0, self.obj.spec.depth),
    {
        let req = match &self.key {
            Some(key) => Request::SerialiseKeySet(next_key_set(existing, key, self.obj.spec.depth)),
            None => {
                assert(false);
                Request::Finish(Ok(0))
            },
        };
        (Reconciliation { phase: Phase::SerialisingKeys(i), ..self }, req)
    }
}

} // verus!
