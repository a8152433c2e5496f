//! What holds of the library as a whole: of every step of a reconciliation, of the key sets
//! and of the templates.
use crate::children::{
    anchored, is_config_map_for, is_secret_data, is_secret_for, lookup, ConfigMapObject,
    SecretObject,
};
use crate::error::{message_of, OperatorError};
use crate::key_set::{KeySet, PublicKey};
use crate::keys::{
    escaped_lines, exponent_65537, generated, hex, hex_digit, hyphenated, is_public_key_of, key_made_of,
    pkcs1_public_numbers, retained, Key,
};
use crate::reconcile::{
    decided, is_status_patch, next, serialises_next_key_set, spec_accepts, spec_overflows, targets, Phase, Reconciliation, Request, Response,
};
use crate::resource::{distinct_keys, expired, LATEST_SECS, spec_should_reconcile, RotateKeys, Target, Timestamp};
use crate::text::{lemma_replaced_absent, occurs_in, replaced};
use vstd::prelude::*;

verus! {

/// How far a reconciliation has come, for a resource with `n` targets.
pub open spec fn rank(phase: Phase, n: int) -> int {
    match phase {
        Phase::BackingOff => 0,
        Phase::CheckingSecret(i) => 1 + 2 * i,
        Phase::CheckingConfigMap(i) => 2 + 2 * i,
        Phase::CheckingExpiry => 2 * n + 1,
        Phase::FindingSecret(i) => 2 * n + 2 + 7 * i,
        Phase::WritingSecret(i) => 2 * n + 3 + 7 * i,
        Phase::ReadingKeys(i) => 2 * n + 4 + 7 * i,
        Phase::ParsingKeys(i) => 2 * n + 5 + 7 * i,
        Phase::SerialisingKeys(i) => 2 * n + 6 + 7 * i,
        Phase::FindingConfigMap(i) => 2 * n + 7 + 7 * i,
        Phase::WritingConfigMap(i) => 2 * n + 8 + 7 * i,
        Phase::PatchingStatus => 9 * n + 2,
        Phase::PublishingEvent => 9 * n + 3,
        Phase::Finished => 9 * n + 4,
    }
}

/// Every step keeps the invariant, moves a reconciliation forward and leaves the resource as it
/// was: the children
/// are looked at target by target, then each target's secret is written before its config map
/// and before the next target, then the status is patched, then the event is published. So a
/// reconciliation of a resource with `n` targets ends after at most `9 n + 4` steps.
pub proof fn law_each_step_advances(pre: Reconciliation, resp: Response, post: Reconciliation, req: Request)
    requires
        pre.wf(),
        spec_accepts(pre, resp),
        next(pre, resp, post, req),
    ensures
        post.wf(),
        post.obj == pre.obj,
        rank(post.phase, targets(pre).len() as int) > rank(pre.phase, targets(pre).len() as int),
        rank(post.phase, targets(pre).len() as int) <= 9 * targets(pre).len() + 4,
{
}

/// Once a key pair has been generated it is the one that every later step uses: all targets
/// receive the same key pair.
pub proof fn law_one_key_per_reconciliation(
    pre: Reconciliation,
    resp: Response,
    post: Reconciliation,
    req: Request,
)
    requires
        pre.wf(),
        spec_accepts(pre, resp),
        next(pre, resp, post, req),
        pre.key is Some,
    ensures
        post.key == pre.key,
{
}

/// The secret that a step writes holds the reconciliation's key pair, filled into the
/// target's template, and the key set that it serialises ends with the public half of that
/// same key pair, after at most `depth - 1` older keys.
pub proof fn law_children_carry_the_key(
    pre: Reconciliation,
    resp: Response,
    post: Reconciliation,
    req: Request,
)
    requires
        pre.wf(),
        spec_accepts(pre, resp),
        next(pre, resp, post, req),
        !spec_overflows(pre, resp),
    ensures
        req matches Request::CreateSecret(s) ==> post.phase matches Phase::WritingSecret(i)
            && is_secret_for(s, targets(pre)[i as int], post.key->Some_0),
        req matches Request::ReplaceSecret(s) ==> post.phase matches Phase::WritingSecret(i)
            && is_secret_for(s, targets(pre)[i as int], post.key->Some_0),
        req matches Request::SerialiseKeySet(ks) ==> {
            &&& is_public_key_of(ks.keys@.last(), post.key->Some_0)
            &&& 1 <= ks.keys@.len() <= pre.obj.spec.depth
        },
{
    if req is SerialiseKeySet {
        let ks = req->SerialiseKeySet_0;
        let old_keys = ks.keys@.drop_last();
        assert(ks.keys@.len() == old_keys.len() + 1);
    }
}

/// When writing a child, reading the key set or serialising it fails, the reconciliation's
/// outcome is that error and the next request records its message in the status.
pub proof fn law_failures_are_recorded(
    pre: Reconciliation,
    resp: Response,
    post: Reconciliation,
    req: Request,
)
    requires
        pre.wf(),
        spec_accepts(pre, resp),
        next(pre, resp, post, req),
        pre.phase matches Phase::FindingSecret(_) || pre.phase matches Phase::WritingSecret(_)
            || pre.phase matches Phase::ReadingKeys(_) || pre.phase matches Phase::SerialisingKeys(_)
            || pre.phase matches Phase::FindingConfigMap(_) || pre.phase matches Phase::WritingConfigMap(_),
        resp matches Response::Fetched(Err(_)) || resp matches Response::Written(Err(_))
            || resp matches Response::Serialised(Err(_)),
    ensures
        post.phase == Phase::PatchingStatus,
        post.outcome matches Some(Err(e)),
        req matches Request::PatchStatus { error } && error matches Some(m)
            && m@ == message_of(post.outcome->Some_0->Err_0),
{
}

/// A status patch records the outcome of the reconciliation: no error exactly when it
/// succeeded. After a failure has been recorded, the event that is published carries the
/// same message.
pub proof fn law_status_reflects_outcome(
    pre: Reconciliation,
    resp: Response,
    post: Reconciliation,
    req: Request,
)
    requires
        pre.wf(),
        spec_accepts(pre, resp),
        next(pre, resp, post, req),
    ensures
        req is PatchStatus ==> post.outcome is Some && is_status_patch(req, post.outcome->Some_0),
        req is PatchStatus ==> (req->error is None <==> post.outcome matches Some(Ok(_))),
        req is PatchStatus && req->error is Some ==> (post.outcome matches Some(Err(e))
            && req->error->Some_0@ == message_of(e)),
        req matches Request::PublishEvent { note, action } ==> post.outcome matches Some(Err(e))
            && note@ == message_of(e) && action@ == "update"@,
{
}

/// A reconciliation that succeeds asks to be requeued after the resource's interval.
pub proof fn law_success_requeues_after_interval(
    pre: Reconciliation,
    resp: Response,
    post: Reconciliation,
    req: Request,
)
    requires
        pre.wf(),
        spec_accepts(pre, resp),
        next(pre, resp, post, req),
        req matches Request::Finish(Ok(_)),
    ensures
        req->Finish_0->Ok_0 == pre.obj.spec.interval_seconds,
{
}

/// Whether a step starts a rotation: the key pair is generated, or its generation failed.
pub open spec fn starts_rotation(pre: Reconciliation, post: Reconciliation) -> bool {
    pre.key is None && (post.key is Some || post.phase == Phase::PatchingStatus)
}

/// Keys rotate only for a cause, decided at one of three points. At the start, when the
/// resource asks for it: it is not ready or someone else changed it. After the children have
/// been looked at, when one of them is missing or was changed by someone else. After the clock
/// has been read, when the interval since the last success has passed at that moment.
pub proof fn law_rotation_has_a_cause(
    pre: Reconciliation,
    resp: Response,
    post: Reconciliation,
    req: Request,
)
    requires
        pre.wf(),
        spec_accepts(pre, resp),
        next(pre, resp, post, req),
        starts_rotation(pre, post),
    ensures
        ({
            ||| pre.phase == Phase::BackingOff && spec_should_reconcile(&pre.obj)
            ||| pre.phase is CheckingConfigMap && post.changed
            ||| pre.phase == Phase::CheckingExpiry && (resp matches Response::Clock(now) && expired(
                pre.obj.last_success,
                pre.obj.spec.interval_seconds,
                now,
            ))
        }),
{
}

/// The decision at the start is exact: the keys rotate at once when the resource asks for it;
/// otherwise the children are looked at first, or, without targets, the clock is read.
pub proof fn law_resource_decides_first(pre: Reconciliation, post: Reconciliation, req: Request)
    requires
        pre.wf(),
        pre.phase == Phase::BackingOff,
        decided(pre, post, req),
    ensures
        spec_should_reconcile(&pre.obj) <==> starts_rotation(pre, post),
        !spec_should_reconcile(&pre.obj) ==> (post.phase == Phase::CheckingSecret(0)
            || post.phase == Phase::CheckingExpiry),
{
}

/// The decision on the clock is exact: when the interval has passed at the moment the clock
/// showed, a key pair is generated and the first target is written (or, without targets, the
/// success is recorded); when it has not passed and nothing else asked for a rotation, the
/// resource is requeued after its interval, no key is generated and nothing is written.
pub proof fn law_clock_decides_rotation(
    pre: Reconciliation,
    now: Timestamp,
    post: Reconciliation,
    req: Request,
)
    requires
        pre.wf(),
        pre.phase == Phase::CheckingExpiry,
        next(pre, Response::Clock(now), post, req),
    ensures
        expired(pre.obj.last_success, pre.obj.spec.interval_seconds, now) ==> starts_rotation(pre, post)
            && (post.key is Some ==> (req matches Request::GetSecret { .. } || req is PatchStatus)),
        !expired(pre.obj.last_success, pre.obj.spec.interval_seconds, now) ==> {
            &&& post.phase == Phase::Finished
            &&& post.key is None
            &&& req == Request::Finish(Ok(pre.obj.spec.interval_seconds as u64))
        },
{
}

/// A run of a reconciliation: each state answers its response, on which nothing overflows,
/// with the next state and request.
pub open spec fn is_run(states: Seq<Reconciliation>, resps: Seq<Response>, reqs: Seq<Request>) -> bool {
    &&& states.len() == resps.len() + 1
    &&& reqs.len() == resps.len()
    &&& states[0].wf()
    &&& forall|i: int|
        0 <= i < resps.len() ==> spec_accepts(states[i], #[trigger] resps[i]) && !spec_overflows(
            states[i],
            resps[i],
        ) && next(
            states[i],
            resps[i],
            states[i + 1],
            reqs[i],
        )
}

proof fn lemma_run_prefix(states: Seq<Reconciliation>, resps: Seq<Response>, reqs: Seq<Request>, k: int)
    requires
        is_run(states, resps, reqs),
        0 <= k <= resps.len(),
    ensures
        forall|i: int| 0 <= i <= k ==> (#[trigger] states[i]).wf() && states[i].obj == states[0].obj
            && rank(states[i].phase, targets(states[0]).len() as int) >= rank(
            states[0].phase,
            targets(states[0]).len() as int,
        ) + i,
    decreases k,
{
    if k > 0 {
        lemma_run_prefix(states, resps, reqs, k - 1);
        let j = k - 1;
        assert(spec_accepts(states[j], resps[j]) && next(states[j], resps[j], states[j + 1], reqs[j]));
        law_each_step_advances(states[j], resps[j], states[j + 1], reqs[j]);
    }
}

/// A reconciliation of a resource with `n` targets answers at most `9 n + 4` responses.
pub proof fn law_runs_are_bounded(states: Seq<Reconciliation>, resps: Seq<Response>, reqs: Seq<Request>)
    requires
        is_run(states, resps, reqs),
    ensures
        resps.len() <= 9 * targets(states[0]).len() + 4,
{
    let k = resps.len() as int;
    lemma_run_prefix(states, resps, reqs, k);
    if k > 0 {
        let j = k - 1;
        assert(spec_accepts(states[j], resps[j]) && next(states[j], resps[j], states[j + 1], reqs[j]));
        law_each_step_advances(states[j], resps[j], states[j + 1], reqs[j]);
        assert(states[j].obj == states[0].obj);
    }
}

proof fn lemma_key_stays(states: Seq<Reconciliation>, resps: Seq<Response>, reqs: Seq<Request>, a: int, b: int)
    requires
        is_run(states, resps, reqs),
        0 <= a <= b <= resps.len(),
        states[a].key is Some,
    ensures
        states[b].key == states[a].key,
    decreases b - a,
{
    if b > a {
        lemma_key_stays(states, resps, reqs, a, b - 1);
        lemma_run_prefix(states, resps, reqs, b - 1);
        let j = b - 1;
        assert(spec_accepts(states[j], resps[j]) && next(states[j], resps[j], states[j + 1], reqs[j]));
        law_one_key_per_reconciliation(states[j], resps[j], states[j + 1], reqs[j]);
    }
}

/// Within one reconciliation every secret that is written holds the same key pair, filled
/// into its target's template: all targets receive the same keys.
pub proof fn law_all_targets_get_the_same_key(
    states: Seq<Reconciliation>,
    resps: Seq<Response>,
    reqs: Seq<Request>,
    i: int,
    j: int,
)
    requires
        is_run(states, resps, reqs),
        0 <= i < resps.len(),
        0 <= j < resps.len(),
        reqs[i] is CreateSecret || reqs[i] is ReplaceSecret,
        reqs[j] is CreateSecret || reqs[j] is ReplaceSecret,
    ensures
        states[i + 1].key is Some,
        states[i + 1].key == states[j + 1].key,
        reqs[i] matches Request::CreateSecret(s) ==> is_secret_for(
            s,
            targets(states[0])[states[i + 1].phase->WritingSecret_0 as int],
            states[i + 1].key->Some_0,
        ),
        reqs[i] matches Request::ReplaceSecret(s) ==> is_secret_for(
            s,
            targets(states[0])[states[i + 1].phase->WritingSecret_0 as int],
            states[i + 1].key->Some_0,
        ),
{
    lemma_run_prefix(states, resps, reqs, resps.len() as int);
    assert(spec_accepts(states[i], resps[i]) && next(states[i], resps[i], states[i + 1], reqs[i]));
    assert(spec_accepts(states[j], resps[j]) && next(states[j], resps[j], states[j + 1], reqs[j]));
    law_children_carry_the_key(states[i], resps[i], states[i + 1], reqs[i]);
    law_children_carry_the_key(states[j], resps[j], states[j + 1], reqs[j]);
    assert(states[i + 1].key is Some);
    assert(states[j + 1].key is Some);
    if i <= j {
        lemma_key_stays(states, resps, reqs, i + 1, j + 1);
    } else {
        lemma_key_stays(states, resps, reqs, j + 1, i + 1);
    }
}

proof fn lemma_key_appears(states: Seq<Reconciliation>, resps: Seq<Response>, reqs: Seq<Request>, m: int)
    requires
        is_run(states, resps, reqs),
        0 <= m <= resps.len(),
        states[0].key is None,
        states[m].key is Some,
    ensures
        exists|j: int| 0 <= j < m && (#[trigger] states[j]).key is None && states[j + 1].key is Some,
    decreases m,
{
    if states[m - 1].key is None {
        assert(states[m - 1].key is None && states[(m - 1) + 1].key is Some);
    } else {
        lemma_key_appears(states, resps, reqs, m - 1);
        let j = choose|j: int| 0 <= j < m - 1 && (#[trigger] states[j]).key is None && states[j + 1].key is Some;
        assert(0 <= j < m && states[j].key is None && states[j + 1].key is Some);
    }
}

/// In a run that starts without a key pair, a secret is written only after a step that
/// started the rotation for a cause: the resource asked for it, a child was missing or
/// changed by someone else, or the clock showed that the interval had passed.
pub proof fn law_secrets_are_written_only_for_a_cause(
    states: Seq<Reconciliation>,
    resps: Seq<Response>,
    reqs: Seq<Request>,
    k: int,
)
    requires
        is_run(states, resps, reqs),
        states[0].key is None,
        0 <= k < resps.len(),
        reqs[k] is CreateSecret || reqs[k] is ReplaceSecret,
    ensures
        exists|j: int|
            0 <= j <= k && #[trigger] starts_rotation(states[j], states[j + 1]) && ({
                ||| states[j].phase == Phase::BackingOff && spec_should_reconcile(&states[j].obj)
                ||| states[j].phase is CheckingConfigMap && states[j + 1].changed
                ||| states[j].phase == Phase::CheckingExpiry && (resps[j] matches Response::Clock(now)
                    && expired(states[j].obj.last_success, states[j].obj.spec.interval_seconds, now))
            }),
{
    lemma_run_prefix(states, resps, reqs, resps.len() as int);
    assert(spec_accepts(states[k], resps[k]) && !spec_overflows(states[k], resps[k]) && next(
        states[k],
        resps[k],
        states[k + 1],
        reqs[k],
    ));
    law_children_carry_the_key(states[k], resps[k], states[k + 1], reqs[k]);
    lemma_key_appears(states, resps, reqs, k + 1);
    let j = choose|j: int| 0 <= j < k + 1 && (#[trigger] states[j]).key is None && states[j + 1].key is Some;
    assert(spec_accepts(states[j], resps[j]) && !spec_overflows(states[j], resps[j]) && next(
        states[j],
        resps[j],
        states[j + 1],
        reqs[j],
    ));
    assert(starts_rotation(states[j], states[j + 1]));
    law_rotation_has_a_cause(states[j], resps[j], states[j + 1], reqs[j]);
}

/// The key set that a step asks to serialise depends on the key pair only through its
/// exponent, identifier and modulus, never on its private key or algorithm; the config map
/// that follows holds that serialised set and nothing of the key pair besides.
pub proof fn law_key_sets_are_public(
    req: Request,
    existing: Option<KeySet>,
    k1: Key,
    k2: Key,
    depth: u32,
)
    requires
        k1.e == k2.e,
        k1.kid == k2.kid,
        k1.n == k2.n,
    ensures
        serialises_next_key_set(req, existing, k1, depth) <==> serialises_next_key_set(
            req,
            existing,
            k2,
            depth,
        ),
{
}

/// The secret written at step `q` is that of target `t`, with the key pair `key`.
pub open spec fn secret_written(
    states: Seq<Reconciliation>,
    reqs: Seq<Request>,
    q: int,
    t: int,
    key: Option<Key>,
) -> bool {
    &&& reqs[q] is CreateSecret || reqs[q] is ReplaceSecret
    &&& states[q + 1].phase matches Phase::WritingSecret(x) && x == t
    &&& states[q + 1].key == key
}

/// Between steps `lo` and `hi`, the secret of target `t` was written with `key`.
pub open spec fn covered(
    states: Seq<Reconciliation>,
    reqs: Seq<Request>,
    lo: int,
    hi: int,
    t: int,
    key: Option<Key>,
) -> bool {
    exists|q: int| lo < q < hi && #[trigger] secret_written(states, reqs, q, t, key)
}

/// Between steps `lo` and `hi`, the secrets of the targets below `i` were written with `key`.
pub open spec fn covered_below(
    states: Seq<Reconciliation>,
    reqs: Seq<Request>,
    lo: int,
    hi: int,
    i: int,
    key: Option<Key>,
) -> bool {
    forall|t: int| 0 <= t < i ==> #[trigger] covered(states, reqs, lo, hi, t, key)
}

pub open spec fn is_writing(phase: Phase) -> bool {
    ||| phase is FindingSecret
    ||| phase is WritingSecret
    ||| phase is ReadingKeys
    ||| phase is ParsingKeys
    ||| phase is SerialisingKeys
    ||| phase is FindingConfigMap
    ||| phase is WritingConfigMap
}

/// What holds at step `k` of a run whose clock step `j` started a rotation.
pub open spec fn rotation_inv(states: Seq<Reconciliation>, reqs: Seq<Request>, j: int, k: int) -> bool {
    let s = states[k];
    let key = states[j + 1].key;
    let n = targets(states[0]).len() as int;
    &&& is_writing(s.phase) || s.phase == Phase::PatchingStatus || s.phase == Phase::PublishingEvent
        || s.phase == Phase::Finished
    &&& (is_writing(s.phase) || s.outcome matches Some(Ok(_))) ==> s.key == key && key is Some
    &&& match s.phase {
        Phase::FindingSecret(i) => covered_below(states, reqs, j, k, i as int, key),
        Phase::WritingSecret(i) | Phase::ReadingKeys(i) | Phase::ParsingKeys(i)
        | Phase::SerialisingKeys(i) | Phase::FindingConfigMap(i) | Phase::WritingConfigMap(i) =>
            covered_below(states, reqs, j, k, i + 1, key),
        Phase::PatchingStatus | Phase::PublishingEvent => s.outcome matches Some(Ok(_))
            ==> covered_below(states, reqs, j, k, n, key),
        _ => true,
    }
}

proof fn lemma_covered_grows(
    states: Seq<Reconciliation>,
    reqs: Seq<Request>,
    lo: int,
    hi: int,
    i: int,
    key: Option<Key>,
)
    requires
        covered_below(states, reqs, lo, hi, i, key),
    ensures
        covered_below(states, reqs, lo, hi + 1, i, key),
{
    assert forall|t: int| 0 <= t < i implies #[trigger] covered(states, reqs, lo, hi + 1, t, key) by {
        assert(covered(states, reqs, lo, hi, t, key));
        let q = choose|q: int| lo < q < hi && #[trigger] secret_written(states, reqs, q, t, key);
        assert(lo < q < hi + 1 && secret_written(states, reqs, q, t, key));
    }
}

proof fn lemma_rotation_run(
    states: Seq<Reconciliation>,
    resps: Seq<Response>,
    reqs: Seq<Request>,
    j: int,
    k: int,
)
    requires
        is_run(states, resps, reqs),
        0 <= j < resps.len(),
        states[j].phase == Phase::CheckingExpiry,
        resps[j] matches Response::Clock(now) && expired(
            states[j].obj.last_success,
            states[j].obj.spec.interval_seconds,
            now,
        ),
        j + 1 <= k <= resps.len(),
    ensures
        rotation_inv(states, reqs, j, k),
    decreases k,
{
    lemma_run_prefix(states, resps, reqs, resps.len() as int);
    let n = targets(states[0]).len() as int;
    let key = states[j + 1].key;
    if k == j + 1 {
        assert(spec_accepts(states[j], resps[j]) && next(states[j], resps[j], states[j + 1], reqs[j]));
    } else {
        lemma_rotation_run(states, resps, reqs, j, k - 1);
        let p = k - 1;
        let pre = states[p];
        let post = states[k];
        assert(spec_accepts(pre, resps[p]) && !spec_overflows(pre, resps[p]) && next(pre, resps[p], post, reqs[p]));
        assert(pre.obj == states[0].obj);
        if pre.key is Some {
            law_one_key_per_reconciliation(pre, resps[p], post, reqs[p]);
        }
        match pre.phase {
            Phase::FindingSecret(i) => {
                lemma_covered_grows(states, reqs, j, p, i as int, key);
                if post.phase is WritingSecret {
                    assert(secret_written(states, reqs, p, i as int, key));
                    assert forall|t: int| 0 <= t < i + 1 implies #[trigger] covered(states, reqs, j, k, t, key) by {
                        if t == i {
                            assert(j < p < k && secret_written(states, reqs, p, t, key));
                        } else {
                            assert(covered(states, reqs, j, k, t, key));
                        }
                    }
                }
            },
            Phase::WritingSecret(i) | Phase::ReadingKeys(i) | Phase::ParsingKeys(i)
            | Phase::SerialisingKeys(i) | Phase::FindingConfigMap(i) => {
                lemma_covered_grows(states, reqs, j, p, i + 1, key);
            },
            Phase::WritingConfigMap(i) => {
                lemma_covered_grows(states, reqs, j, p, i + 1, key);
            },
            Phase::PatchingStatus | Phase::PublishingEvent => {
                if pre.outcome matches Some(Ok(_)) {
                    lemma_covered_grows(states, reqs, j, p, n, key);
                }
            },
            _ => {},
        }
    }
}

/// A run whose clock step finds the interval passed and that ends in success has generated a
/// fresh key pair at that step and written it to the secret of every target, the targets in
/// their order.
pub proof fn law_expired_runs_write_a_fresh_key_everywhere(
    states: Seq<Reconciliation>,
    resps: Seq<Response>,
    reqs: Seq<Request>,
    j: int,
)
    requires
        is_run(states, resps, reqs),
        0 <= j < resps.len(),
        states[j].phase == Phase::CheckingExpiry,
        resps[j] matches Response::Clock(now) && expired(
            states[j].obj.last_success,
            states[j].obj.spec.interval_seconds,
            now,
        ),
        reqs.last() matches Request::Finish(Ok(_)),
    ensures
        states[j].key is None,
        targets(states[0]).len() > 0 ==> (states[j + 1].key matches Some(k) && generated(k)),
        forall|t: int|
            0 <= t < targets(states[0]).len() ==> #[trigger] covered(
                states,
                reqs,
                j,
                resps.len() as int,
                t,
                states[j + 1].key,
            ),
        forall|q1: int, q2: int, t1: int, t2: int|
            j < q1 < q2 < resps.len() && #[trigger] secret_written(states, reqs, q1, t1, states[j + 1].key)
                && #[trigger] secret_written(states, reqs, q2, t2, states[j + 1].key) ==> t1 < t2,
{
    lemma_run_prefix(states, resps, reqs, resps.len() as int);
    let m = resps.len() as int;
    let n = targets(states[0]).len() as int;
    let key = states[j + 1].key;
    assert(spec_accepts(states[j], resps[j]) && next(states[j], resps[j], states[j + 1], reqs[j]));
    lemma_rotation_run(states, resps, reqs, j, m - 1);
    let p = m - 1;
    assert(spec_accepts(states[p], resps[p]) && !spec_overflows(states[p], resps[p]) && next(
        states[p],
        resps[p],
        states[p + 1],
        reqs[p],
    ));
    assert(reqs[p] == reqs.last());
    assert(states[p].phase == Phase::PatchingStatus && states[p].outcome matches Some(Ok(_)));
    lemma_covered_grows(states, reqs, j, p, n, key);
    if n > 0 {
        assert(covered(states, reqs, j, m, 0, key));
        assert(key is Some);
    }
    assert forall|q1: int, q2: int, t1: int, t2: int|
        j < q1 < q2 < resps.len() && #[trigger] secret_written(states, reqs, q1, t1, key)
            && #[trigger] secret_written(states, reqs, q2, t2, key) implies t1 < t2 by {
        lemma_rank_increases(states, resps, reqs, q1 + 1, q2 + 1);
    }
}

proof fn lemma_rank_increases(states: Seq<Reconciliation>, resps: Seq<Response>, reqs: Seq<Request>, a: int, b: int)
    requires
        is_run(states, resps, reqs),
        0 <= a < b <= resps.len(),
    ensures
        rank(states[b].phase, targets(states[0]).len() as int) > rank(
            states[a].phase,
            targets(states[0]).len() as int,
        ),
    decreases b - a,
{
    lemma_run_prefix(states, resps, reqs, resps.len() as int);
    let p = b - 1;
    assert(spec_accepts(states[p], resps[p]) && !spec_overflows(states[p], resps[p]) && next(
        states[p],
        resps[p],
        states[p + 1],
        reqs[p],
    ));
    law_each_step_advances(states[p], resps[p], states[p + 1], reqs[p]);
    if p > a {
        lemma_rank_increases(states, resps, reqs, a, p);
    }
}

/// The keys are due exactly when the last success plus the whole interval comes before the
/// moment the clock shows, and never before that; without a recorded success they are due.
pub proof fn law_deadline_is_the_whole_interval(t: Timestamp, interval_seconds: u32, now: Timestamp)
    ensures
        expired(None, interval_seconds, now),
        t.nanos < 1_000_000_000 ==> (expired(Some(t), interval_seconds, now) <==> (t.secs
            + interval_seconds < now.secs || (t.secs + interval_seconds == now.secs && t.nanos
            < now.nanos))),
        expired(Some(t), interval_seconds, now) ==> now.secs >= t.secs + interval_seconds,
{
}

/// A resource needs reconciliation by itself exactly when it is not ready or someone other
/// than this operator changed it last.
pub proof fn law_resource_reconciled_when_not_ready_or_changed(obj: RotateKeys)
    ensures
        obj.not_ready ==> spec_should_reconcile(&obj),
        !obj.own_update ==> spec_should_reconcile(&obj),
        spec_should_reconcile(&obj) ==> obj.not_ready || !obj.own_update,
{
}

/// The old keys that stay in circulation are exactly the newest `depth - 1`, or all of them
/// when there are fewer, in their order.
pub proof fn law_retained_keys_are_the_newest(old_keys: Seq<PublicKey>, depth: u32)
    requires
        depth >= 1,
    ensures
        old_keys.len() >= depth - 1 ==> retained(old_keys, depth).len() == depth - 1,
        old_keys.len() < depth - 1 ==> retained(old_keys, depth) == old_keys,
        forall|i: int|
            0 <= i < retained(old_keys, depth).len() ==> #[trigger] retained(old_keys, depth)[i]
                == old_keys[old_keys.len() - retained(old_keys, depth).len() + i],
{
    assert(old_keys.len() < depth - 1 ==> old_keys.subrange(0, old_keys.len() as int) =~= old_keys);
}

/// A child that is missing, or that exists but was changed last by someone other than this
/// operator, counts as changed: the reconciliation remembers it, or, after the last child,
/// starts the rotation.
pub proof fn law_foreign_or_missing_children_force_rotation(
    pre: Reconciliation,
    resp: Response,
    post: Reconciliation,
    req: Request,
)
    requires
        pre.wf(),
        spec_accepts(pre, resp),
        next(pre, resp, post, req),
        pre.phase is CheckingSecret || pre.phase is CheckingConfigMap,
        resp matches Response::Fetched(Ok(c)) && (c is None || !c->Some_0.own_update),
    ensures
        post.changed || starts_rotation(pre, post),
{
}

/// A child that this operator changed last changes nothing: after a secret the flag is as it
/// was, and after the last config map, when nothing changed, the clock is read.
pub proof fn law_own_children_change_nothing(
    pre: Reconciliation,
    resp: Response,
    post: Reconciliation,
    req: Request,
)
    requires
        pre.wf(),
        spec_accepts(pre, resp),
        next(pre, resp, post, req),
        pre.phase is CheckingSecret || pre.phase is CheckingConfigMap,
        resp matches Response::Fetched(Ok(Some(c))) && c.own_update,
    ensures
        pre.phase is CheckingSecret ==> post.changed == pre.changed,
        pre.phase matches Phase::CheckingConfigMap(i) && i + 1 == targets(pre).len() && !pre.changed
            ==> req == Request::ReadClock && post.key is None,
{
}

/// The value looked up under a key is that of the first entry with the key.
pub proof fn law_lookup_finds_the_first_entry(entries: Seq<(String, String)>, key: Seq<char>, k: int)
    requires
        0 <= k < entries.len(),
        entries[k].0@ == key,
        forall|l: int| 0 <= l < k ==> (#[trigger] entries[l]).0@ != key,
    ensures
        lookup(entries, key) == Some(entries[k].1),
    decreases k,
{
    if k > 0 {
        assert(entries[0].0@ != key);
        let rest = entries.drop_first();
        assert forall|l: int| 0 <= l < k - 1 implies (#[trigger] rest[l]).0@ != key by {
            assert(rest[l] == entries[l + 1]);
        }
        law_lookup_finds_the_first_entry(rest, key, k - 1);
    }
}

/// The key set is read from the target's own config map field: the first entry under that
/// field is the text that is parsed.
pub proof fn law_key_set_is_read_from_the_target_field(
    pre: Reconciliation,
    resp: Response,
    post: Reconciliation,
    req: Request,
    k: int,
)
    requires
        pre.wf(),
        spec_accepts(pre, resp),
        next(pre, resp, post, req),
        pre.phase is ReadingKeys,
        resp matches Response::Fetched(Ok(Some(c))) && 0 <= k < c.data@.len()
            && c.data@[k].0@ == targets(pre)[pre.phase->ReadingKeys_0 as int].config_map_field@
            && forall|l: int| 0 <= l < k ==> (#[trigger] c.data@[l]).0@
                != targets(pre)[pre.phase->ReadingKeys_0 as int].config_map_field@,
    ensures
        req == Request::ParseKeySet(resp->Fetched_0->Ok_0->Some_0.data@[k].1),
        post.phase == Phase::ParsingKeys(pre.phase->ReadingKeys_0),
{
    let c = resp->Fetched_0->Ok_0->Some_0;
    let i = pre.phase->ReadingKeys_0;
    law_lookup_finds_the_first_entry(c.data@, targets(pre)[i as int].config_map_field@, k);
}

/// A key set that was written to a target's config map is read back from it: when the config
/// map holds what `make_config_map` wrote for the target, its text is what is parsed.
pub proof fn law_written_key_sets_are_read_back(
    pre: Reconciliation,
    resp: Response,
    post: Reconciliation,
    req: Request,
    written: ConfigMapObject,
    text: String,
)
    requires
        pre.wf(),
        spec_accepts(pre, resp),
        next(pre, resp, post, req),
        pre.phase is ReadingKeys,
        is_config_map_for(written, targets(pre)[pre.phase->ReadingKeys_0 as int], text),
        resp matches Response::Fetched(Ok(Some(c))) && c.data@ == written.data@,
    ensures
        req == Request::ParseKeySet(text),
{
    let c = resp->Fetched_0->Ok_0->Some_0;
    let i = pre.phase->ReadingKeys_0;
    law_lookup_finds_the_first_entry(c.data@, targets(pre)[i as int].config_map_field@, 0);
}

/// Each failure is reported by what failed: a failed look-up or write of a secret as a
/// secret that could not be created, of a config map as a config map that could not be
/// created, both with the message of the error's source when it has one; a failed read of
/// the key set as a Kubernetes API error; a failed serialisation as a key set error.
pub proof fn law_failures_are_reported_by_kind(
    pre: Reconciliation,
    resp: Response,
    post: Reconciliation,
    req: Request,
)
    requires
        pre.wf(),
        spec_accepts(pre, resp),
        next(pre, resp, post, req),
    ensures
        (pre.phase is FindingSecret || pre.phase is WritingSecret) && (resp matches Response::Fetched(Err(f))
            || resp matches Response::Written(Err(f))) ==> {
            let f = if resp is Fetched { resp->Fetched_0->Err_0 } else { resp->Written_0->Err_0 };
            post.outcome matches Some(Err(OperatorError::SecretCreation(m))) && m@ == (match f.source {
                Some(src) => src@,
                None => f.message@,
            })
        },
        (pre.phase is FindingConfigMap || pre.phase is WritingConfigMap) && (resp matches Response::Fetched(
            Err(f),
        ) || resp matches Response::Written(Err(f))) ==> {
            let f = if resp is Fetched { resp->Fetched_0->Err_0 } else { resp->Written_0->Err_0 };
            post.outcome matches Some(Err(OperatorError::ConfigMapCreation(m))) && m@ == (match f.source {
                Some(src) => src@,
                None => f.message@,
            })
        },
        resp matches Response::Fetched(Err(f)) ==> (pre.phase is ReadingKeys ==> post.outcome
            == Some(Err::<u64, OperatorError>(OperatorError::Kube(f.message)))),
        resp matches Response::Serialised(Err(m)) ==> (pre.phase is SerialisingKeys ==> post.outcome
            == Some(Err::<u64, OperatorError>(OperatorError::KeySet(m)))),
{
}

/// A secret named after its target, `Opaque`, with the template's fields in their order.
pub open spec fn secret_of_target(s: SecretObject, t: Target) -> bool {
    &&& s.namespace == t.namespace
    &&& s.name == t.name
    &&& s.type_@ == "Opaque"@
    &&& s.string_data@.len() == t.template@.len()
    &&& forall|k: int| 0 <= k < s.string_data@.len() ==> (#[trigger] s.string_data@[k]).0 == t.template@[k].0
}

/// A config map named after its target that holds the key set text under the target's field
/// and nothing else.
pub open spec fn config_map_of_target(c: ConfigMapObject, t: Target, key_set: Option<String>) -> bool {
    &&& c.namespace == t.namespace
    &&& c.name == t.name
    &&& key_set is Some
    &&& c.data@ == seq![(t.config_map_field, key_set->Some_0)]
}

/// A child that exists is replaced and a child that is missing is created, and every request
/// about a child names the target of the phase it leads to: its namespace and its name. The
/// secret is `Opaque` and the config map holds the serialised key set under the target's field
/// and nothing else.
pub proof fn law_children_belong_to_their_target(
    pre: Reconciliation,
    resp: Response,
    post: Reconciliation,
    req: Request,
)
    requires
        pre.wf(),
        spec_accepts(pre, resp),
        next(pre, resp, post, req),
    ensures
        resp matches Response::Fetched(Ok(c)) ==> (pre.phase is FindingSecret ==> (c is Some
            <==> req is ReplaceSecret) && (c is None <==> req is CreateSecret)),
        resp matches Response::Fetched(Ok(c)) ==> (pre.phase is FindingConfigMap ==> (c is Some
            <==> req is ReplaceConfigMap) && (c is None <==> req is CreateConfigMap)),
        req matches Request::GetSecret { namespace, name } ==> {
            let i = match post.phase {
                Phase::CheckingSecret(i) => i,
                Phase::FindingSecret(i) => i,
                _ => 0,
            };
            &&& post.phase is CheckingSecret || post.phase is FindingSecret
            &&& namespace == targets(pre)[i as int].namespace
            &&& name == targets(pre)[i as int].name
        },
        req matches Request::GetConfigMap { namespace, name } ==> {
            let i = match post.phase {
                Phase::CheckingConfigMap(i) => i,
                Phase::ReadingKeys(i) => i,
                Phase::FindingConfigMap(i) => i,
                _ => 0,
            };
            &&& post.phase is CheckingConfigMap || post.phase is ReadingKeys
                || post.phase is FindingConfigMap
            &&& namespace == targets(pre)[i as int].namespace
            &&& name == targets(pre)[i as int].name
        },
        req matches Request::CreateSecret(s) ==> post.phase is WritingSecret && secret_of_target(
            s,
            targets(pre)[post.phase->WritingSecret_0 as int],
        ),
        req matches Request::ReplaceSecret(s) ==> post.phase is WritingSecret && secret_of_target(
            s,
            targets(pre)[post.phase->WritingSecret_0 as int],
        ),
        req matches Request::CreateConfigMap(c) ==> post.phase is WritingConfigMap
            && config_map_of_target(c, targets(pre)[post.phase->WritingConfigMap_0 as int], pre.key_set),
        req matches Request::ReplaceConfigMap(c) ==> post.phase is WritingConfigMap
            && config_map_of_target(c, targets(pre)[post.phase->WritingConfigMap_0 as int], pre.key_set),
{
    if req is CreateConfigMap || req is ReplaceConfigMap {
        let c = if req is CreateConfigMap { req->CreateConfigMap_0 } else { req->ReplaceConfigMap_0 };
        let i = post.phase->WritingConfigMap_0;
        assert(c.data@ =~= seq![(targets(pre)[i as int].config_map_field, pre.key_set->Some_0)]);
    }
}

/// Without an entry under the key, nothing is found.
pub proof fn law_lookup_without_the_key(entries: Seq<(String, String)>, key: Seq<char>)
    requires
        forall|l: int| 0 <= l < entries.len() ==> (#[trigger] entries[l]).0@ != key,
    ensures
        lookup(entries, key) is None,
    decreases entries.len(),
{
    if entries.len() > 0 {
        assert(entries[0].0@ != key);
        let rest = entries.drop_first();
        assert forall|l: int| 0 <= l < rest.len() implies (#[trigger] rest[l]).0@ != key by {
            assert(rest[l] == entries[l + 1]);
        }
        law_lookup_without_the_key(rest, key);
    }
}

proof fn lemma_replaced_whole(p: Seq<char>, r: Seq<char>)
    requires
        p.len() > 0,
    ensures
        replaced(p, p, r) == r,
{
    assert(p.subrange(0, p.len() as int) =~= p);
    assert(p.skip(p.len() as int) =~= Seq::<char>::empty());
    assert(replaced(Seq::<char>::empty(), p, r) == Seq::<char>::empty());
    assert(r + Seq::<char>::empty() =~= r);
}

proof fn lemma_placeholders_differ(a: Seq<char>, b: Seq<char>)
    requires
        a.len() == 5,
        b.len() == 5,
        a[1] != b[1],
    ensures
        !occurs_in(b, a),
{
    assert forall|i: int| 0 <= i && i + b.len() <= a.len() implies #[trigger] a.subrange(i, i + b.len())
        != b by {
        assert(i == 0);
        assert(a.subrange(i, i + b.len())[1] == a[1]);
    }
}

/// Each placeholder alone is filled with its value: `{KID}` with the key's identifier, `{PEM}`
/// with its private key and `{ALG}` with its algorithm, as long as the value put in does not
/// itself hold a placeholder that is filled after it.
pub proof fn law_each_placeholder_is_filled(key: Key)
    ensures
        !occurs_in("{PEM}"@, key.kid@) && !occurs_in("{ALG}"@, key.kid@) ==> anchored("{KID}"@, key)
            == key.kid@,
        !occurs_in("{ALG}"@, key.pem@) ==> anchored("{PEM}"@, key) == key.pem@,
        anchored("{ALG}"@, key) == key.alg@,
{
    reveal_strlit("{KID}");
    reveal_strlit("{PEM}");
    reveal_strlit("{ALG}");
    let kid = "{KID}"@;
    let pem = "{PEM}"@;
    let alg = "{ALG}"@;
    lemma_placeholders_differ(kid, pem);
    lemma_placeholders_differ(kid, alg);
    lemma_placeholders_differ(pem, kid);
    lemma_placeholders_differ(pem, alg);
    lemma_placeholders_differ(alg, kid);
    lemma_placeholders_differ(alg, pem);
    lemma_replaced_whole(kid, key.kid@);
    lemma_replaced_whole(pem, key.pem@);
    lemma_replaced_whole(alg, key.alg@);
    if !occurs_in(pem, key.kid@) && !occurs_in(alg, key.kid@) {
        lemma_replaced_absent(key.kid@, pem, key.pem@);
        lemma_replaced_absent(key.kid@, alg, key.alg@);
    }
    lemma_replaced_absent(pem, kid, key.kid@);
    if !occurs_in(alg, key.pem@) {
        lemma_replaced_absent(key.pem@, alg, key.alg@);
    }
    lemma_replaced_absent(alg, kid, key.kid@);
    lemma_replaced_absent(alg, pem, key.pem@);
}

proof fn lemma_no_char_after_replacing(s: Seq<char>, c: char, r: Seq<char>)
    requires
        !r.contains(c),
    ensures
        !replaced(s, seq![c], r).contains(c),
    decreases s.len(),
{
    if s.len() >= 1 {
        lemma_no_char_after_replacing(s.drop_first(), c, r);
        let rest = replaced(s.drop_first(), seq![c], r);
        if s.subrange(0, 1) == seq![c] {
            assert(s.skip(1) =~= s.drop_first());
            assert forall|i: int| 0 <= i < (r + rest).len() implies (r + rest)[i] != c by {
                if i < r.len() {
                    assert((r + rest)[i] == r[i]);
                } else {
                    assert((r + rest)[i] == rest[i - r.len()]);
                }
            }
        } else {
            assert(s[0] != c) by {
                if s[0] == c {
                    assert(s.subrange(0, 1) =~= seq![c]);
                }
            }
            assert forall|i: int| 0 <= i < (seq![s[0]] + rest).len() implies (seq![s[0]] + rest)[i]
                != c by {
                if i > 0 {
                    assert((seq![s[0]] + rest)[i] == rest[i - 1]);
                }
            }
        }
    }
}

/// The private key as it goes into a template holds no line feed: each one is written as a
/// backslash and an `n`.
pub proof fn law_pem_text_has_no_line_feeds(pem: Seq<char>)
    ensures
        !escaped_lines(pem).contains('\n'),
{
    assert(!seq!['\\', 'n'].contains('\n')) by {
        assert forall|i: int| 0 <= i < 2 implies seq!['\\', 'n'][i] != '\n' by {}
    }
    lemma_no_char_after_replacing(pem, '\n', seq!['\\', 'n']);
}

/// Answering a response overflows exactly in two places: when the clock is checked and the
/// interval added to the last success goes past chrono's last moment, and when the next key
/// set is computed for a depth of zero (after the key set was parsed, or when the config map
/// holds none under the target's field).
pub proof fn law_overflows_exactly_where_the_original_does(r: Reconciliation, resp: Response)
    ensures
        r.phase == Phase::CheckingExpiry ==> (spec_overflows(r, resp) <==> (r.obj.last_success matches Some(
            t,
        ) && t.secs + r.obj.spec.interval_seconds > LATEST_SECS)),
        r.phase is ParsingKeys ==> (spec_overflows(r, resp) <==> r.obj.spec.depth == 0),
        r.obj.spec.depth > 0 && r.phase != Phase::CheckingExpiry ==> !spec_overflows(r, resp),
        !(r.phase is ReadingKeys || r.phase is ParsingKeys || r.phase == Phase::CheckingExpiry)
            ==> !spec_overflows(r, resp),
{
}

/// A key set never holds more keys than the depth asks for, and the newest key is last.
pub proof fn law_key_set_within_depth(old_keys: Seq<PublicKey>, depth: u32)
    requires
        depth >= 1,
    ensures
        retained(old_keys, depth).len() + 1 <= depth,
        retained(old_keys, depth) == old_keys.subrange(
            old_keys.len() - retained(old_keys, depth).len(),
            old_keys.len() as int,
        ),
        old_keys.len() < depth ==> retained(old_keys, depth) == old_keys,
{
    assert(old_keys.len() < depth ==> old_keys.subrange(0, old_keys.len() as int) =~= old_keys);
}

/// A template value without any of the placeholders `{KID}`, `{PEM}` and `{ALG}` goes into
/// the secret as it is.
pub proof fn law_plain_values_are_copied(value: Seq<char>, key: Key)
    requires
        !occurs_in("{KID}"@, value),
        !occurs_in("{PEM}"@, value),
        !occurs_in("{ALG}"@, value),
    ensures
        anchored(value, key) == value,
{
    reveal_strlit("{KID}");
    reveal_strlit("{PEM}");
    reveal_strlit("{ALG}");
    lemma_replaced_absent(value, "{KID}"@, key.kid@);
    lemma_replaced_absent(value, "{PEM}"@, key.pem@);
    lemma_replaced_absent(value, "{ALG}"@, key.alg@);
}

/// The secret of a target has the fields of its template and no field twice.
pub proof fn law_secret_fields_are_the_template_fields(
    target: Target,
    key: Key,
    data: Seq<(String, String)>,
)
    requires
        target.wf(),
        is_secret_data(data, target.template@, key),
    ensures
        distinct_keys(data),
        forall|i: int| 0 <= i < data.len() ==> (#[trigger] data[i]).0 == target.template@[i].0,
{
    let template = target.template@;
    assert forall|i: int, j: int| 0 <= i < j < data.len() implies (#[trigger] data[i]).0@
        != (#[trigger] data[j]).0@ by {
        assert(data[i].0 == template[i].0);
        assert(data[j].0 == template[j].0);
        assert(template[i].0@ != template[j].0@);
    }
}

proof fn lemma_hex_len(b: Seq<u8>)
    ensures
        hex(b).len() == 2 * b.len(),
    decreases b.len(),
{
    if b.len() > 0 {
        lemma_hex_len(b.drop_first());
    }
}

/// A generated key pair is advertised for RS512 and identified by a version 4 UUID in its
/// hyphenated form: 36 characters, hyphens at positions 8, 13, 18 and 23, and the version
/// digit `4` at position 14.
pub proof fn law_generated_key_identity(key: Key)
    requires
        generated(key),
    ensures
        key.alg@ == "RS512"@,
        key.kid@.len() == 36,
        key.kid@[8] == '-' && key.kid@[13] == '-' && key.kid@[18] == '-' && key.kid@[23] == '-',
        key.kid@[14] == '4',
{
    let (n, id, pem) = choose|n: Seq<u8>, id: Seq<u8>, pem: Seq<u8>|
        {
            &&& #[trigger] key_made_of(key, exponent_65537(), n, id, pem)
            &&& n.len() == 256
            &&& pkcs1_public_numbers(pem) == (n, exponent_65537())
            &&& id.len() == 16
            &&& id[6] / 16 == 4
            &&& id[8] / 64 == 2
            &&& vstd::utf8::valid_utf8(pem)
        };
    let a = hex(id.subrange(0, 4));
    let b = hex(id.subrange(4, 6));
    let c = hex(id.subrange(6, 8));
    let d = hex(id.subrange(8, 10));
    let f = hex(id.subrange(10, 16));
    lemma_hex_len(id.subrange(0, 4));
    lemma_hex_len(id.subrange(4, 6));
    lemma_hex_len(id.subrange(6, 8));
    lemma_hex_len(id.subrange(8, 10));
    lemma_hex_len(id.subrange(10, 16));
    let s = hyphenated(id);
    assert(s == a + seq!['-'] + b + seq!['-'] + c + seq!['-'] + d + seq!['-'] + f);
    assert(c[0] == hex_digit(id[6] as int / 16)) by {
        assert(id.subrange(6, 8)[0] == id[6]);
    }
    assert(s[14] == c[0]);
}

} // verus!
