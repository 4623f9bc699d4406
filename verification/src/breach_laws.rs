//! What holds of every run of a breach experiment.

use crate::breach::{
    await_address, await_secret, breach_cleanup, breach_step, experiment_body, judgement, plant,
    reach_service, recovered, saw_the_secret, verdict_of, BreachView, ObservationView,
    ADDRESS_ATTEMPTS, SECRET_ATTEMPTS,
};
use crate::cluster::{
    ClusterReplyView, ClusterRequestView, ClusterStepView, ProgressView, ServiceView, Side,
};
use crate::isolation::CrossTenantView;
use vstd::prelude::*;

verus! {

/// Where a part of an experiment has come to its end.
pub open spec fn end_of<T>(progress: ProgressView<T>) -> int {
    match progress {
        ProgressView::Got(_, at) => at,
        ProgressView::Stuck(_, at) => at,
        ProgressView::Ask(_) => 0,
    }
}

/// Waiting for the address ends by `last`, and later replies do not change what
/// it came to.
pub(crate) proof fn address_is_stable(
    name: Seq<char>,
    log: Seq<ClusterReplyView>,
    address: Seq<char>,
    attempt: nat,
    at: int,
    n: int,
)
    requires
        0 <= at <= log.len(),
        attempt <= ADDRESS_ATTEMPTS,
        at <= n <= log.len(),
    ensures
        ({
            let progress = await_address(name, log, address, attempt, at);
            &&& !(progress is Stuck)
            &&& progress is Got ==> at <= end_of(progress) <= log.len()
            &&& progress is Got && end_of(progress) <= n ==> await_address(
                name,
                log.take(n),
                address,
                attempt,
                at,
            ) == progress
            &&& log.len() >= at + 2 * (ADDRESS_ATTEMPTS - attempt) ==> progress is Got
            &&& progress is Got ==> end_of(progress) <= at + 2 * (ADDRESS_ATTEMPTS - attempt)
        }),
    decreases ADDRESS_ATTEMPTS - attempt,
{
    if address.len() > 0 || attempt >= ADDRESS_ATTEMPTS {
    } else if log.len() >= at + 2 {
        let next = log[at + 1].pod_address();
        if n >= at + 2 {
            address_is_stable(name, log, next, attempt + 1, at + 2, n);
            assert(log.take(n)[at + 1] == log[at + 1]);
        } else {
            address_is_stable(name, log, next, attempt + 1, at + 2, log.len() as int);
        }
    }
}

/// Fronting the target with its service ends in time, and later replies do not
/// change what it came to.
pub(crate) proof fn service_is_stable(
    service: Option<ServiceView>,
    log: Seq<ClusterReplyView>,
    address: Seq<char>,
    at: int,
    n: int,
)
    requires
        0 <= at <= log.len(),
        at <= n <= log.len(),
    ensures
        ({
            let progress = reach_service(service, log, address, at);
            &&& !(progress is Ask) ==> at <= end_of(progress) <= log.len()
            &&& !(progress is Ask) && end_of(progress) <= n ==> reach_service(
                service,
                log.take(n),
                address,
                at,
            ) == progress
            &&& log.len() >= at + 2 ==> !(progress is Ask)
            &&& !(progress is Ask) ==> end_of(progress) <= at + 2
        }),
{
    assert forall|k: int| 0 <= k < n implies #[trigger] log.take(n)[k] == log[k] by {}
}

/// Waiting for the secret ends in time, later replies do not change what it
/// came to, and what it came to is what the logs showed.
proof fn secret_is_stable(
    exp: BreachView,
    log: Seq<ClusterReplyView>,
    attempt: nat,
    at: int,
    n: int,
)
    requires
        0 <= at <= log.len(),
        attempt <= SECRET_ATTEMPTS,
        at <= n <= log.len(),
    ensures
        ({
            let progress = await_secret(exp, log, attempt, at);
            &&& !(progress is Stuck)
            &&& progress is Got ==> at <= end_of(progress) <= log.len()
            &&& progress is Got && end_of(progress) <= n ==> await_secret(
                exp,
                log.take(n),
                attempt,
                at,
            ) == progress
            &&& log.len() >= at + 2 * (SECRET_ATTEMPTS - attempt) ==> progress is Got
            &&& progress is Got ==> end_of(progress) <= at + 2 * (SECRET_ATTEMPTS - attempt)
            &&& progress is Got && progress->Got_0.0.len() > 0 ==> exists|i: int|
                at <= i < log.len() && progress->Got_0.0 == recovered(
                    exp.secret,
                    (#[trigger] log[i]).output(),
                )
        }),
    decreases SECRET_ATTEMPTS - attempt,
{
    if attempt >= SECRET_ATTEMPTS {
    } else if log.len() > at && recovered(exp.secret, log[at].output()).len() > 0 {
        if n > at {
            assert(log.take(n)[at] == log[at]);
        }
    } else if log.len() >= at + 2 {
        if n >= at + 2 {
            secret_is_stable(exp, log, attempt + 1, at + 2, n);
            assert(log.take(n)[at] == log[at]);
        } else {
            secret_is_stable(exp, log, attempt + 1, at + 2, log.len() as int);
        }
    }
}

/// Planting ends in time, and later replies do not change what it came to.
pub(crate) proof fn plant_is_stable(exp: BreachView, log: Seq<ClusterReplyView>, n: int)
    requires
        0 <= n <= log.len(),
    ensures
        ({
            let progress = plant(exp, log);
            &&& !(progress is Ask) ==> 0 < end_of(progress) <= log.len()
            &&& !(progress is Ask) && end_of(progress) <= n ==> plant(exp, log.take(n)) == progress
            &&& log.len() >= 5 + 2 * ADDRESS_ATTEMPTS + 2 * SECRET_ATTEMPTS ==> !(progress is Ask)
            &&& !(progress is Ask) ==> end_of(progress) <= 5 + 2 * ADDRESS_ATTEMPTS + 2
                * SECRET_ATTEMPTS
        }),
{
    assert forall|k: int| 0 <= k < n implies #[trigger] log.take(n)[k] == log[k] by {}
    if log.len() >= 3 && !log[0].failed() && !log[1].failed() && !log[2].failed() {
        let name = exp.target.name;
        let first = log[2].pod_address();
        let m: int = if n >= 3 {
            n
        } else {
            log.len() as int
        };
        address_is_stable(name, log, first, 0, 3, m);
        match await_address(name, log, first, 0, 3) {
            ProgressView::Got(address, at) => {
                let m2: int = if n >= at {
                    n
                } else {
                    log.len() as int
                };
                service_is_stable(exp.target_service, log, address, at, m2);
                match reach_service(exp.target_service, log, address, at) {
                    ProgressView::Got(address, at) => {
                        let m3: int = if n >= at {
                            n
                        } else {
                            log.len() as int
                        };
                        secret_is_stable(exp, log, 0, at, m3);
                    },
                    _ => {},
                }
            },
            _ => {},
        }
    }
}

/// What was planted was shown by the target itself, and an intruder that has to
/// aim at an address has one.
pub proof fn what_was_planted_was_shown(exp: BreachView, log: Seq<ClusterReplyView>)
    ensures
        match plant(exp, log) {
            ProgressView::Got(Some(planted), _) => {
                &&& planted.secret.len() > 0
                &&& exists|i: int|
                    0 <= i < log.len() && planted.secret == recovered(
                        exp.secret,
                        (#[trigger] log[i]).output(),
                    )
                &&& exp.intruder is AtTargetAddress ==> planted.address.len() > 0
            },
            _ => true,
        },
{
    if log.len() >= 3 && !log[0].failed() && !log[1].failed() && !log[2].failed() {
        let name = exp.target.name;
        let first = log[2].pod_address();
        address_is_stable(name, log, first, 0, 3, log.len() as int);
        match await_address(name, log, first, 0, 3) {
            ProgressView::Got(address, at) => {
                service_is_stable(exp.target_service, log, address, at, log.len() as int);
                match reach_service(exp.target_service, log, address, at) {
                    ProgressView::Got(address, at) => {
                        secret_is_stable(exp, log, 0, at, log.len() as int);
                    },
                    _ => {},
                }
            },
            _ => {},
        }
    }
}

/// The experiment comes to its verdict in time, and later replies do not change
/// it.
pub(crate) proof fn body_is_stable(
    exp: BreachView,
    victim_namespace: Seq<char>,
    log: Seq<ClusterReplyView>,
    n: int,
)
    requires
        0 <= n <= log.len(),
    ensures
        ({
            let progress = experiment_body(exp, victim_namespace, log);
            &&& !(progress is Ask) ==> 0 < end_of(progress) <= log.len()
            &&& !(progress is Ask) && end_of(progress) <= n ==> experiment_body(
                exp,
                victim_namespace,
                log.take(n),
            ) == progress
            &&& log.len() >= 10 + 2 * ADDRESS_ATTEMPTS + 2 * SECRET_ATTEMPTS ==> !(progress is Ask)
            &&& !(progress is Ask) ==> end_of(progress) <= 10 + 2 * ADDRESS_ATTEMPTS + 2
                * SECRET_ATTEMPTS
        }),
{
    plant_is_stable(exp, log, n);
    assert forall|k: int| 0 <= k < n implies #[trigger] log.take(n)[k] == log[k] by {}
}

/// In the run that `log` records, the experiment asked for `request`.
pub open spec fn breach_asked(
    exp: BreachView,
    victim_namespace: Seq<char>,
    log: Seq<ClusterReplyView>,
    request: ClusterRequestView,
) -> bool {
    exists|i: int|
        0 <= i < log.len() && breach_step(exp, victim_namespace, #[trigger] log.take(i))
            == ClusterStepView::<CrossTenantView>::Ask(request)
}

/// Cleaning up follows on every path: however an experiment ends, with a
/// verdict or with an error, it has asked for every request of its cleaning up.
pub proof fn every_breach_experiment_cleans_up(
    exp: BreachView,
    victim_namespace: Seq<char>,
    log: Seq<ClusterReplyView>,
    chore: int,
)
    requires
        !(breach_step(exp, victim_namespace, log) is Ask),
        0 <= chore < breach_cleanup(exp).len(),
    ensures
        breach_asked(exp, victim_namespace, log, breach_cleanup(exp)[chore]),
{
    let progress = experiment_body(exp, victim_namespace, log);
    body_is_stable(exp, victim_namespace, log, log.len() as int);
    let i: int = end_of(progress) + chore;
    assert(i < log.len());
    body_is_stable(exp, victim_namespace, log, i);
    assert(breach_step(exp, victim_namespace, log.take(i)) == ClusterStepView::<
        CrossTenantView,
    >::Ask(breach_cleanup(exp)[chore]));
}

/// Every breach experiment ends.
pub proof fn every_breach_experiment_ends(
    exp: BreachView,
    victim_namespace: Seq<char>,
    log: Seq<ClusterReplyView>,
)
    requires
        log.len() >= 15 + 2 * ADDRESS_ATTEMPTS + 2 * SECRET_ATTEMPTS,
    ensures
        !(breach_step(exp, victim_namespace, log) is Ask),
{
    body_is_stable(exp, victim_namespace, log, log.len() as int);
}

/// A target that planted nothing leaves the isolation undetermined: only where
/// the secret was confirmed can there be a breach or full isolation.
pub proof fn nothing_planted_is_no_finding(
    exp: BreachView,
    victim_namespace: Seq<char>,
    log: Seq<ClusterReplyView>,
)
    requires
        breach_step(exp, victim_namespace, log) is Done,
        !(breach_step(exp, victim_namespace, log)->Done_0.isolation is Unknown),
    ensures
        exists|i: int|
            0 <= i < log.len() && recovered(exp.secret, (#[trigger] log[i]).output()).len() > 0,
{
    what_was_planted_was_shown(exp, log);
}

/// An intruder is created only once the secret is confirmed, and one that has
/// to aim at the target's address is never aimed at nowhere.
pub proof fn an_intruder_is_created_only_with_a_target(
    exp: BreachView,
    victim_namespace: Seq<char>,
    log: Seq<ClusterReplyView>,
)
    requires
        breach_step(exp, victim_namespace, log) matches ClusterStepView::Ask(
            ClusterRequestView::CreatePod { side: Side::Intruder, .. },
        ),
    ensures
        plant(exp, log) is Got,
        plant(exp, log)->Got_0 is Some,
        plant(exp, log)->Got_0->Some_0.secret.len() > 0,
        exp.intruder is AtTargetAddress ==> plant(exp, log)->Got_0->Some_0.address.len() > 0,
{
    what_was_planted_was_shown(exp, log);
    plant_asks_for_the_victim(exp, log);
    cleanup_creates_nothing(exp);
}

proof fn cleanup_creates_nothing(exp: BreachView)
    ensures
        forall|i: int|
            0 <= i < breach_cleanup(exp).len() ==> !((#[trigger] breach_cleanup(exp)[i])
                is CreatePod),
{
}

proof fn plant_asks_for_the_victim(exp: BreachView, log: Seq<ClusterReplyView>)
    ensures
        plant(exp, log) matches ProgressView::Ask(ClusterRequestView::CreatePod { side, .. })
            ==> side == Side::Victim,
{
    if log.len() >= 3 {
        address_asks_no_pod(exp.target.name, log, log[2].pod_address(), 0, 3);
        match await_address(exp.target.name, log, log[2].pod_address(), 0, 3) {
            ProgressView::Got(address, at) => {
                match reach_service(exp.target_service, log, address, at) {
                    ProgressView::Got(address, at) => {
                        secret_asks_no_pod(exp, log, 0, at);
                    },
                    _ => {},
                }
            },
            _ => {},
        }
    }
}

proof fn address_asks_no_pod(
    name: Seq<char>,
    log: Seq<ClusterReplyView>,
    address: Seq<char>,
    attempt: nat,
    at: int,
)
    ensures
        await_address(name, log, address, attempt, at) matches ProgressView::Ask(request)
            ==> !(request is CreatePod),
    decreases ADDRESS_ATTEMPTS - attempt,
{
    if !(address.len() > 0 || attempt >= ADDRESS_ATTEMPTS) && log.len() > at + 1 {
        address_asks_no_pod(name, log, log[at + 1].pod_address(), attempt + 1, at + 2);
    }
}

proof fn secret_asks_no_pod(exp: BreachView, log: Seq<ClusterReplyView>, attempt: nat, at: int)
    ensures
        await_secret(exp, log, attempt, at) matches ProgressView::Ask(request)
            ==> !(request is CreatePod),
    decreases SECRET_ATTEMPTS - attempt,
{
    if attempt < SECRET_ATTEMPTS && log.len() > at + 1 {
        secret_asks_no_pod(exp, log, attempt + 1, at + 2);
    }
}

/// A breach is reported only of an intruder that ran, and full isolation only of
/// one that ran or that cannot stand where the target stands: an intruder that
/// was stopped on its way is neither.
pub proof fn only_an_intruder_that_ran_finds_a_breach(
    exp: BreachView,
    secret: Seq<char>,
    observation: ObservationView,
)
    ensures
        verdict_of(exp, secret, observation).isolation is NoIsolation ==> observation is Saw,
        verdict_of(exp, secret, observation).isolation is Hard ==> observation is Saw
            || observation is TargetNodeUnreachable,
{
}

/// Where the experiment itself knows the breach, the verdict is one exactly where
/// the intruder saw the secret, and full isolation otherwise.
pub proof fn seeing_the_secret_decides(exp: BreachView, secret: Seq<char>, output: Seq<char>)
    requires
        !(exp.breach is Decided),
    ensures
        (judgement(exp.what, exp.breach, secret, output).isolation is NoIsolation)
            == saw_the_secret(exp.breach, secret, output),
        (judgement(exp.what, exp.breach, secret, output).isolation is Hard) == !saw_the_secret(
            exp.breach,
            secret,
            output,
        ),
{
}

/// A refused request is soft however late the refusal comes, at admission or from
/// the runtime: the intruder has attempted nothing, and has learnt that a
/// restriction exists. Where nothing unusual was asked for, nothing was measured.
pub proof fn a_refusal_is_soft_whenever_it_comes(exp: BreachView, secret: Seq<char>, why: Seq<char>)
    ensures
        ({
            let at_admission = verdict_of(exp, secret, ObservationView::Refused(why));
            let at_start = verdict_of(
                exp,
                secret,
                ObservationView::CouldNotRun { reason: why, asked_for_host_privilege: true },
            );
            let unasked = verdict_of(
                exp,
                secret,
                ObservationView::CouldNotRun { reason: why, asked_for_host_privilege: false },
            );
            &&& at_admission.isolation is Soft && !at_admission.autonomy
            &&& at_start.isolation is Soft && !at_start.autonomy
            &&& unasked.isolation is Unknown
        }),
{
}

}
