//! What the verdict of a breach experiment rests on: which replies of its run
//! it takes, and for which of them it finds what.

use crate::breach::{
    await_address, await_secret, breach_cleanup, breach_step, built, experiment_body, first_with,
    intrude, judgement, observe_step, plant, reach_service, recovered, verdict_of, BreachView,
    ConditionView, IntruderView, ObservationView, SecretView, ADDRESS_ATTEMPTS, SECRET_ATTEMPTS,
};
use crate::breach_laws::{
    address_is_stable, body_is_stable, breach_asked, end_of, every_breach_experiment_cleans_up,
    plant_is_stable, service_is_stable, what_was_planted_was_shown,
};
use crate::cluster::{ClusterReplyView, ClusterRequestView, ClusterStepView, ProgressView, Side};
use crate::isolation::{CrossTenantView, IsolationView};
use crate::pods::{
    first_start_failure, start_failure, unplaced, unscheduled, unstarted, LandedView, PodView,
    StateView,
};
use crate::text::{has_text, occurs_at, sums_hold_their_parts};
use crate::words::{first_word, lines, parts};
use crate::words_laws::{
    a_text_without_separators_is_its_only_part, the_first_part_ends_at_the_first_separator,
};
use vstd::prelude::*;
use vstd::string::*;

verus! {

/// The side on which a request acts.
pub open spec fn side_of(request: ClusterRequestView) -> Option<Side> {
    match request {
        ClusterRequestView::CreatePod { side, .. } => Some(side),
        ClusterRequestView::CreateManifest { side, .. } => Some(side),
        ClusterRequestView::AwaitReady { side, .. } => Some(side),
        ClusterRequestView::GetPod { side, .. } => Some(side),
        ClusterRequestView::ReadLogs { side, .. } => Some(side),
        ClusterRequestView::AwaitCompletion { side, .. } => Some(side),
        ClusterRequestView::DeletePod { side, .. } => Some(side),
        ClusterRequestView::AwaitPodDeletion { side, .. } => Some(side),
        ClusterRequestView::CreateService { side, .. } => Some(side),
        ClusterRequestView::GetService { side, .. } => Some(side),
        ClusterRequestView::DeleteService { side, .. } => Some(side),
        ClusterRequestView::AwaitServiceDeletion { side, .. } => Some(side),
        ClusterRequestView::ListNodes { side } => Some(side),
        ClusterRequestView::Exec { side, .. } => Some(side),
        ClusterRequestView::Pause { .. } => None,
        ClusterRequestView::BuildIntruder { .. } => None,
    }
}

/// The request takes something away, or waits for that.
pub open spec fn takes_away(request: ClusterRequestView) -> bool {
    ||| request is DeletePod
    ||| request is AwaitPodDeletion
    ||| request is DeleteService
    ||| request is AwaitServiceDeletion
}

/// The pod never got onto a node: it is still pending, and either the scheduler
/// said so or it is pinned to a node that never reported a container of it.
pub open spec fn stayed_unplaced(pod: LandedView) -> bool {
    match pod.status {
        Some(status) => {
            &&& status.phase == Some("Pending"@)
            &&& {
                ||| exists|i: int|
                    0 <= i < status.conditions.len() && (#[trigger] status.conditions[i]).type_
                        == "PodScheduled"@ && status.conditions[i].status == "False"@
                ||| pod.node_name is Some && status.container_states.len() == 0
            }
        },
        None => false,
    }
}

/// The state is that of a container which the runtime would not start.
pub open spec fn would_not_start(state: Option<StateView>) -> bool {
    match state {
        Some(state) => {
            ||| state.terminated is Some && state.terminated->Some_0.reason == Some("StartError"@)
            ||| state.waiting is Some && {
                let reason = state.waiting->Some_0.reason;
                ||| reason == Some("CreateContainerError"@)
                ||| reason == Some("RunContainerError"@)
                ||| reason == Some("CreateContainerConfigError"@)
            }
        },
        None => false,
    }
}

/// One of the pod's containers never started.
pub open spec fn stayed_unstarted(pod: LandedView) -> bool {
    match pod.status {
        Some(status) => exists|i: int|
            0 <= i < status.container_states.len() && would_not_start(
                #[trigger] status.container_states[i],
            ),
        None => false,
    }
}

/// The pod asks for privilege or for a namespace of the host.
pub open spec fn asked_for_more(pod: PodView) -> bool {
    ||| pod.host_pid == Some(true)
    ||| pod.host_ipc == Some(true)
    ||| pod.host_network == Some(true)
    ||| pod.host_users == Some(true)
    ||| exists|i: int|
        0 <= i < pod.containers.len() && (#[trigger] pod.containers[i]).privileged == Some(true)
}

proof fn unscheduled_is_some(conditions: Seq<crate::pods::ConditionView>)
    ensures
        unscheduled(conditions) is Some <==> exists|i: int|
            0 <= i < conditions.len() && (#[trigger] conditions[i]).type_ == "PodScheduled"@
                && conditions[i].status == "False"@,
    decreases conditions.len(),
{
    if conditions.len() > 0 {
        let rest = conditions.skip(1);
        unscheduled_is_some(rest);
        if exists|i: int|
            0 <= i < rest.len() && (#[trigger] rest[i]).type_ == "PodScheduled"@ && rest[i].status
                == "False"@ {
            let i = choose|i: int|
                0 <= i < rest.len() && (#[trigger] rest[i]).type_ == "PodScheduled"@
                    && rest[i].status == "False"@;
            assert(conditions[i + 1] == rest[i]);
        }
        if exists|i: int|
            0 <= i < conditions.len() && (#[trigger] conditions[i]).type_ == "PodScheduled"@
                && conditions[i].status == "False"@ {
            let i = choose|i: int|
                0 <= i < conditions.len() && (#[trigger] conditions[i]).type_ == "PodScheduled"@
                    && conditions[i].status == "False"@;
            if i > 0 {
                assert(rest[i - 1] == conditions[i]);
            }
        }
    }
}

proof fn start_failure_is_some(states: Seq<Option<StateView>>)
    ensures
        first_start_failure(states) is Some <==> exists|i: int|
            0 <= i < states.len() && would_not_start(#[trigger] states[i]),
    decreases states.len(),
{
    if states.len() > 0 {
        let rest = states.skip(1);
        start_failure_is_some(rest);
        assert(start_failure(states[0]) is Some <==> would_not_start(states[0]));
        if exists|i: int| 0 <= i < rest.len() && would_not_start(#[trigger] rest[i]) {
            let i = choose|i: int| 0 <= i < rest.len() && would_not_start(#[trigger] rest[i]);
            assert(states[i + 1] == rest[i]);
        }
        if exists|i: int| 0 <= i < states.len() && would_not_start(#[trigger] states[i]) {
            let i = choose|i: int| 0 <= i < states.len() && would_not_start(#[trigger] states[i]);
            if i > 0 {
                assert(rest[i - 1] == states[i]);
            }
        }
    }
}

/// How a pod's status is read: it was never placed where it is still pending
/// and was not scheduled or not taken in by its node, and it never started
/// where the runtime would not start one of its containers.
pub proof fn a_status_tells_what_became_of_the_pod(pod: LandedView)
    ensures
        unplaced(pod) is Some <==> stayed_unplaced(pod),
        unstarted(pod) is Some <==> stayed_unstarted(pod),
{
    match pod.status {
        Some(status) => {
            unscheduled_is_some(status.conditions);
            start_failure_is_some(status.container_states);
        },
        None => {},
    }
}


proof fn the_address_is_the_victims(
    name: Seq<char>,
    log: Seq<ClusterReplyView>,
    address: Seq<char>,
    attempt: nat,
    at: int,
)
    ensures
        match await_address(name, log, address, attempt, at) {
            ProgressView::Ask(request) => request == (ClusterRequestView::Pause { millis: 1000 })
                || request == (ClusterRequestView::GetPod { side: Side::Victim, name }),
            _ => true,
        },
    decreases ADDRESS_ATTEMPTS - attempt,
{
    if !(address.len() > 0 || attempt >= ADDRESS_ATTEMPTS) && log.len() > at + 1 {
        the_address_is_the_victims(name, log, log[at + 1].pod_address(), attempt + 1, at + 2);
    }
}

proof fn the_secret_is_the_victims(
    exp: BreachView,
    log: Seq<ClusterReplyView>,
    attempt: nat,
    at: int,
)
    ensures
        match await_secret(exp, log, attempt, at) {
            ProgressView::Ask(request) => request == (ClusterRequestView::Pause { millis: 1000 })
                || request == (ClusterRequestView::ReadLogs {
                side: Side::Victim,
                name: exp.target.name,
            }),
            _ => true,
        },
    decreases SECRET_ATTEMPTS - attempt,
{
    if attempt < SECRET_ATTEMPTS && log.len() > at + 1 {
        the_secret_is_the_victims(exp, log, attempt + 1, at + 2);
    }
}

/// Planting is the victim's affair, and the target's: it makes the target pod
/// and the target's service, waits for them a second at a time, and reads them.
pub proof fn planting_is_the_victims(exp: BreachView, log: Seq<ClusterReplyView>)
    ensures
        match plant(exp, log) {
            ProgressView::Ask(request) => match request {
                ClusterRequestView::CreatePod { side, pod } => side == Side::Victim && pod
                    == exp.target,
                ClusterRequestView::AwaitReady { side, name } => side == Side::Victim && name
                    == exp.target.name,
                ClusterRequestView::GetPod { side, name } => side == Side::Victim && name
                    == exp.target.name,
                ClusterRequestView::ReadLogs { side, name } => side == Side::Victim && name
                    == exp.target.name,
                ClusterRequestView::CreateService { side, manifest } => side == Side::Victim
                    && exp.target_service is Some && manifest
                    == exp.target_service->Some_0.manifest,
                ClusterRequestView::GetService { side, name } => side == Side::Victim
                    && exp.target_service is Some && name == exp.target_service->Some_0.name,
                ClusterRequestView::Pause { millis } => millis == 1000,
                _ => false,
            },
            _ => true,
        },
{
    if log.len() >= 3 && !log[0].failed() && !log[1].failed() && !log[2].failed() {
        the_address_is_the_victims(exp.target.name, log, log[2].pod_address(), 0, 3);
        match await_address(exp.target.name, log, log[2].pod_address(), 0, 3) {
            ProgressView::Got(address, at) => {
                match reach_service(exp.target_service, log, address, at) {
                    ProgressView::Got(address, at) => {
                        the_secret_is_the_victims(exp, log, 0, at);
                    },
                    _ => {},
                }
            },
            _ => {},
        }
    }
}

/// The intruder of a run and the reply that answers its creation, once both are
/// settled.
spec fn intrusion(exp: BreachView, log: Seq<ClusterReplyView>) -> Option<(PodView, int)> {
    match plant(exp, log) {
        ProgressView::Got(Some(planted), at) => match built(exp.intruder, planted) {
            Some(pod) => Some((pod, at)),
            None => if log.len() > at {
                match log[at] {
                    ClusterReplyView::Built(pod) => Some((pod, at + 1)),
                    _ => None,
                }
            } else {
                None
            },
        },
        _ => None,
    }
}

/// The request is one that an intruder's turn makes.
spec fn is_intruding(request: ClusterRequestView) -> bool {
    side_of(request) == Some(Side::Intruder) && !takes_away(request)
}

/// Where the experiment acts on the intruder's side, the intruder of the run is
/// settled, and the request has its fixed place after that.
proof fn the_intruders_requests_have_their_place(
    exp: BreachView,
    victim_namespace: Seq<char>,
    log: Seq<ClusterReplyView>,
    i: int,
)
    requires
        0 <= i <= log.len(),
        breach_step(exp, victim_namespace, log.take(i)) is Ask,
        is_intruding(breach_step(exp, victim_namespace, log.take(i))->Ask_0),
    ensures
        intrusion(exp, log) is Some,
        intrusion(exp, log.take(i)) == intrusion(exp, log),
        ({
            let (intruder, start): (PodView, int) = intrusion(exp, log)->Some_0;
            let request = breach_step(exp, victim_namespace, log.take(i))->Ask_0;
            &&& 0 <= start <= i
            &&& intrude(intruder, log.take(i), start) == ProgressView::<
                ObservationView,
            >::Ask(request)
            &&& match request {
                ClusterRequestView::CreatePod { pod, .. } => i == start && pod == intruder,
                ClusterRequestView::AwaitCompletion { name, .. } => i == start + 1 && name
                    == intruder.name,
                ClusterRequestView::GetPod { name, .. } => i == start + 2 && name == intruder.name,
                ClusterRequestView::ListNodes { .. } => i == start + 3,
                ClusterRequestView::ReadLogs { name, .. } => i == start + 3 && name
                    == intruder.name,
                _ => false,
            }
        }),
{
    let seen = log.take(i);
    let request = breach_step(exp, victim_namespace, seen)->Ask_0;
    planting_is_the_victims(exp, seen);
    body_is_stable(exp, victim_namespace, seen, i);
    plant_is_stable(exp, seen, i);
    assert forall|k: int| 0 <= k < breach_cleanup(exp).len() implies takes_away(
        #[trigger] breach_cleanup(exp)[k],
    ) by {}
    assert forall|k: int| 0 <= k < i implies #[trigger] seen[k] == log[k] by {}
    assert(experiment_body(exp, victim_namespace, seen) is Ask);
    assert(plant(exp, seen) is Got);
    planted_stays(exp, log, i);
}

proof fn address_stays(
    name: Seq<char>,
    log: Seq<ClusterReplyView>,
    address: Seq<char>,
    attempt: nat,
    at: int,
    n: int,
)
    requires
        0 <= at <= n <= log.len(),
        !(await_address(name, log.take(n), address, attempt, at) is Ask),
    ensures
        await_address(name, log, address, attempt, at) == await_address(
            name,
            log.take(n),
            address,
            attempt,
            at,
        ),
        end_of(await_address(name, log, address, attempt, at)) <= n,
    decreases ADDRESS_ATTEMPTS - attempt,
{
    if !(address.len() > 0 || attempt >= ADDRESS_ATTEMPTS) {
        assert(n >= at + 2);
        assert(log.take(n)[at + 1] == log[at + 1]);
        address_stays(name, log, log[at + 1].pod_address(), attempt + 1, at + 2, n);
    }
}

proof fn secret_stays(
    exp: BreachView,
    log: Seq<ClusterReplyView>,
    attempt: nat,
    at: int,
    n: int,
)
    requires
        0 <= at <= n <= log.len(),
        !(await_secret(exp, log.take(n), attempt, at) is Ask),
    ensures
        await_secret(exp, log, attempt, at) == await_secret(exp, log.take(n), attempt, at),
        end_of(await_secret(exp, log, attempt, at)) <= n,
    decreases SECRET_ATTEMPTS - attempt,
{
    if attempt < SECRET_ATTEMPTS {
        assert(n > at);
        assert(log.take(n)[at] == log[at]);
        if recovered(exp.secret, log[at].output()).len() == 0 {
            assert(n >= at + 2);
            secret_stays(exp, log, attempt + 1, at + 2, n);
        }
    }
}

/// What was settled after `n` replies stays settled.
proof fn planted_stays(exp: BreachView, log: Seq<ClusterReplyView>, n: int)
    requires
        0 <= n <= log.len(),
        plant(exp, log.take(n)) is Got,
    ensures
        plant(exp, log) == plant(exp, log.take(n)),
        end_of(plant(exp, log)) <= n,
{
    let seen = log.take(n);
    let name = exp.target.name;
    assert forall|k: int| 0 <= k < n implies #[trigger] seen[k] == log[k] by {}
    assert(n >= 3);
    let first = log[2].pod_address();
    address_stays(name, log, first, 0, 3, n);
    address_starts(name, log, first, 0, 3);
    match await_address(name, log, first, 0, 3) {
        ProgressView::Got(address, at) => {
            match reach_service(exp.target_service, seen, address, at) {
                ProgressView::Got(address, at) => {
                    if !(address.len() == 0 && exp.intruder is AtTargetAddress) {
                        secret_stays(exp, log, 0, at, n);
                    }
                },
                _ => {},
            }
        },
        _ => {},
    }
}

proof fn address_starts(
    name: Seq<char>,
    log: Seq<ClusterReplyView>,
    address: Seq<char>,
    attempt: nat,
    at: int,
)
    ensures
        match await_address(name, log, address, attempt, at) {
            ProgressView::Got(_, end) => at <= end,
            ProgressView::Ask(_) => true,
            ProgressView::Stuck(_, _) => false,
        },
    decreases ADDRESS_ATTEMPTS - attempt,
{
    if !(address.len() > 0 || attempt >= ADDRESS_ATTEMPTS) && log.len() > at + 1 {
        address_starts(name, log, log[at + 1].pod_address(), attempt + 1, at + 2);
    }
}


/// The list of nodes shows none called `node`; a list that could not be had
/// shows none.
pub open spec fn shows_no_node(reply: ClusterReplyView, node: Seq<char>) -> bool {
    match reply {
        ClusterReplyView::Nodes(nodes) => forall|k: int|
            0 <= k < nodes.len() ==> (#[trigger] nodes[k]).name != Some(node),
        _ => true,
    }
}

/// What came back is a pod that never got onto a node.
pub open spec fn read_unplaced(reply: ClusterReplyView) -> bool {
    reply is Landed && stayed_unplaced(reply->Landed_0)
}

/// What came back is a pod that is on a node and of which a container never
/// started.
pub open spec fn read_unstarted(reply: ClusterReplyView) -> bool {
    reply is Landed && !stayed_unplaced(reply->Landed_0) && stayed_unstarted(reply->Landed_0)
}

/// The finding where the intruder was stopped on its way: soft, and against its
/// autonomy, where it had asked for privilege or for a namespace of the host;
/// undetermined where it had asked for nothing unusual.
pub open spec fn is_stopped_finding(intruder: PodView, result: CrossTenantView) -> bool {
    if asked_for_more(intruder) {
        result.isolation is Soft && !result.autonomy
    } else {
        result.isolation is Unknown && result.autonomy
    }
}

/// Nothing is left out of the intruder's turn: in the run of an experiment
/// that came to a verdict, an intruder that was created is waited for and read
/// back, both under the name it was created with.
///
/// Where it was read back unplaced, the nodes are listed: full isolation is
/// found where it was pinned to a node that is not among them, and otherwise it
/// was stopped on its way. It was stopped as well where it was placed and never
/// started. In every other case its logs are read, and they are judged.
pub proof fn the_verdict_follows_the_intruder(
    exp: BreachView,
    victim_namespace: Seq<char>,
    log: Seq<ClusterReplyView>,
    at: int,
    intruder: PodView,
)
    requires
        breach_step(exp, victim_namespace, log) is Done,
        0 <= at < log.len(),
        breach_step(exp, victim_namespace, log.take(at)) == ClusterStepView::<
            CrossTenantView,
        >::Ask(ClusterRequestView::CreatePod { side: Side::Intruder, pod: intruder }),
    ensures
        ({
            let result = breach_step(exp, victim_namespace, log)->Done_0;
            let asks = |i: int, request: ClusterRequestView|
                0 <= i < log.len() && breach_step(exp, victim_namespace, log.take(i))
                    == ClusterStepView::<CrossTenantView>::Ask(request);
            let name = intruder.name;
            match log[at] {
                ClusterReplyView::Failed { refusal, .. } => {
                    &&& refusal is Some
                    &&& result.isolation == IsolationView::Soft(
                        "Intruder refused at admission: "@ + refusal->Some_0,
                    )
                    &&& !result.autonomy
                },
                _ => {
                    &&& asks(
                        at + 1,
                        ClusterRequestView::AwaitCompletion { side: Side::Intruder, name },
                    )
                    &&& asks(at + 2, ClusterRequestView::GetPod { side: Side::Intruder, name })
                    &&& if read_unplaced(log[at + 2]) {
                        &&& asks(at + 3, ClusterRequestView::ListNodes { side: Side::Intruder })
                        &&& if intruder.node_name is Some && shows_no_node(
                            log[at + 3],
                            intruder.node_name->Some_0,
                        ) {
                            result.isolation is Hard && result.autonomy
                        } else {
                            is_stopped_finding(intruder, result)
                        }
                    } else if read_unstarted(log[at + 2]) {
                        is_stopped_finding(intruder, result)
                    } else {
                        &&& asks(
                            at + 3,
                            ClusterRequestView::ReadLogs { side: Side::Intruder, name },
                        )
                        &&& exists|i: int|
                            #[trigger] asks(
                                i,
                                ClusterRequestView::ReadLogs {
                                    side: Side::Victim,
                                    name: exp.target.name,
                                },
                            ) && result == judgement(
                                exp.what,
                                exp.breach,
                                recovered(exp.secret, log[i].output()),
                                log[at + 3].output(),
                            )
                    }
                },
            }
        }),
{
    the_intruders_requests_have_their_place(exp, victim_namespace, log, at);
    the_run_after_the_creation(exp, victim_namespace, log, at, intruder);
    the_planted_secret_was_read(exp, victim_namespace, log);
    let i = choose|i: int|
        0 <= i < log.len() && breach_step(exp, victim_namespace, #[trigger] log.take(i))
            == ClusterStepView::<CrossTenantView>::Ask(
            ClusterRequestView::ReadLogs { side: Side::Victim, name: exp.target.name },
        ) && plant(exp, log)->Got_0->Some_0.secret == recovered(exp.secret, log[i].output());
    let asks = |i: int, request: ClusterRequestView|
        0 <= i < log.len() && breach_step(exp, victim_namespace, log.take(i)) == ClusterStepView::<
            CrossTenantView,
        >::Ask(request);
    assert(asks(
        i,
        ClusterRequestView::ReadLogs { side: Side::Victim, name: exp.target.name },
    ));
    if !(log[at] is Failed) {
        match log[at + 2] {
            ClusterReplyView::Landed(pod) => {
                a_status_tells_what_became_of_the_pod(pod);
            },
            _ => {},
        }
    }
}

/// The steps after the intruder's creation, by how far the log goes.
proof fn the_run_after_the_creation(
    exp: BreachView,
    victim_namespace: Seq<char>,
    log: Seq<ClusterReplyView>,
    at: int,
    intruder: PodView,
)
    requires
        breach_step(exp, victim_namespace, log) is Done,
        0 <= at < log.len(),
        intrusion(exp, log) == Some((intruder, at)),
        intrusion(exp, log.take(at)) == Some((intruder, at)),
    ensures
        plant(exp, log) is Got,
        plant(exp, log)->Got_0 is Some,
        ({
            let secret = plant(exp, log)->Got_0->Some_0.secret;
            let progress = intrude(intruder, log, at);
            &&& progress is Got
            &&& breach_step(exp, victim_namespace, log)->Done_0 == verdict_of(
                exp,
                secret,
                progress->Got_0,
            )
            &&& forall|i: int|
                at <= i < log.len() ==> match intrude(intruder, #[trigger] log.take(i), at) {
                    ProgressView::Ask(request) => breach_step(exp, victim_namespace, log.take(i))
                        == ClusterStepView::<CrossTenantView>::Ask(request),
                    _ => true,
                }
        }),
{
    body_is_stable(exp, victim_namespace, log, log.len() as int);
    let settled: int = end_of(plant(exp, log.take(at)));
    planted_stays(exp, log, at);
    assert forall|i: int| at <= i < log.len() implies match intrude(
        intruder,
        #[trigger] log.take(i),
        at,
    ) {
        ProgressView::Ask(request) => breach_step(exp, victim_namespace, log.take(i))
            == ClusterStepView::<CrossTenantView>::Ask(request),
        _ => true,
    } by {
        assert(log.take(i).take(at) =~= log.take(at));
        planted_stays(exp, log.take(i), at);
        assert forall|k: int| 0 <= k < i implies #[trigger] log.take(i)[k] == log[k] by {}
    }
}


proof fn the_secret_was_read(
    exp: BreachView,
    log: Seq<ClusterReplyView>,
    attempt: nat,
    at: int,
)
    requires
        0 <= at <= log.len(),
        await_secret(exp, log, attempt, at) is Got,
        await_secret(exp, log, attempt, at)->Got_0.0.len() > 0,
    ensures
        exists|i: int|
            at <= i < log.len() && await_secret(exp, #[trigger] log.take(i), attempt, at)
                == ProgressView::<(Seq<char>, Seq<char>)>::Ask(
                ClusterRequestView::ReadLogs { side: Side::Victim, name: exp.target.name },
            ) && await_secret(exp, log, attempt, at)->Got_0.0 == recovered(
                exp.secret,
                log[i].output(),
            ) && await_secret(exp, log, attempt, at)->Got_0.1 == log[i].output(),
    decreases SECRET_ATTEMPTS - attempt,
{
    let read = ProgressView::<(Seq<char>, Seq<char>)>::Ask(
        ClusterRequestView::ReadLogs { side: Side::Victim, name: exp.target.name },
    );
    if recovered(exp.secret, log[at].output()).len() > 0 {
        assert(await_secret(exp, log.take(at), attempt, at) == read);
    } else {
        the_secret_was_read(exp, log, attempt + 1, at + 2);
        let i = choose|i: int|
            at + 2 <= i < log.len() && await_secret(exp, #[trigger] log.take(i), attempt + 1, at + 2)
                == read && await_secret(exp, log, attempt + 1, at + 2)->Got_0.0 == recovered(
                exp.secret,
                log[i].output(),
            ) && await_secret(exp, log, attempt + 1, at + 2)->Got_0.1 == log[i].output();
        assert(log.take(i)[at] == log[at]);
        assert(await_secret(exp, log.take(i), attempt, at) == read);
    }
}

/// The secret that a run judges by is the one that the target's own logs
/// showed, read as the victim.
pub proof fn the_planted_secret_was_read(
    exp: BreachView,
    victim_namespace: Seq<char>,
    log: Seq<ClusterReplyView>,
)
    requires
        plant(exp, log) is Got,
        plant(exp, log)->Got_0 is Some,
    ensures
        exists|i: int|
            0 <= i < log.len() && breach_step(exp, victim_namespace, #[trigger] log.take(i))
                == ClusterStepView::<CrossTenantView>::Ask(
                ClusterRequestView::ReadLogs { side: Side::Victim, name: exp.target.name },
            ) && plant(exp, log)->Got_0->Some_0.secret == recovered(exp.secret, log[i].output())
                && plant(exp, log)->Got_0->Some_0.logs == log[i].output(),
{
    let name = exp.target.name;
    let first = log[2].pod_address();
    let len = log.len() as int;
    address_is_stable(name, log, first, 0, 3, len);
    match await_address(name, log, first, 0, 3) {
        ProgressView::Got(address, found) => {
            service_is_stable(exp.target_service, log, address, found, len);
            match reach_service(exp.target_service, log, address, found) {
                ProgressView::Got(aim, at) => {
                    the_secret_was_read(exp, log, 0, at);
                    let got = await_secret(exp, log, 0, at)->Got_0;
                    let i = choose|i: int|
                        at <= i < log.len() && await_secret(exp, #[trigger] log.take(i), 0, at)
                            == ProgressView::<(Seq<char>, Seq<char>)>::Ask(
                            ClusterRequestView::ReadLogs { side: Side::Victim, name },
                        ) && got.0 == recovered(exp.secret, log[i].output()) && got.1
                            == log[i].output();
                    assert forall|k: int| 0 <= k < i implies #[trigger] log.take(i)[k] == log[k] by {}
                    address_is_stable(name, log, first, 0, 3, i);
                    service_is_stable(exp.target_service, log, address, found, i);
                    assert(plant(exp, log.take(i)) is Ask);
                    assert(breach_step(exp, victim_namespace, log.take(i)) == ClusterStepView::<
                        CrossTenantView,
                    >::Ask(ClusterRequestView::ReadLogs { side: Side::Victim, name }));
                },
                _ => {},
            }
        },
        _ => {},
    }
}


/// In the run that `log` records, the experiment made the request that `log[i]`
/// answers.
pub open spec fn answers(
    exp: BreachView,
    victim_namespace: Seq<char>,
    log: Seq<ClusterReplyView>,
    i: int,
    request: ClusterRequestView,
) -> bool {
    0 <= i < log.len() && breach_step(exp, victim_namespace, log.take(i)) == ClusterStepView::<
        CrossTenantView,
    >::Ask(request)
}

/// The intruder's logs were read in this run, and `log[i]` is what they said.
pub open spec fn heard_the_intruder(
    exp: BreachView,
    victim_namespace: Seq<char>,
    log: Seq<ClusterReplyView>,
    i: int,
) -> bool {
    exists|name: Seq<char>| #[trigger]
        answers(
            exp,
            victim_namespace,
            log,
            i,
            ClusterRequestView::ReadLogs { side: Side::Intruder, name },
        )
}

/// The intruder was created pinned to a node by the request that `log[at]`
/// answers, read back unplaced, and the list of nodes that followed shows no
/// node of that name.
pub open spec fn missed_the_node(
    exp: BreachView,
    victim_namespace: Seq<char>,
    log: Seq<ClusterReplyView>,
    at: int,
) -> bool {
    exists|pod: PodView| #[trigger]
        answers(
            exp,
            victim_namespace,
            log,
            at,
            ClusterRequestView::CreatePod { side: Side::Intruder, pod },
        ) && answers(
            exp,
            victim_namespace,
            log,
            at + 2,
            ClusterRequestView::GetPod { side: Side::Intruder, name: pod.name },
        ) && answers(
            exp,
            victim_namespace,
            log,
            at + 3,
            ClusterRequestView::ListNodes { side: Side::Intruder },
        ) && read_unplaced(log[at + 2]) && pod.node_name is Some && shows_no_node(
            log[at + 3],
            pod.node_name->Some_0,
        )
}

/// A finding takes an intruder: where the verdict is not undetermined, the run
/// asked for the intruder's creation.
pub proof fn a_finding_takes_an_intruder(
    exp: BreachView,
    victim_namespace: Seq<char>,
    log: Seq<ClusterReplyView>,
)
    requires
        breach_step(exp, victim_namespace, log) is Done,
        !(breach_step(exp, victim_namespace, log)->Done_0.isolation is Unknown),
    ensures
        exists|at: int, pod: PodView| #[trigger]
            answers(
                exp,
                victim_namespace,
                log,
                at,
                ClusterRequestView::CreatePod { side: Side::Intruder, pod },
            ),
{
    let len = log.len() as int;
    body_is_stable(exp, victim_namespace, log, len);
    plant_is_stable(exp, log, len);
    let planted = plant(exp, log)->Got_0->Some_0;
    let settled: int = end_of(plant(exp, log));
    assert(observe_step(exp, planted, log, settled) is Got);
    let (pod, at): (PodView, int) = intrusion(exp, log)->Some_0;
    plant_is_stable(exp, log, at);
    assert(at < log.len());
    assert forall|k: int| 0 <= k < at implies #[trigger] log.take(at)[k] == log[k] by {}
    assert(answers(
        exp,
        victim_namespace,
        log,
        at,
        ClusterRequestView::CreatePod { side: Side::Intruder, pod },
    ));
}

/// What a verdict needs: a breach, that the intruder's logs were read; full
/// isolation, that they were read or that the intruder was seen not to get onto
/// the node it was pinned to, which is not among the nodes of its tenant.
pub proof fn a_verdict_rests_on_what_came_back(
    exp: BreachView,
    victim_namespace: Seq<char>,
    log: Seq<ClusterReplyView>,
)
    requires
        breach_step(exp, victim_namespace, log) is Done,
    ensures
        ({
            let found = breach_step(exp, victim_namespace, log)->Done_0.isolation;
            &&& found is NoIsolation ==> exists|i: int|
                heard_the_intruder(exp, victim_namespace, log, i)
            &&& found is Hard ==> (exists|i: int|
                heard_the_intruder(exp, victim_namespace, log, i)) || exists|i: int|
                missed_the_node(exp, victim_namespace, log, i)
        }),
{
    let found = breach_step(exp, victim_namespace, log)->Done_0.isolation;
    if found is NoIsolation || found is Hard {
        a_finding_takes_an_intruder(exp, victim_namespace, log);
        let (at, pod): (int, PodView) = choose|at: int, pod: PodView| #[trigger]
            answers(
                exp,
                victim_namespace,
                log,
                at,
                ClusterRequestView::CreatePod { side: Side::Intruder, pod },
            );
        the_verdict_follows_the_intruder(exp, victim_namespace, log, at, pod);
        if read_unplaced(log[at + 2]) {
            assert(answers(
                exp,
                victim_namespace,
                log,
                at + 2,
                ClusterRequestView::GetPod { side: Side::Intruder, name: pod.name },
            ));
            assert(missed_the_node(exp, victim_namespace, log, at));
        } else {
            assert(answers(
                exp,
                victim_namespace,
                log,
                at + 3,
                ClusterRequestView::ReadLogs { side: Side::Intruder, name: pod.name },
            ));
            assert(heard_the_intruder(exp, victim_namespace, log, at + 3));
        }
    }
}

/// The experiments that look for a secret find a breach exactly where the
/// intruder's own logs repeat the secret that the target's logs showed, and
/// those that look for a mark exactly where they hold the mark; otherwise they
/// find full isolation. Those that read the intruder's report find a breach
/// exactly where it reports success, and full isolation where it reports that
/// nothing is there.
pub proof fn a_heard_intruder_is_judged_by_its_words(
    exp: BreachView,
    victim_namespace: Seq<char>,
    log: Seq<ClusterReplyView>,
    i: int,
)
    requires
        breach_step(exp, victim_namespace, log) is Done,
        heard_the_intruder(exp, victim_namespace, log, i),
    ensures
        ({
            let result = breach_step(exp, victim_namespace, log)->Done_0;
            let said = match log[i] {
                ClusterReplyView::Output(text) => text,
                _ => Seq::empty(),
            };
            match exp.breach {
                ConditionView::IntruderReports(mark) => {
                    &&& result.isolation is NoIsolation <==> has_text(said, mark)
                    &&& result.isolation is Hard <==> !has_text(said, mark)
                    &&& result.autonomy
                },
                ConditionView::IntruderRepeatsSecret => exists|k: int|
                    #[trigger] answers(
                        exp,
                        victim_namespace,
                        log,
                        k,
                        ClusterRequestView::ReadLogs {
                            side: Side::Victim,
                            name: exp.target.name,
                        },
                    ) && {
                        let secret = recovered(exp.secret, log[k].output());
                        &&& secret.len() > 0
                        &&& result.isolation is NoIsolation <==> has_text(said, secret)
                        &&& result.isolation is Hard <==> !has_text(said, secret)
                        &&& result.autonomy
                    },
                ConditionView::Decided(classifier) => {
                    let (reached, nothing) = if classifier is DnsResolution {
                        (has_text(said, "DNS_RESOLVED"@), has_text(said, "DNS_NXDOMAIN"@))
                    } else {
                        (
                            has_text(said, "NETWORK_ACCESS_SUCCESS"@),
                            has_text(said, "NETWORK_ACCESS_NO_HOST"@) || has_text(
                                said,
                                "NETWORK_ACCESS_NO_ANSWER"@,
                            ),
                        )
                    };
                    &&& result.isolation is NoIsolation <==> reached
                    &&& result.isolation is Hard <==> !reached && nothing
                },
            }
        }),
{
    let name = choose|name: Seq<char>| #[trigger]
        answers(
            exp,
            victim_namespace,
            log,
            i,
            ClusterRequestView::ReadLogs { side: Side::Intruder, name },
        );
    the_intruders_requests_have_their_place(exp, victim_namespace, log, i);
    let (pod, at): (PodView, int) = intrusion(exp, log)->Some_0;
    assert(log.take(i).take(at) =~= log.take(at));
    assert forall|k: int| 0 <= k < i implies #[trigger] log.take(i)[k] == log[k] by {}
    plant_is_stable(exp, log, at);
    assert forall|k: int| 0 <= k < at implies #[trigger] log.take(at)[k] == log[k] by {}
    assert(intrusion(exp, log.take(at)) == Some((pod, at)));
    the_run_after_the_creation(exp, victim_namespace, log, at, pod);
    what_was_planted_was_shown(exp, log);
    the_planted_secret_was_read(exp, victim_namespace, log);
    let k = choose|k: int|
        0 <= k < log.len() && breach_step(exp, victim_namespace, #[trigger] log.take(k))
            == ClusterStepView::<CrossTenantView>::Ask(
            ClusterRequestView::ReadLogs { side: Side::Victim, name: exp.target.name },
        ) && plant(exp, log)->Got_0->Some_0.secret == recovered(exp.secret, log[k].output());
    assert(answers(
        exp,
        victim_namespace,
        log,
        k,
        ClusterRequestView::ReadLogs { side: Side::Victim, name: exp.target.name },
    ));
}


/// The address that the target was seen to have: that of its pod, as a read of
/// the pod gave it, or that of its service, as a read of the service gave it.
pub open spec fn was_the_targets_address(
    exp: BreachView,
    victim_namespace: Seq<char>,
    log: Seq<ClusterReplyView>,
    address: Seq<char>,
) -> bool {
    let of_the_pod = exists|i: int|
        #[trigger] answers(
            exp,
            victim_namespace,
            log,
            i,
            ClusterRequestView::GetPod { side: Side::Victim, name: exp.target.name },
        ) && log[i].pod_address() == address;
    match exp.target_service {
        None => of_the_pod,
        Some(service) => exists|i: int|
            #[trigger] answers(
                exp,
                victim_namespace,
                log,
                i,
                ClusterRequestView::GetService { side: Side::Victim, name: service.name },
            ) && match log[i] {
                ClusterReplyView::Address(Some(cluster_ip)) => cluster_ip == address,
                _ => of_the_pod,
            },
    }
}

proof fn the_address_was_read(
    name: Seq<char>,
    log: Seq<ClusterReplyView>,
    address: Seq<char>,
    attempt: nat,
    at: int,
)
    requires
        0 <= at <= log.len(),
        await_address(name, log, address, attempt, at) is Got,
    ensures
        await_address(name, log, address, attempt, at)->Got_0 == address || exists|i: int|
            at <= i < log.len() && await_address(name, #[trigger] log.take(i), address, attempt, at)
                == ProgressView::<Seq<char>>::Ask(
                ClusterRequestView::GetPod { side: Side::Victim, name },
            ) && log[i].pod_address() == await_address(name, log, address, attempt, at)->Got_0,
    decreases ADDRESS_ATTEMPTS - attempt,
{
    if !(address.len() > 0 || attempt >= ADDRESS_ATTEMPTS) {
        let next = log[at + 1].pod_address();
        let read = ProgressView::<Seq<char>>::Ask(
            ClusterRequestView::GetPod { side: Side::Victim, name },
        );
        let got = await_address(name, log, address, attempt, at)->Got_0;
        the_address_was_read(name, log, next, attempt + 1, at + 2);
        if got == next {
            assert(await_address(name, log.take(at + 1), address, attempt, at) == read);
        } else {
            let i = choose|i: int|
                at + 2 <= i < log.len() && await_address(
                    name,
                    #[trigger] log.take(i),
                    next,
                    attempt + 1,
                    at + 2,
                ) == read && log[i].pod_address() == got;
            assert(log.take(i)[at + 1] == log[at + 1]);
            assert(await_address(name, log.take(i), address, attempt, at) == read);
        }
    }
}

/// What was planted was found where the target is: its node and its address are
/// those that the cluster gave for the target.
pub proof fn the_target_was_found(
    exp: BreachView,
    victim_namespace: Seq<char>,
    log: Seq<ClusterReplyView>,
)
    requires
        plant(exp, log) is Got,
        plant(exp, log)->Got_0 is Some,
    ensures
        answers(
            exp,
            victim_namespace,
            log,
            0,
            ClusterRequestView::CreatePod { side: Side::Victim, pod: exp.target },
        ),
        answers(
            exp,
            victim_namespace,
            log,
            2,
            ClusterRequestView::GetPod { side: Side::Victim, name: exp.target.name },
        ),
        plant(exp, log)->Got_0->Some_0.node == log[2].pod_node(),
        was_the_targets_address(
            exp,
            victim_namespace,
            log,
            plant(exp, log)->Got_0->Some_0.address,
        ),
{
    let name = exp.target.name;
    let read = ClusterRequestView::GetPod { side: Side::Victim, name };
    let first = log[2].pod_address();
    let len = log.len() as int;
    assert forall|i: int, k: int| 0 <= k < i <= log.len() implies #[trigger] log.take(i)[k]
        == log[k] by {}
    address_is_stable(name, log, first, 0, 3, len);
    the_address_was_read(name, log, first, 0, 3);
    match await_address(name, log, first, 0, 3) {
        ProgressView::Got(address, found) => {
            if address == first {
                assert(answers(exp, victim_namespace, log, 2, read));
            } else {
                let i = choose|i: int|
                    3 <= i < log.len() && await_address(name, #[trigger] log.take(i), first, 0, 3)
                        == ProgressView::<Seq<char>>::Ask(read) && log[i].pod_address() == address;
                assert(answers(exp, victim_namespace, log, i, read));
            }
            service_is_stable(exp.target_service, log, address, found, len);
            match exp.target_service {
                Some(service) => {
                    address_is_stable(name, log, first, 0, 3, found + 1);
                    assert(answers(
                        exp,
                        victim_namespace,
                        log,
                        found + 1,
                        ClusterRequestView::GetService { side: Side::Victim, name: service.name },
                    ));
                },
                None => {},
            }
        },
        _ => {},
    }
}

/// The intruder is made for this target. One that has to stand next to the
/// target is the experiment's pod pinned to the node that the target was read
/// back on; one that has to reach it runs the experiment's script with the
/// target's address in it; one that the caller builds is built from where the
/// target is, what it showed and what it printed; any other is the
/// experiment's pod as it is.
pub proof fn the_intruder_is_aimed_at_the_target(
    exp: BreachView,
    victim_namespace: Seq<char>,
    log: Seq<ClusterReplyView>,
    at: int,
    intruder: PodView,
)
    requires
        answers(
            exp,
            victim_namespace,
            log,
            at,
            ClusterRequestView::CreatePod { side: Side::Intruder, pod: intruder },
        ),
    ensures
        answers(
            exp,
            victim_namespace,
            log,
            2,
            ClusterRequestView::GetPod { side: Side::Victim, name: exp.target.name },
        ),
        match exp.intruder {
            IntruderView::OnTargetNode(pod) => intruder == (PodView {
                node_name: Some(log[2].pod_node()),
                ..pod
            }),
            IntruderView::AtTargetAddress { pod, before, after } => {
                &&& intruder == (PodView { containers: intruder.containers, ..pod })
                &&& intruder.containers.len() == pod.containers.len()
                &&& pod.containers.len() > 0 ==> exists|address: Seq<char>| #[trigger]
                    was_the_targets_address(exp, victim_namespace, log, address)
                        && address.len() > 0 && intruder.containers[0].command == seq![
                        "sh"@,
                        "-c"@,
                        before + address + after,
                    ]
            },
            IntruderView::Anywhere(pod) => intruder == pod,
            IntruderView::FromTarget { .. } => {
                &&& log[at - 1] == ClusterReplyView::Built(intruder)
                &&& match breach_step(exp, victim_namespace, log.take(at - 1)) {
                    ClusterStepView::Ask(
                        ClusterRequestView::BuildIntruder { node, address, secret, logs },
                    ) => {
                        &&& node == log[2].pod_node()
                        &&& was_the_targets_address(exp, victim_namespace, log, address)
                        &&& secret == recovered(exp.secret, logs)
                        &&& secret.len() > 0
                    },
                    _ => false,
                }
            },
        },
{
    the_intruders_requests_have_their_place(exp, victim_namespace, log, at);
    the_target_was_found(exp, victim_namespace, log);
    what_was_planted_was_shown(exp, log);
    the_planted_secret_was_read(exp, victim_namespace, log);
    let planted = plant(exp, log)->Got_0->Some_0;
    let settled: int = end_of(plant(exp, log));
    plant_is_stable(exp, log, log.len() as int);
    if exp.intruder is FromTarget {
        plant_is_stable(exp, log, settled);
        assert forall|k: int| 0 <= k < settled implies #[trigger] log.take(settled)[k] == log[k] by {}
    }
    assert(was_the_targets_address(exp, victim_namespace, log, planted.address));
}


proof fn the_first_line_is_found(list: Seq<Seq<char>>, prefix: Seq<char>, i: int)
    requires
        0 <= i < list.len(),
        has_text(list[i], prefix),
        forall|j: int| 0 <= j < i ==> !has_text(#[trigger] list[j], prefix),
    ensures
        first_with(list, prefix) == Some(list[i]),
    decreases i,
{
    if i > 0 {
        let rest = list.skip(1);
        assert(!has_text(list[0], prefix));
        assert(rest[i - 1] == list[i]);
        assert forall|j: int| 0 <= j < i - 1 implies !has_text(#[trigger] rest[j], prefix) by {
            assert(rest[j] == list[j + 1]);
        }
        the_first_line_is_found(rest, prefix, i - 1);
    }
}

proof fn no_line_is_found(list: Seq<Seq<char>>, prefix: Seq<char>)
    requires
        forall|j: int| 0 <= j < list.len() ==> !has_text(#[trigger] list[j], prefix),
    ensures
        first_with(list, prefix) is None,
    decreases list.len(),
{
    if list.len() > 0 {
        let rest = list.skip(1);
        assert(!has_text(list[0], prefix));
        assert forall|j: int| 0 <= j < rest.len() implies !has_text(#[trigger] rest[j], prefix) by {
            assert(rest[j] == list[j + 1]);
        }
        no_line_is_found(rest, prefix);
    }
}

/// A published secret is the first word behind its prefix, on the first line
/// that has the prefix; and nothing where no line has it.
pub proof fn a_published_secret_stands_behind_its_prefix(
    prefix: Seq<char>,
    logs: Seq<char>,
    i: int,
    at: int,
)
    requires
        prefix.len() > 0,
        0 <= i < lines(logs).len(),
        occurs_at(lines(logs)[i], prefix, at),
        forall|j: int| 0 <= j < i ==> !has_text(#[trigger] lines(logs)[j], prefix),
        forall|before: int| 0 <= before < at ==> !occurs_at(lines(logs)[i], prefix, before),
        !has_text(lines(logs)[i].skip(at + prefix.len()), prefix),
    ensures
        recovered(SecretView::Published(prefix), logs) == first_word(
            lines(logs)[i].skip(at + prefix.len()),
        ),
{
    let line = lines(logs)[i];
    let rest = line.skip(at + prefix.len());
    assert(has_text(line, prefix));
    the_first_line_is_found(lines(logs), prefix, i);
    the_first_part_ends_at_the_first_separator(line, prefix, at);
    assert forall|k: int| 0 <= k implies !occurs_at(rest, prefix, k) by {}
    a_text_without_separators_is_its_only_part(rest, prefix);
    assert(parts(line, prefix) =~= seq![line.take(at), rest]);
}

/// What an experiment takes for a secret: a published one only where some line
/// has its prefix, a confirmed one exactly where the marker is in the logs, and
/// readiness in any case.
pub proof fn a_secret_is_in_the_logs(prefix: Seq<char>, marker: Seq<char>, logs: Seq<char>)
    ensures
        (forall|j: int| 0 <= j < lines(logs).len() ==> !has_text(#[trigger] lines(logs)[j], prefix))
            ==> recovered(SecretView::Published(prefix), logs).len() == 0,
        recovered(SecretView::ConfirmedBy(marker), logs) == (if has_text(logs, marker) {
            marker
        } else {
            Seq::empty()
        }),
        recovered(SecretView::ReadinessOnly, logs).len() > 0,
{
    reveal_strlit("<ready>");
    if forall|j: int| 0 <= j < lines(logs).len() ==> !has_text(#[trigger] lines(logs)[j], prefix) {
        no_line_is_found(lines(logs), prefix);
    }
}

/// What a verdict tells names the experiment, and where the intruder was stopped
/// or its node is missing it also tells why; a refusal at admission is told
/// apart from one by the runtime.
pub proof fn a_verdict_names_the_experiment(
    exp: BreachView,
    secret: Seq<char>,
    observation: ObservationView,
)
    requires
        !(observation is Saw && exp.breach is Decided),
    ensures
        ({
            let result = verdict_of(exp, secret, observation);
            &&& has_text(result.details, exp.what)
            &&& match observation {
                ObservationView::Refused(why) => {
                    &&& has_text(result.details, why)
                    &&& result.isolation == IsolationView::Soft(
                        "Intruder refused at admission: "@ + why,
                    )
                },
                ObservationView::TargetNodeUnreachable(why) => has_text(result.details, why),
                ObservationView::CouldNotRun { reason, asked_for_host_privilege } => {
                    &&& has_text(result.details, reason)
                    &&& asked_for_host_privilege ==> result.isolation == IsolationView::Soft(
                        "Runtime would not start a container asking for host privilege: "@
                            + reason,
                    )
                },
                ObservationView::Saw(_) => true,
            }
        }),
{
    sums_hold_their_parts(exp.what);
    match observation {
        ObservationView::Refused(why) => {
            sums_hold_their_parts(why);
        },
        ObservationView::TargetNodeUnreachable(why) => {
            sums_hold_their_parts(why);
        },
        ObservationView::CouldNotRun { reason, .. } => {
            sums_hold_their_parts(reason);
        },
        ObservationView::Saw(_) => {},
    }
}


/// Where a pod that came back is: its own address is the one that its status
/// gives it, not that of its node, and its node the one it was placed on.
pub proof fn an_address_is_the_pods_own(pod: LandedView)
    ensures
        ({
            let reply = ClusterReplyView::Landed(pod);
            &&& reply.pod_address() == (match pod.status {
                Some(status) => match status.pod_ip {
                    Some(ip) => ip,
                    None => Seq::empty(),
                },
                None => Seq::empty(),
            })
            &&& reply.pod_node() == (match pod.node_name {
                Some(node) => node,
                None => Seq::empty(),
            })
        }),
{
}

/// Why a pod was not placed is told in the cluster's words: those of a condition
/// that says it was not scheduled, its message before its reason; or that the
/// node it is pinned to never took it.
pub proof fn an_unplaced_pod_says_why(pod: LandedView, why: Seq<char>)
    requires
        unplaced(pod) == Some(why),
    ensures
        pod.status is Some,
        ({
            let conditions = pod.status->Some_0.conditions;
            ||| exists|i: int|
                0 <= i < conditions.len() && (#[trigger] conditions[i]).type_ == "PodScheduled"@
                    && conditions[i].status == "False"@ && match conditions[i].message {
                    Some(message) => why == message,
                    None => match conditions[i].reason {
                        Some(reason) => why == reason,
                        None => why.len() == 0,
                    },
                }
            ||| pod.node_name is Some && why == "pinned to node "@ + pod.node_name->Some_0
                + ", which never accepted it"@
        }),
{
    the_unscheduled_condition_is_one(pod.status->Some_0.conditions);
}

proof fn the_unscheduled_condition_is_one(conditions: Seq<crate::pods::ConditionView>)
    ensures
        match unscheduled(conditions) {
            Some(condition) => exists|i: int|
                0 <= i < conditions.len() && #[trigger] conditions[i] == condition
                    && condition.type_ == "PodScheduled"@ && condition.status == "False"@,
            None => true,
        },
    decreases conditions.len(),
{
    if conditions.len() > 0 {
        let rest = conditions.skip(1);
        the_unscheduled_condition_is_one(rest);
        match unscheduled(rest) {
            Some(condition) => {
                let i = choose|i: int| 0 <= i < rest.len() && #[trigger] rest[i] == condition;
                assert(conditions[i + 1] == rest[i]);
            },
            None => {},
        }
        assert(conditions[0] == conditions[0]);
    }
}

/// Why a container did not start is told in the runtime's words: the message of
/// its start error, or what it waits for with the message that goes with it.
pub proof fn an_unstarted_pod_says_why(pod: LandedView, why: Seq<char>)
    requires
        unstarted(pod) == Some(why),
    ensures
        pod.status is Some,
        exists|i: int|
            0 <= i < pod.status->Some_0.container_states.len() && told_by(
                #[trigger] pod.status->Some_0.container_states[i],
                why,
            ),
{
    the_start_failure_is_told(pod.status->Some_0.container_states);
}

/// The state tells why its container did not start.
pub open spec fn told_by(state: Option<StateView>, why: Seq<char>) -> bool {
    match state {
        Some(state) => {
            ||| state.terminated is Some && match state.terminated->Some_0.message {
                Some(message) => why == message,
                None => why == "StartError"@,
            }
            ||| state.waiting is Some && state.waiting->Some_0.reason is Some
                && match state.waiting->Some_0.message {
                Some(message) => why == state.waiting->Some_0.reason->Some_0 + ": "@ + message,
                None => why == state.waiting->Some_0.reason->Some_0,
            }
        },
        None => false,
    }
}

proof fn the_start_failure_is_told(states: Seq<Option<StateView>>)
    ensures
        match first_start_failure(states) {
            Some(why) => exists|i: int|
                0 <= i < states.len() && told_by(#[trigger] states[i], why),
            None => true,
        },
    decreases states.len(),
{
    if states.len() > 0 {
        match start_failure(states[0]) {
            Some(why) => {
                assert(told_by(states[0], why));
            },
            None => {
                let rest = states.skip(1);
                the_start_failure_is_told(rest);
                match first_start_failure(rest) {
                    Some(why) => {
                        let i = choose|i: int|
                            0 <= i < rest.len() && told_by(#[trigger] rest[i], why);
                        assert(states[i + 1] == rest[i]);
                    },
                    None => {},
                }
            },
        }
    }
}


/// How patient an experiment is: it gives the target up only after its logs were
/// read sixty times without a secret in them.
proof fn a_secret_is_given_up_late(exp: BreachView, log: Seq<ClusterReplyView>, attempt: nat, at: int)
    requires
        0 <= at,
        attempt <= 60,
        await_secret(exp, log, attempt, at) is Got,
        await_secret(exp, log, attempt, at)->Got_0.0.len() == 0,
    ensures
        end_of(await_secret(exp, log, attempt, at)) == at + 2 * (60 - attempt),
        forall|k: int|
            0 <= k < 60 - attempt ==> recovered(
                exp.secret,
                #[trigger] reply_at(log, at + 2 * k).output(),
            ).len() == 0,
    decreases 60 - attempt,
{
    if attempt < 60 {
        a_secret_is_given_up_late(exp, log, attempt + 1, at + 2);
        assert forall|k: int| 0 <= k < 60 - attempt implies recovered(
            exp.secret,
            #[trigger] reply_at(log, at + 2 * k).output(),
        ).len() == 0 by {
            if k > 0 {
                assert(reply_at(log, (at + 2) + 2 * (k - 1)) == reply_at(log, at + 2 * k));
            }
        }
    }
}

/// The reply at a place.
pub open spec fn reply_at(log: Seq<ClusterReplyView>, i: int) -> ClusterReplyView {
    log[i]
}

/// The address of a target is given up only after thirty further looks.
proof fn an_address_is_given_up_late(
    name: Seq<char>,
    log: Seq<ClusterReplyView>,
    address: Seq<char>,
    attempt: nat,
    at: int,
)
    requires
        0 <= at,
        attempt <= 30,
        await_address(name, log, address, attempt, at) is Got,
        await_address(name, log, address, attempt, at)->Got_0.len() == 0,
    ensures
        address.len() == 0,
        forall|k: int|
            0 <= k < 30 - attempt ==> #[trigger] reply_at(
                log,
                at + 1 + 2 * k,
            ).pod_address().len() == 0,
    decreases 30 - attempt,
{
    if attempt < 30 && address.len() == 0 {
        an_address_is_given_up_late(name, log, log[at + 1].pod_address(), attempt + 1, at + 2);
        assert forall|k: int| 0 <= k < 30 - attempt implies #[trigger] reply_at(
            log,
            at + 1 + 2 * k,
        ).pod_address().len() == 0 by {
            if k > 0 {
                assert(reply_at(log, (at + 2) + 1 + 2 * (k - 1)) == reply_at(log, at + 1 + 2 * k));
            } else {
                assert(reply_at(log, at + 1) == log[at + 1]);
            }
        }
    }
}

/// Sixty reads of the target's logs from `at` on showed no secret.
pub open spec fn given_up_after(exp: BreachView, log: Seq<ClusterReplyView>, at: int) -> bool {
    forall|k: int|
        0 <= k < 60 ==> recovered(
            exp.secret,
            #[trigger] reply_at(log, at + 2 * k).output(),
        ).len() == 0
}

/// Thirty looks at the target after the first one showed no address of it.
pub open spec fn stayed_without_address(log: Seq<ClusterReplyView>) -> bool {
    &&& log[2].pod_address().len() == 0
    &&& forall|k: int|
        0 <= k < 30 ==> #[trigger] reply_at(log, 4 + 2 * k).pod_address().len() == 0
}

/// A target that planted nothing was asked often enough: its logs were read
/// sixty times and none of them held the secret. Where the intruder needs the
/// address of the target's pod, the target may also be given up for having had
/// none at thirty looks after the first.
pub proof fn a_target_is_given_up_late(exp: BreachView, log: Seq<ClusterReplyView>)
    requires
        plant(exp, log) is Got,
        plant(exp, log)->Got_0 is None,
        exp.intruder is AtTargetAddress ==> exp.target_service is None,
    ensures
        (exists|at: int| 3 <= at && #[trigger] given_up_after(exp, log, at)) || (exp.intruder is
            AtTargetAddress && stayed_without_address(log)),
{
    let name = exp.target.name;
    let first = log[2].pod_address();
    address_is_stable(name, log, first, 0, 3, log.len() as int);
    match await_address(name, log, first, 0, 3) {
        ProgressView::Got(address, found) => {
            service_is_stable(exp.target_service, log, address, found, log.len() as int);
            match reach_service(exp.target_service, log, address, found) {
                ProgressView::Got(aim, at) => {
                    if aim.len() == 0 && exp.intruder is AtTargetAddress {
                        an_address_is_given_up_late(name, log, first, 0, 3);
                        assert forall|k: int| 0 <= k < 30 implies #[trigger] reply_at(
                            log,
                            4 + 2 * k,
                        ).pod_address().len() == 0 by {
                            assert(reply_at(log, 3 + 1 + 2 * k) == reply_at(log, 4 + 2 * k));
                        }
                    } else {
                        a_secret_is_given_up_late(exp, log, 0, at);
                        assert(given_up_after(exp, log, at));
                    }
                },
                _ => {},
            }
        },
        _ => {},
    }
}


/// Where the target planted nothing, nothing is found: the isolation stays
/// undetermined, the tenant is not held to have been refused, and what is told
/// names the experiment and the namespace in which the target was. No intruder
/// was created.
pub proof fn an_unplanted_secret_leaves_it_open(
    exp: BreachView,
    victim_namespace: Seq<char>,
    log: Seq<ClusterReplyView>,
)
    requires
        breach_step(exp, victim_namespace, log) is Done,
        plant(exp, log) is Got,
        plant(exp, log)->Got_0 is None,
    ensures
        ({
            let result = breach_step(exp, victim_namespace, log)->Done_0;
            &&& result.isolation is Unknown
            &&& result.autonomy
            &&& has_text(result.details, exp.what)
            &&& has_text(result.details, victim_namespace)
        }),
        forall|i: int, pod: PodView|
            !(#[trigger] answers(
                exp,
                victim_namespace,
                log,
                i,
                ClusterRequestView::CreatePod { side: Side::Intruder, pod },
            )),
{
    sums_hold_their_parts(exp.what);
    sums_hold_their_parts(victim_namespace);
    assert forall|i: int, pod: PodView|
        !(#[trigger] answers(
            exp,
            victim_namespace,
            log,
            i,
            ClusterRequestView::CreatePod { side: Side::Intruder, pod },
        )) by {
        if answers(
            exp,
            victim_namespace,
            log,
            i,
            ClusterRequestView::CreatePod { side: Side::Intruder, pod },
        ) {
            the_intruders_requests_have_their_place(exp, victim_namespace, log, i);
        }
    }
}

/// A run that breaks off does so with the error of the reply that broke it off.
pub proof fn a_run_breaks_off_with_its_error(
    exp: BreachView,
    victim_namespace: Seq<char>,
    log: Seq<ClusterReplyView>,
    at: int,
    intruder: PodView,
)
    requires
        breach_step(exp, victim_namespace, log) is Abort,
        answers(
            exp,
            victim_namespace,
            log,
            at,
            ClusterRequestView::CreatePod { side: Side::Intruder, pod: intruder },
        ),
    ensures
        match log[at] {
            ClusterReplyView::Failed { refusal, error, .. } => refusal is None && breach_step(
                exp,
                victim_namespace,
                log,
            )->Abort_0 == error,
            _ => false,
        },
{
    the_intruders_requests_have_their_place(exp, victim_namespace, log, at);
    assert(intrusion(exp, log) == Some((intruder, at)));
}


/// Nothing that a run made is left behind: however it ends, each pod that it
/// created, on either side, was asked to be deleted there, under the name it was
/// created with, and so was the target's service.
pub proof fn every_created_pod_is_deleted(
    exp: BreachView,
    victim_namespace: Seq<char>,
    log: Seq<ClusterReplyView>,
    i: int,
    side: Side,
    pod: PodView,
)
    requires
        !(breach_step(exp, victim_namespace, log) is Ask),
        answers(
            exp,
            victim_namespace,
            log,
            i,
            ClusterRequestView::CreatePod { side, pod },
        ),
        match exp.intruder {
            IntruderView::FromTarget { name } => side == Side::Intruder ==> pod.name == name,
            _ => true,
        },
    ensures
        breach_asked(
            exp,
            victim_namespace,
            log,
            ClusterRequestView::DeletePod { side, name: pod.name },
        ),
        breach_asked(
            exp,
            victim_namespace,
            log,
            ClusterRequestView::AwaitPodDeletion { side, name: pod.name },
        ),
        exp.target_service is Some ==> breach_asked(
            exp,
            victim_namespace,
            log,
            ClusterRequestView::DeleteService {
                side: Side::Victim,
                name: exp.target_service->Some_0.name,
            },
        ),
{
    let chores = breach_cleanup(exp);
    every_breach_experiment_cleans_up(exp, victim_namespace, log, 0);
    every_breach_experiment_cleans_up(exp, victim_namespace, log, 1);
    every_breach_experiment_cleans_up(exp, victim_namespace, log, 2);
    every_breach_experiment_cleans_up(exp, victim_namespace, log, 3);
    if exp.target_service is Some {
        every_breach_experiment_cleans_up(exp, victim_namespace, log, 4);
    }
    let seen = log.take(i);
    assert forall|k: int| 0 <= k < chores.len() implies takes_away(#[trigger] chores[k]) by {}
    if side == Side::Intruder {
        the_intruders_requests_have_their_place(exp, victim_namespace, log, i);
    } else {
        planting_is_the_victims(exp, seen);
        body_is_stable(exp, victim_namespace, seen, i);
        plant_is_stable(exp, seen, i);
        assert(experiment_body(exp, victim_namespace, seen) is Ask);
    }
}

}
