//! What holds of every run of the node port test and of the node network test.

use crate::breach_laws::end_of;
use crate::cluster::{ClusterReplyView, ClusterRequestView, ClusterStepView, ProgressView, Side};
use crate::isolation::CrossTenantView;
use crate::network::node::{node_body, node_chores, node_step, node_sweep};
use crate::network::nodeport::{
    claim_step, control_step, cross_sweep, nodeport_body, nodeport_chores, nodeport_step, own_sweep,
    ConclusionView, NodePortView,
};
use crate::network::probes::multitool_pod;
use crate::network::sweep::{
    after_miss, await_serving, candidates, fresh_attempt, outcome_of, probe_step, route_hops,
    sweep_step, with_hops, AttemptView, SweepView, MARKER_SERVING_ATTEMPTS, PROBE_ROUNDS,
};
use crate::pods::PodView;
use vstd::prelude::*;
use vstd::string::*;

verus! {

/// How many replies a sweep of so many targets takes at most, from target `k` of
/// round `round` on.
pub open spec fn sweep_replies(targets: nat, round: nat, k: nat) -> int {
    (PROBE_ROUNDS - round) * (targets + 1) - k
}

/// A sweep comes to its end in time, later replies do not change it, and it asks
/// for nothing but commands and pauses.
pub(crate) proof fn sweep_is_stable(
    sweep: SweepView,
    log: Seq<ClusterReplyView>,
    attempt: AttemptView,
    last: Seq<(Seq<char>, Seq<char>)>,
    round: nat,
    k: nat,
    at: int,
    n: int,
)
    requires
        0 <= at <= n <= log.len(),
        round <= PROBE_ROUNDS,
        k <= sweep.targets.len(),
        round == PROBE_ROUNDS ==> k == 0,
    ensures
        ({
            let progress = sweep_step(sweep, log, attempt, last, round, k, at);
            let most = sweep_replies(sweep.targets.len(), round, k);
            &&& !(progress is Stuck)
            &&& progress is Got ==> at <= end_of(progress) <= log.len() && end_of(progress) <= at
                + most
            &&& progress is Got && end_of(progress) <= n ==> sweep_step(
                sweep,
                log.take(n),
                attempt,
                last,
                round,
                k,
                at,
            ) == progress
            &&& sweep_step(sweep, log.take(n), attempt, last, round, k, at) is Got ==> sweep_step(
                sweep,
                log.take(n),
                attempt,
                last,
                round,
                k,
                at,
            ) == progress
            &&& log.len() >= at + most ==> progress is Got
            &&& progress matches ProgressView::Ask(request) ==> request is Exec || request is Pause
        }),
    decreases PROBE_ROUNDS - round, sweep.targets.len() - k,
{
    let targets = sweep.targets.len();
    if round < PROBE_ROUNDS {
        assert((PROBE_ROUNDS - round) * (targets + 1) == (PROBE_ROUNDS - (round + 1)) * (targets
            + 1) + (targets + 1)) by (nonlinear_arith);
        assert((PROBE_ROUNDS - (round + 1)) * (targets + 1) >= 0) by (nonlinear_arith)
            requires
                round < PROBE_ROUNDS,
        ;
        let next: int = if log.len() > at && n > at {
            n
        } else {
            log.len() as int
        };
        if k >= targets {
            if round + 1 >= PROBE_ROUNDS {
                sweep_is_stable(sweep, log, attempt, last, round + 1, 0, at, n);
            } else if log.len() > at {
                sweep_is_stable(sweep, log, attempt, last, round + 1, 0, at + 1, next);
            }
        } else if log.len() > at {
            let (source, _) = sweep.targets[k as int];
            if n > at {
                assert(log.take(n)[at] == log[at]);
            }
            sweep_is_stable(
                sweep,
                log,
                after_miss(attempt, log[at]),
                last.push((source, outcome_of(log[at]))),
                round,
                k + 1,
                at + 1,
                next,
            );
        }
    }
}

/// The search for addresses comes to its end in time, later replies do not
/// change it, and it creates nothing.
pub(crate) proof fn candidates_are_stable(
    side: Side,
    pod: Seq<char>,
    on_host_network: bool,
    log: Seq<ClusterReplyView>,
    at: int,
    n: int,
)
    requires
        0 <= at <= n <= log.len(),
    ensures
        ({
            let progress = candidates(side, pod, on_host_network, log, at);
            &&& !(progress is Stuck)
            &&& progress is Got ==> at < end_of(progress) <= log.len() && end_of(progress) <= at + 4
            &&& progress is Got && end_of(progress) <= n ==> candidates(
                side,
                pod,
                on_host_network,
                log.take(n),
                at,
            ) == progress
            &&& candidates(side, pod, on_host_network, log.take(n), at) is Got ==> candidates(
                side,
                pod,
                on_host_network,
                log.take(n),
                at,
            ) == progress
            &&& log.len() >= at + 4 ==> progress is Got
            &&& progress matches ProgressView::Ask(request) ==> request is ListNodes || request
                is GetPod || request is Exec
        }),
{
    assert forall|k: int| 0 <= k < n implies #[trigger] log.take(n)[k] == log[k] by {}
}

/// Waiting for a marker comes to its end in time, later replies do not change
/// it, and it creates nothing.
pub(crate) proof fn serving_is_stable(
    side: Side,
    pod: Seq<char>,
    marker: Seq<char>,
    log: Seq<ClusterReplyView>,
    attempt: nat,
    at: int,
    n: int,
)
    requires
        0 <= at <= n <= log.len(),
        attempt <= MARKER_SERVING_ATTEMPTS,
    ensures
        ({
            let progress = await_serving(side, pod, marker, log, attempt, at);
            let most = 2 * (MARKER_SERVING_ATTEMPTS - attempt);
            &&& !(progress is Stuck)
            &&& progress is Got ==> at <= end_of(progress) <= log.len() && end_of(progress) <= at
                + most
            &&& progress is Got && end_of(progress) <= n ==> await_serving(
                side,
                pod,
                marker,
                log.take(n),
                attempt,
                at,
            ) == progress
            &&& await_serving(side, pod, marker, log.take(n), attempt, at) is Got ==> await_serving(
                side,
                pod,
                marker,
                log.take(n),
                attempt,
                at,
            ) == progress
            &&& log.len() >= at + most ==> progress is Got
            &&& progress matches ProgressView::Ask(request) ==> request is ReadLogs || request
                is Pause
        }),
    decreases MARKER_SERVING_ATTEMPTS - attempt,
{
    if attempt < MARKER_SERVING_ATTEMPTS && log.len() > at {
        if n > at {
            assert(log.take(n)[at] == log[at]);
        }
        if log.len() > at + 1 {
            let next: int = if n >= at + 2 {
                n
            } else {
                log.len() as int
            };
            serving_is_stable(side, pod, marker, log, attempt + 1, at + 2, next);
        }
    }
}

// ---- The node network test -------------------------------------------------

/// In the run that `log` records, the node network test asked for `request`.
pub open spec fn node_asked(
    marker: Seq<char>,
    log: Seq<ClusterReplyView>,
    request: ClusterRequestView,
) -> bool {
    exists|i: int|
        0 <= i < log.len() && node_step(marker, #[trigger] log.take(i)) == ClusterStepView::<
            CrossTenantView,
        >::Ask(request)
}

/// The node network test comes to its conclusion, and later replies do not
/// change it.
pub(crate) proof fn node_body_is_stable(marker: Seq<char>, log: Seq<ClusterReplyView>, n: int)
    requires
        0 <= n <= log.len(),
    ensures
        ({
            let progress = node_body(marker, log);
            &&& !(progress is Stuck)
            &&& progress is Got ==> 0 < end_of(progress) <= log.len()
            &&& progress is Got && end_of(progress) <= n ==> node_body(marker, log.take(n))
                == progress
        }),
{
    assert forall|k: int| 0 <= k < n implies #[trigger] log.take(n)[k] == log[k] by {}
    if log.len() >= 2 && !log[0].failed() && !log[1].failed() {
        let m: int = if n >= 2 {
            n
        } else {
            log.len() as int
        };
        candidates_are_stable(Side::Victim, "node-marker-service"@, true, log, 2, m);
        if let ProgressView::Got(addresses, at) = candidates(
            Side::Victim,
            "node-marker-service"@,
            true,
            log,
            2,
        ) {
            if log.len() >= at + 2 {
                let m2: int = if n >= at + 2 {
                    n
                } else {
                    log.len() as int
                };
                sweep_is_stable(
                    node_sweep(marker, addresses),
                    log,
                    fresh_attempt(true),
                    seq![],
                    0,
                    0,
                    at + 2,
                    m2,
                );
            }
        }
    }
}

/// Where the node network test ends, it has asked for every request of the
/// cleaning up that its conclusion calls for.
proof fn node_chores_are_asked(marker: Seq<char>, log: Seq<ClusterReplyView>, chore: int)
    requires
        !(node_step(marker, log) is Ask),
        node_body(marker, log) matches ProgressView::Got(conclusion, _) && 0 <= chore
            < node_chores(conclusion.cleanup).len(),
    ensures
        node_asked(marker, log, node_chores(node_body(marker, log)->Got_0.cleanup)[chore]),
{
    let progress = node_body(marker, log);
    node_body_is_stable(marker, log, log.len() as int);
    let i: int = end_of(progress) + chore;
    assert(i < log.len());
    node_body_is_stable(marker, log, i);
    assert(node_step(marker, log.take(i)) == ClusterStepView::<CrossTenantView>::Ask(
        node_chores(progress->Got_0.cleanup)[chore],
    ));
}

/// Every pod that the node network test created is deleted again, on every path
/// on which it ends.
pub proof fn every_node_test_deletes_what_it_created(
    marker: Seq<char>,
    log: Seq<ClusterReplyView>,
    i: int,
)
    requires
        !(node_step(marker, log) is Ask),
        0 <= i < log.len(),
        node_step(marker, log.take(i)) matches ClusterStepView::Ask(
            ClusterRequestView::CreatePod { .. },
        ),
        !log[i].failed(),
    ensures
        node_step(marker, log.take(i)) matches ClusterStepView::Ask(
            ClusterRequestView::CreatePod { side, pod },
        ) && node_asked(marker, log, ClusterRequestView::DeletePod { side, name: pod.name }),
{
    let earlier = log.take(i);
    assert forall|k: int| 0 <= k < i implies #[trigger] earlier[k] == log[k] by {}
    let progress = node_body(marker, log);
    node_body_is_stable(marker, log, log.len() as int);
    node_body_is_stable(marker, log, i);
    node_body_is_stable(marker, earlier, i);
    assert(node_body(marker, earlier) is Ask);
    if i == 0 {
        node_chores_are_asked(marker, log, 0);
    } else {
        assert(i >= 2);
        candidates_are_stable(Side::Victim, "node-marker-service"@, true, earlier, 2, i);
        candidates_are_stable(Side::Victim, "node-marker-service"@, true, log, 2, log.len() as int);
        candidates_are_stable(Side::Victim, "node-marker-service"@, true, log, 2, i);
        if let ProgressView::Got(addresses, at) = candidates(
            Side::Victim,
            "node-marker-service"@,
            true,
            earlier,
            2,
        ) {
            if i > at + 1 {
                sweep_is_stable(
                    node_sweep(marker, addresses),
                    earlier,
                    fresh_attempt(true),
                    seq![],
                    0,
                    0,
                    at + 2,
                    i,
                );
            }
            assert(i == at);
            if log.len() >= at + 2 {
                sweep_is_stable(
                    node_sweep(marker, addresses),
                    log,
                    fresh_attempt(true),
                    seq![],
                    0,
                    0,
                    at + 2,
                    log.len() as int,
                );
            }
            node_chores_are_asked(marker, log, 1);
        }
    }
}

/// The node network test ends: with so many replies as its addresses call for it
/// asks for nothing more.
pub proof fn every_node_test_ends(marker: Seq<char>, log: Seq<ClusterReplyView>, addresses: nat)
    requires
        candidates(Side::Victim, "node-marker-service"@, true, log, 2) matches ProgressView::Got(
            found,
            _,
        ) ==> found.len() <= addresses,
        log.len() >= 12 + PROBE_ROUNDS * (addresses + 1),
    ensures
        !(node_step(marker, log) is Ask),
{
    assert(PROBE_ROUNDS * (addresses + 1) == 12 * addresses + 12);
    candidates_are_stable(Side::Victim, "node-marker-service"@, true, log, 2, log.len() as int);
    if let ProgressView::Got(found, at) = candidates(
        Side::Victim,
        "node-marker-service"@,
        true,
        log,
        2,
    ) {
        sweep_is_stable(
            node_sweep(marker, found),
            log,
            fresh_attempt(true),
            seq![],
            0,
            0,
            at + 2,
            log.len() as int,
        );
        assert(sweep_replies(found.len(), 0, 0) == 12 * found.len() + 12);
    }
}

// ---- The node port test ----------------------------------------------------

/// How many replies a probe with a pod of its own takes at most.
pub open spec fn probe_replies(targets: nat) -> int {
    5 + PROBE_ROUNDS * (targets + 1)
}

/// The hops add no more targets than there are hops.
proof fn hops_are_bounded(
    targets: Seq<(Seq<char>, Seq<char>)>,
    hops: Seq<Seq<char>>,
    n: int,
)
    requires
        0 <= n,
    ensures
        with_hops(targets, hops, n).len() <= targets.len() + n,
    decreases n,
{
    if n > 0 {
        hops_are_bounded(targets, hops, n - 1);
    }
}

/// No reply names more hops than so many.
pub open spec fn names_hops(log: Seq<ClusterReplyView>, hops: nat) -> bool {
    forall|k: int| 0 <= k < log.len() ==> route_hops((#[trigger] log[k]).output()).len() <= hops
}

/// A probe with a pod of its own comes to its end in time, and later replies do
/// not change it.
pub(crate) proof fn probe_is_stable(
    pod: PodView,
    sweep: SweepView,
    log: Seq<ClusterReplyView>,
    at: int,
    n: int,
    hops: nat,
)
    requires
        0 <= at <= n <= log.len(),
    ensures
        ({
            let progress = probe_step(pod, sweep, log, at);
            let most = probe_replies(sweep.targets.len() + hops);
            &&& !(progress is Stuck)
            &&& progress is Got ==> at < end_of(progress) <= log.len()
            &&& progress is Got && names_hops(log, hops) ==> end_of(progress) <= at + most
            &&& progress is Got && end_of(progress) <= n ==> probe_step(
                pod,
                sweep,
                log.take(n),
                at,
            ) == progress
            &&& probe_step(pod, sweep, log.take(n), at) is Got ==> probe_step(
                pod,
                sweep,
                log.take(n),
                at,
            ) == progress
            &&& log.len() >= at + most && names_hops(log, hops) ==> progress is Got
            &&& progress matches ProgressView::Ask(request) ==> {
                &&& !(request is CreateService)
                &&& request is CreatePod ==> log.len() == at && request
                    == (ClusterRequestView::CreatePod { side: sweep.side, pod })
            }
        }),
{
    assert forall|k: int| 0 <= k < n implies #[trigger] log.take(n)[k] == log[k] by {}
    let reached = sweep.targets.len() + hops;
    assert(PROBE_ROUNDS * (reached + 1) == 12 * reached + 12);
    if log.len() > at + 2 {
        let found = route_hops(log[at + 2].output());
        hops_are_bounded(sweep.targets, found, found.len() as int);
        let wider = SweepView {
            targets: with_hops(sweep.targets, found, found.len() as int),
            ..sweep
        };
        assert(sweep_replies(wider.targets.len(), 0, 0) == 12 * wider.targets.len() + 12);
        let m: int = if n >= at + 3 {
            n
        } else {
            log.len() as int
        };
        sweep_is_stable(wider, log, fresh_attempt(true), seq![], 0, 0, at + 3, m);
    }
}

/// A probe with a pod of its own that was created deletes it: at reply number `j`
/// it asks for that.
proof fn a_probe_deletes_its_pod(
    pod: PodView,
    sweep: SweepView,
    log: Seq<ClusterReplyView>,
    at: int,
) -> (j: int)
    requires
        0 <= at < log.len(),
        probe_step(pod, sweep, log, at) is Got,
        !log[at].failed(),
    ensures
        at < j < log.len(),
        probe_step(pod, sweep, log.take(j), at) == ProgressView::<AttemptView>::Ask(
            ClusterRequestView::DeletePod { side: sweep.side, name: sweep.pod },
        ),
{
    if log[at + 1].failed() {
        assert(log.take(at + 2)[at] == log[at]);
        assert(log.take(at + 2)[at + 1] == log[at + 1]);
        at + 2
    } else {
        let found = route_hops(log[at + 2].output());
        let wider = SweepView {
            targets: with_hops(sweep.targets, found, found.len() as int),
            ..sweep
        };
        sweep_is_stable(
            wider,
            log,
            fresh_attempt(true),
            seq![],
            0,
            0,
            at + 3,
            log.len() as int,
        );
        let swept = sweep_step(wider, log, fresh_attempt(true), seq![], 0, 0, at + 3);
        let j = end_of(swept);
        sweep_is_stable(wider, log, fresh_attempt(true), seq![], 0, 0, at + 3, j);
        assert(log.take(j)[at] == log[at]);
        assert(log.take(j)[at + 1] == log[at + 1]);
        assert(log.take(j)[at + 2] == log[at + 2]);
        j
    }
}

/// The addresses and hops that the replies name are no more than so many.
pub open spec fn names_at_most(log: Seq<ClusterReplyView>, addresses: nat, hops: nat) -> bool {
    &&& names_hops(log, hops)
    &&& forall|side: Side, pod: Seq<char>, at: int|
        0 <= at <= log.len() && (#[trigger] candidates(side, pod, false, log, at)) is Got
            ==> candidates(side, pod, false, log, at)->Got_0.len() <= addresses
}

/// How many replies the control takes at most.
pub open spec fn control_replies(addresses: nat, hops: nat) -> int {
    4 + 2 * MARKER_SERVING_ATTEMPTS + probe_replies(addresses + hops)
}

/// The control comes to its end in time, and later replies do not change it.
pub(crate) proof fn control_is_stable(
    test: NodePortView,
    collision: Option<Seq<char>>,
    log: Seq<ClusterReplyView>,
    at: int,
    n: int,
    addresses: nat,
    hops: nat,
)
    requires
        0 <= at <= n <= log.len(),
    ensures
        ({
            let progress = control_step(test, collision, log, at);
            let most = control_replies(addresses, hops);
            &&& !(progress is Stuck)
            &&& progress is Got ==> at <= end_of(progress) <= log.len()
            &&& progress is Got && names_at_most(log, addresses, hops) ==> end_of(progress) <= at
                + most
            &&& progress is Got && end_of(progress) <= n ==> control_step(
                test,
                collision,
                log.take(n),
                at,
            ) == progress
            &&& control_step(test, collision, log.take(n), at) is Got ==> control_step(
                test,
                collision,
                log.take(n),
                at,
            ) == progress
            &&& log.len() >= at + most && names_at_most(log, addresses, hops) ==> progress is Got
            &&& progress matches ProgressView::Ask(request) ==> {
                &&& !(request is CreateService)
                &&& request is CreatePod ==> request == (ClusterRequestView::CreatePod {
                    side: Side::Intruder,
                    pod: multitool_pod("nodeport-selftest"@),
                })
            }
        }),
{
    let name = "nodeport-marker-pod-t2"@;
    let pod = multitool_pod("nodeport-selftest"@);
    if collision is None {
        candidates_are_stable(Side::Intruder, name, false, log, at, n);
        if let ProgressView::Got(own, at1) = candidates(Side::Intruder, name, false, log, at) {
            if own.len() > 0 {
                let m: int = if n >= at1 {
                    n
                } else {
                    log.len() as int
                };
                serving_is_stable(Side::Intruder, name, test.own_marker, log, 0, at1, m);
                if let ProgressView::Got(serving, at2) = await_serving(
                    Side::Intruder,
                    name,
                    test.own_marker,
                    log,
                    0,
                    at1,
                ) {
                    if serving {
                        let m2: int = if n >= at2 {
                            n
                        } else {
                            log.len() as int
                        };
                        probe_is_stable(pod, own_sweep(test, own), log, at2, m2, hops);
                        let few = own.len() + hops;
                        let many = addresses + hops;
                        assert(PROBE_ROUNDS * (few + 1) == 12 * few + 12);
                        assert(PROBE_ROUNDS * (many + 1) == 12 * many + 12);
                    }
                }
            }
        }
    }
}

/// The control deletes the pod that it created: at reply number `j` it asks for
/// that.
proof fn the_control_deletes_its_pod(
    test: NodePortView,
    collision: Option<Seq<char>>,
    log: Seq<ClusterReplyView>,
    at: int,
    i: int,
) -> (j: int)
    requires
        0 <= at <= i < log.len(),
        control_step(test, collision, log, at) is Got,
        control_step(test, collision, log.take(i), at) matches ProgressView::Ask(request)
            && request is CreatePod,
        !log[i].failed(),
    ensures
        i < j < log.len(),
        control_step(test, collision, log.take(j), at) == ProgressView::<Option<bool>>::Ask(
            ClusterRequestView::DeletePod { side: Side::Intruder, name: "nodeport-selftest"@ },
        ),
{
    let name = "nodeport-marker-pod-t2"@;
    let pod = multitool_pod("nodeport-selftest"@);
    let whole = log.len() as int;
    candidates_are_stable(Side::Intruder, name, false, log, at, i);
    candidates_are_stable(Side::Intruder, name, false, log.take(i), at, i);
    assert(log.take(i).take(i) =~= log.take(i));
    let found = candidates(Side::Intruder, name, false, log, at);
    let own = found->Got_0;
    let at1 = end_of(found);
    assert(at1 <= i);
    serving_is_stable(Side::Intruder, name, test.own_marker, log, 0, at1, i);
    serving_is_stable(Side::Intruder, name, test.own_marker, log.take(i), 0, at1, i);
    let served = await_serving(Side::Intruder, name, test.own_marker, log, 0, at1);
    let at2 = end_of(served);
    assert(at2 <= i);
    let sweep = own_sweep(test, own);
    probe_is_stable(pod, sweep, log.take(i), at2, i, 0);
    assert(at2 == i);
    let j = a_probe_deletes_its_pod(pod, sweep, log, at2);
    candidates_are_stable(Side::Intruder, name, false, log, at, j);
    serving_is_stable(Side::Intruder, name, test.own_marker, log, 0, at1, j);
    j
}

/// How many replies the node port test takes at most from the second tenant's
/// claim on.
pub open spec fn claim_replies(addresses: nat, hops: nat) -> int {
    6 + control_replies(addresses, hops) + probe_replies(addresses + hops)
}

/// The second tenant's claim and what follows comes to its end in time, and later
/// replies do not change it.
pub(crate) proof fn claim_is_stable(
    test: NodePortView,
    log: Seq<ClusterReplyView>,
    at: int,
    n: int,
    addresses: nat,
    hops: nat,
)
    requires
        0 <= at <= n <= log.len(),
    ensures
        ({
            let progress = claim_step(test, log, at);
            let most = claim_replies(addresses, hops);
            &&& !(progress is Stuck)
            &&& progress is Got ==> at < end_of(progress) <= log.len()
            &&& progress is Got && names_at_most(log, addresses, hops) ==> end_of(progress) <= at
                + most
            &&& progress is Got && end_of(progress) <= n ==> claim_step(test, log.take(n), at)
                == progress
            &&& log.len() >= at + most && names_at_most(log, addresses, hops) ==> progress is Got
            &&& progress is Got ==> progress->Got_0.cleanup is Everything
        }),
{
    assert forall|k: int| 0 <= k < n implies #[trigger] log.take(n)[k] == log[k] by {}
    let pod = "nodeport-marker-pod"@;
    if log.len() >= at + 2 {
        let collision = if log[at + 1].failed() {
            Some(log[at + 1].error())
        } else {
            None
        };
        let m: int = if n >= at + 2 {
            n
        } else {
            log.len() as int
        };
        candidates_are_stable(Side::Victim, pod, false, log, at + 2, m);
        if let ProgressView::Got(found, at1) = candidates(Side::Victim, pod, false, log, at + 2) {
            let m1: int = if n >= at1 {
                n
            } else {
                log.len() as int
            };
            control_is_stable(test, collision, log, at1, m1, addresses, hops);
            if let ProgressView::Got(_, at2) = control_step(test, collision, log, at1) {
                let m2: int = if n >= at2 {
                    n
                } else {
                    log.len() as int
                };
                let probe = multitool_pod("nodeport-probe"@);
                probe_is_stable(probe, cross_sweep(test, found), log, at2, m2, hops);
                let few = found.len() + hops;
                let many = addresses + hops;
                assert(PROBE_ROUNDS * (few + 1) == 12 * few + 12);
                assert(PROBE_ROUNDS * (many + 1) == 12 * many + 12);
            }
        }
    }
}

/// The second tenant's claim and what follows asks for the deletion of a pod.
spec fn claim_deletes(
    test: NodePortView,
    log: Seq<ClusterReplyView>,
    at: int,
    name: Seq<char>,
) -> bool {
    exists|j: int|
        at <= j < log.len() && claim_step(test, #[trigger] log.take(j), at) == ProgressView::<
            ConclusionView,
        >::Ask(ClusterRequestView::DeletePod { side: Side::Intruder, name })
}

/// What the second tenant's claim and what follows creates, and what it deletes
/// by itself.
proof fn what_a_claim_creates(test: NodePortView, log: Seq<ClusterReplyView>, at: int, i: int)
    requires
        0 <= at <= i < log.len(),
        claim_step(test, log, at) is Got,
        claim_step(test, log.take(i), at) is Ask,
    ensures
        claim_step(test, log.take(i), at) matches ProgressView::Ask(
            ClusterRequestView::CreateService { side, .. },
        ) ==> side == Side::Intruder,
        claim_step(test, log.take(i), at) matches ProgressView::Ask(
            ClusterRequestView::CreatePod { side, pod },
        ) ==> {
            &&& side == Side::Intruder
            &&& pod.name == "nodeport-marker-pod-t2"@ || pod.name == "nodeport-probe"@
                || log[i].failed() || claim_deletes(test, log, at, pod.name)
        },
{
    let earlier = log.take(i);
    let name = "nodeport-marker-pod"@;
    assert forall|k: int| 0 <= k < i implies #[trigger] earlier[k] == log[k] by {}
    if i >= at + 2 {
        let collision = if log[at + 1].failed() {
            Some(log[at + 1].error())
        } else {
            None
        };
        candidates_are_stable(Side::Victim, name, false, log, at + 2, i);
        candidates_are_stable(Side::Victim, name, false, earlier, at + 2, i);
        let listed = candidates(Side::Victim, name, false, log, at + 2);
        if candidates(Side::Victim, name, false, earlier, at + 2) is Got {
            let at1 = end_of(listed);
            control_is_stable(test, collision, log, at1, i, 0, 0);
            control_is_stable(test, collision, earlier, at1, i, 0, 0);
            let controlled = control_step(test, collision, log, at1);
            if let ProgressView::Ask(request) = control_step(test, collision, earlier, at1) {
                if request is CreatePod && !log[i].failed() {
                    let j = the_control_deletes_its_pod(test, collision, log, at1, i);
                    assert forall|k: int| 0 <= k < j implies #[trigger] log.take(j)[k]
                        == log[k] by {}
                    candidates_are_stable(Side::Victim, name, false, log, at + 2, j);
                    assert(claim_step(test, log.take(j), at) == ProgressView::<ConclusionView>::Ask(
                        ClusterRequestView::DeletePod {
                            side: Side::Intruder,
                            name: "nodeport-selftest"@,
                        },
                    ));
                }
            } else {
                let at2 = end_of(controlled);
                let probe = multitool_pod("nodeport-probe"@);
                let sweep = cross_sweep(test, listed->Got_0);
                probe_is_stable(probe, sweep, earlier, at2, i, 0);
            }
        }
    }
}

/// How many replies the node port test takes at most, the cleaning up with it.
pub open spec fn nodeport_replies(addresses: nat, hops: nat) -> int {
    12 + 2 * MARKER_SERVING_ATTEMPTS + claim_replies(addresses, hops)
}

/// The node port test comes to its conclusion in time, and later replies do not
/// change it.
pub(crate) proof fn nodeport_body_is_stable(
    test: NodePortView,
    log: Seq<ClusterReplyView>,
    n: int,
    addresses: nat,
    hops: nat,
)
    requires
        0 <= n <= log.len(),
    ensures
        ({
            let progress = nodeport_body(test, log);
            let most = nodeport_replies(addresses, hops) - 9;
            &&& !(progress is Stuck)
            &&& progress is Got ==> 0 < end_of(progress) <= log.len()
            &&& progress is Got && names_at_most(log, addresses, hops) ==> end_of(progress) <= most
            &&& progress is Got && end_of(progress) <= n ==> nodeport_body(test, log.take(n))
                == progress
            &&& log.len() >= most && names_at_most(log, addresses, hops) ==> progress is Got
        }),
{
    assert forall|k: int| 0 <= k < n implies #[trigger] log.take(n)[k] == log[k] by {}
    let pod = "nodeport-marker-pod"@;
    let many = addresses + hops;
    assert(PROBE_ROUNDS * (many + 1) == 12 * many + 12);
    if log.len() >= 3 {
        let m: int = if n >= 3 {
            n
        } else {
            log.len() as int
        };
        serving_is_stable(Side::Victim, pod, test.marker, log, 0, 3, m);
        if let ProgressView::Got(_, at) = await_serving(Side::Victim, pod, test.marker, log, 0, 3) {
            let m1: int = if n >= at {
                n
            } else {
                log.len() as int
            };
            claim_is_stable(test, log, at, m1, addresses, hops);
        }
    }
}

/// The node port test ends: with so many replies as the addresses and hops call
/// for it asks for nothing more.
pub proof fn every_node_port_test_ends(
    test: NodePortView,
    log: Seq<ClusterReplyView>,
    addresses: nat,
    hops: nat,
)
    requires
        names_at_most(log, addresses, hops),
        log.len() >= nodeport_replies(addresses, hops),
    ensures
        !(nodeport_step(test, log) is Ask),
{
    nodeport_body_is_stable(test, log, log.len() as int, addresses, hops);
}

/// In the run that `log` records, the node port test asked for `request`.
pub open spec fn nodeport_asked(
    test: NodePortView,
    log: Seq<ClusterReplyView>,
    request: ClusterRequestView,
) -> bool {
    exists|i: int|
        0 <= i < log.len() && nodeport_step(test, #[trigger] log.take(i)) == ClusterStepView::<
            CrossTenantView,
        >::Ask(request)
}

/// Where the node port test ends, it has asked for every request of the cleaning
/// up that its conclusion calls for.
proof fn nodeport_chores_are_asked(test: NodePortView, log: Seq<ClusterReplyView>, chore: int)
    requires
        !(nodeport_step(test, log) is Ask),
        nodeport_body(test, log) matches ProgressView::Got(conclusion, _) && 0 <= chore
            < nodeport_chores(conclusion.cleanup).len(),
    ensures
        nodeport_asked(test, log, nodeport_chores(nodeport_body(test, log)->Got_0.cleanup)[chore]),
{
    let progress = nodeport_body(test, log);
    nodeport_body_is_stable(test, log, log.len() as int, 0, 0);
    let i: int = end_of(progress) + chore;
    assert(i < log.len());
    nodeport_body_is_stable(test, log, i, 0, 0);
    assert(nodeport_step(test, log.take(i)) == ClusterStepView::<CrossTenantView>::Ask(
        nodeport_chores(progress->Got_0.cleanup)[chore],
    ));
}

/// Once the marker is served, the test is the second tenant's claim and what
/// follows.
proof fn claim_is_the_rest(test: NodePortView, log: Seq<ClusterReplyView>, at: int, n: int)
    requires
        3 <= at <= n <= log.len(),
        !log[0].failed() && !log[1].failed() && !log[2].failed(),
        await_serving(Side::Victim, "nodeport-marker-pod"@, test.marker, log, 0, 3)
            == ProgressView::Got(true, at),
    ensures
        nodeport_body(test, log.take(n)) == claim_step(test, log.take(n), at),
        nodeport_body(test, log) == claim_step(test, log, at),
{
    assert forall|k: int| 0 <= k < n implies #[trigger] log.take(n)[k] == log[k] by {}
    serving_is_stable(Side::Victim, "nodeport-marker-pod"@, test.marker, log, 0, 3, n);
}

/// Every pod that the node port test created is deleted again, on every path on
/// which it ends.
#[verifier::rlimit(40)]
pub proof fn every_node_port_test_deletes_its_pods(
    test: NodePortView,
    log: Seq<ClusterReplyView>,
    i: int,
)
    requires
        !(nodeport_step(test, log) is Ask),
        0 <= i < log.len(),
        nodeport_step(test, log.take(i)) matches ClusterStepView::Ask(
            ClusterRequestView::CreatePod { .. },
        ),
        !log[i].failed(),
    ensures
        nodeport_step(test, log.take(i)) matches ClusterStepView::Ask(
            ClusterRequestView::CreatePod { side, pod },
        ) && nodeport_asked(test, log, ClusterRequestView::DeletePod { side, name: pod.name }),
{
    let earlier = log.take(i);
    let name = "nodeport-marker-pod"@;
    assert forall|k: int| 0 <= k < i implies #[trigger] earlier[k] == log[k] by {}
    nodeport_body_is_stable(test, log, log.len() as int, 0, 0);
    nodeport_body_is_stable(test, log, i, 0, 0);
    assert(nodeport_body(test, earlier) is Ask);
    if i == 0 {
        let cleanup = nodeport_body(test, log)->Got_0.cleanup;
        nodeport_chores_are_asked(
            test,
            log,
            if cleanup is MarkerPod {
                0
            } else {
                1
            },
        );
    } else {
        assert(i >= 3);
        serving_is_stable(Side::Victim, name, test.marker, log, 0, 3, i);
        serving_is_stable(Side::Victim, name, test.marker, earlier, 0, 3, i);
        let served = await_serving(Side::Victim, name, test.marker, log, 0, 3);
        let at = end_of(served);
        assert(at <= i);
        claim_is_the_rest(test, log, at, i);
        claim_is_stable(test, log, at, log.len() as int, 0, 0);
        assert(nodeport_body(test, log)->Got_0.cleanup is Everything);
        nodeport_chores_are_asked(test, log, 3);
        nodeport_chores_are_asked(test, log, 4);
        what_a_claim_creates(test, log, at, i);
        if let ProgressView::Ask(ClusterRequestView::CreatePod { pod, .. }) = claim_step(
            test,
            earlier,
            at,
        ) {
            if claim_deletes(test, log, at, pod.name) {
                let delete = ClusterRequestView::DeletePod {
                    side: Side::Intruder,
                    name: pod.name,
                };
                let j = choose|j: int|
                    at <= j < log.len() && claim_step(test, #[trigger] log.take(j), at)
                        == ProgressView::<ConclusionView>::Ask(delete);
                claim_is_the_rest(test, log, at, j);
                assert(nodeport_step(test, log.take(j)) == ClusterStepView::<CrossTenantView>::Ask(
                    delete,
                ));
            }
        }
    }
}

/// Every service that the node port test created is deleted again, on every path
/// on which it ends.
pub proof fn every_node_port_test_deletes_its_services(
    test: NodePortView,
    log: Seq<ClusterReplyView>,
    i: int,
)
    requires
        !(nodeport_step(test, log) is Ask),
        0 <= i < log.len(),
        nodeport_step(test, log.take(i)) matches ClusterStepView::Ask(
            ClusterRequestView::CreateService { .. },
        ),
        !log[i].failed(),
    ensures
        nodeport_step(test, log.take(i)) matches ClusterStepView::Ask(
            ClusterRequestView::CreateService { side, .. },
        ) && nodeport_asked(
            test,
            log,
            ClusterRequestView::DeleteService { side, name: "autonomy-test-service"@ },
        ),
{
    let earlier = log.take(i);
    let name = "nodeport-marker-pod"@;
    assert forall|k: int| 0 <= k < i implies #[trigger] earlier[k] == log[k] by {}
    nodeport_body_is_stable(test, log, log.len() as int, 0, 0);
    nodeport_body_is_stable(test, log, i, 0, 0);
    assert(nodeport_body(test, earlier) is Ask);
    if i == 2 {
        serving_is_stable(Side::Victim, name, test.marker, log, 0, 3, log.len() as int);
        let served = await_serving(Side::Victim, name, test.marker, log, 0, 3);
        claim_is_stable(test, log, end_of(served), log.len() as int, 0, 0);
        nodeport_chores_are_asked(test, log, 0);
    } else {
        assert(i >= 3);
        serving_is_stable(Side::Victim, name, test.marker, log, 0, 3, i);
        serving_is_stable(Side::Victim, name, test.marker, earlier, 0, 3, i);
        let served = await_serving(Side::Victim, name, test.marker, log, 0, 3);
        let at = end_of(served);
        assert(at <= i);
        claim_is_stable(test, log, at, log.len() as int, 0, 0);
        nodeport_chores_are_asked(test, log, 2);
        what_a_claim_creates(test, log, at, i);
    }
}

}
