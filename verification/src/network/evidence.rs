//! What the verdicts on the network of the nodes rest on: which probes were made
//! from where to where, and what came back.

use super::aims::{
    a_marker_server_serves_its_marker, field_names_differ, fronts, is_service, says, script_of,
};
use super::laws::{
    candidates_are_stable, claim_is_stable, control_is_stable, node_body_is_stable,
    nodeport_body_is_stable, probe_is_stable, serving_is_stable,
};
use super::node::{node_chores, node_step, node_sweep, node_verdict, NodeCleanup};
use super::nodeport::{
    claim_step, control_step, cross_sweep, marker_service, nodeport_step, nodeport_verdict,
    own_sweep, ConclusionView, NodePortView,
};
use super::probes::{
    integer_text, multitool_pod, node_marker_command, node_marker_pod, nodeport_marker_pod,
};
use super::sweep::{
    after_miss, ask_command, await_serving, candidates, fresh_attempt, has_address, hops_in,
    is_dotted_quad, is_u32_text, listed_addresses, node_label, noted, noted_of_node, noted_of_nodes,
    noted_of_pod, outcome_of, probe_step, route_hops, sweep_step, with_hops, AttemptView, SweepView,
    PROBE_ROUNDS,
};
use crate::breach_laws::end_of;
use crate::cluster::{
    ClusterReplyView, ClusterRequestView, ClusterStepView, NodeView, ProgressView, Side,
};
use crate::isolation::CrossTenantView;
use crate::json::JsonView;
use crate::pods::{LandedView, PodView};
use crate::text::{has_text, occurs_at, sums_hold_their_parts};
use crate::words::{trimmed, words};
use vstd::prelude::*;
use vstd::string::*;

verus! {

/// The command asks `address` at `port` by HTTP.
pub open spec fn calls(command: Seq<char>, address: Seq<char>, port: int) -> bool {
    has_text(command, " http://"@ + address + ":"@ + integer_text(port) + " "@)
}

/// The command of a probe asks the address and the port that it is for.
pub proof fn a_probe_asks_its_address(address: Seq<char>, port: int)
    ensures
        calls(ask_command(address, port), address, port),
{
    reveal_strlit("out=$(timeout 8 curl -sS --connect-timeout 3 --max-time 6 http://");
    reveal_strlit(" http://");
    reveal_strlit(":");
    reveal_strlit(" ");
    reveal_strlit(
        " 2>&1); code=$?; if [ $code -eq 0 ]; then echo \"$out\"; else echo \"CONNECTION_FAILED rc=$code $out\"; fi",
    );
    let command = ask_command(address, port);
    let asked = " http://"@ + address + ":"@ + integer_text(port) + " "@;
    let at: int =
        "out=$(timeout 8 curl -sS --connect-timeout 3 --max-time 6 http://"@.len() - 8;
    assert(command.subrange(at, at + asked.len()) =~= asked);
    assert(occurs_at(command, asked, at));
}

/// From the given state on, `log[i]` answers a probe of the sweep.
pub open spec fn probed_from(
    sweep: SweepView,
    log: Seq<ClusterReplyView>,
    attempt: AttemptView,
    last: Seq<(Seq<char>, Seq<char>)>,
    round: nat,
    k: nat,
    at: int,
    i: int,
) -> bool {
    &&& at <= i < log.len()
    &&& match sweep_step(sweep, log.take(i), attempt, last, round, k, at) {
        ProgressView::Ask(request) => request is Exec,
        _ => false,
    }
}

/// The reply is output with `marker` in it.
pub open spec fn read_marker(reply: ClusterReplyView, marker: Seq<char>) -> bool {
    match reply {
        ClusterReplyView::Output(text) => has_text(text, marker),
        ClusterReplyView::Failed { .. } => false,
        _ => has_text(Seq::empty(), marker),
    }
}

/// The request is a probe of one of the sweep's addresses, from its pod.
pub open spec fn is_probe_of(
    sweep: SweepView,
    request: ClusterRequestView,
    address: Seq<char>,
) -> bool {
    &&& exists|t: int| 0 <= t < sweep.targets.len() && (#[trigger] sweep.targets[t]).1 == address
    &&& match request {
        ClusterRequestView::Exec { side, name, command } => {
            &&& side == sweep.side
            &&& name == sweep.pod
            &&& calls(command, address, sweep.port)
        },
        _ => false,
    }
}

/// What a sweep comes to, from the given state on.
proof fn a_sweep_rests_on_its_replies(
    sweep: SweepView,
    log: Seq<ClusterReplyView>,
    attempt: AttemptView,
    last: Seq<(Seq<char>, Seq<char>)>,
    round: nat,
    k: nat,
    at: int,
)
    requires
        0 <= at <= log.len(),
        attempt.hit is None,
    ensures
        match sweep_step(sweep, log, attempt, last, round, k, at) {
            ProgressView::Got(found, end) => {
                &&& at <= end <= log.len()
                &&& found.placed == attempt.placed
                &&& match found.hit {
                    Some(address) => {
                        &&& at < end
                        &&& read_marker(log[end - 1], sweep.marker)
                        &&& match sweep_step(
                            sweep,
                            log.take(end - 1),
                            attempt,
                            last,
                            round,
                            k,
                            at,
                        ) {
                            ProgressView::Ask(request) => is_probe_of(sweep, request, address),
                            _ => false,
                        }
                    },
                    None => forall|i: int|
                        #[trigger] probed_from(sweep, log, attempt, last, round, k, at, i)
                            ==> !read_marker(log[i], sweep.marker),
                }
                &&& found.answered <==> attempt.answered || exists|i: int|
                    #[trigger] probed_from(sweep, log, attempt, last, round, k, at, i) && !(
                    log[i] is Failed)
                &&& found.exec_failed <==> attempt.exec_failed || exists|i: int|
                    #[trigger] probed_from(sweep, log, attempt, last, round, k, at, i)
                        && log[i] is Failed
                &&& found.unexpected is Some <==> attempt.unexpected is Some || exists|i: int|
                    #[trigger] probed_from(sweep, log, attempt, last, round, k, at, i) && !(
                    log[i] is Failed) && !read_marker(log[i], sweep.marker) && !has_text(
                        log[i].output(),
                        "CONNECTION_FAILED"@,
                    )
                &&& attempt.unexpected is Some ==> found.unexpected == attempt.unexpected
                &&& attempt.unexpected is None && found.unexpected is Some ==> exists|i: int|
                    #[trigger] probed_from(sweep, log, attempt, last, round, k, at, i)
                        && found.unexpected == Some(log[i].output())
            },
            ProgressView::Ask(request) => {
                ||| request is Pause
                ||| exists|address: Seq<char>| is_probe_of(sweep, request, address)
            },
            ProgressView::Stuck(_, _) => false,
        },
    decreases PROBE_ROUNDS - round, sweep.targets.len() - k,
{
    assert forall|i: int| at < i <= log.len() implies #[trigger] log.take(i)[at] == log[at] by {}
    if round < PROBE_ROUNDS {
        if k >= sweep.targets.len() {
            if round + 1 >= PROBE_ROUNDS {
                a_sweep_rests_on_its_replies(sweep, log, attempt, last, round + 1, 0, at);
                assert forall|i: int|
                    #[trigger] probed_from(sweep, log, attempt, last, round, k, at, i)
                        == probed_from(sweep, log, attempt, last, round + 1, 0, at, i) by {}
            } else if log.len() > at {
                a_sweep_rests_on_its_replies(sweep, log, attempt, last, round + 1, 0, at + 1);
                same_probes(
                    sweep,
                    log,
                    (attempt, last, round, k, at),
                    (attempt, last, round + 1, 0nat, at + 1),
                );
            }
        } else {
            let (source, address) = sweep.targets[k as int];
            a_probe_asks_its_address(address, sweep.port);
            let request = ClusterRequestView::Exec {
                side: sweep.side,
                name: sweep.pod,
                command: ask_command(address, sweep.port),
            };
            assert(is_probe_of(sweep, request, address));
            if log.len() > at {
                assert(sweep_step(sweep, log.take(at), attempt, last, round, k, at)
                    == ProgressView::<AttemptView>::Ask(request));
                assert(probed_from(sweep, log, attempt, last, round, k, at, at));
                if !log[at].failed() && has_text(log[at].output(), sweep.marker) {
                    assert forall|i: int|
                        #[trigger] probed_from(sweep, log, attempt, last, round, k, at, i)
                        implies i == at by {
                        if i > at {
                            assert(log.take(i)[at] == log[at]);
                        }
                    }
                } else {
                    let next = after_miss(attempt, log[at]);
                    let noted = last.push((source, outcome_of(log[at])));
                    a_sweep_rests_on_its_replies(sweep, log, next, noted, round, k + 1, at + 1);
                    same_probes(
                        sweep,
                        log,
                        (attempt, last, round, k, at),
                        (next, noted, round, k + 1, at + 1),
                    );
                }
            }
        }
    }
}

/// A sweep's state.
type State = (AttemptView, Seq<(Seq<char>, Seq<char>)>, nat, nat, int);

/// A step on, the later probes are the same.
proof fn same_probes(sweep: SweepView, log: Seq<ClusterReplyView>, now: State, next: State)
    requires
        0 <= now.4 < log.len(),
        next.4 == now.4 + 1,
        forall|i: int|
            now.4 < i <= log.len() ==> sweep_step(
                sweep,
                #[trigger] log.take(i),
                now.0,
                now.1,
                now.2,
                now.3,
                now.4,
            ) == sweep_step(sweep, log.take(i), next.0, next.1, next.2, next.3, next.4),
    ensures
        forall|i: int|
            i > now.4 ==> #[trigger] probed_from(
                sweep,
                log,
                now.0,
                now.1,
                now.2,
                now.3,
                now.4,
                i,
            ) == probed_from(sweep, log, next.0, next.1, next.2, next.3, next.4, i),
        forall|i: int|
            #[trigger] probed_from(sweep, log, next.0, next.1, next.2, next.3, next.4, i)
                ==> probed_from(sweep, log, now.0, now.1, now.2, now.3, now.4, i),
{
    assert forall|i: int| i > now.4 implies #[trigger] probed_from(
        sweep,
        log,
        now.0,
        now.1,
        now.2,
        now.3,
        now.4,
        i,
    ) == probed_from(sweep, log, next.0, next.1, next.2, next.3, next.4, i) by {
        if i <= log.len() {
            assert(log.take(i).len() == i);
        }
    }
}


/// The pod serves `marker` on port `port` of its node: its script writes the
/// marker where the server takes its page from and has the server listen there,
/// on the node's own network.
pub open spec fn serves_on_the_node(pod: PodView, marker: Seq<char>, port: int) -> bool {
    match script_of(pod) {
        Some(script) => {
            &&& has_text(script, "echo '"@ + marker + "' > /usr/share/nginx/html/index.html"@)
            &&& has_text(script, "/listen "@ + integer_text(port) + "/"@)
            &&& pod.host_network == Some(true)
            &&& pod.containers[0].ports.len() == 1
            &&& pod.containers[0].ports[0].container_port == port
            &&& match pod.containers[0].ports[0].host_port {
                Some(opened) => opened == port,
                None => false,
            }
        },
        None => false,
    }
}

/// The node marker pod serves the marker it is for, at the port it is for.
pub proof fn the_node_marker_pod_serves_its_marker(name: Seq<char>, marker: Seq<char>, port: i32)
    ensures
        serves_on_the_node(node_marker_pod(name, marker, port), marker, port as int),
        node_marker_pod(name, marker, port).name == name,
{
    reveal_strlit("echo '");
    reveal_strlit("' > /usr/share/nginx/html/index.html");
    reveal_strlit("' > /usr/share/nginx/html/index.html && sed -i 's/listen.*80/listen ");
    reveal_strlit("/g' /etc/nginx/nginx.conf && nginx -g 'daemon off;'");
    reveal_strlit("/listen ");
    reveal_strlit("/");
    let script = node_marker_command(marker, port as int);
    let served = "echo '"@ + marker + "' > /usr/share/nginx/html/index.html"@;
    assert(script.subrange(0, served.len() as int) =~= served);
    assert(occurs_at(script, served, 0));
    let listens = "/listen "@ + integer_text(port as int) + "/"@;
    let at: int = 6 + marker.len()
        + "' > /usr/share/nginx/html/index.html && sed -i 's/listen.*80/listen "@.len() - 8;
    assert(script.subrange(at, at + listens.len()) =~= listens);
    assert(occurs_at(script, listens, at));
}

/// In the run of the node network test that `log` records, `log[i]` answers
/// `request`.
pub open spec fn node_answers(
    marker: Seq<char>,
    log: Seq<ClusterReplyView>,
    i: int,
    request: ClusterRequestView,
) -> bool {
    0 <= i < log.len() && node_step(marker, log.take(i)) == ClusterStepView::<
        CrossTenantView,
    >::Ask(request)
}

/// `log[i]` answers a command that the second tenant ran in its pod.
pub open spec fn node_probed(marker: Seq<char>, log: Seq<ClusterReplyView>, i: int) -> bool {
    exists|name: Seq<char>, command: Seq<char>| #[trigger]
        node_answers(
            marker,
            log,
            i,
            ClusterRequestView::Exec { side: Side::Intruder, name, command },
        )
}

/// The probe that `log[i]` answers asks at port `port` of one of the addresses
/// found for the first tenant's pod.
pub open spec fn node_probe_aims(
    marker: Seq<char>,
    log: Seq<ClusterReplyView>,
    i: int,
    port: int,
) -> bool {
    exists|name: Seq<char>, command: Seq<char>, address: Seq<char>|
        #[trigger] node_answers(
            marker,
            log,
            i,
            ClusterRequestView::Exec { side: Side::Intruder, name, command },
        ) && #[trigger] calls(command, address, port) && match candidates(
            Side::Victim,
            "node-marker-service"@,
            true,
            log,
            2,
        ) {
            ProgressView::Got(found, _) => has_address(found, address),
            _ => false,
        }
}

/// Where a run of the node network test that came to its sweep was before it.
proof fn the_node_sweep(marker: Seq<char>, log: Seq<ClusterReplyView>)
    requires
        node_step(marker, log) is Done,
        node_step(marker, log)->Done_0.isolation is NoIsolation || node_step(
            marker,
            log,
        )->Done_0.isolation is Hard,
    ensures
        ({
            let found = candidates(Side::Victim, "node-marker-service"@, true, log, 2);
            let start: int = end_of(found) + 2;
            let sweep = node_sweep(marker, found->Got_0);
            let progress = sweep_step(sweep, log, fresh_attempt(true), seq![], 0, 0, start);
            &&& found is Got
            &&& found->Got_0.len() > 0
            &&& log.len() >= start
            &&& start >= 4
            &&& !(log[0] is Failed)
            &&& progress is Got
            &&& node_step(marker, log)->Done_0 == node_verdict(progress->Got_0)
            &&& forall|i: int|
                start <= i < log.len() ==> match sweep_step(
                    sweep,
                    #[trigger] log.take(i),
                    fresh_attempt(true),
                    seq![],
                    0,
                    0,
                    start,
                ) {
                    ProgressView::Ask(request) => node_step(marker, log.take(i))
                        == ClusterStepView::<CrossTenantView>::Ask(request),
                    _ => true,
                }
        }),
{
    let name = "node-marker-service"@;
    node_body_is_stable(marker, log, log.len() as int);
    candidates_are_stable(Side::Victim, name, true, log, 2, log.len() as int);
    let found = candidates(Side::Victim, name, true, log, 2);
    let start: int = end_of(found) + 2;
    let sweep = node_sweep(marker, found->Got_0);
    assert forall|i: int| start <= i < log.len() implies match sweep_step(
        sweep,
        #[trigger] log.take(i),
        fresh_attempt(true),
        seq![],
        0,
        0,
        start,
    ) {
        ProgressView::Ask(request) => node_step(marker, log.take(i)) == ClusterStepView::<
            CrossTenantView,
        >::Ask(request),
        _ => true,
    } by {
        candidates_are_stable(Side::Victim, name, true, log, 2, i);
        assert forall|k: int| 0 <= k < i implies #[trigger] log.take(i)[k] == log[k] by {}
    }
}

/// The node network test finds a breach only of what it planted. The first
/// tenant's pod serves the marker at a port of its node; the breach takes a
/// command of the second tenant that asked at this port of an address found for
/// that pod, and got the marker.
pub proof fn a_node_breach_takes_the_marker(marker: Seq<char>, log: Seq<ClusterReplyView>)
    requires
        node_step(marker, log) is Done,
        node_step(marker, log)->Done_0.isolation is NoIsolation,
    ensures
        !(log[0] is Failed),
        exists|pod: PodView, port: int, i: int|
            #[trigger] node_answers(
                marker,
                log,
                0,
                ClusterRequestView::CreatePod { side: Side::Victim, pod },
            ) && serves_on_the_node(pod, marker, port) && #[trigger] node_probe_aims(
                marker,
                log,
                i,
                port,
            ) && read_marker(log[i], marker),
{
    the_node_sweep(marker, log);
    let found = candidates(Side::Victim, "node-marker-service"@, true, log, 2);
    let start: int = end_of(found) + 2;
    let sweep = node_sweep(marker, found->Got_0);
    a_sweep_rests_on_its_replies(sweep, log, fresh_attempt(true), seq![], 0, 0, start);
    the_node_marker_pod_serves_its_marker("node-marker-service"@, marker, 31337i32);
    let progress = sweep_step(sweep, log, fresh_attempt(true), seq![], 0, 0, start);
    let i: int = end_of(progress) - 1;
    let address = progress->Got_0.hit->Some_0;
    let seen = log.take(i);
    let request = sweep_step(sweep, seen, fresh_attempt(true), seq![], 0, 0, start)->Ask_0;
    assert(is_probe_of(sweep, request, address));
    assert(has_address(found->Got_0, address));
    assert(node_answers(marker, log, i, request));
    assert(node_answers(
        marker,
        log,
        i,
        ClusterRequestView::Exec {
            side: Side::Intruder,
            name: request->Exec_name,
            command: request->Exec_command,
        },
    ));
    assert(calls(request->Exec_command, address, 31337));
    assert(node_probe_aims(marker, log, i, 31337));
    assert(log.take(0).len() == 0);
    assert(node_answers(
        marker,
        log,
        0,
        ClusterRequestView::CreatePod {
            side: Side::Victim,
            pod: node_marker_pod("node-marker-service"@, marker, 31337i32),
        },
    ));
}

/// Full isolation is found only by a probe that ran: some command of the second
/// tenant came through, and none of them got the marker.
pub proof fn node_isolation_takes_a_probe_that_ran(marker: Seq<char>, log: Seq<ClusterReplyView>)
    requires
        node_step(marker, log) is Done,
        node_step(marker, log)->Done_0.isolation is Hard,
    ensures
        !(log[0] is Failed),
        exists|i: int| #[trigger] node_probed(marker, log, i) && !(log[i] is Failed),
        forall|i: int| #[trigger] node_probed(marker, log, i) ==> !read_marker(log[i], marker),
{
    the_node_sweep(marker, log);
    let found = candidates(Side::Victim, "node-marker-service"@, true, log, 2);
    let start: int = end_of(found) + 2;
    let sweep = node_sweep(marker, found->Got_0);
    let fresh = fresh_attempt(true);
    a_sweep_rests_on_its_replies(sweep, log, fresh, seq![], 0, 0, start);
    assert(probed_from(sweep, log, fresh, seq![], 0, 0, start, start));
    assert forall|i: int| #[trigger] node_probed(marker, log, i) implies probed_from(
        sweep,
        log,
        fresh,
        seq![],
        0,
        0,
        start,
        i,
    ) by {
        node_probes_are_of_the_sweep(marker, log, i);
    }
    assert forall|i: int|
        #[trigger] probed_from(sweep, log, fresh, seq![], 0, 0, start, i) implies node_probed(
        marker,
        log,
        i,
    ) by {
        a_sweep_rests_on_its_replies(sweep, log.take(i), fresh, seq![], 0, 0, start);
        let request = sweep_step(sweep, log.take(i), fresh, seq![], 0, 0, start)->Ask_0;
        assert(node_answers(
            marker,
            log,
            i,
            ClusterRequestView::Exec {
                side: Side::Intruder,
                name: request->Exec_name,
                command: request->Exec_command,
            },
        ));
    }
}

proof fn node_probes_are_of_the_sweep(marker: Seq<char>, log: Seq<ClusterReplyView>, i: int)
    requires
        candidates(Side::Victim, "node-marker-service"@, true, log, 2) is Got,
        node_probed(marker, log, i),
    ensures
        ({
            let found = candidates(Side::Victim, "node-marker-service"@, true, log, 2);
            probed_from(
                node_sweep(marker, found->Got_0),
                log,
                fresh_attempt(true),
                seq![],
                0,
                0,
                end_of(found) + 2,
                i,
            )
        }),
{
    let name = "node-marker-service"@;
    let seen = log.take(i);
    let found = candidates(Side::Victim, name, true, log, 2);
    node_body_is_stable(marker, seen, i);
    assert forall|c: NodeCleanup, k: int| 0 <= k < node_chores(c).len() implies !((
    #[trigger] node_chores(c)[k]) is Exec) by {}
    if i >= 2 {
        candidates_are_stable(Side::Victim, name, true, log, 2, i);
        candidates_are_stable(Side::Victim, name, true, seen, 2, i);
    }
    assert forall|k: int| 0 <= k < i implies #[trigger] seen[k] == log[k] by {}
}


/// A probe with a pod of its own that hit: the request that read the marker.
proof fn a_hit_was_read(
    pod: PodView,
    sweep: SweepView,
    log: Seq<ClusterReplyView>,
    at: int,
) -> (i: int)
    requires
        0 <= at <= log.len(),
        probe_step(pod, sweep, log, at) is Got,
        probe_step(pod, sweep, log, at)->Got_0.hit is Some,
    ensures
        at <= i < end_of(probe_step(pod, sweep, log, at)) <= log.len(),
        read_marker(log[i], sweep.marker),
        match probe_step(pod, sweep, log.take(i), at) {
            ProgressView::Ask(ClusterRequestView::Exec { side, name, command }) => {
                &&& side == sweep.side
                &&& name == sweep.pod
                &&& exists|address: Seq<char>| calls(command, address, sweep.port)
            },
            _ => false,
        },
{
    let hops = route_hops(log[at + 2].output());
    let wider = SweepView {
        targets: with_hops(sweep.targets, hops, hops.len() as int),
        ..sweep
    };
    let fresh = fresh_attempt(true);
    a_sweep_rests_on_its_replies(wider, log, fresh, seq![], 0, 0, at + 3);
    let progress = sweep_step(wider, log, fresh, seq![], 0, 0, at + 3);
    let i: int = end_of(progress) - 1;
    assert forall|k: int| 0 <= k < i implies #[trigger] log.take(i)[k] == log[k] by {}
    i
}

/// In the run of the node port test that `log` records, `log[i]` answers
/// `request`.
pub open spec fn nodeport_answers(
    test: NodePortView,
    log: Seq<ClusterReplyView>,
    i: int,
    request: ClusterRequestView,
) -> bool {
    0 <= i < log.len() && nodeport_step(test, log.take(i)) == ClusterStepView::<
        CrossTenantView,
    >::Ask(request)
}

/// `log[i]` answers a command that the second tenant ran in the pod `name`, and
/// that asked at port `port` of some address.
pub open spec fn nodeport_probed(
    test: NodePortView,
    log: Seq<ClusterReplyView>,
    i: int,
    port: int,
) -> bool {
    exists|name: Seq<char>, command: Seq<char>, address: Seq<char>|
        #[trigger] nodeport_answers(
            test,
            log,
            i,
            ClusterRequestView::Exec { side: Side::Intruder, name, command },
        ) && #[trigger] calls(command, address, port)
}

/// A service that opens the node port `port` in front of the pods like `pod`.
pub open spec fn opens_node_port(manifest: JsonView, port: int, pod: PodView) -> bool {
    &&& fronts(manifest, 8080, pod)
    &&& says(manifest, "spec"@, "type"@, JsonView::Text("NodePort"@))
    &&& match manifest.field("spec"@) {
        Some(spec_part) => match spec_part.field("ports"@) {
            Some(JsonView::Array(ports)) => ports.len() == 1 && ports[0].field("nodePort"@)
                == Some(JsonView::Number(port)),
            _ => false,
        },
        None => false,
    }
}

/// The pod serves `marker`: its script writes it where its server takes its page
/// from.
pub open spec fn serves(pod: PodView, marker: Seq<char>) -> bool {
    match script_of(pod) {
        Some(script) => has_text(
            script,
            "printf '%s' '"@ + marker + "' > /tmp/www/index.html"@,
        ),
        None => false,
    }
}

/// Where a run of the node port test that came to its probes was before them.
proof fn the_node_port_probes(test: NodePortView, log: Seq<ClusterReplyView>)
    requires
        nodeport_step(test, log) is Done,
        nodeport_step(test, log)->Done_0.isolation is NoIsolation || nodeport_step(
            test,
            log,
        )->Done_0.isolation is Hard,
    ensures
        ({
            let side = Side::Victim;
            let serving = await_serving(side, "nodeport-marker-pod"@, test.marker, log, 0, 3);
            let at: int = end_of(serving);
            let collision = if log[at + 1].failed() {
                Some(log[at + 1].error())
            } else {
                None
            };
            let found = candidates(side, "nodeport-marker-pod"@, false, log, at + 2);
            let control = control_step(test, collision, log, end_of(found));
            let pod = multitool_pod("nodeport-probe"@);
            let sweep = cross_sweep(test, found->Got_0);
            let attempt = probe_step(pod, sweep, log, end_of(control));
            &&& 3 <= at
            &&& at + 2 <= log.len()
            &&& serving is Got && found is Got && control is Got && attempt is Got
            &&& at + 2 <= end_of(found) <= end_of(control) <= log.len()
            &&& !log[0].failed() && !log[2].failed()
            &&& nodeport_step(test, log)->Done_0 == nodeport_verdict(
                collision,
                control->Got_0,
                attempt->Got_0,
            )
            &&& forall|i: int|
                at <= i < log.len() ==> match claim_step(test, #[trigger] log.take(i), at) {
                    ProgressView::Ask(request) => nodeport_step(test, log.take(i))
                        == ClusterStepView::<CrossTenantView>::Ask(request),
                    _ => true,
                }
            &&& forall|i: int|
                end_of(found) <= i < log.len() ==> match control_step(
                    test,
                    collision,
                    #[trigger] log.take(i),
                    end_of(found),
                ) {
                    ProgressView::Ask(request) => nodeport_step(test, log.take(i))
                        == ClusterStepView::<CrossTenantView>::Ask(request),
                    _ => true,
                }
            &&& forall|i: int|
                end_of(control) <= i < log.len() ==> match probe_step(
                    pod,
                    sweep,
                    #[trigger] log.take(i),
                    end_of(control),
                ) {
                    ProgressView::Ask(request) => nodeport_step(test, log.take(i))
                        == ClusterStepView::<CrossTenantView>::Ask(request),
                    _ => true,
                }
        }),
{
    let side = Side::Victim;
    let name = "nodeport-marker-pod"@;
    let len = log.len() as int;
    nodeport_body_is_stable(test, log, len, 0, 0);
    serving_is_stable(side, name, test.marker, log, 0, 3, len);
    let serving = await_serving(side, name, test.marker, log, 0, 3);
    let at: int = end_of(serving);
    claim_is_stable(test, log, at, len, 0, 0);
    let collision = if log[at + 1].failed() {
        Some(log[at + 1].error())
    } else {
        None
    };
    candidates_are_stable(side, name, false, log, at + 2, len);
    let found = candidates(side, name, false, log, at + 2);
    let from: int = end_of(found);
    control_is_stable(test, collision, log, from, len, 0, 0);
    let control = control_step(test, collision, log, from);
    let next: int = end_of(control);
    let pod = multitool_pod("nodeport-probe"@);
    let sweep = cross_sweep(test, found->Got_0);
    probe_is_stable(pod, sweep, log, next, len, 0);
    assert forall|i: int, k: int| 0 <= k < i <= log.len() implies #[trigger] log.take(i)[k]
        == log[k] by {}
    assert forall|i: int| at <= i < log.len() implies match claim_step(
        test,
        #[trigger] log.take(i),
        at,
    ) {
        ProgressView::Ask(request) => nodeport_step(test, log.take(i)) == ClusterStepView::<
            CrossTenantView,
        >::Ask(request),
        _ => true,
    } by {
        serving_is_stable(side, name, test.marker, log, 0, 3, i);
    }
    assert forall|i: int| from <= i < log.len() implies match control_step(
        test,
        collision,
        #[trigger] log.take(i),
        from,
    ) {
        ProgressView::Ask(request) => claim_step(test, log.take(i), at) == ProgressView::<
            ConclusionView,
        >::Ask(request),
        _ => true,
    } by {
        candidates_are_stable(side, name, false, log, at + 2, i);
    }
    assert forall|i: int| next <= i < log.len() implies match probe_step(
        pod,
        sweep,
        #[trigger] log.take(i),
        next,
    ) {
        ProgressView::Ask(request) => claim_step(test, log.take(i), at) == ProgressView::<
            ConclusionView,
        >::Ask(request),
        _ => true,
    } by {
        candidates_are_stable(side, name, false, log, at + 2, i);
        control_is_stable(test, collision, log, from, i, 0, 0);
    }
}


/// What each tenant puts up in the node port test: a pod that serves the
/// tenant's own marker, and in front of it a service on the contested port, in
/// the tenant's own namespace.
pub proof fn each_tenant_puts_up_its_own_marker(
    side: Side,
    name: Seq<char>,
    marker: Seq<char>,
    namespace: Seq<char>,
)
    ensures
        serves(nodeport_marker_pod(name, marker), marker),
        nodeport_marker_pod(name, marker).name == name,
        match marker_service(side, namespace) {
            ClusterRequestView::CreateService { side: of, manifest } => {
                &&& of == side
                &&& is_service(manifest, "autonomy-test-service"@, namespace)
                &&& opens_node_port(manifest, 30080, nodeport_marker_pod(name, marker))
            },
            _ => false,
        },
{
    a_marker_server_serves_its_marker(name, marker);
    field_names_differ();
}

/// The first tenant's part of a run: `log[0]` answers the creation of a pod that
/// serves its marker, and `log[2]` that of a service on port `port` in front of
/// it.
pub open spec fn first_tenant_serves(
    test: NodePortView,
    log: Seq<ClusterReplyView>,
    port: int,
) -> bool {
    exists|pod: PodView, manifest: JsonView|
        #[trigger] nodeport_answers(
            test,
            log,
            0,
            ClusterRequestView::CreatePod { side: Side::Victim, pod },
        ) && !(log[0] is Failed) && serves(pod, test.marker) && #[trigger] nodeport_answers(
            test,
            log,
            2,
            ClusterRequestView::CreateService { side: Side::Victim, manifest },
        ) && !(log[2] is Failed) && opens_node_port(manifest, port, pod) && is_service(
            manifest,
            "autonomy-test-service"@,
            test.first_namespace,
        )
}

proof fn the_first_tenant_served(test: NodePortView, log: Seq<ClusterReplyView>)
    requires
        nodeport_step(test, log) is Done,
        nodeport_step(test, log)->Done_0.isolation is NoIsolation || nodeport_step(
            test,
            log,
        )->Done_0.isolation is Hard,
    ensures
        first_tenant_serves(test, log, 30080),
{
    the_node_port_probes(test, log);
    let name = "nodeport-marker-pod"@;
    each_tenant_puts_up_its_own_marker(Side::Victim, name, test.marker, test.first_namespace);
    assert forall|i: int, k: int| 0 <= k < i <= log.len() implies #[trigger] log.take(i)[k]
        == log[k] by {}
    let pod = nodeport_marker_pod(name, test.marker);
    let manifest = marker_service(Side::Victim, test.first_namespace)->CreateService_manifest;
    assert(nodeport_answers(
        test,
        log,
        0,
        ClusterRequestView::CreatePod { side: Side::Victim, pod },
    ));
    assert(nodeport_answers(
        test,
        log,
        2,
        ClusterRequestView::CreateService { side: Side::Victim, manifest },
    ));
}

/// A breach of the node port test takes the first tenant's marker: the first
/// tenant serves it behind a node port, and a command of the second tenant that
/// asked at that port got it.
pub proof fn a_node_port_breach_takes_the_marker(test: NodePortView, log: Seq<ClusterReplyView>)
    requires
        nodeport_step(test, log) is Done,
        nodeport_step(test, log)->Done_0.isolation is NoIsolation,
    ensures
        exists|port: int, i: int|
            #[trigger] first_tenant_serves(test, log, port) && #[trigger] nodeport_probed(
                test,
                log,
                i,
                port,
            ) && read_marker(log[i], test.marker),
{
    the_node_port_probes(test, log);
    the_first_tenant_served(test, log);
    let side = Side::Victim;
    let at: int = end_of(
        await_serving(side, "nodeport-marker-pod"@, test.marker, log, 0, 3),
    );
    let collision = if log[at + 1].failed() {
        Some(log[at + 1].error())
    } else {
        None
    };
    let found = candidates(side, "nodeport-marker-pod"@, false, log, at + 2);
    let control = control_step(test, collision, log, end_of(found));
    let pod = multitool_pod("nodeport-probe"@);
    let sweep = cross_sweep(test, found->Got_0);
    let i = a_hit_was_read(pod, sweep, log, end_of(control));
    a_probe_was_made(test, log, i, probe_step(pod, sweep, log.take(i), end_of(control))->Ask_0, 30080);
}

proof fn a_probe_was_made(
    test: NodePortView,
    log: Seq<ClusterReplyView>,
    i: int,
    request: ClusterRequestView,
    port: int,
)
    requires
        nodeport_answers(test, log, i, request),
        match request {
            ClusterRequestView::Exec { side, name, command } => side == Side::Intruder && exists|
                address: Seq<char>,
            |
                calls(command, address, port),
            _ => false,
        },
    ensures
        nodeport_probed(test, log, i, port),
{
    let address = choose|address: Seq<char>| calls(request->Exec_command, address, port);
    assert(nodeport_answers(
        test,
        log,
        i,
        ClusterRequestView::Exec {
            side: Side::Intruder,
            name: request->Exec_name,
            command: request->Exec_command,
        },
    ));
    assert(calls(request->Exec_command, address, port));
}

/// Full isolation of the node port test takes a control: the second tenant was
/// given the same port for a service of its own in front of its own marker, and
/// a command of it that asked at that port got its own marker. So the port can
/// be reached from there, and not getting the first tenant's marker says
/// something.
pub proof fn node_port_isolation_takes_a_control(test: NodePortView, log: Seq<ClusterReplyView>)
    requires
        nodeport_step(test, log) is Done,
        nodeport_step(test, log)->Done_0.isolation is Hard,
    ensures
        exists|port: int, i: int|
            #[trigger] first_tenant_serves(test, log, port) && #[trigger] nodeport_probed(
                test,
                log,
                i,
                port,
            ) && read_marker(log[i], test.own_marker),
        exists|k: int, pod: PodView, manifest: JsonView|
            #[trigger] nodeport_answers(
                test,
                log,
                k,
                ClusterRequestView::CreatePod { side: Side::Intruder, pod },
            ) && serves(pod, test.own_marker) && #[trigger] nodeport_answers(
                test,
                log,
                k + 1,
                ClusterRequestView::CreateService { side: Side::Intruder, manifest },
            ) && !(log[k + 1] is Failed) && opens_node_port(manifest, 30080, pod) && is_service(
                manifest,
                "autonomy-test-service"@,
                test.second_namespace,
            ),
{
    the_node_port_probes(test, log);
    the_first_tenant_served(test, log);
    let side = Side::Victim;
    let at: int = end_of(
        await_serving(side, "nodeport-marker-pod"@, test.marker, log, 0, 3),
    );
    let collision = if log[at + 1].failed() {
        Some(log[at + 1].error())
    } else {
        None
    };
    let found = candidates(side, "nodeport-marker-pod"@, false, log, at + 2);
    let from: int = end_of(found);
    assert(collision is None);
    the_control_was_read(test, collision, log, from);
    let i = choose|i: int|
        from <= i < log.len() && read_marker(log[i], test.own_marker) && match control_step(
            test,
            collision,
            #[trigger] log.take(i),
            from,
        ) {
            ProgressView::Ask(ClusterRequestView::Exec { side, name, command }) => side
                == Side::Intruder && exists|address: Seq<char>| calls(command, address, 30080),
            _ => false,
        };
    a_probe_was_made(test, log, i, control_step(test, collision, log.take(i), from)->Ask_0, 30080);
    let own = "nodeport-marker-pod-t2"@;
    each_tenant_puts_up_its_own_marker(
        Side::Intruder,
        own,
        test.own_marker,
        test.second_namespace,
    );
    let pod = nodeport_marker_pod(own, test.own_marker);
    let manifest = marker_service(
        Side::Intruder,
        test.second_namespace,
    )->CreateService_manifest;
    assert(claim_step(test, log.take(at), at) is Ask);
    assert(claim_step(test, log.take(at + 1), at) is Ask);
    assert(nodeport_answers(
        test,
        log,
        at,
        ClusterRequestView::CreatePod { side: Side::Intruder, pod },
    ));
    assert(nodeport_answers(
        test,
        log,
        at + 1,
        ClusterRequestView::CreateService { side: Side::Intruder, manifest },
    ));
}

/// The control succeeds only where the second tenant read its own marker.
proof fn the_control_was_read(
    test: NodePortView,
    collision: Option<Seq<char>>,
    log: Seq<ClusterReplyView>,
    at: int,
)
    requires
        0 <= at <= log.len(),
        control_step(test, collision, log, at) is Got,
        control_step(test, collision, log, at)->Got_0 == Some(true),
    ensures
        exists|i: int|
            at <= i < log.len() && read_marker(log[i], test.own_marker) && match control_step(
                test,
                collision,
                #[trigger] log.take(i),
                at,
            ) {
                ProgressView::Ask(ClusterRequestView::Exec { side, name, command }) => side
                    == Side::Intruder && exists|address: Seq<char>|
                    calls(command, address, 30080),
                _ => false,
            },
{
    let name = "nodeport-marker-pod-t2"@;
    let len = log.len() as int;
    candidates_are_stable(Side::Intruder, name, false, log, at, len);
    let own = candidates(Side::Intruder, name, false, log, at);
    serving_is_stable(Side::Intruder, name, test.own_marker, log, 0, end_of(own), len);
    let serving = await_serving(Side::Intruder, name, test.own_marker, log, 0, end_of(own));
    let pod = multitool_pod("nodeport-selftest"@);
    let sweep = own_sweep(test, own->Got_0);
    let i = a_hit_was_read(pod, sweep, log, end_of(serving));
    candidates_are_stable(Side::Intruder, name, false, log, at, i);
    serving_is_stable(Side::Intruder, name, test.own_marker, log, 0, end_of(own), i);
    assert(control_step(test, collision, log.take(i), at) == ProgressView::<Option<bool>>::Ask(
        probe_step(pod, sweep, log.take(i), end_of(serving))->Ask_0,
    ));
}


/// The address is one at which a listed node can be reached.
pub open spec fn is_node_address(nodes: Seq<NodeView>, n: int, address: Seq<char>) -> bool {
    exists|i: int, j: int|
        #![trigger nodes[i].addresses[j]]
        0 <= i < n && 0 <= j < nodes[i].addresses.len() && nodes[i].addresses[j].1 == address && (
        nodes[i].addresses[j].0 == "InternalIP"@ || nodes[i].addresses[j].0 == "ExternalIP"@)
}

proof fn noting_adds_one(found: Seq<(Seq<char>, Seq<char>)>, source: Seq<char>, address: Seq<char>)
    ensures
        forall|other: Seq<char>|
            has_address(noted(found, source, address), other) <==> has_address(found, other) || (
            other == address && trimmed(address).len() > 0),
{
    let more = noted(found, source, address);
    if trimmed(address).len() > 0 && !has_address(found, address) {
        assert(more == found.push((source, address)));
        assert(more[found.len() as int].1 == address);
        assert(has_address(more, address));
        assert forall|other: Seq<char>| has_address(found, other) implies has_address(
            more,
            other,
        ) by {
            let i = choose|i: int| 0 <= i < found.len() && (#[trigger] found[i]).1 == other;
            assert(more[i].1 == other);
        }
        assert forall|other: Seq<char>| has_address(more, other) implies has_address(found, other)
            || other == address by {
            let i = choose|i: int| 0 <= i < more.len() && (#[trigger] more[i]).1 == other;
            if i < found.len() {
                assert(found[i].1 == other);
            }
        }
    }
}

proof fn a_node_is_noted(
    found: Seq<(Seq<char>, Seq<char>)>,
    node: NodeView,
    n: int,
    address: Seq<char>,
)
    requires
        0 <= n <= node.addresses.len(),
    ensures
        has_address(noted_of_node(found, node, n), address) <==> has_address(found, address) || (
        trimmed(address).len() > 0 && exists|j: int|
            0 <= j < n && (#[trigger] node.addresses[j]).1 == address && (node.addresses[j].0
                == "InternalIP"@ || node.addresses[j].0 == "ExternalIP"@)),
    decreases n,
{
    if n > 0 {
        a_node_is_noted(found, node, n - 1, address);
        let before = noted_of_node(found, node, n - 1);
        let (kind, last) = node.addresses[n - 1];
        noting_adds_one(before, "node "@ + node_label(node) + " "@ + kind, last);
        let found_so_far = |m: int| exists|j: int|
            0 <= j < m && (#[trigger] node.addresses[j]).1 == address && (node.addresses[j].0
                == "InternalIP"@ || node.addresses[j].0 == "ExternalIP"@);
        if found_so_far(n) && !found_so_far(n - 1) {
            let j = choose|j: int|
                0 <= j < n && (#[trigger] node.addresses[j]).1 == address && (node.addresses[j].0
                    == "InternalIP"@ || node.addresses[j].0 == "ExternalIP"@);
            assert(j == n - 1);
        }
    }
}

/// The addresses taken from a list of nodes are those at which the nodes can be
/// reached from inside or outside, all of them and no others.
pub proof fn the_nodes_addresses_are_noted(nodes: Seq<NodeView>, n: int, address: Seq<char>)
    requires
        0 <= n <= nodes.len(),
    ensures
        has_address(noted_of_nodes(nodes, n), address) <==> trimmed(address).len() > 0
            && is_node_address(nodes, n, address),
    decreases n,
{
    if n > 0 {
        the_nodes_addresses_are_noted(nodes, n - 1, address);
        let before = noted_of_nodes(nodes, n - 1);
        let node = nodes[n - 1];
        a_node_is_noted(before, node, node.addresses.len() as int, address);
        if exists|j: int|
            0 <= j < node.addresses.len() && (#[trigger] node.addresses[j]).1 == address && (
            node.addresses[j].0 == "InternalIP"@ || node.addresses[j].0 == "ExternalIP"@) {
            let j = choose|j: int|
                0 <= j < node.addresses.len() && (#[trigger] node.addresses[j]).1 == address && (
                node.addresses[j].0 == "InternalIP"@ || node.addresses[j].0 == "ExternalIP"@);
            assert(nodes[n - 1].addresses[j].1 == address);
        }
        if is_node_address(nodes, n, address) && !is_node_address(nodes, n - 1, address) {
            let (i, j): (int, int) = choose|i: int, j: int|
                #![trigger nodes[i].addresses[j]]
                0 <= i < n && 0 <= j < nodes[i].addresses.len() && nodes[i].addresses[j].1
                    == address && (nodes[i].addresses[j].0 == "InternalIP"@
                    || nodes[i].addresses[j].0 == "ExternalIP"@);
            assert(i == n - 1);
            assert(node.addresses[j].1 == address);
        }
    } else {
        assert(noted_of_nodes(nodes, n) =~= Seq::empty());
    }
}

/// The search for a node's addresses asks about the pod that is to be reached,
/// as the tenant that owns it: which nodes there are, where the pod is, and in
/// the pod itself. Every address at which a listed node can be reached is
/// found, and so is the one that the pod's own status names.
pub proof fn the_search_finds_the_nodes_addresses(
    side: Side,
    pod: Seq<char>,
    on_host_network: bool,
    log: Seq<ClusterReplyView>,
    at: int,
    address: Seq<char>,
)
    requires
        0 <= at <= log.len(),
    ensures
        match candidates(side, pod, on_host_network, log, at) {
            ProgressView::Ask(request) => match request {
                ClusterRequestView::ListNodes { side: of } => of == side,
                ClusterRequestView::GetPod { side: of, name } => of == side && name == pod,
                ClusterRequestView::Exec { side: of, name, .. } => of == side && name == pod,
                _ => false,
            },
            ProgressView::Got(found, end) => {
                &&& match log[at] {
                    ClusterReplyView::Nodes(nodes) => trimmed(address).len() > 0
                        && is_node_address(nodes, nodes.len() as int, address) ==> has_address(
                        found,
                        address,
                    ),
                    _ => true,
                }
                &&& match log[at + 1] {
                    ClusterReplyView::Landed(LandedView { status: Some(status), .. }) =>
                        trimmed(address).len() > 0 && status.host_ip == Some(address)
                            ==> has_address(found, address),
                    _ => true,
                }
                &&& has_address(found, address) ==> {
                    ||| log[at] is Nodes && is_node_address(
                        log[at]->Nodes_0,
                        log[at]->Nodes_0.len() as int,
                        address,
                    )
                    ||| log[at + 1] is Landed && log[at + 1]->Landed_0.status is Some
                        && log[at + 1]->Landed_0.status->Some_0.host_ip == Some(address)
                    ||| exists|i: int|
                        at + 2 <= i < end && address == trimmed((#[trigger] log[i]).output())
                }
            },
            ProgressView::Stuck(_, _) => false,
        },
{
    if log.len() >= at + 2 {
        let listed = listed_addresses(log[at]);
        match log[at] {
            ClusterReplyView::Nodes(nodes) => {
                the_nodes_addresses_are_noted(nodes, nodes.len() as int, address);
            },
            _ => {},
        }
        match log[at + 1] {
            ClusterReplyView::Landed(LandedView { status: Some(status), .. }) => {
                match status.host_ip {
                    Some(ip) => {
                        noting_adds_one(listed, "marker pod status.hostIP"@, ip);
                    },
                    None => {},
                }
            },
            _ => {},
        }
        let known = noted_of_pod(listed, log[at + 1]);
        let own = trimmed(log[at + 2].output());
        noting_adds_one(known, "node's own routable source address"@, own);
        let found = noted(known, "node's own routable source address"@, own);
        noting_adds_one(known, "marker pod default gateway"@, own);
        noting_adds_one(
            found,
            "marker pod default gateway"@,
            trimmed(log[at + 3].output()),
        );
    }
}


/// A sweep that hit nothing has tried every address in every one of its twelve
/// rounds, three seconds apart.
proof fn a_sweep_gives_up_late(
    sweep: SweepView,
    log: Seq<ClusterReplyView>,
    attempt: AttemptView,
    last: Seq<(Seq<char>, Seq<char>)>,
    round: nat,
    k: nat,
    at: int,
)
    requires
        0 <= at <= log.len(),
        attempt.hit is None,
        round <= 12,
        k <= sweep.targets.len(),
        round == 12 ==> k == 0,
    ensures
        match sweep_step(sweep, log, attempt, last, round, k, at) {
            ProgressView::Got(found, end) => found.hit is None ==> end == at + (if round == 12 {
                0
            } else {
                (12 - round) * (sweep.targets.len() + 1) - k - 1
            }),
            ProgressView::Ask(request) => request is Pause ==> request == (
            ClusterRequestView::Pause { millis: 3000 }),
            ProgressView::Stuck(_, _) => false,
        },
    decreases 12 - round, sweep.targets.len() - k,
{
    let targets = sweep.targets.len() as int;
    if round < 12 {
        assert((12 - round) * (targets + 1) == (12 - (round + 1)) * (targets + 1) + (targets + 1))
            by (nonlinear_arith);
        if k >= targets {
            if round + 1 >= 12 {
                assert((12 - (round + 1)) * (targets + 1) == 0) by (nonlinear_arith)
                    requires
                        round + 1 == 12,
                ;
                a_sweep_gives_up_late(sweep, log, attempt, last, round + 1, 0, at);
            } else if log.len() > at {
                a_sweep_gives_up_late(sweep, log, attempt, last, round + 1, 0, at + 1);
            }
        } else if log.len() > at {
            let (source, _) = sweep.targets[k as int];
            a_sweep_gives_up_late(
                sweep,
                log,
                after_miss(attempt, log[at]),
                last.push((source, outcome_of(log[at]))),
                round,
                k + 1,
                at + 1,
            );
        }
    }
}

/// How patient the sweep of the node's addresses is: where it hits nothing, it
/// has made twelve rounds over all of them, with eleven pauses of three seconds
/// between the rounds.
pub proof fn a_sweep_tries_every_address_twelve_times(
    sweep: SweepView,
    log: Seq<ClusterReplyView>,
    at: int,
)
    requires
        0 <= at <= log.len(),
    ensures
        match sweep_step(sweep, log, fresh_attempt(true), seq![], 0, 0, at) {
            ProgressView::Got(found, end) => found.hit is None ==> end == at + 12
                * sweep.targets.len() + 11,
            ProgressView::Ask(request) => request is Pause ==> request == (
            ClusterRequestView::Pause { millis: 3000 }),
            ProgressView::Stuck(_, _) => false,
        },
{
    a_sweep_gives_up_late(sweep, log, fresh_attempt(true), seq![], 0, 0, at);
}

/// The hops out of the intruder's own network are tried as well: every address
/// that was to be tried still is, in its place, and so is every hop.
pub proof fn the_hops_are_tried_too(
    targets: Seq<(Seq<char>, Seq<char>)>,
    hops: Seq<Seq<char>>,
    n: int,
)
    requires
        0 <= n <= hops.len(),
    ensures
        with_hops(targets, hops, n).len() >= targets.len(),
        forall|i: int|
            0 <= i < targets.len() ==> #[trigger] with_hops(targets, hops, n)[i] == targets[i],
        forall|k: int|
            0 <= k < n ==> has_address(with_hops(targets, hops, n), #[trigger] hops[k]),
        forall|i: int|
            targets.len() <= i < with_hops(targets, hops, n).len() ==> hops.contains(
                (#[trigger] with_hops(targets, hops, n)[i]).1,
            ),
    decreases n,
{
    if n > 0 {
        let before = with_hops(targets, hops, n - 1);
        let after = with_hops(targets, hops, n);
        the_hops_are_tried_too(targets, hops, n - 1);
        assert forall|k: int| 0 <= k < n implies has_address(after, #[trigger] hops[k]) by {
            if k < n - 1 {
                assert(has_address(before, hops[k]));
                let i = choose|i: int| 0 <= i < before.len() && (#[trigger] before[i]).1 == hops[k];
                assert(after[i].1 == hops[k]);
            } else if !has_address(before, hops[n - 1]) {
                assert(after[before.len() as int].1 == hops[n - 1]);
            }
        }
        assert forall|i: int| targets.len() <= i < after.len() implies hops.contains(
            (#[trigger] after[i]).1,
        ) by {
            if i < before.len() {
                assert(after[i] == before[i]);
            } else {
                assert(hops[n - 1] == after[i].1);
            }
        }
    }
}

/// Waiting for a marker to be served ends well only where the pod's own logs say
/// that it is, and otherwise only after sixty reads, a second apart.
pub proof fn a_marker_is_served_when_the_pod_says_so(
    side: Side,
    pod: Seq<char>,
    marker: Seq<char>,
    log: Seq<ClusterReplyView>,
    attempt: nat,
    at: int,
)
    requires
        0 <= at <= log.len(),
        attempt <= 60,
    ensures
        match await_serving(side, pod, marker, log, attempt, at) {
            ProgressView::Got(serving, end) => {
                &&& at <= end <= log.len()
                &&& serving ==> end > at && has_text(log[end - 1].output(), "SERVING "@ + marker)
                &&& !serving ==> end == at + 2 * (60 - attempt)
            },
            ProgressView::Ask(request) => {
                ||| request == (ClusterRequestView::ReadLogs { side, name: pod })
                ||| request == (ClusterRequestView::Pause { millis: 1000 })
            },
            ProgressView::Stuck(_, _) => false,
        },
    decreases 60 - attempt,
{
    if attempt < 60 && log.len() > at + 1 {
        a_marker_is_served_when_the_pod_says_so(side, pod, marker, log, attempt + 1, at + 2);
    }
}


/// A node network test without its marker finds nothing: where the first
/// tenant's pod could not be created or did not start, the isolation stays
/// undetermined, no autonomy is granted, and the error is told.
pub proof fn a_node_test_without_a_marker_finds_nothing(
    marker: Seq<char>,
    log: Seq<ClusterReplyView>,
)
    requires
        node_step(marker, log) is Done,
        log.len() > 0,
        log[0] is Failed || (log.len() > 1 && log[1] is Failed),
    ensures
        ({
            let result = node_step(marker, log)->Done_0;
            &&& result.isolation is Unknown
            &&& !result.autonomy
            &&& has_text(
                result.details,
                if log[0] is Failed {
                    log[0].error()
                } else {
                    log[1].error()
                },
            )
        }),
{
    sums_hold_their_parts(log[0].error());
    sums_hold_their_parts(log[1].error());
}

/// How the sweep of the node's network is read: the marker is a breach; where no
/// command could be run at all nothing was measured; an answer that is neither
/// the marker nor a failed connection is soft; and silence is full isolation.
/// Only where nothing was measured is there no autonomy.
pub proof fn a_node_sweep_is_read_in_order(attempt: AttemptView)
    ensures
        ({
            let result = node_verdict(attempt);
            let hit = attempt.hit is Some;
            let blind = attempt.exec_failed && !attempt.answered;
            &&& result.isolation is NoIsolation <==> hit
            &&& result.isolation is Unknown <==> !hit && blind
            &&& result.isolation is Soft <==> !hit && !blind && attempt.unexpected is Some
            &&& result.isolation is Hard <==> !hit && !blind && attempt.unexpected is None
            &&& result.autonomy <==> hit || !blind
            &&& hit ==> has_text(result.details, attempt.hit->Some_0 + ":31337"@)
        }),
{
    if let Some(address) = attempt.hit {
        reveal_strlit(
            ":31337 - the infrastructure network is shared and can be used to bypass cluster network isolation. Attempts: ",
        );
        reveal_strlit(":31337");
        let head = "Tenant2 read tenant1's marker over the node network at "@;
        let part = address + ":31337"@;
        let details = node_verdict(attempt).details;
        let at = head.len() as int;
        assert(details.subrange(at, at + part.len()) =~= part);
        assert(occurs_at(details, part, at));
    }
}

/// How the node port test is read: never probed is undetermined; the marker is a
/// breach; without it, a port that the second tenant was refused is soft, and so
/// is an answer that is neither marker nor failure; with neither, a second
/// tenant that cannot reach its own port has measured nothing, and one that can
/// is fully isolated. The tenant keeps its autonomy throughout.
pub proof fn a_node_port_test_is_read_in_order(
    collision: Option<Seq<char>>,
    control: Option<bool>,
    attempt: AttemptView,
)
    ensures
        ({
            let result = nodeport_verdict(collision, control, attempt);
            let hit = attempt.hit is Some;
            let blind = !hit && (!attempt.placed || (attempt.exec_failed && !attempt.answered));
            let soft = collision is Some || attempt.unexpected is Some;
            &&& result.autonomy
            &&& result.isolation is NoIsolation <==> hit
            &&& result.isolation is Soft <==> !hit && !blind && soft
            &&& result.isolation is Hard <==> !hit && !blind && !soft && control != Some(false)
            &&& result.isolation is Unknown <==> blind || (!hit && !soft && control == Some(
                false,
            ))
        }),
{
}


/// The line shows `hop` as a step of a route: behind the step's number, four
/// groups of digits.
pub open spec fn shows_hop(line: Seq<char>, hop: Seq<char>) -> bool {
    let fields = words(line);
    &&& fields.len() >= 2
    &&& is_u32_text(fields[0])
    &&& fields[1] == hop
    &&& is_dotted_quad(hop)
}

/// The hops of a route are what its lines show, in their order: each stands in a
/// line of its own, and every line that shows one gives it.
pub proof fn the_hops_are_those_of_the_lines(list: Seq<Seq<char>>, n: int, hop: Seq<char>)
    requires
        0 <= n <= list.len(),
    ensures
        hops_in(list, n).contains(hop) <==> exists|i: int|
            0 <= i < n && shows_hop(#[trigger] list[i], hop),
        hops_in(list, n).len() <= n,
    decreases n,
{
    if n > 0 {
        the_hops_are_those_of_the_lines(list, n - 1, hop);
        let before = hops_in(list, n - 1);
        let after = hops_in(list, n);
        if after.contains(hop) {
            let k = choose|k: int| 0 <= k < after.len() && after[k] == hop;
            if k < before.len() {
                assert(before[k] == hop);
                assert(before.contains(hop));
                let i = choose|i: int| 0 <= i < n - 1 && shows_hop(#[trigger] list[i], hop);
                assert(shows_hop(list[i], hop));
            } else {
                assert(shows_hop(list[n - 1], hop));
            }
        }
        if exists|i: int| 0 <= i < n && shows_hop(#[trigger] list[i], hop) {
            let i = choose|i: int| 0 <= i < n && shows_hop(#[trigger] list[i], hop);
            if i < n - 1 {
                assert(before.contains(hop));
                let k = choose|k: int| 0 <= k < before.len() && before[k] == hop;
                assert(after[k] == hop);
            } else {
                assert(after[before.len() as int] == hop);
            }
        }
    }
}

}
