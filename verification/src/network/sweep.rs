//! Asking every address that a node might answer on.

use super::probes::{integer_of, integer_text};
use super::verdicts::{describe_failure, failure_name, reported_detail};
use crate::cluster::{
    node_views, reply_views, ClusterReply, ClusterReplyView, ClusterRequest, ClusterRequestView,
    NodeFacts, NodeView, Progress, ProgressView, Side,
};
use crate::control_plane::experiment::{find_value, pair_views, text_view, value_of};
use crate::pods::{copy_pairs, LandedView, Pod, PodView};
use crate::text::{
    chars_of, contains, decimal_value, decimal_value_grows, has_text, is_digit, joined, joined4,
    joined5, joined6, joined7, slice_of, string_from, string_of, texts,
};
use crate::words::{char_views, lines, lines_of, parts, parts_of, trim, trimmed, words, words_of};
use vstd::prelude::*;
use vstd::string::*;

verus! {

/// How many times the probe asks before it concludes that nothing answers.
pub const PROBE_ROUNDS: usize = 12;

/// How long the probe waits between its rounds, in milliseconds.
pub const PROBE_INTERVAL_MILLIS: u64 = 3000;

/// How long to wait for a marker pod to report that it is serving, in
/// one-second attempts.
pub const MARKER_SERVING_ATTEMPTS: usize = 60;

// ---- Where a node might answer ---------------------------------------------

/// One of the addresses is `address`.
pub open spec fn has_address(found: Seq<(Seq<char>, Seq<char>)>, address: Seq<char>) -> bool {
    exists|i: int| 0 <= i < found.len() && (#[trigger] found[i]).1 == address
}

/// The addresses with one more, unless it is blank or already there.
pub open spec fn noted(
    found: Seq<(Seq<char>, Seq<char>)>,
    source: Seq<char>,
    address: Seq<char>,
) -> Seq<(Seq<char>, Seq<char>)> {
    if trimmed(address).len() == 0 || has_address(found, address) {
        found
    } else {
        found.push((source, address))
    }
}

/// The name of a node in a report.
pub open spec fn node_label(node: NodeView) -> Seq<char> {
    match node.name {
        Some(name) => name,
        None => "<unnamed>"@,
    }
}

/// The addresses with the first `n` of a node's noted: those inside and outside
/// the cluster's network, not its names.
pub open spec fn noted_of_node(
    found: Seq<(Seq<char>, Seq<char>)>,
    node: NodeView,
    n: int,
) -> Seq<(Seq<char>, Seq<char>)>
    decreases n,
{
    if n <= 0 {
        found
    } else {
        let before = noted_of_node(found, node, n - 1);
        let (kind, address) = node.addresses[n - 1];
        if kind == "InternalIP"@ || kind == "ExternalIP"@ {
            noted(before, "node "@ + node_label(node) + " "@ + kind, address)
        } else {
            before
        }
    }
}

/// The addresses of the first `n` nodes.
pub open spec fn noted_of_nodes(nodes: Seq<NodeView>, n: int) -> Seq<(Seq<char>, Seq<char>)>
    decreases n,
{
    if n <= 0 {
        Seq::empty()
    } else {
        noted_of_node(
            noted_of_nodes(nodes, n - 1),
            nodes[n - 1],
            nodes[n - 1].addresses.len() as int,
        )
    }
}

/// The addresses that a reply shows of the nodes; none where they may not be
/// seen.
pub open spec fn listed_addresses(reply: ClusterReplyView) -> Seq<(Seq<char>, Seq<char>)> {
    match reply {
        ClusterReplyView::Nodes(nodes) => noted_of_nodes(nodes, nodes.len() as int),
        _ => Seq::empty(),
    }
}

/// The addresses with that of the node on which the pod landed.
pub open spec fn noted_of_pod(
    found: Seq<(Seq<char>, Seq<char>)>,
    reply: ClusterReplyView,
) -> Seq<(Seq<char>, Seq<char>)> {
    match reply.landed() {
        Some(LandedView { status: Some(status), .. }) => match status.host_ip {
            Some(ip) => noted(found, "marker pod status.hostIP"@, ip),
            None => found,
        },
        _ => found,
    }
}

/// Asks a pod for the address that its node sends from.
pub open spec fn source_address_command() -> Seq<char> {
    "ip route get 1.1.1.1 | awk '{for(i=1;i<=NF;i++) if($i==\"src\") print $(i+1)}'"@
}

/// Asks a pod for the gateway that it routes through.
pub open spec fn gateway_command() -> Seq<char> {
    "ip route | grep default | awk '{print $3}'"@
}

/// Every address the marker might answer on, each with where it was learnt:
/// those of every node the tenant can see, that of the node on which the marker
/// landed, where the marker is on the node's network the one the node sends
/// from, and only where all that gave nothing the gateway.
pub open spec fn candidates(
    side: Side,
    pod: Seq<char>,
    on_host_network: bool,
    log: Seq<ClusterReplyView>,
    at: int,
) -> ProgressView<Seq<(Seq<char>, Seq<char>)>> {
    if log.len() <= at {
        ProgressView::Ask(ClusterRequestView::ListNodes { side })
    } else if log.len() == at + 1 {
        ProgressView::Ask(ClusterRequestView::GetPod { side, name: pod })
    } else {
        let known = noted_of_pod(listed_addresses(log[at]), log[at + 1]);
        if on_host_network && log.len() == at + 2 {
            ProgressView::Ask(
                ClusterRequestView::Exec { side, name: pod, command: source_address_command() },
            )
        } else {
            let (found, next) = if on_host_network {
                (
                    noted(
                        known,
                        "node's own routable source address"@,
                        trimmed(log[at + 2].output()),
                    ),
                    at + 3,
                )
            } else {
                (known, at + 2)
            };
            if found.len() > 0 {
                ProgressView::Got(found, next)
            } else if log.len() <= next {
                ProgressView::Ask(
                    ClusterRequestView::Exec { side, name: pod, command: gateway_command() },
                )
            } else {
                ProgressView::Got(
                    noted(
                        found,
                        "marker pod default gateway"@,
                        trimmed(log[next].output()),
                    ),
                    next + 1,
                )
            }
        }
    }
}

/// Whether one of the addresses is `address`.
fn holds_address(found: &Vec<(String, String)>, address: &String) -> (r: bool)
    ensures
        r == has_address(pair_views(found@), address@),
{
    let ghost views = pair_views(found@);
    let mut i: usize = 0;
    while i < found.len()
        invariant
            i <= found.len(),
            views == pair_views(found@),
            forall|k: int| 0 <= k < i ==> (#[trigger] views[k]).1 != address@,
        decreases found.len() - i,
    {
        assert(views[i as int].1 == found[i as int].1@);
        if found[i].1 == *address {
            return true;
        }
        i += 1;
    }
    false
}

/// Notes an address, unless it is blank or already there.
fn note(found: &mut Vec<(String, String)>, source: String, address: String)
    ensures
        pair_views(final(found)@) == noted(pair_views(old(found)@), source@, address@),
{
    let ghost before = pair_views(found@);
    if trim(&chars_of(&address)).len() > 0 && !holds_address(found, &address) {
        let ghost pair = (source@, address@);
        found.push((source, address));
        assert(pair_views(found@) =~= before.push(pair));
    }
}

/// Notes the addresses of a node.
fn note_node(found: &mut Vec<(String, String)>, node: &NodeFacts)
    ensures
        pair_views(final(found)@) == noted_of_node(
            pair_views(old(found)@),
            node@,
            node.addresses.len() as int,
        ),
{
    let name = match &node.name {
        Some(name) => name.clone(),
        None => string_from("<unnamed>"),
    };
    let ghost before = pair_views(found@);
    let mut i: usize = 0;
    while i < node.addresses.len()
        invariant
            i <= node.addresses.len(),
            name@ == node_label(node@),
            pair_views(found@) == noted_of_node(before, node@, i as int),
        decreases node.addresses.len() - i,
    {
        let (kind, address) = (&node.addresses[i].0, &node.addresses[i].1);
        assert(node@.addresses[i as int] == (kind@, address@));
        if *kind == string_from("InternalIP") || *kind == string_from("ExternalIP") {
            note(found, joined4("node ", &name, " ", kind), address.clone());
        }
        i += 1;
    }
}

/// The addresses of the nodes.
fn addresses_of_nodes(nodes: &Vec<NodeFacts>) -> (r: Vec<(String, String)>)
    ensures
        pair_views(r@) == noted_of_nodes(node_views(nodes@), nodes.len() as int),
{
    let mut found: Vec<(String, String)> = Vec::new();
    let ghost views = node_views(nodes@);
    assert(pair_views(found@) =~= seq![]);
    let mut i: usize = 0;
    while i < nodes.len()
        invariant
            i <= nodes.len(),
            views == node_views(nodes@),
            pair_views(found@) == noted_of_nodes(views, i as int),
        decreases nodes.len() - i,
    {
        assert(views[i as int] == nodes[i as int]@);
        note_node(&mut found, &nodes[i]);
        i += 1;
    }
    found
}

/// Notes the address of the node on which a pod landed.
fn note_host(found: &mut Vec<(String, String)>, reply: &ClusterReply)
    ensures
        pair_views(final(found)@) == noted_of_pod(pair_views(old(found)@), reply@),
{
    if let ClusterReply::Landed(pod) = reply {
        if let Some(status) = &pod.status {
            if let Some(ip) = &status.host_ip {
                note(found, string_from("marker pod status.hostIP"), ip.clone());
            }
        }
    }
}

/// The output that came back, without the white space around it.
fn trimmed_output(reply: &ClusterReply) -> (r: String)
    ensures
        r@ == trimmed(reply@.output()),
{
    let kept = trim(&chars_of(&reply.output()));
    assert(kept@.subrange(0, kept.len() as int) =~= kept@);
    string_of(&kept, 0, kept.len())
}

/// What a list of found addresses has come to.
pub open spec fn found_view(progress: Progress<Vec<(String, String)>>) -> ProgressView<
    Seq<(Seq<char>, Seq<char>)>,
> {
    match progress {
        Progress::Ask(request) => ProgressView::Ask(request@),
        Progress::Got(found, at) => ProgressView::Got(pair_views(found@), at as int),
        Progress::Stuck(error, at) => ProgressView::Stuck(error@, at as int),
    }
}

/// Every address the marker might answer on, each paired with where it was
/// learnt; the replies to the requests stand in `log` from `at` on.
pub fn candidate_node_addresses(
    side: Side,
    marker_pod_name: &str,
    marker_on_host_network: bool,
    log: &Vec<ClusterReply>,
    at: usize,
) -> (r: Progress<Vec<(String, String)>>)
    requires
        at <= log.len(),
    ensures
        found_view(r) == candidates(
            side,
            marker_pod_name@,
            marker_on_host_network,
            reply_views(log@),
            at as int,
        ),
        r matches Progress::Got(_, at) ==> at <= log.len(),
        !(r is Stuck),
{
    let count: usize = log.len() - at;
    if count == 0 {
        return Progress::Ask(ClusterRequest::ListNodes { side });
    }
    if count == 1 {
        return Progress::Ask(
            ClusterRequest::GetPod { side, name: string_from(marker_pod_name) },
        );
    }
    let mut found: Vec<(String, String)> = match &log[at] {
        ClusterReply::Nodes(nodes) => addresses_of_nodes(nodes),
        _ => {
            let none: Vec<(String, String)> = Vec::new();
            assert(pair_views(none@) =~= seq![]);
            none
        },
    };
    note_host(&mut found, &log[at + 1]);
    let mut next: usize = at + 2;
    if marker_on_host_network {
        if count == 2 {
            return Progress::Ask(
                ClusterRequest::Exec {
                    side,
                    name: string_from(marker_pod_name),
                    command: string_from(
                        "ip route get 1.1.1.1 | awk '{for(i=1;i<=NF;i++) if($i==\"src\") print $(i+1)}'",
                    ),
                },
            );
        }
        note(
            &mut found,
            string_from("node's own routable source address"),
            trimmed_output(&log[at + 2]),
        );
        next = at + 3;
    }
    if found.len() > 0 {
        return Progress::Got(found, next);
    }
    if log.len() == next {
        return Progress::Ask(
            ClusterRequest::Exec {
                side,
                name: string_from(marker_pod_name),
                command: string_from("ip route | grep default | awk '{print $3}'"),
            },
        );
    }
    note(&mut found, string_from("marker pod default gateway"), trimmed_output(&log[next]));
    Progress::Got(found, next + 1)
}

/// No address is listed twice, and none is blank.
pub open spec fn addresses_are_sound(found: Seq<(Seq<char>, Seq<char>)>) -> bool {
    &&& forall|i: int, j: int|
        0 <= i < j < found.len() ==> (#[trigger] found[i]).1 != (#[trigger] found[j]).1
    &&& forall|i: int| 0 <= i < found.len() ==> trimmed((#[trigger] found[i]).1).len() > 0
}

proof fn noting_keeps_addresses_sound(
    found: Seq<(Seq<char>, Seq<char>)>,
    source: Seq<char>,
    address: Seq<char>,
)
    requires
        addresses_are_sound(found),
    ensures
        addresses_are_sound(noted(found, source, address)),
{
}

proof fn node_addresses_are_sound(found: Seq<(Seq<char>, Seq<char>)>, node: NodeView, n: int)
    requires
        addresses_are_sound(found),
    ensures
        addresses_are_sound(noted_of_node(found, node, n)),
    decreases n,
{
    if n > 0 {
        node_addresses_are_sound(found, node, n - 1);
        let (kind, address) = node.addresses[n - 1];
        noting_keeps_addresses_sound(
            noted_of_node(found, node, n - 1),
            "node "@ + node_label(node) + " "@ + kind,
            address,
        );
    }
}

proof fn listed_addresses_are_sound(nodes: Seq<NodeView>, n: int)
    ensures
        addresses_are_sound(noted_of_nodes(nodes, n)),
    decreases n,
{
    if n > 0 {
        listed_addresses_are_sound(nodes, n - 1);
        node_addresses_are_sound(
            noted_of_nodes(nodes, n - 1),
            nodes[n - 1],
            nodes[n - 1].addresses.len() as int,
        );
    }
}

/// Every candidate address is tried once: none comes up twice and none is
/// blank.
pub proof fn candidates_are_sound(
    side: Side,
    pod: Seq<char>,
    on_host_network: bool,
    log: Seq<ClusterReplyView>,
    at: int,
)
    ensures
        match candidates(side, pod, on_host_network, log, at) {
            ProgressView::Got(found, _) => addresses_are_sound(found),
            _ => true,
        },
{
    let listed = listed_addresses(log[at]);
    match log[at] {
        ClusterReplyView::Nodes(nodes) => {
            listed_addresses_are_sound(nodes, nodes.len() as int);
        },
        _ => {},
    }
    let known = noted_of_pod(listed, log[at + 1]);
    match log[at + 1].landed() {
        Some(LandedView { status: Some(status), .. }) => {
            match status.host_ip {
                Some(ip) => {
                    noting_keeps_addresses_sound(listed, "marker pod status.hostIP"@, ip);
                },
                None => {},
            }
        },
        _ => {},
    }
    noting_keeps_addresses_sound(
        known,
        "node's own routable source address"@,
        trimmed(log[at + 2].output()),
    );
    let found = noted(
        known,
        "node's own routable source address"@,
        trimmed(log[at + 2].output()),
    );
    noting_keeps_addresses_sound(
        known,
        "marker pod default gateway"@,
        trimmed(log[at + 2].output()),
    );
    noting_keeps_addresses_sound(
        found,
        "marker pod default gateway"@,
        trimmed(log[at + 3].output()),
    );
}

// ---- The way out of a tenant's network -------------------------------------

/// All characters are digits, and there is one.
pub open spec fn is_digits(text: Seq<char>) -> bool {
    text.len() > 0 && forall|i: int| 0 <= i < text.len() ==> is_digit(#[trigger] text[i])
}

/// A number that fits in thirty-two bits, with or without a plus sign.
pub open spec fn is_u32_text(text: Seq<char>) -> bool {
    let digits = if text.len() > 1 && text[0] == '+' {
        text.skip(1)
    } else {
        text
    };
    is_digits(digits) && decimal_value(digits) <= u32::MAX
}

/// Four groups of digits with dots between them.
pub open spec fn is_dotted_quad(text: Seq<char>) -> bool {
    let groups = parts(text, "."@);
    groups.len() == 4 && forall|i: int| 0 <= i < 4 ==> is_digits(#[trigger] groups[i])
}

/// The address of the hop that a line of a route shows: behind the number of
/// the hop.
pub open spec fn hop_in(line: Seq<char>) -> Option<Seq<char>> {
    let fields = words(line);
    if fields.len() >= 2 && is_u32_text(fields[0]) && is_dotted_quad(fields[1]) {
        Some(fields[1])
    } else {
        None
    }
}

/// The addresses of the hops that the first `n` lines show.
pub open spec fn hops_in(list: Seq<Seq<char>>, n: int) -> Seq<Seq<char>>
    decreases n,
{
    if n <= 0 {
        Seq::empty()
    } else {
        match hop_in(list[n - 1]) {
            Some(hop) => hops_in(list, n - 1).push(hop),
            None => hops_in(list, n - 1),
        }
    }
}

/// The addresses of the hops that a route's output shows.
pub open spec fn route_hops(output: Seq<char>) -> Seq<Seq<char>> {
    hops_in(lines(output), lines(output).len() as int)
}

/// Asks a pod for the way out of its network. The address at the other end is a
/// direction, not a destination.
pub open spec fn route_command() -> Seq<char> {
    "traceroute -n -m 4 -w 1 8.8.8.8 2>/dev/null || true"@
}

/// Whether all characters are digits, and there is one.
fn all_digits(text: &Vec<char>) -> (r: bool)
    ensures
        r == is_digits(text@),
{
    let mut i: usize = 0;
    while i < text.len()
        invariant
            i <= text.len(),
            forall|k: int| 0 <= k < i ==> is_digit(#[trigger] text@[k]),
        decreases text.len() - i,
    {
        if !('0' <= text[i] && text[i] <= '9') {
            return false;
        }
        i += 1;
    }
    text.len() > 0
}

/// Whether the digits write a number that fits in thirty-two bits.
fn fits_u32(digits: &Vec<char>) -> (r: bool)
    requires
        is_digits(digits@),
    ensures
        r == (decimal_value(digits@) <= u32::MAX),
{
    let mut value: u64 = 0;
    let mut i: usize = 0;
    assert(digits@.take(0) =~= seq![]);
    while i < digits.len()
        invariant
            i <= digits.len(),
            is_digits(digits@),
            value == decimal_value(digits@.take(i as int)),
            value <= u32::MAX,
        decreases digits.len() - i,
    {
        assert(is_digit(digits@[i as int]));
        value = value * 10 + (digits[i] as u64 - '0' as u64);
        assert(digits@.take(i + 1).drop_last() =~= digits@.take(i as int));
        assert(digits@.take(i + 1).last() == digits@[i as int]);
        i += 1;
        if value > u32::MAX as u64 {
            proof {
                decimal_value_grows(digits@, i as int);
            }
            return false;
        }
    }
    assert(digits@.take(digits.len() as int) =~= digits@);
    true
}

/// Whether the text is a number that fits in thirty-two bits.
fn is_u32(text: &Vec<char>) -> (r: bool)
    ensures
        r == is_u32_text(text@),
{
    let from: usize = if text.len() > 1 && text[0] == '+' {
        1
    } else {
        0
    };
    let digits = slice_of(text, from, text.len());
    assert(digits@ =~= text@.skip(from as int));
    assert(text@.skip(0) =~= text@);
    all_digits(&digits) && fits_u32(&digits)
}

/// Whether the text is four groups of digits with dots between them.
fn is_address(text: &Vec<char>) -> (r: bool)
    ensures
        r == is_dotted_quad(text@),
{
    proof {
        reveal_strlit(".");
    }
    let groups = parts_of(text, &chars_of("."));
    let ghost views = char_views(groups@);
    if groups.len() != 4 {
        return false;
    }
    let mut i: usize = 0;
    while i < 4
        invariant
            i <= 4,
            groups.len() == 4,
            views == char_views(groups@),
            views == parts(text@, "."@),
            forall|k: int| 0 <= k < i ==> is_digits(#[trigger] views[k]),
        decreases 4 - i,
    {
        assert(views[i as int] == groups[i as int]@);
        if !all_digits(&groups[i]) {
            return false;
        }
        i += 1;
    }
    true
}

/// The address of the hop that a line of a route shows.
fn hop_of(line: &Vec<char>) -> (r: Option<String>)
    ensures
        text_view(r) == hop_in(line@),
{
    let text = string_of(line, 0, line.len());
    assert(text@ =~= line@);
    let fields = words_of(&text);
    let ghost views = texts(fields@);
    if fields.len() < 2 {
        return None;
    }
    assert(views[0] == fields[0]@);
    assert(views[1] == fields[1]@);
    if is_u32(&chars_of(&fields[0])) && is_address(&chars_of(&fields[1])) {
        Some(fields[1].clone())
    } else {
        None
    }
}

/// The addresses that a pod's traffic passes through on its way off the
/// tenant's own network, out of the output of a traced route.
pub fn escape_route_hops(output: &str) -> (r: Vec<String>)
    ensures
        texts(r@) == route_hops(output@),
{
    let found = lines_of(&chars_of(output));
    let ghost views = char_views(found@);
    let mut hops: Vec<String> = Vec::new();
    assert(texts(hops@) =~= seq![]);
    let mut i: usize = 0;
    while i < found.len()
        invariant
            i <= found.len(),
            views == char_views(found@),
            views == lines(output@),
            texts(hops@) == hops_in(views, i as int),
        decreases found.len() - i,
    {
        assert(views[i as int] == found[i as int]@);
        let ghost before = texts(hops@);
        if let Some(hop) = hop_of(&found[i]) {
            let ghost said = hop@;
            hops.push(hop);
            assert(texts(hops@) =~= before.push(said));
        }
        i += 1;
    }
    hops
}

/// The targets with the first `n` hops behind them, but for those that are
/// already there.
pub open spec fn with_hops(
    targets: Seq<(Seq<char>, Seq<char>)>,
    hops: Seq<Seq<char>>,
    n: int,
) -> Seq<(Seq<char>, Seq<char>)>
    decreases n,
{
    if n <= 0 {
        targets
    } else {
        let before = with_hops(targets, hops, n - 1);
        if has_address(before, hops[n - 1]) {
            before
        } else {
            before.push(("hop out of the intruder's own network"@, hops[n - 1]))
        }
    }
}

/// The targets with the hops behind them.
fn add_hops(targets: &Vec<(String, String)>, hops: &Vec<String>) -> (r: Vec<(String, String)>)
    ensures
        pair_views(r@) == with_hops(pair_views(targets@), texts(hops@), hops.len() as int),
{
    let mut out = copy_pairs(targets);
    let ghost views = texts(hops@);
    let mut i: usize = 0;
    while i < hops.len()
        invariant
            i <= hops.len(),
            views == texts(hops@),
            pair_views(out@) == with_hops(pair_views(targets@), views, i as int),
        decreases hops.len() - i,
    {
        assert(views[i as int] == hops[i as int]@);
        if !holds_address(&out, &hops[i]) {
            let ghost before = pair_views(out@);
            out.push((string_from("hop out of the intruder's own network"), hops[i].clone()));
            assert(pair_views(out@) =~= before.push(
                ("hop out of the intruder's own network"@, hops[i as int]@),
            ));
        }
        i += 1;
    }
    out
}

// ---- Waiting for the marker ------------------------------------------------

/// Waiting for a marker pod to say that it serves: its logs are read every
/// second until they say so, for so many attempts.
pub open spec fn await_serving(
    side: Side,
    pod: Seq<char>,
    marker: Seq<char>,
    log: Seq<ClusterReplyView>,
    attempt: nat,
    at: int,
) -> ProgressView<bool>
    decreases MARKER_SERVING_ATTEMPTS - attempt,
{
    if attempt >= MARKER_SERVING_ATTEMPTS {
        ProgressView::Got(false, at)
    } else if log.len() <= at {
        ProgressView::Ask(ClusterRequestView::ReadLogs { side, name: pod })
    } else if has_text(log[at].output(), "SERVING "@ + marker) {
        ProgressView::Got(true, at + 1)
    } else if log.len() == at + 1 {
        ProgressView::Ask(ClusterRequestView::Pause { millis: 1000 })
    } else {
        await_serving(side, pod, marker, log, attempt + 1, at + 2)
    }
}

/// Waits for a marker pod to say that it serves: it is ready before anything
/// listens, and an intruder that arrives in between finds nothing.
pub fn marker_is_being_served(
    side: Side,
    pod_name: &str,
    marker: &str,
    log: &Vec<ClusterReply>,
    from: usize,
) -> (r: Progress<bool>)
    requires
        from <= log.len(),
    ensures
        r@ == await_serving(side, pod_name@, marker@, reply_views(log@), 0, from as int),
        r matches Progress::Got(_, at) ==> at <= log.len(),
        !(r is Stuck),
{
    let expected = joined("SERVING ", marker);
    let ghost views = reply_views(log@);
    let mut attempt: usize = 0;
    let mut at: usize = from;
    while attempt < MARKER_SERVING_ATTEMPTS
        invariant
            at <= log.len(),
            attempt <= MARKER_SERVING_ATTEMPTS,
            views == reply_views(log@),
            expected@ == "SERVING "@ + marker@,
            await_serving(side, pod_name@, marker@, views, 0, from as int) == await_serving(
                side,
                pod_name@,
                marker@,
                views,
                attempt as nat,
                at as int,
            ),
        decreases MARKER_SERVING_ATTEMPTS - attempt,
    {
        if log.len() == at {
            return Progress::Ask(
                ClusterRequest::ReadLogs { side, name: string_from(pod_name) },
            );
        }
        if contains(&log[at].output(), &expected) {
            return Progress::Got(true, at + 1);
        }
        if log.len() == at + 1 {
            return Progress::Ask(ClusterRequest::Pause { millis: 1000 });
        }
        attempt += 1;
        at += 2;
    }
    Progress::Got(false, at)
}

// ---- The sweep -------------------------------------------------------------

/// What came of pointing one probe pod at every address.
#[derive(Debug)]
pub struct NodePortAttempt {
    /// The address that returned the marker, if one did.
    pub hit: Option<String>,
    /// Whether the probe pod could be placed at all. Where it could not, the
    /// route was never taken.
    pub placed: bool,
    /// A response that was neither the marker nor a failure to connect.
    pub unexpected: Option<String>,
    /// The probe pod was placed but a command could not be run in it.
    pub exec_failed: bool,
    /// At least one address was actually reached out to.
    pub answered: bool,
    /// One line per address tried, for the verdict to carry.
    pub trace: Vec<String>,
}

/// What an attempt says.
pub struct AttemptView {
    pub hit: Option<Seq<char>>,
    pub placed: bool,
    pub unexpected: Option<Seq<char>>,
    pub exec_failed: bool,
    pub answered: bool,
    pub trace: Seq<Seq<char>>,
}

impl View for NodePortAttempt {
    type V = AttemptView;

    open spec fn view(&self) -> AttemptView {
        AttemptView {
            hit: text_view(self.hit),
            placed: self.placed,
            unexpected: text_view(self.unexpected),
            exec_failed: self.exec_failed,
            answered: self.answered,
            trace: texts(self.trace@),
        }
    }
}

/// Asks an address, and reports curl's exit code where that failed. It is
/// bounded three ways, because a command that outlives its channel would be
/// reported as one that could not run.
pub open spec fn ask_command(address: Seq<char>, port: int) -> Seq<char> {
    "out=$(timeout 8 curl -sS --connect-timeout 3 --max-time 6 http://"@ + address + ":"@
        + integer_text(port)
        + " 2>&1); code=$?; if [ $code -eq 0 ]; then echo \"$out\"; else echo \"CONNECTION_FAILED rc=$code $out\"; fi"@
}

/// What is asked, of whom, and under which name it is reported.
pub struct SweepView {
    pub side: Side,
    pub pod: Seq<char>,
    pub route: Seq<char>,
    pub targets: Seq<(Seq<char>, Seq<char>)>,
    pub port: int,
    pub marker: Seq<char>,
}

/// What an address said last, by where it was learnt.
pub open spec fn outcome_of(reply: ClusterReplyView) -> Seq<char> {
    if reply.failed() {
        "could not run the probe: "@ + reply.error()
    } else if has_text(reply.output(), "CONNECTION_FAILED"@) {
        failure_name(reply.output()) + " ("@ + reported_detail(reply.output()) + ")"@
    } else {
        "unexpected response"@
    }
}

/// The attempt after a reply that did not bring the marker.
pub open spec fn after_miss(attempt: AttemptView, reply: ClusterReplyView) -> AttemptView {
    if reply.failed() {
        AttemptView { exec_failed: true, ..attempt }
    } else if has_text(reply.output(), "CONNECTION_FAILED"@) {
        AttemptView { answered: true, ..attempt }
    } else {
        AttemptView {
            answered: true,
            unexpected: match attempt.unexpected {
                Some(first) => Some(first),
                None => Some(reply.output()),
            },
            ..attempt
        }
    }
}

/// The lines on the first `n` addresses of a sweep that found nothing: what
/// each said last.
pub open spec fn miss_lines(
    sweep: SweepView,
    last: Seq<(Seq<char>, Seq<char>)>,
    n: int,
) -> Seq<Seq<char>>
    decreases n,
{
    if n <= 0 {
        Seq::empty()
    } else {
        let (source, address) = sweep.targets[n - 1];
        match value_of(last, source) {
            Some(outcome) => miss_lines(sweep, last, n - 1).push(
                sweep.route + " → "@ + address + " ("@ + source + "): "@ + outcome
                    + ", 12 attempts"@,
            ),
            None => miss_lines(sweep, last, n - 1),
        }
    }
}

/// The sweep from target `k` of round `round` on: every address is asked in
/// every round until one returns the marker. `last` is what each said so far.
pub open spec fn sweep_step(
    sweep: SweepView,
    log: Seq<ClusterReplyView>,
    attempt: AttemptView,
    last: Seq<(Seq<char>, Seq<char>)>,
    round: nat,
    k: nat,
    at: int,
) -> ProgressView<AttemptView>
    decreases PROBE_ROUNDS - round, sweep.targets.len() - k,
{
    if round >= PROBE_ROUNDS {
        ProgressView::Got(
            AttemptView {
                trace: attempt.trace + miss_lines(sweep, last, sweep.targets.len() as int),
                ..attempt
            },
            at,
        )
    } else if k >= sweep.targets.len() {
        if round + 1 >= PROBE_ROUNDS {
            sweep_step(sweep, log, attempt, last, round + 1, 0, at)
        } else if log.len() <= at {
            ProgressView::Ask(ClusterRequestView::Pause { millis: PROBE_INTERVAL_MILLIS })
        } else {
            sweep_step(sweep, log, attempt, last, round + 1, 0, at + 1)
        }
    } else {
        let (source, address) = sweep.targets[k as int];
        if log.len() <= at {
            ProgressView::Ask(
                ClusterRequestView::Exec {
                    side: sweep.side,
                    name: sweep.pod,
                    command: ask_command(address, sweep.port),
                },
            )
        } else if !log[at].failed() && has_text(log[at].output(), sweep.marker) {
            ProgressView::Got(
                AttemptView {
                    hit: Some(address),
                    answered: true,
                    trace: attempt.trace.push(
                        sweep.route + " → "@ + address + " ("@ + source + "): reached"@,
                    ),
                    ..attempt
                },
                at + 1,
            )
        } else {
            sweep_step(
                sweep,
                log,
                after_miss(attempt, log[at]),
                last.push((source, outcome_of(log[at]))),
                round,
                k + 1,
                at + 1,
            )
        }
    }
}

/// What is asked, of whom, and under which name it is reported.
pub struct Sweep<'a> {
    pub side: Side,
    pub pod: &'a str,
    pub route: &'a str,
    pub targets: &'a Vec<(String, String)>,
    pub port: i32,
    pub marker: &'a str,
}

impl<'a> View for Sweep<'a> {
    type V = SweepView;

    open spec fn view(&self) -> SweepView {
        SweepView {
            side: self.side,
            pod: self.pod@,
            route: self.route@,
            targets: pair_views(self.targets@),
            port: self.port as int,
            marker: self.marker@,
        }
    }
}

/// What an address said last.
fn describe_outcome(reply: &ClusterReply) -> (r: String)
    ensures
        r@ == outcome_of(reply@),
{
    if reply.failed() {
        return joined("could not run the probe: ", &reply.error());
    }
    let output = reply.output();
    if contains(&output, "CONNECTION_FAILED") {
        describe_failure(&output)
    } else {
        string_from("unexpected response")
    }
}

/// Enters a reply that did not bring the marker.
fn enter_miss(attempt: &mut NodePortAttempt, reply: &ClusterReply)
    ensures
        final(attempt)@ == after_miss(old(attempt)@, reply@),
{
    if reply.failed() {
        attempt.exec_failed = true;
        return ;
    }
    attempt.answered = true;
    let output = reply.output();
    if !contains(&output, "CONNECTION_FAILED") && attempt.unexpected.is_none() {
        attempt.unexpected = Some(output);
    }
}

/// Enters the lines on a sweep that found nothing.
fn enter_misses(sweep: &Sweep, last: &Vec<(String, String)>, trace: &mut Vec<String>)
    ensures
        texts(final(trace)@) == texts(old(trace)@) + miss_lines(
            sweep@,
            pair_views(last@),
            sweep.targets.len() as int,
        ),
{
    let ghost before = texts(trace@);
    let mut i: usize = 0;
    assert(before + seq![] =~= before);
    while i < sweep.targets.len()
        invariant
            i <= sweep.targets.len(),
            texts(trace@) == before + miss_lines(sweep@, pair_views(last@), i as int),
        decreases sweep.targets.len() - i,
    {
        let (source, address) = (&sweep.targets[i].0, &sweep.targets[i].1);
        assert(sweep@.targets[i as int] == (source@, address@));
        if let Some(outcome) = find_value(last, source) {
            let line = joined7(sweep.route, " → ", address, " (", source, "): ", outcome).concat(
                ", 12 attempts",
            );
            let ghost said = line@;
            let ghost earlier = texts(trace@);
            trace.push(line);
            assert(texts(trace@) =~= earlier.push(said));
            assert(earlier.push(said) =~= before + miss_lines(
                sweep@,
                pair_views(last@),
                i as int,
            ).push(said));
        }
        i += 1;
    }
}

/// Asks every candidate address from a probe pod that is already running,
/// round after round, and records what each one said; the replies stand in
/// `log` from `from` on.
pub fn sweep_addresses(
    sweep: &Sweep,
    log: &Vec<ClusterReply>,
    begun: NodePortAttempt,
    from: usize,
) -> (r: Progress<NodePortAttempt>)
    requires
        from <= log.len(),
    ensures
        r@ == sweep_step(
            sweep@,
            reply_views(log@),
            begun@,
            seq![],
            0,
            0,
            from as int,
        ),
        r matches Progress::Got(_, at) ==> at <= log.len(),
        !(r is Stuck),
{
    let ghost views = reply_views(log@);
    let ghost whole = sweep_step(sweep@, views, begun@, seq![], 0, 0, from as int);
    let mut attempt = begun;
    let mut last: Vec<(String, String)> = Vec::new();
    assert(pair_views(last@) =~= seq![]);
    let mut round: usize = 0;
    let mut at: usize = from;
    while round < PROBE_ROUNDS
        invariant
            at <= log.len(),
            round <= PROBE_ROUNDS,
            views == reply_views(log@),
            whole == sweep_step(
                sweep@,
                views,
                attempt@,
                pair_views(last@),
                round as nat,
                0,
                at as int,
            ),
            whole == sweep_step(sweep@, views, begun@, seq![], 0, 0, from as int),
        decreases PROBE_ROUNDS - round,
    {
        let mut k: usize = 0;
        while k < sweep.targets.len()
            invariant
                at <= log.len(),
                round < PROBE_ROUNDS,
                k <= sweep.targets.len(),
                views == reply_views(log@),
                whole == sweep_step(
                    sweep@,
                    views,
                    attempt@,
                    pair_views(last@),
                    round as nat,
                    k as nat,
                    at as int,
                ),
                whole == sweep_step(sweep@, views, begun@, seq![], 0, 0, from as int),
            decreases sweep.targets.len() - k,
        {
            let (source, address) = (&sweep.targets[k].0, &sweep.targets[k].1);
            assert(sweep@.targets[k as int] == (source@, address@));
            if log.len() == at {
                let command = joined5(
                    "out=$(timeout 8 curl -sS --connect-timeout 3 --max-time 6 http://",
                    address,
                    ":",
                    &integer_of(sweep.port),
                    " 2>&1); code=$?; if [ $code -eq 0 ]; then echo \"$out\"; else echo \"CONNECTION_FAILED rc=$code $out\"; fi",
                );
                return Progress::Ask(
                    ClusterRequest::Exec {
                        side: sweep.side,
                        name: string_from(sweep.pod),
                        command,
                    },
                );
            }
            if !log[at].failed() && contains(&log[at].output(), sweep.marker) {
                let line = joined6(sweep.route, " → ", address, " (", source, "): reached");
                let ghost said = line@;
                let ghost before = texts(attempt.trace@);
                attempt.answered = true;
                attempt.hit = Some(address.clone());
                attempt.trace.push(line);
                assert(texts(attempt.trace@) =~= before.push(said));
                return Progress::Got(attempt, at + 1);
            }
            let outcome = describe_outcome(&log[at]);
            enter_miss(&mut attempt, &log[at]);
            let ghost before = pair_views(last@);
            let ghost pair = (source@, outcome@);
            last.push((source.clone(), outcome));
            assert(pair_views(last@) =~= before.push(pair));
            k += 1;
            at += 1;
        }
        if round + 1 < PROBE_ROUNDS {
            if log.len() == at {
                return Progress::Ask(ClusterRequest::Pause { millis: PROBE_INTERVAL_MILLIS });
            }
            at += 1;
        }
        round += 1;
    }
    enter_misses(sweep, &last, &mut attempt.trace);
    Progress::Got(attempt, at)
}

// ---- A probe pod of its own ------------------------------------------------

/// An attempt that has not begun.
pub open spec fn fresh_attempt(placed: bool) -> AttemptView {
    AttemptView {
        hit: None,
        placed,
        unexpected: None,
        exec_failed: false,
        answered: false,
        trace: seq![],
    }
}

/// An attempt that has not begun.
pub fn new_attempt(placed: bool) -> (r: NodePortAttempt)
    ensures
        r@ == fresh_attempt(placed),
{
    let trace: Vec<String> = Vec::new();
    assert(texts(trace@) =~= seq![]);
    NodePortAttempt {
        hit: None,
        placed,
        unexpected: None,
        exec_failed: false,
        answered: false,
        trace,
    }
}

/// An attempt that failed before its probe was placed.
pub open spec fn unplaced_attempt(line: Seq<char>) -> AttemptView {
    AttemptView { trace: seq![line], ..fresh_attempt(false) }
}

/// The probe with a pod of its own: it is created and, once it is ready, asked
/// for the way out of its network; the targets and the hops are swept, and the
/// pod is taken away again.
pub open spec fn probe_step(
    pod: PodView,
    sweep: SweepView,
    log: Seq<ClusterReplyView>,
    at: int,
) -> ProgressView<AttemptView> {
    let side = sweep.side;
    let name = sweep.pod;
    if log.len() <= at {
        ProgressView::Ask(ClusterRequestView::CreatePod { side, pod })
    } else if log[at].failed() {
        ProgressView::Got(
            unplaced_attempt(
                sweep.route + ": probe pod refused ("@ + log[at].error() + ")"@,
            ),
            at + 1,
        )
    } else if log.len() == at + 1 {
        ProgressView::Ask(ClusterRequestView::AwaitReady { side, name })
    } else if log[at + 1].failed() {
        if log.len() == at + 2 {
            ProgressView::Ask(ClusterRequestView::DeletePod { side, name })
        } else {
            ProgressView::Got(
                unplaced_attempt(
                    sweep.route + ": probe pod never became ready ("@ + log[at + 1].error()
                        + ")"@,
                ),
                at + 3,
            )
        }
    } else if log.len() == at + 2 {
        ProgressView::Ask(ClusterRequestView::Exec { side, name, command: route_command() })
    } else {
        let hops = route_hops(log[at + 2].output());
        let wider = SweepView {
            targets: with_hops(sweep.targets, hops, hops.len() as int),
            ..sweep
        };
        match sweep_step(wider, log, fresh_attempt(true), seq![], 0, 0, at + 3) {
            ProgressView::Ask(request) => ProgressView::Ask(request),
            ProgressView::Stuck(error, at) => ProgressView::Stuck(error, at),
            ProgressView::Got(attempt, at) => if log.len() <= at {
                ProgressView::Ask(ClusterRequestView::DeletePod { side, name })
            } else if log.len() == at + 1 {
                ProgressView::Ask(ClusterRequestView::AwaitPodDeletion { side, name })
            } else {
                ProgressView::Got(attempt, at + 2)
            },
        }
    }
}

/// An attempt that failed before its probe was placed.
fn not_placed(line: String) -> (r: NodePortAttempt)
    ensures
        r@ == unplaced_attempt(line@),
{
    let mut attempt = new_attempt(false);
    let trace = vec![line];
    assert(texts(trace@) =~= seq![line@]);
    attempt.trace = trace;
    attempt
}

/// Creates `pod`, asks every candidate address from it, and takes the pod away
/// again; the replies stand in `log` from `at` on.
pub fn probe_marker_from(pod: &Pod, sweep: &Sweep, log: &Vec<ClusterReply>, at: usize) -> (r:
    Progress<NodePortAttempt>)
    requires
        at <= log.len(),
    ensures
        r@ == probe_step(pod@, sweep@, reply_views(log@), at as int),
        r matches Progress::Got(_, at) ==> at <= log.len(),
        !(r is Stuck),
{
    let side = sweep.side;
    let count: usize = log.len() - at;
    if count == 0 {
        return Progress::Ask(ClusterRequest::CreatePod { side, pod: pod.clone() });
    }
    if log[at].failed() {
        let line = joined4(sweep.route, ": probe pod refused (", &log[at].error(), ")");
        return Progress::Got(not_placed(line), at + 1);
    }
    let name = string_from(sweep.pod);
    if count == 1 {
        return Progress::Ask(ClusterRequest::AwaitReady { side, name });
    }
    if log[at + 1].failed() {
        if count == 2 {
            return Progress::Ask(ClusterRequest::DeletePod { side, name });
        }
        let line = joined4(
            sweep.route,
            ": probe pod never became ready (",
            &log[at + 1].error(),
            ")",
        );
        return Progress::Got(not_placed(line), at + 3);
    }
    if count == 2 {
        return Progress::Ask(
            ClusterRequest::Exec {
                side,
                name,
                command: string_from("traceroute -n -m 4 -w 1 8.8.8.8 2>/dev/null || true"),
            },
        );
    }
    let hops = escape_route_hops(&log[at + 2].output());
    let targets = add_hops(sweep.targets, &hops);
    let wider = Sweep {
        side,
        pod: sweep.pod,
        route: sweep.route,
        targets: &targets,
        port: sweep.port,
        marker: sweep.marker,
    };
    match sweep_addresses(&wider, log, new_attempt(true), at + 3) {
        Progress::Ask(request) => Progress::Ask(request),
        Progress::Stuck(error, at) => Progress::Stuck(error, at),
        Progress::Got(attempt, at) => if log.len() == at {
            Progress::Ask(ClusterRequest::DeletePod { side, name })
        } else if log.len() == at + 1 {
            Progress::Ask(ClusterRequest::AwaitPodDeletion { side, name })
        } else {
            Progress::Got(attempt, at + 2)
        },
    }
}

}
