//! What the network probes aim at: the pods, services, ports and markers that
//! the experiments themselves set up.

use super::probes::{
    dns_resolution, dns_script_tail, multitool_pod, nodeport_marker_pod, pod_reachability,
    reach_script_head, reach_script_tail, server_command, service_reachability,
};
use crate::breach::{BreachView, IntruderView, SecretView};
use crate::json::JsonView;
use crate::pods::PodView;
use crate::text::{decimal, has_text, occurs_at};
use vstd::prelude::*;
use vstd::string::*;

verus! {

/// The field `inner` of the field `outer` of a document is `value`.
pub open spec fn says(
    manifest: JsonView,
    outer: Seq<char>,
    inner: Seq<char>,
    value: JsonView,
) -> bool {
    match manifest.field(outer) {
        Some(part) => part.field(inner) == Some(value),
        None => false,
    }
}

/// The manifest is that of a service called `name` in `namespace`.
pub open spec fn is_service(manifest: JsonView, name: Seq<char>, namespace: Seq<char>) -> bool {
    &&& manifest.field("kind"@) == Some(JsonView::Text("Service"@))
    &&& says(manifest, "metadata"@, "name"@, JsonView::Text(name))
    &&& says(manifest, "metadata"@, "namespace"@, JsonView::Text(namespace))
}

/// The service passes what comes to its port `port` on to the pods like `pod`:
/// it selects them by a label they have, and hands it to the port they open.
pub open spec fn fronts(manifest: JsonView, port: int, pod: PodView) -> bool {
    match manifest.field("spec"@) {
        Some(spec_part) => {
            &&& match spec_part.field("selector"@) {
                Some(selector) => pod.labels.len() > 0 && selector.field(pod.labels[0].0) == Some(
                    JsonView::Text(pod.labels[0].1),
                ),
                None => false,
            }
            &&& match spec_part.field("ports"@) {
                Some(JsonView::Array(ports)) => {
                    &&& ports.len() == 1
                    &&& ports[0].field("port"@) == Some(JsonView::Number(port))
                    &&& pod.containers.len() > 0 && pod.containers[0].ports.len() > 0
                    &&& ports[0].field("targetPort"@) == Some(
                        JsonView::Number(pod.containers[0].ports[0].container_port as int),
                    )
                },
                _ => false,
            }
        },
        None => false,
    }
}

/// The script that a pod runs in its only container.
pub open spec fn script_of(pod: PodView) -> Option<Seq<char>> {
    if pod.containers.len() == 1 && pod.containers[0].command.len() == 3
        && pod.containers[0].command[0] == "sh"@ && pod.containers[0].command[1] == "-c"@ {
        Some(pod.containers[0].command[2])
    } else {
        None
    }
}

/// The names of fields in a service's manifest differ.
pub(crate) proof fn field_names_differ()
    ensures
        "apiVersion"@ != "kind"@,
        "apiVersion"@ != "metadata"@,
        "apiVersion"@ != "spec"@,
        "kind"@ != "metadata"@,
        "kind"@ != "spec"@,
        "metadata"@ != "spec"@,
        "name"@ != "namespace"@,
        "name"@ != "labels"@,
        "namespace"@ != "labels"@,
        "selector"@ != "ports"@,
        "selector"@ != "type"@,
        "ports"@ != "type"@,
        "name"@ != "port"@,
        "protocol"@ != "port"@,
        "protocol"@ != "targetPort"@,
        "name"@ != "targetPort"@,
        "port"@ != "targetPort"@,
        "nodePort"@ != "port"@,
        "nodePort"@ != "targetPort"@,
{
    reveal_strlit("apiVersion");
    reveal_strlit("kind");
    reveal_strlit("metadata");
    reveal_strlit("spec");
    reveal_strlit("name");
    reveal_strlit("namespace");
    reveal_strlit("labels");
    reveal_strlit("selector");
    reveal_strlit("ports");
    reveal_strlit("type");
    reveal_strlit("protocol");
    reveal_strlit("port");
    reveal_strlit("targetPort");
    reveal_strlit("nodePort");
    assert("apiVersion"@.len() == 10 && "kind"@.len() == 4 && "metadata"@.len() == 8
        && "spec"@.len() == 4 && "name"@.len() == 4 && "namespace"@.len() == 9
        && "labels"@.len() == 6 && "selector"@.len() == 8 && "ports"@.len() == 5
        && "type"@.len() == 4 && "protocol"@.len() == 8 && "port"@.len() == 4
        && "targetPort"@.len() == 10 && "nodePort"@.len() == 8);
    assert("kind"@[0] == 'k' && "spec"@[0] == 's' && "name"@[0] == 'n' && "port"@[0] == 'p');
}

/// The web server's service is what the experiment says it is: a service of
/// its own name in the victim's namespace, in front of the target pod, on the
/// port that the target opens.
pub proof fn the_target_service_fronts_the_target(victim_namespace: Seq<char>)
    ensures
        forall|exp: BreachView|
            exp == service_reachability(victim_namespace) || exp == dns_resolution(
                victim_namespace,
            ) ==> match #[trigger] exp.target_service {
                Some(service) => {
                    &&& is_service(service.manifest, service.name, victim_namespace)
                    &&& fronts(service.manifest, 8080, exp.target)
                },
                None => false,
            },
{
    field_names_differ();
}


/// The DNS intruder looks up the experiment's own target: for every namespace,
/// the script it runs asks for the name of the target service in the victim's
/// namespace, as the cluster's DNS writes it.
pub proof fn the_dns_intruder_looks_up_the_target_service(victim_namespace: Seq<char>)
    ensures
        ({
            let exp = dns_resolution(victim_namespace);
            match (exp.intruder, exp.target_service) {
                (IntruderView::Anywhere(pod), Some(service)) => match script_of(pod) {
                    Some(script) => {
                        &&& has_text(
                            script,
                            "nslookup "@ + service.name + "."@ + victim_namespace
                                + ".svc.cluster.local "@,
                        )
                        &&& is_service(service.manifest, service.name, victim_namespace)
                    },
                    None => false,
                },
                _ => false,
            }
        }),
{
    field_names_differ();
    let exp = dns_resolution(victim_namespace);
    let script = exp.intruder->Anywhere_0.containers[0].command[2];
    let name = exp.target_service->Some_0.name;
    let asked = "nslookup "@ + name + "."@ + victim_namespace + ".svc.cluster.local "@;
    reveal_strlit("out=$(nslookup ");
    reveal_strlit("nslookup ");
    reveal_strlit(".svc.cluster.local");
    reveal_strlit(".svc.cluster.local ");
    reveal_strlit(
        " 2>&1); if echo \"$out\" | grep -A1 'Name:' | grep -q 'Address'; then echo 'DNS_RESOLVED: the name resolves from another tenant'; elif echo \"$out\" | grep -q 'NXDOMAIN'; then echo 'DNS_NXDOMAIN: the server holds no such record for this client'; elif echo \"$out\" | grep -q 'REFUSED'; then echo 'DNS_REFUSED: the server declined to answer'; elif echo \"$out\" | grep -q 'SERVFAIL'; then echo \"DNS_SERVER_BROKEN: $(echo \"$out\" | tr '\\n' ' ' | cut -c1-120)\"; else echo \"DNS_NO_SERVER: $(echo \"$out\" | tr '\\n' ' ' | cut -c1-120)\"; fi",
    );
    assert(dns_script_tail()[0] == ' ');
    assert(script.subrange(6, 6int + asked.len()) =~= asked);
    assert(occurs_at(script, asked, 6));
}

/// The experiments in which the intruder asks the target's address for what the
/// target serves.
pub open spec fn reachability_experiments(victim_namespace: Seq<char>) -> Seq<BreachView> {
    seq![pod_reachability(), service_reachability(victim_namespace)]
}

/// The reachability intruder asks at the port that the target opens: whatever
/// address it is aimed at, its script connects to that address there.
pub proof fn the_reachability_intruder_asks_at_the_targets_port(
    victim_namespace: Seq<char>,
    i: int,
    address: Seq<char>,
)
    requires
        0 <= i < reachability_experiments(victim_namespace).len(),
    ensures
        ({
            let exp = reachability_experiments(victim_namespace)[i];
            match exp.intruder {
                IntruderView::AtTargetAddress { before, after, .. } => {
                    &&& exp.target.containers.len() == 1
                    &&& exp.target.containers[0].ports.len() == 1
                    &&& exp.target.containers[0].ports[0].container_port >= 0
                    &&& has_text(
                        before + address + after,
                        "curl -sS --connect-timeout 2 "@ + address + ":"@ + decimal(
                            exp.target.containers[0].ports[0].container_port as nat,
                        ) + " "@,
                    )
                },
                _ => false,
            }
        }),
{
    reveal_with_fuel(decimal, 5);
    reveal_strlit(
        "last=''; lastcode=0; for i in $(seq 1 15); do out=$(curl -sS --connect-timeout 2 ",
    );
    reveal_strlit("curl -sS --connect-timeout 2 ");
    reveal_strlit(":");
    reveal_strlit(" ");
    tail_starts_with_the_port();
    let exp = reachability_experiments(victim_namespace)[i];
    let before = reach_script_head();
    let after = reach_script_tail();
    let script = before + address + after;
    let port = exp.target.containers[0].ports[0].container_port as nat;
    assert(port == 8080);
    assert(decimal(8080) =~= seq!['8', '0', '8', '0']);
    let asked = "curl -sS --connect-timeout 2 "@ + address + ":"@ + decimal(port) + " "@;
    let at: int = before.len() - "curl -sS --connect-timeout 2 "@.len();
    assert(script.subrange(at, at + asked.len()) =~= asked);
    assert(occurs_at(script, asked, at));
}


proof fn tail_starts_with_the_port()
    ensures
        reach_script_tail().len() > 6,
        reach_script_tail()[0] == ':',
        reach_script_tail()[1] == '8',
        reach_script_tail()[2] == '0',
        reach_script_tail()[3] == '8',
        reach_script_tail()[4] == '0',
        reach_script_tail()[5] == ' ',
{
    reveal_strlit(
        ":8080 2>&1); code=$?; if [ $code -eq 0 ] && echo \"$out\" | grep -q 'network-multitool'; then echo 'NETWORK_ACCESS_SUCCESS: reached the other tenant'; exit 0; fi; last=\"$out\"; lastcode=$code; sleep 2; done; if [ \"$lastcode\" = 6 ] || echo \"$last\" | grep -qiE 'no route to host|network is unreachable|could not resolve'; then echo \"NETWORK_ACCESS_NO_HOST: $last\"; elif [ \"$lastcode\" = 7 ]; then echo \"NETWORK_ACCESS_REFUSED: $last\"; elif [ \"$lastcode\" = 28 ]; then echo \"NETWORK_ACCESS_NO_ANSWER: $last\"; else echo \"NETWORK_ACCESS_UNCLEAR: $last\"; fi",
    );
}


/// What the script of a reachability probe says of an attempt: success where
/// curl got what the target serves, a missing host where the name did not
/// resolve or there was no route, a refusal where curl could not connect and
/// no answer where it ran out of time.
pub proof fn the_reachability_script_tells_the_failures_apart()
    ensures
        has_text(
            reach_script_tail(),
            "if [ $code -eq 0 ] && echo \"$out\" | grep -q 'network-multitool'; then echo 'NETWORK_ACCESS_SUCCESS"@,
        ),
        has_text(
            reach_script_tail(),
            "if [ \"$lastcode\" = 6 ] || echo \"$last\" | grep -qiE 'no route to host|network is unreachable|could not resolve'; then echo \"NETWORK_ACCESS_NO_HOST"@,
        ),
        has_text(
            reach_script_tail(),
            "elif [ \"$lastcode\" = 7 ]; then echo \"NETWORK_ACCESS_REFUSED"@,
        ),
        has_text(
            reach_script_tail(),
            "elif [ \"$lastcode\" = 28 ]; then echo \"NETWORK_ACCESS_NO_ANSWER"@,
        ),
{
    reveal_strlit(
        ":8080 2>&1); code=$?; if [ $code -eq 0 ] && echo \"$out\" | grep -q 'network-multitool'; then echo 'NETWORK_ACCESS_SUCCESS: reached the other tenant'; exit 0; fi; last=\"$out\"; lastcode=$code; sleep 2; done; if [ \"$lastcode\" = 6 ] || echo \"$last\" | grep -qiE 'no route to host|network is unreachable|could not resolve'; then echo \"NETWORK_ACCESS_NO_HOST: $last\"; elif [ \"$lastcode\" = 7 ]; then echo \"NETWORK_ACCESS_REFUSED: $last\"; elif [ \"$lastcode\" = 28 ]; then echo \"NETWORK_ACCESS_NO_ANSWER: $last\"; else echo \"NETWORK_ACCESS_UNCLEAR: $last\"; fi",
    );
    reveal_strlit("if [ $code -eq 0 ] && echo \"$out\" | grep -q 'network-multitool'; then echo 'NETWORK_ACCESS_SUCCESS");
    reveal_strlit("if [ \"$lastcode\" = 6 ] || echo \"$last\" | grep -qiE 'no route to host|network is unreachable|could not resolve'; then echo \"NETWORK_ACCESS_NO_HOST");
    reveal_strlit("elif [ \"$lastcode\" = 7 ]; then echo \"NETWORK_ACCESS_REFUSED");
    reveal_strlit("elif [ \"$lastcode\" = 28 ]; then echo \"NETWORK_ACCESS_NO_ANSWER");
    assert(reach_script_tail().subrange(22, 120) =~= "if [ $code -eq 0 ] && echo \"$out\" | grep -q 'network-multitool'; then echo 'NETWORK_ACCESS_SUCCESS"@);
    assert(occurs_at(reach_script_tail(), "if [ $code -eq 0 ] && echo \"$out\" | grep -q 'network-multitool'; then echo 'NETWORK_ACCESS_SUCCESS"@, 22));
    assert(reach_script_tail().subrange(205, 350) =~= "if [ \"$lastcode\" = 6 ] || echo \"$last\" | grep -qiE 'no route to host|network is unreachable|could not resolve'; then echo \"NETWORK_ACCESS_NO_HOST"@);
    assert(occurs_at(reach_script_tail(), "if [ \"$lastcode\" = 6 ] || echo \"$last\" | grep -qiE 'no route to host|network is unreachable|could not resolve'; then echo \"NETWORK_ACCESS_NO_HOST"@, 205));
    assert(reach_script_tail().subrange(360, 419) =~= "elif [ \"$lastcode\" = 7 ]; then echo \"NETWORK_ACCESS_REFUSED"@);
    assert(occurs_at(reach_script_tail(), "elif [ \"$lastcode\" = 7 ]; then echo \"NETWORK_ACCESS_REFUSED"@, 360));
    assert(reach_script_tail().subrange(429, 491) =~= "elif [ \"$lastcode\" = 28 ]; then echo \"NETWORK_ACCESS_NO_ANSWER"@);
    assert(occurs_at(reach_script_tail(), "elif [ \"$lastcode\" = 28 ]; then echo \"NETWORK_ACCESS_NO_ANSWER"@, 429));
}

/// What the script of the DNS probe says of a lookup: resolved where the answer
/// gives an address for the name, and otherwise what the server answered, if
/// one did.
pub proof fn the_dns_script_tells_the_answers_apart()
    ensures
        has_text(
            dns_script_tail(),
            "| grep -A1 'Name:' | grep -q 'Address'; then echo 'DNS_RESOLVED"@,
        ),
        has_text(
            dns_script_tail(),
            "| grep -q 'NXDOMAIN'; then echo 'DNS_NXDOMAIN"@,
        ),
        has_text(
            dns_script_tail(),
            "| grep -q 'REFUSED'; then echo 'DNS_REFUSED"@,
        ),
        has_text(
            dns_script_tail(),
            "| grep -q 'SERVFAIL'; then echo \"DNS_SERVER_BROKEN"@,
        ),
        has_text(
            dns_script_tail(),
            "else echo \"DNS_NO_SERVER"@,
        ),
{
    reveal_strlit(
        " 2>&1); if echo \"$out\" | grep -A1 'Name:' | grep -q 'Address'; then echo 'DNS_RESOLVED: the name resolves from another tenant'; elif echo \"$out\" | grep -q 'NXDOMAIN'; then echo 'DNS_NXDOMAIN: the server holds no such record for this client'; elif echo \"$out\" | grep -q 'REFUSED'; then echo 'DNS_REFUSED: the server declined to answer'; elif echo \"$out\" | grep -q 'SERVFAIL'; then echo \"DNS_SERVER_BROKEN: $(echo \"$out\" | tr '\\n' ' ' | cut -c1-120)\"; else echo \"DNS_NO_SERVER: $(echo \"$out\" | tr '\\n' ' ' | cut -c1-120)\"; fi",
    );
    reveal_strlit("| grep -A1 'Name:' | grep -q 'Address'; then echo 'DNS_RESOLVED");
    reveal_strlit("| grep -q 'NXDOMAIN'; then echo 'DNS_NXDOMAIN");
    reveal_strlit("| grep -q 'REFUSED'; then echo 'DNS_REFUSED");
    reveal_strlit("| grep -q 'SERVFAIL'; then echo \"DNS_SERVER_BROKEN");
    reveal_strlit("else echo \"DNS_NO_SERVER");
    assert(dns_script_tail().subrange(23, 86) =~= "| grep -A1 'Name:' | grep -q 'Address'; then echo 'DNS_RESOLVED"@);
    assert(occurs_at(dns_script_tail(), "| grep -A1 'Name:' | grep -q 'Address'; then echo 'DNS_RESOLVED"@, 23));
    assert(dns_script_tail().subrange(145, 190) =~= "| grep -q 'NXDOMAIN'; then echo 'DNS_NXDOMAIN"@);
    assert(occurs_at(dns_script_tail(), "| grep -q 'NXDOMAIN'; then echo 'DNS_NXDOMAIN"@, 145));
    assert(dns_script_tail().subrange(259, 302) =~= "| grep -q 'REFUSED'; then echo 'DNS_REFUSED"@);
    assert(occurs_at(dns_script_tail(), "| grep -q 'REFUSED'; then echo 'DNS_REFUSED"@, 259));
    assert(dns_script_tail().subrange(353, 403) =~= "| grep -q 'SERVFAIL'; then echo \"DNS_SERVER_BROKEN"@);
    assert(occurs_at(dns_script_tail(), "| grep -q 'SERVFAIL'; then echo \"DNS_SERVER_BROKEN"@, 353));
    assert(dns_script_tail().subrange(450, 474) =~= "else echo \"DNS_NO_SERVER"@);
    assert(occurs_at(dns_script_tail(), "else echo \"DNS_NO_SERVER"@, 450));
}

/// What a marker server does: it serves the marker, and nothing else, at the
/// port that its pod opens, and says so in its output.
pub proof fn a_marker_server_serves_its_marker(name: Seq<char>, marker: Seq<char>)
    ensures
        ({
            let pod = nodeport_marker_pod(name, marker);
            match script_of(pod) {
                Some(script) => {
                    &&& pod.name == name
                    &&& pod.containers[0].ports.len() == 1
                    &&& pod.containers[0].ports[0].container_port >= 0
                    &&& has_text(
                        script,
                        "printf '%s' '"@ + marker + "' > /tmp/www/index.html"@,
                    )
                    &&& has_text(script, "echo 'SERVING "@ + marker + "'"@)
                    &&& has_text(
                        script,
                        "httpd -f -p "@ + decimal(
                            pod.containers[0].ports[0].container_port as nat,
                        ) + " -h /tmp/www"@,
                    )
                },
                None => false,
            }
        }),
        script_of(multitool_pod(marker)) == script_of(nodeport_marker_pod(name, marker)),
        multitool_pod(marker).containers[0].ports.len() == 1,
        multitool_pod(marker).containers[0].ports[0].container_port == nodeport_marker_pod(
            name,
            marker,
        ).containers[0].ports[0].container_port,
{
    reveal_strlit("mkdir -p /tmp/www && printf '%s' '");
    reveal_strlit("' > /tmp/www/index.html && echo 'SERVING ");
    reveal_strlit("' && httpd -f -p ");
    reveal_strlit(" -h /tmp/www");
    reveal_strlit("printf '%s' '");
    reveal_strlit("' > /tmp/www/index.html");
    reveal_strlit("echo 'SERVING ");
    reveal_strlit("'");
    reveal_strlit("httpd -f -p ");
    let script = server_command(marker);
    let (a, b, c, d): (Seq<char>, Seq<char>, Seq<char>, Seq<char>) = (
        "mkdir -p /tmp/www && printf '%s' '"@,
        "' > /tmp/www/index.html && echo 'SERVING "@,
        "' && httpd -f -p "@,
        " -h /tmp/www"@,
    );
    let port = decimal(8080);
    assert(script == a + marker + b + marker + c + port + d);
    let served = "printf '%s' '"@ + marker + "' > /tmp/www/index.html"@;
    let at: int = a.len() - "printf '%s' '"@.len();
    assert(script.subrange(at, at + served.len()) =~= served);
    assert(occurs_at(script, served, at));
    let said = "echo 'SERVING "@ + marker + "'"@;
    let at: int = a.len() + marker.len() + b.len() - "echo 'SERVING "@.len();
    assert(script.subrange(at, at + said.len()) =~= said);
    assert(occurs_at(script, said, at));
    let listens = "httpd -f -p "@ + port + " -h /tmp/www"@;
    let at: int = a.len() + marker.len() + b.len() + marker.len() + c.len()
        - "httpd -f -p "@.len();
    assert(script.subrange(at, at + listens.len()) =~= listens);
    assert(occurs_at(script, listens, at));
}

/// The target confirms itself, and the intruder looks for the target: what the
/// experiment waits for in the target's output is what the target's script
/// prints, and what the intruder takes for success is what the target serves.
pub proof fn the_target_serves_what_is_looked_for(victim_namespace: Seq<char>, i: int)
    requires
        0 <= i < reachability_experiments(victim_namespace).len(),
    ensures
        ({
            let exp = reachability_experiments(victim_namespace)[i];
            let served = exp.target.name;
            match (script_of(exp.target), exp.secret, exp.intruder) {
                (
                    Some(script),
                    SecretView::ConfirmedBy(line),
                    IntruderView::AtTargetAddress { after, .. },
                ) => {
                    &&& has_text(script, "echo '"@ + line + "'"@)
                    &&& has_text(script, "printf '%s' '"@ + served + "' > /tmp/www/index.html"@)
                    &&& has_text(after, "grep -q '"@ + served + "'; then echo 'NETWORK_ACCESS_SUCCESS"@)
                },
                _ => false,
            }
        }),
        dns_resolution(victim_namespace).target == pod_reachability().target,
        dns_resolution(victim_namespace).secret == pod_reachability().secret,
{
    let exp = reachability_experiments(victim_namespace)[i];
    let served = "network-multitool"@;
    a_marker_server_serves_its_marker(served, served);
    reveal_strlit("echo 'SERVING ");
    reveal_strlit("echo '");
    reveal_strlit("SERVING ");
    assert("echo 'SERVING "@ =~= "echo '"@ + "SERVING "@);
    assert("echo 'SERVING "@ + served + "'"@ =~= "echo '"@ + ("SERVING "@ + served) + "'"@);
    probe_looks_for_the_multitool();
}

proof fn probe_looks_for_the_multitool()
    ensures
        has_text(
            reach_script_tail(),
            "grep -q '"@ + "network-multitool"@ + "'; then echo 'NETWORK_ACCESS_SUCCESS"@,
        ),
{
    reveal_strlit(
        ":8080 2>&1); code=$?; if [ $code -eq 0 ] && echo \"$out\" | grep -q 'network-multitool'; then echo 'NETWORK_ACCESS_SUCCESS: reached the other tenant'; exit 0; fi; last=\"$out\"; lastcode=$code; sleep 2; done; if [ \"$lastcode\" = 6 ] || echo \"$last\" | grep -qiE 'no route to host|network is unreachable|could not resolve'; then echo \"NETWORK_ACCESS_NO_HOST: $last\"; elif [ \"$lastcode\" = 7 ]; then echo \"NETWORK_ACCESS_REFUSED: $last\"; elif [ \"$lastcode\" = 28 ]; then echo \"NETWORK_ACCESS_NO_ANSWER: $last\"; else echo \"NETWORK_ACCESS_UNCLEAR: $last\"; fi",
    );
    reveal_strlit("grep -q '");
    reveal_strlit("network-multitool");
    reveal_strlit("'; then echo 'NETWORK_ACCESS_SUCCESS");
    let part = "grep -q '"@ + "network-multitool"@ + "'; then echo 'NETWORK_ACCESS_SUCCESS"@;
    assert(reach_script_tail().subrange(58, 120) =~= part);
    assert(occurs_at(reach_script_tail(), part, 58));
}


/// The pod asks for nothing that a tenant of restricted pods may not have: no
/// privilege, no namespace of the host, no root, no capability, no escalation,
/// and no port below those that only root may open.
pub open spec fn is_restricted(pod: PodView) -> bool {
    &&& pod.host_pid is None && pod.host_ipc is None && pod.host_network is None
        && pod.host_users is None
    &&& pod.run_as_non_root == Some(true)
    &&& pod.run_as_user is Some && pod.run_as_user->Some_0 > 0
    &&& pod.seccomp_profile == Some("RuntimeDefault"@)
    &&& pod.containers.len() == 1
    &&& pod.containers[0].privileged is None
    &&& pod.containers[0].allow_privilege_escalation == Some(false)
    &&& pod.containers[0].dropped_capabilities == seq!["ALL"@]
    &&& forall|i: int|
        0 <= i < pod.containers[0].ports.len() ==> (#[trigger] pod.containers[0].ports[i]).host_port
            is None && pod.containers[0].ports[i].container_port >= 1024
}

/// Everything that the reachability and DNS experiments run is restricted, so
/// that a tenant's policies do not decide what is measured; an intruder runs
/// once and is not started again.
pub proof fn the_probes_stay_restricted(victim_namespace: Seq<char>, name: Seq<char>, marker: Seq<char>)
    ensures
        is_restricted(pod_reachability().target),
        is_restricted(service_reachability(victim_namespace).target),
        is_restricted(dns_resolution(victim_namespace).target),
        match pod_reachability().intruder {
            IntruderView::AtTargetAddress { pod, .. } => is_restricted(pod) && pod.restart_policy
                == Some("Never"@),
            _ => false,
        },
        match service_reachability(victim_namespace).intruder {
            IntruderView::AtTargetAddress { pod, .. } => is_restricted(pod) && pod.restart_policy
                == Some("Never"@),
            _ => false,
        },
        match dns_resolution(victim_namespace).intruder {
            IntruderView::Anywhere(pod) => is_restricted(pod) && pod.restart_policy == Some(
                "Never"@,
            ),
            _ => false,
        },
        is_restricted(nodeport_marker_pod(name, marker)),
        is_restricted(multitool_pod(name)),
{
}

/// The experiments are told apart by what they are called.
pub proof fn the_experiments_are_told_apart(victim_namespace: Seq<char>)
    ensures
        pod_reachability().what != service_reachability(victim_namespace).what,
        pod_reachability().what != dns_resolution(victim_namespace).what,
        service_reachability(victim_namespace).what != dns_resolution(victim_namespace).what,
{
    reveal_strlit("pod-to-pod reachability");
    reveal_strlit("service reachability");
    reveal_strlit("cross-tenant DNS resolution");
    assert("pod-to-pod reachability"@.len() == 23 && "service reachability"@.len() == 20
        && "cross-tenant DNS resolution"@.len() == 27);
}

}
