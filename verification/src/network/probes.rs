//! The pods, services and scripts that the network experiments use.

use crate::breach::{
    AddressProbe, BreachCondition, BreachExperiment, BreachView, Classifier, ConditionView,
    Intruder, IntruderView, Secret, SecretView,
};
use crate::cluster::{Service, ServiceView};
use crate::json::{empty_array, empty_object, Json, JsonView};
use crate::pods::{
    plain_container, plain_pod, ContainerPort, ContainerView, HostAccess, Pod, PodView, ProbePod,
};
use crate::text::{
    chars_of, decimal, decimal_of, joined, joined3, joined4, joined5, joined7, string_from,
};
use vstd::prelude::*;
use vstd::string::*;

verus! {

/// The pod that serves a marker and probes others.
pub const NETWORK_MULTITOOL_POD_NAME: &'static str = "network-multitool";

/// The port that the probes serve on. It is unprivileged, so that a tenant that
/// admits only restricted pods still runs them.
pub const WEBSERVER_PORT: i32 = 8080;

/// The node port that both tenants claim.
pub const AUTONOMY_TEST_NODE_PORT: i32 = 30080;

/// The port of the node on which the first tenant's marker is served.
pub const NODE_MARKER_PORT: i32 = 31337;

/// A whole number in decimal digits, with a sign where it is negative.
pub open spec fn integer_text(n: int) -> Seq<char> {
    if n < 0 {
        "-"@ + decimal((-n) as nat)
    } else {
        decimal(n as nat)
    }
}

/// A whole number in decimal digits, with a sign where it is negative.
pub fn integer_of(n: i32) -> (r: String)
    ensures
        r@ == integer_text(n as int),
{
    if n < 0 {
        joined("-", &decimal_of((-(n as i64)) as u64))
    } else {
        decimal_of(n as u64)
    }
}

// ---- Scripts ---------------------------------------------------------------

/// Whether the script has a single quote too many outside of double quotes,
/// after `in_double` and `odd` so far.
pub open spec fn quotes_left_open(script: Seq<char>, in_double: bool, odd: bool) -> bool
    decreases script.len(),
{
    if script.len() == 0 {
        odd
    } else if script[0] == '"' {
        quotes_left_open(script.skip(1), !in_double, odd)
    } else if script[0] == '\'' && !in_double {
        quotes_left_open(script.skip(1), in_double, !odd)
    } else {
        quotes_left_open(script.skip(1), in_double, odd)
    }
}

/// Whether the script has an odd number of single quotes outside of any
/// double-quoted span, which is where the shell treats them as delimiters.
pub fn unbalanced_single_quotes(script: &str) -> (r: bool)
    ensures
        r == quotes_left_open(script@, false, false),
{
    let chars = chars_of(script);
    let mut in_double = false;
    let mut odd = false;
    let mut i: usize = 0;
    assert(chars@.skip(0) =~= chars@);
    while i < chars.len()
        invariant
            i <= chars.len(),
            chars@ == script@,
            quotes_left_open(script@, false, false) == quotes_left_open(
                chars@.skip(i as int),
                in_double,
                odd,
            ),
        decreases chars.len() - i,
    {
        assert(chars@.skip(i as int)[0] == chars@[i as int]);
        assert(chars@.skip(i as int).skip(1) =~= chars@.skip(i + 1));
        let c: char = chars[i];
        if c == '"' {
            in_double = !in_double;
        } else if c == '\'' && !in_double {
            odd = !odd;
        }
        i += 1;
    }
    odd
}

/// Serves `marker` over HTTP without needing root.
pub open spec fn server_command(marker: Seq<char>) -> Seq<char> {
    "mkdir -p /tmp/www && printf '%s' '"@ + marker + "' > /tmp/www/index.html && echo 'SERVING "@
        + marker + "' && httpd -f -p "@ + decimal(8080) + " -h /tmp/www"@
}

/// Serves `marker` over HTTP without needing root: the image's own entry point
/// writes where only root may, so a directory under `/tmp` is served.
pub fn unprivileged_http_server_command(marker: &str) -> (r: String)
    ensures
        r@ == server_command(marker@),
{
    joined7(
        "mkdir -p /tmp/www && printf '%s' '",
        marker,
        "' > /tmp/www/index.html && echo 'SERVING ",
        marker,
        "' && httpd -f -p ",
        &decimal_of(WEBSERVER_PORT as u64),
        " -h /tmp/www",
    )
}

/// The reachability probe's script up to the address: it asks again and again,
/// because the endpoints of a service are programmed only after its pod is ready.
pub open spec fn reach_script_head() -> Seq<char> {
    "last=''; lastcode=0; for i in $(seq 1 15); do out=$(curl -sS --connect-timeout 2 "@
}

/// The reachability probe's script from the address on: it reports how the
/// attempt failed by curl's exit code, which tells an unknown name, a rejection
/// and silence apart.
pub open spec fn reach_script_tail() -> Seq<char> {
    ":8080 2>&1); code=$?; if [ $code -eq 0 ] && echo \"$out\" | grep -q 'network-multitool'; then echo 'NETWORK_ACCESS_SUCCESS: reached the other tenant'; exit 0; fi; last=\"$out\"; lastcode=$code; sleep 2; done; if [ \"$lastcode\" = 6 ] || echo \"$last\" | grep -qiE 'no route to host|network is unreachable|could not resolve'; then echo \"NETWORK_ACCESS_NO_HOST: $last\"; elif [ \"$lastcode\" = 7 ]; then echo \"NETWORK_ACCESS_REFUSED: $last\"; elif [ \"$lastcode\" = 28 ]; then echo \"NETWORK_ACCESS_NO_ANSWER: $last\"; else echo \"NETWORK_ACCESS_UNCLEAR: $last\"; fi"@
}

/// The DNS probe's script up to the name.
pub open spec fn dns_script_head() -> Seq<char> {
    "out=$(nslookup "@
}

/// The DNS probe's script from the name on: it reports the server's answer
/// rather than yes or no.
pub open spec fn dns_script_tail() -> Seq<char> {
    " 2>&1); if echo \"$out\" | grep -A1 'Name:' | grep -q 'Address'; then echo 'DNS_RESOLVED: the name resolves from another tenant'; elif echo \"$out\" | grep -q 'NXDOMAIN'; then echo 'DNS_NXDOMAIN: the server holds no such record for this client'; elif echo \"$out\" | grep -q 'REFUSED'; then echo 'DNS_REFUSED: the server declined to answer'; elif echo \"$out\" | grep -q 'SERVFAIL'; then echo \"DNS_SERVER_BROKEN: $(echo \"$out\" | tr '\\n' ' ' | cut -c1-120)\"; else echo \"DNS_NO_SERVER: $(echo \"$out\" | tr '\\n' ' ' | cut -c1-120)\"; fi"@
}

/// The reachability probe's script up to the address.
fn reach_head() -> (r: &'static str)
    ensures
        r@ == reach_script_head(),
{
    "last=''; lastcode=0; for i in $(seq 1 15); do out=$(curl -sS --connect-timeout 2 "
}

/// The reachability probe's script from the address on.
fn reach_tail() -> (r: &'static str)
    ensures
        r@ == reach_script_tail(),
{
    ":8080 2>&1); code=$?; if [ $code -eq 0 ] && echo \"$out\" | grep -q 'network-multitool'; then echo 'NETWORK_ACCESS_SUCCESS: reached the other tenant'; exit 0; fi; last=\"$out\"; lastcode=$code; sleep 2; done; if [ \"$lastcode\" = 6 ] || echo \"$last\" | grep -qiE 'no route to host|network is unreachable|could not resolve'; then echo \"NETWORK_ACCESS_NO_HOST: $last\"; elif [ \"$lastcode\" = 7 ]; then echo \"NETWORK_ACCESS_REFUSED: $last\"; elif [ \"$lastcode\" = 28 ]; then echo \"NETWORK_ACCESS_NO_ANSWER: $last\"; else echo \"NETWORK_ACCESS_UNCLEAR: $last\"; fi"
}

/// The DNS probe's script up to the name.
fn dns_head() -> (r: &'static str)
    ensures
        r@ == dns_script_head(),
{
    "out=$(nslookup "
}

/// The DNS probe's script from the name on.
fn dns_tail() -> (r: &'static str)
    ensures
        r@ == dns_script_tail(),
{
    " 2>&1); if echo \"$out\" | grep -A1 'Name:' | grep -q 'Address'; then echo 'DNS_RESOLVED: the name resolves from another tenant'; elif echo \"$out\" | grep -q 'NXDOMAIN'; then echo 'DNS_NXDOMAIN: the server holds no such record for this client'; elif echo \"$out\" | grep -q 'REFUSED'; then echo 'DNS_REFUSED: the server declined to answer'; elif echo \"$out\" | grep -q 'SERVFAIL'; then echo \"DNS_SERVER_BROKEN: $(echo \"$out\" | tr '\\n' ' ' | cut -c1-120)\"; else echo \"DNS_NO_SERVER: $(echo \"$out\" | tr '\\n' ' ' | cut -c1-120)\"; fi"
}

// ---- Pods ------------------------------------------------------------------

/// A pod with one container.
pub open spec fn with_container(pod: PodView, container: ContainerView) -> PodView {
    PodView { containers: seq![].push(container), ..pod }
}

/// A pod that satisfies a tenant which admits only restricted pods.
pub open spec fn restricted_pod(name: Seq<char>) -> PodView {
    PodView {
        run_as_non_root: Some(true),
        run_as_user: Some(1000i64),
        seccomp_profile: Some("RuntimeDefault"@),
        ..plain_pod(name)
    }
}

/// A container of such a pod, which runs a script in the network tools' image.
pub open spec fn restricted_container(name: Seq<char>, script: Seq<char>) -> ContainerView {
    ContainerView {
        name,
        image: "praqma/network-multitool"@,
        command: seq!["sh"@, "-c"@, script],
        allow_privilege_escalation: Some(false),
        dropped_capabilities: seq!["ALL"@],
        ..plain_container()
    }
}

/// A restricted, unprivileged pod that both serves a marker and probes others.
pub open spec fn multitool_pod(name: Seq<char>) -> PodView {
    with_container(
        PodView {
            labels: seq![].push(("app"@, "network-multitool"@)),
            restart_policy: None,
            ..restricted_pod(name)
        },
        ContainerView {
            ports: seq![].push(
                ContainerPort { container_port: 8080, tcp: false, host_port: None },
            ),
            ..restricted_container("multitool"@, server_command(name))
        },
    )
}

/// A restricted, unprivileged pod that both serves a marker and probes others.
pub fn create_network_multitool_pod(name: &str) -> (r: Pod)
    ensures
        r@ == multitool_pod(name@),
{
    ProbePod::new(name)
        .container("multitool")
        .image("praqma/network-multitool")
        .label("app", "network-multitool")
        .restricted()
        .port(WEBSERVER_PORT)
        .shell(&unprivileged_http_server_command(name))
        .restart_on_failure_default()
        .build()
}

/// A pod that runs once and asks whether an address answers, but for its script.
pub open spec fn reach_probe(name: Seq<char>) -> PodView {
    with_container(
        restricted_pod(name),
        ContainerView {
            command: seq![],
            ..restricted_container("reach-probe"@, Seq::empty())
        },
    )
}

/// A one-shot pod that asks `address` for the marker and says what came back.
pub open spec fn reachability_pod(name: Seq<char>, address: Seq<char>) -> PodView {
    with_container(
        restricted_pod(name),
        restricted_container(
            "reach-probe"@,
            reach_script_head() + address + reach_script_tail(),
        ),
    )
}

/// A one-shot pod that asks `address` for the marker and says what came back.
pub fn create_reachability_probe_pod(name: &str, address: &str) -> (r: Pod)
    ensures
        r@ == reachability_pod(name@, address@),
{
    let script = joined3(reach_head(), address, reach_tail());
    ProbePod::new(name)
        .container("reach-probe")
        .image("praqma/network-multitool")
        .restricted()
        .shell(&script)
        .build()
}

/// The reachability probe for an address that is not known yet.
fn reachability_probe(name: &str) -> (r: AddressProbe)
    ensures
        r.pod@ == reach_probe(name@),
        r.before@ == reach_script_head(),
        r.after@ == reach_script_tail(),
{
    let pod = ProbePod::new(name)
        .container("reach-probe")
        .image("praqma/network-multitool")
        .restricted()
        .build();
    AddressProbe { pod, before: string_from(reach_head()), after: string_from(reach_tail()) }
}

/// A one-shot pod that resolves `fqdn` and reports what the server said.
pub open spec fn dns_pod(name: Seq<char>, fqdn: Seq<char>) -> PodView {
    with_container(
        restricted_pod(name),
        restricted_container("dns-probe"@, dns_script_head() + fqdn + dns_script_tail()),
    )
}

/// A one-shot pod that resolves `fqdn` and reports what the server said.
pub fn create_dns_probe_pod(name: &str, fqdn: &str) -> (r: Pod)
    ensures
        r@ == dns_pod(name@, fqdn@),
{
    let script = joined3(dns_head(), fqdn, dns_tail());
    ProbePod::new(name)
        .container("dns-probe")
        .image("praqma/network-multitool")
        .restricted()
        .shell(&script)
        .build()
}

/// Serves a marker behind a service on a node port.
pub open spec fn nodeport_marker_pod(name: Seq<char>, marker: Seq<char>) -> PodView {
    with_container(
        PodView {
            labels: seq![].push(("app"@, "nodeport-marker"@)),
            ..restricted_pod(name)
        },
        ContainerView {
            ports: seq![].push(
                ContainerPort { container_port: 8080, tcp: true, host_port: None },
            ),
            ..restricted_container("marker-server"@, server_command(marker))
        },
    )
}

/// Serves a marker behind a service on a node port. The pod needs no privilege:
/// it is the service that a confined tenant should be unable to create.
pub fn create_nodeport_marker_pod(name: &str, marker: &str) -> (r: Pod)
    ensures
        r@ == nodeport_marker_pod(name@, marker@),
{
    ProbePod::new(name)
        .container("marker-server")
        .image("praqma/network-multitool")
        .label("app", "nodeport-marker")
        .restricted()
        .port_tcp(WEBSERVER_PORT)
        .shell(&unprivileged_http_server_command(marker))
        .build()
}

/// A pod on the node's network that waits.
pub open spec fn host_network_pod(name: Seq<char>) -> PodView {
    with_container(
        PodView {
            labels: seq![].push(("app"@, "host-network-test"@)),
            host_network: Some(true),
            ..plain_pod(name)
        },
        ContainerView {
            image: "praqma/network-multitool"@,
            command: seq!["sh"@, "-c"@, "sleep 3600"@],
            ..plain_container()
        },
    )
}

/// A pod on the node's network. Its refusal on a confined tenant is the finding.
pub fn create_host_network_pod(name: &str) -> (r: Pod)
    ensures
        r@ == host_network_pod(name@),
{
    ProbePod::new(name)
        .image("praqma/network-multitool")
        .label("app", "host-network-test")
        .requests(HostAccess::Network)
        .shell("sleep 3600")
        .build()
}

/// Serves `marker` on `port` with the image's own web server.
pub open spec fn node_marker_command(marker: Seq<char>, port: int) -> Seq<char> {
    "echo '"@ + marker
        + "' > /usr/share/nginx/html/index.html && sed -i 's/listen.*80/listen "@
        + integer_text(port) + "/g' /etc/nginx/nginx.conf && nginx -g 'daemon off;'"@
}

/// A pod on the node's network that serves a marker on a port of the node.
pub open spec fn node_marker_pod(name: Seq<char>, marker: Seq<char>, port: i32) -> PodView {
    with_container(
        PodView {
            labels: seq![].push(("app"@, "node-marker-service"@)),
            host_network: Some(true),
            ..plain_pod(name)
        },
        ContainerView {
            name: "marker-server"@,
            image: "praqma/network-multitool"@,
            command: seq!["sh"@, "-c"@, node_marker_command(marker, port as int)],
            ports: seq![].push(
                ContainerPort { container_port: port, tcp: true, host_port: Some(port) },
            ),
            ..plain_container()
        },
    )
}

/// A pod on the node's network that serves a marker on a port of the node: the
/// marker must be reachable from another tenant by the node's address, which is
/// what should be isolated.
pub fn create_node_marker_pod(name: &str, marker: &str, port: i32) -> (r: Pod)
    ensures
        r@ == node_marker_pod(name@, marker@, port),
{
    let serve = joined5(
        "echo '",
        marker,
        "' > /usr/share/nginx/html/index.html && sed -i 's/listen.*80/listen ",
        &integer_of(port),
        "/g' /etc/nginx/nginx.conf && nginx -g 'daemon off;'",
    );
    ProbePod::new(name)
        .container("marker-server")
        .image("praqma/network-multitool")
        .label("app", "node-marker-service")
        .requests(HostAccess::Network)
        .host_port(port)
        .shell(&serve)
        .build()
}

// ---- Services --------------------------------------------------------------

/// The service in front of the web server.
pub open spec fn create_webserver_service_view(namespace: Seq<char>) -> ServiceView {
    ServiceView {
        name: "webserver-service"@,
        manifest: empty_object()
            .with("apiVersion"@, JsonView::Text("v1"@))
            .with("kind"@, JsonView::Text("Service"@))
            .with(
                "metadata"@,
                empty_object()
                    .with("name"@, JsonView::Text("webserver-service"@))
                    .with("namespace"@, JsonView::Text(namespace)),
            )
            .with(
                "spec"@,
                empty_object()
                    .with(
                        "selector"@,
                        empty_object()
                            .with("app"@, JsonView::Text("network-multitool"@)),
                    )
                    .with(
                        "ports"@,
                        empty_array().item(
                            empty_object()
                                .with("protocol"@, JsonView::Text("TCP"@))
                                .with("port"@, JsonView::Number(8080))
                                .with("targetPort"@, JsonView::Number(8080)),
                        ),
                    )
                    .with("type"@, JsonView::Text("ClusterIP"@)),
            ),
    }
}

/// The service in front of the web server.
pub fn create_webserver_service(namespace: &str) -> (r: Service)
    ensures
        r@ == create_webserver_service_view(namespace@),
{
    Service {
        name: string_from("webserver-service"),
        manifest: Json::object()
            .with("apiVersion", Json::text("v1"))
            .with("kind", Json::text("Service"))
            .with(
                "metadata",
                Json::object()
                    .with("name", Json::text("webserver-service"))
                    .with("namespace", Json::text(namespace)),
            )
            .with(
                "spec",
                Json::object()
                    .with(
                        "selector",
                        Json::object()
                            .with("app", Json::text("network-multitool")),
                    )
                    .with(
                        "ports",
                        Json::array().item(
                            Json::object()
                                .with("protocol", Json::text("TCP"))
                                .with("port", Json::Number(8080))
                                .with("targetPort", Json::Number(8080)),
                        ),
                    )
                    .with("type", Json::text("ClusterIP")),
            ),
    }
}

/// A service that only has to be created.
pub open spec fn create_clusterip_service_view(
    namespace: Seq<char>,
    name: Seq<char>,
) -> ServiceView {
    ServiceView {
        name: name,
        manifest: empty_object()
            .with("apiVersion"@, JsonView::Text("v1"@))
            .with("kind"@, JsonView::Text("Service"@))
            .with(
                "metadata"@,
                empty_object()
                    .with("name"@, JsonView::Text(name))
                    .with("namespace"@, JsonView::Text(namespace)),
            )
            .with(
                "spec"@,
                empty_object()
                    .with(
                        "selector"@,
                        empty_object()
                            .with("app"@, JsonView::Text("test-app"@)),
                    )
                    .with(
                        "ports"@,
                        empty_array().item(
                            empty_object()
                                .with("protocol"@, JsonView::Text("TCP"@))
                                .with("port"@, JsonView::Number(8080))
                                .with("targetPort"@, JsonView::Number(8080)),
                        ),
                    )
                    .with("type"@, JsonView::Text("ClusterIP"@)),
            ),
    }
}

/// A service that only has to be created.
pub fn create_clusterip_service(namespace: &str, name: &str) -> (r: Service)
    ensures
        r@ == create_clusterip_service_view(namespace@, name@),
{
    Service {
        name: string_from(name),
        manifest: Json::object()
            .with("apiVersion", Json::text("v1"))
            .with("kind", Json::text("Service"))
            .with(
                "metadata",
                Json::object()
                    .with("name", Json::text(name))
                    .with("namespace", Json::text(namespace)),
            )
            .with(
                "spec",
                Json::object()
                    .with(
                        "selector",
                        Json::object()
                            .with("app", Json::text("test-app")),
                    )
                    .with(
                        "ports",
                        Json::array().item(
                            Json::object()
                                .with("protocol", Json::text("TCP"))
                                .with("port", Json::Number(8080))
                                .with("targetPort", Json::Number(8080)),
                        ),
                    )
                    .with("type", Json::text("ClusterIP")),
            ),
    }
}

/// A service on a node port that the cluster picks: it only matters whether one can
/// be created at all.
pub open spec fn create_nodeport_service_auto_port_view(
    namespace: Seq<char>,
    name: Seq<char>,
) -> ServiceView {
    ServiceView {
        name: name,
        manifest: empty_object()
            .with("apiVersion"@, JsonView::Text("v1"@))
            .with("kind"@, JsonView::Text("Service"@))
            .with(
                "metadata"@,
                empty_object()
                    .with("name"@, JsonView::Text(name))
                    .with("namespace"@, JsonView::Text(namespace))
                    .with(
                        "labels"@,
                        empty_object()
                            .with("test"@, JsonView::Text("network-authorization"@)),
                    ),
            )
            .with(
                "spec"@,
                empty_object()
                    .with(
                        "selector"@,
                        empty_object()
                            .with("app"@, JsonView::Text("auth-test"@)),
                    )
                    .with(
                        "ports"@,
                        empty_array().item(
                            empty_object()
                                .with("name"@, JsonView::Text("http"@))
                                .with("protocol"@, JsonView::Text("TCP"@))
                                .with("port"@, JsonView::Number(8080))
                                .with("targetPort"@, JsonView::Number(8080)),
                        ),
                    )
                    .with("type"@, JsonView::Text("NodePort"@)),
            ),
    }
}

/// A service on a node port that the cluster picks: it only matters whether one can
/// be created at all.
pub fn create_nodeport_service_auto_port(namespace: &str, name: &str) -> (r: Service)
    ensures
        r@ == create_nodeport_service_auto_port_view(namespace@, name@),
{
    Service {
        name: string_from(name),
        manifest: Json::object()
            .with("apiVersion", Json::text("v1"))
            .with("kind", Json::text("Service"))
            .with(
                "metadata",
                Json::object()
                    .with("name", Json::text(name))
                    .with("namespace", Json::text(namespace))
                    .with(
                        "labels",
                        Json::object()
                            .with("test", Json::text("network-authorization")),
                    ),
            )
            .with(
                "spec",
                Json::object()
                    .with(
                        "selector",
                        Json::object()
                            .with("app", Json::text("auth-test")),
                    )
                    .with(
                        "ports",
                        Json::array().item(
                            Json::object()
                                .with("name", Json::text("http"))
                                .with("protocol", Json::text("TCP"))
                                .with("port", Json::Number(8080))
                                .with("targetPort", Json::Number(8080)),
                        ),
                    )
                    .with("type", Json::text("NodePort")),
            ),
    }
}

/// A service on a given node port in front of the pods with the given label.
pub open spec fn create_nodeport_service_with_selector_view(
    namespace: Seq<char>,
    name: Seq<char>,
    node_port: int,
    app_selector: Seq<char>,
) -> ServiceView {
    ServiceView {
        name: name,
        manifest: empty_object()
            .with("apiVersion"@, JsonView::Text("v1"@))
            .with("kind"@, JsonView::Text("Service"@))
            .with(
                "metadata"@,
                empty_object()
                    .with("name"@, JsonView::Text(name))
                    .with("namespace"@, JsonView::Text(namespace))
                    .with(
                        "labels"@,
                        empty_object()
                            .with("test"@, JsonView::Text("network-isolation"@)),
                    ),
            )
            .with(
                "spec"@,
                empty_object()
                    .with(
                        "selector"@,
                        empty_object()
                            .with("app"@, JsonView::Text(app_selector)),
                    )
                    .with(
                        "ports"@,
                        empty_array().item(
                            empty_object()
                                .with("name"@, JsonView::Text("http"@))
                                .with("protocol"@, JsonView::Text("TCP"@))
                                .with("port"@, JsonView::Number(8080))
                                .with("targetPort"@, JsonView::Number(8080))
                                .with("nodePort"@, JsonView::Number(node_port)),
                        ),
                    )
                    .with("type"@, JsonView::Text("NodePort"@)),
            ),
    }
}

/// A service on a given node port in front of the pods with the given label.
pub fn create_nodeport_service_with_selector(
    namespace: &str,
    name: &str,
    node_port: i32,
    app_selector: &str,
) -> (r: Service)
    ensures
        r@ == create_nodeport_service_with_selector_view(
            namespace@,
            name@,
            node_port as int,
            app_selector@,
        ),
{
    Service {
        name: string_from(name),
        manifest: Json::object()
            .with("apiVersion", Json::text("v1"))
            .with("kind", Json::text("Service"))
            .with(
                "metadata",
                Json::object()
                    .with("name", Json::text(name))
                    .with("namespace", Json::text(namespace))
                    .with(
                        "labels",
                        Json::object()
                            .with("test", Json::text("network-isolation")),
                    ),
            )
            .with(
                "spec",
                Json::object()
                    .with(
                        "selector",
                        Json::object()
                            .with("app", Json::text(app_selector)),
                    )
                    .with(
                        "ports",
                        Json::array().item(
                            Json::object()
                                .with("name", Json::text("http"))
                                .with("protocol", Json::text("TCP"))
                                .with("port", Json::Number(8080))
                                .with("targetPort", Json::Number(8080))
                                .with("nodePort", Json::Number(node_port as i128)),
                        ),
                    )
                    .with("type", Json::text("NodePort")),
            ),
    }
}

// ---- Experiments -----------------------------------------------------------

/// The line by which the target says that it serves.
pub open spec fn serving_line(marker: Seq<char>) -> Seq<char> {
    "SERVING "@ + marker
}

/// The victim serves a marker and the intruder asks the pod's address for it.
pub open spec fn pod_reachability() -> BreachView {
    BreachView {
        what: "pod-to-pod reachability"@,
        target: multitool_pod("network-multitool"@),
        target_service: None,
        secret: SecretView::ConfirmedBy(serving_line("network-multitool"@)),
        intruder: IntruderView::AtTargetAddress {
            pod: reach_probe("network-reach-probe"@),
            before: reach_script_head(),
            after: reach_script_tail(),
        },
        breach: ConditionView::Decided(Classifier::PodReachability),
    }
}

/// The victim serves a marker and the intruder asks the pod's address for it.
pub fn pod_reachability_experiment() -> (r: BreachExperiment)
    ensures
        r@ == pod_reachability(),
{
    BreachExperiment {
        what: "pod-to-pod reachability",
        target: create_network_multitool_pod("network-multitool"),
        target_service: None,
        secret: Secret::ConfirmedBy(joined("SERVING ", "network-multitool")),
        intruder: Intruder::AtTargetAddress(reachability_probe("network-reach-probe")),
        breach: BreachCondition::Decided(Classifier::PodReachability),
    }
}

/// The same probe aimed one layer up: at the service in front of the pod.
pub open spec fn service_reachability(victim_namespace: Seq<char>) -> BreachView {
    BreachView {
        what: "service reachability"@,
        target: multitool_pod("network-multitool"@),
        target_service: Some(create_webserver_service_view(victim_namespace)),
        secret: SecretView::ConfirmedBy(serving_line("network-multitool"@)),
        intruder: IntruderView::AtTargetAddress {
            pod: reach_probe("service-reach-probe"@),
            before: reach_script_head(),
            after: reach_script_tail(),
        },
        breach: ConditionView::Decided(Classifier::ServiceReachability),
    }
}

/// The victim serves a marker behind a service and the intruder asks the
/// service's address for it.
pub fn service_reachability_experiment(victim_namespace: &str) -> (r: BreachExperiment)
    ensures
        r@ == service_reachability(victim_namespace@),
{
    BreachExperiment {
        what: "service reachability",
        target: create_network_multitool_pod("network-multitool"),
        target_service: Some(create_webserver_service(victim_namespace)),
        secret: Secret::ConfirmedBy(joined("SERVING ", "network-multitool")),
        intruder: Intruder::AtTargetAddress(reachability_probe("service-reach-probe")),
        breach: BreachCondition::Decided(Classifier::ServiceReachability),
    }
}

/// The name under which the cluster's DNS knows the victim's service.
pub open spec fn service_fqdn(victim_namespace: Seq<char>) -> Seq<char> {
    "webserver-service"@ + "."@ + victim_namespace + ".svc.cluster.local"@
}

/// The intruder resolves the name of the victim's service.
pub open spec fn dns_resolution(victim_namespace: Seq<char>) -> BreachView {
    BreachView {
        what: "cross-tenant DNS resolution"@,
        target: multitool_pod("network-multitool"@),
        target_service: Some(create_webserver_service_view(victim_namespace)),
        secret: SecretView::ConfirmedBy(serving_line("network-multitool"@)),
        intruder: IntruderView::Anywhere(
            dns_pod("dns-probe"@, service_fqdn(victim_namespace)),
        ),
        breach: ConditionView::Decided(Classifier::DnsResolution),
    }
}

/// The intruder resolves the name of the victim's service. It needs nothing of
/// the target's placement: it guesses the name.
pub fn dns_resolution_experiment(victim_namespace: &str) -> (r: BreachExperiment)
    ensures
        r@ == dns_resolution(victim_namespace@),
{
    let fqdn = joined4("webserver-service", ".", victim_namespace, ".svc.cluster.local");
    BreachExperiment {
        what: "cross-tenant DNS resolution",
        target: create_network_multitool_pod("network-multitool"),
        target_service: Some(create_webserver_service(victim_namespace)),
        secret: Secret::ConfirmedBy(joined("SERVING ", "network-multitool")),
        intruder: Intruder::Anywhere(create_dns_probe_pod("dns-probe", &fqdn)),
        breach: BreachCondition::Decided(Classifier::DnsResolution),
    }
}

/// An intruder that is aimed at an address is the reachability probe for that
/// address.
pub proof fn the_reachability_intruder_asks_the_target(planted: crate::breach::PlantedView)
    ensures
        crate::breach::built(pod_reachability().intruder, planted) == Some(
            reachability_pod("network-reach-probe"@, planted.address),
        ),
{
    let pod = crate::breach::built(pod_reachability().intruder, planted)->0;
    assert(pod.containers =~= reachability_pod("network-reach-probe"@, planted.address).containers);
}

}
