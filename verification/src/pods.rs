//! Pods: the ones the probes ask for, and what became of them.

use crate::control_plane::experiment::{pair_views, text_view};
use crate::text::{joined3, string_from, texts};
use vstd::prelude::*;
use vstd::string::*;

verus! {

/// A port that a container opens.
#[derive(Debug, Clone, Copy, PartialEq, Eq, Structural)]
pub struct ContainerPort {
    pub container_port: i32,
    /// Whether the protocol is named; it is TCP.
    pub tcp: bool,
    pub host_port: Option<i32>,
}

/// A container that a pod asks for.
#[derive(Debug)]
pub struct Container {
    pub name: String,
    pub image: String,
    pub command: Vec<String>,
    pub ports: Vec<ContainerPort>,
    pub privileged: Option<bool>,
    pub allow_privilege_escalation: Option<bool>,
    pub dropped_capabilities: Vec<String>,
}

/// What a container asks for.
pub struct ContainerView {
    pub name: Seq<char>,
    pub image: Seq<char>,
    pub command: Seq<Seq<char>>,
    pub ports: Seq<ContainerPort>,
    pub privileged: Option<bool>,
    pub allow_privilege_escalation: Option<bool>,
    pub dropped_capabilities: Seq<Seq<char>>,
}

impl View for Container {
    type V = ContainerView;

    open spec fn view(&self) -> ContainerView {
        ContainerView {
            name: self.name@,
            image: self.image@,
            command: texts(self.command@),
            ports: self.ports@,
            privileged: self.privileged,
            allow_privilege_escalation: self.allow_privilege_escalation,
            dropped_capabilities: texts(self.dropped_capabilities@),
        }
    }
}

/// A pod to be created.
#[derive(Debug)]
pub struct Pod {
    pub name: String,
    pub labels: Vec<(String, String)>,
    pub node_name: Option<String>,
    pub host_pid: Option<bool>,
    pub host_ipc: Option<bool>,
    pub host_network: Option<bool>,
    pub host_users: Option<bool>,
    pub run_as_non_root: Option<bool>,
    pub run_as_user: Option<i64>,
    pub seccomp_profile: Option<String>,
    pub restart_policy: Option<String>,
    pub containers: Vec<Container>,
}

/// What a pod asks for.
pub struct PodView {
    pub name: Seq<char>,
    pub labels: Seq<(Seq<char>, Seq<char>)>,
    pub node_name: Option<Seq<char>>,
    pub host_pid: Option<bool>,
    pub host_ipc: Option<bool>,
    pub host_network: Option<bool>,
    pub host_users: Option<bool>,
    pub run_as_non_root: Option<bool>,
    pub run_as_user: Option<i64>,
    pub seccomp_profile: Option<Seq<char>>,
    pub restart_policy: Option<Seq<char>>,
    pub containers: Seq<ContainerView>,
}

/// What the containers of a pod ask for.
pub open spec fn container_views(containers: Seq<Container>) -> Seq<ContainerView> {
    Seq::new(containers.len(), |i: int| containers[i]@)
}

impl View for Pod {
    type V = PodView;

    open spec fn view(&self) -> PodView {
        PodView {
            name: self.name@,
            labels: pair_views(self.labels@),
            node_name: text_view(self.node_name),
            host_pid: self.host_pid,
            host_ipc: self.host_ipc,
            host_network: self.host_network,
            host_users: self.host_users,
            run_as_non_root: self.run_as_non_root,
            run_as_user: self.run_as_user,
            seccomp_profile: text_view(self.seccomp_profile),
            restart_policy: text_view(self.restart_policy),
            containers: container_views(self.containers@),
        }
    }
}

/// The same strings once more.
pub fn copy_texts(list: &Vec<String>) -> (r: Vec<String>)
    ensures
        texts(r@) == texts(list@),
{
    let mut out: Vec<String> = Vec::new();
    let mut i: usize = 0;
    while i < list.len()
        invariant
            i <= list.len(),
            out.len() == i,
            forall|k: int| 0 <= k < i ==> (#[trigger] out[k])@ == list[k]@,
        decreases list.len() - i,
    {
        out.push(list[i].clone());
        i += 1;
    }
    assert(texts(out@) =~= texts(list@));
    out
}

/// The same named values once more.
pub fn copy_pairs(list: &Vec<(String, String)>) -> (r: Vec<(String, String)>)
    ensures
        pair_views(r@) == pair_views(list@),
{
    let mut out: Vec<(String, String)> = Vec::new();
    let mut i: usize = 0;
    while i < list.len()
        invariant
            i <= list.len(),
            out.len() == i,
            forall|k: int|
                0 <= k < i ==> (#[trigger] out[k]).0@ == list[k].0@ && out[k].1@ == list[k].1@,
        decreases list.len() - i,
    {
        out.push((list[i].0.clone(), list[i].1.clone()));
        i += 1;
    }
    assert(pair_views(out@) =~= pair_views(list@));
    out
}

/// The same optional text once more.
pub fn copy_text(text: &Option<String>) -> (r: Option<String>)
    ensures
        text_view(r) == text_view(*text),
{
    match text {
        Some(s) => Some(s.clone()),
        None => None,
    }
}

impl Clone for Container {
    fn clone(&self) -> (r: Container)
        ensures
            r@ == self@,
    {
        let mut ports: Vec<ContainerPort> = Vec::new();
        let mut i: usize = 0;
        while i < self.ports.len()
            invariant
                i <= self.ports.len(),
                ports@ == self.ports@.take(i as int),
            decreases self.ports.len() - i,
        {
            ports.push(self.ports[i]);
            assert(self.ports@.take(i + 1) =~= self.ports@.take(i as int).push(self.ports@[i as int]));
            i += 1;
        }
        assert(self.ports@.take(self.ports.len() as int) =~= self.ports@);
        Container {
            name: self.name.clone(),
            image: self.image.clone(),
            command: copy_texts(&self.command),
            ports,
            privileged: self.privileged,
            allow_privilege_escalation: self.allow_privilege_escalation,
            dropped_capabilities: copy_texts(&self.dropped_capabilities),
        }
    }
}

impl Clone for Pod {
    fn clone(&self) -> (r: Pod)
        ensures
            r@ == self@,
    {
        let mut containers: Vec<Container> = Vec::new();
        let mut i: usize = 0;
        while i < self.containers.len()
            invariant
                i <= self.containers.len(),
                containers.len() == i,
                forall|k: int| 0 <= k < i ==> (#[trigger] containers[k])@ == self.containers[k]@,
            decreases self.containers.len() - i,
        {
            containers.push(self.containers[i].clone());
            i += 1;
        }
        assert(container_views(containers@) =~= container_views(self.containers@));
        Pod {
            name: self.name.clone(),
            labels: copy_pairs(&self.labels),
            node_name: copy_text(&self.node_name),
            host_pid: self.host_pid,
            host_ipc: self.host_ipc,
            host_network: self.host_network,
            host_users: self.host_users,
            run_as_non_root: self.run_as_non_root,
            run_as_user: self.run_as_user,
            seccomp_profile: copy_text(&self.seccomp_profile),
            restart_policy: copy_text(&self.restart_policy),
            containers,
        }
    }
}

/// What a probe asks of the node beyond what every pod has.
#[derive(Debug, Clone, Copy, PartialEq, Eq, Structural)]
pub enum HostAccess {
    Privileged,
    Pid,
    Ipc,
    Network,
    Users,
}

/// Puts together the pod of a probe: one container, run once unless it is asked
/// to be restarted.
#[derive(Debug)]
pub struct ProbePod {
    pod: Pod,
    container: Container,
}

/// A container that runs its image as it is.
pub open spec fn plain_container() -> ContainerView {
    ContainerView {
        name: "probe"@,
        image: "busybox"@,
        command: seq![],
        ports: seq![],
        privileged: None,
        allow_privilege_escalation: None,
        dropped_capabilities: seq![],
    }
}

/// A pod that asks for nothing special and is not restarted.
pub open spec fn plain_pod(name: Seq<char>) -> PodView {
    PodView {
        name,
        labels: seq![],
        node_name: None,
        host_pid: None,
        host_ipc: None,
        host_network: None,
        host_users: None,
        run_as_non_root: None,
        run_as_user: None,
        seccomp_profile: None,
        restart_policy: Some("Never"@),
        containers: seq![],
    }
}

impl ProbePod {
    /// The pod so far, but for its container.
    pub closed spec fn pod_so_far(self) -> PodView {
        self.pod@
    }

    /// The container so far.
    pub closed spec fn container_so_far(self) -> ContainerView {
        self.container@
    }

    /// A probe called `name` with nothing special about it.
    pub fn new(name: &str) -> (r: ProbePod)
        ensures
            r.pod_so_far() == plain_pod(name@),
            r.container_so_far() == plain_container(),
    {
        let labels: Vec<(String, String)> = Vec::new();
        let containers: Vec<Container> = Vec::new();
        let command: Vec<String> = Vec::new();
        let ports: Vec<ContainerPort> = Vec::new();
        let dropped_capabilities: Vec<String> = Vec::new();
        assert(pair_views(labels@) =~= seq![]);
        assert(container_views(containers@) =~= seq![]);
        assert(texts(command@) =~= seq![]);
        assert(ports@ =~= seq![]);
        ProbePod {
            pod: Pod {
                name: string_from(name),
                labels,
                node_name: None,
                host_pid: None,
                host_ipc: None,
                host_network: None,
                host_users: None,
                run_as_non_root: None,
                run_as_user: None,
                seccomp_profile: None,
                restart_policy: Some(string_from("Never")),
                containers,
            },
            container: Container {
                name: string_from("probe"),
                image: string_from("busybox"),
                command,
                ports,
                privileged: None,
                allow_privilege_escalation: None,
                dropped_capabilities,
            },
        }
    }

    /// Names the container.
    pub fn container(self, name: &str) -> (r: ProbePod)
        ensures
            r.pod_so_far() == self.pod_so_far(),
            r.container_so_far() == (ContainerView { name: name@, ..self.container_so_far() }),
    {
        let mut probe = self;
        probe.container.name = string_from(name);
        probe
    }

    /// Picks the image.
    pub fn image(self, image: &str) -> (r: ProbePod)
        ensures
            r.pod_so_far() == self.pod_so_far(),
            r.container_so_far() == (ContainerView { image: image@, ..self.container_so_far() }),
    {
        let mut probe = self;
        probe.container.image = string_from(image);
        probe
    }

    /// Adds a label.
    pub fn label(self, key: &str, value: &str) -> (r: ProbePod)
        ensures
            r.container_so_far() == self.container_so_far(),
            r.pod_so_far() == (PodView {
                labels: self.pod_so_far().labels.push((key@, value@)),
                ..self.pod_so_far()
            }),
    {
        let mut probe = self;
        let ghost before = pair_views(probe.pod.labels@);
        probe.pod.labels.push((string_from(key), string_from(value)));
        assert(pair_views(probe.pod.labels@) =~= before.push((key@, value@)));
        probe
    }

    /// Pins the pod to a node.
    pub fn on_node(self, node: &str) -> (r: ProbePod)
        ensures
            r.container_so_far() == self.container_so_far(),
            r.pod_so_far() == (PodView { node_name: Some(node@), ..self.pod_so_far() }),
    {
        let mut probe = self;
        probe.pod.node_name = Some(string_from(node));
        probe
    }

    /// Makes the pod acceptable to a tenant that admits only restricted pods:
    /// no root, no escalation, no capability, the runtime's default filter of
    /// system calls.
    pub fn restricted(self) -> (r: ProbePod)
        ensures
            r.pod_so_far() == (PodView {
                run_as_non_root: Some(true),
                run_as_user: Some(1000i64),
                seccomp_profile: Some("RuntimeDefault"@),
                ..self.pod_so_far()
            }),
            r.container_so_far() == (ContainerView {
                allow_privilege_escalation: Some(false),
                dropped_capabilities: seq!["ALL"@],
                ..self.container_so_far()
            }),
    {
        let mut probe = self;
        probe.pod.run_as_non_root = Some(true);
        probe.pod.run_as_user = Some(1000);
        probe.pod.seccomp_profile = Some(string_from("RuntimeDefault"));
        probe.container.allow_privilege_escalation = Some(false);
        let dropped = vec![string_from("ALL")];
        assert(texts(dropped@) =~= seq!["ALL"@]);
        probe.container.dropped_capabilities = dropped;
        probe
    }

    /// Asks for access to the node.
    pub fn requests(self, access: HostAccess) -> (r: ProbePod)
        ensures
            r.pod_so_far() == match access {
                HostAccess::Privileged => self.pod_so_far(),
                HostAccess::Pid => PodView { host_pid: Some(true), ..self.pod_so_far() },
                HostAccess::Ipc => PodView { host_ipc: Some(true), ..self.pod_so_far() },
                HostAccess::Network => PodView { host_network: Some(true), ..self.pod_so_far() },
                HostAccess::Users => PodView { host_users: Some(true), ..self.pod_so_far() },
            },
            r.container_so_far() == if access is Privileged {
                ContainerView { privileged: Some(true), ..self.container_so_far() }
            } else {
                self.container_so_far()
            },
    {
        let mut probe = self;
        match access {
            HostAccess::Privileged => {
                probe.container.privileged = Some(true);
            },
            HostAccess::Pid => {
                probe.pod.host_pid = Some(true);
            },
            HostAccess::Ipc => {
                probe.pod.host_ipc = Some(true);
            },
            HostAccess::Network => {
                probe.pod.host_network = Some(true);
            },
            HostAccess::Users => {
                probe.pod.host_users = Some(true);
            },
        }
        probe
    }

    /// Opens a port as given.
    fn open_port(self, port: ContainerPort) -> (r: ProbePod)
        ensures
            r.pod_so_far() == self.pod_so_far(),
            r.container_so_far() == (ContainerView {
                ports: self.container_so_far().ports.push(port),
                ..self.container_so_far()
            }),
    {
        let mut probe = self;
        probe.container.ports.push(port);
        probe
    }

    /// Opens a port.
    pub fn port(self, port: i32) -> (r: ProbePod)
        ensures
            r.pod_so_far() == self.pod_so_far(),
            r.container_so_far() == (ContainerView {
                ports: self.container_so_far().ports.push(
                    ContainerPort { container_port: port, tcp: false, host_port: None },
                ),
                ..self.container_so_far()
            }),
    {
        self.open_port(ContainerPort { container_port: port, tcp: false, host_port: None })
    }

    /// Opens a port and names its protocol.
    pub fn port_tcp(self, port: i32) -> (r: ProbePod)
        ensures
            r.pod_so_far() == self.pod_so_far(),
            r.container_so_far() == (ContainerView {
                ports: self.container_so_far().ports.push(
                    ContainerPort { container_port: port, tcp: true, host_port: None },
                ),
                ..self.container_so_far()
            }),
    {
        self.open_port(ContainerPort { container_port: port, tcp: true, host_port: None })
    }

    /// Opens a port on the node as well.
    pub fn host_port(self, port: i32) -> (r: ProbePod)
        ensures
            r.pod_so_far() == self.pod_so_far(),
            r.container_so_far() == (ContainerView {
                ports: self.container_so_far().ports.push(
                    ContainerPort { container_port: port, tcp: true, host_port: Some(port) },
                ),
                ..self.container_so_far()
            }),
    {
        self.open_port(ContainerPort { container_port: port, tcp: true, host_port: Some(port) })
    }

    /// Runs a shell script.
    pub fn shell(self, script: &str) -> (r: ProbePod)
        ensures
            r.pod_so_far() == self.pod_so_far(),
            r.container_so_far() == (ContainerView {
                command: seq!["sh"@, "-c"@, script@],
                ..self.container_so_far()
            }),
    {
        let mut probe = self;
        let command = vec![string_from("sh"), string_from("-c"), string_from(script)];
        assert(texts(command@) =~= seq!["sh"@, "-c"@, script@]);
        probe.container.command = command;
        probe
    }

    /// Leaves it to the cluster when the pod is restarted.
    pub fn restart_on_failure_default(self) -> (r: ProbePod)
        ensures
            r.container_so_far() == self.container_so_far(),
            r.pod_so_far() == (PodView { restart_policy: None, ..self.pod_so_far() }),
    {
        let mut probe = self;
        probe.pod.restart_policy = None;
        probe
    }

    /// The pod as it was put together.
    pub fn build(self) -> (r: Pod)
        ensures
            r@ == (PodView {
                containers: self.pod_so_far().containers.push(self.container_so_far()),
                ..self.pod_so_far()
            }),
    {
        let mut pod = self.pod;
        let ghost before = container_views(pod.containers@);
        let ghost container = self.container@;
        pod.containers.push(self.container);
        assert(container_views(pod.containers@) =~= before.push(container));
        pod
    }
}

/// The pod asks for privilege or for one of the node's namespaces.
pub open spec fn asks_for_the_host(pod: PodView) -> bool {
    ||| pod.host_pid == Some(true)
    ||| pod.host_ipc == Some(true)
    ||| pod.host_network == Some(true)
    ||| pod.host_users == Some(true)
    ||| exists|i: int|
        0 <= i < pod.containers.len() && (#[trigger] pod.containers[i]).privileged == Some(true)
}

/// Whether the pod asked for privilege or for one of the node's namespaces. A
/// sandbox that turns such a request away works as it should; anything else
/// that fails to start is the probe at fault.
pub fn asks_for_host_privilege(pod: &Pod) -> (r: bool)
    ensures
        r == asks_for_the_host(pod@),
{
    if is_true(pod.host_pid) || is_true(pod.host_ipc) || is_true(pod.host_network) || is_true(
        pod.host_users,
    ) {
        return true;
    }
    let ghost views = container_views(pod.containers@);
    let mut i: usize = 0;
    while i < pod.containers.len()
        invariant
            i <= pod.containers.len(),
            views == container_views(pod.containers@),
            forall|k: int| 0 <= k < i ==> (#[trigger] views[k]).privileged != Some(true),
        decreases pod.containers.len() - i,
    {
        assert(views[i as int] == pod.containers[i as int]@);
        if is_true(pod.containers[i].privileged) {
            assert(pod@.containers[i as int].privileged == Some(true));
            return true;
        }
        i += 1;
    }
    assert(views == pod@.containers);
    false
}

/// The flag is set, and to true.
fn is_true(flag: Option<bool>) -> (r: bool)
    ensures
        r == (flag == Some(true)),
{
    match flag {
        Some(value) => value,
        None => false,
    }
}

// ---- What became of a pod --------------------------------------------------

/// A condition in a pod's status.
#[derive(Debug)]
pub struct PodCondition {
    pub type_: String,
    pub status: String,
    pub reason: Option<String>,
    pub message: Option<String>,
}

/// Why a container is in the state it is in.
#[derive(Debug)]
pub struct StateDetail {
    pub reason: Option<String>,
    pub message: Option<String>,
}

/// The state of one container, as far as it was reported.
#[derive(Debug)]
pub struct ContainerState {
    pub terminated: Option<StateDetail>,
    pub waiting: Option<StateDetail>,
}

/// The status of a pod.
#[derive(Debug)]
pub struct PodStatus {
    pub phase: Option<String>,
    pub conditions: Vec<PodCondition>,
    /// The state of each container; of one that reported none it is missing.
    pub container_states: Vec<Option<ContainerState>>,
    pub pod_ip: Option<String>,
    pub host_ip: Option<String>,
}

/// A pod as the cluster reports it.
#[derive(Debug)]
pub struct LandedPod {
    pub node_name: Option<String>,
    pub status: Option<PodStatus>,
}

/// What a pod's condition says.
pub struct ConditionView {
    pub type_: Seq<char>,
    pub status: Seq<char>,
    pub reason: Option<Seq<char>>,
    pub message: Option<Seq<char>>,
}

/// What a state's detail says.
pub struct DetailView {
    pub reason: Option<Seq<char>>,
    pub message: Option<Seq<char>>,
}

/// What the state of a container says.
pub struct StateView {
    pub terminated: Option<DetailView>,
    pub waiting: Option<DetailView>,
}

/// What the status of a pod says.
pub struct StatusView {
    pub phase: Option<Seq<char>>,
    pub conditions: Seq<ConditionView>,
    pub container_states: Seq<Option<StateView>>,
    pub pod_ip: Option<Seq<char>>,
    pub host_ip: Option<Seq<char>>,
}

/// What the cluster reports of a pod.
pub struct LandedView {
    pub node_name: Option<Seq<char>>,
    pub status: Option<StatusView>,
}

impl View for PodCondition {
    type V = ConditionView;

    open spec fn view(&self) -> ConditionView {
        ConditionView {
            type_: self.type_@,
            status: self.status@,
            reason: text_view(self.reason),
            message: text_view(self.message),
        }
    }
}

impl View for StateDetail {
    type V = DetailView;

    open spec fn view(&self) -> DetailView {
        DetailView { reason: text_view(self.reason), message: text_view(self.message) }
    }
}

/// What an optional detail says.
pub open spec fn detail_view(detail: Option<StateDetail>) -> Option<DetailView> {
    match detail {
        Some(d) => Some(d@),
        None => None,
    }
}

impl View for ContainerState {
    type V = StateView;

    open spec fn view(&self) -> StateView {
        StateView {
            terminated: detail_view(self.terminated),
            waiting: detail_view(self.waiting),
        }
    }
}

/// What an optional state says.
pub open spec fn state_view(state: Option<ContainerState>) -> Option<StateView> {
    match state {
        Some(s) => Some(s@),
        None => None,
    }
}

impl View for PodStatus {
    type V = StatusView;

    open spec fn view(&self) -> StatusView {
        StatusView {
            phase: text_view(self.phase),
            conditions: Seq::new(self.conditions@.len(), |i: int| self.conditions@[i]@),
            container_states: Seq::new(
                self.container_states@.len(),
                |i: int| state_view(self.container_states@[i]),
            ),
            pod_ip: text_view(self.pod_ip),
            host_ip: text_view(self.host_ip),
        }
    }
}

impl View for LandedPod {
    type V = LandedView;

    open spec fn view(&self) -> LandedView {
        LandedView {
            node_name: text_view(self.node_name),
            status: match self.status {
                Some(status) => Some(status@),
                None => None,
            },
        }
    }
}

/// The condition says that the scheduler found no node for the pod.
pub open spec fn is_unscheduled(condition: ConditionView) -> bool {
    condition.type_ == "PodScheduled"@ && condition.status == "False"@
}

/// The first condition that says the scheduler found no node.
pub open spec fn unscheduled(conditions: Seq<ConditionView>) -> Option<ConditionView>
    decreases conditions.len(),
{
    if conditions.len() == 0 {
        None
    } else if is_unscheduled(conditions[0]) {
        Some(conditions[0])
    } else {
        unscheduled(conditions.skip(1))
    }
}

/// What a condition gives as its cause: its message, else its reason.
pub open spec fn cause_of(condition: ConditionView) -> Seq<char> {
    match condition.message {
        Some(message) => message,
        None => match condition.reason {
            Some(reason) => reason,
            None => Seq::empty(),
        },
    }
}

/// Why the pod never got onto a node, if it never did: the scheduler found none
/// for it, or it names a node that never reported a container of it.
pub open spec fn unplaced(pod: LandedView) -> Option<Seq<char>> {
    match pod.status {
        Some(status) => if status.phase != Some("Pending"@) {
            None
        } else {
            match unscheduled(status.conditions) {
                Some(condition) => Some(cause_of(condition)),
                None => match pod.node_name {
                    Some(node) => if status.container_states.len() == 0 {
                        Some("pinned to node "@ + node + ", which never accepted it"@)
                    } else {
                        None
                    },
                    None => None,
                },
            }
        },
        None => None,
    }
}

/// Whether an optional text says `wanted`.
fn says(text: &Option<String>, wanted: &str) -> (r: bool)
    ensures
        r == (text_view(*text) == Some(wanted@)),
{
    match text {
        Some(s) => *s == string_from(wanted),
        None => false,
    }
}

/// Why the pod never got onto a node, if it never did.
pub fn never_placed(pod: &LandedPod) -> (r: Option<String>)
    ensures
        text_view(r) == unplaced(pod@),
{
    let status = match &pod.status {
        Some(status) => status,
        None => {
            return None;
        },
    };
    if !says(&status.phase, "Pending") {
        return None;
    }
    let ghost views = status@.conditions;
    let mut i: usize = 0;
    assert(views.skip(0) =~= views);
    while i < status.conditions.len()
        invariant
            i <= status.conditions.len(),
            views == status@.conditions,
            pod@.status == Some(status@),
            status@.phase == Some("Pending"@),
            unscheduled(views) == unscheduled(views.skip(i as int)),
        decreases status.conditions.len() - i,
    {
        let condition = &status.conditions[i];
        assert(views.skip(i as int)[0] == condition@);
        assert(views.skip(i as int).skip(1) =~= views.skip(i + 1));
        if condition.type_ == string_from("PodScheduled") && condition.status == string_from(
            "False",
        ) {
            return match &condition.message {
                Some(message) => Some(message.clone()),
                None => match &condition.reason {
                    Some(reason) => Some(reason.clone()),
                    None => Some(String::new()),
                },
            };
        }
        i += 1;
    }
    assert(unscheduled(views) is None);
    match &pod.node_name {
        Some(node) => if status.container_states.len() == 0 {
            Some(joined3("pinned to node ", node, ", which never accepted it"))
        } else {
            None
        },
        None => None,
    }
}

/// The reasons by which the runtime says that it would not take a container.
pub open spec fn is_runtime_refusal(reason: Seq<char>) -> bool {
    ||| reason == "CreateContainerError"@
    ||| reason == "RunContainerError"@
    ||| reason == "CreateContainerConfigError"@
}

/// Why a container never started, if it never did: it ended before it ran, or
/// it waits because the runtime would not take it.
pub open spec fn start_failure(state: Option<StateView>) -> Option<Seq<char>> {
    match state {
        Some(StateView { terminated: Some(detail), .. }) if detail.reason == Some(
            "StartError"@,
        ) => Some(
            match detail.message {
                Some(message) => message,
                None => "StartError"@,
            },
        ),
        Some(StateView { waiting: Some(detail), .. }) => match detail.reason {
            Some(reason) => if is_runtime_refusal(reason) {
                Some(
                    match detail.message {
                        Some(message) => reason + ": "@ + message,
                        None => reason,
                    },
                )
            } else {
                None
            },
            None => None,
        },
        _ => None,
    }
}

/// Why the first container that never started did not.
pub open spec fn first_start_failure(states: Seq<Option<StateView>>) -> Option<Seq<char>>
    decreases states.len(),
{
    if states.len() == 0 {
        None
    } else {
        match start_failure(states[0]) {
            Some(why) => Some(why),
            None => first_start_failure(states.skip(1)),
        }
    }
}

/// Why the pod's containers never started, if they never did.
pub open spec fn unstarted(pod: LandedView) -> Option<Seq<char>> {
    match pod.status {
        Some(status) => first_start_failure(status.container_states),
        None => None,
    }
}

/// Why a container never started, if it never did.
fn why_not_started(state: &Option<ContainerState>) -> (r: Option<String>)
    ensures
        text_view(r) == start_failure(state_view(*state)),
{
    let state = match state {
        Some(state) => state,
        None => {
            return None;
        },
    };
    if let Some(detail) = &state.terminated {
        if says(&detail.reason, "StartError") {
            return match &detail.message {
                Some(message) => Some(message.clone()),
                None => Some(string_from("StartError")),
            };
        }
    }
    if let Some(detail) = &state.waiting {
        if says(&detail.reason, "CreateContainerError") || says(
            &detail.reason,
            "RunContainerError",
        ) || says(&detail.reason, "CreateContainerConfigError") {
            if let Some(reason) = &detail.reason {
                return match &detail.message {
                    Some(message) => Some(joined3(reason, ": ", message)),
                    None => Some(reason.clone()),
                };
            }
        }
    }
    None
}

/// Why the pod's containers never started, if they never did. Such a container
/// still answers a request for its log, with an error that quotes its command
/// line, so its log must not be read as its output.
pub fn never_started(pod: &LandedPod) -> (r: Option<String>)
    ensures
        text_view(r) == unstarted(pod@),
{
    let status = match &pod.status {
        Some(status) => status,
        None => {
            return None;
        },
    };
    let ghost views = status@.container_states;
    let mut i: usize = 0;
    assert(views.skip(0) =~= views);
    while i < status.container_states.len()
        invariant
            i <= status.container_states.len(),
            views == status@.container_states,
            pod@.status == Some(status@),
            first_start_failure(views) == first_start_failure(views.skip(i as int)),
        decreases status.container_states.len() - i,
    {
        assert(views.skip(i as int)[0] == state_view(status.container_states[i as int]));
        assert(views.skip(i as int).skip(1) =~= views.skip(i + 1));
        let failure = why_not_started(&status.container_states[i]);
        if failure.is_some() {
            return failure;
        }
        i += 1;
    }
    None
}

}
