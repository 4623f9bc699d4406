//! The vocabulary of an experiment between pods: what it asks of the two
//! clusters, what comes back, and how far it has come.

use crate::control_plane::experiment::{pair_views, text_view};
use crate::json::{Json, JsonView};
use crate::pods::{LandedPod, LandedView, Pod, PodView};
use vstd::prelude::*;
use vstd::string::*;

verus! {

/// The side of an experiment: the victim owns what the intruder tries to reach.
#[derive(Debug, Clone, Copy, PartialEq, Eq, Structural)]
pub enum Side {
    Victim,
    Intruder,
}

/// A service to be created.
#[derive(Debug)]
pub struct Service {
    pub name: String,
    pub manifest: Json,
}

/// What a service to be created says.
pub struct ServiceView {
    pub name: Seq<char>,
    pub manifest: JsonView,
}

impl View for Service {
    type V = ServiceView;

    open spec fn view(&self) -> ServiceView {
        ServiceView { name: self.name@, manifest: self.manifest@ }
    }
}

/// What an experiment asks its caller to do, in the namespace of one side.
#[derive(Debug)]
pub enum ClusterRequest {
    CreatePod { side: Side, pod: Pod },
    /// Creates a pod from its whole manifest.
    CreateManifest { side: Side, manifest: Json },
    AwaitReady { side: Side, name: String },
    GetPod { side: Side, name: String },
    ReadLogs { side: Side, name: String },
    /// Waits until the pod has succeeded or failed.
    AwaitCompletion { side: Side, name: String },
    DeletePod { side: Side, name: String },
    AwaitPodDeletion { side: Side, name: String },
    CreateService { side: Side, manifest: Json },
    /// Asks for the cluster address of a service.
    GetService { side: Side, name: String },
    DeleteService { side: Side, name: String },
    AwaitServiceDeletion { side: Side, name: String },
    ListNodes { side: Side },
    /// Runs a shell command in a pod.
    Exec { side: Side, name: String, command: String },
    /// Waits for so many milliseconds.
    Pause { millis: u64 },
    /// Builds the intruder from what the target turned out to be: where it
    /// landed, how it is reached, what it planted and what it printed.
    BuildIntruder { node: String, address: String, secret: String, logs: String },
}

/// What a request says.
pub enum ClusterRequestView {
    CreatePod { side: Side, pod: PodView },
    CreateManifest { side: Side, manifest: JsonView },
    AwaitReady { side: Side, name: Seq<char> },
    GetPod { side: Side, name: Seq<char> },
    ReadLogs { side: Side, name: Seq<char> },
    AwaitCompletion { side: Side, name: Seq<char> },
    DeletePod { side: Side, name: Seq<char> },
    AwaitPodDeletion { side: Side, name: Seq<char> },
    CreateService { side: Side, manifest: JsonView },
    GetService { side: Side, name: Seq<char> },
    DeleteService { side: Side, name: Seq<char> },
    AwaitServiceDeletion { side: Side, name: Seq<char> },
    ListNodes { side: Side },
    Exec { side: Side, name: Seq<char>, command: Seq<char> },
    Pause { millis: u64 },
    BuildIntruder { node: Seq<char>, address: Seq<char>, secret: Seq<char>, logs: Seq<char> },
}

impl View for ClusterRequest {
    type V = ClusterRequestView;

    open spec fn view(&self) -> ClusterRequestView {
        match *self {
            ClusterRequest::CreatePod { side, pod } => ClusterRequestView::CreatePod {
                side,
                pod: pod@,
            },
            ClusterRequest::CreateManifest { side, manifest } => {
                ClusterRequestView::CreateManifest { side, manifest: manifest@ }
            },
            ClusterRequest::AwaitReady { side, name } => ClusterRequestView::AwaitReady {
                side,
                name: name@,
            },
            ClusterRequest::GetPod { side, name } => ClusterRequestView::GetPod {
                side,
                name: name@,
            },
            ClusterRequest::ReadLogs { side, name } => ClusterRequestView::ReadLogs {
                side,
                name: name@,
            },
            ClusterRequest::AwaitCompletion { side, name } => {
                ClusterRequestView::AwaitCompletion { side, name: name@ }
            },
            ClusterRequest::DeletePod { side, name } => ClusterRequestView::DeletePod {
                side,
                name: name@,
            },
            ClusterRequest::AwaitPodDeletion { side, name } => {
                ClusterRequestView::AwaitPodDeletion { side, name: name@ }
            },
            ClusterRequest::CreateService { side, manifest } => {
                ClusterRequestView::CreateService { side, manifest: manifest@ }
            },
            ClusterRequest::GetService { side, name } => ClusterRequestView::GetService {
                side,
                name: name@,
            },
            ClusterRequest::DeleteService { side, name } => ClusterRequestView::DeleteService {
                side,
                name: name@,
            },
            ClusterRequest::AwaitServiceDeletion { side, name } => {
                ClusterRequestView::AwaitServiceDeletion { side, name: name@ }
            },
            ClusterRequest::ListNodes { side } => ClusterRequestView::ListNodes { side },
            ClusterRequest::Exec { side, name, command } => ClusterRequestView::Exec {
                side,
                name: name@,
                command: command@,
            },
            ClusterRequest::Pause { millis } => ClusterRequestView::Pause { millis },
            ClusterRequest::BuildIntruder { node, address, secret, logs } => {
                ClusterRequestView::BuildIntruder {
                    node: node@,
                    address: address@,
                    secret: secret@,
                    logs: logs@,
                }
            },
        }
    }
}

/// A node as the cluster reports it: its name, and its addresses by type.
#[derive(Debug)]
pub struct NodeFacts {
    pub name: Option<String>,
    pub addresses: Vec<(String, String)>,
}

/// What the cluster reports of a node.
pub struct NodeView {
    pub name: Option<Seq<char>>,
    pub addresses: Seq<(Seq<char>, Seq<char>)>,
}

impl View for NodeFacts {
    type V = NodeView;

    open spec fn view(&self) -> NodeView {
        NodeView { name: text_view(self.name), addresses: pair_views(self.addresses@) }
    }
}

/// What the cluster reports of its nodes.
pub open spec fn node_views(nodes: Seq<NodeFacts>) -> Seq<NodeView> {
    Seq::new(nodes.len(), |i: int| nodes[i]@)
}

/// What came back from a request.
#[derive(Debug)]
pub enum ClusterReply {
    /// It was done, and nothing came back that matters.
    Done,
    /// It failed with this error; where admission refused it, the refusal says
    /// why. `debug` is the whole error as debug output writes it, with what caused
    /// it.
    Failed { error: String, refusal: Option<String>, debug: String },
    /// A pod.
    Landed(LandedPod),
    /// The output of a pod or of a command.
    Output(String),
    /// The cluster address of a service, where it has one.
    Address(Option<String>),
    /// The nodes.
    Nodes(Vec<NodeFacts>),
    /// A pod that was built and is still to be created.
    Built(Pod),
}

/// What a reply says.
pub enum ClusterReplyView {
    Done,
    Failed { error: Seq<char>, refusal: Option<Seq<char>>, debug: Seq<char> },
    Landed(LandedView),
    Output(Seq<char>),
    Address(Option<Seq<char>>),
    Nodes(Seq<NodeView>),
    Built(PodView),
}

impl View for ClusterReply {
    type V = ClusterReplyView;

    open spec fn view(&self) -> ClusterReplyView {
        match *self {
            ClusterReply::Done => ClusterReplyView::Done,
            ClusterReply::Failed { error, refusal, debug } => ClusterReplyView::Failed {
                error: error@,
                refusal: text_view(refusal),
                debug: debug@,
            },
            ClusterReply::Landed(pod) => ClusterReplyView::Landed(pod@),
            ClusterReply::Output(text) => ClusterReplyView::Output(text@),
            ClusterReply::Address(address) => ClusterReplyView::Address(text_view(address)),
            ClusterReply::Nodes(nodes) => ClusterReplyView::Nodes(node_views(nodes@)),
            ClusterReply::Built(pod) => ClusterReplyView::Built(pod@),
        }
    }
}

/// What a log of replies says.
pub open spec fn reply_views(log: Seq<ClusterReply>) -> Seq<ClusterReplyView> {
    Seq::new(log.len(), |i: int| log[i]@)
}

impl ClusterReplyView {
    /// The request failed.
    pub open spec fn failed(self) -> bool {
        self is Failed
    }

    /// The error of a failure, and nothing of any other reply.
    pub open spec fn error(self) -> Seq<char> {
        match self {
            ClusterReplyView::Failed { error, .. } => error,
            _ => Seq::empty(),
        }
    }

    /// The whole error of a failure as debug output writes it, and nothing of any
    /// other reply.
    pub open spec fn debug(self) -> Seq<char> {
        match self {
            ClusterReplyView::Failed { debug, .. } => debug,
            _ => Seq::empty(),
        }
    }

    /// Why admission refused the request, where it did.
    pub open spec fn refusal(self) -> Option<Seq<char>> {
        match self {
            ClusterReplyView::Failed { refusal, .. } => refusal,
            _ => None,
        }
    }

    /// The output that came back, and nothing where none did.
    pub open spec fn output(self) -> Seq<char> {
        match self {
            ClusterReplyView::Output(text) => text,
            _ => Seq::empty(),
        }
    }

    /// The pod that came back.
    pub open spec fn landed(self) -> Option<LandedView> {
        match self {
            ClusterReplyView::Landed(pod) => Some(pod),
            _ => None,
        }
    }

    /// The address of the pod that came back, and nothing where it has none.
    pub open spec fn pod_address(self) -> Seq<char> {
        match self.landed() {
            Some(LandedView { status: Some(status), .. }) => match status.pod_ip {
                Some(ip) => ip,
                None => Seq::empty(),
            },
            _ => Seq::empty(),
        }
    }

    /// The node of the pod that came back, and nothing where it has none.
    pub open spec fn pod_node(self) -> Seq<char> {
        match self.landed() {
            Some(LandedView { node_name: Some(node), .. }) => node,
            _ => Seq::empty(),
        }
    }
}

impl ClusterReply {
    /// Whether the request failed.
    pub fn failed(&self) -> (r: bool)
        ensures
            r == self@.failed(),
    {
        matches!(self, ClusterReply::Failed { .. })
    }

    /// The error of a failure, and nothing of any other reply.
    pub fn error(&self) -> (r: String)
        ensures
            r@ == self@.error(),
    {
        match self {
            ClusterReply::Failed { error, .. } => error.clone(),
            _ => String::new(),
        }
    }

    /// The whole error of a failure as debug output writes it, and nothing of any
    /// other reply.
    pub fn debug(&self) -> (r: String)
        ensures
            r@ == self@.debug(),
    {
        match self {
            ClusterReply::Failed { debug, .. } => debug.clone(),
            _ => String::new(),
        }
    }

    /// Why admission refused the request, where it did.
    pub fn refusal(&self) -> (r: Option<String>)
        ensures
            text_view(r) == self@.refusal(),
    {
        match self {
            ClusterReply::Failed { refusal, .. } => match refusal {
                Some(why) => Some(why.clone()),
                None => None,
            },
            _ => None,
        }
    }

    /// The output that came back, and nothing where none did.
    pub fn output(&self) -> (r: String)
        ensures
            r@ == self@.output(),
    {
        match self {
            ClusterReply::Output(text) => text.clone(),
            _ => String::new(),
        }
    }

    /// The address of the pod that came back, and nothing where it has none.
    pub fn pod_address(&self) -> (r: String)
        ensures
            r@ == self@.pod_address(),
    {
        if let ClusterReply::Landed(pod) = self {
            if let Some(status) = &pod.status {
                if let Some(ip) = &status.pod_ip {
                    return ip.clone();
                }
            }
        }
        String::new()
    }

    /// The node of the pod that came back, and nothing where it has none.
    pub fn pod_node(&self) -> (r: String)
        ensures
            r@ == self@.pod_node(),
    {
        if let ClusterReply::Landed(pod) = self {
            if let Some(node) = &pod.node_name {
                return node.clone();
            }
        }
        String::new()
    }
}

/// How far a part of an experiment has come with the replies so far: it asks for
/// one more, it has what it wanted after so many of them, or it cannot go on.
#[derive(Debug)]
pub enum Progress<T> {
    Ask(ClusterRequest),
    Got(T, usize),
    Stuck(String, usize),
}

/// What a part of an experiment has come to.
pub enum ProgressView<T> {
    Ask(ClusterRequestView),
    Got(T, int),
    Stuck(Seq<char>, int),
}

impl<T: View> View for Progress<T> {
    type V = ProgressView<T::V>;

    open spec fn view(&self) -> ProgressView<T::V> {
        match *self {
            Progress::Ask(request) => ProgressView::Ask(request@),
            Progress::Got(value, at) => ProgressView::Got(value@, at as int),
            Progress::Stuck(error, at) => ProgressView::Stuck(error@, at as int),
        }
    }
}

/// What an experiment between pods does next: one more request, or its end.
#[derive(Debug)]
pub enum ClusterStep<T> {
    Ask(ClusterRequest),
    Done(T),
    /// The run itself went wrong, with this error: no result can be given.
    Abort(String),
}

/// What a step says.
pub enum ClusterStepView<T> {
    Ask(ClusterRequestView),
    Done(T),
    Abort(Seq<char>),
}

impl<T: View> View for ClusterStep<T> {
    type V = ClusterStepView<T::V>;

    open spec fn view(&self) -> ClusterStepView<T::V> {
        match *self {
            ClusterStep::Ask(request) => ClusterStepView::Ask(request@),
            ClusterStep::Done(result) => ClusterStepView::Done(result@),
            ClusterStep::Abort(error) => ClusterStepView::Abort(error@),
        }
    }
}

/// The end of an experiment: the requests of `chores`, of which `done` are
/// behind, and then the end itself.
pub open spec fn chores_before<T>(
    chores: Seq<ClusterRequestView>,
    done: int,
    end: ClusterStepView<T>,
) -> ClusterStepView<T> {
    if 0 <= done < chores.len() {
        ClusterStepView::Ask(chores[done])
    } else {
        end
    }
}

}
