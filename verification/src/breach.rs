//! The cross-tenant breach experiment.
//!
//! Every data-plane isolation test asks one question in one shape: the victim
//! plants a secret in its own namespace; it is confirmed that the secret really
//! exists; the intruder attempts to observe it from the other tenant; observed
//! means no isolation, not observed means isolated. A platform that refuses to
//! let the intruder even try has itself prevented the breach, and that is a
//! verdict rather than a failed run.

use crate::cluster::{
    chores_before, reply_views, ClusterReply, ClusterReplyView, ClusterRequest, ClusterRequestView,
    ClusterStep, ClusterStepView, Progress, ProgressView, Service, ServiceView, Side,
};
use crate::control_plane::experiment::text_view;
use crate::isolation::{CrossTenantResult, CrossTenantView, IsolationLevel, IsolationView};
use crate::network::verdicts::{
    dns_verdict, judge_dns_resolution, judge_pod_reachability, judge_service_reachability,
    reachability_verdict,
};
use crate::pods::{
    asks_for_host_privilege, asks_for_the_host, container_views, never_placed, never_started,
    unplaced, unstarted, ContainerView, Pod, PodView,
};
use crate::text::{
    chars_of, contains, has_text, joined, joined3, joined4, string_from, string_of, texts,
};
use crate::words::{char_views, first_word, first_word_of, lines, lines_of, parts, parts_of};
use vstd::prelude::*;
use vstd::string::*;

verus! {

/// How long to wait for a pod's address to appear in its status after it
/// reports Running, in one-second attempts.
pub const ADDRESS_ATTEMPTS: usize = 30;

/// How long to wait for the target's secret to appear in its logs after it
/// reports Ready, in one-second attempts.
pub const SECRET_ATTEMPTS: usize = 60;

/// What the target publishes to identify a breach and how to read it out of its
/// logs, from the strongest evidence to the weakest.
#[derive(Debug)]
pub enum Secret {
    /// The target prints a value; take the token after this prefix.
    Published(&'static str),
    /// The target prints this marker, proving it got far enough to plant
    /// something.
    ConfirmedBy(String),
    /// The target prints nothing, so readiness is the only confirmation
    /// available.
    ReadinessOnly,
}

/// What a secret's rule says.
pub enum SecretView {
    Published(Seq<char>),
    ConfirmedBy(Seq<char>),
    ReadinessOnly,
}

impl View for Secret {
    type V = SecretView;

    open spec fn view(&self) -> SecretView {
        match *self {
            Secret::Published(prefix) => SecretView::Published(prefix@),
            Secret::ConfirmedBy(marker) => SecretView::ConfirmedBy(marker@),
            Secret::ReadinessOnly => SecretView::ReadinessOnly,
        }
    }
}

/// The experiments whose outcome is not binary classify it themselves.
#[derive(Debug, Clone, Copy, PartialEq, Eq, Structural)]
pub enum Classifier {
    PodReachability,
    ServiceReachability,
    DnsResolution,
}

/// What counts as having seen it.
#[derive(Debug)]
pub enum BreachCondition {
    /// The intruder's output contains the secret itself.
    IntruderRepeatsSecret,
    /// The intruder reached its own conclusion and said so.
    IntruderReports(&'static str),
    /// The outcome is not binary, so the experiment classifies it itself.
    Decided(Classifier),
}

/// What a breach condition says.
pub enum ConditionView {
    IntruderRepeatsSecret,
    IntruderReports(Seq<char>),
    Decided(Classifier),
}

impl View for BreachCondition {
    type V = ConditionView;

    open spec fn view(&self) -> ConditionView {
        match *self {
            BreachCondition::IntruderRepeatsSecret => ConditionView::IntruderRepeatsSecret,
            BreachCondition::IntruderReports(marker) => ConditionView::IntruderReports(marker@),
            BreachCondition::Decided(classifier) => ConditionView::Decided(classifier),
        }
    }
}

/// A pod that runs a shell script with the target's address in it.
#[derive(Debug)]
pub struct AddressProbe {
    /// The pod, but for its script.
    pub pod: Pod,
    /// The script up to the address.
    pub before: String,
    /// The script from the address on.
    pub after: String,
}

/// How the intruder depends on where the target ended up. An intruder in the
/// wrong place inspects an unrelated machine, finds nothing, and reports
/// isolation it never tested.
#[derive(Debug)]
pub enum Intruder {
    /// Must share the target's node: host namespaces are per node.
    OnTargetNode(Pod),
    /// Must know the target's address.
    AtTargetAddress(AddressProbe),
    /// Placement-independent.
    Anywhere(Pod),
    /// Needs more of the target than where it landed, so the caller builds it.
    /// Its name does not depend on the target.
    FromTarget { name: String },
}

/// What an intruder says.
pub enum IntruderView {
    OnTargetNode(PodView),
    AtTargetAddress { pod: PodView, before: Seq<char>, after: Seq<char> },
    Anywhere(PodView),
    FromTarget { name: Seq<char> },
}

impl View for Intruder {
    type V = IntruderView;

    open spec fn view(&self) -> IntruderView {
        match *self {
            Intruder::OnTargetNode(pod) => IntruderView::OnTargetNode(pod@),
            Intruder::AtTargetAddress(probe) => IntruderView::AtTargetAddress {
                pod: probe.pod@,
                before: probe.before@,
                after: probe.after@,
            },
            Intruder::Anywhere(pod) => IntruderView::Anywhere(pod@),
            Intruder::FromTarget { name } => IntruderView::FromTarget { name: name@ },
        }
    }
}

/// What the target turned out to be once the cluster had scheduled it.
#[derive(Debug)]
pub struct PlantedSecret {
    pub node: String,
    /// Where the intruder should aim: the cluster address of the service when
    /// the experiment declares one, otherwise the target pod's own address.
    pub address: String,
    pub secret: String,
    /// Everything the target printed.
    pub logs: String,
}

/// What a planted secret says.
pub struct PlantedView {
    pub node: Seq<char>,
    pub address: Seq<char>,
    pub secret: Seq<char>,
    pub logs: Seq<char>,
}

impl View for PlantedSecret {
    type V = PlantedView;

    open spec fn view(&self) -> PlantedView {
        PlantedView {
            node: self.node@,
            address: self.address@,
            secret: self.secret@,
            logs: self.logs@,
        }
    }
}

/// One tenant plants a secret; the other tries to read it.
#[derive(Debug)]
pub struct BreachExperiment {
    /// Human-readable name, used in the details a reader sees in the report.
    pub what: &'static str,
    /// Runs in the victim's namespace. Plants the secret and prints it.
    pub target: Pod,
    /// Optional service fronting the target.
    pub target_service: Option<Service>,
    /// How to recover the secret from the target's own logs.
    pub secret: Secret,
    /// Runs in the intruder's namespace.
    pub intruder: Intruder,
    /// What in the intruder's output means it saw the secret.
    pub breach: BreachCondition,
}

/// What a breach experiment says.
pub struct BreachView {
    pub what: Seq<char>,
    pub target: PodView,
    pub target_service: Option<ServiceView>,
    pub secret: SecretView,
    pub intruder: IntruderView,
    pub breach: ConditionView,
}

impl View for BreachExperiment {
    type V = BreachView;

    open spec fn view(&self) -> BreachView {
        BreachView {
            what: self.what@,
            target: self.target@,
            target_service: match self.target_service {
                Some(service) => Some(service@),
                None => None,
            },
            secret: self.secret@,
            intruder: self.intruder@,
            breach: self.breach@,
        }
    }
}

/// What happened when the intruder tried.
#[derive(Debug)]
pub enum Observation {
    /// The platform would not let the intruder run at all.
    Refused(String),
    /// The intruder had to share the victim's node, and that node is not one
    /// this tenant can place a pod on.
    TargetNodeUnreachable(String),
    /// Admission accepted it and the runtime did not start it.
    CouldNotRun {
        reason: String,
        /// Whether the pod that was turned away had asked for privilege or a
        /// host namespace.
        asked_for_host_privilege: bool,
    },
    /// It ran; this is what it printed.
    Saw(String),
}

/// What an observation says.
pub enum ObservationView {
    Refused(Seq<char>),
    TargetNodeUnreachable(Seq<char>),
    CouldNotRun { reason: Seq<char>, asked_for_host_privilege: bool },
    Saw(Seq<char>),
}

impl View for Observation {
    type V = ObservationView;

    open spec fn view(&self) -> ObservationView {
        match *self {
            Observation::Refused(why) => ObservationView::Refused(why@),
            Observation::TargetNodeUnreachable(why) => ObservationView::TargetNodeUnreachable(
                why@,
            ),
            Observation::CouldNotRun { reason, asked_for_host_privilege } => {
                ObservationView::CouldNotRun { reason: reason@, asked_for_host_privilege }
            },
            Observation::Saw(output) => ObservationView::Saw(output@),
        }
    }
}

// ---- The judgements --------------------------------------------------------

/// The first of the lines that holds `prefix`.
pub open spec fn first_with(list: Seq<Seq<char>>, prefix: Seq<char>) -> Option<Seq<char>>
    decreases list.len(),
{
    if list.len() == 0 {
        None
    } else if has_text(list[0], prefix) {
        Some(list[0])
    } else {
        first_with(list.skip(1), prefix)
    }
}

/// What stands in a line between the first `prefix` and the next one, or the
/// end. An empty prefix stands before the first character and again after it.
pub open spec fn after_prefix(line: Seq<char>, prefix: Seq<char>) -> Seq<char> {
    if prefix.len() == 0 {
        line.take(if line.len() > 0 {
            1
        } else {
            0
        })
    } else if parts(line, prefix).len() > 1 {
        parts(line, prefix)[1]
    } else {
        Seq::empty()
    }
}

/// The secret that the target's logs show: the token after the prefix in the
/// first line that has it, or the marker where it appears. Where readiness is
/// all there is, a placeholder that is never compared.
pub open spec fn recovered(secret: SecretView, logs: Seq<char>) -> Seq<char> {
    match secret {
        SecretView::ReadinessOnly => "<ready>"@,
        SecretView::ConfirmedBy(marker) => if has_text(logs, marker) {
            marker
        } else {
            Seq::empty()
        },
        SecretView::Published(prefix) => match first_with(lines(logs), prefix) {
            Some(line) => first_word(after_prefix(line, prefix)),
            None => Seq::empty(),
        },
    }
}

/// What stands in a line between the first `prefix` and the next one.
fn rest_after_prefix(line: &Vec<char>, prefix: &Vec<char>) -> (r: Vec<char>)
    ensures
        r@ == after_prefix(line@, prefix@),
{
    if prefix.len() == 0 {
        let end: usize = if line.len() > 0 {
            1
        } else {
            0
        };
        assert(line@.subrange(0, end as int) =~= line@.take(end as int));
        return crate::text::slice_of(line, 0, end);
    }
    let mut pieces = parts_of(line, prefix);
    let ghost views = char_views(pieces@);
    if pieces.len() > 1 {
        assert(views[1] == pieces[1]@);
        pieces.swap_remove(1)
    } else {
        Vec::new()
    }
}

/// Pulls the secret out of the target's logs.
pub fn recover_secret(secret: &Secret, logs: &str) -> (r: String)
    ensures
        r@ == recovered(secret@, logs@),
{
    match secret {
        Secret::ReadinessOnly => string_from("<ready>"),
        Secret::ConfirmedBy(marker) => if contains(logs, marker) {
            marker.clone()
        } else {
            String::new()
        },
        Secret::Published(prefix) => {
            let found = lines_of(&chars_of(logs));
            let wanted = chars_of(prefix);
            let ghost views = char_views(found@);
            let mut i: usize = 0;
            assert(views.skip(0) =~= views);
            while i < found.len()
                invariant
                    i <= found.len(),
                    views == char_views(found@),
                    views == lines(logs@),
                    wanted@ == prefix@,
                    secret@ == SecretView::Published(prefix@),
                    first_with(views, prefix@) == first_with(views.skip(i as int), prefix@),
                decreases found.len() - i,
            {
                assert(views.skip(i as int)[0] == found[i as int]@);
                assert(views.skip(i as int).skip(1) =~= views.skip(i + 1));
                let line = string_of(&found[i], 0, found[i].len());
                assert(line@ =~= found[i as int]@);
                if contains(&line, prefix) {
                    return first_word_of(&rest_after_prefix(&found[i], &wanted));
                }
                i += 1;
            }
            String::new()
        },
    }
}

/// The verdict of an experiment's own classifier.
pub open spec fn classified(classifier: Classifier, output: Seq<char>) -> CrossTenantView {
    match classifier {
        Classifier::PodReachability => reachability_verdict("pod-to-pod reachability"@, output),
        Classifier::ServiceReachability => reachability_verdict("service reachability"@, output),
        Classifier::DnsResolution => dns_verdict(output),
    }
}

/// The intruder saw the secret. An empty secret is in every output and so can
/// not have been seen.
pub open spec fn saw_the_secret(
    condition: ConditionView,
    secret: Seq<char>,
    output: Seq<char>,
) -> bool {
    match condition {
        ConditionView::IntruderRepeatsSecret => secret.len() > 0 && has_text(output, secret),
        ConditionView::IntruderReports(marker) => has_text(output, marker),
        ConditionView::Decided(_) => false,
    }
}

/// What the intruder's output stands for.
pub open spec fn judgement(
    what: Seq<char>,
    condition: ConditionView,
    secret: Seq<char>,
    output: Seq<char>,
) -> CrossTenantView {
    match condition {
        ConditionView::Decided(classifier) => classified(classifier, output),
        _ => if saw_the_secret(condition, secret, output) {
            CrossTenantView {
                isolation: IsolationView::NoIsolation,
                autonomy: true,
                details: what
                    + ": the intruder observed the other tenant's secret — not isolated"@,
            }
        } else {
            CrossTenantView {
                isolation: IsolationView::Hard,
                autonomy: true,
                details: what
                    + ": the secret was planted and the intruder could not observe it"@,
            }
        },
    }
}

/// Judges the intruder's output.
pub fn judge(exp: &BreachExperiment, secret: &str, intruder_output: &str) -> (r: CrossTenantResult)
    ensures
        r@ == judgement(exp@.what, exp@.breach, secret@, intruder_output@),
{
    let saw_it = match &exp.breach {
        BreachCondition::IntruderRepeatsSecret => {
            secret.unicode_len() > 0 && contains(intruder_output, secret)
        },
        BreachCondition::IntruderReports(marker) => contains(intruder_output, marker),
        BreachCondition::Decided(classifier) => {
            return match classifier {
                Classifier::PodReachability => judge_pod_reachability(intruder_output),
                Classifier::ServiceReachability => judge_service_reachability(intruder_output),
                Classifier::DnsResolution => judge_dns_resolution(intruder_output),
            };
        },
    };
    if saw_it {
        CrossTenantResult {
            isolation: IsolationLevel::NoIsolation,
            autonomy: true,
            details: joined(
                exp.what,
                ": the intruder observed the other tenant's secret — not isolated",
            ),
        }
    } else {
        CrossTenantResult {
            isolation: IsolationLevel::Hard,
            autonomy: true,
            details: joined(
                exp.what,
                ": the secret was planted and the intruder could not observe it",
            ),
        }
    }
}

/// The platform would not let the intruder run. Soft, not hard: the refusal
/// itself tells the intruder that the restriction exists.
pub open spec fn refused_verdict(what: Seq<char>, why: Seq<char>) -> CrossTenantView {
    CrossTenantView {
        isolation: IsolationView::Soft("Intruder refused at admission: "@ + why),
        autonomy: false,
        details: what + ": the platform refused to run the intruder at all — "@ + why,
    }
}

/// The platform would not let the intruder run.
pub fn platform_refused(exp: &BreachExperiment, why: &str) -> (r: CrossTenantResult)
    ensures
        r@ == refused_verdict(exp@.what, why@),
{
    CrossTenantResult {
        isolation: IsolationLevel::Soft(joined("Intruder refused at admission: ", why)),
        autonomy: false,
        details: joined3(
            exp.what,
            ": the platform refused to run the intruder at all — ",
            why,
        ),
    }
}

/// The intruder had to stand on the victim's node and cannot. Hard: a node that
/// the intruder cannot reach carries no namespace it could share.
pub open spec fn unreachable_verdict(what: Seq<char>, why: Seq<char>) -> CrossTenantView {
    CrossTenantView {
        isolation: IsolationView::Hard,
        autonomy: true,
        details: what
            + ": the victim's node is not one this tenant can place a pod on, so they share no node and no per-node namespace — "@
            + why,
    }
}

/// The intruder had to stand on the victim's node and cannot.
pub fn target_node_unreachable(exp: &BreachExperiment, why: &str) -> (r: CrossTenantResult)
    ensures
        r@ == unreachable_verdict(exp@.what, why@),
{
    CrossTenantResult {
        isolation: IsolationLevel::Hard,
        autonomy: true,
        details: joined3(
            exp.what,
            ": the victim's node is not one this tenant can place a pod on, so they share no node and no per-node namespace — ",
            why,
        ),
    }
}

/// Admission let the intruder through and the runtime did not start it. A
/// request for privilege that is turned away is soft, as at admission; where
/// nothing unusual was asked for, nothing was measured.
pub open spec fn not_started_verdict(
    what: Seq<char>,
    asked_for_host_privilege: bool,
    why: Seq<char>,
) -> CrossTenantView {
    if asked_for_host_privilege {
        CrossTenantView {
            isolation: IsolationView::Soft(
                "Runtime would not start a container asking for host privilege: "@ + why,
            ),
            autonomy: false,
            details: what
                + ": the request for host privilege was refused by the runtime, so the intruder never got to attempt the cross-tenant operation — "@
                + why,
        }
    } else {
        CrossTenantView {
            isolation: IsolationView::Unknown,
            autonomy: true,
            details: what
                + ": the intruder never started, and it had asked for no privilege that would explain a runtime refusing it — "@
                + why,
        }
    }
}

/// Admission let the intruder through and the runtime did not start it.
pub fn runtime_would_not_run(
    exp: &BreachExperiment,
    asked_for_host_privilege: bool,
    why: &str,
) -> (r: CrossTenantResult)
    ensures
        r@ == not_started_verdict(exp@.what, asked_for_host_privilege, why@),
{
    if !asked_for_host_privilege {
        return CrossTenantResult {
            isolation: IsolationLevel::Unknown,
            autonomy: true,
            details: joined3(
                exp.what,
                ": the intruder never started, and it had asked for no privilege that would explain a runtime refusing it — ",
                why,
            ),
        };
    }
    CrossTenantResult {
        isolation: IsolationLevel::Soft(
            joined("Runtime would not start a container asking for host privilege: ", why),
        ),
        autonomy: false,
        details: joined3(
            exp.what,
            ": the request for host privilege was refused by the runtime, so the intruder never got to attempt the cross-tenant operation — ",
            why,
        ),
    }
}

/// The target planted nothing, so nothing was measured.
pub open spec fn unplanted_verdict(what: Seq<char>, namespace: Seq<char>) -> CrossTenantView {
    CrossTenantView {
        isolation: IsolationView::Unknown,
        autonomy: true,
        details: what + ": the target in "@ + namespace
            + " never planted its secret, so the intruder finding nothing proves nothing about isolation"@,
    }
}

/// The target planted nothing, so nothing was measured.
pub fn nothing_was_planted(exp: &BreachExperiment, victim_namespace: &str) -> (r: CrossTenantResult)
    ensures
        r@ == unplanted_verdict(exp@.what, victim_namespace@),
{
    CrossTenantResult {
        isolation: IsolationLevel::Unknown,
        autonomy: true,
        details: joined4(
            exp.what,
            ": the target in ",
            victim_namespace,
            " never planted its secret, so the intruder finding nothing proves nothing about isolation",
        ),
    }
}

/// What an observation stands for.
pub open spec fn verdict_of(
    exp: BreachView,
    secret: Seq<char>,
    observation: ObservationView,
) -> CrossTenantView {
    match observation {
        ObservationView::Refused(why) => refused_verdict(exp.what, why),
        ObservationView::TargetNodeUnreachable(why) => unreachable_verdict(exp.what, why),
        ObservationView::CouldNotRun { reason, asked_for_host_privilege } => {
            not_started_verdict(exp.what, asked_for_host_privilege, reason)
        },
        ObservationView::Saw(output) => judgement(exp.what, exp.breach, secret, output),
    }
}

/// The intruder for what the target turned out to be; none where the caller
/// builds it.
pub open spec fn built(intruder: IntruderView, planted: PlantedView) -> Option<PodView> {
    match intruder {
        IntruderView::OnTargetNode(pod) => Some(PodView { node_name: Some(planted.node), ..pod }),
        IntruderView::AtTargetAddress { pod, before, after } => Some(
            PodView {
                containers: with_script(pod.containers, before + planted.address + after),
                ..pod
            },
        ),
        IntruderView::Anywhere(pod) => Some(pod),
        IntruderView::FromTarget { .. } => None,
    }
}

/// The containers, the first of them running a shell script.
pub open spec fn with_script(containers: Seq<ContainerView>, script: Seq<char>) -> Seq<
    ContainerView,
> {
    if containers.len() == 0 {
        containers
    } else {
        containers.update(
            0,
            ContainerView { command: seq!["sh"@, "-c"@, script], ..containers[0] },
        )
    }
}

/// Builds the intruder for what the target turned out to be; none where the
/// caller builds it.
pub fn build_intruder(intruder: &Intruder, planted: &PlantedSecret) -> (r: Option<Pod>)
    ensures
        match r {
            Some(pod) => built(intruder@, planted@) == Some(pod@),
            None => built(intruder@, planted@) is None,
        },
{
    match intruder {
        Intruder::OnTargetNode(pod) => {
            let mut pod = pod.clone();
            pod.node_name = Some(planted.node.clone());
            Some(pod)
        },
        Intruder::AtTargetAddress(probe) => {
            let mut pod = probe.pod.clone();
            let script = joined3(&probe.before, &planted.address, &probe.after);
            let ghost said = script@;
            if pod.containers.len() > 0 {
                let ghost before = container_views(pod.containers@);
                let command = vec![string_from("sh"), string_from("-c"), script];
                assert(texts(command@) =~= seq!["sh"@, "-c"@, said]);
                let mut first = pod.containers[0].clone();
                first.command = command;
                pod.containers[0] = first;
                assert(container_views(pod.containers@) =~= with_script(before, said));
            } else {
                assert(container_views(pod.containers@) =~= seq![]);
            }
            Some(pod)
        },
        Intruder::Anywhere(pod) => Some(pod.clone()),
        Intruder::FromTarget { .. } => None,
    }
}

// ---- The pipeline ----------------------------------------------------------

/// Waiting for the target's address: it is asked for again every second until
/// one is there, for so many attempts. `at` replies are behind.
pub open spec fn await_address(
    name: Seq<char>,
    log: Seq<ClusterReplyView>,
    address: Seq<char>,
    attempt: nat,
    at: int,
) -> ProgressView<Seq<char>>
    decreases ADDRESS_ATTEMPTS - attempt,
{
    if address.len() > 0 || attempt >= ADDRESS_ATTEMPTS {
        ProgressView::Got(address, at)
    } else if log.len() <= at {
        ProgressView::Ask(ClusterRequestView::Pause { millis: 1000 })
    } else if log.len() == at + 1 {
        ProgressView::Ask(ClusterRequestView::GetPod { side: Side::Victim, name })
    } else {
        await_address(name, log, log[at + 1].pod_address(), attempt + 1, at + 2)
    }
}

/// The service in front of the target, where the experiment declares one: its
/// cluster address takes the place of the pod's.
pub open spec fn reach_service(
    service: Option<ServiceView>,
    log: Seq<ClusterReplyView>,
    address: Seq<char>,
    at: int,
) -> ProgressView<Seq<char>> {
    match service {
        None => ProgressView::Got(address, at),
        Some(service) => if log.len() <= at {
            ProgressView::Ask(
                ClusterRequestView::CreateService {
                    side: Side::Victim,
                    manifest: service.manifest,
                },
            )
        } else if log[at].failed() {
            ProgressView::Stuck(log[at].error(), at + 1)
        } else if log.len() == at + 1 {
            ProgressView::Ask(
                ClusterRequestView::GetService { side: Side::Victim, name: service.name },
            )
        } else if log[at + 1].failed() {
            ProgressView::Stuck(log[at + 1].error(), at + 2)
        } else {
            ProgressView::Got(
                match log[at + 1] {
                    ClusterReplyView::Address(Some(cluster_ip)) => cluster_ip,
                    _ => address,
                },
                at + 2,
            )
        },
    }
}

/// Waiting for the secret: the target's logs are read every second until they
/// show it, for so many attempts. What comes back is the secret and the logs;
/// the secret is empty where it never appeared.
pub open spec fn await_secret(
    exp: BreachView,
    log: Seq<ClusterReplyView>,
    attempt: nat,
    at: int,
) -> ProgressView<(Seq<char>, Seq<char>)>
    decreases SECRET_ATTEMPTS - attempt,
{
    if attempt >= SECRET_ATTEMPTS {
        ProgressView::Got((Seq::empty(), Seq::empty()), at)
    } else if log.len() <= at {
        ProgressView::Ask(
            ClusterRequestView::ReadLogs { side: Side::Victim, name: exp.target.name },
        )
    } else if recovered(exp.secret, log[at].output()).len() > 0 {
        ProgressView::Got((recovered(exp.secret, log[at].output()), log[at].output()), at + 1)
    } else if log.len() == at + 1 {
        ProgressView::Ask(ClusterRequestView::Pause { millis: 1000 })
    } else {
        await_secret(exp, log, attempt + 1, at + 2)
    }
}

/// The target is up, at `address` on `node`: what is left is to read its
/// secret. An intruder that has to aim at an address cannot aim at none.
pub open spec fn plant_at(
    exp: BreachView,
    log: Seq<ClusterReplyView>,
    node: Seq<char>,
    address: Seq<char>,
    at: int,
) -> ProgressView<Option<PlantedView>> {
    if address.len() == 0 && exp.intruder is AtTargetAddress {
        ProgressView::Got(None, at)
    } else {
        match await_secret(exp, log, 0, at) {
            ProgressView::Ask(request) => ProgressView::Ask(request),
            ProgressView::Stuck(error, at) => ProgressView::Stuck(error, at),
            ProgressView::Got((secret, logs), at) => ProgressView::Got(
                if secret.len() == 0 {
                    None
                } else {
                    Some(PlantedView { node, address, secret, logs })
                },
                at,
            ),
        }
    }
}

/// Planting the secret: the target is created, and once it is ready its
/// placement and the secret it planted are read back. Nothing comes back where
/// it planted nothing, which is not a measurement.
pub open spec fn plant(exp: BreachView, log: Seq<ClusterReplyView>) -> ProgressView<
    Option<PlantedView>,
> {
    let name = exp.target.name;
    if log.len() == 0 {
        ProgressView::Ask(
            ClusterRequestView::CreatePod { side: Side::Victim, pod: exp.target },
        )
    } else if log[0].failed() {
        ProgressView::Stuck(log[0].error(), 1)
    } else if log.len() == 1 {
        ProgressView::Ask(ClusterRequestView::AwaitReady { side: Side::Victim, name })
    } else if log[1].failed() {
        ProgressView::Stuck(log[1].error(), 2)
    } else if log.len() == 2 {
        ProgressView::Ask(ClusterRequestView::GetPod { side: Side::Victim, name })
    } else if log[2].failed() {
        ProgressView::Stuck(log[2].error(), 3)
    } else {
        match await_address(name, log, log[2].pod_address(), 0, 3) {
            ProgressView::Ask(request) => ProgressView::Ask(request),
            ProgressView::Stuck(error, at) => ProgressView::Stuck(error, at),
            ProgressView::Got(address, at) => match reach_service(
                exp.target_service,
                log,
                address,
                at,
            ) {
                ProgressView::Ask(request) => ProgressView::Ask(request),
                ProgressView::Stuck(error, at) => ProgressView::Stuck(error, at),
                ProgressView::Got(address, at) => plant_at(
                    exp,
                    log,
                    log[2].pod_node(),
                    address,
                    at,
                ),
            },
        }
    }
}

/// The cluster shows nodes and none of them is called `node`. Where it shows
/// none, the pod being pinned and never claimed is the evidence left.
pub open spec fn node_is_absent(pinned: Option<Seq<char>>, nodes: ClusterReplyView) -> bool {
    match pinned {
        None => false,
        Some(node) => match nodes {
            ClusterReplyView::Nodes(list) => !exists|i: int|
                0 <= i < list.len() && (#[trigger] list[i]).name == Some(node),
            _ => true,
        },
    }
}

/// Why the pod that came back never got onto a node, if it never did.
pub open spec fn reply_unplaced(reply: ClusterReplyView) -> Option<Seq<char>> {
    match reply.landed() {
        Some(pod) => unplaced(pod),
        None => None,
    }
}

/// Why the containers of the pod that came back never started, if they never
/// did.
pub open spec fn reply_unstarted(reply: ClusterReplyView) -> Option<Seq<char>> {
    match reply.landed() {
        Some(pod) => unstarted(pod),
        None => None,
    }
}

/// The intruder's turn, once it is built where that is left to the caller.
pub open spec fn observe_step(
    exp: BreachView,
    planted: PlantedView,
    log: Seq<ClusterReplyView>,
    at: int,
) -> ProgressView<ObservationView> {
    match built(exp.intruder, planted) {
        Some(intruder) => intrude(intruder, log, at),
        None => if log.len() <= at {
            ProgressView::Ask(
                ClusterRequestView::BuildIntruder {
                    node: planted.node,
                    address: planted.address,
                    secret: planted.secret,
                    logs: planted.logs,
                },
            )
        } else {
            match log[at] {
                ClusterReplyView::Built(intruder) => intrude(intruder, log, at + 1),
                other => ProgressView::Stuck(other.error(), at + 1),
            }
        },
    }
}

/// The intruder is created and runs to its end, and before its output is read
/// it is asked whether there was ever a process to write it.
pub open spec fn intrude(intruder: PodView, log: Seq<ClusterReplyView>, at: int) -> ProgressView<
    ObservationView,
> {
    let name = intruder.name;
    if log.len() <= at {
        ProgressView::Ask(ClusterRequestView::CreatePod { side: Side::Intruder, pod: intruder })
    } else if log[at].failed() {
        match log[at].refusal() {
            Some(why) => ProgressView::Got(ObservationView::Refused(why), at + 1),
            None => ProgressView::Stuck(log[at].error(), at + 1),
        }
    } else if log.len() == at + 1 {
        ProgressView::Ask(ClusterRequestView::AwaitCompletion { side: Side::Intruder, name })
    } else if log.len() == at + 2 {
        ProgressView::Ask(ClusterRequestView::GetPod { side: Side::Intruder, name })
    } else {
        match reply_unplaced(log[at + 2]) {
            Some(reason) => if log.len() == at + 3 {
                ProgressView::Ask(ClusterRequestView::ListNodes { side: Side::Intruder })
            } else if node_is_absent(intruder.node_name, log[at + 3]) {
                ProgressView::Got(ObservationView::TargetNodeUnreachable(reason), at + 4)
            } else {
                ProgressView::Got(
                    ObservationView::CouldNotRun {
                        reason,
                        asked_for_host_privilege: asks_for_the_host(intruder),
                    },
                    at + 4,
                )
            },
            None => match reply_unstarted(log[at + 2]) {
                Some(reason) => ProgressView::Got(
                    ObservationView::CouldNotRun {
                        reason,
                        asked_for_host_privilege: asks_for_the_host(intruder),
                    },
                    at + 3,
                ),
                None => if log.len() == at + 3 {
                    ProgressView::Ask(ClusterRequestView::ReadLogs { side: Side::Intruder, name })
                } else {
                    ProgressView::Got(ObservationView::Saw(log[at + 3].output()), at + 4)
                },
            },
        }
    }
}

/// The experiment up to its verdict.
pub open spec fn experiment_body(
    exp: BreachView,
    victim_namespace: Seq<char>,
    log: Seq<ClusterReplyView>,
) -> ProgressView<CrossTenantView> {
    match plant(exp, log) {
        ProgressView::Ask(request) => ProgressView::Ask(request),
        ProgressView::Stuck(error, at) => ProgressView::Stuck(error, at),
        ProgressView::Got(None, at) => ProgressView::Got(
            unplanted_verdict(exp.what, victim_namespace),
            at,
        ),
        ProgressView::Got(Some(planted), at) => match observe_step(exp, planted, log, at) {
            ProgressView::Ask(request) => ProgressView::Ask(request),
            ProgressView::Stuck(error, at) => ProgressView::Stuck(error, at),
            ProgressView::Got(observation, at) => ProgressView::Got(
                verdict_of(exp, planted.secret, observation),
                at,
            ),
        },
    }
}

/// The name of the intruder's pod, which does not depend on the target.
pub open spec fn intruder_name(intruder: IntruderView) -> Seq<char> {
    match intruder {
        IntruderView::OnTargetNode(pod) => pod.name,
        IntruderView::AtTargetAddress { pod, .. } => pod.name,
        IntruderView::Anywhere(pod) => pod.name,
        IntruderView::FromTarget { name } => name,
    }
}

/// What has to be taken away on every path: both pods are deleted before either
/// is waited for, because a pod that still terminates makes the next creation
/// of its name fail.
pub open spec fn breach_cleanup(exp: BreachView) -> Seq<ClusterRequestView> {
    let target = exp.target.name;
    let intruder = intruder_name(exp.intruder);
    seq![
        ClusterRequestView::DeletePod { side: Side::Victim, name: target },
        ClusterRequestView::DeletePod { side: Side::Intruder, name: intruder },
        ClusterRequestView::AwaitPodDeletion { side: Side::Victim, name: target },
        ClusterRequestView::AwaitPodDeletion { side: Side::Intruder, name: intruder },
    ] + match exp.target_service {
        Some(service) => seq![
            ClusterRequestView::DeleteService { side: Side::Victim, name: service.name },
        ],
        None => seq![],
    }
}

/// The breach experiment: plant, confirm, observe, judge; and on every path out
/// of these the cleaning up.
pub open spec fn breach_step(
    exp: BreachView,
    victim_namespace: Seq<char>,
    log: Seq<ClusterReplyView>,
) -> ClusterStepView<CrossTenantView> {
    match experiment_body(exp, victim_namespace, log) {
        ProgressView::Ask(request) => ClusterStepView::Ask(request),
        ProgressView::Got(result, at) => chores_before(
            breach_cleanup(exp),
            log.len() - at,
            ClusterStepView::Done(result),
        ),
        ProgressView::Stuck(error, at) => chores_before(
            breach_cleanup(exp),
            log.len() - at,
            ClusterStepView::Abort(error),
        ),
    }
}

/// Waits for the target's address.
fn wait_for_address(
    name: &str,
    log: &Vec<ClusterReply>,
    first: String,
    from: usize,
) -> (r: Progress<String>)
    requires
        from <= log.len(),
    ensures
        r@ == await_address(name@, reply_views(log@), first@, 0, from as int),
        r matches Progress::Got(_, at) ==> at <= log.len(),
        !(r is Stuck),
{
    let ghost views = reply_views(log@);
    let mut address = first;
    let mut attempt: usize = 0;
    let mut at: usize = from;
    while address.as_str().unicode_len() == 0 && attempt < ADDRESS_ATTEMPTS
        invariant
            at <= log.len(),
            attempt <= ADDRESS_ATTEMPTS,
            views == reply_views(log@),
            await_address(name@, views, first@, 0, from as int) == await_address(
                name@,
                views,
                address@,
                attempt as nat,
                at as int,
            ),
        decreases ADDRESS_ATTEMPTS - attempt,
    {
        if log.len() == at {
            return Progress::Ask(ClusterRequest::Pause { millis: 1000 });
        }
        if log.len() == at + 1 {
            return Progress::Ask(
                ClusterRequest::GetPod { side: Side::Victim, name: string_from(name) },
            );
        }
        address = log[at + 1].pod_address();
        attempt += 1;
        at += 2;
    }
    Progress::Got(address, at)
}

/// Puts the service in front of the target, where the experiment declares one.
fn front_with_service(
    service: &Option<Service>,
    log: &Vec<ClusterReply>,
    address: String,
    at: usize,
) -> (r: Progress<String>)
    requires
        at <= log.len(),
    ensures
        r@ == reach_service(
            match *service {
                Some(s) => Some(s@),
                None => None,
            },
            reply_views(log@),
            address@,
            at as int,
        ),
        r matches Progress::Got(_, at) ==> at <= log.len(),
        r matches Progress::Stuck(_, at) ==> at <= log.len(),
{
    let service = match service {
        Some(service) => service,
        None => {
            return Progress::Got(address, at);
        },
    };
    if log.len() == at {
        return Progress::Ask(
            ClusterRequest::CreateService {
                side: Side::Victim,
                manifest: service.manifest.duplicate(),
            },
        );
    }
    if log[at].failed() {
        return Progress::Stuck(log[at].error(), at + 1);
    }
    if log.len() == at + 1 {
        return Progress::Ask(
            ClusterRequest::GetService { side: Side::Victim, name: service.name.clone() },
        );
    }
    if log[at + 1].failed() {
        return Progress::Stuck(log[at + 1].error(), at + 2);
    }
    match &log[at + 1] {
        ClusterReply::Address(found) => match found {
            Some(cluster_ip) => Progress::Got(cluster_ip.clone(), at + 2),
            None => Progress::Got(address, at + 2),
        },
        _ => Progress::Got(address, at + 2),
    }
}

/// The target is up: reads its secret.
fn read_secret(
    exp: &BreachExperiment,
    log: &Vec<ClusterReply>,
    node: String,
    address: String,
    from: usize,
) -> (r: Progress<Option<PlantedSecret>>)
    requires
        from <= log.len(),
    ensures
        planting_view(r) == plant_at(exp@, reply_views(log@), node@, address@, from as int),
        r matches Progress::Got(_, at) ==> at <= log.len(),
        !(r is Stuck),
{
    let ghost views = reply_views(log@);
    if address.as_str().unicode_len() == 0 && matches!(exp.intruder, Intruder::AtTargetAddress(_)) {
        return Progress::Got(None, from);
    }
    let mut attempt: usize = 0;
    let mut at: usize = from;
    while attempt < SECRET_ATTEMPTS
        invariant
            at <= log.len(),
            attempt <= SECRET_ATTEMPTS,
            views == reply_views(log@),
            !(address@.len() == 0 && exp@.intruder is AtTargetAddress),
            await_secret(exp@, views, 0, from as int) == await_secret(
                exp@,
                views,
                attempt as nat,
                at as int,
            ),
        decreases SECRET_ATTEMPTS - attempt,
    {
        if log.len() == at {
            return Progress::Ask(
                ClusterRequest::ReadLogs { side: Side::Victim, name: exp.target.name.clone() },
            );
        }
        let logs = log[at].output();
        let secret = recover_secret(&exp.secret, &logs);
        if secret.as_str().unicode_len() > 0 {
            return Progress::Got(Some(PlantedSecret { node, address, secret, logs }), at + 1);
        }
        if log.len() == at + 1 {
            return Progress::Ask(ClusterRequest::Pause { millis: 1000 });
        }
        attempt += 1;
        at += 2;
    }
    Progress::Got(None, at)
}

/// What the planting has come to.
pub open spec fn planting_view(progress: Progress<Option<PlantedSecret>>) -> ProgressView<
    Option<PlantedView>,
> {
    match progress {
        Progress::Ask(request) => ProgressView::Ask(request@),
        Progress::Got(planted, at) => ProgressView::Got(
            match planted {
                Some(secret) => Some(secret@),
                None => None,
            },
            at as int,
        ),
        Progress::Stuck(error, at) => ProgressView::Stuck(error@, at as int),
    }
}

/// Creates the target, waits for it, and reads back both its placement and the
/// secret it planted.
pub fn plant_secret(exp: &BreachExperiment, log: &Vec<ClusterReply>) -> (r: Progress<
    Option<PlantedSecret>,
>)
    ensures
        planting_view(r) == plant(exp@, reply_views(log@)),
        r matches Progress::Got(_, at) ==> at <= log.len(),
        r matches Progress::Stuck(_, at) ==> at <= log.len(),
{
    let name = &exp.target.name;
    if log.len() == 0 {
        return Progress::Ask(
            ClusterRequest::CreatePod { side: Side::Victim, pod: exp.target.clone() },
        );
    }
    if log[0].failed() {
        return Progress::Stuck(log[0].error(), 1);
    }
    if log.len() == 1 {
        return Progress::Ask(
            ClusterRequest::AwaitReady { side: Side::Victim, name: name.clone() },
        );
    }
    if log[1].failed() {
        return Progress::Stuck(log[1].error(), 2);
    }
    if log.len() == 2 {
        return Progress::Ask(ClusterRequest::GetPod { side: Side::Victim, name: name.clone() });
    }
    if log[2].failed() {
        return Progress::Stuck(log[2].error(), 3);
    }
    match wait_for_address(name, log, log[2].pod_address(), 3) {
        Progress::Ask(request) => Progress::Ask(request),
        Progress::Stuck(error, at) => Progress::Stuck(error, at),
        Progress::Got(address, at) => match front_with_service(
            &exp.target_service,
            log,
            address,
            at,
        ) {
            Progress::Ask(request) => Progress::Ask(request),
            Progress::Stuck(error, at) => Progress::Stuck(error, at),
            Progress::Got(address, at) => read_secret(exp, log, log[2].pod_node(), address, at),
        },
    }
}

/// Whether the cluster shows nodes and none of them is called `pinned`.
fn is_node_absent(pinned: &Option<String>, nodes: &ClusterReply) -> (r: bool)
    ensures
        r == node_is_absent(text_view(*pinned), nodes@),
{
    let node = match pinned {
        Some(node) => node,
        None => {
            return false;
        },
    };
    if let ClusterReply::Nodes(list) = nodes {
        let ghost views = crate::cluster::node_views(list@);
        let mut i: usize = 0;
        while i < list.len()
            invariant
                i <= list.len(),
                views == crate::cluster::node_views(list@),
                nodes@ == ClusterReplyView::Nodes(views),
                text_view(*pinned) == Some(node@),
                forall|k: int| 0 <= k < i ==> (#[trigger] views[k]).name != Some(node@),
            decreases list.len() - i,
        {
            assert(views[i as int] == list[i as int]@);
            if let Some(name) = &list[i].name {
                if *name == *node {
                    return false;
                }
            }
            i += 1;
        }
    }
    true
}

/// The intruder is created and runs to its end, and then its output is read.
fn run_intruder(intruder: &Pod, log: &Vec<ClusterReply>, at: usize) -> (r: Progress<Observation>)
    requires
        at <= log.len(),
    ensures
        r@ == intrude(intruder@, reply_views(log@), at as int),
        r matches Progress::Got(_, at) ==> at <= log.len(),
        r matches Progress::Stuck(_, at) ==> at <= log.len(),
{
    if log.len() == at {
        return Progress::Ask(
            ClusterRequest::CreatePod { side: Side::Intruder, pod: intruder.clone() },
        );
    }
    if log[at].failed() {
        return match log[at].refusal() {
            Some(why) => Progress::Got(Observation::Refused(why), at + 1),
            None => Progress::Stuck(log[at].error(), at + 1),
        };
    }
    let name = intruder.name.clone();
    if log.len() - at == 1 {
        return Progress::Ask(ClusterRequest::AwaitCompletion { side: Side::Intruder, name });
    }
    if log.len() - at == 2 {
        return Progress::Ask(ClusterRequest::GetPod { side: Side::Intruder, name });
    }
    if let ClusterReply::Landed(pod) = &log[at + 2] {
        if let Some(reason) = never_placed(pod) {
            if log.len() - at == 3 {
                return Progress::Ask(ClusterRequest::ListNodes { side: Side::Intruder });
            }
            if is_node_absent(&intruder.node_name, &log[at + 3]) {
                return Progress::Got(Observation::TargetNodeUnreachable(reason), at + 4);
            }
            return Progress::Got(
                Observation::CouldNotRun {
                    reason,
                    asked_for_host_privilege: asks_for_host_privilege(intruder),
                },
                at + 4,
            );
        }
        if let Some(reason) = never_started(pod) {
            return Progress::Got(
                Observation::CouldNotRun {
                    reason,
                    asked_for_host_privilege: asks_for_host_privilege(intruder),
                },
                at + 3,
            );
        }
    }
    if log.len() - at == 3 {
        return Progress::Ask(ClusterRequest::ReadLogs { side: Side::Intruder, name });
    }
    Progress::Got(Observation::Saw(log[at + 3].output()), at + 4)
}

/// Builds the intruder for this target, runs it, and collects its output; the
/// replies to its requests stand in `log` from `at` on.
pub fn observe(
    exp: &BreachExperiment,
    planted: &PlantedSecret,
    log: &Vec<ClusterReply>,
    at: usize,
) -> (r: Progress<Observation>)
    requires
        at <= log.len(),
    ensures
        r@ == observe_step(exp@, planted@, reply_views(log@), at as int),
        r matches Progress::Got(_, at) ==> at <= log.len(),
        r matches Progress::Stuck(_, at) ==> at <= log.len(),
{
    if let Some(intruder) = build_intruder(&exp.intruder, planted) {
        return run_intruder(&intruder, log, at);
    }
    if log.len() == at {
        return Progress::Ask(
            ClusterRequest::BuildIntruder {
                node: planted.node.clone(),
                address: planted.address.clone(),
                secret: planted.secret.clone(),
                logs: planted.logs.clone(),
            },
        );
    }
    match &log[at] {
        ClusterReply::Built(intruder) => run_intruder(intruder, log, at + 1),
        other => Progress::Stuck(other.error(), at + 1),
    }
}

/// Judges an observation.
fn judge_observation(exp: &BreachExperiment, secret: &str, observation: &Observation) -> (r:
    CrossTenantResult)
    ensures
        r@ == verdict_of(exp@, secret@, observation@),
{
    match observation {
        Observation::Refused(why) => platform_refused(exp, why),
        Observation::TargetNodeUnreachable(why) => target_node_unreachable(exp, why),
        Observation::CouldNotRun { reason, asked_for_host_privilege } => runtime_would_not_run(
            exp,
            *asked_for_host_privilege,
            reason,
        ),
        Observation::Saw(output) => judge(exp, secret, output),
    }
}

/// The name of the intruder's pod.
fn name_of_intruder(intruder: &Intruder) -> (r: String)
    ensures
        r@ == intruder_name(intruder@),
{
    match intruder {
        Intruder::OnTargetNode(pod) => pod.name.clone(),
        Intruder::AtTargetAddress(probe) => probe.pod.name.clone(),
        Intruder::Anywhere(pod) => pod.name.clone(),
        Intruder::FromTarget { name } => name.clone(),
    }
}

/// The cleaning up of which `done` requests are behind; nothing where all are.
pub fn clean_up(exp: &BreachExperiment, done: usize) -> (r: Option<ClusterRequest>)
    ensures
        match r {
            Some(request) => done < breach_cleanup(exp@).len() && request@ == breach_cleanup(
                exp@,
            )[done as int],
            None => done >= breach_cleanup(exp@).len(),
        },
{
    let target = exp.target.name.clone();
    if done == 0 {
        Some(ClusterRequest::DeletePod { side: Side::Victim, name: target })
    } else if done == 1 {
        Some(
            ClusterRequest::DeletePod {
                side: Side::Intruder,
                name: name_of_intruder(&exp.intruder),
            },
        )
    } else if done == 2 {
        Some(ClusterRequest::AwaitPodDeletion { side: Side::Victim, name: target })
    } else if done == 3 {
        Some(
            ClusterRequest::AwaitPodDeletion {
                side: Side::Intruder,
                name: name_of_intruder(&exp.intruder),
            },
        )
    } else if done == 4 {
        match &exp.target_service {
            Some(service) => Some(
                ClusterRequest::DeleteService { side: Side::Victim, name: service.name.clone() },
            ),
            None => None,
        }
    } else {
        None
    }
}

/// Runs one experiment end to end: the step after the replies so far.
pub fn run_breach_experiment(
    exp: &BreachExperiment,
    victim_namespace: &str,
    log: &Vec<ClusterReply>,
) -> (r: ClusterStep<CrossTenantResult>)
    ensures
        r@ == breach_step(exp@, victim_namespace@, reply_views(log@)),
{
    let progress: Progress<CrossTenantResult> = match plant_secret(exp, log) {
        Progress::Ask(request) => Progress::Ask(request),
        Progress::Stuck(error, at) => Progress::Stuck(error, at),
        Progress::Got(None, at) => Progress::Got(nothing_was_planted(exp, victim_namespace), at),
        Progress::Got(Some(planted), at) => match observe(exp, &planted, log, at) {
            Progress::Ask(request) => Progress::Ask(request),
            Progress::Stuck(error, at) => Progress::Stuck(error, at),
            Progress::Got(observation, at) => Progress::Got(
                judge_observation(exp, &planted.secret, &observation),
                at,
            ),
        },
    };
    assert(progress@ == experiment_body(exp@, victim_namespace@, reply_views(log@)));
    match progress {
        Progress::Ask(request) => ClusterStep::Ask(request),
        Progress::Got(result, at) => match clean_up(exp, log.len() - at) {
            Some(request) => ClusterStep::Ask(request),
            None => ClusterStep::Done(result),
        },
        Progress::Stuck(error, at) => match clean_up(exp, log.len() - at) {
            Some(request) => ClusterStep::Ask(request),
            None => ClusterStep::Abort(error),
        },
    }
}

}
