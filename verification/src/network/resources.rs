//! The resources and operations of the network, and who may use them.

use super::aims::{field_names_differ, is_service, says};
use super::probes::{
    create_clusterip_service, create_clusterip_service_view, create_host_network_pod,
    create_network_multitool_pod, create_nodeport_service_auto_port,
    create_nodeport_service_auto_port_view, dns_resolution, dns_resolution_experiment,
    host_network_pod, multitool_pod, pod_reachability, pod_reachability_experiment,
    service_reachability, service_reachability_experiment,
};
use crate::assessment::{AssessableOperation, AssessableResource, MultitenancyAssessor};
use crate::breach::{BreachExperiment, BreachView, Classifier, ConditionView};
use crate::cluster::{
    chores_before, reply_views, ClusterReply, ClusterReplyView, ClusterRequest, ClusterRequestView,
    ClusterStep, ClusterStepView, Side,
};
use crate::isolation::{CrossTenantResult, CrossTenantView, IsolationLevel, IsolationView};
use crate::json::JsonView;
use crate::text::string_from;
use vstd::prelude::*;
use vstd::string::*;

verus! {

#[derive(Debug, Clone, Copy, PartialEq, Eq, Hash, Structural)]
pub enum NetworkResource {
    /// Pod-to-pod network communication.
    PodNetwork,
    /// Service exposure and access.
    ServiceNetwork,
    /// Node-to-node network communication. It is not assessed on its own,
    /// because the node port asks the same question without host networking.
    InfrastructureNetwork,
    /// DNS resolution across namespaces.
    DnsResolution,
}

#[derive(Debug, Clone, Copy, PartialEq, Eq, Hash, Structural)]
pub enum NetworkOperation {
    /// Direct pod-to-pod communication via IP.
    ConnectToPod,
    /// Access a service via ClusterIP.
    ConnectToService,
    /// Reach a node via its IP.
    ConnectToNode,
    /// Expose a service on a NodePort.
    ExposeNodePort,
    /// Resolve DNS names across namespaces.
    ResolveDns,
}

impl AssessableOperation for NetworkOperation {
    open spec fn text(&self) -> Seq<char> {
        match self {
            NetworkOperation::ConnectToPod => "Connect to Pod"@,
            NetworkOperation::ConnectToService => "Connect to Service"@,
            NetworkOperation::ConnectToNode => "Connect to Node"@,
            NetworkOperation::ExposeNodePort => "Expose NodePort"@,
            NetworkOperation::ResolveDns => "Resolve DNS"@,
        }
    }

    fn label(&self) -> (r: String) {
        match self {
            NetworkOperation::ConnectToPod => string_from("Connect to Pod"),
            NetworkOperation::ConnectToService => string_from("Connect to Service"),
            NetworkOperation::ConnectToNode => string_from("Connect to Node"),
            NetworkOperation::ExposeNodePort => string_from("Expose NodePort"),
            NetworkOperation::ResolveDns => string_from("Resolve DNS"),
        }
    }

    fn same(&self, other: &NetworkOperation) -> (r: bool) {
        *self == *other
    }

    fn duplicate(&self) -> (r: NetworkOperation) {
        *self
    }
}

impl AssessableResource for NetworkResource {
    type Operation = NetworkOperation;

    open spec fn text(&self) -> Seq<char> {
        match self {
            NetworkResource::PodNetwork => "Pod Network"@,
            NetworkResource::ServiceNetwork => "Service Network"@,
            NetworkResource::InfrastructureNetwork => "Infrastructure Network"@,
            NetworkResource::DnsResolution => "DNS Resolution"@,
        }
    }

    open spec fn every() -> Seq<NetworkResource> {
        seq![
            NetworkResource::PodNetwork,
            NetworkResource::ServiceNetwork,
            NetworkResource::DnsResolution,
        ]
    }

    open spec fn operations(&self) -> Seq<NetworkOperation> {
        match self {
            NetworkResource::PodNetwork => seq![NetworkOperation::ConnectToPod],
            NetworkResource::ServiceNetwork => seq![
                NetworkOperation::ConnectToService,
                NetworkOperation::ExposeNodePort,
            ],
            NetworkResource::InfrastructureNetwork => seq![NetworkOperation::ConnectToNode],
            NetworkResource::DnsResolution => seq![NetworkOperation::ResolveDns],
        }
    }

    fn label(&self) -> (r: String) {
        match self {
            NetworkResource::PodNetwork => string_from("Pod Network"),
            NetworkResource::ServiceNetwork => string_from("Service Network"),
            NetworkResource::InfrastructureNetwork => string_from("Infrastructure Network"),
            NetworkResource::DnsResolution => string_from("DNS Resolution"),
        }
    }

    fn all() -> (r: Vec<NetworkResource>) {
        let resources = vec![
            NetworkResource::PodNetwork,
            NetworkResource::ServiceNetwork,
            NetworkResource::DnsResolution,
        ];
        assert(resources@ =~= Self::every());
        resources
    }

    fn applicable_operations(&self) -> (r: Vec<NetworkOperation>) {
        let operations = match self {
            NetworkResource::PodNetwork => vec![NetworkOperation::ConnectToPod],
            NetworkResource::ServiceNetwork => {
                vec![NetworkOperation::ConnectToService, NetworkOperation::ExposeNodePort]
            },
            NetworkResource::InfrastructureNetwork => vec![NetworkOperation::ConnectToNode],
            NetworkResource::DnsResolution => vec![NetworkOperation::ResolveDns],
        };
        assert(operations@ =~= self.operations());
        operations
    }
}

/// Whether a tenant may perform an operation.
#[derive(Debug)]
pub enum Authorization {
    /// The tenant may.
    Allowed,
    /// A policy refuses the tenant, for this reason.
    Refused(String),
    /// It could not be told, for this reason.
    Undetermined(String),
}

/// What an authorization says.
pub enum AuthorizationView {
    Allowed,
    Refused(Seq<char>),
    Undetermined(Seq<char>),
}

impl View for Authorization {
    type V = AuthorizationView;

    open spec fn view(&self) -> AuthorizationView {
        match *self {
            Authorization::Allowed => AuthorizationView::Allowed,
            Authorization::Refused(why) => AuthorizationView::Refused(why@),
            Authorization::Undetermined(why) => AuthorizationView::Undetermined(why@),
        }
    }
}

/// What an attempt shows: one that succeeded is allowed, one that admission
/// turned away is refused, and any other failure says nothing.
pub open spec fn shown_by(attempt: ClusterReplyView) -> AuthorizationView {
    if !attempt.failed() {
        AuthorizationView::Allowed
    } else {
        match attempt.refusal() {
            Some(why) => AuthorizationView::Refused(why),
            None => AuthorizationView::Undetermined(attempt.error()),
        }
    }
}

impl Authorization {
    /// Whether the operation's effect is checked: what is refused is settled, and
    /// what could not be told is left to the effect, which says so itself.
    pub fn goes_on(&self) -> (r: bool)
        ensures
            r == !(self@ is Refused),
    {
        !matches!(self, Authorization::Refused(_))
    }

    /// What an attempt shows.
    pub fn from_attempt(attempt: &ClusterReply) -> (r: Authorization)
        ensures
            r@ == shown_by(attempt@),
    {
        if !attempt.failed() {
            Authorization::Allowed
        } else {
            match attempt.refusal() {
                Some(why) => Authorization::Refused(why),
                None => Authorization::Undetermined(attempt.error()),
            }
        }
    }
}

/// The attempts by which a tenant's authorization is tested.
pub open spec fn authorization_chores(operation: NetworkOperation) -> Seq<ClusterRequestView> {
    let side = Side::Victim;
    match operation {
        NetworkOperation::ConnectToPod => seq![
            ClusterRequestView::DeletePod { side, name: "network-multitool"@ },
            ClusterRequestView::AwaitPodDeletion { side, name: "network-multitool"@ },
        ],
        NetworkOperation::ConnectToService => seq![
            ClusterRequestView::DeleteService { side, name: "auth-test-service"@ },
        ],
        NetworkOperation::ExposeNodePort => seq![
            ClusterRequestView::DeleteService { side, name: "auth-test-nodeport"@ },
            ClusterRequestView::AwaitServiceDeletion { side, name: "auth-test-nodeport"@ },
        ],
        NetworkOperation::ConnectToNode => seq![
            ClusterRequestView::DeletePod { side, name: "auth-test-hostnetwork"@ },
        ],
        NetworkOperation::ResolveDns => seq![],
    }
}

/// What a tenant tries to create for its authorization to be seen.
pub open spec fn authorization_attempt(
    operation: NetworkOperation,
    namespace: Seq<char>,
) -> ClusterRequestView {
    let side = Side::Victim;
    match operation {
        NetworkOperation::ConnectToService => ClusterRequestView::CreateService {
            side,
            manifest: create_clusterip_service_view(namespace, "auth-test-service"@).manifest,
        },
        NetworkOperation::ExposeNodePort => ClusterRequestView::CreateService {
            side,
            manifest: create_nodeport_service_auto_port_view(
                namespace,
                "auth-test-nodeport"@,
            ).manifest,
        },
        NetworkOperation::ConnectToNode => ClusterRequestView::CreatePod {
            side,
            pod: host_network_pod("auth-test-hostnetwork"@),
        },
        _ => ClusterRequestView::CreatePod { side, pod: multitool_pod("network-multitool"@) },
    }
}

/// The test of a tenant's authorization: it creates what the operation needs,
/// takes it away again whatever came of that, and reports what the attempt
/// showed.
pub open spec fn authorization_step(
    operation: NetworkOperation,
    namespace: Seq<char>,
    log: Seq<ClusterReplyView>,
) -> ClusterStepView<AuthorizationView> {
    if log.len() == 0 {
        ClusterStepView::Ask(authorization_attempt(operation, namespace))
    } else {
        chores_before(
            authorization_chores(operation),
            log.len() - 1,
            ClusterStepView::Done(shown_by(log[0])),
        )
    }
}

/// Whether a tenant may run pods that make network connections.
pub fn test_pod_network_authorization(log: &Vec<ClusterReply>) -> (r: ClusterStep<Authorization>)
    ensures
        r@ == authorization_step(
            NetworkOperation::ConnectToPod,
            Seq::empty(),
            reply_views(log@),
        ),
{
    let side = Side::Victim;
    if log.len() == 0 {
        ClusterStep::Ask(
            ClusterRequest::CreatePod {
                side,
                pod: create_network_multitool_pod("network-multitool"),
            },
        )
    } else if log.len() == 1 {
        ClusterStep::Ask(
            ClusterRequest::DeletePod { side, name: string_from("network-multitool") },
        )
    } else if log.len() == 2 {
        ClusterStep::Ask(
            ClusterRequest::AwaitPodDeletion { side, name: string_from("network-multitool") },
        )
    } else {
        ClusterStep::Done(Authorization::from_attempt(&log[0]))
    }
}

/// Whether a tenant may create services.
pub fn test_service_creation_authorization(namespace: &str, log: &Vec<ClusterReply>) -> (r:
    ClusterStep<Authorization>)
    ensures
        r@ == authorization_step(
            NetworkOperation::ConnectToService,
            namespace@,
            reply_views(log@),
        ),
{
    let side = Side::Victim;
    if log.len() == 0 {
        let service = create_clusterip_service(namespace, "auth-test-service");
        ClusterStep::Ask(ClusterRequest::CreateService { side, manifest: service.manifest })
    } else if log.len() == 1 {
        ClusterStep::Ask(
            ClusterRequest::DeleteService { side, name: string_from("auth-test-service") },
        )
    } else {
        ClusterStep::Done(Authorization::from_attempt(&log[0]))
    }
}

/// Whether a tenant may create services on node ports, whichever port it gets.
pub fn test_nodeport_authorization(namespace: &str, log: &Vec<ClusterReply>) -> (r: ClusterStep<
    Authorization,
>)
    ensures
        r@ == authorization_step(
            NetworkOperation::ExposeNodePort,
            namespace@,
            reply_views(log@),
        ),
{
    let side = Side::Victim;
    if log.len() == 0 {
        let service = create_nodeport_service_auto_port(namespace, "auth-test-nodeport");
        ClusterStep::Ask(ClusterRequest::CreateService { side, manifest: service.manifest })
    } else if log.len() == 1 {
        ClusterStep::Ask(
            ClusterRequest::DeleteService { side, name: string_from("auth-test-nodeport") },
        )
    } else if log.len() == 2 {
        ClusterStep::Ask(
            ClusterRequest::AwaitServiceDeletion {
                side,
                name: string_from("auth-test-nodeport"),
            },
        )
    } else {
        ClusterStep::Done(Authorization::from_attempt(&log[0]))
    }
}

/// Whether a tenant may run pods on the node's network.
pub fn test_node_network_authorization(log: &Vec<ClusterReply>) -> (r: ClusterStep<Authorization>)
    ensures
        r@ == authorization_step(
            NetworkOperation::ConnectToNode,
            Seq::empty(),
            reply_views(log@),
        ),
{
    let side = Side::Victim;
    if log.len() == 0 {
        ClusterStep::Ask(
            ClusterRequest::CreatePod {
                side,
                pod: create_host_network_pod("auth-test-hostnetwork"),
            },
        )
    } else if log.len() == 1 {
        ClusterStep::Ask(
            ClusterRequest::DeletePod { side, name: string_from("auth-test-hostnetwork") },
        )
    } else {
        ClusterStep::Done(Authorization::from_attempt(&log[0]))
    }
}

/// The operation is one of the resource's own.
pub open spec fn belongs_to(operation: NetworkOperation, resource: NetworkResource) -> bool {
    resource.operations().contains(operation)
}

/// Assesses the network.
#[derive(Debug, Clone, Copy)]
pub struct NetworkAssessor;

impl MultitenancyAssessor for NetworkAssessor {
    type Resource = NetworkResource;

    open spec fn title(&self) -> Seq<char> {
        "Network"@
    }

    fn name(&self) -> (r: &'static str) {
        "Network"
    }
}

/// How the effect of an operation on the other tenant is checked.
#[derive(Debug)]
pub enum NetworkEffect {
    /// By a breach experiment. The second tenant is its victim, or the first.
    Breach { experiment: BreachExperiment, victim_is_second: bool },
    /// By both tenants claiming one node port.
    NodePort,
    /// By a marker on the node's network.
    NodeNetwork,
    /// Not at all: this is the result.
    Settled(CrossTenantResult),
}

/// What the check of an effect says.
pub enum NetworkEffectView {
    Breach { experiment: BreachView, victim_is_second: bool },
    NodePort,
    NodeNetwork,
    Settled(CrossTenantView),
}

impl View for NetworkEffect {
    type V = NetworkEffectView;

    open spec fn view(&self) -> NetworkEffectView {
        match *self {
            NetworkEffect::Breach { experiment, victim_is_second } => NetworkEffectView::Breach {
                experiment: experiment@,
                victim_is_second,
            },
            NetworkEffect::NodePort => NetworkEffectView::NodePort,
            NetworkEffect::NodeNetwork => NetworkEffectView::NodeNetwork,
            NetworkEffect::Settled(result) => NetworkEffectView::Settled(result@),
        }
    }
}

/// Which experiment checks an operation: the DNS experiment plants in the first
/// tenant and probes from the second, the reverse of the reachability ones.
pub open spec fn effect_check(
    resource: NetworkResource,
    operation: NetworkOperation,
    first_namespace: Seq<char>,
    second_namespace: Seq<char>,
) -> NetworkEffectView {
    match (resource, operation) {
        (NetworkResource::PodNetwork, NetworkOperation::ConnectToPod) => {
            NetworkEffectView::Breach { experiment: pod_reachability(), victim_is_second: true }
        },
        (NetworkResource::ServiceNetwork, NetworkOperation::ConnectToService) => {
            NetworkEffectView::Breach {
                experiment: service_reachability(second_namespace),
                victim_is_second: true,
            }
        },
        (NetworkResource::ServiceNetwork, NetworkOperation::ExposeNodePort) => {
            NetworkEffectView::NodePort
        },
        (NetworkResource::DnsResolution, NetworkOperation::ResolveDns) => {
            NetworkEffectView::Breach {
                experiment: dns_resolution(first_namespace),
                victim_is_second: false,
            }
        },
        (NetworkResource::InfrastructureNetwork, NetworkOperation::ConnectToNode) => {
            NetworkEffectView::NodeNetwork
        },
        _ => NetworkEffectView::Settled(
            CrossTenantView {
                isolation: IsolationView::Unknown,
                autonomy: true,
                details: "Test not implemented"@,
            },
        ),
    }
}

impl NetworkAssessor {
    /// Whether a tenant may perform the operation: the step after the replies
    /// so far. DNS is there for everyone; an operation that is not one of the
    /// resource's own has no test.
    pub fn is_authorized(
        &self,
        resource: &NetworkResource,
        operation: &NetworkOperation,
        namespace: &str,
        log: &Vec<ClusterReply>,
    ) -> (r: ClusterStep<Authorization>)
        ensures
            !belongs_to(*operation, *resource) ==> r@ == ClusterStepView::<
                AuthorizationView,
            >::Done(
                AuthorizationView::Undetermined(
                    "no authorization probe is defined for this operation"@,
                ),
            ),
            belongs_to(*operation, *resource) && operation is ResolveDns ==> r@
                == ClusterStepView::<AuthorizationView>::Done(AuthorizationView::Allowed),
            belongs_to(*operation, *resource) && !(operation is ResolveDns) ==> r@
                == authorization_step(
                *operation,
                if operation is ConnectToPod || operation is ConnectToNode {
                    Seq::empty()
                } else {
                    namespace@
                },
                reply_views(log@),
            ),
    {
        let ghost own = resource.operations();
        assert(own.len() > 0 && own.contains(own[0]));
        assert(own.len() > 1 ==> own.contains(own[1]));
        match (resource, operation) {
            (NetworkResource::PodNetwork, NetworkOperation::ConnectToPod) => {
                test_pod_network_authorization(log)
            },
            (NetworkResource::ServiceNetwork, NetworkOperation::ConnectToService) => {
                test_service_creation_authorization(namespace, log)
            },
            (NetworkResource::ServiceNetwork, NetworkOperation::ExposeNodePort) => {
                test_nodeport_authorization(namespace, log)
            },
            (NetworkResource::InfrastructureNetwork, NetworkOperation::ConnectToNode) => {
                test_node_network_authorization(log)
            },
            (NetworkResource::DnsResolution, NetworkOperation::ResolveDns) => {
                ClusterStep::Done(Authorization::Allowed)
            },
            _ => ClusterStep::Done(
                Authorization::Undetermined(
                    string_from("no authorization probe is defined for this operation"),
                ),
            ),
        }
    }

    /// Which experiment checks what the operation does to the other tenant.
    pub fn check_cross_tenant_effect(
        &self,
        resource: &NetworkResource,
        operation: &NetworkOperation,
        first_namespace: &str,
        second_namespace: &str,
    ) -> (r: NetworkEffect)
        ensures
            r@ == effect_check(*resource, *operation, first_namespace@, second_namespace@),
    {
        match (resource, operation) {
            (NetworkResource::PodNetwork, NetworkOperation::ConnectToPod) => {
                NetworkEffect::Breach {
                    experiment: pod_reachability_experiment(),
                    victim_is_second: true,
                }
            },
            (NetworkResource::ServiceNetwork, NetworkOperation::ConnectToService) => {
                NetworkEffect::Breach {
                    experiment: service_reachability_experiment(second_namespace),
                    victim_is_second: true,
                }
            },
            (NetworkResource::ServiceNetwork, NetworkOperation::ExposeNodePort) => {
                NetworkEffect::NodePort
            },
            (NetworkResource::DnsResolution, NetworkOperation::ResolveDns) => {
                NetworkEffect::Breach {
                    experiment: dns_resolution_experiment(first_namespace),
                    victim_is_second: false,
                }
            },
            (NetworkResource::InfrastructureNetwork, NetworkOperation::ConnectToNode) => {
                NetworkEffect::NodeNetwork
            },
            _ => NetworkEffect::Settled(
                CrossTenantResult {
                    isolation: IsolationLevel::Unknown,
                    autonomy: true,
                    details: string_from("Test not implemented"),
                },
            ),
        }
    }
}

/// Every operation that is assessed has an experiment: none is settled without
/// one.
pub proof fn every_assessed_operation_has_an_experiment(
    resource: NetworkResource,
    operation: NetworkOperation,
    first_namespace: Seq<char>,
    second_namespace: Seq<char>,
)
    requires
        NetworkResource::every().contains(resource),
        belongs_to(operation, resource),
    ensures
        !(effect_check(resource, operation, first_namespace, second_namespace) is Settled),
{
}


/// What a tenant may do is what it was seen to be able to: allowed exactly where
/// its attempt went through, refused where admission says so and for the reason
/// that admission gives, and otherwise not known.
pub proof fn authorization_is_what_was_seen(
    operation: NetworkOperation,
    namespace: Seq<char>,
    log: Seq<ClusterReplyView>,
)
    requires
        log.len() > 0,
    ensures
        match authorization_step(operation, namespace, log) {
            ClusterStepView::Done(answer) => match log[0] {
                ClusterReplyView::Failed { refusal: Some(why), .. } => answer
                    == AuthorizationView::Refused(why),
                ClusterReplyView::Failed { refusal: None, error, .. } => answer
                    == AuthorizationView::Undetermined(error),
                _ => answer is Allowed,
            },
            ClusterStepView::Ask(_) => log.len() <= 2,
            ClusterStepView::Abort(_) => false,
        },
{
}

/// What is tried to learn whether a tenant may is what the operation needs: a
/// pod for reaching pods and names, a service inside the cluster, a service on a
/// node port, or a pod on the node's network. It is tried in the tenant's own
/// namespace, and what was made is deleted under the name it was made with.
pub proof fn what_is_tried_is_what_the_operation_needs(
    operation: NetworkOperation,
    namespace: Seq<char>,
    log: Seq<ClusterReplyView>,
)
    requires
        log.len() > 0,
        authorization_step(operation, namespace, log) is Done,
    ensures
        match authorization_step(operation, namespace, log.take(0)) {
            ClusterStepView::Ask(ClusterRequestView::CreatePod { side, pod }) => {
                &&& side == Side::Victim
                &&& operation is ConnectToPod || operation is ResolveDns || operation is
                    ConnectToNode
                &&& operation is ConnectToNode <==> pod.host_network == Some(true)
                &&& !(operation is ResolveDns) ==> log.len() >= 2 && authorization_step(
                    operation,
                    namespace,
                    log.take(1),
                ) == ClusterStepView::<AuthorizationView>::Ask(
                    ClusterRequestView::DeletePod { side: Side::Victim, name: pod.name },
                )
            },
            ClusterStepView::Ask(ClusterRequestView::CreateService { side, manifest }) => {
                &&& side == Side::Victim
                &&& operation is ConnectToService || operation is ExposeNodePort
                &&& says(
                    manifest,
                    "spec"@,
                    "type"@,
                    JsonView::Text(
                        if operation is ExposeNodePort {
                            "NodePort"@
                        } else {
                            "ClusterIP"@
                        },
                    ),
                )
                &&& log.len() >= 2
                &&& match authorization_step(operation, namespace, log.take(1)) {
                    ClusterStepView::Ask(
                        ClusterRequestView::DeleteService { side: of, name },
                    ) => of == Side::Victim && is_service(manifest, name, namespace),
                    _ => false,
                }
            },
            _ => false,
        },
{
    field_names_differ();
    if log.len() == 1 {
        assert(!(operation is ResolveDns) ==> authorization_step(operation, namespace, log) is Ask);
    }
}

/// The victim of an experiment is whose namespace it works in: a target's
/// service is made in the namespace of the tenant that is to be its victim.
/// Reaching pods is tried without a service in front of them, reaching services
/// with one; each is judged as what it is.
pub proof fn an_experiment_works_in_its_victims_namespace(
    resource: NetworkResource,
    operation: NetworkOperation,
    first_namespace: Seq<char>,
    second_namespace: Seq<char>,
)
    ensures
        match effect_check(resource, operation, first_namespace, second_namespace) {
            NetworkEffectView::Breach { experiment, victim_is_second } => {
                &&& match experiment.target_service {
                    Some(service) => is_service(
                        service.manifest,
                        service.name,
                        if victim_is_second {
                            second_namespace
                        } else {
                            first_namespace
                        },
                    ),
                    None => operation is ConnectToPod,
                }
                &&& match experiment.breach {
                    ConditionView::Decided(Classifier::PodReachability) => operation is
                        ConnectToPod,
                    ConditionView::Decided(Classifier::ServiceReachability) => operation is
                        ConnectToService,
                    ConditionView::Decided(Classifier::DnsResolution) => operation is ResolveDns,
                    _ => false,
                }
                &&& operation is ResolveDns <==> experiment.intruder is Anywhere
            },
            NetworkEffectView::NodePort => operation is ExposeNodePort,
            NetworkEffectView::NodeNetwork => operation is ConnectToNode,
            NetworkEffectView::Settled(result) => {
                &&& result.isolation is Unknown
                &&& !belongs_to(operation, resource)
            },
        },
{
    field_names_differ();
    let needed = resource.operations();
    match (resource, operation) {
        (NetworkResource::PodNetwork, NetworkOperation::ConnectToPod) => {},
        (NetworkResource::ServiceNetwork, NetworkOperation::ConnectToService) => {},
        (NetworkResource::ServiceNetwork, NetworkOperation::ExposeNodePort) => {},
        (NetworkResource::DnsResolution, NetworkOperation::ResolveDns) => {},
        (NetworkResource::InfrastructureNetwork, NetworkOperation::ConnectToNode) => {},
        _ => {
            assert(forall|i: int| 0 <= i < needed.len() ==> needed[i] != operation);
        },
    }
}

}
