//! Assessments of operations, resources and subsystems.

use crate::isolation::{CrossTenantResult, CrossTenantView, IsolationLevel, IsolationView};
use crate::text::{decimal, decimal_of, joined6, separated, string_from};
use vstd::prelude::*;
use vstd::string::*;

verus! {

/// A system that can be assessed.
#[derive(Debug, Clone, Copy, PartialEq, Eq, Structural)]
pub enum System {
    ControlPlane,
    Storage,
    Network,
    Workload,
}

/// Configuration for which assessment systems to run.
#[derive(Debug, Clone, Copy, PartialEq, Eq, Structural)]
pub struct AssessmentConfig {
    pub control_plane: bool,
    pub storage: bool,
    pub network: bool,
    pub workload: bool,
}

impl Default for AssessmentConfig {
    fn default() -> (r: AssessmentConfig)
        ensures
            r == (AssessmentConfig {
                control_plane: false,
                storage: false,
                network: false,
                workload: false,
            }),
    {
        AssessmentConfig { control_plane: false, storage: false, network: false, workload: false }
    }
}

impl AssessmentConfig {
    /// At least one system is enabled.
    pub open spec fn any(self) -> bool {
        self.control_plane || self.storage || self.network || self.workload
    }

    /// The names of the enabled systems, in the order of assessment.
    pub open spec fn system_names(self) -> Seq<Seq<char>> {
        (if self.control_plane {
            seq!["control-plane"@]
        } else {
            seq![]
        }) + (if self.storage {
            seq!["storage"@]
        } else {
            seq![]
        }) + (if self.network {
            seq!["network"@]
        } else {
            seq![]
        }) + (if self.workload {
            seq!["workload"@]
        } else {
            seq![]
        })
    }

    /// A config with all systems enabled.
    pub fn all() -> (r: AssessmentConfig)
        ensures
            r == (AssessmentConfig {
                control_plane: true,
                storage: true,
                network: true,
                workload: true,
            }),
    {
        AssessmentConfig { control_plane: true, storage: true, network: true, workload: true }
    }

    /// A config with no systems enabled.
    pub fn none() -> (r: AssessmentConfig)
        ensures
            !r.any(),
    {
        AssessmentConfig { control_plane: false, storage: false, network: false, workload: false }
    }

    /// A config from command line flags: without any flag all systems are
    /// enabled, with any flag exactly the flagged ones.
    pub fn from_flags(control_plane: bool, storage: bool, network: bool, workload: bool) -> (r:
        AssessmentConfig)
        ensures
            r.any(),
            control_plane || storage || network || workload ==> r == (AssessmentConfig {
                control_plane,
                storage,
                network,
                workload,
            }),
            !(control_plane || storage || network || workload) ==> r == (AssessmentConfig {
                control_plane: true,
                storage: true,
                network: true,
                workload: true,
            }),
    {
        let any_specified = control_plane || storage || network || workload;
        if any_specified {
            AssessmentConfig { control_plane, storage, network, workload }
        } else {
            AssessmentConfig::all()
        }
    }

    /// Whether any system is enabled.
    pub fn has_any(&self) -> (r: bool)
        ensures
            r == self.any(),
    {
        self.control_plane || self.storage || self.network || self.workload
    }

    /// The enabled systems in the order in which they are assessed, each with the
    /// seconds that the cluster is given to recover afterwards.
    pub open spec fn order(self) -> Seq<(System, u64)> {
        (if self.control_plane {
            seq![(System::ControlPlane, 10u64)]
        } else {
            seq![]
        }) + (if self.storage {
            seq![(System::Storage, 2u64)]
        } else {
            seq![]
        }) + (if self.network {
            seq![(System::Network, 2u64)]
        } else {
            seq![]
        }) + (if self.workload {
            seq![(System::Workload, 0u64)]
        } else {
            seq![]
        })
    }

    /// The enabled systems in the order in which they are assessed, each with the
    /// seconds that the cluster is given to recover afterwards.
    pub fn plan(&self) -> (r: Vec<(System, u64)>)
        ensures
            r@ == self.order(),
    {
        let mut systems: Vec<(System, u64)> = Vec::new();
        if self.control_plane {
            systems.push((System::ControlPlane, 10));
        }
        if self.storage {
            systems.push((System::Storage, 2));
        }
        if self.network {
            systems.push((System::Network, 2));
        }
        if self.workload {
            systems.push((System::Workload, 0));
        }
        assert(systems@ =~= self.order());
        systems
    }

    /// The names of the enabled systems.
    pub fn enabled_systems(&self) -> (r: Vec<&'static str>)
        ensures
            str_views(r@) == self.system_names(),
    {
        let mut systems: Vec<&'static str> = Vec::new();
        if self.control_plane {
            systems.push("control-plane");
        }
        if self.storage {
            systems.push("storage");
        }
        if self.network {
            systems.push("network");
        }
        if self.workload {
            systems.push("workload");
        }
        assert(str_views(systems@) =~= self.system_names());
        systems
    }

    /// What the config says in words.
    pub fn label(&self) -> (r: String)
        ensures
            !self.any() ==> r@ == "No systems enabled"@,
            self.any() ==> r@ == "Assessing "@ + separated(self.system_names(), ", "@),
    {
        let systems = self.enabled_systems();
        assert(systems.len() == self.system_names().len());
        if systems.len() == 0 {
            string_from("No systems enabled")
        } else {
            string_from("Assessing ").concat(&separated_by(&systems, ", "))
        }
    }
}

/// What a list of string slices says.
pub open spec fn str_views(list: Seq<&'static str>) -> Seq<Seq<char>> {
    Seq::new(list.len(), |i: int| list[i]@)
}

/// The parts one after another with `separator` between them.
pub fn separated_by(parts: &Vec<&'static str>, separator: &str) -> (r: String)
    ensures
        r@ == separated(str_views(parts@), separator@),
{
    let mut out = String::new();
    let ghost views = str_views(parts@);
    let mut i: usize = 0;
    while i < parts.len()
        invariant
            i <= parts.len(),
            views == str_views(parts@),
            out@ == separated(views.take(i as int), separator@),
        decreases parts.len() - i,
    {
        assert(views.take(i + 1).drop_last() =~= views.take(i as int));
        assert(views.take(i + 1).last() == parts[i as int]@);
        if i > 0 {
            out.append(separator);
        } else {
            assert(Seq::<char>::empty() + parts[i as int]@ =~= parts[i as int]@);
        }
        out.append(parts[i]);
        i += 1;
    }
    assert(views.take(parts.len() as int) =~= views);
    out
}

/// An operation that can be performed on a resource.
pub trait AssessableOperation: Sized {
    /// The operation as a report writes it.
    spec fn text(&self) -> Seq<char>;

    /// The operation as a report writes it.
    fn label(&self) -> (r: String)
        ensures
            r@ == self.text(),
    ;

    /// Whether two operations are the same.
    fn same(&self, other: &Self) -> (r: bool)
        ensures
            r == (*self == *other),
    ;

    /// The same operation once more.
    fn duplicate(&self) -> (r: Self)
        ensures
            r == *self,
    ;
}

/// A resource that can be assessed for multi-tenancy properties.
pub trait AssessableResource: Sized {
    type Operation: AssessableOperation;

    /// The resource as a report writes it.
    spec fn text(&self) -> Seq<char>;

    /// Every resource of the subsystem, in the order of assessment.
    spec fn every() -> Seq<Self>;

    /// The operations that apply to the resource, in the order of assessment.
    spec fn operations(&self) -> Seq<Self::Operation>;

    /// The resource as a report writes it.
    fn label(&self) -> (r: String)
        ensures
            r@ == self.text(),
    ;

    /// Every resource of the subsystem.
    fn all() -> (r: Vec<Self>)
        ensures
            r@ == Self::every(),
    ;

    /// The operations that apply to the resource.
    fn applicable_operations(&self) -> (r: Vec<Self::Operation>)
        ensures
            r@ == self.operations(),
    ;
}

/// The subsystem that an assessor covers. Its checks ask the clusters, so they
/// are experiments that a caller runs step by step.
pub trait MultitenancyAssessor {
    type Resource: AssessableResource;

    /// The subsystem as a report writes it.
    spec fn title(&self) -> Seq<char>;

    /// The subsystem as a report writes it.
    fn name(&self) -> (r: &'static str)
        ensures
            r@ == self.title(),
    ;
}

/// What the experiments need to know of a tenant.
#[derive(Debug)]
pub struct TenantClusterConfig {
    /// The namespace for the resources that the tests create.
    pub namespace: String,
}

/// Result of assessing a single operation.
#[derive(Debug)]
pub struct OperationAssessment {
    pub isolation: IsolationLevel,
    pub autonomy: bool,
    pub details: Option<String>,
}

/// What an operation's assessment says.
pub struct OperationView {
    pub isolation: IsolationView,
    pub autonomy: bool,
    pub details: Option<Seq<char>>,
}

impl View for OperationAssessment {
    type V = OperationView;

    open spec fn view(&self) -> OperationView {
        OperationView {
            isolation: self.isolation@,
            autonomy: self.autonomy,
            details: match self.details {
                Some(text) => Some(text@),
                None => None,
            },
        }
    }
}

impl Clone for OperationAssessment {
    fn clone(&self) -> (r: OperationAssessment)
        ensures
            r@ == self@,
    {
        OperationAssessment {
            isolation: self.isolation.clone(),
            autonomy: self.autonomy,
            details: match &self.details {
                Some(text) => Some(text.clone()),
                None => None,
            },
        }
    }
}

/// The assessment of an operation that the tenant may not perform at all: there
/// is no autonomy, and nothing can be reached.
pub open spec fn unauthorized() -> OperationView {
    OperationView {
        isolation: IsolationView::Hard,
        autonomy: false,
        details: Some("Operation not authorized"@),
    }
}

/// The assessment of an operation whose effect was checked.
pub open spec fn of_effect(effect: CrossTenantView) -> OperationView {
    OperationView {
        isolation: effect.isolation,
        autonomy: effect.autonomy,
        details: Some(effect.details),
    }
}

/// Decides on an operation: an unauthorized one is assessed at once, an
/// authorized one by its cross-tenant effect. Nothing comes back while that
/// effect is still to be checked.
pub fn assess_operation(authorized: bool, effect: Option<CrossTenantResult>) -> (r: Option<
    OperationAssessment,
>)
    ensures
        match r {
            Some(assessment) => if authorized {
                effect matches Some(e) && assessment@ == of_effect(e@)
            } else {
                assessment@ == unauthorized()
            },
            None => authorized && effect is None,
        },
{
    if !authorized {
        return Some(
            OperationAssessment {
                autonomy: false,
                isolation: IsolationLevel::Hard,
                details: Some(string_from("Operation not authorized")),
            },
        );
    }
    match effect {
        Some(result) => Some(
            OperationAssessment {
                autonomy: result.autonomy,
                isolation: result.isolation,
                details: Some(result.details),
            },
        ),
        None => None,
    }
}

/// Represents an autonomy ratio with allowed and total counts.
#[derive(Debug, Clone, Copy, PartialEq, Eq, Structural)]
pub struct AutonomyRatio {
    pub allowed: usize,
    pub total: usize,
}

impl Default for AutonomyRatio {
    fn default() -> (r: AutonomyRatio)
        ensures
            r == (AutonomyRatio { allowed: 0, total: 0 }),
    {
        AutonomyRatio { allowed: 0, total: 0 }
    }
}

impl AutonomyRatio {
    /// No more is allowed than there is.
    pub open spec fn well_formed(self) -> bool {
        self.allowed <= self.total
    }

    /// Adds the counts of another ratio.
    pub fn add(&mut self, other: &AutonomyRatio)
        requires
            old(self).allowed + other.allowed <= usize::MAX,
            old(self).total + other.total <= usize::MAX,
        ensures
            final(self).allowed == old(self).allowed + other.allowed,
            final(self).total == old(self).total + other.total,
            old(self).well_formed() && other.well_formed() ==> final(self).well_formed(),
    {
        self.allowed = self.allowed + other.allowed;
        self.total = self.total + other.total;
    }

    /// The ratio as a report writes it, with the given percentage.
    pub open spec fn text(self, percentage: Seq<char>) -> Seq<char> {
        decimal(self.allowed as nat) + "/"@ + decimal(self.total as nat) + " ("@ + percentage
            + "%)"@
    }

    /// The ratio as a report writes it; `percentage` is what is allowed, in percent
    /// with one decimal.
    pub fn label(&self, percentage: &str) -> (r: String)
        ensures
            r@ == self.text(percentage@),
    {
        joined6(
            &decimal_of(self.allowed as u64),
            "/",
            &decimal_of(self.total as u64),
            " (",
            percentage,
            "%)",
        )
    }

    /// Whether everything that was tried is allowed, and something was.
    pub fn is_perfect(&self) -> (r: bool)
        ensures
            r == (self.total > 0 && self.allowed == self.total),
    {
        self.total > 0 && self.allowed == self.total
    }

    /// Whether at least half of what was tried is allowed, and something was.
    pub fn is_half(&self) -> (r: bool)
        ensures
            r == (self.total > 0 && 2 * self.allowed >= self.total),
    {
        self.total > 0 && 2 * (self.allowed as u128) >= self.total as u128
    }
}

}
