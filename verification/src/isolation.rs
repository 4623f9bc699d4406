//! How far one tenant is kept from another, and what an experiment found.

use crate::text::string_from;
use std::cmp::Ordering;
use vstd::prelude::*;
use vstd::string::*;

verus! {

/// Isolation level for cross-tenant operations.
#[derive(Debug, PartialEq, Eq)]
pub enum IsolationLevel {
    /// Isolation level could not be determined.
    Unknown,
    /// No isolation: the cross-tenant operation succeeded and affected the
    /// other tenant's resources.
    NoIsolation,
    /// Soft isolation: the operation was blocked but reveals a shared
    /// environment, such as a refusal or a name collision.
    Soft(String),
    /// Hard isolation: the operation fails as if the system had one tenant.
    Hard,
}

/// What an isolation level says.
pub enum IsolationView {
    Unknown,
    NoIsolation,
    Soft(Seq<char>),
    Hard,
}

impl View for IsolationLevel {
    type V = IsolationView;

    open spec fn view(&self) -> IsolationView {
        match self {
            IsolationLevel::Unknown => IsolationView::Unknown,
            IsolationLevel::NoIsolation => IsolationView::NoIsolation,
            IsolationLevel::Soft(reason) => IsolationView::Soft(reason@),
            IsolationLevel::Hard => IsolationView::Hard,
        }
    }
}

impl IsolationView {
    /// Worst first: a proven breach, then nothing known, then soft, then hard.
    pub open spec fn rank(self) -> int {
        match self {
            IsolationView::NoIsolation => 0,
            IsolationView::Unknown => 1,
            IsolationView::Soft(_) => 2,
            IsolationView::Hard => 3,
        }
    }

    /// The level as a report writes it.
    pub open spec fn text(self) -> Seq<char> {
        match self {
            IsolationView::Unknown => "Unknown"@,
            IsolationView::NoIsolation => "None"@,
            IsolationView::Soft(reason) => "Soft ("@ + reason + ")"@,
            IsolationView::Hard => "Hard"@,
        }
    }
}

impl Clone for IsolationLevel {
    fn clone(&self) -> (r: IsolationLevel)
        ensures
            r@ == self@,
    {
        match self {
            IsolationLevel::Unknown => IsolationLevel::Unknown,
            IsolationLevel::NoIsolation => IsolationLevel::NoIsolation,
            IsolationLevel::Soft(reason) => IsolationLevel::Soft(reason.clone()),
            IsolationLevel::Hard => IsolationLevel::Hard,
        }
    }
}

impl PartialOrd for IsolationLevel {
    fn partial_cmp(&self, other: &IsolationLevel) -> (r: Option<Ordering>) {
        let (mine, theirs): (u8, u8) = (self.rank(), other.rank());
        if mine < theirs {
            Some(Ordering::Less)
        } else if mine == theirs {
            Some(Ordering::Equal)
        } else {
            Some(Ordering::Greater)
        }
    }
}

impl vstd::std_specs::cmp::PartialOrdSpecImpl for IsolationLevel {
    open spec fn obeys_partial_cmp_spec() -> bool {
        true
    }

    open spec fn partial_cmp_spec(&self, other: &IsolationLevel) -> Option<Ordering> {
        if self@.rank() < other@.rank() {
            Some(Ordering::Less)
        } else if self@.rank() == other@.rank() {
            Some(Ordering::Equal)
        } else {
            Some(Ordering::Greater)
        }
    }
}

impl IsolationLevel {
    /// Where the level stands among the others, worst first.
    pub fn rank(&self) -> (r: u8)
        ensures
            r == self@.rank(),
    {
        match self {
            IsolationLevel::NoIsolation => 0,
            IsolationLevel::Unknown => 1,
            IsolationLevel::Soft(_) => 2,
            IsolationLevel::Hard => 3,
        }
    }

    /// The level as a report writes it.
    pub fn label(&self) -> (r: String)
        ensures
            r@ == self@.text(),
    {
        match self {
            IsolationLevel::Unknown => string_from("Unknown"),
            IsolationLevel::NoIsolation => string_from("None"),
            IsolationLevel::Soft(reason) => string_from("Soft (").concat(reason).concat(")"),
            IsolationLevel::Hard => string_from("Hard"),
        }
    }

    /// Soft isolation for the given reason.
    pub fn soft(reason: &str) -> (r: IsolationLevel)
        ensures
            r@ == IsolationView::Soft(reason@),
    {
        IsolationLevel::Soft(string_from(reason))
    }
}

/// What a list of levels says.
pub open spec fn level_views(levels: Seq<IsolationLevel>) -> Seq<IsolationView> {
    Seq::new(levels.len(), |i: int| levels[i]@)
}

/// The lowest of the levels, the first of several; hard where there is none.
pub open spec fn overall_level(levels: Seq<IsolationView>) -> IsolationView
    decreases levels.len(),
{
    if levels.len() == 0 {
        IsolationView::Hard
    } else if levels.len() == 1 || levels.last().rank() < overall_level(levels.drop_last()).rank() {
        levels.last()
    } else {
        overall_level(levels.drop_last())
    }
}

/// The levels that were determined, in their order.
pub open spec fn known_levels(levels: Seq<IsolationView>) -> Seq<IsolationView>
    decreases levels.len(),
{
    if levels.len() == 0 {
        levels
    } else if levels.last() is Unknown {
        known_levels(levels.drop_last())
    } else {
        known_levels(levels.drop_last()).push(levels.last())
    }
}

/// The lowest of the levels that were determined, where one was.
pub open spec fn min_known_level(levels: Seq<IsolationView>) -> Option<IsolationView> {
    if known_levels(levels).len() == 0 {
        None
    } else {
        Some(overall_level(known_levels(levels)))
    }
}

/// The overall level is one of the levels, none is lower, and those before it
/// are higher.
pub proof fn overall_level_is_the_first_minimum(levels: Seq<IsolationView>)
    requires
        levels.len() > 0,
    ensures
        exists|at: int|
            {
                &&& 0 <= at < levels.len()
                &&& #[trigger] levels[at] == overall_level(levels)
                &&& forall|i: int| 0 <= i < at ==> levels[at].rank() < (#[trigger] levels[i]).rank()
            },
        forall|i: int|
            0 <= i < levels.len() ==> overall_level(levels).rank() <= (#[trigger] levels[i]).rank(),
    decreases levels.len(),
{
    let last = levels.len() - 1;
    if levels.len() == 1 {
        assert(levels[0] == overall_level(levels));
    } else {
        let before = levels.drop_last();
        overall_level_is_the_first_minimum(before);
        let at = choose|at: int|
            {
                &&& 0 <= at < before.len()
                &&& #[trigger] before[at] == overall_level(before)
                &&& forall|i: int| 0 <= i < at ==> before[at].rank() < (#[trigger] before[i]).rank()
            };
        assert forall|i: int| 0 <= i < levels.len() implies overall_level(levels).rank() <= (
        #[trigger] levels[i]).rank() by {
            if i < last {
                assert(before[i] == levels[i]);
            }
        }
        if levels.last().rank() < overall_level(before).rank() {
            assert forall|i: int| 0 <= i < last implies levels[last].rank() < (
            #[trigger] levels[i]).rank() by {
                assert(before[i] == levels[i]);
            }
            assert(levels[last] == overall_level(levels));
        } else {
            assert(levels[at] == before[at]);
            assert forall|i: int| 0 <= i < at implies levels[at].rank() < (
            #[trigger] levels[i]).rank() by {
                assert(before[i] == levels[i]);
            }
            assert(levels[at] == overall_level(levels));
        }
    }
}

/// A determined level is one of the levels.
proof fn known_levels_are_levels(levels: Seq<IsolationView>)
    ensures
        forall|i: int|
            0 <= i < known_levels(levels).len() ==> !((#[trigger] known_levels(levels)[i]) is Unknown),
        forall|i: int|
            0 <= i < levels.len() && !((#[trigger] levels[i]) is Unknown) ==> known_levels(
                levels,
            ).contains(levels[i]),
    decreases levels.len(),
{
    if levels.len() > 0 {
        let before = levels.drop_last();
        known_levels_are_levels(before);
        assert forall|i: int| 0 <= i < levels.len() && !((#[trigger] levels[i])
            is Unknown) implies known_levels(levels).contains(levels[i]) by {
            if i < levels.len() - 1 {
                assert(before[i] == levels[i]);
                let k = choose|k: int|
                    0 <= k < known_levels(before).len() && known_levels(before)[k] == before[i];
                assert(known_levels(levels)[k] == levels[i]);
            } else {
                let k = known_levels(levels).len() - 1;
                assert(known_levels(levels)[k] == levels[i]);
            }
        }
    }
}

/// The lowest determined level is never the undetermined one, is no higher than
/// any determined one, and is missing only where nothing was determined.
pub proof fn min_known_level_bounds_what_is_known(levels: Seq<IsolationView>)
    ensures
        match min_known_level(levels) {
            Some(level) => !(level is Unknown) && forall|i: int|
                0 <= i < levels.len() && !((#[trigger] levels[i]) is Unknown) ==> level.rank()
                    <= levels[i].rank(),
            None => forall|i: int| 0 <= i < levels.len() ==> (#[trigger] levels[i]) is Unknown,
        },
{
    known_levels_are_levels(levels);
    let known = known_levels(levels);
    if known.len() > 0 {
        overall_level_is_the_first_minimum(known);
        let level = overall_level(known);
        let at = choose|at: int| 0 <= at < known.len() && #[trigger] known[at] == level;
        assert(!(known[at] is Unknown));
        assert forall|i: int| 0 <= i < levels.len() && !((#[trigger] levels[i])
            is Unknown) implies level.rank() <= levels[i].rank() by {
            let k = choose|k: int| 0 <= k < known.len() && known[k] == levels[i];
            assert(level.rank() <= known[k].rank());
        }
    }
}

/// One more level never raises the overall one.
pub proof fn more_levels_never_raise_the_overall_one(
    levels: Seq<IsolationView>,
    level: IsolationView,
)
    ensures
        overall_level(levels.push(level)).rank() <= overall_level(levels).rank(),
        overall_level(levels.push(level)).rank() <= level.rank(),
{
    assert(levels.push(level).drop_last() =~= levels);
}

/// The lowest of the levels, the first of several; hard where there is none.
pub fn compute_overall_isolation_level(levels: &Vec<IsolationLevel>) -> (r: IsolationLevel)
    ensures
        r@ == overall_level(level_views(levels@)),
{
    if levels.len() == 0 {
        return IsolationLevel::Hard;
    }
    let ghost views = level_views(levels@);
    let mut best: usize = 0;
    let mut i: usize = 1;
    assert(views.take(1).last() == views[0]);
    while i < levels.len()
        invariant
            1 <= i <= levels.len(),
            best < levels.len(),
            views == level_views(levels@),
            levels[best as int]@ == overall_level(views.take(i as int)),
        decreases levels.len() - i,
    {
        assert(views.take(i + 1).drop_last() =~= views.take(i as int));
        assert(views.take(i + 1).last() == levels[i as int]@);
        if levels[i] < levels[best] {
            best = i;
        }
        i += 1;
    }
    assert(views.take(levels.len() as int) =~= views);
    levels[best].clone()
}

/// The lowest of the levels that were determined; nothing where none was.
pub fn compute_min_known_isolation_level(levels: &Vec<IsolationLevel>) -> (r: Option<
    IsolationLevel,
>)
    ensures
        match r {
            Some(level) => min_known_level(level_views(levels@)) == Some(level@),
            None => min_known_level(level_views(levels@)) is None,
        },
{
    let mut known: Vec<IsolationLevel> = Vec::new();
    let mut i: usize = 0;
    while i < levels.len()
        invariant
            i <= levels.len(),
            level_views(known@) =~= known_levels(level_views(levels@).subrange(0, i as int)),
        decreases levels.len() - i,
    {
        let ghost seen = level_views(levels@).subrange(0, i + 1);
        assert(seen.drop_last() =~= level_views(levels@).subrange(0, i as int));
        assert(seen.last() == levels[i as int]@);
        if !matches!(levels[i], IsolationLevel::Unknown) {
            let ghost before = known@;
            known.push(levels[i].clone());
            assert(level_views(known@) =~= level_views(before).push(levels[i as int]@));
        }
        i += 1;
    }
    assert(level_views(levels@).subrange(0, levels.len() as int) =~= level_views(levels@));
    if known.len() == 0 {
        None
    } else {
        Some(compute_overall_isolation_level(&known))
    }
}

/// Result from a cross-tenant operation attempt.
#[derive(Debug)]
pub struct CrossTenantResult {
    /// The isolation level determined from the operation.
    pub isolation: IsolationLevel,
    /// Whether the operation had autonomy, that is, was permitted.
    pub autonomy: bool,
    /// Detailed description of what happened.
    pub details: String,
}

/// What a cross-tenant result says.
pub struct CrossTenantView {
    pub isolation: IsolationView,
    pub autonomy: bool,
    pub details: Seq<char>,
}

impl View for CrossTenantResult {
    type V = CrossTenantView;

    open spec fn view(&self) -> CrossTenantView {
        CrossTenantView {
            isolation: self.isolation@,
            autonomy: self.autonomy,
            details: self.details@,
        }
    }
}

impl Clone for CrossTenantResult {
    fn clone(&self) -> (r: CrossTenantResult)
        ensures
            r@ == self@,
    {
        CrossTenantResult {
            isolation: self.isolation.clone(),
            autonomy: self.autonomy,
            details: self.details.clone(),
        }
    }
}

}
