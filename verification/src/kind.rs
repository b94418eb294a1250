//! What a behaviour unit can be: its kind, the phase a scheduled system
//! runs in, and how it is ordered against the other systems of that phase.

use crate::text::{copy_texts, texts_eq, Text};
use vstd::prelude::*;
use vstd::string::*;

verus! {

/// A priority rank. `Highest` runs first and `Lowest` last; `Custom(n)` sits
/// on the same scale, a larger `n` running earlier.
#[derive(Clone, Copy, PartialEq, Eq, Structural, Debug)]
pub enum Rank {
    Highest,
    High,
    Normal,
    Low,
    Lowest,
    Custom(u32),
}

/// The position of a rank on the scale: systems are chained by ascending
/// position, so `Highest` is 0 and `Lowest` the largest value.
pub open spec fn rank_position(rank: Rank) -> int {
    match rank {
        Rank::Highest => 0,
        Rank::High => 1073741823,
        Rank::Normal => 2147483647,
        Rank::Low => 3221225469,
        Rank::Lowest => 4294967295,
        Rank::Custom(n) => 4294967295 - n,
    }
}

impl Rank {
    /// The position of this rank on the scale.
    pub fn position(&self) -> (at: u32)
        ensures
            at == rank_position(*self),
    {
        match self {
            Rank::Highest => 0,
            Rank::High => 1073741823,
            Rank::Normal => 2147483647,
            Rank::Low => 3221225469,
            Rank::Lowest => 4294967295,
            Rank::Custom(n) => 4294967295 - *n,
        }
    }
}

/// How a scheduled system is ordered inside its phase.
#[derive(Debug, PartialEq, Eq)]
pub enum OrderingSpec {
    /// Nothing was asked: the system is chained at `Normal` rank.
    Unspecified,
    /// Chained at the given rank.
    Priority(Rank),
    /// Runs before the named system of the same phase.
    Before(String),
    /// Runs after the named system of the same phase.
    After(String),
    /// Feeds its result into the named system of the same phase.
    Pipe(String),
}

/// The mathematical value of an [`OrderingSpec`].
pub enum OrderingModel {
    Unspecified,
    Priority(Rank),
    Before(Text),
    After(Text),
    Pipe(Text),
}

impl View for OrderingSpec {
    type V = OrderingModel;

    open spec fn view(&self) -> OrderingModel {
        match self {
            OrderingSpec::Unspecified => OrderingModel::Unspecified,
            OrderingSpec::Priority(rank) => OrderingModel::Priority(*rank),
            OrderingSpec::Before(name) => OrderingModel::Before(name@),
            OrderingSpec::After(name) => OrderingModel::After(name@),
            OrderingSpec::Pipe(name) => OrderingModel::Pipe(name@),
        }
    }
}

impl OrderingSpec {
    /// A copy of this ordering.
    pub fn duplicate(&self) -> (copy: OrderingSpec)
        ensures
            copy@ == self@,
    {
        match self {
            OrderingSpec::Unspecified => OrderingSpec::Unspecified,
            OrderingSpec::Priority(rank) => OrderingSpec::Priority(*rank),
            OrderingSpec::Before(name) => OrderingSpec::Before(name.clone()),
            OrderingSpec::After(name) => OrderingSpec::After(name.clone()),
            OrderingSpec::Pipe(name) => OrderingSpec::Pipe(name.clone()),
        }
    }
}

/// The phase a scheduled system is registered in. The state value of
/// `OnEnter` and `OnExit` is kept as its token list, so two phases are equal
/// exactly when their kinds and their state-value tokens are.
#[derive(Debug, PartialEq, Eq)]
pub enum PhaseExpr {
    Startup,
    Update,
    OnEnter(Vec<String>),
    OnExit(Vec<String>),
}

/// The mathematical value of a [`PhaseExpr`].
pub enum PhaseModel {
    Startup,
    Update,
    OnEnter(Seq<Text>),
    OnExit(Seq<Text>),
}

impl View for PhaseExpr {
    type V = PhaseModel;

    open spec fn view(&self) -> PhaseModel {
        match self {
            PhaseExpr::Startup => PhaseModel::Startup,
            PhaseExpr::Update => PhaseModel::Update,
            PhaseExpr::OnEnter(state) => PhaseModel::OnEnter(state.deep_view()),
            PhaseExpr::OnExit(state) => PhaseModel::OnExit(state.deep_view()),
        }
    }
}

impl PhaseExpr {
    /// A copy of this phase.
    pub fn duplicate(&self) -> (copy: PhaseExpr)
        ensures
            copy@ == self@,
    {
        match self {
            PhaseExpr::Startup => PhaseExpr::Startup,
            PhaseExpr::Update => PhaseExpr::Update,
            PhaseExpr::OnEnter(state) => PhaseExpr::OnEnter(copy_texts(state)),
            PhaseExpr::OnExit(state) => PhaseExpr::OnExit(copy_texts(state)),
        }
    }

    /// Structural equality: the same kind of phase and, for the two state
    /// phases, the same state-value tokens.
    pub fn same_as(&self, other: &PhaseExpr) -> (same: bool)
        ensures
            same == (self@ == other@),
    {
        match self {
            PhaseExpr::Startup => match other {
                PhaseExpr::Startup => true,
                _ => false,
            },
            PhaseExpr::Update => match other {
                PhaseExpr::Update => true,
                _ => false,
            },
            PhaseExpr::OnEnter(state) => match other {
                PhaseExpr::OnEnter(theirs) => texts_eq(state, theirs),
                _ => false,
            },
            PhaseExpr::OnExit(state) => match other {
                PhaseExpr::OnExit(theirs) => texts_eq(state, theirs),
                _ => false,
            },
        }
    }
}

/// The kind of a behaviour unit: exactly one per unit.
#[derive(Debug, PartialEq, Eq)]
pub enum FunctionKind {
    /// An ordinary helper, exposed as a method of the plugin.
    Plain,
    /// A hook that the construction procedure invokes on the plugin.
    LifecycleBuild,
    /// A function whose result is inserted as a resource at construction.
    ResourceFactory,
    /// A system registered in one phase.
    ScheduledSystem { phase: PhaseExpr, ordering: OrderingSpec },
    /// A unit invoked when an event of `event_kind` touches `component_type`.
    Observer { event_kind: Vec<String>, component_type: Vec<String> },
}

/// The mathematical value of a [`FunctionKind`].
pub enum KindModel {
    Plain,
    LifecycleBuild,
    ResourceFactory,
    ScheduledSystem { phase: PhaseModel, ordering: OrderingModel },
    Observer { event_kind: Seq<Text>, component_type: Seq<Text> },
}

impl View for FunctionKind {
    type V = KindModel;

    open spec fn view(&self) -> KindModel {
        match self {
            FunctionKind::Plain => KindModel::Plain,
            FunctionKind::LifecycleBuild => KindModel::LifecycleBuild,
            FunctionKind::ResourceFactory => KindModel::ResourceFactory,
            FunctionKind::ScheduledSystem { phase, ordering } => KindModel::ScheduledSystem {
                phase: phase@,
                ordering: ordering@,
            },
            FunctionKind::Observer { event_kind, component_type } => KindModel::Observer {
                event_kind: event_kind.deep_view(),
                component_type: component_type.deep_view(),
            },
        }
    }
}

impl FunctionKind {
    /// A copy of this kind.
    pub fn duplicate(&self) -> (copy: FunctionKind)
        ensures
            copy@ == self@,
    {
        match self {
            FunctionKind::Plain => FunctionKind::Plain,
            FunctionKind::LifecycleBuild => FunctionKind::LifecycleBuild,
            FunctionKind::ResourceFactory => FunctionKind::ResourceFactory,
            FunctionKind::ScheduledSystem { phase, ordering } => FunctionKind::ScheduledSystem {
                phase: phase.duplicate(),
                ordering: ordering.duplicate(),
            },
            FunctionKind::Observer { event_kind, component_type } => FunctionKind::Observer {
                event_kind: copy_texts(event_kind),
                component_type: copy_texts(component_type),
            },
        }
    }
}

} // verus!
