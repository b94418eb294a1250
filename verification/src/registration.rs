//! The registration calls that a plugin issues into the host runtime when
//! it is constructed, and the system sets that the phase calls carry.

use crate::kind::{PhaseExpr, PhaseModel};
use crate::text::{copy_texts, Text};
use vstd::prelude::*;
use vstd::string::*;

verus! {

/// How the subject of an edge relates to its target.
#[derive(Clone, Copy, PartialEq, Eq, Structural, Debug)]
pub enum Relation {
    /// The subject runs before the target.
    Before,
    /// The subject runs after the target.
    After,
    /// The subject runs first and hands its result to the target.
    Pipe,
}

/// The tag that asks for a relation.
pub open spec fn relation_tag(relation: Relation) -> Text {
    match relation {
        Relation::Before => "before"@,
        Relation::After => "after"@,
        Relation::Pipe => "pipe"@,
    }
}

impl Relation {
    /// The tag that asks for this relation.
    pub fn tag_name(&self) -> (name: &'static str)
        ensures
            name@ == relation_tag(*self),
    {
        match self {
            Relation::Before => "before",
            Relation::After => "after",
            Relation::Pipe => "pipe",
        }
    }
}

/// One relative-order constraint between two systems of a phase.
#[derive(Debug, PartialEq, Eq)]
pub struct Edge {
    pub subject: String,
    pub relation: Relation,
    pub target: String,
}

/// The mathematical value of an [`Edge`].
pub struct EdgeModel {
    pub subject: Text,
    pub relation: Relation,
    pub target: Text,
}

impl View for Edge {
    type V = EdgeModel;

    open spec fn view(&self) -> EdgeModel {
        EdgeModel { subject: self.subject@, relation: self.relation, target: self.target@ }
    }
}

impl DeepView for Edge {
    type V = EdgeModel;

    open spec fn deep_view(&self) -> EdgeModel {
        self@
    }
}

impl Edge {
    /// A copy of this edge.
    pub fn duplicate(&self) -> (copy: Edge)
        ensures
            copy@ == self@,
    {
        Edge {
            subject: self.subject.clone(),
            relation: self.relation,
            target: self.target.clone(),
        }
    }
}

/// The systems of one phase as they are handed to the host: one strictly
/// ordered chain, beside it the independent edges, and the systems that
/// are registered free of any order. Nothing else about their order is
/// encoded.
#[derive(Debug, PartialEq, Eq)]
pub struct SystemSet {
    pub chain: Vec<String>,
    pub edges: Vec<Edge>,
    pub free: Vec<String>,
}

/// The mathematical value of a [`SystemSet`].
pub struct SystemSetModel {
    pub chain: Seq<Text>,
    pub edges: Seq<EdgeModel>,
    pub free: Seq<Text>,
}

impl View for SystemSet {
    type V = SystemSetModel;

    open spec fn view(&self) -> SystemSetModel {
        SystemSetModel {
            chain: self.chain.deep_view(),
            edges: self.edges.deep_view(),
            free: self.free.deep_view(),
        }
    }
}

/// The set that registers `systems` free of any order.
pub open spec fn free_set(systems: Seq<Text>) -> SystemSetModel {
    SystemSetModel {
        chain: Seq::<Text>::empty(),
        edges: Seq::<EdgeModel>::empty(),
        free: systems,
    }
}

/// A fresh copy of every edge of `edges`, in order.
pub fn copy_edges(edges: &Vec<Edge>) -> (out: Vec<Edge>)
    ensures
        out.deep_view() == edges.deep_view(),
{
    let mut out: Vec<Edge> = Vec::new();
    let mut i: usize = 0;
    while i < edges.len()
        invariant
            i <= edges.len(),
            out.len() == i,
            forall|k: int| 0 <= k < i ==> out[k]@ == edges[k]@,
        decreases edges.len() - i,
    {
        out.push(edges[i].duplicate());
        i += 1;
    }
    assert(out.deep_view() =~= edges.deep_view());
    out
}

impl SystemSet {
    /// The set of systems registered free of any order.
    pub fn unordered(systems: Vec<String>) -> (set: SystemSet)
        ensures
            set@ == free_set(systems.deep_view()),
    {
        let chain = Vec::new();
        let edges = Vec::new();
        assert(chain.deep_view() =~= Seq::<Text>::empty());
        assert(edges.deep_view() =~= Seq::<EdgeModel>::empty());
        SystemSet { chain, edges, free: systems }
    }

    /// A copy of this set.
    pub fn duplicate(&self) -> (copy: SystemSet)
        ensures
            copy@ == self@,
    {
        SystemSet {
            chain: copy_texts(&self.chain),
            edges: copy_edges(&self.edges),
            free: copy_texts(&self.free),
        }
    }
}

/// One call of the construction procedure of a plugin.
#[derive(Debug, PartialEq, Eq)]
pub enum Registration {
    /// `add_event<E>()`.
    AddEvent(String),
    /// `init_resource<R>()`: the resource starts from its default value.
    InitResource(String),
    /// `insert_resource(value)`: the resource starts from the given value.
    InsertResource(Vec<String>),
    /// `register_type<T>()`.
    RegisterType(String),
    /// `init_state<S>()`: the state starts from its default variant.
    InitState(String),
    /// `insert_state(value)`: the state starts from the given value.
    InsertState(Vec<String>),
    /// `add_systems(phase, set)`.
    AddSystems { phase: PhaseExpr, set: SystemSet },
    /// `insert_resource(factory())`: the factory runs once, at construction.
    InsertFactory(String),
    /// `observe(observer)`.
    Observe(String),
}

/// The mathematical value of a [`Registration`].
pub enum RegistrationModel {
    AddEvent(Text),
    InitResource(Text),
    InsertResource(Seq<Text>),
    RegisterType(Text),
    InitState(Text),
    InsertState(Seq<Text>),
    AddSystems { phase: PhaseModel, set: SystemSetModel },
    InsertFactory(Text),
    Observe(Text),
}

impl View for Registration {
    type V = RegistrationModel;

    open spec fn view(&self) -> RegistrationModel {
        match self {
            Registration::AddEvent(name) => RegistrationModel::AddEvent(name@),
            Registration::InitResource(name) => RegistrationModel::InitResource(name@),
            Registration::InsertResource(value) => RegistrationModel::InsertResource(
                value.deep_view(),
            ),
            Registration::RegisterType(name) => RegistrationModel::RegisterType(name@),
            Registration::InitState(name) => RegistrationModel::InitState(name@),
            Registration::InsertState(value) => RegistrationModel::InsertState(value.deep_view()),
            Registration::AddSystems { phase, set } => RegistrationModel::AddSystems {
                phase: phase@,
                set: set@,
            },
            Registration::InsertFactory(name) => RegistrationModel::InsertFactory(name@),
            Registration::Observe(name) => RegistrationModel::Observe(name@),
        }
    }
}

impl DeepView for Registration {
    type V = RegistrationModel;

    open spec fn deep_view(&self) -> RegistrationModel {
        self@
    }
}

impl Registration {
    /// A copy of this call.
    pub fn duplicate(&self) -> (copy: Registration)
        ensures
            copy@ == self@,
    {
        match self {
            Registration::AddEvent(name) => Registration::AddEvent(name.clone()),
            Registration::InitResource(name) => Registration::InitResource(name.clone()),
            Registration::InsertResource(value) => Registration::InsertResource(copy_texts(value)),
            Registration::RegisterType(name) => Registration::RegisterType(name.clone()),
            Registration::InitState(name) => Registration::InitState(name.clone()),
            Registration::InsertState(value) => Registration::InsertState(copy_texts(value)),
            Registration::AddSystems { phase, set } => Registration::AddSystems {
                phase: phase.duplicate(),
                set: set.duplicate(),
            },
            Registration::InsertFactory(name) => Registration::InsertFactory(name.clone()),
            Registration::Observe(name) => Registration::Observe(name.clone()),
        }
    }
}

/// Moves every call of `calls` to the end of `list`, keeping their order.
pub fn extend_calls(list: &mut Vec<Registration>, calls: Vec<Registration>)
    ensures
        final(list).deep_view() == old(list).deep_view() + calls.deep_view(),
{
    let mut calls = calls;
    let ghost before = list.deep_view();
    let ghost added = calls.deep_view();
    list.append(&mut calls);
    assert(list.deep_view() =~= before + added);
}

} // verus!
