//! Behaviour units as the compiler sees them: a name, the tags written on
//! it, its parameters, and the layers wrapped around its body.

use crate::groups::{copy_bindings, Group, GroupModel};
use crate::text::{copy_groups, copy_texts, Text};
use vstd::prelude::*;
use vstd::string::*;

verus! {

/// A tag: a name and the flat list of the tokens written in its brackets.
#[derive(Debug, PartialEq, Eq)]
pub struct Tag {
    pub name: String,
    pub tokens: Vec<String>,
}

/// The mathematical value of a [`Tag`].
pub struct TagModel {
    pub name: Text,
    pub tokens: Seq<Text>,
}

impl View for Tag {
    type V = TagModel;

    open spec fn view(&self) -> TagModel {
        TagModel { name: self.name@, tokens: self.tokens.deep_view() }
    }
}

impl DeepView for Tag {
    type V = TagModel;

    open spec fn deep_view(&self) -> TagModel {
        self@
    }
}

impl Tag {
    /// A copy of this tag.
    pub fn duplicate(&self) -> (copy: Tag)
        ensures
            copy@ == self@,
    {
        Tag { name: self.name.clone(), tokens: copy_texts(&self.tokens) }
    }
}

/// A component query bound to a parameter: what it selects, what it
/// filters by, and whether it hands out mutable access.
#[derive(Debug, PartialEq, Eq)]
pub struct QueryBinding {
    pub name: String,
    pub inclusion: Vec<Vec<String>>,
    pub filter: Vec<Vec<String>>,
    pub mutable: bool,
}

/// The mathematical value of a [`QueryBinding`].
pub struct QueryModel {
    pub name: Text,
    pub inclusion: Seq<Seq<Text>>,
    pub filter: Seq<Seq<Text>>,
    pub mutable: bool,
}

impl View for QueryBinding {
    type V = QueryModel;

    open spec fn view(&self) -> QueryModel {
        QueryModel {
            name: self.name@,
            inclusion: self.inclusion.deep_view(),
            filter: self.filter.deep_view(),
            mutable: self.mutable,
        }
    }
}

impl QueryBinding {
    /// A copy of this binding.
    pub fn duplicate(&self) -> (copy: QueryBinding)
        ensures
            copy@ == self@,
    {
        QueryBinding {
            name: self.name.clone(),
            inclusion: copy_groups(&self.inclusion),
            filter: copy_groups(&self.filter),
            mutable: self.mutable,
        }
    }
}

/// One parameter of a behaviour unit.
#[derive(Debug, PartialEq, Eq)]
pub enum Param {
    /// Written by the author: a name and the text of its type.
    Declared { name: String, ty: String },
    /// The mutation handle `commands`, through which a resource system
    /// registers its result.
    Handle,
    /// Read access to the current value of a state type.
    StateRead { state: String },
    /// A mutable reader over the events of one type.
    EventReader { name: String, event: String },
    /// A component query.
    Query(QueryBinding),
    /// The context of an observer: what happened, and to which component.
    Trigger { event_kind: Vec<String>, component_type: Vec<String> },
    /// Read access to the value that the unit is run for, of the given
    /// type.
    Current { ty: String },
}

/// The mathematical value of a [`Param`].
pub enum ParamModel {
    Declared { name: Text, ty: Text },
    Handle,
    StateRead { state: Text },
    EventReader { name: Text, event: Text },
    Query(QueryModel),
    Trigger { event_kind: Seq<Text>, component_type: Seq<Text> },
    Current { ty: Text },
}

impl View for Param {
    type V = ParamModel;

    open spec fn view(&self) -> ParamModel {
        match self {
            Param::Declared { name, ty } => ParamModel::Declared { name: name@, ty: ty@ },
            Param::Handle => ParamModel::Handle,
            Param::StateRead { state } => ParamModel::StateRead { state: state@ },
            Param::EventReader { name, event } => ParamModel::EventReader {
                name: name@,
                event: event@,
            },
            Param::Query(query) => ParamModel::Query(query@),
            Param::Trigger { event_kind, component_type } => ParamModel::Trigger {
                event_kind: event_kind.deep_view(),
                component_type: component_type.deep_view(),
            },
            Param::Current { ty } => ParamModel::Current { ty: ty@ },
        }
    }
}

impl DeepView for Param {
    type V = ParamModel;

    open spec fn deep_view(&self) -> ParamModel {
        self@
    }
}

impl Param {
    /// A copy of this parameter.
    pub fn duplicate(&self) -> (copy: Param)
        ensures
            copy@ == self@,
    {
        match self {
            Param::Declared { name, ty } => Param::Declared { name: name.clone(), ty: ty.clone() },
            Param::Handle => Param::Handle,
            Param::StateRead { state } => Param::StateRead { state: state.clone() },
            Param::EventReader { name, event } => Param::EventReader {
                name: name.clone(),
                event: event.clone(),
            },
            Param::Query(query) => Param::Query(query.duplicate()),
            Param::Trigger { event_kind, component_type } => Param::Trigger {
                event_kind: copy_texts(event_kind),
                component_type: copy_texts(component_type),
            },
            Param::Current { ty } => Param::Current { ty: ty.clone() },
        }
    }
}

/// One layer wrapped around the body of a unit. Layers are kept innermost
/// first: each later layer encloses all the earlier ones.
#[derive(Debug, PartialEq, Eq)]
pub enum BodyLayer {
    /// Runs the body once for each event the reader has not read yet, in
    /// arrival order, binding the event to the reader's name.
    ForEachEvent { reader: String },
    /// Runs the body once for each match of the query, binding the match to
    /// the query's name.
    ForEachMatch { query: String, mutable: bool },
    /// Evaluates the body and inserts its value as a resource through the
    /// mutation handle.
    StoreResult { handle: String },
}

/// The mathematical value of a [`BodyLayer`].
pub enum LayerModel {
    ForEachEvent { reader: Text },
    ForEachMatch { query: Text, mutable: bool },
    StoreResult { handle: Text },
}

impl View for BodyLayer {
    type V = LayerModel;

    open spec fn view(&self) -> LayerModel {
        match self {
            BodyLayer::ForEachEvent { reader } => LayerModel::ForEachEvent { reader: reader@ },
            BodyLayer::ForEachMatch { query, mutable } => LayerModel::ForEachMatch {
                query: query@,
                mutable: *mutable,
            },
            BodyLayer::StoreResult { handle } => LayerModel::StoreResult { handle: handle@ },
        }
    }
}

impl DeepView for BodyLayer {
    type V = LayerModel;

    open spec fn deep_view(&self) -> LayerModel {
        self@
    }
}

impl BodyLayer {
    /// A copy of this layer.
    pub fn duplicate(&self) -> (copy: BodyLayer)
        ensures
            copy@ == self@,
    {
        match self {
            BodyLayer::ForEachEvent { reader } => BodyLayer::ForEachEvent { reader: reader.clone() },
            BodyLayer::ForEachMatch { query, mutable } => BodyLayer::ForEachMatch {
                query: query.clone(),
                mutable: *mutable,
            },
            BodyLayer::StoreResult { handle } => BodyLayer::StoreResult { handle: handle.clone() },
        }
    }
}

/// Where the innermost body of a unit comes from.
#[derive(Debug, PartialEq, Eq)]
pub enum UnitBody {
    /// The statements the author wrote.
    Source,
    /// Derived: despawn every entity whose local scope over `state` holds a
    /// variant other than `variant`.
    ScopeCleanup { state: String, variant: String },
    /// Derived: for every event type of `groups`, in order, run each of its
    /// handlers, in order, once for each pending event of that type, in
    /// arrival order, with the event as the current value.
    EventDispatch { groups: Vec<Group> },
    /// Derived: run each of `systems` once, in order, and insert what it
    /// gives as a resource.
    ResourceInsertion { systems: Vec<String> },
}

/// The mathematical value of a [`UnitBody`].
pub enum BodyModel {
    Source,
    ScopeCleanup { state: Text, variant: Text },
    EventDispatch { groups: Seq<GroupModel> },
    ResourceInsertion { systems: Seq<Text> },
}

impl View for UnitBody {
    type V = BodyModel;

    open spec fn view(&self) -> BodyModel {
        match self {
            UnitBody::Source => BodyModel::Source,
            UnitBody::ScopeCleanup { state, variant } => BodyModel::ScopeCleanup {
                state: state@,
                variant: variant@,
            },
            UnitBody::EventDispatch { groups } => BodyModel::EventDispatch {
                groups: groups.deep_view(),
            },
            UnitBody::ResourceInsertion { systems } => BodyModel::ResourceInsertion {
                systems: systems.deep_view(),
            },
        }
    }
}

impl UnitBody {
    /// A copy of this body.
    pub fn duplicate(&self) -> (copy: UnitBody)
        ensures
            copy@ == self@,
    {
        match self {
            UnitBody::Source => UnitBody::Source,
            UnitBody::ScopeCleanup { state, variant } => UnitBody::ScopeCleanup {
                state: state.clone(),
                variant: variant.clone(),
            },
            UnitBody::EventDispatch { groups } => UnitBody::EventDispatch {
                groups: copy_bindings(groups),
            },
            UnitBody::ResourceInsertion { systems } => UnitBody::ResourceInsertion {
                systems: copy_texts(systems),
            },
        }
    }
}

/// A behaviour unit: a callable declaration with its tags. Compiling it
/// consumes the tags, may add parameters and layers, and may drop its
/// return value.
#[derive(Debug, PartialEq, Eq)]
pub struct BehaviorUnit {
    pub name: String,
    pub tags: Vec<Tag>,
    pub params: Vec<Param>,
    pub yields: bool,
    pub layers: Vec<BodyLayer>,
    pub body: UnitBody,
}

/// The mathematical value of a [`BehaviorUnit`].
pub struct UnitModel {
    pub name: Text,
    pub tags: Seq<TagModel>,
    pub params: Seq<ParamModel>,
    pub yields: bool,
    pub layers: Seq<LayerModel>,
    pub body: BodyModel,
}

impl View for BehaviorUnit {
    type V = UnitModel;

    open spec fn view(&self) -> UnitModel {
        UnitModel {
            name: self.name@,
            tags: self.tags.deep_view(),
            params: self.params.deep_view(),
            yields: self.yields,
            layers: self.layers.deep_view(),
            body: self.body@,
        }
    }
}

impl DeepView for BehaviorUnit {
    type V = UnitModel;

    open spec fn deep_view(&self) -> UnitModel {
        self@
    }
}

/// A fresh copy of every tag of `tags`, in order.
pub fn copy_tags(tags: &Vec<Tag>) -> (out: Vec<Tag>)
    ensures
        out.deep_view() == tags.deep_view(),
{
    let mut out: Vec<Tag> = Vec::new();
    let mut i: usize = 0;
    while i < tags.len()
        invariant
            i <= tags.len(),
            out.len() == i,
            forall|k: int| 0 <= k < i ==> out[k]@ == tags[k]@,
        decreases tags.len() - i,
    {
        out.push(tags[i].duplicate());
        i += 1;
    }
    assert(out.deep_view() =~= tags.deep_view());
    out
}

/// A fresh copy of every parameter of `params`, in order.
pub fn copy_params(params: &Vec<Param>) -> (out: Vec<Param>)
    ensures
        out.deep_view() == params.deep_view(),
{
    let mut out: Vec<Param> = Vec::new();
    let mut i: usize = 0;
    while i < params.len()
        invariant
            i <= params.len(),
            out.len() == i,
            forall|k: int| 0 <= k < i ==> out[k]@ == params[k]@,
        decreases params.len() - i,
    {
        out.push(params[i].duplicate());
        i += 1;
    }
    assert(out.deep_view() =~= params.deep_view());
    out
}

/// A fresh copy of every layer of `layers`, in order.
pub fn copy_layers(layers: &Vec<BodyLayer>) -> (out: Vec<BodyLayer>)
    ensures
        out.deep_view() == layers.deep_view(),
{
    let mut out: Vec<BodyLayer> = Vec::new();
    let mut i: usize = 0;
    while i < layers.len()
        invariant
            i <= layers.len(),
            out.len() == i,
            forall|k: int| 0 <= k < i ==> out[k]@ == layers[k]@,
        decreases layers.len() - i,
    {
        out.push(layers[i].duplicate());
        i += 1;
    }
    assert(out.deep_view() =~= layers.deep_view());
    out
}

impl BehaviorUnit {
    /// A copy of this unit.
    pub fn duplicate(&self) -> (copy: BehaviorUnit)
        ensures
            copy@ == self@,
    {
        BehaviorUnit {
            name: self.name.clone(),
            tags: copy_tags(&self.tags),
            params: copy_params(&self.params),
            yields: self.yields,
            layers: copy_layers(&self.layers),
            body: self.body.duplicate(),
        }
    }
}

} // verus!
