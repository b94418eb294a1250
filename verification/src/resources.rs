//! Resource requests by kind: the resources that start from their default,
//! the factories whose result is inserted, and the systems that compute a
//! resource at start-up.

use crate::events::{lone_system, lone_system_call};
use crate::kind::{PhaseExpr, PhaseModel};
use crate::registration::{Registration, RegistrationModel};
use crate::text::{copy_texts, Text};
use crate::unit::{
    BehaviorUnit, BodyModel, LayerModel, Param, ParamModel, TagModel, UnitBody, UnitModel,
};
use vstd::prelude::*;
use vstd::string::*;

verus! {

/// The resource requests of a module, by kind, each kind in declaration
/// order.
#[derive(Debug, PartialEq, Eq)]
pub struct ResourceSystems {
    pub defaults: Vec<String>,
    pub factories: Vec<String>,
    pub systems: Vec<String>,
}

/// The unit that runs the resource systems: it takes the world, and its
/// body holds the systems in the order in which they were recorded; each
/// is run once, in that order, and what it gives is inserted.
pub open spec fn insertion_unit(systems: Seq<Text>) -> UnitModel {
    UnitModel {
        name: "_insert_resources"@,
        tags: Seq::<TagModel>::empty(),
        params: seq![ParamModel::Declared { name: "world"@, ty: "&mut World"@ }],
        yields: false,
        layers: Seq::<LayerModel>::empty(),
        body: BodyModel::ResourceInsertion { systems },
    }
}

/// One `init_resource` per default, then one insert per factory, then,
/// where there is a resource system, the registration of the inserting
/// unit at start-up.
pub open spec fn resource_calls(defaults: Seq<Text>, factories: Seq<Text>, systems: Seq<Text>)
    -> Seq<RegistrationModel> {
    Seq::new(defaults.len(), |i: int| RegistrationModel::InitResource(defaults[i])) + Seq::new(
        factories.len(),
        |i: int| RegistrationModel::InsertFactory(factories[i]),
    ) + if systems.len() == 0 {
        Seq::<RegistrationModel>::empty()
    } else {
        seq![lone_system_call(PhaseModel::Startup, "_insert_resources"@)]
    }
}

impl ResourceSystems {
    /// No request recorded.
    pub fn new() -> (resources: ResourceSystems)
        ensures
            resources.defaults.deep_view() == Seq::<Text>::empty(),
            resources.factories.deep_view() == Seq::<Text>::empty(),
            resources.systems.deep_view() == Seq::<Text>::empty(),
    {
        let resources = ResourceSystems {
            defaults: Vec::new(),
            factories: Vec::new(),
            systems: Vec::new(),
        };
        assert(resources.defaults.deep_view() =~= Seq::<Text>::empty());
        assert(resources.factories.deep_view() =~= Seq::<Text>::empty());
        assert(resources.systems.deep_view() =~= Seq::<Text>::empty());
        resources
    }

    /// Records a resource that starts from its default value.
    pub fn push_default(&mut self, name: String)
        ensures
            final(self).defaults.deep_view() == old(self).defaults.deep_view().push(name@),
            final(self).factories.deep_view() == old(self).factories.deep_view(),
            final(self).systems.deep_view() == old(self).systems.deep_view(),
    {
        let ghost before = self.defaults.deep_view();
        self.defaults.push(name);
        assert(self.defaults.deep_view() =~= before.push(name@));
    }

    /// Records a factory whose result is inserted as a resource.
    pub fn push_factory(&mut self, factory: String)
        ensures
            final(self).factories.deep_view() == old(self).factories.deep_view().push(factory@),
            final(self).defaults.deep_view() == old(self).defaults.deep_view(),
            final(self).systems.deep_view() == old(self).systems.deep_view(),
    {
        let ghost before = self.factories.deep_view();
        self.factories.push(factory);
        assert(self.factories.deep_view() =~= before.push(factory@));
    }

    /// Records a system that computes a resource at start-up.
    pub fn push_system(&mut self, system: String)
        ensures
            final(self).systems.deep_view() == old(self).systems.deep_view().push(system@),
            final(self).defaults.deep_view() == old(self).defaults.deep_view(),
            final(self).factories.deep_view() == old(self).factories.deep_view(),
    {
        let ghost before = self.systems.deep_view();
        self.systems.push(system);
        assert(self.systems.deep_view() =~= before.push(system@));
    }

    /// Appends the calls of the recorded requests to `app_ext` and, where
    /// there is a resource system, to `output` the inserting unit, whose
    /// body holds every recorded system in order.
    pub fn append(&mut self, output: &mut Vec<BehaviorUnit>, app_ext: &mut Vec<Registration>)
        ensures
            final(self).defaults.deep_view() == old(self).defaults.deep_view(),
            final(self).factories.deep_view() == old(self).factories.deep_view(),
            final(self).systems.deep_view() == old(self).systems.deep_view(),
            final(app_ext).deep_view() == old(app_ext).deep_view() + resource_calls(
                old(self).defaults.deep_view(),
                old(self).factories.deep_view(),
                old(self).systems.deep_view(),
            ),
            final(output).deep_view() == if old(self).systems.len() == 0 {
                old(output).deep_view()
            } else {
                old(output).deep_view().push(insertion_unit(old(self).systems.deep_view()))
            },
    {
        let ghost start = app_ext.deep_view();
        let ghost units = output.deep_view();
        let ghost defaults = self.defaults.deep_view();
        let ghost factories = self.factories.deep_view();
        let mut i: usize = 0;
        while i < self.defaults.len()
            invariant
                i <= self.defaults.len(),
                defaults == self.defaults.deep_view(),
                app_ext.len() == start.len() + i,
                forall|k: int| 0 <= k < start.len() ==> app_ext[k]@ == start[k],
                forall|k: int|
                    0 <= k < i ==> app_ext[start.len() + k]@ == RegistrationModel::InitResource(
                        defaults[k],
                    ),
            decreases self.defaults.len() - i,
        {
            assert(defaults[i as int] == self.defaults[i as int]@);
            app_ext.push(Registration::InitResource(self.defaults[i].clone()));
            i += 1;
        }
        let ghost middle = app_ext.deep_view();
        assert(middle =~= start + Seq::new(
            defaults.len(),
            |i: int| RegistrationModel::InitResource(defaults[i]),
        ));
        i = 0;
        while i < self.factories.len()
            invariant
                i <= self.factories.len(),
                factories == self.factories.deep_view(),
                app_ext.len() == middle.len() + i,
                forall|k: int| 0 <= k < middle.len() ==> app_ext[k]@ == middle[k],
                forall|k: int|
                    0 <= k < i ==> app_ext[middle.len() + k]@ == RegistrationModel::InsertFactory(
                        factories[k],
                    ),
            decreases self.factories.len() - i,
        {
            assert(factories[i as int] == self.factories[i as int]@);
            app_ext.push(Registration::InsertFactory(self.factories[i].clone()));
            i += 1;
        }
        let ghost late = app_ext.deep_view();
        assert(late =~= middle + Seq::new(
            factories.len(),
            |i: int| RegistrationModel::InsertFactory(factories[i]),
        ));
        if self.systems.len() == 0 {
            assert(late + Seq::<RegistrationModel>::empty() =~= late);
            return ;
        }
        let tags = Vec::new();
        let layers = Vec::new();
        let mut params: Vec<Param> = Vec::new();
        params.push(
            Param::Declared { name: String::from_str("world"), ty: String::from_str("&mut World") },
        );
        assert(tags.deep_view() =~= Seq::<TagModel>::empty());
        assert(layers.deep_view() =~= Seq::<LayerModel>::empty());
        assert(params.deep_view() =~= seq![
            ParamModel::Declared { name: "world"@, ty: "&mut World"@ },
        ]);
        output.push(
            BehaviorUnit {
                name: String::from_str("_insert_resources"),
                tags,
                params,
                yields: false,
                layers,
                body: UnitBody::ResourceInsertion { systems: copy_texts(&self.systems) },
            },
        );
        assert(output.deep_view() =~= units.push(insertion_unit(self.systems.deep_view())));
        app_ext.push(lone_system(PhaseExpr::Startup, "_insert_resources"));
        assert(app_ext.deep_view() =~= late + seq![
            lone_system_call(PhaseModel::Startup, "_insert_resources"@),
        ]);
    }
}

} // verus!
