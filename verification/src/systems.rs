//! The system processor: classifies behaviour units one by one, keeps
//! their definitions in declaration order, and turns the definitions into
//! the registration calls of the phases, the factories and the observers.

use crate::classify::{apply_tag, apply_written_tag, Draft, DraftModel};
use crate::error::{CompileError, CompileErrorModel, ErrorKind};
use crate::kind::{FunctionKind, KindModel};
use crate::registration::{extend_calls, Registration, RegistrationModel};
use crate::schedule::{
    collect_bucket, in_phase, phase_bucket, resolve, resolve_bucket, Definition, DefinitionModel,
};
use crate::text::{text_eq, Text};
use crate::unit::{copy_layers, copy_params, BehaviorUnit, TagModel, UnitModel};
use vstd::prelude::*;
use vstd::string::*;

verus! {

/// The draft a unit starts from: plain and unclaimed, with the parameters
/// and layers it was declared with.
pub open spec fn initial_draft(unit: UnitModel) -> DraftModel {
    DraftModel {
        kind: KindModel::Plain,
        claimed: false,
        params: unit.params,
        yields: unit.yields,
        layers: unit.layers,
        queries: 0,
    }
}

/// Applies written tags in order. The first tag that fails ends the
/// classification with a diagnostic that names the unit and that tag.
pub open spec fn classify_from(draft: DraftModel, tags: Seq<TagModel>, unit: Text) -> Result<
    DraftModel,
    CompileErrorModel,
>
    decreases tags.len(),
{
    if tags.len() == 0 {
        Ok(draft)
    } else {
        match apply_tag(draft, tags[0]) {
            Err(kind) => Err(CompileErrorModel { kind, declaration: unit, tag: tags[0].name }),
            Ok(next) => classify_from(next, tags.drop_first(), unit),
        }
    }
}

/// The classification of a unit: what its tags, applied in the order they
/// were written, make of it.
pub open spec fn classify(unit: UnitModel) -> Result<DraftModel, CompileErrorModel> {
    classify_from(initial_draft(unit), unit.tags, unit.name)
}

/// Whether units of this kind are exposed as methods of the plugin.
pub open spec fn is_method_kind(kind: KindModel) -> bool {
    kind is Plain || kind is LifecycleBuild
}

/// The unit as it is emitted: its tags consumed, its parameters, layers
/// and return value as the classification left them.
pub open spec fn compiled_unit(unit: UnitModel, draft: DraftModel) -> UnitModel {
    UnitModel {
        name: unit.name,
        tags: Seq::<TagModel>::empty(),
        params: draft.params,
        yields: draft.yields,
        layers: draft.layers,
        body: unit.body,
    }
}

/// The units classified so far.
#[derive(Debug, PartialEq, Eq)]
pub struct SystemProcessor {
    pub definitions: Vec<Definition>,
    pub impl_functions: Vec<BehaviorUnit>,
    pub base_functions: Vec<BehaviorUnit>,
}

/// The mathematical value of a [`SystemProcessor`].
pub struct ProcessorModel {
    pub definitions: Seq<DefinitionModel>,
    pub impl_functions: Seq<UnitModel>,
    pub base_functions: Seq<UnitModel>,
}

impl View for SystemProcessor {
    type V = ProcessorModel;

    open spec fn view(&self) -> ProcessorModel {
        ProcessorModel {
            definitions: self.definitions.deep_view(),
            impl_functions: self.impl_functions.deep_view(),
            base_functions: self.base_functions.deep_view(),
        }
    }
}

/// The processor with no unit classified.
pub open spec fn empty_processor() -> ProcessorModel {
    ProcessorModel {
        definitions: Seq::<DefinitionModel>::empty(),
        impl_functions: Seq::<UnitModel>::empty(),
        base_functions: Seq::<UnitModel>::empty(),
    }
}

/// Whether a unit of that name is defined already.
pub open spec fn is_defined(defs: Seq<DefinitionModel>, name: Text) -> bool {
    exists|i: int| 0 <= i < defs.len() && (#[trigger] defs[i]).name == name
}

/// Whether no two definitions bear the same name.
pub open spec fn distinct_names(defs: Seq<DefinitionModel>) -> bool {
    forall|i: int, j: int|
        0 <= i < j < defs.len() ==> (#[trigger] defs[i]).name != (#[trigger] defs[j]).name
}

/// The diagnostic for a unit whose name is defined already: the name is
/// classified a second time, and no tag is to blame.
pub open spec fn repeated_name(name: Text) -> CompileErrorModel {
    CompileErrorModel {
        kind: ErrorKind::DuplicateClassification,
        declaration: name,
        tag: Seq::<char>::empty(),
    }
}

/// The processor after one more unit: its definition is appended, and the
/// emitted unit joins the methods if its kind is plain or lifecycle, the
/// free functions otherwise. A unit that fails to classify fails the
/// whole step, and so does a unit whose name is defined already: there is
/// one definition per name.
pub open spec fn register(processor: ProcessorModel, unit: UnitModel) -> Result<
    ProcessorModel,
    CompileErrorModel,
> {
    match classify(unit) {
        Err(error) => Err(error),
        Ok(draft) => if is_defined(processor.definitions, unit.name) {
            Err(repeated_name(unit.name))
        } else {
            Ok(
            ProcessorModel {
                definitions: processor.definitions.push(
                    DefinitionModel { name: unit.name, kind: draft.kind },
                ),
                impl_functions: if is_method_kind(draft.kind) {
                    processor.impl_functions.push(compiled_unit(unit, draft))
                } else {
                    processor.impl_functions
                },
                base_functions: if is_method_kind(draft.kind) {
                    processor.base_functions
                } else {
                    processor.base_functions.push(compiled_unit(unit, draft))
                },
            },
        )
        },
    }
}

/// Registering a unit keeps the names of the definitions distinct.
pub proof fn lemma_register_keeps_names_distinct(processor: ProcessorModel, unit: UnitModel)
    requires
        distinct_names(processor.definitions),
    ensures
        register(processor, unit) matches Ok(next) ==> distinct_names(next.definitions),
{
    match register(processor, unit) {
        Err(_) => {},
        Ok(next) => {
            let defs = processor.definitions;
            assert forall|i: int, j: int| 0 <= i < j < next.definitions.len() implies (
            #[trigger] next.definitions[i]).name != (#[trigger] next.definitions[j]).name by {
                assert(next.definitions[i] == defs[i]);
                if j < defs.len() {
                    assert(next.definitions[j] == defs[j]);
                }
            }
        },
    }
}

/// Whether the definition at `at` is the first system of its phase.
pub open spec fn opens_bucket(defs: Seq<DefinitionModel>, at: int) -> bool {
    defs[at].kind matches KindModel::ScheduledSystem { phase, .. } && forall|j: int|
        0 <= j < at ==> !in_phase(#[trigger] defs[j], phase)
}

/// The phase registration calls for the buckets opened at index `from` or
/// later: one call per bucket, in the order in which the phases first
/// occur. The first bucket that does not resolve fails them all.
pub open spec fn phase_calls(defs: Seq<DefinitionModel>, from: int) -> Result<
    Seq<RegistrationModel>,
    CompileErrorModel,
>
    decreases defs.len() - from,
{
    if from < 0 || from >= defs.len() {
        Ok(Seq::<RegistrationModel>::empty())
    } else if opens_bucket(defs, from) {
        let phase = defs[from].kind->ScheduledSystem_phase;
        match resolve_bucket(phase_bucket(defs, phase)) {
            Err(error) => Err(error),
            Ok(set) => match phase_calls(defs, from + 1) {
                Err(error) => Err(error),
                Ok(rest) => Ok(seq![RegistrationModel::AddSystems { phase, set }] + rest),
            },
        }
    } else {
        phase_calls(defs, from + 1)
    }
}

/// One insert call per resource factory, in declaration order.
pub open spec fn factory_calls(defs: Seq<DefinitionModel>) -> Seq<RegistrationModel>
    decreases defs.len(),
{
    if defs.len() == 0 {
        Seq::<RegistrationModel>::empty()
    } else if defs.last().kind is ResourceFactory {
        factory_calls(defs.drop_last()).push(RegistrationModel::InsertFactory(defs.last().name))
    } else {
        factory_calls(defs.drop_last())
    }
}

/// One observe call per observer, in declaration order.
pub open spec fn observer_calls(defs: Seq<DefinitionModel>) -> Seq<RegistrationModel>
    decreases defs.len(),
{
    if defs.len() == 0 {
        Seq::<RegistrationModel>::empty()
    } else if defs.last().kind is Observer {
        observer_calls(defs.drop_last()).push(RegistrationModel::Observe(defs.last().name))
    } else {
        observer_calls(defs.drop_last())
    }
}

/// The calls that the classified units contribute to the construction
/// procedure: the phase calls, then the factory inserts, then the observer
/// registrations.
pub open spec fn system_calls(defs: Seq<DefinitionModel>) -> Result<
    Seq<RegistrationModel>,
    CompileErrorModel,
> {
    match phase_calls(defs, 0) {
        Err(error) => Err(error),
        Ok(phases) => Ok(phases + factory_calls(defs) + observer_calls(defs)),
    }
}

/// The names of the lifecycle hooks, in declaration order.
pub open spec fn build_hooks(defs: Seq<DefinitionModel>) -> Seq<Text>
    decreases defs.len(),
{
    if defs.len() == 0 {
        Seq::<Text>::empty()
    } else if defs.last().kind is LifecycleBuild {
        build_hooks(defs.drop_last()).push(defs.last().name)
    } else {
        build_hooks(defs.drop_last())
    }
}

/// Classifies one unit by applying its tags in the order they were
/// written.
pub fn classify_unit(unit: &BehaviorUnit) -> (out: Result<Draft, CompileError>)
    ensures
        match out {
            Ok(draft) => classify(unit@) == Ok::<DraftModel, CompileErrorModel>(draft@),
            Err(error) => classify(unit@) == Err::<DraftModel, CompileErrorModel>(error@),
        },
{
    let mut draft = Draft {
        kind: FunctionKind::Plain,
        claimed: false,
        params: copy_params(&unit.params),
        yields: unit.yields,
        layers: copy_layers(&unit.layers),
        queries: 0,
    };
    let mut i: usize = 0;
    assert(unit.tags.deep_view().skip(0) =~= unit.tags.deep_view());
    while i < unit.tags.len()
        invariant
            i <= unit.tags.len(),
            draft.queries <= i,
            classify(unit@) == classify_from(
                draft@,
                unit.tags.deep_view().skip(i as int),
                unit.name@,
            ),
        decreases unit.tags.len() - i,
    {
        proof {
            assert(unit.tags.deep_view().skip(i as int)[0] == unit.tags[i as int]@);
            assert(unit.tags.deep_view().skip(i as int).drop_first()
                =~= unit.tags.deep_view().skip(i + 1));
        }
        match apply_written_tag(draft, &unit.tags[i]) {
            Err(kind) => {
                return Err(
                    CompileError::new(kind, unit.name.as_str(), unit.tags[i].name.as_str()),
                );
            },
            Ok(next) => {
                draft = next;
            },
        }
        i += 1;
    }
    Ok(draft)
}

impl SystemProcessor {
    /// Whether the processor is well formed: no two definitions bear the
    /// same name.
    pub open spec fn wf(&self) -> bool {
        distinct_names(self@.definitions)
    }

    /// Whether a unit of that name is defined already.
    pub fn defines(&self, name: &str) -> (found: bool)
        ensures
            found == is_defined(self@.definitions, name@),
    {
        let mut i: usize = 0;
        while i < self.definitions.len()
            invariant
                i <= self.definitions.len(),
                forall|k: int| 0 <= k < i ==> (#[trigger] self@.definitions[k]).name != name@,
            decreases self.definitions.len() - i,
        {
            assert(self@.definitions[i as int] == self.definitions[i as int]@);
            if text_eq(self.definitions[i].name.as_str(), name) {
                return true;
            }
            i += 1;
        }
        false
    }

    /// A processor with no unit classified.
    pub fn new() -> (processor: SystemProcessor)
        ensures
            processor@ == empty_processor(),
            processor.wf(),
    {
        let processor = SystemProcessor {
            definitions: Vec::new(),
            impl_functions: Vec::new(),
            base_functions: Vec::new(),
        };
        assert(processor.definitions.deep_view() =~= Seq::<DefinitionModel>::empty());
        assert(processor.impl_functions.deep_view() =~= Seq::<UnitModel>::empty());
        assert(processor.base_functions.deep_view() =~= Seq::<UnitModel>::empty());
        processor
    }

    /// Classifies one behaviour unit and records it, unless a unit of its
    /// name is recorded already. On a failure the processor is left as it
    /// was.
    pub fn process_item_fn(&mut self, item: BehaviorUnit) -> (out: Result<(), CompileError>)
        ensures
            old(self).wf() ==> final(self).wf(),
            match out {
                Ok(()) => register(old(self)@, item@) == Ok::<ProcessorModel, CompileErrorModel>(
                    final(self)@,
                ),
                Err(error) => register(old(self)@, item@) == Err::<
                    ProcessorModel,
                    CompileErrorModel,
                >(error@) && final(self)@ == old(self)@,
            },
    {
        let draft = match classify_unit(&item) {
            Err(error) => {
                return Err(error);
            },
            Ok(draft) => draft,
        };
        proof {
            if distinct_names(self@.definitions) {
                lemma_register_keeps_names_distinct(self@, item@);
            }
        }
        if self.defines(item.name.as_str()) {
            proof {
                reveal_strlit("");
                assert(""@ =~= Seq::<char>::empty());
            }
            return Err(
                CompileError::new(ErrorKind::DuplicateClassification, item.name.as_str(), ""),
            );
        }
        let ghost model = draft@;
        let ghost unit = item@;
        let ghost before = self@;
        let Draft { kind, claimed: _, params, yields, layers, queries: _ } = draft;
        let method = match kind {
            FunctionKind::Plain => true,
            FunctionKind::LifecycleBuild => true,
            _ => false,
        };
        let BehaviorUnit { name, tags: _, params: _, yields: _, layers: _, body } = item;
        let tags = Vec::new();
        assert(tags.deep_view() =~= Seq::<TagModel>::empty());
        let compiled = BehaviorUnit { name: name.clone(), tags, params, yields, layers, body };
        assert(compiled@ == compiled_unit(unit, model));
        self.definitions.push(Definition { name, kind });
        assert(self.definitions.deep_view() =~= before.definitions.push(
            DefinitionModel { name: unit.name, kind: model.kind },
        ));
        if method {
            self.impl_functions.push(compiled);
            assert(self.impl_functions.deep_view() =~= before.impl_functions.push(
                compiled_unit(unit, model),
            ));
        } else {
            self.base_functions.push(compiled);
            assert(self.base_functions.deep_view() =~= before.base_functions.push(
                compiled_unit(unit, model),
            ));
        }
        Ok(())
    }

    /// Whether the definition at `at` is the first system of its phase.
    fn starts_bucket(&self, at: usize) -> (first: bool)
        requires
            at < self.definitions.len(),
        ensures
            first == opens_bucket(self@.definitions, at as int),
    {
        assert(self.definitions.deep_view()[at as int] == self.definitions[at as int]@);
        match &self.definitions[at].kind {
            FunctionKind::ScheduledSystem { phase, ordering: _ } => {
                let mut j: usize = 0;
                while j < at
                    invariant
                        j <= at < self.definitions.len(),
                        self.definitions.deep_view()[at as int].kind matches KindModel::ScheduledSystem {
                            phase: own,
                            ..
                        } && own == phase@,
                        forall|k: int|
                            0 <= k < j ==> !in_phase(
                                #[trigger] self.definitions.deep_view()[k],
                                phase@,
                            ),
                    decreases at - j,
                {
                    assert(self.definitions.deep_view()[j as int] == self.definitions[j as int]@);
                    let same = match &self.definitions[j].kind {
                        FunctionKind::ScheduledSystem { phase: other, ordering: _ } => {
                            other.same_as(phase)
                        },
                        _ => false,
                    };
                    if same {
                        assert(in_phase(self.definitions.deep_view()[j as int], phase@));
                        return false;
                    }
                    j += 1;
                }
                true
            },
            _ => false,
        }
    }

    /// The phase registration calls, one per bucket.
    fn phase_registrations(&self) -> (out: Result<Vec<Registration>, CompileError>)
        ensures
            match out {
                Ok(calls) => phase_calls(self@.definitions, 0) == Ok::<
                    Seq<RegistrationModel>,
                    CompileErrorModel,
                >(calls.deep_view()),
                Err(error) => phase_calls(self@.definitions, 0) == Err::<
                    Seq<RegistrationModel>,
                    CompileErrorModel,
                >(error@),
            },
    {
        let mut calls: Vec<Registration> = Vec::new();
        let mut i: usize = 0;
        let ghost defs = self@.definitions;
        assert(calls.deep_view() =~= Seq::<RegistrationModel>::empty());
        while i < self.definitions.len()
            invariant
                i <= self.definitions.len(),
                defs == self@.definitions,
                defs.len() == self.definitions.len(),
                match phase_calls(defs, i as int) {
                    Ok(rest) => phase_calls(defs, 0) == Ok::<
                        Seq<RegistrationModel>,
                        CompileErrorModel,
                    >(calls.deep_view() + rest),
                    Err(error) => phase_calls(defs, 0) == Err::<
                        Seq<RegistrationModel>,
                        CompileErrorModel,
                    >(error),
                },
            decreases self.definitions.len() - i,
        {
            let ghost before = calls.deep_view();
            if self.starts_bucket(i) {
                assert(defs[i as int] == self.definitions[i as int]@);
                match &self.definitions[i].kind {
                    FunctionKind::ScheduledSystem { phase, ordering: _ } => {
                        let bucket = collect_bucket(&self.definitions, phase);
                        match resolve(&bucket) {
                            Err(error) => {
                                return Err(error);
                            },
                            Ok(set) => {
                                let ghost call = RegistrationModel::AddSystems {
                                    phase: phase@,
                                    set: set@,
                                };
                                calls.push(
                                    Registration::AddSystems { phase: phase.duplicate(), set },
                                );
                                assert(calls.deep_view() =~= before.push(call));
                                proof {
                                    match phase_calls(defs, i + 1) {
                                        Ok(rest) => {
                                            assert(before + (seq![call] + rest) =~= before.push(
                                                call,
                                            ) + rest);
                                        },
                                        Err(_) => {},
                                    }
                                }
                            },
                        }
                    },
                    _ => {},
                }
            }
            i += 1;
        }
        assert(calls.deep_view() + Seq::<RegistrationModel>::empty() =~= calls.deep_view());
        Ok(calls)
    }

    /// Appends to `app_exts` the calls that the classified units contribute
    /// to the construction procedure: one `add_systems` per phase, then
    /// one insert per resource factory, then one registration per
    /// observer. On a failure nothing is appended.
    pub fn apply_app_exts(&mut self, app_exts: &mut Vec<Registration>) -> (out: Result<
        (),
        CompileError,
    >)
        ensures
            final(self)@ == old(self)@,
            match out {
                Ok(()) => system_calls(old(self)@.definitions) matches Ok(calls)
                    && final(app_exts).deep_view() == old(app_exts).deep_view() + calls,
                Err(error) => system_calls(old(self)@.definitions) == Err::<
                    Seq<RegistrationModel>,
                    CompileErrorModel,
                >(error@) && final(app_exts).deep_view() == old(app_exts).deep_view(),
            },
    {
        let mut calls = match self.phase_registrations() {
            Err(error) => {
                return Err(error);
            },
            Ok(calls) => calls,
        };
        let ghost phases = calls.deep_view();
        let ghost defs = self@.definitions;
        let mut i: usize = 0;
        assert(defs.take(0) =~= Seq::<DefinitionModel>::empty());
        assert(phases + Seq::<RegistrationModel>::empty() =~= phases);
        while i < self.definitions.len()
            invariant
                i <= self.definitions.len(),
                defs == self@.definitions,
                calls.deep_view() == phases + factory_calls(defs.take(i as int)),
            decreases self.definitions.len() - i,
        {
            let ghost before = calls.deep_view();
            proof {
                assert(defs.take(i + 1).drop_last() =~= defs.take(i as int));
                assert(defs.take(i + 1).last() == self.definitions[i as int]@);
            }
            match &self.definitions[i].kind {
                FunctionKind::ResourceFactory => {
                    calls.push(Registration::InsertFactory(self.definitions[i].name.clone()));
                    assert(calls.deep_view() =~= before.push(
                        RegistrationModel::InsertFactory(self.definitions[i as int].name@),
                    ));
                    assert(calls.deep_view() =~= phases + factory_calls(defs.take(i + 1)));
                },
                _ => {},
            }
            i += 1;
        }
        assert(defs.take(i as int) =~= defs);
        let ghost factories = calls.deep_view();
        i = 0;
        assert(factories + Seq::<RegistrationModel>::empty() =~= factories);
        while i < self.definitions.len()
            invariant
                i <= self.definitions.len(),
                defs == self@.definitions,
                calls.deep_view() == factories + observer_calls(defs.take(i as int)),
            decreases self.definitions.len() - i,
        {
            let ghost before = calls.deep_view();
            proof {
                assert(defs.take(i + 1).drop_last() =~= defs.take(i as int));
                assert(defs.take(i + 1).last() == self.definitions[i as int]@);
            }
            match &self.definitions[i].kind {
                FunctionKind::Observer { event_kind: _, component_type: _ } => {
                    calls.push(Registration::Observe(self.definitions[i].name.clone()));
                    assert(calls.deep_view() =~= before.push(
                        RegistrationModel::Observe(self.definitions[i as int].name@),
                    ));
                    assert(calls.deep_view() =~= factories + observer_calls(defs.take(i + 1)));
                },
                _ => {},
            }
            i += 1;
        }
        assert(defs.take(i as int) =~= defs);
        extend_calls(app_exts, calls);
        Ok(())
    }

    /// Appends to `builds` the names of the lifecycle hooks, in declaration
    /// order: the construction procedure invokes each on the plugin.
    pub fn apply_build(&self, builds: &mut Vec<String>)
        ensures
            final(builds).deep_view() == old(builds).deep_view() + build_hooks(
                self@.definitions,
            ),
    {
        let ghost start = builds.deep_view();
        let ghost defs = self@.definitions;
        let mut i: usize = 0;
        assert(defs.take(0) =~= Seq::<DefinitionModel>::empty());
        assert(start + Seq::<Text>::empty() =~= start);
        while i < self.definitions.len()
            invariant
                i <= self.definitions.len(),
                defs == self@.definitions,
                builds.deep_view() == start + build_hooks(defs.take(i as int)),
            decreases self.definitions.len() - i,
        {
            let ghost before = builds.deep_view();
            proof {
                assert(defs.take(i + 1).drop_last() =~= defs.take(i as int));
                assert(defs.take(i + 1).last() == self.definitions[i as int]@);
            }
            match &self.definitions[i].kind {
                FunctionKind::LifecycleBuild => {
                    builds.push(self.definitions[i].name.clone());
                    assert(builds.deep_view() =~= before.push(self.definitions[i as int].name@));
                    assert(builds.deep_view() =~= start + build_hooks(defs.take(i + 1)));
                },
                _ => {},
            }
            i += 1;
        }
        assert(defs.take(i as int) =~= defs);
    }

    /// The units exposed as methods of the plugin, in declaration order.
    pub fn impl_functions(&self) -> (units: &[BehaviorUnit])
        ensures
            units@ == self.impl_functions@,
    {
        self.impl_functions.as_slice()
    }

    /// The units emitted as free functions, in declaration order.
    pub fn base_functions(&self) -> (units: &[BehaviorUnit])
        ensures
            units@ == self.base_functions@,
    {
        self.base_functions.as_slice()
    }
}

impl Default for SystemProcessor {
    fn default() -> (processor: SystemProcessor)
        ensures
            processor@ == empty_processor(),
    {
        SystemProcessor::new()
    }
}

} // verus!
