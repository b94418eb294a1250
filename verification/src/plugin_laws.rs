//! What holds of every compilation: a failure leaves no plugin, a tag
//! outside the grammar is such a failure, declared parameters are never
//! displaced, and every phase is registered once.

use crate::classify::{apply_canonical, apply_each, apply_tag, apply_trigger, DraftModel};
use crate::classify_laws::{in_grammar, lemma_tag_names, lemma_unknown_tag_rejected};
use crate::grammar::parse_phase;
use crate::kind::{KindModel, OrderingModel};
use crate::prefab::{cleanup_model, cleanup_name};
use crate::error::{CompileErrorModel, ErrorKind};
use crate::kind::PhaseModel;
use crate::normalize::normalize;
use crate::initialization::RequestModel;
use crate::plugin::{
    apply_type_tag, apply_type_tags, compile, empty_scan, is_scoped_state, plugin_name,
    register_cleanups, scan_item, scan_items, DeclarationModel, ModuleModel, PluginModel,
    ScanModel, TypeScan,
};
use crate::plugin::scopes_to;
use crate::prefab::{find_word, parse_scope, prefab_type, DataTypeModel, ScopeModel};
use crate::text::snake_case;
use crate::initialization::init_calls;
use crate::kind::Rank;
use crate::registration::{EdgeModel, RegistrationModel, SystemSetModel};
use crate::schedule::{
    bucket_edges, chain_entries, chain_order, edge_resolved, entry_names, first_unresolved,
    in_phase, insertion_point, phase_bucket, resolve_bucket, DefinitionModel, EntryModel,
};
use crate::systems::{
    build_hooks, classify, classify_from, compiled_unit, factory_calls, initial_draft,
    is_defined, observer_calls, opens_bucket, phase_calls, register, system_calls,
    ProcessorModel,
};
use crate::text::Text;
use crate::token::TokenModel;
use crate::unit::{BodyModel, LayerModel, ParamModel, TagModel, UnitModel};
use vstd::prelude::*;

verus! {

/// An item that fails on every scan fails the scan of the whole module.
pub proof fn lemma_scan_stops_at_failure(
    scan: ScanModel,
    all: Seq<DeclarationModel>,
    from: int,
    at: int,
)
    requires
        0 <= from <= at < all.len(),
        forall|any: ScanModel| (#[trigger] scan_item(any, all[at], all)) is Err,
    ensures
        scan_items(scan, all, from) is Err,
    decreases at - from,
{
    if from < at {
        match scan_item(scan, all[from], all) {
            Err(_) => {},
            Ok(next) => {
                lemma_scan_stops_at_failure(next, all, from + 1, at);
            },
        }
    }
}

/// An unknown tag halts the compilation: a module in which some behaviour
/// unit carries a tag outside the grammar compiles to a failure, never to
/// a plugin, whatever else the module holds.
pub proof fn lemma_unknown_tag_halts(
    attr: Seq<TokenModel>,
    module: ModuleModel,
    at: int,
    tag: int,
)
    requires
        0 <= at < module.items.len(),
        module.items[at] matches DeclarationModel::Function(unit) && 0 <= tag < unit.tags.len()
            && !in_grammar(unit.tags[tag].name),
    ensures
        compile(attr, module) is Err,
{
    let unit = module.items[at]->Function_0;
    lemma_unknown_tag_rejected(unit, tag);
    assert forall|any: ScanModel| (#[trigger] scan_item(
        any,
        module.items[at],
        module.items,
    )) is Err by {
        assert(register(any.processor, unit) is Err);
    }
    lemma_scan_stops_at_failure(empty_scan(), module.items, 0, at);
}

/// The first failure is the result: where the name of the plugin is well
/// formed, the items before the unit compile, and the tags before the
/// unknown one are accepted, the compilation fails with `UnknownTag`,
/// naming the unit and the tag.
pub proof fn lemma_unknown_tag_is_reported(
    attr: Seq<TokenModel>,
    module: ModuleModel,
    before: ScanModel,
    at: int,
    tag: int,
)
    requires
        0 <= at < module.items.len(),
        module.items[at] matches DeclarationModel::Function(unit) && 0 <= tag < unit.tags.len()
            && !in_grammar(unit.tags[tag].name) && classify_from(
            initial_draft(unit),
            unit.tags.take(tag),
            unit.name,
        ) is Ok,
        plugin_name(attr, module.name) is Ok,
        scan_prefix(empty_scan(), module.items, 0, at) == Ok::<
            ScanModel,
            CompileErrorModel,
        >(before),
    ensures
        compile(attr, module) == Err::<PluginModel, CompileErrorModel>(
            CompileErrorModel {
                kind: ErrorKind::UnknownTag,
                declaration: module.items[at]->Function_0.name,
                tag: module.items[at]->Function_0.tags[tag].name,
            },
        ),
{
    let unit = module.items[at]->Function_0;
    lemma_unknown_tag_rejected(unit, tag);
    lemma_scan_split(empty_scan(), module.items, 0, at);
}

/// The scan of the items from `from` up to, not including, `to`.
pub open spec fn scan_prefix(scan: ScanModel, all: Seq<DeclarationModel>, from: int, to: int)
    -> Result<ScanModel, CompileErrorModel>
    decreases to - from,
{
    if from < 0 || from >= to || from >= all.len() {
        Ok(scan)
    } else {
        match scan_item(scan, all[from], all) {
            Err(error) => Err(error),
            Ok(next) => scan_prefix(next, all, from + 1, to),
        }
    }
}

/// Scanning a module is scanning its first items and then, from what was
/// gathered, the rest.
pub proof fn lemma_scan_split(scan: ScanModel, all: Seq<DeclarationModel>, from: int, to: int)
    requires
        0 <= from <= to <= all.len(),
    ensures
        scan_items(scan, all, from) == match scan_prefix(scan, all, from, to) {
            Err(error) => Err::<ScanModel, CompileErrorModel>(error),
            Ok(middle) => scan_items(middle, all, to),
        },
    decreases to - from,
{
    if from < to {
        match scan_item(scan, all[from], all) {
            Err(_) => {},
            Ok(next) => {
                lemma_scan_split(next, all, from + 1, to);
            },
        }
    }
}

/// Whether a draft holds the parameters `declared`, in order and next to
/// each other, from position `offset` on, where `offset` is 0, or 1 for a
/// claimed draft whose first parameter is a trigger context.
pub open spec fn declared_at(draft: DraftModel, declared: Seq<ParamModel>, offset: int) -> bool {
    &&& (offset == 0 || (offset == 1 && draft.claimed && draft.params[0] is Trigger))
    &&& offset + declared.len() <= draft.params.len()
    &&& draft.params.subrange(offset, offset + declared.len()) == declared
}

/// Whether a draft still holds the parameters `declared`, in order and
/// next to each other, with at most the trigger context of an observer in
/// front of them.
pub open spec fn keeps_declared(draft: DraftModel, declared: Seq<ParamModel>) -> bool {
    exists|offset: int| declared_at(draft, declared, offset)
}

/// No canonical tag displaces a declared parameter.
pub proof fn lemma_canonical_keeps_declared(
    draft: DraftModel,
    tag: TagModel,
    declared: Seq<ParamModel>,
)
    requires
        keeps_declared(draft, declared),
        apply_canonical(draft, tag) is Ok,
    ensures
        keeps_declared(apply_canonical(draft, tag)->Ok_0, declared),
{
    let next = apply_canonical(draft, tag)->Ok_0;
    let offset = choose|offset: int| declared_at(draft, declared, offset);
    if tag.name == "trigger"@ && apply_canonical(draft, tag) == apply_trigger(draft, tag) {
        assert(next.params.subrange(offset + 1, offset + 1 + declared.len())
            =~= draft.params.subrange(offset, offset + declared.len()));
        assert(declared_at(next, declared, offset + 1));
    } else {
        assert(next.params.subrange(offset, offset + declared.len()) =~= draft.params.subrange(
            offset,
            offset + declared.len(),
        ));
        assert(declared_at(next, declared, offset));
    }
}

/// No run of canonical tags displaces a declared parameter.
pub proof fn lemma_each_keeps_declared(
    draft: DraftModel,
    tags: Seq<TagModel>,
    declared: Seq<ParamModel>,
)
    requires
        keeps_declared(draft, declared),
        apply_each(draft, tags) is Ok,
    ensures
        keeps_declared(apply_each(draft, tags)->Ok_0, declared),
    decreases tags.len(),
{
    if tags.len() > 0 {
        lemma_canonical_keeps_declared(draft, tags[0], declared);
        lemma_each_keeps_declared(
            apply_canonical(draft, tags[0])->Ok_0,
            tags.drop_first(),
            declared,
        );
    }
}

/// No run of written tags displaces a declared parameter.
pub proof fn lemma_tags_keep_declared(
    draft: DraftModel,
    tags: Seq<TagModel>,
    unit: Text,
    declared: Seq<ParamModel>,
)
    requires
        keeps_declared(draft, declared),
        classify_from(draft, tags, unit) is Ok,
    ensures
        keeps_declared(classify_from(draft, tags, unit)->Ok_0, declared),
    decreases tags.len(),
{
    if tags.len() > 0 {
        let counted = if tags[0].name == "query"@ {
            DraftModel { queries: draft.queries + 1, ..draft }
        } else {
            draft
        };
        let offset = choose|offset: int| declared_at(draft, declared, offset);
        assert(declared_at(counted, declared, offset));
        lemma_each_keeps_declared(counted, normalize(tags[0], draft.queries), declared);
        lemma_tags_keep_declared(
            apply_tag(draft, tags[0])->Ok_0,
            tags.drop_first(),
            unit,
            declared,
        );
    }
}

/// Injected parameters are added around the declared ones, never in their
/// place: a classified unit still holds the parameters it was declared
/// with, in order, behind at most the trigger context of an observer.
pub proof fn lemma_declared_params_are_kept(unit: UnitModel)
    requires
        classify(unit) is Ok,
    ensures
        keeps_declared(classify(unit)->Ok_0, unit.params),
{
    let start = initial_draft(unit);
    assert(start.params.subrange(0, unit.params.len() as int) =~= unit.params);
    assert(declared_at(start, unit.params, 0));
    lemma_tags_keep_declared(start, unit.tags, unit.name, unit.params);
}

/// The phase in which the cleanup system of a variant runs: on entering
/// that variant of the state.
pub open spec fn cleanup_phase(state: Text, variant: Text) -> PhaseModel {
    PhaseModel::OnEnter(seq![state, ":"@, ":"@, variant])
}

/// The kind of a cleanup system: scheduled on entering its variant, with
/// no ordering asked.
pub open spec fn cleanup_kind(state: Text, variant: Text) -> KindModel {
    KindModel::ScheduledSystem {
        phase: cleanup_phase(state, variant),
        ordering: OrderingModel::Unspecified,
    }
}

/// The cleanup system of a variant as it is emitted: its tag consumed,
/// read access to the state appended to its parameters, its body the
/// cleanup of the variant.
pub open spec fn cleanup_emitted(state: Text, variant: Text) -> UnitModel {
    let unit = cleanup_model(state, variant, cleanup_name(variant));
    UnitModel {
        tags: Seq::<TagModel>::empty(),
        params: unit.params.push(ParamModel::StateRead { state }),
        ..unit
    }
}

/// The definitions of the cleanup systems of the variants from index
/// `from` on, in the order of the variants.
pub open spec fn cleanup_definitions(state: Text, variants: Seq<Text>, from: int) -> Seq<
    DefinitionModel,
> {
    Seq::new(
        (variants.len() - from) as nat,
        |i: int|
            DefinitionModel {
                name: cleanup_name(variants[from + i]),
                kind: cleanup_kind(state, variants[from + i]),
            },
    )
}

/// The emitted cleanup systems of the variants from index `from` on, in
/// the order of the variants.
pub open spec fn cleanup_units(state: Text, variants: Seq<Text>, from: int) -> Seq<UnitModel> {
    Seq::new((variants.len() - from) as nat, |i: int| cleanup_emitted(state, variants[from + i]))
}

/// The cleanup system derived for a variant always classifies: as a
/// system scheduled on entering that variant, claimed, with read access
/// to the state behind its two declared parameters, and no layer.
pub proof fn lemma_cleanup_classifies(state: Text, variant: Text, name: Text)
    ensures
        classify(cleanup_model(state, variant, name)) == Ok::<DraftModel, CompileErrorModel>(
            DraftModel {
                kind: cleanup_kind(state, variant),
                claimed: true,
                params: cleanup_model(state, variant, name).params.push(
                    ParamModel::StateRead { state },
                ),
                yields: false,
                layers: Seq::<LayerModel>::empty(),
                queries: 0,
            },
        ),
{
    lemma_tag_names();
    let unit = cleanup_model(state, variant, name);
    let written = unit.tags[0];
    let value = seq![state, ":"@, ":"@, variant];
    let tokens = seq!["enter"@, ","@] + value;
    let canonical = TagModel { name: "system"@, tokens };
    let start = initial_draft(unit);
    assert(written.tokens == value);
    assert(normalize(written, 0) == seq![canonical]);
    assert(tokens.len() == 6);
    assert(tokens[0] == "enter"@ && tokens[1] == ","@);
    assert(tokens.skip(2) =~= value);
    assert(parse_phase(tokens) == Some(cleanup_phase(state, variant)));
    assert(value[0] == state);
    let placed = apply_canonical(start, canonical)->Ok_0;
    assert(apply_canonical(start, canonical) is Ok);
    let one = seq![canonical];
    assert(one[0] == canonical);
    assert(one.drop_first() =~= Seq::<TagModel>::empty());
    assert(apply_each(placed, Seq::<TagModel>::empty()) == Ok::<DraftModel, ErrorKind>(placed));
    assert(apply_each(start, one) == Ok::<DraftModel, ErrorKind>(placed));
    assert(apply_tag(start, written) == Ok::<DraftModel, ErrorKind>(placed));
    assert(unit.tags.len() == 1);
    assert(unit.tags.drop_first() =~= Seq::<TagModel>::empty());
    assert(classify_from(placed, Seq::<TagModel>::empty(), unit.name) == Ok::<
        DraftModel,
        CompileErrorModel,
    >(placed));
    assert(classify_from(start, unit.tags, unit.name) == Ok::<DraftModel, CompileErrorModel>(
        placed,
    ));
    assert(placed.params =~= unit.params.push(ParamModel::StateRead { state }));
}

/// A state with `n` variants registers `n` cleanup systems: where the
/// cleanup systems of the variants from `from` on are registered, the
/// processor gains, in the order of the variants, one definition per
/// variant, scheduled on entering that variant, and one emitted unit per
/// variant, whose body is the cleanup of that variant. Nothing else of
/// the processor changes.
pub proof fn lemma_cleanups_are_registered(
    processor: ProcessorModel,
    state: Text,
    variants: Seq<Text>,
    from: int,
)
    requires
        0 <= from <= variants.len(),
        register_cleanups(processor, state, variants, from) is Ok,
    ensures
        ({
            let next = register_cleanups(processor, state, variants, from)->Ok_0;
            &&& next.definitions == processor.definitions + cleanup_definitions(
                state,
                variants,
                from,
            )
            &&& next.base_functions == processor.base_functions + cleanup_units(
                state,
                variants,
                from,
            )
            &&& next.impl_functions == processor.impl_functions
        }),
    decreases variants.len() - from,
{
    let next = register_cleanups(processor, state, variants, from)->Ok_0;
    if from >= variants.len() {
        assert(processor.definitions + cleanup_definitions(state, variants, from)
            =~= processor.definitions);
        assert(processor.base_functions + cleanup_units(state, variants, from)
            =~= processor.base_functions);
    } else {
        let variant = variants[from];
        let unit = cleanup_model(state, variant, cleanup_name(variant));
        lemma_cleanup_classifies(state, variant, cleanup_name(variant));
        let middle = register(processor, unit)->Ok_0;
        lemma_cleanups_are_registered(middle, state, variants, from + 1);
        assert(compiled_unit(unit, classify(unit)->Ok_0) == cleanup_emitted(state, variant));
        assert(next.definitions =~= processor.definitions + cleanup_definitions(
            state,
            variants,
            from,
        ));
        assert(next.base_functions =~= processor.base_functions + cleanup_units(
            state,
            variants,
            from,
        ));
    }
}

/// A state to which a prefab is scoped registers its cleanup systems:
/// where the `init_state` tag of such a type is accepted, the processor
/// gains one cleanup system per variant of the type, each scheduled on
/// entering its variant, each with the cleanup of its variant as its
/// body.
pub proof fn lemma_scoped_state_registers_its_cleanups(scan: TypeScan, tag: TagModel)
    requires
        tag.name == "init_state"@,
        apply_type_tag(scan, tag, true) is Ok,
    ensures
        ({
            let next = apply_type_tag(scan, tag, true)->Ok_0;
            &&& next.ty == (DataTypeModel { state: true, ..scan.ty })
            &&& next.init == scan.init.push(
                if tag.tokens.len() == 0 {
                    RequestModel::DefaultState(scan.ty.name)
                } else {
                    RequestModel::InstanceState(tag.tokens)
                },
            )
            &&& next.processor.impl_functions == scan.processor.impl_functions
            &&& next.processor.definitions == scan.processor.definitions + cleanup_definitions(
                scan.ty.name,
                scan.ty.variants,
                0,
            )
            &&& next.processor.base_functions == scan.processor.base_functions + cleanup_units(
                scan.ty.name,
                scan.ty.variants,
                0,
            )
            &&& cleanup_definitions(scan.ty.name, scan.ty.variants, 0).len()
                == scan.ty.variants.len()
        }),
{
    reveal_strlit("init_state");
    reveal_strlit("init_resource");
    reveal_strlit("init_event");
    reveal_strlit("register");
    assert("init_state"@.len() == 10);
    assert("init_resource"@.len() == 13);
    assert("init_event"@.len() == 10);
    assert("init_event"@[5] == 'e');
    assert("init_state"@[5] == 's');
    assert("register"@.len() == 8);
    lemma_cleanups_are_registered(scan.processor, scan.ty.name, scan.ty.variants, 0);
}

/// A data type that carries `init_state` alone, and to which a prefab of
/// the module is scoped, adds to the scan one cleanup system per variant,
/// in the order of the variants: each is defined as a system scheduled on
/// entering its variant, and emitted with the cleanup of its variant as
/// its body. The type is passed on as a state.
pub proof fn lemma_scoped_state_item_registers_its_cleanups(
    scan: ScanModel,
    ty: DataTypeModel,
    all: Seq<DeclarationModel>,
)
    requires
        ty.tags == seq![TagModel { name: "init_state"@, tokens: Seq::<Text>::empty() }],
        is_scoped_state(all, ty.name),
        scan_item(scan, DeclarationModel::Type(ty), all) is Ok,
    ensures
        ({
            let next = scan_item(scan, DeclarationModel::Type(ty), all)->Ok_0;
            &&& next.processor.definitions == scan.processor.definitions + cleanup_definitions(
                ty.name,
                ty.variants,
                0,
            )
            &&& next.processor.base_functions == scan.processor.base_functions + cleanup_units(
                ty.name,
                ty.variants,
                0,
            )
            &&& next.processor.impl_functions == scan.processor.impl_functions
            &&& next.init == scan.init.push(RequestModel::DefaultState(ty.name))
            &&& forall|i: int|
                0 <= i < ty.variants.len() ==> (#[trigger] cleanup_units(
                    ty.name,
                    ty.variants,
                    0,
                )[i]).body == (BodyModel::ScopeCleanup { state: ty.name, variant: ty.variants[i] })
        }),
{
    let tag = ty.tags[0];
    let start = TypeScan {
        ty: DataTypeModel { tags: Seq::<TagModel>::empty(), ..ty },
        init: scan.init,
        processor: scan.processor,
    };
    assert(ty.tags.len() == 1);
    assert(ty.tags.drop_first() =~= Seq::<TagModel>::empty());
    assert(apply_type_tags(start, ty.tags, true) == match apply_type_tag(start, tag, true) {
        Err(error) => Err::<TypeScan, CompileErrorModel>(error),
        Ok(done) => apply_type_tags(done, Seq::<TagModel>::empty(), true),
    });
    match apply_type_tag(start, tag, true) {
        Err(_) => {},
        Ok(done) => {
            assert(apply_type_tags(done, Seq::<TagModel>::empty(), true) == Ok::<
                TypeScan,
                CompileErrorModel,
            >(done));
            lemma_scoped_state_registers_its_cleanups(start, tag);
            assert(tag.tokens.len() == 0);
            let units = cleanup_units(ty.name, ty.variants, 0);
            assert forall|i: int| 0 <= i < ty.variants.len() implies (#[trigger] units[i]).body
                == (BodyModel::ScopeCleanup { state: ty.name, variant: ty.variants[i] }) by {
                assert(units[i] == cleanup_emitted(ty.name, ty.variants[0 + i]));
            }
        },
    }
}

/// A module that declares a state and a prefab scoped to it: where it
/// compiles, the plugin emits exactly the cleanup systems of the state,
/// one per variant in the order of the variants, each with the cleanup of
/// its variant as its body, and registers each of them in the phase of
/// entering its variant. With the law of the cleanup body, an entity
/// scoped to one variant is despawned by the cleanup system of every
/// other variant and by no other; with two variants, by exactly one of
/// the two.
pub proof fn lemma_scoped_state_module_registers_its_cleanups(
    attr: Seq<TokenModel>,
    module: ModuleModel,
    state: DataTypeModel,
    bundle: DataTypeModel,
)
    requires
        module.items == seq![DeclarationModel::Type(state), DeclarationModel::Type(bundle)],
        state.tags == seq![TagModel { name: "init_state"@, tokens: Seq::<Text>::empty() }],
        bundle.named_fields,
        bundle.tags == seq![
            TagModel { name: "prefab"@, tokens: seq!["scope"@, "local"@, state.name] },
        ],
        compile(attr, module) is Ok,
    ensures
        ({
            let plugin = compile(attr, module)->Ok_0;
            &&& plugin.functions == cleanup_units(state.name, state.variants, 0)
            &&& plugin.functions.len() == state.variants.len()
            &&& forall|i: int|
                0 <= i < state.variants.len() ==> (#[trigger] plugin.functions[i]).body == (
                BodyModel::ScopeCleanup { state: state.name, variant: state.variants[i] })
            &&& forall|i: int|
                0 <= i < state.variants.len() ==> exists|k: int|
                    0 <= k < plugin.registrations.len() && (
                    #[trigger] plugin.registrations[k]) is AddSystems && call_phase(
                        plugin.registrations[k],
                    ) == cleanup_phase(state.name, #[trigger] state.variants[i])
        }),
{
    let items = module.items;
    let plugin = compile(attr, module)->Ok_0;
    let start = empty_scan();
    // the prefab is scoped to the state
    reveal_strlit("scope");
    reveal_strlit("local");
    reveal_strlit("global");
    reveal_strlit("prefab");
    reveal_strlit("init_state");
    reveal_strlit("init_resource");
    reveal_strlit("init_event");
    reveal_strlit("register");
    assert("local"@.len() == 5 && "global"@.len() == 6);
    assert("prefab"@.len() == 6 && "init_state"@.len() == 10 && "init_resource"@.len() == 13
        && "init_event"@.len() == 10 && "register"@.len() == 8);
    let scope = bundle.tags[0].tokens;
    assert(scope[0] == "scope"@ && scope[1] == "local"@ && scope[2] == state.name);
    assert(find_word(scope, "scope"@, 0) == Some(0int));
    assert(parse_scope(scope) == Ok::<Option<ScopeModel>, ErrorKind>(
        Some(ScopeModel::Local(state.name)),
    ));
    assert(scopes_to(items[1], state.name));
    assert(is_scoped_state(items, state.name));
    // the state registers its cleanup systems
    assert(scan_items(start, items, 0) is Ok);
    assert(scan_item(start, items[0], items) is Ok);
    lemma_scoped_state_item_registers_its_cleanups(start, state, items);
    let s1 = scan_item(start, items[0], items)->Ok_0;
    assert(start.processor.definitions + cleanup_definitions(state.name, state.variants, 0)
        =~= cleanup_definitions(state.name, state.variants, 0));
    assert(start.processor.base_functions + cleanup_units(state.name, state.variants, 0)
        =~= cleanup_units(state.name, state.variants, 0));
    // the prefab adds no unit
    let work = TypeScan {
        ty: DataTypeModel { tags: Seq::<TagModel>::empty(), ..bundle },
        init: s1.init,
        processor: s1.processor,
    };
    let scoped = is_scoped_state(items, bundle.name);
    assert(bundle.tags.len() == 1);
    assert(bundle.tags.drop_first() =~= Seq::<TagModel>::empty());
    let made = apply_type_tag(work, bundle.tags[0], scoped)->Ok_0;
    assert(prefab_type(scope, work.ty) is Ok);
    assert(apply_type_tag(work, bundle.tags[0], scoped) is Ok);
    assert(made.processor == s1.processor && made.init == s1.init);
    assert(apply_type_tags(made, Seq::<TagModel>::empty(), scoped) == Ok::<
        TypeScan,
        CompileErrorModel,
    >(made));
    assert(apply_type_tags(work, bundle.tags, scoped) == Ok::<TypeScan, CompileErrorModel>(
        made,
    ));
    let s2 = scan_item(s1, items[1], items)->Ok_0;
    assert(scan_item(s1, items[1], items) is Ok);
    assert(s2.processor == s1.processor && s2.init == s1.init);
    assert(scan_items(s2, items, 2) == Ok::<ScanModel, CompileErrorModel>(s2));
    assert(scan_items(s1, items, 1) == Ok::<ScanModel, CompileErrorModel>(s2));
    assert(scan_items(start, items, 0) == Ok::<ScanModel, CompileErrorModel>(s2));
    // every cleanup system has its call
    let defs = s2.processor.definitions;
    let calls = system_calls(defs)->Ok_0;
    let phases = phase_calls(defs, 0)->Ok_0;
    assert(plugin.registrations == init_calls(s2.init) + calls);
    assert forall|i: int| 0 <= i < state.variants.len() implies exists|k: int|
        0 <= k < plugin.registrations.len() && (#[trigger] plugin.registrations[k]) is AddSystems
            && call_phase(plugin.registrations[k]) == cleanup_phase(
            state.name,
            #[trigger] state.variants[i],
        ) by {
        assert(defs[i] == cleanup_definitions(state.name, state.variants, 0)[i]);
        assert(defs[i].kind == cleanup_kind(state.name, state.variants[0 + i]));
        let k = lemma_every_system_has_its_call(defs, i);
        let at = init_calls(s2.init).len() + k;
        assert(calls[k] == phases[k]);
        assert(plugin.registrations[at] == phases[k]);
    }
    let units = cleanup_units(state.name, state.variants, 0);
    assert forall|i: int| 0 <= i < state.variants.len() implies (
    #[trigger] plugin.functions[i]).body == (BodyModel::ScopeCleanup {
        state: state.name,
        variant: state.variants[i],
    }) by {
        assert(units[i] == cleanup_emitted(state.name, state.variants[0 + i]));
    }
}

/// A unit that carries `event(E)` alone is classified as a system of the
/// update phase with a reader of its own: behind its declared parameters
/// stands one reader over `E`, and around its declared layers the loop
/// over that reader.
pub proof fn lemma_event_unit_is_classified(unit: UnitModel, event: Text)
    requires
        unit.tags == seq![TagModel { name: "event"@, tokens: seq![event] }],
    ensures
        classify(unit) == Ok::<DraftModel, CompileErrorModel>(event_draft(unit, event)),
{
    lemma_tag_names();
    let written = unit.tags[0];
    let system = TagModel { name: "system"@, tokens: seq!["update"@] };
    let start = initial_draft(unit);
    let canonical = seq![system, written];
    assert(normalize(written, 0) == canonical);
    assert(system.tokens[0] == "update"@);
    assert(parse_phase(system.tokens) == Some(PhaseModel::Update));
    let placed = apply_canonical(start, system)->Ok_0;
    assert(apply_canonical(start, system) == Ok::<DraftModel, ErrorKind>(placed));
    assert(canonical[0] == system);
    assert(canonical.drop_first() =~= seq![written]);
    assert(written.tokens[0] == event);
    let served = apply_canonical(placed, written)->Ok_0;
    assert(apply_canonical(placed, written) == Ok::<DraftModel, ErrorKind>(served));
    assert(seq![written][0] == written);
    assert(seq![written].drop_first() =~= Seq::<TagModel>::empty());
    assert(apply_each(served, Seq::<TagModel>::empty()) == Ok::<DraftModel, ErrorKind>(served));
    assert(apply_each(placed, seq![written]) == Ok::<DraftModel, ErrorKind>(served));
    assert(apply_each(start, canonical) == Ok::<DraftModel, ErrorKind>(served));
    assert(apply_tag(start, written) == Ok::<DraftModel, ErrorKind>(served));
    assert(unit.tags.drop_first() =~= Seq::<TagModel>::empty());
    assert(classify_from(served, Seq::<TagModel>::empty(), unit.name) == Ok::<
        DraftModel,
        CompileErrorModel,
    >(served));
    assert(served == event_draft(unit, event));
}

/// Two handlers of one event type are compiled apart: a module that
/// declares two units, both tagged `event(E)` and nothing else, compiles
/// to a plugin that emits the two as two free functions, in order, each
/// with a reader over `E` of its own as its last parameter and the loop
/// over that reader as its outermost layer, and that registers both, and
/// nothing else, in one chain of the update phase. Nothing is shared
/// between the two: what one reads through its reader moves only its own
/// cursor.
pub proof fn lemma_two_event_handlers_are_compiled_apart(
    attr: Seq<TokenModel>,
    module: ModuleModel,
    first: UnitModel,
    second: UnitModel,
    event: Text,
)
    requires
        plugin_name(attr, module.name) is Ok,
        module.items == seq![
            DeclarationModel::Function(first),
            DeclarationModel::Function(second),
        ],
        first.tags == seq![TagModel { name: "event"@, tokens: seq![event] }],
        second.tags == first.tags,
        first.name != second.name,
    ensures
        compile(attr, module) matches Ok(plugin) && ({
            &&& plugin.functions == seq![
                compiled_unit(first, event_draft(first, event)),
                compiled_unit(second, event_draft(second, event)),
            ]
            &&& plugin.methods == Seq::<UnitModel>::empty()
            &&& plugin.builds == Seq::<Text>::empty()
            &&& plugin.registrations == seq![
                RegistrationModel::AddSystems {
                    phase: PhaseModel::Update,
                    set: SystemSetModel {
                        chain: seq![first.name, second.name],
                        edges: Seq::<EdgeModel>::empty(),
                        free: Seq::<Text>::empty(),
                    },
                },
            ]
        }),
{
    let items = module.items;
    let kind = event_draft(first, event).kind;
    let d1 = DefinitionModel { name: first.name, kind };
    let d2 = DefinitionModel { name: second.name, kind };
    let defs = seq![d1, d2];
    lemma_event_unit_is_classified(first, event);
    lemma_event_unit_is_classified(second, event);
    // the scan
    let start = empty_scan();
    let after_first = register(start.processor, first)->Ok_0;
    assert(!is_defined(start.processor.definitions, first.name));
    assert(register(start.processor, first) is Ok);
    assert(after_first.definitions =~= seq![d1]);
    assert(after_first.base_functions =~= seq![compiled_unit(first, event_draft(first, event))]);
    assert(!is_defined(after_first.definitions, second.name));
    let after_second = register(after_first, second)->Ok_0;
    assert(register(after_first, second) is Ok);
    assert(after_second.definitions =~= defs);
    assert(after_second.base_functions =~= seq![
        compiled_unit(first, event_draft(first, event)),
        compiled_unit(second, event_draft(second, event)),
    ]);
    assert(after_second.impl_functions =~= Seq::<UnitModel>::empty());
    let s1 = ScanModel { processor: after_first, ..start };
    let s2 = ScanModel { processor: after_second, ..start };
    assert(scan_item(start, items[0], items) == Ok::<ScanModel, CompileErrorModel>(s1));
    assert(scan_item(s1, items[1], items) == Ok::<ScanModel, CompileErrorModel>(s2));
    assert(scan_items(s2, items, 2) == Ok::<ScanModel, CompileErrorModel>(s2));
    assert(scan_items(s1, items, 1) == Ok::<ScanModel, CompileErrorModel>(s2));
    assert(scan_items(start, items, 0) == Ok::<ScanModel, CompileErrorModel>(s2));
    // the bucket of the update phase
    let one = seq![d1];
    assert(defs.drop_last() =~= one);
    assert(one.drop_last() =~= Seq::<DefinitionModel>::empty());
    assert(phase_bucket(Seq::<DefinitionModel>::empty(), PhaseModel::Update)
        =~= Seq::<DefinitionModel>::empty());
    assert(phase_bucket(one, PhaseModel::Update) =~= one);
    assert(phase_bucket(defs, PhaseModel::Update) =~= defs);
    // its chain and its edges
    let e1 = EntryModel { rank: Rank::Normal, name: first.name };
    let e2 = EntryModel { rank: Rank::Normal, name: second.name };
    assert(chain_entries(Seq::<DefinitionModel>::empty()) =~= Seq::<EntryModel>::empty());
    assert(chain_entries(one) =~= seq![e1]);
    assert(chain_entries(defs) =~= seq![e1, e2]);
    assert(bucket_edges(Seq::<DefinitionModel>::empty()) =~= Seq::<EdgeModel>::empty());
    assert(bucket_edges(one) =~= Seq::<EdgeModel>::empty());
    assert(bucket_edges(defs) =~= Seq::<EdgeModel>::empty());
    let entries = seq![e1, e2];
    assert(entries.drop_last() =~= seq![e1]);
    assert(seq![e1].drop_last() =~= Seq::<EntryModel>::empty());
    assert(chain_order(Seq::<EntryModel>::empty()) =~= Seq::<EntryModel>::empty());
    assert(insertion_point(Seq::<EntryModel>::empty(), e1) == 0);
    assert(chain_order(seq![e1]) =~= seq![e1]);
    assert(insertion_point(seq![e1], e2) == 1);
    assert(chain_order(entries) =~= seq![e1, e2]);
    assert(entry_names(seq![e1, e2]) =~= seq![first.name, second.name]);
    assert(edge_resolved(defs, 0) && edge_resolved(defs, 1));
    assert(first_unresolved(defs, 2) is None);
    assert(first_unresolved(defs, 1) is None);
    assert(first_unresolved(defs, 0) is None);
    let set = SystemSetModel {
        chain: seq![first.name, second.name],
        edges: Seq::<EdgeModel>::empty(),
        free: Seq::<Text>::empty(),
    };
    assert(resolve_bucket(defs) == Ok::<SystemSetModel, CompileErrorModel>(set));
    // the calls
    let call = RegistrationModel::AddSystems { phase: PhaseModel::Update, set };
    assert(opens_bucket(defs, 0));
    assert(in_phase(defs[0], PhaseModel::Update));
    assert(!opens_bucket(defs, 1));
    assert(phase_calls(defs, 2) == Ok::<Seq<RegistrationModel>, CompileErrorModel>(
        Seq::<RegistrationModel>::empty(),
    ));
    assert(phase_calls(defs, 1) == phase_calls(defs, 2));
    assert(seq![call] + Seq::<RegistrationModel>::empty() =~= seq![call]);
    assert(phase_calls(defs, 0) == Ok::<Seq<RegistrationModel>, CompileErrorModel>(seq![call]));
    assert(factory_calls(Seq::<DefinitionModel>::empty()) =~= Seq::<RegistrationModel>::empty());
    assert(factory_calls(one) =~= Seq::<RegistrationModel>::empty());
    assert(factory_calls(defs) =~= Seq::<RegistrationModel>::empty());
    assert(observer_calls(Seq::<DefinitionModel>::empty()) =~= Seq::<RegistrationModel>::empty());
    assert(observer_calls(one) =~= Seq::<RegistrationModel>::empty());
    assert(observer_calls(defs) =~= Seq::<RegistrationModel>::empty());
    assert(build_hooks(Seq::<DefinitionModel>::empty()) =~= Seq::<Text>::empty());
    assert(build_hooks(one) =~= Seq::<Text>::empty());
    assert(build_hooks(defs) =~= Seq::<Text>::empty());
    assert(system_calls(defs) == Ok::<Seq<RegistrationModel>, CompileErrorModel>(
        seq![call] + Seq::<RegistrationModel>::empty() + Seq::<RegistrationModel>::empty(),
    ));
    assert(init_calls(start.init) + (seq![call] + Seq::<RegistrationModel>::empty()
        + Seq::<RegistrationModel>::empty()) =~= seq![call]);
}

/// What a unit that carries `event(E)` alone is classified as.
pub open spec fn event_draft(unit: UnitModel, event: Text) -> DraftModel {
    DraftModel {
        kind: KindModel::ScheduledSystem {
            phase: PhaseModel::Update,
            ordering: OrderingModel::Unspecified,
        },
        claimed: true,
        params: unit.params.push(
            ParamModel::EventReader { name: snake_case(event), event },
        ),
        yields: unit.yields,
        layers: unit.layers.push(LayerModel::ForEachEvent { reader: snake_case(event) }),
        queries: 0,
    }
}

/// The phase of a phase registration call.
pub open spec fn call_phase(call: RegistrationModel) -> PhaseModel {
    call->AddSystems_phase
}

/// Every call among the phase calls registers the phase of a system that
/// is the first of its phase at or after `from`.
pub proof fn lemma_phase_call_origin(defs: Seq<DefinitionModel>, from: int, k: int) -> (at: int)
    requires
        0 <= from,
        phase_calls(defs, from) matches Ok(calls) && 0 <= k < calls.len(),
    ensures
        from <= at < defs.len(),
        opens_bucket(defs, at),
        phase_calls(defs, from)->Ok_0[k] is AddSystems,
        in_phase(defs[at], call_phase(phase_calls(defs, from)->Ok_0[k])),
    decreases defs.len() - from,
{
    if opens_bucket(defs, from) {
        if k == 0 {
            from
        } else {
            let rest = phase_calls(defs, from + 1)->Ok_0;
            assert(phase_calls(defs, from)->Ok_0[k] == rest[k - 1]);
            lemma_phase_call_origin(defs, from + 1, k - 1)
        }
    } else {
        lemma_phase_call_origin(defs, from + 1, k)
    }
}

/// Exactly one registration call per phase: no two phase calls register
/// the same phase.
pub proof fn lemma_one_call_per_phase(defs: Seq<DefinitionModel>, from: int, a: int, b: int)
    requires
        0 <= from,
        phase_calls(defs, from) matches Ok(calls) && 0 <= a < b < calls.len(),
    ensures
        call_phase(phase_calls(defs, from)->Ok_0[a]) != call_phase(
            phase_calls(defs, from)->Ok_0[b],
        ),
    decreases defs.len() - from,
{
    if opens_bucket(defs, from) {
        let rest = phase_calls(defs, from + 1)->Ok_0;
        let calls = phase_calls(defs, from)->Ok_0;
        assert(calls[b] == rest[b - 1]);
        if a == 0 {
            let at = lemma_phase_call_origin(defs, from + 1, b - 1);
            assert(opens_bucket(defs, at));
            assert(!in_phase(defs[from], defs[at].kind->ScheduledSystem_phase));
        } else {
            assert(calls[a] == rest[a - 1]);
            lemma_one_call_per_phase(defs, from + 1, a - 1, b - 1);
        }
    } else {
        lemma_one_call_per_phase(defs, from + 1, a, b);
    }
}

/// Every scheduled system is registered: where the phase calls resolve,
/// one of them registers the phase of each scheduled system.
pub proof fn lemma_every_system_has_its_call(defs: Seq<DefinitionModel>, at: int) -> (k: int)
    requires
        0 <= at < defs.len(),
        defs[at].kind is ScheduledSystem,
        phase_calls(defs, 0) is Ok,
    ensures
        0 <= k < phase_calls(defs, 0)->Ok_0.len(),
        phase_calls(defs, 0)->Ok_0[k] is AddSystems,
        in_phase(defs[at], call_phase(phase_calls(defs, 0)->Ok_0[k])),
{
    let phase = defs[at].kind->ScheduledSystem_phase;
    let first = lemma_first_of_phase(defs, phase, at);
    lemma_call_of_opener(defs, 0, first)
}

/// The first system of a phase, given one system of that phase.
pub proof fn lemma_first_of_phase(defs: Seq<DefinitionModel>, phase: PhaseModel, at: int) -> (first:
    int)
    requires
        0 <= at < defs.len(),
        in_phase(defs[at], phase),
    ensures
        0 <= first <= at,
        in_phase(defs[first], phase),
        opens_bucket(defs, first),
    decreases at,
{
    if exists|j: int| 0 <= j < at && in_phase(#[trigger] defs[j], phase) {
        let j = choose|j: int| 0 <= j < at && in_phase(#[trigger] defs[j], phase);
        lemma_first_of_phase(defs, phase, j)
    } else {
        at
    }
}

/// The call of the bucket that the system at `at` opens, among the calls
/// from `from` on.
pub proof fn lemma_call_of_opener(defs: Seq<DefinitionModel>, from: int, at: int) -> (k: int)
    requires
        0 <= from <= at < defs.len(),
        opens_bucket(defs, at),
        phase_calls(defs, from) is Ok,
    ensures
        0 <= k < phase_calls(defs, from)->Ok_0.len(),
        phase_calls(defs, from)->Ok_0[k] is AddSystems,
        call_phase(phase_calls(defs, from)->Ok_0[k]) == defs[at].kind->ScheduledSystem_phase,
    decreases at - from,
{
    if from == at {
        0
    } else if opens_bucket(defs, from) {
        let k = lemma_call_of_opener(defs, from + 1, at);
        let rest = phase_calls(defs, from + 1)->Ok_0;
        assert(phase_calls(defs, from)->Ok_0[k + 1] == rest[k]);
        k + 1
    } else {
        lemma_call_of_opener(defs, from + 1, at)
    }
}

} // verus!
