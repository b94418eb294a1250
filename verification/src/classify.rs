//! The system classifier and the argument injector: what each canonical
//! tag does to the kind, the parameters and the body of a behaviour unit.

use crate::error::ErrorKind;
use crate::grammar::{
    all_groups_filled, any_mutable, groups_filled, is_query_name, parse_phase, parse_rank,
    pick_groups, query_name, read_phase, read_rank, select_groups, some_mutable, split_at_commas,
    split_groups,
};
use crate::kind::{FunctionKind, KindModel, OrderingModel, OrderingSpec, PhaseExpr, PhaseModel};
use crate::normalize::{normalize, normalize_tag};
use crate::text::{copy_texts, snake_case, text_eq, to_snake_case, Text};
use crate::unit::{
    BodyLayer, LayerModel, Param, ParamModel, QueryBinding, QueryModel, Tag, TagModel,
};
use vstd::prelude::*;
use vstd::string::*;

verus! {

/// A behaviour unit while its tags are being applied: the kind found so
/// far, whether a kind-determining tag has claimed it, the parameters and
/// layers gathered, and how many `query` tags were met.
#[derive(Debug, PartialEq, Eq)]
pub struct Draft {
    pub kind: FunctionKind,
    pub claimed: bool,
    pub params: Vec<Param>,
    pub yields: bool,
    pub layers: Vec<BodyLayer>,
    pub queries: usize,
}

/// The mathematical value of a [`Draft`].
pub struct DraftModel {
    pub kind: KindModel,
    pub claimed: bool,
    pub params: Seq<ParamModel>,
    pub yields: bool,
    pub layers: Seq<LayerModel>,
    pub queries: nat,
}

impl View for Draft {
    type V = DraftModel;

    open spec fn view(&self) -> DraftModel {
        DraftModel {
            kind: self.kind@,
            claimed: self.claimed,
            params: self.params.deep_view(),
            yields: self.yields,
            layers: self.layers.deep_view(),
            queries: self.queries as nat,
        }
    }
}

/// The mathematical value of the outcome of applying a tag.
pub open spec fn outcome(out: Result<Draft, ErrorKind>) -> Result<DraftModel, ErrorKind> {
    match out {
        Ok(draft) => Ok(draft@),
        Err(kind) => Err(kind),
    }
}

/// How the declared parameters of a unit provide the mutation handle.
#[derive(Clone, Copy, PartialEq, Eq, Structural, Debug)]
pub enum HandleUse {
    /// No declared parameter has the handle's type.
    Absent,
    /// The handle is declared, under its expected name `commands`.
    Present,
    /// A parameter of the handle's type is declared under another name.
    Conflicting,
}

/// Whether a parameter is declared with the type of the mutation handle.
pub open spec fn is_handle_param(param: ParamModel) -> bool {
    param matches ParamModel::Declared { ty, .. } && ty == "Commands"@
}

/// Whether a parameter is the mutation handle under its expected name.
pub open spec fn is_named_handle(param: ParamModel) -> bool {
    param matches ParamModel::Declared { name, ty } && ty == "Commands"@ && name == "commands"@
}

/// How `params` provide the mutation handle: conflicting as soon as one
/// parameter of the handle's type is not named `commands`, else present if
/// one is declared, else absent.
pub open spec fn handle_use(params: Seq<ParamModel>) -> HandleUse {
    if exists|i: int| 0 <= i < params.len() && is_handle_param(#[trigger] params[i])
        && !is_named_handle(params[i]) {
        HandleUse::Conflicting
    } else if exists|i: int| 0 <= i < params.len() && is_handle_param(#[trigger] params[i]) {
        HandleUse::Present
    } else {
        HandleUse::Absent
    }
}

/// Finds how the declared parameters provide the mutation handle.
pub fn find_handle(params: &Vec<Param>) -> (found: HandleUse)
    ensures
        found == handle_use(params.deep_view()),
{
    let mut present = false;
    let mut i: usize = 0;
    while i < params.len()
        invariant
            i <= params.len(),
            forall|k: int|
                0 <= k < i && is_handle_param(#[trigger] params.deep_view()[k])
                    ==> is_named_handle(params.deep_view()[k]),
            present == exists|k: int|
                0 <= k < i && is_handle_param(#[trigger] params.deep_view()[k]),
        decreases params.len() - i,
    {
        assert(params.deep_view()[i as int] == params[i as int]@);
        match &params[i] {
            Param::Declared { name, ty } => {
                if text_eq(ty.as_str(), "Commands") {
                    if !text_eq(name.as_str(), "commands") {
                        assert(is_handle_param(params.deep_view()[i as int]));
                        return HandleUse::Conflicting;
                    }
                    present = true;
                    assert(is_handle_param(params.deep_view()[i as int]));
                }
            },
            _ => {},
        }
        i += 1;
    }
    if present {
        HandleUse::Present
    } else {
        HandleUse::Absent
    }
}

/// A kind-determining tag without tokens claims a unit that no such tag
/// has claimed yet, and sets its kind; on a claimed unit it is a
/// duplicate.
pub open spec fn claim_kind(draft: DraftModel, tag: TagModel, kind: KindModel) -> Result<
    DraftModel,
    ErrorKind,
> {
    if draft.claimed {
        Err(ErrorKind::DuplicateClassification)
    } else if tag.tokens.len() != 0 {
        Err(ErrorKind::MalformedTag)
    } else {
        Ok(DraftModel { kind, claimed: true, ..draft })
    }
}

/// `resource_system`: the unit becomes a system of the start-up phase, its
/// body is made to store its value through the mutation handle, its return
/// value is dropped, and the handle is appended to the parameters unless
/// it is declared already. A handle declared under another name is
/// rejected as malformed.
pub open spec fn apply_resource_system(draft: DraftModel, tag: TagModel) -> Result<
    DraftModel,
    ErrorKind,
> {
    if draft.claimed {
        Err(ErrorKind::DuplicateClassification)
    } else if tag.tokens.len() != 0 {
        Err(ErrorKind::MalformedTag)
    } else {
        match handle_use(draft.params) {
            HandleUse::Conflicting => Err(ErrorKind::MalformedTag),
            HandleUse::Present => Ok(
                DraftModel {
                    kind: KindModel::ScheduledSystem {
                        phase: PhaseModel::Startup,
                        ordering: OrderingModel::Unspecified,
                    },
                    claimed: true,
                    yields: false,
                    layers: draft.layers.push(LayerModel::StoreResult { handle: "commands"@ }),
                    ..draft
                },
            ),
            HandleUse::Absent => Ok(
                DraftModel {
                    kind: KindModel::ScheduledSystem {
                        phase: PhaseModel::Startup,
                        ordering: OrderingModel::Unspecified,
                    },
                    claimed: true,
                    params: draft.params.push(ParamModel::Handle),
                    yields: false,
                    layers: draft.layers.push(LayerModel::StoreResult { handle: "commands"@ }),
                    ..draft
                },
            ),
        }
    }
}

/// The parameters of a unit after it was placed in `phase`: the two state
/// phases append read access to the state type, which is the first token
/// of the state value.
pub open spec fn phase_params(params: Seq<ParamModel>, phase: PhaseModel) -> Seq<ParamModel> {
    match phase {
        PhaseModel::OnEnter(state) => params.push(ParamModel::StateRead { state: state[0] }),
        PhaseModel::OnExit(state) => params.push(ParamModel::StateRead { state: state[0] }),
        _ => params,
    }
}

/// `system(phase, ..)`: the unit becomes a system of that phase, with no
/// ordering asked yet.
pub open spec fn apply_system(draft: DraftModel, tag: TagModel) -> Result<DraftModel, ErrorKind> {
    if draft.claimed {
        Err(ErrorKind::DuplicateClassification)
    } else {
        match parse_phase(tag.tokens) {
            None => Err(ErrorKind::MalformedTag),
            Some(phase) => Ok(
                DraftModel {
                    kind: KindModel::ScheduledSystem {
                        phase,
                        ordering: OrderingModel::Unspecified,
                    },
                    claimed: true,
                    params: phase_params(draft.params, phase),
                    ..draft
                },
            ),
        }
    }
}

/// Whether `name` is one of the four ordering tags.
pub open spec fn is_ordering_tag(name: Text) -> bool {
    name == "priority"@ || name == "before"@ || name == "after"@ || name == "pipe"@
}

/// The ordering that an ordering tag asks for, if its tokens are well
/// formed: a rank for `priority`, one system name for `before`, `after`
/// and `pipe`. A tag of any other name asks for none.
pub open spec fn parse_ordering(tag: TagModel) -> Option<OrderingModel> {
    if tag.name == "priority"@ {
        match parse_rank(tag.tokens) {
            Some(rank) => Some(OrderingModel::Priority(rank)),
            None => None,
        }
    } else if tag.tokens.len() != 1 {
        None
    } else if tag.name == "before"@ {
        Some(OrderingModel::Before(tag.tokens[0]))
    } else if tag.name == "after"@ {
        Some(OrderingModel::After(tag.tokens[0]))
    } else if tag.name == "pipe"@ {
        Some(OrderingModel::Pipe(tag.tokens[0]))
    } else {
        None
    }
}

/// `priority`, `before`, `after`, `pipe`: replaces the ordering of a
/// scheduled system; on any other kind of unit the tag is rejected, before
/// its tokens are looked at.
pub open spec fn apply_ordering(draft: DraftModel, tag: TagModel) -> Result<
    DraftModel,
    ErrorKind,
> {
    match draft.kind {
        KindModel::ScheduledSystem { phase, .. } => match parse_ordering(tag) {
            None => Err(ErrorKind::MalformedTag),
            Some(ordering) => Ok(
                DraftModel { kind: KindModel::ScheduledSystem { phase, ordering }, ..draft },
            ),
        },
        _ => Err(ErrorKind::OrderingOnNonSystem),
    }
}

/// `trigger(kind, component)`: the unit becomes an observer, and the
/// trigger context becomes its first parameter, ahead of all others.
pub open spec fn apply_trigger(draft: DraftModel, tag: TagModel) -> Result<DraftModel, ErrorKind> {
    let groups = split_groups(tag.tokens);
    if draft.claimed {
        Err(ErrorKind::DuplicateClassification)
    } else if groups.len() != 2 || groups[0].len() == 0 || groups[1].len() == 0 {
        Err(ErrorKind::MalformedTag)
    } else {
        Ok(
            DraftModel {
                kind: KindModel::Observer { event_kind: groups[0], component_type: groups[1] },
                claimed: true,
                params: seq![
                    ParamModel::Trigger { event_kind: groups[0], component_type: groups[1] },
                ] + draft.params,
                ..draft
            },
        )
    }
}

/// The draft after an event reader named `reader` over the events of type
/// `event` was appended, and the body wrapped to run once per unread event.
pub open spec fn with_event_reader(draft: DraftModel, event: Text, reader: Text) -> DraftModel {
    DraftModel {
        params: draft.params.push(ParamModel::EventReader { name: reader, event }),
        layers: draft.layers.push(LayerModel::ForEachEvent { reader }),
        ..draft
    }
}

/// `event(E)`: appends a reader over `E`, named by the snake-case spelling
/// of `E`, and wraps the body to run once per unread event.
pub open spec fn apply_event(draft: DraftModel, tag: TagModel) -> Result<DraftModel, ErrorKind> {
    if tag.tokens.len() != 1 {
        Err(ErrorKind::MalformedTag)
    } else {
        Ok(with_event_reader(draft, tag.tokens[0], snake_case(tag.tokens[0])))
    }
}

/// The kind of a unit after a query was bound to it: a plain unit becomes
/// a system of the update phase. This claims nothing: a kind-determining
/// tag may still follow and place the unit elsewhere.
pub open spec fn query_kind(kind: KindModel) -> KindModel {
    if kind is Plain {
        KindModel::ScheduledSystem {
            phase: PhaseModel::Update,
            ordering: OrderingModel::Unspecified,
        }
    } else {
        kind
    }
}

/// `query<N>(elements)`: splits the elements into what the query selects
/// and what it filters by, and appends the query as a parameter named like
/// the tag. Only filters: nothing is appended. An empty element is
/// malformed.
pub open spec fn apply_query(draft: DraftModel, tag: TagModel) -> Result<DraftModel, ErrorKind> {
    let groups = split_groups(tag.tokens);
    let inclusion = select_groups(groups, false);
    if !all_groups_filled(groups) {
        Err(ErrorKind::MalformedTag)
    } else if inclusion.len() == 0 {
        Ok(DraftModel { kind: query_kind(draft.kind), ..draft })
    } else {
        Ok(
            DraftModel {
                kind: query_kind(draft.kind),
                params: draft.params.push(
                    ParamModel::Query(
                        QueryModel {
                            name: tag.name,
                            inclusion,
                            filter: select_groups(groups, true),
                            mutable: any_mutable(inclusion),
                        },
                    ),
                ),
                ..draft
            },
        )
    }
}

/// `on(query)` and `on(query, mut)`: wraps the body to run once per match
/// of the named query, with mutable access if `mut` is given.
pub open spec fn apply_on(draft: DraftModel, tag: TagModel) -> Result<DraftModel, ErrorKind> {
    if tag.tokens.len() == 1 {
        Ok(
            DraftModel {
                layers: draft.layers.push(
                    LayerModel::ForEachMatch { query: tag.tokens[0], mutable: false },
                ),
                ..draft
            },
        )
    } else if tag.tokens.len() == 3 && tag.tokens[1] == ","@ && tag.tokens[2] == "mut"@ {
        Ok(
            DraftModel {
                layers: draft.layers.push(
                    LayerModel::ForEachMatch { query: tag.tokens[0], mutable: true },
                ),
                ..draft
            },
        )
    } else {
        Err(ErrorKind::MalformedTag)
    }
}

/// Whether a canonical tag name belongs to the grammar of behaviour units.
pub open spec fn is_known_tag(name: Text) -> bool {
    name == "build"@ || name == "resource_factory"@ || name == "resource_system"@ || name
        == "system"@ || is_ordering_tag(name) || name == "trigger"@ || name == "event"@ || name
        == "on"@ || is_query_name(name)
}

/// What one canonical tag does to a draft. A name outside the grammar is
/// an unknown tag.
pub open spec fn apply_canonical(draft: DraftModel, tag: TagModel) -> Result<
    DraftModel,
    ErrorKind,
> {
    if tag.name == "build"@ {
        claim_kind(draft, tag, KindModel::LifecycleBuild)
    } else if tag.name == "resource_factory"@ {
        claim_kind(draft, tag, KindModel::ResourceFactory)
    } else if tag.name == "resource_system"@ {
        apply_resource_system(draft, tag)
    } else if tag.name == "system"@ {
        apply_system(draft, tag)
    } else if is_ordering_tag(tag.name) {
        apply_ordering(draft, tag)
    } else if tag.name == "trigger"@ {
        apply_trigger(draft, tag)
    } else if tag.name == "event"@ {
        apply_event(draft, tag)
    } else if tag.name == "on"@ {
        apply_on(draft, tag)
    } else if is_query_name(tag.name) {
        apply_query(draft, tag)
    } else {
        Err(ErrorKind::UnknownTag)
    }
}

/// Applies canonical tags in order, stopping at the first failure.
pub open spec fn apply_each(draft: DraftModel, tags: Seq<TagModel>) -> Result<
    DraftModel,
    ErrorKind,
>
    decreases tags.len(),
{
    if tags.len() == 0 {
        Ok(draft)
    } else {
        match apply_canonical(draft, tags[0]) {
            Err(kind) => Err(kind),
            Ok(next) => apply_each(next, tags.drop_first()),
        }
    }
}

/// What one written tag does to a draft: it is normalised, a `query` tag
/// is counted, and the canonical tags it stands for are applied in order.
pub open spec fn apply_tag(draft: DraftModel, tag: TagModel) -> Result<DraftModel, ErrorKind> {
    let counted = if tag.name == "query"@ {
        DraftModel { queries: draft.queries + 1, ..draft }
    } else {
        draft
    };
    apply_each(counted, normalize(tag, draft.queries))
}

fn set_kind(draft: Draft, tag: &Tag, kind: FunctionKind) -> (out: Result<Draft, ErrorKind>)
    ensures
        outcome(out) == claim_kind(draft@, tag@, kind@),
{
    if draft.claimed {
        return Err(ErrorKind::DuplicateClassification);
    }
    if tag.tokens.len() != 0 {
        return Err(ErrorKind::MalformedTag);
    }
    Ok(
        Draft {
            kind,
            claimed: true,
            params: draft.params,
            yields: draft.yields,
            layers: draft.layers,
            queries: draft.queries,
        },
    )
}

/// Applies `resource_system` to a draft.
pub fn make_resource_system(draft: Draft, tag: &Tag) -> (out: Result<Draft, ErrorKind>)
    ensures
        outcome(out) == apply_resource_system(draft@, tag@),
{
    if draft.claimed {
        return Err(ErrorKind::DuplicateClassification);
    }
    if tag.tokens.len() != 0 {
        return Err(ErrorKind::MalformedTag);
    }
    let found = find_handle(&draft.params);
    let Draft { kind: _, claimed: _, params, yields: _, layers, queries } = draft;
    let mut params = params;
    let mut layers = layers;
    let ghost old_params = params.deep_view();
    let ghost old_layers = layers.deep_view();
    match found {
        HandleUse::Conflicting => {
            return Err(ErrorKind::MalformedTag);
        },
        HandleUse::Present => {},
        HandleUse::Absent => {
            params.push(Param::Handle);
            assert(params.deep_view() =~= old_params.push(ParamModel::Handle));
        },
    }
    layers.push(BodyLayer::StoreResult { handle: String::from_str("commands") });
    assert(layers.deep_view() =~= old_layers.push(
        LayerModel::StoreResult { handle: "commands"@ },
    ));
    Ok(
        Draft {
            kind: FunctionKind::ScheduledSystem {
                phase: PhaseExpr::Startup,
                ordering: OrderingSpec::Unspecified,
            },
            claimed: true,
            params,
            yields: false,
            layers,
            queries,
        },
    )
}

/// The system kind that the tokens of a `system` tag describe, with no
/// ordering asked; `None` where they name no phase.
pub fn build_system_enum_variant(tokens: &Vec<String>) -> (kind: Option<FunctionKind>)
    ensures
        match kind {
            Some(k) => parse_phase(tokens.deep_view()) matches Some(phase) && k@ == (
            KindModel::ScheduledSystem { phase, ordering: OrderingModel::Unspecified }),
            None => parse_phase(tokens.deep_view()) is None,
        },
{
    match read_phase(tokens) {
        Some(phase) => Some(
            FunctionKind::ScheduledSystem { phase, ordering: OrderingSpec::Unspecified },
        ),
        None => None,
    }
}

/// Applies `system(phase, ..)` to a draft.
pub fn make_system(draft: Draft, tag: &Tag) -> (out: Result<Draft, ErrorKind>)
    ensures
        outcome(out) == apply_system(draft@, tag@),
{
    if draft.claimed {
        return Err(ErrorKind::DuplicateClassification);
    }
    let Draft { kind: _, claimed: _, params, yields, layers, queries } = draft;
    let mut params = params;
    let ghost old_params = params.deep_view();
    match build_system_enum_variant(&tag.tokens) {
        None => Err(ErrorKind::MalformedTag),
        Some(kind) => {
            match &kind {
                FunctionKind::ScheduledSystem { phase, ordering: _ } => match phase {
                    PhaseExpr::OnEnter(state) => {
                        assert(state.deep_view() == tag.tokens.deep_view().skip(2));
                        assert(state.deep_view()[0] == state[0]@);
                        params.push(Param::StateRead { state: state[0].clone() });
                        assert(params.deep_view() =~= phase_params(old_params, phase@));
                    },
                    PhaseExpr::OnExit(state) => {
                        assert(state.deep_view() == tag.tokens.deep_view().skip(2));
                        assert(state.deep_view()[0] == state[0]@);
                        params.push(Param::StateRead { state: state[0].clone() });
                        assert(params.deep_view() =~= phase_params(old_params, phase@));
                    },
                    _ => {},
                },
                _ => {},
            }
            Ok(Draft { kind, claimed: true, params, yields, layers, queries })
        },
    }
}

fn read_ordering(tag: &Tag) -> (ordering: Option<OrderingSpec>)
    ensures
        match ordering {
            Some(o) => parse_ordering(tag@) == Some(o@),
            None => parse_ordering(tag@) is None,
        },
{
    let name = tag.name.as_str();
    if text_eq(name, "priority") {
        match read_rank(&tag.tokens) {
            Some(rank) => Some(OrderingSpec::Priority(rank)),
            None => None,
        }
    } else if tag.tokens.len() != 1 {
        None
    } else {
        assert(tag.tokens.deep_view()[0] == tag.tokens[0]@);
        let target = tag.tokens[0].clone();
        if text_eq(name, "before") {
            Some(OrderingSpec::Before(target))
        } else if text_eq(name, "after") {
            Some(OrderingSpec::After(target))
        } else if text_eq(name, "pipe") {
            Some(OrderingSpec::Pipe(target))
        } else {
            None
        }
    }
}

/// Applies an ordering tag to a draft.
pub fn set_ordering(draft: Draft, tag: &Tag) -> (out: Result<Draft, ErrorKind>)
    ensures
        outcome(out) == apply_ordering(draft@, tag@),
{
    let Draft { kind, claimed, params, yields, layers, queries } = draft;
    match kind {
        FunctionKind::ScheduledSystem { phase, ordering: _ } => match read_ordering(tag) {
            None => Err(ErrorKind::MalformedTag),
            Some(ordering) => Ok(
                Draft {
                    kind: FunctionKind::ScheduledSystem { phase, ordering },
                    claimed,
                    params,
                    yields,
                    layers,
                    queries,
                },
            ),
        },
        _ => Err(ErrorKind::OrderingOnNonSystem),
    }
}

/// Applies `trigger(kind, component)` to a draft.
pub fn make_observer(draft: Draft, tag: &Tag) -> (out: Result<Draft, ErrorKind>)
    ensures
        outcome(out) == apply_trigger(draft@, tag@),
{
    if draft.claimed {
        return Err(ErrorKind::DuplicateClassification);
    }
    let groups = split_at_commas(&tag.tokens);
    if groups.len() != 2 {
        return Err(ErrorKind::MalformedTag);
    }
    assert(groups.deep_view()[0] == groups[0].deep_view());
    assert(groups.deep_view()[1] == groups[1].deep_view());
    if groups[0].len() == 0 || groups[1].len() == 0 {
        return Err(ErrorKind::MalformedTag);
    }
    let Draft { kind: _, claimed: _, params, yields, layers, queries } = draft;
    let mut all: Vec<Param> = Vec::new();
    all.push(
        Param::Trigger {
            event_kind: copy_texts(&groups[0]),
            component_type: copy_texts(&groups[1]),
        },
    );
    let mut params = params;
    let ghost old_params = params.deep_view();
    let ghost first = all.deep_view();
    all.append(&mut params);
    assert(all.deep_view() =~= first + old_params);
    assert(first =~= seq![
        ParamModel::Trigger {
            event_kind: groups[0].deep_view(),
            component_type: groups[1].deep_view(),
        },
    ]);
    Ok(
        Draft {
            kind: FunctionKind::Observer {
                event_kind: copy_texts(&groups[0]),
                component_type: copy_texts(&groups[1]),
            },
            claimed: true,
            params: all,
            yields,
            layers,
            queries,
        },
    )
}

/// Appends to a draft an event reader named `reader` over the events of
/// type `event`, and wraps the body to run once per unread event.
pub fn inject_event_reader(draft: Draft, event: &str, reader: String) -> (out: Draft)
    ensures
        out@ == with_event_reader(draft@, event@, reader@),
{
    let Draft { kind, claimed, params, yields, layers, queries } = draft;
    let mut params = params;
    let mut layers = layers;
    let ghost old_params = params.deep_view();
    let ghost old_layers = layers.deep_view();
    params.push(Param::EventReader { name: reader.clone(), event: String::from_str(event) });
    layers.push(BodyLayer::ForEachEvent { reader });
    assert(params.deep_view() =~= old_params.push(
        ParamModel::EventReader { name: reader@, event: event@ },
    ));
    assert(layers.deep_view() =~= old_layers.push(LayerModel::ForEachEvent { reader: reader@ }));
    Draft { kind, claimed, params, yields, layers, queries }
}

/// Applies `event(E)` to a draft.
pub fn bind_event(draft: Draft, tag: &Tag) -> (out: Result<Draft, ErrorKind>)
    ensures
        outcome(out) == apply_event(draft@, tag@),
{
    if tag.tokens.len() != 1 {
        return Err(ErrorKind::MalformedTag);
    }
    assert(tag.tokens.deep_view()[0] == tag.tokens[0]@);
    let event = tag.tokens[0].as_str();
    let reader = to_snake_case(event);
    Ok(inject_event_reader(draft, event, reader))
}

/// Applies `query<N>(elements)` to a draft.
pub fn bind_query(draft: Draft, tag: &Tag) -> (out: Result<Draft, ErrorKind>)
    ensures
        outcome(out) == apply_query(draft@, tag@),
{
    let groups = split_at_commas(&tag.tokens);
    if !groups_filled(&groups) {
        return Err(ErrorKind::MalformedTag);
    }
    let Draft { kind, claimed, params, yields, layers, queries } = draft;
    let kind = match kind {
        FunctionKind::Plain => FunctionKind::ScheduledSystem {
            phase: PhaseExpr::Update,
            ordering: OrderingSpec::Unspecified,
        },
        other => other,
    };
    let inclusion = pick_groups(&groups, false);
    if inclusion.len() == 0 {
        return Ok(Draft { kind, claimed, params, yields, layers, queries });
    }
    let filter = pick_groups(&groups, true);
    let mutable = some_mutable(&inclusion);
    let mut params = params;
    let ghost old_params = params.deep_view();
    let query = QueryBinding { name: tag.name.clone(), inclusion, filter, mutable };
    let ghost model = query@;
    params.push(Param::Query(query));
    assert(params.deep_view() =~= old_params.push(ParamModel::Query(model)));
    Ok(Draft { kind, claimed, params, yields, layers, queries })
}

/// Applies `on(query)` or `on(query, mut)` to a draft.
pub fn wrap_matches(draft: Draft, tag: &Tag) -> (out: Result<Draft, ErrorKind>)
    ensures
        outcome(out) == apply_on(draft@, tag@),
{
    let n = tag.tokens.len();
    let mutable = if n == 1 {
        false
    } else if n == 3 {
        assert(tag.tokens.deep_view()[1] == tag.tokens[1]@);
        assert(tag.tokens.deep_view()[2] == tag.tokens[2]@);
        if text_eq(tag.tokens[1].as_str(), ",") && text_eq(tag.tokens[2].as_str(), "mut") {
            true
        } else {
            return Err(ErrorKind::MalformedTag);
        }
    } else {
        return Err(ErrorKind::MalformedTag);
    };
    assert(tag.tokens.deep_view()[0] == tag.tokens[0]@);
    let Draft { kind, claimed, params, yields, layers, queries } = draft;
    let mut layers = layers;
    let ghost old_layers = layers.deep_view();
    layers.push(BodyLayer::ForEachMatch { query: tag.tokens[0].clone(), mutable });
    assert(layers.deep_view() =~= old_layers.push(
        LayerModel::ForEachMatch { query: tag.tokens[0]@, mutable },
    ));
    Ok(Draft { kind, claimed, params, yields, layers, queries })
}

/// Applies one canonical tag to a draft.
pub fn apply_canonical_tag(draft: Draft, tag: &Tag) -> (out: Result<Draft, ErrorKind>)
    ensures
        outcome(out) == apply_canonical(draft@, tag@),
        out matches Ok(next) ==> next.queries == draft.queries,
{
    let name = tag.name.as_str();
    if text_eq(name, "build") {
        set_kind(draft, tag, FunctionKind::LifecycleBuild)
    } else if text_eq(name, "resource_factory") {
        set_kind(draft, tag, FunctionKind::ResourceFactory)
    } else if text_eq(name, "resource_system") {
        make_resource_system(draft, tag)
    } else if text_eq(name, "system") {
        make_system(draft, tag)
    } else if text_eq(name, "priority") || text_eq(name, "before") || text_eq(name, "after")
        || text_eq(name, "pipe") {
        set_ordering(draft, tag)
    } else if text_eq(name, "trigger") {
        make_observer(draft, tag)
    } else if text_eq(name, "event") {
        bind_event(draft, tag)
    } else if text_eq(name, "on") {
        wrap_matches(draft, tag)
    } else if query_name(name) {
        bind_query(draft, tag)
    } else {
        Err(ErrorKind::UnknownTag)
    }
}

/// Applies one written tag to a draft: normalises it, counts a `query`
/// tag, and applies the canonical tags it stands for.
pub fn apply_written_tag(draft: Draft, tag: &Tag) -> (out: Result<Draft, ErrorKind>)
    requires
        draft.queries < usize::MAX,
    ensures
        outcome(out) == apply_tag(draft@, tag@),
        out matches Ok(next) ==> next.queries <= draft.queries + 1,
{
    let canonical = normalize_tag(tag, draft.queries);
    let ghost start = draft@;
    let Draft { kind, claimed, params, yields, layers, queries } = draft;
    let queries = if text_eq(tag.name.as_str(), "query") {
        queries + 1
    } else {
        queries
    };
    let mut current = Draft { kind, claimed, params, yields, layers, queries };
    let ghost counted = current@;
    let mut i: usize = 0;
    assert(canonical.deep_view().skip(0) =~= canonical.deep_view());
    assert(apply_tag(start, tag@) == apply_each(counted, canonical.deep_view()));
    while i < canonical.len()
        invariant
            i <= canonical.len(),
            current.queries == queries,
            start == draft@,
            apply_tag(start, tag@) == apply_each(current@, canonical.deep_view().skip(i as int)),
        decreases canonical.len() - i,
    {
        proof {
            assert(canonical.deep_view().skip(i as int)[0] == canonical[i as int]@);
            assert(canonical.deep_view().skip(i as int).drop_first()
                =~= canonical.deep_view().skip(i + 1));
        }
        match apply_canonical_tag(current, &canonical[i]) {
            Err(kind) => {
                return Err(kind);
            },
            Ok(next) => {
                current = next;
            },
        }
        i += 1;
    }
    Ok(current)
}

} // verus!
