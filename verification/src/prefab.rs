//! The prefab compiler: reads the scope of a bundle-shaped type, and
//! derives for every variant of a state the system that removes the
//! entities whose scope has ended.

use crate::error::{CompileError, CompileErrorModel, ErrorKind};
use crate::text::{copy_texts, snake_case, text_eq, to_snake_case, Text};
use crate::token::{flatten, tokens_to_strings, Token};
use crate::unit::{
    copy_tags, BehaviorUnit, BodyModel, LayerModel, Param, ParamModel, Tag, TagModel, UnitBody,
    UnitModel,
};
use vstd::prelude::*;
use vstd::string::*;

verus! {

/// The lifetime that a prefab binds its entities to.
#[derive(Debug, PartialEq, Eq)]
pub enum Scope {
    /// Bound to nothing: the entity lives until it is removed by hand.
    Global,
    /// Bound to one value of the named state type.
    Local(String),
}

/// The mathematical value of a [`Scope`].
pub enum ScopeModel {
    Global,
    Local(Text),
}

impl View for Scope {
    type V = ScopeModel;

    open spec fn view(&self) -> ScopeModel {
        match self {
            Scope::Global => ScopeModel::Global,
            Scope::Local(state) => ScopeModel::Local(state@),
        }
    }
}

impl DeepView for Scope {
    type V = ScopeModel;

    open spec fn deep_view(&self) -> ScopeModel {
        self@
    }
}

impl Scope {
    /// A copy of this scope.
    pub fn duplicate(&self) -> (copy: Scope)
        ensures
            copy@ == self@,
    {
        match self {
            Scope::Global => Scope::Global,
            Scope::Local(state) => Scope::Local(state.clone()),
        }
    }
}

/// A data type of the module, with the tags written on it. Compiling it
/// may give it a scope, mark it as a bundle, or mark it as a state.
#[derive(Debug, PartialEq, Eq)]
pub struct DataType {
    pub name: String,
    pub tags: Vec<Tag>,
    /// The names of its variants, for an enumeration.
    pub variants: Vec<String>,
    /// Whether it is a structure with named fields.
    pub named_fields: bool,
    /// The scope field appended to it, if any.
    pub scope: Option<Scope>,
    /// Whether it is emitted as a bundle with a default value.
    pub bundle: bool,
    /// Whether it is emitted as a state type.
    pub state: bool,
}

/// The mathematical value of a [`DataType`].
pub struct DataTypeModel {
    pub name: Text,
    pub tags: Seq<TagModel>,
    pub variants: Seq<Text>,
    pub named_fields: bool,
    pub scope: Option<ScopeModel>,
    pub bundle: bool,
    pub state: bool,
}

impl View for DataType {
    type V = DataTypeModel;

    open spec fn view(&self) -> DataTypeModel {
        DataTypeModel {
            name: self.name@,
            tags: self.tags.deep_view(),
            variants: self.variants.deep_view(),
            named_fields: self.named_fields,
            scope: self.scope.deep_view(),
            bundle: self.bundle,
            state: self.state,
        }
    }
}

impl DeepView for DataType {
    type V = DataTypeModel;

    open spec fn deep_view(&self) -> DataTypeModel {
        self@
    }
}

impl DataType {
    /// A copy of this type.
    pub fn duplicate(&self) -> (copy: DataType)
        ensures
            copy@ == self@,
    {
        DataType {
            name: self.name.clone(),
            tags: copy_tags(&self.tags),
            variants: copy_texts(&self.variants),
            named_fields: self.named_fields,
            scope: match &self.scope {
                Some(scope) => Some(scope.duplicate()),
                None => None,
            },
            bundle: self.bundle,
            state: self.state,
        }
    }
}

/// The first index from `from` on at which `word` stands.
pub open spec fn find_word(tokens: Seq<Text>, word: Text, from: int) -> Option<int>
    decreases tokens.len() - from,
{
    if from < 0 || from >= tokens.len() {
        None
    } else if tokens[from] == word {
        Some(from)
    } else {
        find_word(tokens, word, from + 1)
    }
}

/// The scope that the tokens of a `prefab` tag ask for: none without the
/// word `scope`; `global` or `local` and a state type after it; any other
/// word after `scope` is an unknown scope kind, and a missing word or a
/// missing state type is malformed.
pub open spec fn parse_scope(tokens: Seq<Text>) -> Result<Option<ScopeModel>, ErrorKind> {
    match find_word(tokens, "scope"@, 0) {
        None => Ok(None),
        Some(at) => if at + 1 >= tokens.len() {
            Err(ErrorKind::MalformedTag)
        } else if tokens[at + 1] == "global"@ {
            Ok(Some(ScopeModel::Global))
        } else if tokens[at + 1] == "local"@ {
            if at + 2 >= tokens.len() {
                Err(ErrorKind::MalformedTag)
            } else {
                Ok(Some(ScopeModel::Local(tokens[at + 2])))
            }
        } else {
            Err(ErrorKind::UnknownScopeKind)
        },
    }
}

/// Reads the scope from the tokens of a `prefab` tag.
pub fn read_scope(tokens: &Vec<String>) -> (out: Result<Option<Scope>, ErrorKind>)
    ensures
        match out {
            Ok(scope) => parse_scope(tokens.deep_view()) == Ok::<Option<ScopeModel>, ErrorKind>(
                scope.deep_view(),
            ),
            Err(kind) => parse_scope(tokens.deep_view()) == Err::<Option<ScopeModel>, ErrorKind>(
                kind,
            ),
        },
{
    let n = tokens.len();
    let mut at: usize = 0;
    while at < n
        invariant
            at <= n,
            n == tokens.len(),
            find_word(tokens.deep_view(), "scope"@, 0) == find_word(
                tokens.deep_view(),
                "scope"@,
                at as int,
            ),
        decreases n - at,
    {
        assert(tokens.deep_view()[at as int] == tokens[at as int]@);
        if text_eq(tokens[at].as_str(), "scope") {
            if n - at < 2 {
                return Err(ErrorKind::MalformedTag);
            }
            assert(tokens.deep_view()[at + 1] == tokens[at + 1]@);
            let kind = tokens[at + 1].as_str();
            if text_eq(kind, "global") {
                return Ok(Some(Scope::Global));
            }
            if text_eq(kind, "local") {
                if n - at < 3 {
                    return Err(ErrorKind::MalformedTag);
                }
                assert(tokens.deep_view()[at + 2] == tokens[at + 2]@);
                return Ok(Some(Scope::Local(tokens[at + 2].clone())));
            }
            return Err(ErrorKind::UnknownScopeKind);
        }
        at += 1;
    }
    Ok(None)
}

/// What `prefab` makes of a type: a bundle and, if the type has named
/// fields and the tag asks for a scope, a type with that scope field.
pub open spec fn prefab_type(tokens: Seq<Text>, input: DataTypeModel) -> Result<
    DataTypeModel,
    CompileErrorModel,
> {
    if !input.named_fields {
        Ok(DataTypeModel { bundle: true, ..input })
    } else {
        match parse_scope(tokens) {
            Err(kind) => Err(
                CompileErrorModel { kind, declaration: input.name, tag: "prefab"@ },
            ),
            Ok(None) => Ok(DataTypeModel { bundle: true, ..input }),
            Ok(Some(scope)) => Ok(DataTypeModel { bundle: true, scope: Some(scope), ..input }),
        }
    }
}

/// Applies the token strings of a `prefab` tag to a type.
pub fn apply_prefab(tokens: &Vec<String>, input: DataType) -> (out: Result<
    DataType,
    CompileError,
>)
    ensures
        match out {
            Ok(output) => prefab_type(tokens.deep_view(), input@) == Ok::<
                DataTypeModel,
                CompileErrorModel,
            >(output@),
            Err(error) => prefab_type(tokens.deep_view(), input@) == Err::<
                DataTypeModel,
                CompileErrorModel,
            >(error@),
        },
{
    let DataType { name, tags, variants, named_fields, scope, bundle: _, state } = input;
    if !named_fields {
        return Ok(DataType { name, tags, variants, named_fields, scope, bundle: true, state });
    }
    match read_scope(tokens) {
        Err(kind) => Err(CompileError::new(kind, name.as_str(), "prefab")),
        Ok(None) => Ok(DataType { name, tags, variants, named_fields, scope, bundle: true, state }),
        Ok(Some(found)) => Ok(
            DataType {
                name,
                tags,
                variants,
                named_fields,
                scope: Some(found),
                bundle: true,
                state,
            },
        ),
    }
}

/// Compiles a bundle-shaped type tagged `prefab(..)`: flattens the tag's
/// tokens, marks the type as a bundle, and appends the scope field that
/// the tag asks for.
pub fn prefab(attr: &Vec<Token>, input: DataType) -> (out: Result<DataType, CompileError>)
    ensures
        match out {
            Ok(output) => prefab_type(flatten(attr.deep_view()), input@) == Ok::<
                DataTypeModel,
                CompileErrorModel,
            >(output@),
            Err(error) => prefab_type(flatten(attr.deep_view()), input@) == Err::<
                DataTypeModel,
                CompileErrorModel,
            >(error@),
        },
{
    let tokens = tokens_to_strings(attr);
    apply_prefab(&tokens, input)
}

/// The text of the query type through which a cleanup system sees the
/// entities scoped to `state`.
pub open spec fn scoped_query_type(state: Text) -> Text {
    "Query<(Entity, &ScopeLocal<"@ + state + ">)>"@
}

/// The cleanup system of one variant of a state, under the given name: it
/// is tagged to run on entering that variant, takes the mutation handle
/// and the query over the entities scoped to the state, and its body
/// despawns the entities whose scope holds another variant.
pub open spec fn cleanup_model(state: Text, variant: Text, name: Text) -> UnitModel {
    UnitModel {
        name,
        tags: seq![TagModel { name: "enter"@, tokens: seq![state, ":"@, ":"@, variant] }],
        params: seq![
            ParamModel::Declared { name: "commands"@, ty: "Commands"@ },
            ParamModel::Declared { name: "query"@, ty: scoped_query_type(state) },
        ],
        yields: false,
        layers: Seq::<LayerModel>::empty(),
        body: BodyModel::ScopeCleanup { state, variant },
    }
}

/// Builds the cleanup system of one variant of a state under the given
/// name.
pub fn cleanup_unit(state: &str, variant: &str, name: String) -> (unit: BehaviorUnit)
    ensures
        unit@ == cleanup_model(state@, variant@, name@),
{
    let mut tokens: Vec<String> = Vec::new();
    tokens.push(String::from_str(state));
    tokens.push(String::from_str(":"));
    tokens.push(String::from_str(":"));
    tokens.push(String::from_str(variant));
    assert(tokens.deep_view() =~= seq![state@, ":"@, ":"@, variant@]);
    let mut tags: Vec<Tag> = Vec::new();
    tags.push(Tag { name: String::from_str("enter"), tokens });
    assert(tags.deep_view() =~= seq![
        TagModel { name: "enter"@, tokens: seq![state@, ":"@, ":"@, variant@] },
    ]);
    let mut ty = String::from_str("Query<(Entity, &ScopeLocal<");
    ty.append(state);
    ty.append(">)>");
    let mut params: Vec<Param> = Vec::new();
    params.push(
        Param::Declared { name: String::from_str("commands"), ty: String::from_str("Commands") },
    );
    params.push(Param::Declared { name: String::from_str("query"), ty });
    assert(params.deep_view() =~= seq![
        ParamModel::Declared { name: "commands"@, ty: "Commands"@ },
        ParamModel::Declared { name: "query"@, ty: scoped_query_type(state@) },
    ]);
    let layers = Vec::new();
    assert(layers.deep_view() =~= Seq::<LayerModel>::empty());
    BehaviorUnit {
        name,
        tags,
        params,
        yields: false,
        layers,
        body: UnitBody::ScopeCleanup {
            state: String::from_str(state),
            variant: String::from_str(variant),
        },
    }
}

/// The name of the cleanup system of a variant: the snake-case spelling of
/// `_remove_` followed by the variant's name.
pub open spec fn cleanup_name(variant: Text) -> Text {
    snake_case("_remove_"@ + variant)
}

/// Derives the cleanup system of one variant of a state.
pub fn derive_cleanup(state: &str, variant: &str) -> (unit: BehaviorUnit)
    ensures
        unit@ == cleanup_model(state@, variant@, cleanup_name(variant@)),
{
    let mut source = String::from_str("_remove_");
    source.append(variant);
    let name = to_snake_case(source.as_str());
    cleanup_unit(state, variant, name)
}

/// The marker of an entity whose prefab is scoped to nothing.
#[derive(Debug, Default)]
pub struct ScopeGlobal;

/// The marker of an entity whose prefab is scoped to one value of a state:
/// it holds that value.
#[derive(Debug, Default)]
pub struct ScopeLocal<S>(pub S);

/// Whether the cleanup system that runs on entering `entered` despawns an
/// entity with this local scope: it does unless the scope holds that very
/// value.
pub open spec fn despawned_on_enter<S>(scope: ScopeLocal<S>, entered: S) -> bool {
    scope.0 != entered
}

/// Of the cleanup systems of two different values, exactly one despawns an
/// entity scoped to one of the two: never both, never neither.
pub proof fn lemma_exactly_one_cleanup_despawns<S>(scope: ScopeLocal<S>, first: S, second: S)
    requires
        first != second,
        scope.0 == first || scope.0 == second,
    ensures
        despawned_on_enter(scope, first) != despawned_on_enter(scope, second),
        despawned_on_enter(scope, first) <==> scope.0 == second,
{
}

/// An entity survives exactly the cleanup of the value it is scoped to.
pub proof fn lemma_scope_survives_only_its_own_value<S>(scope: ScopeLocal<S>, entered: S)
    ensures
        !despawned_on_enter(scope, entered) <==> scope.0 == entered,
{
}

/// Whether the cleanup system of `entered` despawns an entity whose local
/// scope holds the named variant.
pub fn despawns(scope: &ScopeLocal<String>, entered: &str) -> (gone: bool)
    ensures
        gone == (scope.0@ != entered@),
{
    !text_eq(scope.0.as_str(), entered)
}

/// The positions of the entities that the cleanup system of `entered`
/// leaves alive, in order.
pub open spec fn survivors(scopes: Seq<Text>, entered: Text) -> Seq<int>
    decreases scopes.len(),
{
    if scopes.len() == 0 {
        Seq::<int>::empty()
    } else if scopes.last() == entered {
        survivors(scopes.drop_last(), entered).push(scopes.len() - 1)
    } else {
        survivors(scopes.drop_last(), entered)
    }
}

/// The cleanup system of `entered` leaves alive exactly the entities whose
/// scope holds `entered`: a position survives if and only if the scope at
/// that position does.
pub proof fn lemma_survivors_hold_the_entered_value(scopes: Seq<Text>, entered: Text, at: int)
    requires
        0 <= at < scopes.len(),
    ensures
        survivors(scopes, entered).contains(at) <==> scopes[at] == entered,
        forall|k: int|
            0 <= k < survivors(scopes, entered).len() ==> 0 <= #[trigger] survivors(
                scopes,
                entered,
            )[k] < scopes.len(),
    decreases scopes.len(),
{
    let rest = scopes.drop_last();
    let before = survivors(rest, entered);
    let last = scopes.len() - 1;
    if at < last {
        lemma_survivors_hold_the_entered_value(rest, entered, at);
        assert(rest[at] == scopes[at]);
        if scopes.last() == entered {
            if before.contains(at) {
                let k = choose|k: int| 0 <= k < before.len() && before[k] == at;
                assert(before.push(last)[k] == at);
            }
            if before.push(last).contains(at) {
                let k = choose|k: int| 0 <= k < before.push(last).len() && before.push(last)[k] == at;
                assert(before[k] == at);
            }
        }
    } else {
        if rest.len() > 0 {
            lemma_survivors_hold_the_entered_value(rest, entered, 0);
        }
        if scopes.last() == entered {
            assert(before.push(last)[before.len() as int] == last);
        } else {
            assert forall|k: int| 0 <= k < before.len() implies before[k] != at by {
                assert(before[k] < rest.len());
            }
        }
    }
}

/// The positions of the entities that are alive after the body of a unit
/// ran over the entities scoped to one state type: a cleanup body leaves
/// alive the survivors of its variant, and any other body leaves alive
/// every entity.
pub open spec fn body_survivors(body: BodyModel, scopes: Seq<Text>) -> Seq<int> {
    match body {
        BodyModel::ScopeCleanup { variant, .. } => survivors(scopes, variant),
        _ => Seq::new(scopes.len(), |i: int| i),
    }
}

/// The body of the cleanup system derived for a variant is the cleanup of
/// that variant: it despawns an entity exactly if the entity's scope
/// holds another variant.
pub proof fn lemma_cleanup_body_is_the_cleanup_of_its_variant(
    state: Text,
    variant: Text,
    name: Text,
    scopes: Seq<Text>,
    at: int,
)
    requires
        0 <= at < scopes.len(),
    ensures
        body_survivors(cleanup_model(state, variant, name).body, scopes) == survivors(
            scopes,
            variant,
        ),
        body_survivors(cleanup_model(state, variant, name).body, scopes).contains(at)
            <==> scopes[at] == variant,
{
    lemma_survivors_hold_the_entered_value(scopes, variant, at);
}

/// The values that a run of local scopes holds, in order.
pub open spec fn scope_values(scopes: Seq<ScopeLocal<String>>) -> Seq<Text> {
    Seq::new(scopes.len(), |i: int| scopes[i].0@)
}

/// A run of positions as mathematical integers.
pub open spec fn positions(found: Seq<usize>) -> Seq<int> {
    Seq::new(found.len(), |i: int| found[i] as int)
}

/// Runs the cleanup system of `entered` over the entities scoped to one
/// state type: gives the positions of those that stay alive, which are
/// the ones whose scope holds `entered`.
pub fn run_cleanup(scopes: &Vec<ScopeLocal<String>>, entered: &str) -> (alive: Vec<usize>)
    ensures
        positions(alive@) == survivors(scope_values(scopes@), entered@),
{
    let ghost all = scope_values(scopes@);
    let mut alive: Vec<usize> = Vec::new();
    let mut i: usize = 0;
    assert(all.take(0) =~= Seq::<Text>::empty());
    assert(positions(alive@) =~= Seq::<int>::empty());
    while i < scopes.len()
        invariant
            i <= scopes.len(),
            all == scope_values(scopes@),
            positions(alive@) == survivors(all.take(i as int), entered@),
        decreases scopes.len() - i,
    {
        let ghost before = positions(alive@);
        proof {
            assert(all.take(i + 1).drop_last() =~= all.take(i as int));
            assert(all.take(i + 1).last() == scopes[i as int].0@);
        }
        if !despawns(&scopes[i], entered) {
            alive.push(i);
            assert(positions(alive@) =~= before.push(i as int));
        }
        i += 1;
    }
    assert(all.take(i as int) =~= all);
    alive
}

/// Runs the body of a unit over the entities scoped to one state type:
/// gives the positions of those that are alive afterwards.
pub fn run_body(body: &UnitBody, scopes: &Vec<ScopeLocal<String>>) -> (alive: Vec<usize>)
    ensures
        positions(alive@) == body_survivors(body@, scope_values(scopes@)),
{
    match body {
        UnitBody::ScopeCleanup { state: _, variant } => run_cleanup(scopes, variant.as_str()),
        _ => {
            let mut alive: Vec<usize> = Vec::new();
            let mut i: usize = 0;
            while i < scopes.len()
                invariant
                    i <= scopes.len(),
                    alive.len() == i,
                    forall|k: int| 0 <= k < i ==> alive[k] == k,
                decreases scopes.len() - i,
            {
                alive.push(i);
                i += 1;
            }
            assert(positions(alive@) =~= Seq::new(scope_values(scopes@).len(), |i: int| i));
            alive
        },
    }
}

} // verus!
