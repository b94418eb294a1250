//! The declaration scanner and the plugin assembler: walks the items of a
//! module in source order, hands each to the stage that compiles it, and
//! puts the results together into the plugin.

use crate::error::{CompileError, CompileErrorModel, ErrorKind};
use crate::initialization::{init_calls, InitRequest, InitializationSystems, RequestModel};
use crate::prefab::{
    apply_prefab, cleanup_model, cleanup_name, derive_cleanup, parse_scope, prefab_type,
    read_scope, DataType, DataTypeModel, Scope, ScopeModel,
};
use crate::registration::{Registration, RegistrationModel};
use crate::systems::{
    build_hooks, empty_processor, register, system_calls, ProcessorModel, SystemProcessor,
};
use crate::text::{copy_texts, push_char, text_eq, to_upper_initial, upper_initial, Text};
use crate::token::{Token, TokenModel};
use crate::unit::{copy_tags, BehaviorUnit, Tag, TagModel, UnitModel};
use vstd::prelude::*;
use vstd::string::*;

verus! {

/// A type alias of the module, with the tags written on it.
#[derive(Debug, PartialEq, Eq)]
pub struct TypeAlias {
    pub name: String,
    pub tags: Vec<Tag>,
    /// The text of the aliased type.
    pub ty: String,
    pub public: bool,
}

/// The mathematical value of a [`TypeAlias`].
pub struct AliasModel {
    pub name: Text,
    pub tags: Seq<TagModel>,
    pub ty: Text,
    pub public: bool,
}

impl View for TypeAlias {
    type V = AliasModel;

    open spec fn view(&self) -> AliasModel {
        AliasModel {
            name: self.name@,
            tags: self.tags.deep_view(),
            ty: self.ty@,
            public: self.public,
        }
    }
}

impl TypeAlias {
    /// A copy of this alias.
    pub fn duplicate(&self) -> (copy: TypeAlias)
        ensures
            copy@ == self@,
    {
        TypeAlias {
            name: self.name.clone(),
            tags: copy_tags(&self.tags),
            ty: self.ty.clone(),
            public: self.public,
        }
    }
}

/// A configuration field of the plugin.
#[derive(Debug, PartialEq, Eq)]
pub struct Field {
    pub name: String,
    pub ty: String,
    pub public: bool,
}

/// The mathematical value of a [`Field`].
pub struct FieldModel {
    pub name: Text,
    pub ty: Text,
    pub public: bool,
}

impl View for Field {
    type V = FieldModel;

    open spec fn view(&self) -> FieldModel {
        FieldModel { name: self.name@, ty: self.ty@, public: self.public }
    }
}

impl DeepView for Field {
    type V = FieldModel;

    open spec fn deep_view(&self) -> FieldModel {
        self@
    }
}

/// One item of a module, by its shape.
#[derive(Debug, PartialEq, Eq)]
pub enum Declaration {
    /// A behaviour unit.
    Function(BehaviorUnit),
    /// A structure or an enumeration.
    Type(DataType),
    /// A type alias.
    Alias(TypeAlias),
    /// Any other item, known by its position among the items of the module:
    /// it is passed on as it is.
    Other(usize),
}

/// The mathematical value of a [`Declaration`].
pub enum DeclarationModel {
    Function(UnitModel),
    Type(DataTypeModel),
    Alias(AliasModel),
    Other(usize),
}

impl View for Declaration {
    type V = DeclarationModel;

    open spec fn view(&self) -> DeclarationModel {
        match self {
            Declaration::Function(unit) => DeclarationModel::Function(unit@),
            Declaration::Type(ty) => DeclarationModel::Type(ty@),
            Declaration::Alias(alias) => DeclarationModel::Alias(alias@),
            Declaration::Other(at) => DeclarationModel::Other(*at),
        }
    }
}

impl DeepView for Declaration {
    type V = DeclarationModel;

    open spec fn deep_view(&self) -> DeclarationModel {
        self@
    }
}

/// A module: its name and its items in source order.
#[derive(Debug, PartialEq, Eq)]
pub struct Module {
    pub name: String,
    pub items: Vec<Declaration>,
}

/// The mathematical value of a [`Module`].
pub struct ModuleModel {
    pub name: Text,
    pub items: Seq<DeclarationModel>,
}

impl View for Module {
    type V = ModuleModel;

    open spec fn view(&self) -> ModuleModel {
        ModuleModel { name: self.name@, items: self.items.deep_view() }
    }
}

/// The assembled plugin.
#[derive(Debug, PartialEq, Eq)]
pub struct Plugin {
    pub name: String,
    /// The configuration fields, from the tagged type aliases.
    pub fields: Vec<Field>,
    /// The lifecycle hooks that the construction procedure invokes first.
    pub builds: Vec<String>,
    /// The registration calls that the construction procedure issues after
    /// the hooks, in order.
    pub registrations: Vec<Registration>,
    /// The units exposed as methods of the plugin.
    pub methods: Vec<BehaviorUnit>,
    /// The units emitted as free functions beside the plugin.
    pub functions: Vec<BehaviorUnit>,
    /// The items passed on beside the plugin, in source order: the types
    /// without their consumed tags, the untagged aliases, and the rest.
    pub items: Vec<Declaration>,
}

/// The mathematical value of a [`Plugin`].
pub struct PluginModel {
    pub name: Text,
    pub fields: Seq<FieldModel>,
    pub builds: Seq<Text>,
    pub registrations: Seq<RegistrationModel>,
    pub methods: Seq<UnitModel>,
    pub functions: Seq<UnitModel>,
    pub items: Seq<DeclarationModel>,
}

impl View for Plugin {
    type V = PluginModel;

    open spec fn view(&self) -> PluginModel {
        PluginModel {
            name: self.name@,
            fields: self.fields.deep_view(),
            builds: self.builds.deep_view(),
            registrations: self.registrations.deep_view(),
            methods: self.methods.deep_view(),
            functions: self.functions.deep_view(),
            items: self.items.deep_view(),
        }
    }
}

/// What one character of a snake-case name adds to its camel-case
/// spelling, and whether the next character starts a word: an underscore
/// adds nothing and starts a word; the first character of a word adds
/// `upper`, its upper-case initial; any other character adds itself.
pub open spec fn camel_step(c: char, initial: bool, upper: char) -> (Text, bool) {
    if c == '_' {
        (Seq::<char>::empty(), true)
    } else if initial {
        (seq![upper], false)
    } else {
        (seq![c], false)
    }
}

/// The camel-case spelling of a snake-case name from position `from` on:
/// underscores are dropped, and the character after an underscore, like
/// the first one, is replaced by its upper-case initial.
pub open spec fn camel_from(name: Text, from: int, initial: bool) -> Text
    decreases name.len() - from,
{
    if from < 0 || from >= name.len() {
        Seq::<char>::empty()
    } else {
        let step = camel_step(name[from], initial, upper_initial(name[from]));
        step.0 + camel_from(name, from + 1, step.1)
    }
}

/// The name of the plugin of a module that gives none: the camel-case
/// spelling of the module's name.
pub open spec fn derived_name(module: Text) -> Text {
    camel_from(module, 0, true)
}

/// Appends to `name` what the character `c` adds to a camel-case
/// spelling, where `upper` is the upper-case initial of `c`; tells whether
/// the next character starts a word.
pub fn push_camel(name: &mut String, c: char, initial: bool, upper: char) -> (next: bool)
    ensures
        final(name)@ == old(name)@ + camel_step(c, initial, upper).0,
        next == camel_step(c, initial, upper).1,
{
    let ghost before = name@;
    if c == '_' {
        assert(before + Seq::<char>::empty() =~= before);
        true
    } else if initial {
        push_char(name, upper);
        assert(before.push(upper) =~= before + seq![upper]);
        false
    } else {
        push_char(name, c);
        assert(before.push(c) =~= before + seq![c]);
        false
    }
}

/// Derives the name of a plugin from the name of its module.
pub fn derive_name(module: &str) -> (name: String)
    ensures
        name@ == derived_name(module@),
{
    let n = module.unicode_len();
    let mut name = String::new();
    let mut initial = true;
    let mut i: usize = 0;
    assert(name@ + camel_from(module@, 0, true) =~= camel_from(module@, 0, true));
    while i < n
        invariant
            i <= n,
            n == module@.len(),
            derived_name(module@) == name@ + camel_from(module@, i as int, initial),
        decreases n - i,
    {
        let c = module.get_char(i);
        let ghost before = name@;
        let ghost step = camel_step(c, initial, upper_initial(c));
        initial = push_camel(&mut name, c, initial, to_upper_initial(c));
        assert(before + (step.0 + camel_from(module@, i + 1, step.1)) =~= (before + step.0)
            + camel_from(module@, i + 1, step.1));
        i += 1;
    }
    assert(name@ + Seq::<char>::empty() =~= name@);
    name
}

/// The name of the plugin: the module's derived name where the `plugin`
/// tag stands bare, the identifier it carries where it carries exactly
/// one; anything else is malformed.
pub open spec fn plugin_name(attr: Seq<TokenModel>, module: Text) -> Result<
    Text,
    CompileErrorModel,
> {
    if attr.len() == 0 {
        Ok(derived_name(module))
    } else if attr.len() == 1 && attr[0] is Ident {
        Ok(attr[0]->Ident_0)
    } else {
        Err(
            CompileErrorModel {
                kind: ErrorKind::MalformedTag,
                declaration: module,
                tag: "plugin"@,
            },
        )
    }
}

/// Reads the name of the plugin.
pub fn read_plugin_name(attr: &Vec<Token>, module: &str) -> (out: Result<String, CompileError>)
    ensures
        match out {
            Ok(name) => plugin_name(attr.deep_view(), module@) == Ok::<Text, CompileErrorModel>(
                name@,
            ),
            Err(error) => plugin_name(attr.deep_view(), module@) == Err::<
                Text,
                CompileErrorModel,
            >(error@),
        },
{
    if attr.len() == 0 {
        return Ok(derive_name(module));
    }
    if attr.len() == 1 {
        assert(attr.deep_view()[0] == attr[0]@);
        match &attr[0] {
            Token::Ident(name) => {
                return Ok(name.clone());
            },
            _ => {},
        }
    }
    Err(CompileError::new(ErrorKind::MalformedTag, module, "plugin"))
}

/// Whether an item is a prefab scoped to `state`: a type with named
/// fields that carries a `prefab` tag asking for the local scope of that
/// state type.
pub open spec fn scopes_to(item: DeclarationModel, state: Text) -> bool {
    item matches DeclarationModel::Type(ty) && ty.named_fields && exists|j: int|
        0 <= j < ty.tags.len() && (#[trigger] ty.tags[j]).name == "prefab"@ && parse_scope(
            ty.tags[j].tokens,
        ) == Ok::<Option<ScopeModel>, ErrorKind>(Some(ScopeModel::Local(state)))
}

/// Whether some prefab of the module is scoped to `state`.
pub open spec fn is_scoped_state(items: Seq<DeclarationModel>, state: Text) -> bool {
    exists|i: int| 0 <= i < items.len() && scopes_to(#[trigger] items[i], state)
}

/// Whether the item is a prefab scoped to `state`.
pub fn item_scopes_to(item: &Declaration, state: &str) -> (found: bool)
    ensures
        found == scopes_to(item@, state@),
{
    match item {
        Declaration::Type(ty) => {
            if !ty.named_fields {
                return false;
            }
            let mut j: usize = 0;
            while j < ty.tags.len()
                invariant
                    j <= ty.tags.len(),
                    item@ == DeclarationModel::Type(ty@),
                    ty.named_fields,
                    forall|k: int|
                        0 <= k < j ==> !((#[trigger] ty@.tags[k]).name == "prefab"@ && parse_scope(
                            ty@.tags[k].tokens,
                        ) == Ok::<Option<ScopeModel>, ErrorKind>(
                            Some(ScopeModel::Local(state@)),
                        )),
                decreases ty.tags.len() - j,
            {
                assert(ty@.tags[j as int] == ty.tags[j as int]@);
                if text_eq(ty.tags[j].name.as_str(), "prefab") {
                    match read_scope(&ty.tags[j].tokens) {
                        Ok(Some(Scope::Local(found))) => {
                            if text_eq(found.as_str(), state) {
                                return true;
                            }
                        },
                        _ => {},
                    }
                }
                j += 1;
            }
            false
        },
        _ => false,
    }
}

/// Whether some prefab among the items is scoped to `state`.
pub fn scoped_state(items: &Vec<Declaration>, state: &str) -> (found: bool)
    ensures
        found == is_scoped_state(items.deep_view(), state@),
{
    let mut i: usize = 0;
    while i < items.len()
        invariant
            i <= items.len(),
            forall|k: int| 0 <= k < i ==> !scopes_to(#[trigger] items.deep_view()[k], state@),
        decreases items.len() - i,
    {
        assert(items.deep_view()[i as int] == items[i as int]@);
        if item_scopes_to(&items[i], state) {
            return true;
        }
        i += 1;
    }
    false
}

/// What the scanner has gathered: the classified units, the requests of
/// the type-level tags, the configuration fields, and the items passed on.
pub struct ScanModel {
    pub processor: ProcessorModel,
    pub init: Seq<RequestModel>,
    pub fields: Seq<FieldModel>,
    pub items: Seq<DeclarationModel>,
}

/// The scan before the first item.
pub open spec fn empty_scan() -> ScanModel {
    ScanModel {
        processor: empty_processor(),
        init: Seq::<RequestModel>::empty(),
        fields: Seq::<FieldModel>::empty(),
        items: Seq::<DeclarationModel>::empty(),
    }
}

/// Registers the cleanup systems of the variants from index `from` on, in
/// the order of the variants.
pub open spec fn register_cleanups(
    processor: ProcessorModel,
    state: Text,
    variants: Seq<Text>,
    from: int,
) -> Result<ProcessorModel, CompileErrorModel>
    decreases variants.len() - from,
{
    if from < 0 || from >= variants.len() {
        Ok(processor)
    } else {
        match register(
            processor,
            cleanup_model(state, variants[from], cleanup_name(variants[from])),
        ) {
            Err(error) => Err(error),
            Ok(next) => register_cleanups(next, state, variants, from + 1),
        }
    }
}

/// A type while its tags are being consumed.
pub struct TypeScan {
    pub ty: DataTypeModel,
    pub init: Seq<RequestModel>,
    pub processor: ProcessorModel,
}

/// A bare type-level tag asks for `bare`; with tokens it is malformed.
pub open spec fn bare_request(scan: TypeScan, tag: TagModel, bare: RequestModel) -> Result<
    TypeScan,
    CompileErrorModel,
> {
    if tag.tokens.len() == 0 {
        Ok(TypeScan { init: scan.init.push(bare), ..scan })
    } else {
        Err(
            CompileErrorModel {
                kind: ErrorKind::MalformedTag,
                declaration: scan.ty.name,
                tag: tag.name,
            },
        )
    }
}

/// What one tag of a data type does. `init_resource`, `init_event`,
/// `init_state` and `register` are consumed and turned into requests;
/// `init_state` also marks the type as a state and, if a prefab is scoped
/// to it, registers one cleanup system per variant; `prefab` is consumed
/// and compiled; every other tag stays on the type.
pub open spec fn apply_type_tag(scan: TypeScan, tag: TagModel, scoped: bool) -> Result<
    TypeScan,
    CompileErrorModel,
> {
    let name = scan.ty.name;
    if tag.name == "init_resource"@ {
        if tag.tokens.len() == 0 {
            Ok(TypeScan { init: scan.init.push(RequestModel::DefaultResource(name)), ..scan })
        } else {
            Ok(
                TypeScan {
                    init: scan.init.push(RequestModel::InstanceResource(tag.tokens)),
                    ..scan
                },
            )
        }
    } else if tag.name == "init_event"@ {
        bare_request(scan, tag, RequestModel::Event(name))
    } else if tag.name == "register"@ {
        bare_request(scan, tag, RequestModel::Register(name))
    } else if tag.name == "init_state"@ {
        let request = if tag.tokens.len() == 0 {
            RequestModel::DefaultState(name)
        } else {
            RequestModel::InstanceState(tag.tokens)
        };
        let marked = TypeScan {
            ty: DataTypeModel { state: true, ..scan.ty },
            init: scan.init.push(request),
            ..scan
        };
        if scoped {
            match register_cleanups(scan.processor, name, scan.ty.variants, 0) {
                Err(error) => Err(error),
                Ok(processor) => Ok(TypeScan { processor, ..marked }),
            }
        } else {
            Ok(marked)
        }
    } else if tag.name == "prefab"@ {
        match prefab_type(tag.tokens, scan.ty) {
            Err(error) => Err(error),
            Ok(ty) => Ok(TypeScan { ty, ..scan }),
        }
    } else {
        Ok(TypeScan { ty: DataTypeModel { tags: scan.ty.tags.push(tag), ..scan.ty }, ..scan })
    }
}

/// Applies the tags of a data type in order, stopping at the first
/// failure.
pub open spec fn apply_type_tags(scan: TypeScan, tags: Seq<TagModel>, scoped: bool) -> Result<
    TypeScan,
    CompileErrorModel,
>
    decreases tags.len(),
{
    if tags.len() == 0 {
        Ok(scan)
    } else {
        match apply_type_tag(scan, tags[0], scoped) {
            Err(error) => Err(error),
            Ok(next) => apply_type_tags(next, tags.drop_first(), scoped),
        }
    }
}

/// The first index from `from` on of a tag named `field`.
pub open spec fn find_field_tag(tags: Seq<TagModel>, from: int) -> Option<int>
    decreases tags.len() - from,
{
    if from < 0 || from >= tags.len() {
        None
    } else if tags[from].name == "field"@ {
        Some(from)
    } else {
        find_field_tag(tags, from + 1)
    }
}

/// What one item does to the scan, given all the items of the module.
///
/// - A behaviour unit is classified and recorded.
/// - A data type has its type-level tags consumed, and is passed on
///   without them.
/// - A type alias tagged `field` becomes a configuration field; a `field`
///   tag with tokens is malformed; an alias without the tag is passed on.
/// - Any other item is passed on.
pub open spec fn scan_item(scan: ScanModel, item: DeclarationModel, all: Seq<DeclarationModel>)
    -> Result<ScanModel, CompileErrorModel> {
    match item {
        DeclarationModel::Function(unit) => match register(scan.processor, unit) {
            Err(error) => Err(error),
            Ok(processor) => Ok(ScanModel { processor, ..scan }),
        },
        DeclarationModel::Type(ty) => match apply_type_tags(
            TypeScan {
                ty: DataTypeModel { tags: Seq::<TagModel>::empty(), ..ty },
                init: scan.init,
                processor: scan.processor,
            },
            ty.tags,
            is_scoped_state(all, ty.name),
        ) {
            Err(error) => Err(error),
            Ok(done) => Ok(
                ScanModel {
                    processor: done.processor,
                    init: done.init,
                    items: scan.items.push(DeclarationModel::Type(done.ty)),
                    ..scan
                },
            ),
        },
        DeclarationModel::Alias(alias) => match find_field_tag(alias.tags, 0) {
            None => Ok(ScanModel { items: scan.items.push(item), ..scan }),
            Some(at) => if alias.tags[at].tokens.len() != 0 {
                Err(
                    CompileErrorModel {
                        kind: ErrorKind::MalformedTag,
                        declaration: alias.name,
                        tag: "field"@,
                    },
                )
            } else {
                Ok(
                    ScanModel {
                        fields: scan.fields.push(
                            FieldModel { name: alias.name, ty: alias.ty, public: alias.public },
                        ),
                        ..scan
                    },
                )
            },
        },
        DeclarationModel::Other(_) => Ok(ScanModel { items: scan.items.push(item), ..scan }),
    }
}

/// Scans the items from index `from` on, in source order, stopping at the
/// first failure.
pub open spec fn scan_items(scan: ScanModel, all: Seq<DeclarationModel>, from: int) -> Result<
    ScanModel,
    CompileErrorModel,
>
    decreases all.len() - from,
{
    if from < 0 || from >= all.len() {
        Ok(scan)
    } else {
        match scan_item(scan, all[from], all) {
            Err(error) => Err(error),
            Ok(next) => scan_items(next, all, from + 1),
        }
    }
}

/// The plugin that a module compiles to. Its construction procedure
/// invokes the lifecycle hooks, then issues the calls of the type-level
/// requests in the order they were met, then one call per phase, then the
/// factory inserts, then the observer registrations. The first failure,
/// of the name, of an item in source order, or of a phase, is the result,
/// and there is no plugin.
pub open spec fn compile(attr: Seq<TokenModel>, module: ModuleModel) -> Result<
    PluginModel,
    CompileErrorModel,
> {
    match plugin_name(attr, module.name) {
        Err(error) => Err(error),
        Ok(name) => match scan_items(empty_scan(), module.items, 0) {
            Err(error) => Err(error),
            Ok(scan) => match system_calls(scan.processor.definitions) {
                Err(error) => Err(error),
                Ok(calls) => Ok(
                    PluginModel {
                        name,
                        fields: scan.fields,
                        builds: build_hooks(scan.processor.definitions),
                        registrations: init_calls(scan.init) + calls,
                        methods: scan.processor.impl_functions,
                        functions: scan.processor.base_functions,
                        items: scan.items,
                    },
                ),
            },
        },
    }
}

/// The scanner at work: what it has gathered so far.
#[derive(Debug, PartialEq, Eq)]
pub struct Scanner {
    pub processor: SystemProcessor,
    pub init: InitializationSystems,
    pub fields: Vec<Field>,
    pub items: Vec<Declaration>,
}

impl View for Scanner {
    type V = ScanModel;

    open spec fn view(&self) -> ScanModel {
        ScanModel {
            processor: self.processor@,
            init: self.init@,
            fields: self.fields.deep_view(),
            items: self.items.deep_view(),
        }
    }
}

/// A data type at work: the type as consumed so far, with the requests
/// and the units gathered.
#[derive(Debug, PartialEq, Eq)]
pub struct TypeWork {
    pub ty: DataType,
    pub init: InitializationSystems,
    pub processor: SystemProcessor,
}

impl View for TypeWork {
    type V = TypeScan;

    open spec fn view(&self) -> TypeScan {
        TypeScan { ty: self.ty@, init: self.init@, processor: self.processor@ }
    }
}

/// Derives and registers the cleanup system of every variant of a state,
/// in the order of the variants.
pub fn add_cleanups(processor: SystemProcessor, state: &str, variants: &Vec<String>) -> (out:
    Result<SystemProcessor, CompileError>)
    ensures
        processor.wf() ==> (out matches Ok(next) ==> next.wf()),
        match out {
            Ok(next) => register_cleanups(processor@, state@, variants.deep_view(), 0) == Ok::<
                ProcessorModel,
                CompileErrorModel,
            >(next@),
            Err(error) => register_cleanups(processor@, state@, variants.deep_view(), 0) == Err::<
                ProcessorModel,
                CompileErrorModel,
            >(error@),
        },
{
    let mut current = processor;
    let mut i: usize = 0;
    while i < variants.len()
        invariant
            i <= variants.len(),
            processor.wf() ==> current.wf(),
            register_cleanups(processor@, state@, variants.deep_view(), 0) == register_cleanups(
                current@,
                state@,
                variants.deep_view(),
                i as int,
            ),
        decreases variants.len() - i,
    {
        assert(variants.deep_view()[i as int] == variants[i as int]@);
        let unit = derive_cleanup(state, variants[i].as_str());
        match current.process_item_fn(unit) {
            Err(error) => {
                return Err(error);
            },
            Ok(()) => {},
        }
        i += 1;
    }
    Ok(current)
}

/// Applies one tag of a data type.
pub fn consume_type_tag(work: TypeWork, tag: &Tag, scoped: bool) -> (out: Result<
    TypeWork,
    CompileError,
>)
    ensures
        match out {
            Ok(next) => apply_type_tag(work@, tag@, scoped) == Ok::<TypeScan, CompileErrorModel>(
                next@,
            ),
            Err(error) => apply_type_tag(work@, tag@, scoped) == Err::<
                TypeScan,
                CompileErrorModel,
            >(error@),
        },
{
    let TypeWork { ty, init, processor } = work;
    let mut init = init;
    let name = tag.name.as_str();
    let bare = tag.tokens.len() == 0;
    if text_eq(name, "init_resource") {
        if bare {
            init.push(InitRequest::DefaultResource(ty.name.clone()));
        } else {
            init.push(InitRequest::InstanceResource(copy_texts(&tag.tokens)));
        }
        Ok(TypeWork { ty, init, processor })
    } else if text_eq(name, "init_event") {
        if !bare {
            return Err(CompileError::new(ErrorKind::MalformedTag, ty.name.as_str(), name));
        }
        init.push(InitRequest::Event(ty.name.clone()));
        Ok(TypeWork { ty, init, processor })
    } else if text_eq(name, "register") {
        if !bare {
            return Err(CompileError::new(ErrorKind::MalformedTag, ty.name.as_str(), name));
        }
        init.push(InitRequest::Register(ty.name.clone()));
        Ok(TypeWork { ty, init, processor })
    } else if text_eq(name, "init_state") {
        if bare {
            init.push(InitRequest::DefaultState(ty.name.clone()));
        } else {
            init.push(InitRequest::InstanceState(copy_texts(&tag.tokens)));
        }
        let processor = if scoped {
            match add_cleanups(processor, ty.name.as_str(), &ty.variants) {
                Err(error) => {
                    return Err(error);
                },
                Ok(next) => next,
            }
        } else {
            processor
        };
        let DataType { name, tags, variants, named_fields, scope, bundle, state: _ } = ty;
        Ok(
            TypeWork {
                ty: DataType { name, tags, variants, named_fields, scope, bundle, state: true },
                init,
                processor,
            },
        )
    } else if text_eq(name, "prefab") {
        match apply_prefab(&tag.tokens, ty) {
            Err(error) => Err(error),
            Ok(ty) => Ok(TypeWork { ty, init, processor }),
        }
    } else {
        let DataType { name, tags, variants, named_fields, scope, bundle, state } = ty;
        let mut tags = tags;
        let ghost kept = tags.deep_view();
        tags.push(tag.duplicate());
        assert(tags.deep_view() =~= kept.push(tag@));
        Ok(
            TypeWork {
                ty: DataType { name, tags, variants, named_fields, scope, bundle, state },
                init,
                processor,
            },
        )
    }
}

/// Scans one item of the module.
pub fn scan(scanner: Scanner, item: &Declaration, all: &Vec<Declaration>) -> (out: Result<
    Scanner,
    CompileError,
>)
    ensures
        match out {
            Ok(next) => scan_item(scanner@, item@, all.deep_view()) == Ok::<
                ScanModel,
                CompileErrorModel,
            >(next@),
            Err(error) => scan_item(scanner@, item@, all.deep_view()) == Err::<
                ScanModel,
                CompileErrorModel,
            >(error@),
        },
{
    let Scanner { processor, init, fields, items } = scanner;
    let mut processor = processor;
    let mut fields = fields;
    let mut items = items;
    let ghost kept = items.deep_view();
    let ghost old_fields = fields.deep_view();
    match item {
        Declaration::Function(unit) => {
            match processor.process_item_fn(unit.duplicate()) {
                Err(error) => Err(error),
                Ok(()) => Ok(Scanner { processor, init, fields, items }),
            }
        },
        Declaration::Type(ty) => {
            let scoped = scoped_state(all, ty.name.as_str());
            let tags = Vec::new();
            assert(tags.deep_view() =~= Seq::<TagModel>::empty());
            let mut work = TypeWork {
                ty: DataType {
                    name: ty.name.clone(),
                    tags,
                    variants: copy_texts(&ty.variants),
                    named_fields: ty.named_fields,
                    scope: match &ty.scope {
                        Some(scope) => Some(scope.duplicate()),
                        None => None,
                    },
                    bundle: ty.bundle,
                    state: ty.state,
                },
                init,
                processor,
            };
            let ghost start = work@;
            let mut j: usize = 0;
            assert(ty.tags.deep_view().skip(0) =~= ty.tags.deep_view());
            while j < ty.tags.len()
                invariant
                    j <= ty.tags.len(),
                    item@ == DeclarationModel::Type(ty@),
                    scoped == is_scoped_state(all.deep_view(), ty@.name),
                    start == (TypeScan {
                        ty: DataTypeModel { tags: Seq::<TagModel>::empty(), ..ty@ },
                        init: scanner@.init,
                        processor: scanner@.processor,
                    }),
                    apply_type_tags(start, ty.tags.deep_view(), scoped) == apply_type_tags(
                        work@,
                        ty.tags.deep_view().skip(j as int),
                        scoped,
                    ),
                decreases ty.tags.len() - j,
            {
                proof {
                    assert(ty.tags.deep_view().skip(j as int)[0] == ty.tags[j as int]@);
                    assert(ty.tags.deep_view().skip(j as int).drop_first()
                        =~= ty.tags.deep_view().skip(j + 1));
                }
                match consume_type_tag(work, &ty.tags[j], scoped) {
                    Err(error) => {
                        return Err(error);
                    },
                    Ok(next) => {
                        work = next;
                    },
                }
                j += 1;
            }
            let TypeWork { ty: done, init, processor } = work;
            let ghost model = done@;
            items.push(Declaration::Type(done));
            assert(items.deep_view() =~= kept.push(DeclarationModel::Type(model)));
            Ok(Scanner { processor, init, fields, items })
        },
        Declaration::Alias(alias) => {
            let mut at: usize = 0;
            while at < alias.tags.len()
                invariant
                    at <= alias.tags.len(),
                    find_field_tag(alias@.tags, 0) == find_field_tag(alias@.tags, at as int),
                    kept == items.deep_view(),
                    old_fields == fields.deep_view(),
                    item@ == DeclarationModel::Alias(alias@),
                    scanner@ == (ScanModel {
                        processor: processor@,
                        init: init@,
                        fields: old_fields,
                        items: kept,
                    }),
                decreases alias.tags.len() - at,
            {
                assert(alias@.tags[at as int] == alias.tags[at as int]@);
                if text_eq(alias.tags[at].name.as_str(), "field") {
                    if alias.tags[at].tokens.len() != 0 {
                        return Err(
                            CompileError::new(
                                ErrorKind::MalformedTag,
                                alias.name.as_str(),
                                "field",
                            ),
                        );
                    }
                    fields.push(
                        Field {
                            name: alias.name.clone(),
                            ty: alias.ty.clone(),
                            public: alias.public,
                        },
                    );
                    assert(fields.deep_view() =~= old_fields.push(
                        FieldModel { name: alias@.name, ty: alias@.ty, public: alias@.public },
                    ));
                    return Ok(Scanner { processor, init, fields, items });
                }
                at += 1;
            }
            items.push(Declaration::Alias(alias.duplicate()));
            assert(items.deep_view() =~= kept.push(item@));
            Ok(Scanner { processor, init, fields, items })
        },
        Declaration::Other(at) => {
            items.push(Declaration::Other(*at));
            assert(items.deep_view() =~= kept.push(item@));
            Ok(Scanner { processor, init, fields, items })
        },
    }
}

/// Compiles a module into its plugin. `attr` holds the tokens written in
/// the brackets of the `plugin` tag: none, or the name of the plugin.
pub fn plugin(attr: &Vec<Token>, input: &Module) -> (out: Result<Plugin, CompileError>)
    ensures
        match out {
            Ok(plugin) => compile(attr.deep_view(), input@) == Ok::<
                PluginModel,
                CompileErrorModel,
            >(plugin@),
            Err(error) => compile(attr.deep_view(), input@) == Err::<
                PluginModel,
                CompileErrorModel,
            >(error@),
        },
{
    let name = match read_plugin_name(attr, input.name.as_str()) {
        Err(error) => {
            return Err(error);
        },
        Ok(name) => name,
    };
    let fields = Vec::new();
    let items = Vec::new();
    assert(fields.deep_view() =~= Seq::<FieldModel>::empty());
    assert(items.deep_view() =~= Seq::<DeclarationModel>::empty());
    let mut work = Scanner {
        processor: SystemProcessor::new(),
        init: InitializationSystems::new(),
        fields,
        items,
    };
    let mut i: usize = 0;
    while i < input.items.len()
        invariant
            i <= input.items.len(),
            plugin_name(attr.deep_view(), input@.name) is Ok,
            scan_items(empty_scan(), input@.items, 0) == scan_items(
                work@,
                input@.items,
                i as int,
            ),
        decreases input.items.len() - i,
    {
        assert(input@.items[i as int] == input.items[i as int]@);
        match scan(work, &input.items[i], &input.items) {
            Err(error) => {
                return Err(error);
            },
            Ok(next) => {
                work = next;
            },
        }
        i += 1;
    }
    let Scanner { processor, init, fields, items } = work;
    let mut processor = processor;
    let mut registrations: Vec<Registration> = Vec::new();
    assert(registrations.deep_view() =~= Seq::<RegistrationModel>::empty());
    init.append(&mut registrations);
    assert(registrations.deep_view() =~= init_calls(init@));
    match processor.apply_app_exts(&mut registrations) {
        Err(error) => {
            return Err(error);
        },
        Ok(()) => {},
    }
    let mut builds: Vec<String> = Vec::new();
    assert(builds.deep_view() =~= Seq::<Text>::empty());
    processor.apply_build(&mut builds);
    assert(builds.deep_view() =~= build_hooks(processor@.definitions));
    let SystemProcessor { definitions: _, impl_functions, base_functions } = processor;
    Ok(
        Plugin {
            name,
            fields,
            builds,
            registrations,
            methods: impl_functions,
            functions: base_functions,
            items,
        },
    )
}

} // verus!
