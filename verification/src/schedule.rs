//! The ordering resolver: groups the scheduled systems by phase, ranks the
//! prioritised ones into one chain, and turns every `before`, `after` and
//! `pipe` into an independent edge against a system of the same phase.

use crate::error::{CompileError, CompileErrorModel, ErrorKind};
use crate::kind::{
    rank_position, FunctionKind, KindModel, OrderingModel, OrderingSpec, PhaseExpr, PhaseModel,
    Rank,
};
use crate::registration::{relation_tag, Edge, EdgeModel, Relation, SystemSet, SystemSetModel};
use crate::schedule_laws::{lemma_chain_is_complete, lemma_chain_is_ranked, lemma_chain_is_stable};
use crate::text::{text_eq, Text};
use vstd::prelude::*;
use vstd::seq_lib::*;
use vstd::string::*;

verus! {

/// A classified behaviour unit: its name and its kind.
#[derive(Debug, PartialEq, Eq)]
pub struct Definition {
    pub name: String,
    pub kind: FunctionKind,
}

/// The mathematical value of a [`Definition`].
pub struct DefinitionModel {
    pub name: Text,
    pub kind: KindModel,
}

impl View for Definition {
    type V = DefinitionModel;

    open spec fn view(&self) -> DefinitionModel {
        DefinitionModel { name: self.name@, kind: self.kind@ }
    }
}

impl DeepView for Definition {
    type V = DefinitionModel;

    open spec fn deep_view(&self) -> DefinitionModel {
        self@
    }
}

impl Definition {
    /// A copy of this definition.
    pub fn duplicate(&self) -> (copy: Definition)
        ensures
            copy@ == self@,
    {
        Definition { name: self.name.clone(), kind: self.kind.duplicate() }
    }
}

/// Whether a definition is a system scheduled in `phase`.
pub open spec fn in_phase(def: DefinitionModel, phase: PhaseModel) -> bool {
    def.kind matches KindModel::ScheduledSystem { phase: own, .. } && own == phase
}

/// The bucket of a phase: the systems scheduled in it, in declaration
/// order.
pub open spec fn phase_bucket(defs: Seq<DefinitionModel>, phase: PhaseModel) -> Seq<
    DefinitionModel,
>
    decreases defs.len(),
{
    if defs.len() == 0 {
        Seq::<DefinitionModel>::empty()
    } else {
        let before = phase_bucket(defs.drop_last(), phase);
        if in_phase(defs.last(), phase) {
            before.push(defs.last())
        } else {
            before
        }
    }
}

/// A member of the priority subset of a bucket.
#[derive(Debug, PartialEq, Eq)]
pub struct ChainEntry {
    pub rank: Rank,
    pub name: String,
}

/// The mathematical value of a [`ChainEntry`].
pub struct EntryModel {
    pub rank: Rank,
    pub name: Text,
}

impl View for ChainEntry {
    type V = EntryModel;

    open spec fn view(&self) -> EntryModel {
        EntryModel { rank: self.rank, name: self.name@ }
    }
}

impl DeepView for ChainEntry {
    type V = EntryModel;

    open spec fn deep_view(&self) -> EntryModel {
        self@
    }
}

/// The chain entry of a system that asked for a priority or for nothing,
/// the latter at `Normal` rank; none for the systems with an edge.
pub open spec fn chain_entry(def: DefinitionModel) -> Option<EntryModel> {
    match def.kind {
        KindModel::ScheduledSystem { ordering: OrderingModel::Unspecified, .. } => Some(
            EntryModel { rank: Rank::Normal, name: def.name },
        ),
        KindModel::ScheduledSystem { ordering: OrderingModel::Priority(rank), .. } => Some(
            EntryModel { rank, name: def.name },
        ),
        _ => None,
    }
}

/// The priority subset of a bucket, in declaration order.
pub open spec fn chain_entries(bucket: Seq<DefinitionModel>) -> Seq<EntryModel>
    decreases bucket.len(),
{
    if bucket.len() == 0 {
        Seq::<EntryModel>::empty()
    } else {
        let before = chain_entries(bucket.drop_last());
        match chain_entry(bucket.last()) {
            Some(entry) => before.push(entry),
            None => before,
        }
    }
}

/// The edge of a system that asked to run before or after another, or to
/// pipe into it.
pub open spec fn edge_of(def: DefinitionModel) -> Option<EdgeModel> {
    match def.kind {
        KindModel::ScheduledSystem { ordering: OrderingModel::Before(target), .. } => Some(
            EdgeModel { subject: def.name, relation: Relation::Before, target },
        ),
        KindModel::ScheduledSystem { ordering: OrderingModel::After(target), .. } => Some(
            EdgeModel { subject: def.name, relation: Relation::After, target },
        ),
        KindModel::ScheduledSystem { ordering: OrderingModel::Pipe(target), .. } => Some(
            EdgeModel { subject: def.name, relation: Relation::Pipe, target },
        ),
        _ => None,
    }
}

/// The edge subset of a bucket, in declaration order.
pub open spec fn bucket_edges(bucket: Seq<DefinitionModel>) -> Seq<EdgeModel>
    decreases bucket.len(),
{
    if bucket.len() == 0 {
        Seq::<EdgeModel>::empty()
    } else {
        let before = bucket_edges(bucket.drop_last());
        match edge_of(bucket.last()) {
            Some(edge) => before.push(edge),
            None => before,
        }
    }
}

/// Where a new entry goes into a ranked chain: behind the last entry whose
/// position on the scale is not greater than its own.
pub open spec fn insertion_point(chain: Seq<EntryModel>, entry: EntryModel) -> int
    decreases chain.len(),
{
    if chain.len() == 0 {
        0
    } else if rank_position(chain.last().rank) <= rank_position(entry.rank) {
        chain.len() as int
    } else {
        insertion_point(chain.drop_last(), entry)
    }
}

/// The chain of a priority subset: its entries by ascending position on
/// the rank scale, entries of equal position in declaration order.
pub open spec fn chain_order(entries: Seq<EntryModel>) -> Seq<EntryModel>
    decreases entries.len(),
{
    if entries.len() == 0 {
        Seq::<EntryModel>::empty()
    } else {
        let before = chain_order(entries.drop_last());
        before.insert(insertion_point(before, entries.last()), entries.last())
    }
}

/// Whether a chain runs by ascending position on the rank scale.
pub open spec fn is_ranked(chain: Seq<EntryModel>) -> bool {
    forall|i: int, j: int|
        0 <= i <= j < chain.len() ==> rank_position(#[trigger] chain[i].rank) <= rank_position(
            #[trigger] chain[j].rank,
        )
}

/// The entries of a sequence that sit at one position of the rank scale,
/// in their order.
pub open spec fn at_position(entries: Seq<EntryModel>, position: int) -> Seq<EntryModel> {
    entries.filter(|entry: EntryModel| rank_position(entry.rank) == position)
}

/// The names of the entries of a chain, in order.
pub open spec fn entry_names(chain: Seq<EntryModel>) -> Seq<Text> {
    Seq::new(chain.len(), |i: int| chain[i].name)
}

/// Whether the bucket holds, at an index other than `at`, a system named
/// `target`.
pub open spec fn has_sibling(bucket: Seq<DefinitionModel>, at: int, target: Text) -> bool {
    exists|j: int| 0 <= j < bucket.len() && j != at && (#[trigger] bucket[j]).name == target
}

/// Whether the system at `at` has no edge, or an edge whose target is one
/// of its siblings.
pub open spec fn edge_resolved(bucket: Seq<DefinitionModel>, at: int) -> bool {
    match edge_of(bucket[at]) {
        Some(edge) => has_sibling(bucket, at, edge.target),
        None => true,
    }
}

/// The first index from `from` on whose edge names no sibling.
pub open spec fn first_unresolved(bucket: Seq<DefinitionModel>, from: int) -> Option<int>
    decreases bucket.len() - from,
{
    if from < 0 || from >= bucket.len() {
        None
    } else if !edge_resolved(bucket, from) {
        Some(from)
    } else {
        first_unresolved(bucket, from + 1)
    }
}

/// The system set of a bucket: the chain of its priority subset and the
/// edges of its edge subset. The first edge, in declaration order, whose
/// target is no sibling of its subject fails the resolution.
pub open spec fn resolve_bucket(bucket: Seq<DefinitionModel>) -> Result<
    SystemSetModel,
    CompileErrorModel,
> {
    match first_unresolved(bucket, 0) {
        Some(at) => Err(
            CompileErrorModel {
                kind: ErrorKind::UnresolvedOrderingReference,
                declaration: bucket[at].name,
                tag: relation_tag(edge_of(bucket[at])->0.relation),
            },
        ),
        None => Ok(
            SystemSetModel {
                chain: entry_names(chain_order(chain_entries(bucket))),
                edges: bucket_edges(bucket),
                free: Seq::<Text>::empty(),
            },
        ),
    }
}

/// Copies out the systems of one phase, in declaration order.
pub fn collect_bucket(defs: &Vec<Definition>, phase: &PhaseExpr) -> (bucket: Vec<Definition>)
    ensures
        bucket.deep_view() == phase_bucket(defs.deep_view(), phase@),
{
    let mut bucket: Vec<Definition> = Vec::new();
    let mut i: usize = 0;
    assert(defs.deep_view().take(0) =~= Seq::<DefinitionModel>::empty());
    assert(bucket.deep_view() =~= Seq::<DefinitionModel>::empty());
    while i < defs.len()
        invariant
            i <= defs.len(),
            bucket.deep_view() == phase_bucket(defs.deep_view().take(i as int), phase@),
        decreases defs.len() - i,
    {
        let ghost before = bucket.deep_view();
        proof {
            assert(defs.deep_view().take(i + 1).drop_last() =~= defs.deep_view().take(i as int));
            assert(defs.deep_view().take(i + 1).last() == defs[i as int]@);
        }
        let member = match &defs[i].kind {
            FunctionKind::ScheduledSystem { phase: own, ordering: _ } => own.same_as(phase),
            _ => false,
        };
        if member {
            bucket.push(defs[i].duplicate());
            assert(bucket.deep_view() =~= before.push(defs[i as int]@));
        }
        i += 1;
    }
    assert(defs.deep_view().take(i as int) =~= defs.deep_view());
    bucket
}

/// Copies out the priority subset of a bucket, in declaration order.
pub fn collect_chain(bucket: &Vec<Definition>) -> (entries: Vec<ChainEntry>)
    ensures
        entries.deep_view() == chain_entries(bucket.deep_view()),
{
    let mut entries: Vec<ChainEntry> = Vec::new();
    let mut i: usize = 0;
    assert(bucket.deep_view().take(0) =~= Seq::<DefinitionModel>::empty());
    assert(entries.deep_view() =~= Seq::<EntryModel>::empty());
    while i < bucket.len()
        invariant
            i <= bucket.len(),
            entries.deep_view() == chain_entries(bucket.deep_view().take(i as int)),
        decreases bucket.len() - i,
    {
        let ghost before = entries.deep_view();
        proof {
            assert(bucket.deep_view().take(i + 1).drop_last() =~= bucket.deep_view().take(
                i as int,
            ));
            assert(bucket.deep_view().take(i + 1).last() == bucket[i as int]@);
        }
        match &bucket[i].kind {
            FunctionKind::ScheduledSystem { phase: _, ordering } => match ordering {
                OrderingSpec::Unspecified => {
                    entries.push(ChainEntry { rank: Rank::Normal, name: bucket[i].name.clone() });
                    assert(entries.deep_view() =~= before.push(
                        chain_entry(bucket[i as int]@)->0,
                    ));
                },
                OrderingSpec::Priority(rank) => {
                    entries.push(ChainEntry { rank: *rank, name: bucket[i].name.clone() });
                    assert(entries.deep_view() =~= before.push(
                        chain_entry(bucket[i as int]@)->0,
                    ));
                },
                _ => {},
            },
            _ => {},
        }
        i += 1;
    }
    assert(bucket.deep_view().take(i as int) =~= bucket.deep_view());
    entries
}

/// Copies out the edge subset of a bucket, in declaration order.
pub fn collect_edges(bucket: &Vec<Definition>) -> (edges: Vec<Edge>)
    ensures
        edges.deep_view() == bucket_edges(bucket.deep_view()),
{
    let mut edges: Vec<Edge> = Vec::new();
    let mut i: usize = 0;
    assert(bucket.deep_view().take(0) =~= Seq::<DefinitionModel>::empty());
    assert(edges.deep_view() =~= Seq::<EdgeModel>::empty());
    while i < bucket.len()
        invariant
            i <= bucket.len(),
            edges.deep_view() == bucket_edges(bucket.deep_view().take(i as int)),
        decreases bucket.len() - i,
    {
        let ghost before = edges.deep_view();
        proof {
            assert(bucket.deep_view().take(i + 1).drop_last() =~= bucket.deep_view().take(
                i as int,
            ));
            assert(bucket.deep_view().take(i + 1).last() == bucket[i as int]@);
        }
        match own_edge(&bucket[i]) {
            Some(edge) => {
                edges.push(edge);
                assert(edges.deep_view() =~= before.push(edge_of(bucket[i as int]@)->0));
            },
            None => {},
        }
        i += 1;
    }
    assert(bucket.deep_view().take(i as int) =~= bucket.deep_view());
    edges
}

/// The edge that a definition asks for, if it asks for one.
pub fn own_edge(def: &Definition) -> (edge: Option<Edge>)
    ensures
        match edge {
            Some(e) => edge_of(def@) == Some(e@),
            None => edge_of(def@) is None,
        },
{
    match &def.kind {
        FunctionKind::ScheduledSystem { phase: _, ordering } => match ordering {
            OrderingSpec::Before(target) => Some(
                Edge {
                    subject: def.name.clone(),
                    relation: Relation::Before,
                    target: target.clone(),
                },
            ),
            OrderingSpec::After(target) => Some(
                Edge {
                    subject: def.name.clone(),
                    relation: Relation::After,
                    target: target.clone(),
                },
            ),
            OrderingSpec::Pipe(target) => Some(
                Edge {
                    subject: def.name.clone(),
                    relation: Relation::Pipe,
                    target: target.clone(),
                },
            ),
            _ => None,
        },
        _ => None,
    }
}

/// Ranks a priority subset into its chain: the same entries, by ascending
/// position on the rank scale, those of equal position in the order in
/// which they were declared.
pub fn sort_chain(entries: &Vec<ChainEntry>) -> (chain: Vec<ChainEntry>)
    ensures
        chain.deep_view() == chain_order(entries.deep_view()),
        is_ranked(chain.deep_view()),
        chain.deep_view().to_multiset() == entries.deep_view().to_multiset(),
        forall|position: int|
            at_position(chain.deep_view(), position) == #[trigger] at_position(
                entries.deep_view(),
                position,
            ),
{
    proof {
        lemma_chain_is_ranked(entries.deep_view());
        lemma_chain_is_complete(entries.deep_view());
        assert forall|position: int|
            at_position(chain_order(entries.deep_view()), position) == #[trigger] at_position(
                entries.deep_view(),
                position,
            ) by {
            lemma_chain_is_stable(entries.deep_view(), position);
        }
    }
    let mut chain: Vec<ChainEntry> = Vec::new();
    let mut i: usize = 0;
    assert(entries.deep_view().take(0) =~= Seq::<EntryModel>::empty());
    assert(chain.deep_view() =~= Seq::<EntryModel>::empty());
    while i < entries.len()
        invariant
            i <= entries.len(),
            chain.len() == i,
            chain.deep_view() == chain_order(entries.deep_view().take(i as int)),
        decreases entries.len() - i,
    {
        let ghost before = chain.deep_view();
        let ghost entry = entries[i as int]@;
        proof {
            assert(entries.deep_view().take(i + 1).drop_last() =~= entries.deep_view().take(
                i as int,
            ));
            assert(entries.deep_view().take(i + 1).last() == entry);
        }
        let position = entries[i].rank.position();
        let mut at: usize = chain.len();
        assert(before.take(at as int) =~= before);
        while at > 0 && chain[at - 1].rank.position() > position
            invariant
                at <= chain.len(),
                before == chain.deep_view(),
                position == rank_position(entry.rank),
                insertion_point(before, entry) == insertion_point(before.take(at as int), entry),
            decreases at,
        {
            proof {
                assert(before.take(at as int).last() == chain[at - 1]@);
                assert(before.take(at as int).drop_last() =~= before.take(at - 1));
            }
            at -= 1;
        }
        proof {
            if at > 0 {
                assert(before.take(at as int).last() == chain[at - 1]@);
            }
        }
        chain.insert(at, ChainEntry { rank: entries[i].rank, name: entries[i].name.clone() });
        assert(chain.deep_view() =~= before.insert(at as int, entry));
        i += 1;
    }
    assert(entries.deep_view().take(i as int) =~= entries.deep_view());
    chain
}

/// The names of the entries of a chain, in order.
pub fn chain_names(chain: &Vec<ChainEntry>) -> (names: Vec<String>)
    ensures
        names.deep_view() == entry_names(chain.deep_view()),
{
    let mut names: Vec<String> = Vec::new();
    let mut i: usize = 0;
    while i < chain.len()
        invariant
            i <= chain.len(),
            names.len() == i,
            forall|k: int| 0 <= k < i ==> names[k]@ == chain[k]@.name,
        decreases chain.len() - i,
    {
        names.push(chain[i].name.clone());
        i += 1;
    }
    assert(names.deep_view() =~= entry_names(chain.deep_view()));
    names
}

/// Whether the bucket holds, at an index other than `at`, a system named
/// `target`.
pub fn sibling_exists(bucket: &Vec<Definition>, at: usize, target: &str) -> (found: bool)
    ensures
        found == has_sibling(bucket.deep_view(), at as int, target@),
{
    let mut j: usize = 0;
    while j < bucket.len()
        invariant
            j <= bucket.len(),
            forall|k: int|
                0 <= k < j && k != at ==> (#[trigger] bucket.deep_view()[k]).name != target@,
        decreases bucket.len() - j,
    {
        assert(bucket.deep_view()[j as int] == bucket[j as int]@);
        if j != at && text_eq(bucket[j].name.as_str(), target) {
            return true;
        }
        j += 1;
    }
    false
}

/// The first system of the bucket whose edge names no sibling, with the
/// relation that its edge asks for.
pub fn find_unresolved(bucket: &Vec<Definition>) -> (found: Option<(usize, Relation)>)
    ensures
        match found {
            Some((at, relation)) => {
                &&& first_unresolved(bucket.deep_view(), 0) == Some(at as int)
                &&& at < bucket.len()
                &&& edge_of(bucket[at as int]@) matches Some(edge) && edge.relation == relation
            },
            None => first_unresolved(bucket.deep_view(), 0) is None,
        },
{
    let mut i: usize = 0;
    while i < bucket.len()
        invariant
            i <= bucket.len(),
            first_unresolved(bucket.deep_view(), 0) == first_unresolved(
                bucket.deep_view(),
                i as int,
            ),
        decreases bucket.len() - i,
    {
        assert(bucket.deep_view()[i as int] == bucket[i as int]@);
        match own_edge(&bucket[i]) {
            Some(edge) => {
                if !sibling_exists(bucket, i, edge.target.as_str()) {
                    return Some((i, edge.relation));
                }
            },
            None => {},
        }
        i += 1;
    }
    None
}

/// Resolves one bucket into the system set that is registered for its
/// phase.
pub fn resolve(bucket: &Vec<Definition>) -> (out: Result<SystemSet, CompileError>)
    ensures
        match out {
            Ok(set) => resolve_bucket(bucket.deep_view()) == Ok::<
                SystemSetModel,
                CompileErrorModel,
            >(set@),
            Err(error) => resolve_bucket(bucket.deep_view()) == Err::<
                SystemSetModel,
                CompileErrorModel,
            >(error@),
        },
{
    match find_unresolved(bucket) {
        Some((at, relation)) => {
            assert(bucket.deep_view()[at as int] == bucket[at as int]@);
            Err(
                CompileError::new(
                    ErrorKind::UnresolvedOrderingReference,
                    bucket[at].name.as_str(),
                    relation.tag_name(),
                ),
            )
        },
        None => {
            let entries = collect_chain(bucket);
            let chain = sort_chain(&entries);
            let free = Vec::new();
            assert(free.deep_view() =~= Seq::<Text>::empty());
            Ok(SystemSet { chain: chain_names(&chain), edges: collect_edges(bucket), free })
        },
    }
}

} // verus!
