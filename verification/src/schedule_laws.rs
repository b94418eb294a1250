//! What holds of every resolved schedule: the chain is ranked, stable and
//! complete, and an edge constrains nothing but its two ends.

use crate::error::CompileErrorModel;
use crate::kind::{rank_position, KindModel, OrderingModel, PhaseModel};
use crate::registration::{EdgeModel, Relation, SystemSetModel};
use crate::schedule::{
    at_position, bucket_edges, chain_entries, chain_entry, chain_order, edge_of, edge_resolved,
    first_unresolved, has_sibling, in_phase, insertion_point, is_ranked, phase_bucket,
    resolve_bucket, DefinitionModel, EntryModel,
};
use crate::text::Text;
use vstd::prelude::*;
use vstd::seq_lib::*;

verus! {

/// The insertion point lies inside the chain; every entry behind it sits
/// strictly later on the scale than the new entry, and the entry just
/// before it does not.
pub proof fn lemma_insertion_point(chain: Seq<EntryModel>, entry: EntryModel)
    ensures
        0 <= insertion_point(chain, entry) <= chain.len(),
        forall|k: int|
            insertion_point(chain, entry) <= k < chain.len() ==> rank_position(
                #[trigger] chain[k].rank,
            ) > rank_position(entry.rank),
        insertion_point(chain, entry) > 0 ==> rank_position(
            chain[insertion_point(chain, entry) - 1].rank,
        ) <= rank_position(entry.rank),
    decreases chain.len(),
{
    if chain.len() > 0 && rank_position(chain.last().rank) > rank_position(entry.rank) {
        lemma_insertion_point(chain.drop_last(), entry);
        let at = insertion_point(chain.drop_last(), entry);
        assert forall|k: int| at <= k < chain.len() implies rank_position(
            #[trigger] chain[k].rank,
        ) > rank_position(entry.rank) by {
            if k < chain.len() - 1 {
                assert(chain[k] == chain.drop_last()[k]);
            }
        }
        if at > 0 {
            assert(chain[at - 1] == chain.drop_last()[at - 1]);
        }
    }
}

/// The chain holds as many entries as the priority subset, and runs by
/// ascending position on the rank scale: `Highest` first, `Lowest` last.
pub proof fn lemma_chain_is_ranked(entries: Seq<EntryModel>)
    ensures
        chain_order(entries).len() == entries.len(),
        is_ranked(chain_order(entries)),
    decreases entries.len(),
{
    if entries.len() > 0 {
        let before = chain_order(entries.drop_last());
        let entry = entries.last();
        let at = insertion_point(before, entry);
        lemma_chain_is_ranked(entries.drop_last());
        lemma_insertion_point(before, entry);
        before.insert_ensures(at, entry);
        let chain = before.insert(at, entry);
        assert forall|i: int, j: int| 0 <= i <= j < chain.len() implies rank_position(
            #[trigger] chain[i].rank,
        ) <= rank_position(#[trigger] chain[j].rank) by {
            if i < at {
                assert(chain[i] == before[i]);
                assert(rank_position(before[i].rank) <= rank_position(before[at - 1].rank));
                if j > at {
                    assert(chain[j] == before[j - 1]);
                    assert(rank_position(before[i].rank) <= rank_position(before[j - 1].rank));
                } else if j < at {
                    assert(chain[j] == before[j]);
                }
            } else if i == at {
                if j > at {
                    assert(chain[j] == before[j - 1]);
                }
            } else {
                assert(chain[i] == before[i - 1]);
                assert(chain[j] == before[j - 1]);
            }
        }
    }
}

/// The chain is a rearrangement of the priority subset: every entry
/// occurs in it as often as it was declared.
pub proof fn lemma_chain_is_complete(entries: Seq<EntryModel>)
    ensures
        chain_order(entries).to_multiset() == entries.to_multiset(),
    decreases entries.len(),
{
    if entries.len() == 0 {
        assert(entries =~= Seq::<EntryModel>::empty());
    } else {
        let rest = entries.drop_last();
        let before = chain_order(rest);
        let entry = entries.last();
        let at = insertion_point(before, entry);
        lemma_chain_is_complete(rest);
        lemma_insertion_point(before, entry);
        to_multiset_insert(before, at, entry);
        to_multiset_build(rest, entry);
        assert(rest.push(entry) =~= entries);
        assert(before.insert(at, entry).to_multiset() == before.to_multiset().insert(entry));
        assert(entries.to_multiset() =~= rest.to_multiset().insert(entry));
    }
}

/// Ties are broken by declaration order: the entries that share a position
/// on the rank scale stand in the chain in the order in which they were
/// declared.
pub proof fn lemma_chain_is_stable(entries: Seq<EntryModel>, position: int)
    ensures
        at_position(chain_order(entries), position) == at_position(entries, position),
    decreases entries.len(),
{
    let same = |entry: EntryModel| rank_position(entry.rank) == position;
    if entries.len() == 0 {
    } else {
        let rest = entries.drop_last();
        let before = chain_order(rest);
        let entry = entries.last();
        let at = insertion_point(before, entry);
        lemma_chain_is_stable(rest, position);
        lemma_chain_is_ranked(rest);
        lemma_insertion_point(before, entry);
        let head = before.subrange(0, at);
        let tail = before.subrange(at, before.len() as int);
        assert(before =~= head + tail);
        assert(before.insert(at, entry) =~= head.push(entry) + tail);
        Seq::filter_distributes_over_add(head, tail, same);
        Seq::filter_distributes_over_add(head.push(entry), tail, same);
        head.lemma_filter_push(entry, same);
        rest.lemma_filter_push(entry, same);
        assert(rest.push(entry) =~= entries);
        if rank_position(entry.rank) == position {
            assert forall|k: int| 0 <= k < tail.len() implies !same(#[trigger] tail[k]) by {
                assert(tail[k] == before[at + k]);
            }
            tail.lemma_all_neg_filter_empty(same);
            assert(tail.filter(same) =~= Seq::<EntryModel>::empty());
            assert(head.filter(same).push(entry) + tail.filter(same) =~= (head.filter(same)
                + tail.filter(same)).push(entry));
        }
    }
}

/// Every entry of the chain is an entry of the priority subset.
pub proof fn lemma_chain_members(entries: Seq<EntryModel>, k: int)
    requires
        0 <= k < chain_order(entries).len(),
    ensures
        entries.contains(chain_order(entries)[k]),
    decreases entries.len(),
{
    if entries.len() > 0 {
        let before = chain_order(entries.drop_last());
        let entry = entries.last();
        let at = insertion_point(before, entry);
        lemma_chain_is_ranked(entries.drop_last());
        lemma_insertion_point(before, entry);
        before.insert_ensures(at, entry);
        if k == at {
            assert(entries[entries.len() - 1] == entry);
        } else {
            let from = if k < at {
                k
            } else {
                k - 1
            };
            assert(before.insert(at, entry)[k] == before[from]);
            lemma_chain_members(entries.drop_last(), from);
            let m = choose|m: int|
                0 <= m < entries.drop_last().len() && entries.drop_last()[m] == before[from];
            assert(entries[m] == before[from]);
        }
    }
}

/// Every entry of the priority subset is the chain entry of a system of
/// the bucket.
pub proof fn lemma_entry_origin(bucket: Seq<DefinitionModel>, k: int) -> (at: int)
    requires
        0 <= k < chain_entries(bucket).len(),
    ensures
        0 <= at < bucket.len(),
        chain_entry(bucket[at]) == Some(chain_entries(bucket)[k]),
    decreases bucket.len(),
{
    let before = chain_entries(bucket.drop_last());
    if chain_entry(bucket.last()) is Some && k == before.len() {
        bucket.len() - 1
    } else {
        let at = lemma_entry_origin(bucket.drop_last(), k);
        assert(bucket.drop_last()[at] == bucket[at]);
        at
    }
}

/// Every edge of the edge subset is the edge of a system of the bucket.
pub proof fn lemma_edge_origin(bucket: Seq<DefinitionModel>, k: int) -> (at: int)
    requires
        0 <= k < bucket_edges(bucket).len(),
    ensures
        0 <= at < bucket.len(),
        edge_of(bucket[at]) == Some(bucket_edges(bucket)[k]),
    decreases bucket.len(),
{
    let before = bucket_edges(bucket.drop_last());
    if edge_of(bucket.last()) is Some && k == before.len() {
        bucket.len() - 1
    } else {
        let at = lemma_edge_origin(bucket.drop_last(), k);
        assert(bucket.drop_last()[at] == bucket[at]);
        at
    }
}

/// The edge of every system of the bucket that has one is in the edge
/// subset.
pub proof fn lemma_edge_kept(bucket: Seq<DefinitionModel>, at: int) -> (k: int)
    requires
        0 <= at < bucket.len(),
        edge_of(bucket[at]) is Some,
    ensures
        0 <= k < bucket_edges(bucket).len(),
        edge_of(bucket[at]) == Some(bucket_edges(bucket)[k]),
    decreases bucket.len(),
{
    let before = bucket_edges(bucket.drop_last());
    if at == bucket.len() - 1 {
        before.len() as int
    } else {
        let k = lemma_edge_kept(bucket.drop_last(), at);
        assert(bucket.drop_last()[at] == bucket[at]);
        k
    }
}

/// Every member of the bucket of a phase is a system of that phase.
pub proof fn lemma_bucket_holds_its_phase(
    defs: Seq<DefinitionModel>,
    phase: PhaseModel,
    k: int,
)
    requires
        0 <= k < phase_bucket(defs, phase).len(),
    ensures
        in_phase(phase_bucket(defs, phase)[k], phase),
    decreases defs.len(),
{
    let before = phase_bucket(defs.drop_last(), phase);
    if !(in_phase(defs.last(), phase) && k == before.len()) {
        lemma_bucket_holds_its_phase(defs.drop_last(), phase, k);
    }
}

/// The priority subset and the edge subset part the bucket between them:
/// every system of the bucket is in exactly one of the two, so the set
/// that resolves a bucket registers each of its systems once, in the
/// chain or as the subject of an edge.
pub proof fn lemma_set_covers_bucket(bucket: Seq<DefinitionModel>)
    requires
        forall|i: int| 0 <= i < bucket.len() ==> (#[trigger] bucket[i]).kind is ScheduledSystem,
    ensures
        chain_entries(bucket).len() + bucket_edges(bucket).len() == bucket.len(),
        resolve_bucket(bucket) matches Ok(set) ==> set.chain.len() + set.edges.len()
            == bucket.len() && set.free.len() == 0,
    decreases bucket.len(),
{
    if bucket.len() > 0 {
        assert forall|i: int| 0 <= i < bucket.drop_last().len() implies (
        #[trigger] bucket.drop_last()[i]).kind is ScheduledSystem by {
            assert(bucket.drop_last()[i] == bucket[i]);
        }
        lemma_set_covers_bucket(bucket.drop_last());
        assert(bucket.last() == bucket[bucket.len() - 1]);
    }
    lemma_chain_is_ranked(chain_entries(bucket));
}

/// Whether the chain puts `first` before `second`.
pub open spec fn chain_forces(chain: Seq<Text>, first: Text, second: Text) -> bool {
    exists|i: int, j: int|
        0 <= i < j < chain.len() && #[trigger] chain[i] == first && #[trigger] chain[j] == second
}

/// Whether an edge puts `first` before `second`.
pub open spec fn edge_forces(edge: EdgeModel, first: Text, second: Text) -> bool {
    match edge.relation {
        Relation::Before => edge.subject == first && edge.target == second,
        Relation::Pipe => edge.subject == first && edge.target == second,
        Relation::After => edge.target == first && edge.subject == second,
    }
}

/// Whether a system set encodes that `first` runs before `second`: through
/// its chain, or through one of its edges. Nothing else is handed to the
/// host.
pub open spec fn forces(set: SystemSetModel, first: Text, second: Text) -> bool {
    chain_forces(set.chain, first, second) || exists|k: int|
        0 <= k < set.edges.len() && edge_forces(#[trigger] set.edges[k], first, second)
}

/// Whether the system at `at` is alone with its edge: no other system of
/// the bucket bears its name, and no other edge has it as its target.
pub open spec fn stands_alone(bucket: Seq<DefinitionModel>, at: int) -> bool {
    forall|i: int|
        0 <= i < bucket.len() && i != at ==> (#[trigger] bucket[i]).name != bucket[at].name && (
        edge_of(bucket[i]) matches Some(edge) ==> edge.target != bucket[at].name)
}

/// A system `Y` tagged `before(X)`, with nothing else said about it, is
/// put before `X` and constrained against no third system: the resolved
/// set forces `Y` before `X`, forces nothing before `Y`, and forces `Y`
/// before nothing but `X`.
pub proof fn lemma_before_constrains_only_its_target(
    bucket: Seq<DefinitionModel>,
    at: int,
    target: Text,
    set: SystemSetModel,
)
    requires
        0 <= at < bucket.len(),
        bucket[at].kind matches KindModel::ScheduledSystem {
            ordering: OrderingModel::Before(named),
            ..
        } && named == target,
        stands_alone(bucket, at),
        resolve_bucket(bucket) == Ok::<SystemSetModel, CompileErrorModel>(set),
    ensures
        forces(set, bucket[at].name, target),
        forall|other: Text| !forces(set, other, bucket[at].name),
        forall|other: Text| forces(set, bucket[at].name, other) ==> other == target,
{
    let name = bucket[at].name;
    let own = edge_of(bucket[at])->0;
    let k = lemma_edge_kept(bucket, at);
    assert(set.edges[k] == own);
    assert(edge_forces(set.edges[k], name, target));
    lemma_first_unresolved(bucket, 0);
    assert(edge_resolved(bucket, at));
    assert(has_sibling(bucket, at, target));
    assert(target != name);
    let entries = chain_entries(bucket);
    lemma_chain_is_ranked(entries);
    assert forall|i: int| 0 <= i < set.chain.len() implies set.chain[i] != name by {
        lemma_chain_members(entries, i);
        let m = choose|m: int| 0 <= m < entries.len() && entries[m] == chain_order(entries)[i];
        let origin = lemma_entry_origin(bucket, m);
        assert(origin != at);
        assert(bucket[origin].name == set.chain[i]);
    }
    assert forall|other: Text| !forces(set, other, name) by {
        assert forall|e: int| 0 <= e < set.edges.len() implies !edge_forces(
            #[trigger] set.edges[e],
            other,
            name,
        ) by {
            let origin = lemma_edge_origin(bucket, e);
            if origin != at {
                assert(bucket[origin].name != name);
            }
        }
    }
    assert forall|other: Text| forces(set, name, other) implies other == target by {
        assert(!chain_forces(set.chain, name, other));
        let e = choose|e: int|
            0 <= e < set.edges.len() && edge_forces(#[trigger] set.edges[e], name, other);
        let origin = lemma_edge_origin(bucket, e);
        if origin != at {
            assert(bucket[origin].name != name);
        }
    }
}

/// Whether each unit of `path` is forced before the next one.
pub open spec fn is_forced_path(set: SystemSetModel, path: Seq<Text>) -> bool {
    path.len() >= 2 && forall|i: int|
        0 <= i < path.len() - 1 ==> forces(set, #[trigger] path[i], path[i + 1])
}

/// Whether a system set entails that `first` runs before `second`: a run
/// of forced steps leads from the one to the other.
pub open spec fn entails(set: SystemSetModel, first: Text, second: Text) -> bool {
    exists|path: Seq<Text>|
        #[trigger] is_forced_path(set, path) && path[0] == first && path.last() == second
}

/// What `before(X)` on `Y` entails, steps taken together: nothing at all
/// runs before `Y`, and `Y` runs before a third system only as far as `X`
/// does.
pub proof fn lemma_before_entails_only_through_its_target(
    bucket: Seq<DefinitionModel>,
    at: int,
    target: Text,
    set: SystemSetModel,
)
    requires
        0 <= at < bucket.len(),
        bucket[at].kind matches KindModel::ScheduledSystem {
            ordering: OrderingModel::Before(named),
            ..
        } && named == target,
        stands_alone(bucket, at),
        resolve_bucket(bucket) == Ok::<SystemSetModel, CompileErrorModel>(set),
    ensures
        forall|other: Text| !entails(set, other, bucket[at].name),
        forall|other: Text|
            entails(set, bucket[at].name, other) ==> other == target || entails(
                set,
                target,
                other,
            ),
{
    let name = bucket[at].name;
    lemma_before_constrains_only_its_target(bucket, at, target, set);
    assert forall|other: Text| !entails(set, other, name) by {
        if entails(set, other, name) {
            let path = choose|path: Seq<Text>|
                #[trigger] is_forced_path(set, path) && path[0] == other && path.last() == name;
            assert(forces(set, path[path.len() - 2], path[path.len() - 2 + 1]));
        }
    }
    assert forall|other: Text| entails(set, name, other) implies other == target || entails(
        set,
        target,
        other,
    ) by {
        let path = choose|path: Seq<Text>|
            #[trigger] is_forced_path(set, path) && path[0] == name && path.last() == other;
        assert(forces(set, path[0], path[0int + 1]));
        assert(path[1] == target);
        if path.len() > 2 {
            let rest = path.drop_first();
            assert forall|i: int| 0 <= i < rest.len() - 1 implies forces(
                set,
                #[trigger] rest[i],
                rest[i + 1],
            ) by {
                assert(forces(set, path[i + 1], path[i + 1 + 1]));
            }
            assert(is_forced_path(set, rest));
            assert(rest[0] == target && rest.last() == other);
        }
    }
}

/// The first unresolved edge is the first: every edge before it, from
/// `from` on, names a sibling, and it names none. Where none is found,
/// every edge from `from` on names a sibling.
pub proof fn lemma_first_unresolved(bucket: Seq<DefinitionModel>, from: int)
    requires
        0 <= from,
    ensures
        match first_unresolved(bucket, from) {
            Some(at) => {
                &&& from <= at < bucket.len()
                &&& !edge_resolved(bucket, at)
                &&& forall|k: int| from <= k < at ==> edge_resolved(bucket, k)
            },
            None => forall|k: int| from <= k < bucket.len() ==> edge_resolved(bucket, k),
        },
    decreases bucket.len() - from,
{
    if from < bucket.len() && edge_resolved(bucket, from) {
        lemma_first_unresolved(bucket, from + 1);
    }
}

} // verus!
