//! What holds of every classification: a phase alias and its canonical
//! spelling are interchangeable, an ordering tag needs a scheduled system,
//! and a tag outside the grammar is never accepted.

use crate::classify::{
    apply_canonical, apply_each, apply_tag, is_known_tag, is_ordering_tag, DraftModel,
};
use crate::error::{CompileErrorModel, ErrorKind};
use crate::grammar::parse_phase;
use crate::kind::PhaseModel;
use crate::normalize::{alias_tokens, is_phase_alias, normalize};
use crate::systems::{classify, classify_from, initial_draft};
use crate::text::Text;
use crate::unit::{TagModel, UnitModel};
use vstd::prelude::*;

verus! {

/// Whether a written tag name is rewritten by the normaliser.
pub open spec fn is_alias(name: Text) -> bool {
    is_phase_alias(name) || name == "event"@ || name == "query"@ || name == "added"@ || name
        == "removed"@
}

/// Whether a written tag name belongs to the grammar of behaviour units,
/// in its canonical or in an older spelling.
pub open spec fn in_grammar(name: Text) -> bool {
    is_alias(name) || is_known_tag(name)
}

/// The tag names of the grammar are pairwise different words: what they
/// are is known from their lengths and their first two characters.
pub proof fn lemma_tag_names()
    ensures
        "system"@.len() == 6 && "system"@[0] == 's' && "system"@[1] == 'y',
        "priority"@.len() == 8,
        "before"@.len() == 6 && "before"@[0] == 'b' && "before"@[1] == 'e',
        "after"@.len() == 5 && "after"@[0] == 'a' && "after"@[1] == 'f',
        "pipe"@.len() == 4 && "pipe"@[0] == 'p',
        "startup"@.len() == 7 && "startup"@[0] == 's',
        "update"@.len() == 6 && "update"@[0] == 'u',
        "enter"@.len() == 5 && "enter"@[0] == 'e' && "enter"@[1] == 'n',
        "exit"@.len() == 4 && "exit"@[0] == 'e',
        "event"@.len() == 5 && "event"@[0] == 'e' && "event"@[1] == 'v',
        "query"@.len() == 5 && "query"@[0] == 'q',
        "added"@.len() == 5 && "added"@[0] == 'a' && "added"@[1] == 'd',
        "removed"@.len() == 7 && "removed"@[0] == 'r',
        "build"@.len() == 5 && "build"@[0] == 'b',
        "resource_factory"@.len() == 16,
        "resource_system"@.len() == 15,
        "trigger"@.len() == 7 && "trigger"@[0] == 't',
        "on"@.len() == 2,
{
    reveal_strlit("system");
    reveal_strlit("priority");
    reveal_strlit("before");
    reveal_strlit("after");
    reveal_strlit("pipe");
    reveal_strlit("startup");
    reveal_strlit("update");
    reveal_strlit("enter");
    reveal_strlit("exit");
    reveal_strlit("event");
    reveal_strlit("query");
    reveal_strlit("added");
    reveal_strlit("removed");
    reveal_strlit("build");
    reveal_strlit("resource_factory");
    reveal_strlit("resource_system");
    reveal_strlit("trigger");
    reveal_strlit("on");
}

/// The canonical tag names `system`, `priority`, `before`, `after` and
/// `pipe` are no aliases: the normaliser leaves such tags as they are.
pub proof fn lemma_canonical_names_are_no_aliases()
    ensures
        !is_alias("system"@),
        !is_alias("priority"@),
        !is_alias("before"@),
        !is_alias("after"@),
        !is_alias("pipe"@),
{
    lemma_tag_names();
}

/// Classifying a list of tags is classifying a first part of it and then,
/// from what that gave, the rest.
pub proof fn lemma_classify_split(draft: DraftModel, tags: Seq<TagModel>, at: int, unit: Text)
    requires
        0 <= at <= tags.len(),
    ensures
        classify_from(draft, tags, unit) == match classify_from(draft, tags.take(at), unit) {
            Err(error) => Err::<DraftModel, CompileErrorModel>(error),
            Ok(middle) => classify_from(middle, tags.skip(at), unit),
        },
    decreases at,
{
    if at == 0 {
        assert(tags.take(0) =~= Seq::<TagModel>::empty());
        assert(tags.skip(0) =~= tags);
    } else {
        assert(tags.take(at)[0] == tags[0]);
        assert(tags.take(at).drop_first() =~= tags.drop_first().take(at - 1));
        assert(tags.drop_first().skip(at - 1) =~= tags.skip(at));
        match apply_tag(draft, tags[0]) {
            Err(_) => {},
            Ok(next) => {
                lemma_classify_split(next, tags.drop_first(), at - 1, unit);
            },
        }
    }
}

/// Tag-alias equivalence, at one tag: on every draft, a phase alias does
/// what the `system` tag does that carries the alias's word and tokens.
pub proof fn lemma_alias_step(draft: DraftModel, alias: Text, tokens: Seq<Text>)
    requires
        is_phase_alias(alias),
    ensures
        apply_tag(draft, TagModel { name: alias, tokens }) == apply_tag(
            draft,
            TagModel { name: "system"@, tokens: alias_tokens(alias, tokens) },
        ),
{
    lemma_canonical_names_are_no_aliases();
    lemma_tag_names();
    let written = TagModel { name: alias, tokens };
    let canonical = TagModel { name: "system"@, tokens: alias_tokens(alias, tokens) };
    assert(alias != "query"@);
    assert(normalize(written, draft.queries) == seq![canonical]);
    assert(normalize(canonical, draft.queries) == seq![canonical]);
}

/// A state value is forwarded verbatim: the tokens written in `enter(X)`
/// or `exit(X)`, brackets and all, are the state value of the phase that
/// the canonical tag names.
pub proof fn lemma_state_value_is_forwarded_verbatim(value: Seq<Text>)
    requires
        value.len() > 0,
    ensures
        parse_phase(alias_tokens("enter"@, value)) == Some(PhaseModel::OnEnter(value)),
        parse_phase(alias_tokens("exit"@, value)) == Some(PhaseModel::OnExit(value)),
{
    lemma_tag_names();
    let entering = alias_tokens("enter"@, value);
    let leaving = alias_tokens("exit"@, value);
    assert(entering.skip(2) =~= value);
    assert(leaving.skip(2) =~= value);
    assert(entering[0] == "enter"@ && entering[1] == ","@);
    assert(leaving[0] == "exit"@ && leaving[1] == ","@);
}

/// Whether two classifications place a unit alike: the same draft, or a
/// failure of the same kind on the same declaration.
pub open spec fn same_placement(
    left: Result<DraftModel, CompileErrorModel>,
    right: Result<DraftModel, CompileErrorModel>,
) -> bool {
    match (left, right) {
        (Ok(a), Ok(b)) => a == b,
        (Err(a), Err(b)) => a.kind == b.kind && a.declaration == b.declaration,
        _ => false,
    }
}

/// Replacing one tag by a tag that does the same on every draft does not
/// change where the unit is placed.
pub proof fn lemma_replace_tag(
    draft: DraftModel,
    tags: Seq<TagModel>,
    at: int,
    other: TagModel,
    unit: Text,
)
    requires
        0 <= at < tags.len(),
        forall|any: DraftModel| apply_tag(any, tags[at]) == #[trigger] apply_tag(any, other),
    ensures
        same_placement(
            classify_from(draft, tags, unit),
            classify_from(draft, tags.update(at, other), unit),
        ),
    decreases at,
{
    let changed = tags.update(at, other);
    if at == 0 {
        assert(changed.drop_first() =~= tags.drop_first());
        assert(apply_tag(draft, tags[0]) == apply_tag(draft, other));
        match apply_tag(draft, other) {
            Err(_) => {},
            Ok(next) => {
                lemma_same_placement_reflexive(classify_from(next, tags.drop_first(), unit));
            },
        }
    } else {
        assert(changed[0] == tags[0]);
        assert(changed.drop_first() =~= tags.drop_first().update(at - 1, other));
        match apply_tag(draft, tags[0]) {
            Err(_) => {},
            Ok(next) => {
                lemma_replace_tag(next, tags.drop_first(), at - 1, other, unit);
            },
        }
    }
}

/// Every classification places a unit like itself.
pub proof fn lemma_same_placement_reflexive(outcome: Result<DraftModel, CompileErrorModel>)
    ensures
        same_placement(outcome, outcome),
{
}

/// Tag-alias equivalence: a unit on which `startup`, `update`, `enter(X)`
/// or `exit(X)` is written is classified exactly like the unit on which
/// `system(startup)`, `system(update)`, `system(enter, X)` or
/// `system(exit, X)` stands in its place: the same kind, phase, ordering,
/// parameters and layers, or a failure of the same kind.
pub proof fn lemma_alias_equivalence(unit: UnitModel, at: int)
    requires
        0 <= at < unit.tags.len(),
        is_phase_alias(unit.tags[at].name),
    ensures
        same_placement(
            classify(unit),
            classify(
                UnitModel {
                    tags: unit.tags.update(
                        at,
                        TagModel {
                            name: "system"@,
                            tokens: alias_tokens(unit.tags[at].name, unit.tags[at].tokens),
                        },
                    ),
                    ..unit
                },
            ),
        ),
{
    let written = unit.tags[at];
    let canonical = TagModel { name: "system"@, tokens: alias_tokens(written.name, written.tokens) };
    assert forall|any: DraftModel| apply_tag(any, written) == #[trigger] apply_tag(
        any,
        canonical,
    ) by {
        lemma_alias_step(any, written.name, written.tokens);
    }
    lemma_replace_tag(initial_draft(unit), unit.tags, at, canonical, unit.name);
}

/// An ordering tag on a draft that is no scheduled system is rejected,
/// whatever its tokens.
pub proof fn lemma_ordering_needs_system(draft: DraftModel, tag: TagModel)
    requires
        is_ordering_tag(tag.name),
        !(draft.kind is ScheduledSystem),
    ensures
        apply_tag(draft, tag) == Err::<DraftModel, ErrorKind>(ErrorKind::OrderingOnNonSystem),
{
    lemma_canonical_names_are_no_aliases();
    lemma_ordering_names();
    assert(normalize(tag, draft.queries) == seq![tag]);
    assert(seq![tag].drop_first() =~= Seq::<TagModel>::empty());
    assert(apply_canonical(draft, tag) == Err::<DraftModel, ErrorKind>(
        ErrorKind::OrderingOnNonSystem,
    ));
}

/// The four ordering names differ from the names of the kind-determining
/// tags.
pub proof fn lemma_ordering_names()
    ensures
        forall|name: Text|
            is_ordering_tag(name) ==> name != "build"@ && name != "resource_factory"@ && name
                != "resource_system"@ && name != "system"@,
{
    lemma_tag_names();
}

/// An ordering tag that follows tags which left the unit without a
/// scheduled phase fails the classification with `OrderingOnNonSystem`,
/// naming the unit and that tag. A unit that carries `priority(LOW)` and
/// no tag before it is the simplest case.
pub proof fn lemma_ordering_on_non_system(unit: UnitModel, at: int)
    requires
        0 <= at < unit.tags.len(),
        is_ordering_tag(unit.tags[at].name),
        classify_from(initial_draft(unit), unit.tags.take(at), unit.name) matches Ok(middle)
            && !(middle.kind is ScheduledSystem),
    ensures
        classify(unit) == Err::<DraftModel, CompileErrorModel>(
            CompileErrorModel {
                kind: ErrorKind::OrderingOnNonSystem,
                declaration: unit.name,
                tag: unit.tags[at].name,
            },
        ),
{
    lemma_classify_split(initial_draft(unit), unit.tags, at, unit.name);
    let middle = classify_from(initial_draft(unit), unit.tags.take(at), unit.name)->Ok_0;
    lemma_ordering_needs_system(middle, unit.tags[at]);
    assert(unit.tags.skip(at)[0] == unit.tags[at]);
}

/// Whether a written tag determines the kind of its unit: the five
/// kind-determining tags, and the older tags that stand for one of them.
pub open spec fn determines_kind(name: Text) -> bool {
    name == "build"@ || name == "resource_factory"@ || name == "resource_system"@ || name
        == "system"@ || name == "trigger"@ || is_phase_alias(name) || name == "event"@ || name
        == "added"@ || name == "removed"@
}

/// A kind-determining tag on a claimed draft is a duplicate, whatever its
/// tokens; on an unclaimed draft it fails or claims the draft.
pub proof fn lemma_kind_tag_claims(draft: DraftModel, tag: TagModel)
    requires
        determines_kind(tag.name),
    ensures
        draft.claimed ==> apply_tag(draft, tag) == Err::<DraftModel, ErrorKind>(
            ErrorKind::DuplicateClassification,
        ),
        apply_tag(draft, tag) matches Ok(next) ==> next.claimed,
{
    lemma_tag_names();
    let canonical = normalize(tag, draft.queries);
    let first = canonical[0];
    assert(first.name == "build"@ || first.name == "resource_factory"@ || first.name
        == "resource_system"@ || first.name == "system"@ || first.name == "trigger"@);
    assert(!is_ordering_tag(first.name));
    match apply_canonical(draft, first) {
        Err(_) => {},
        Ok(next) => {
            assert(next.claimed);
            lemma_claim_is_kept(next, canonical.drop_first());
        },
    }
}

/// A claimed draft stays claimed under every run of canonical tags.
pub proof fn lemma_claim_is_kept(draft: DraftModel, tags: Seq<TagModel>)
    requires
        draft.claimed,
    ensures
        apply_each(draft, tags) matches Ok(next) ==> next.claimed,
    decreases tags.len(),
{
    if tags.len() > 0 {
        match apply_canonical(draft, tags[0]) {
            Err(_) => {},
            Ok(next) => {
                lemma_claim_is_kept(next, tags.drop_first());
            },
        }
    }
}

/// Once a kind-determining tag was accepted, the unit stays claimed to
/// the end of its tags.
pub proof fn lemma_claimed_to_the_end(
    draft: DraftModel,
    tags: Seq<TagModel>,
    unit: Text,
    at: int,
)
    requires
        draft.claimed || (0 <= at < tags.len() && determines_kind(tags[at].name)),
    ensures
        classify_from(draft, tags, unit) matches Ok(last) ==> last.claimed,
    decreases tags.len(),
{
    if tags.len() > 0 {
        match apply_tag(draft, tags[0]) {
            Err(_) => {},
            Ok(next) => {
                if draft.claimed {
                    let counted = if tags[0].name == "query"@ {
                        DraftModel { queries: draft.queries + 1, ..draft }
                    } else {
                        draft
                    };
                    lemma_claim_is_kept(counted, normalize(tags[0], draft.queries));
                    lemma_claimed_to_the_end(next, tags.drop_first(), unit, 0);
                } else if at == 0 {
                    lemma_kind_tag_claims(draft, tags[0]);
                    lemma_claimed_to_the_end(next, tags.drop_first(), unit, 0);
                } else {
                    assert(tags.drop_first()[at - 1] == tags[at]);
                    lemma_claimed_to_the_end(next, tags.drop_first(), unit, at - 1);
                }
            },
        }
    }
}

/// More than one kind-determining tag on one unit is rejected: the
/// classification fails, and if the tags before the second one were
/// accepted it fails with `DuplicateClassification`, naming the unit and
/// that second tag. The later tag never wins.
pub proof fn lemma_second_kind_tag_is_rejected(unit: UnitModel, first: int, second: int)
    requires
        0 <= first < second < unit.tags.len(),
        determines_kind(unit.tags[first].name),
        determines_kind(unit.tags[second].name),
    ensures
        classify(unit) is Err,
        classify_from(initial_draft(unit), unit.tags.take(second), unit.name) is Ok ==> classify(
            unit,
        ) == Err::<DraftModel, CompileErrorModel>(
            CompileErrorModel {
                kind: ErrorKind::DuplicateClassification,
                declaration: unit.name,
                tag: unit.tags[second].name,
            },
        ),
{
    let start = initial_draft(unit);
    lemma_classify_split(start, unit.tags, second, unit.name);
    assert(unit.tags.skip(second)[0] == unit.tags[second]);
    assert(unit.tags.take(second)[first] == unit.tags[first]);
    match classify_from(start, unit.tags.take(second), unit.name) {
        Err(_) => {},
        Ok(middle) => {
            lemma_claimed_to_the_end(start, unit.tags.take(second), unit.name, first);
            lemma_kind_tag_claims(middle, unit.tags[second]);
        },
    }
}

/// A tag whose name is outside the grammar is rejected on every draft.
pub proof fn lemma_unknown_tag_step(draft: DraftModel, tag: TagModel)
    requires
        !in_grammar(tag.name),
    ensures
        apply_tag(draft, tag) == Err::<DraftModel, ErrorKind>(ErrorKind::UnknownTag),
{
    assert(normalize(tag, draft.queries) == seq![tag]);
    assert(seq![tag].drop_first() =~= Seq::<TagModel>::empty());
}

/// A unit that carries a tag outside the grammar is never classified: the
/// classification fails, and if the tags before the unknown one were
/// accepted it fails with `UnknownTag`, naming the unit and that tag.
pub proof fn lemma_unknown_tag_rejected(unit: UnitModel, at: int)
    requires
        0 <= at < unit.tags.len(),
        !in_grammar(unit.tags[at].name),
    ensures
        classify(unit) is Err,
        classify_from(initial_draft(unit), unit.tags.take(at), unit.name) is Ok ==> classify(unit)
            == Err::<DraftModel, CompileErrorModel>(
            CompileErrorModel {
                kind: ErrorKind::UnknownTag,
                declaration: unit.name,
                tag: unit.tags[at].name,
            },
        ),
{
    lemma_classify_split(initial_draft(unit), unit.tags, at, unit.name);
    assert(unit.tags.skip(at)[0] == unit.tags[at]);
    match classify_from(initial_draft(unit), unit.tags.take(at), unit.name) {
        Err(_) => {},
        Ok(middle) => {
            lemma_unknown_tag_step(middle, unit.tags[at]);
        },
    }
}

} // verus!
