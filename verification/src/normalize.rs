//! The attribute normaliser: rewrites the single-purpose tags of older
//! modules into the canonical tags that the classifier understands, so
//! that both spellings take one path.

use crate::text::{copy_texts, decimal, decimal_text, text_eq, Text};
use crate::unit::{Tag, TagModel};
use vstd::prelude::*;
use vstd::string::*;

verus! {

/// Whether `name` is one of the phase aliases `startup`, `update`, `enter`
/// and `exit`.
pub open spec fn is_phase_alias(name: Text) -> bool {
    name == "startup"@ || name == "update"@ || name == "enter"@ || name == "exit"@
}

/// The tokens of the canonical tag that stands for an alias: the alias's
/// own word, then, if the alias carried tokens, a comma and those tokens
/// unchanged.
pub open spec fn alias_tokens(word: Text, tokens: Seq<Text>) -> Seq<Text> {
    if tokens.len() == 0 {
        seq![word]
    } else {
        seq![word, ","@] + tokens
    }
}

/// The tokens that name an event kind of the host runtime: the path
/// `bevy::prelude::` followed by the kind's word.
pub open spec fn host_kind(word: Text) -> Seq<Text> {
    seq!["bevy"@, ":"@, ":"@, "prelude"@, ":"@, ":"@, word]
}

/// The canonical tags that one written tag stands for. `queries` is the
/// number of `query` tags met earlier on the same unit.
///
/// - `startup`, `update`, `enter(X)`, `exit(X)` become `system(startup)`,
///   `system(update)`, `system(enter, X)`, `system(exit, X)`;
/// - `event(E)` becomes `system(update)` followed by `event(E)` itself;
/// - the n-th `query(..)` becomes `query<n>(..)`;
/// - `added(C)` and `removed(C)` become `trigger(K, C)`, where `K` is the
///   host runtime's event kind `OnAdd` or `OnRemove`, by its path;
/// - every other tag stands for itself.
pub open spec fn normalize(tag: TagModel, queries: nat) -> Seq<TagModel> {
    if is_phase_alias(tag.name) {
        seq![TagModel { name: "system"@, tokens: alias_tokens(tag.name, tag.tokens) }]
    } else if tag.name == "event"@ {
        seq![TagModel { name: "system"@, tokens: seq!["update"@] }, tag]
    } else if tag.name == "query"@ {
        seq![TagModel { name: "query"@ + decimal_text(queries + 1), tokens: tag.tokens }]
    } else if tag.name == "added"@ {
        seq![
            TagModel { name: "trigger"@, tokens: host_kind("OnAdd"@).push(","@) + tag.tokens },
        ]
    } else if tag.name == "removed"@ {
        seq![
            TagModel { name: "trigger"@, tokens: host_kind("OnRemove"@).push(","@) + tag.tokens },
        ]
    } else {
        seq![tag]
    }
}

/// `lead`, a comma, and then a copy of `tokens`.
fn lead_tokens(lead: Vec<String>, tokens: &Vec<String>) -> (out: Vec<String>)
    ensures
        out.deep_view() == lead.deep_view().push(","@) + tokens.deep_view(),
{
    let mut out = lead;
    let ghost head = out.deep_view().push(","@);
    out.push(String::from_str(","));
    assert(out.deep_view() =~= head);
    let mut i: usize = 0;
    while i < tokens.len()
        invariant
            i <= tokens.len(),
            out.deep_view() == head + tokens.deep_view().take(i as int),
        decreases tokens.len() - i,
    {
        let ghost before = out.deep_view();
        out.push(tokens[i].clone());
        assert(out.deep_view() =~= before.push(tokens[i as int]@));
        assert(tokens.deep_view().take(i + 1) =~= tokens.deep_view().take(i as int).push(
            tokens[i as int]@,
        ));
        assert(out.deep_view() =~= head + tokens.deep_view().take(i + 1));
        i += 1;
    }
    assert(tokens.deep_view().take(i as int) =~= tokens.deep_view());
    out
}

/// The tokens that name an event kind of the host runtime.
fn host_tokens(word: &str) -> (out: Vec<String>)
    ensures
        out.deep_view() == host_kind(word@),
{
    let mut out: Vec<String> = Vec::new();
    out.push(String::from_str("bevy"));
    out.push(String::from_str(":"));
    out.push(String::from_str(":"));
    out.push(String::from_str("prelude"));
    out.push(String::from_str(":"));
    out.push(String::from_str(":"));
    out.push(String::from_str(word));
    assert(out.deep_view() =~= host_kind(word@));
    out
}

/// A tag named `name` with the given tokens.
fn make_tag(name: &str, tokens: Vec<String>) -> (tag: Tag)
    ensures
        tag@ == (TagModel { name: name@, tokens: tokens.deep_view() }),
{
    Tag { name: String::from_str(name), tokens }
}

/// Rewrites one written tag into the canonical tags it stands for.
pub fn normalize_tag(tag: &Tag, queries: usize) -> (out: Vec<Tag>)
    requires
        queries < usize::MAX,
    ensures
        out.deep_view() == normalize(tag@, queries as nat),
{
    let name = tag.name.as_str();
    let mut out: Vec<Tag> = Vec::new();
    if text_eq(name, "startup") || text_eq(name, "update") || text_eq(name, "enter") || text_eq(
        name,
        "exit",
    ) {
        let tokens = if tag.tokens.len() == 0 {
            let mut only: Vec<String> = Vec::new();
            only.push(tag.name.clone());
            assert(only.deep_view() =~= seq![tag.name@]);
            only
        } else {
            let mut lead: Vec<String> = Vec::new();
            lead.push(tag.name.clone());
            assert(lead.deep_view() =~= seq![tag.name@]);
            let tokens = lead_tokens(lead, &tag.tokens);
            assert(tokens.deep_view() =~= seq![tag.name@, ","@] + tag.tokens.deep_view());
            tokens
        };
        out.push(make_tag("system", tokens));
    } else if text_eq(name, "event") {
        let mut update: Vec<String> = Vec::new();
        update.push(String::from_str("update"));
        assert(update.deep_view() =~= seq!["update"@]);
        out.push(make_tag("system", update));
        out.push(tag.duplicate());
    } else if text_eq(name, "query") {
        let mut numbered = String::from_str("query");
        numbered.append(decimal(queries + 1).as_str());
        out.push(Tag { name: numbered, tokens: copy_texts(&tag.tokens) });
    } else if text_eq(name, "added") {
        out.push(make_tag("trigger", lead_tokens(host_tokens("OnAdd"), &tag.tokens)));
    } else if text_eq(name, "removed") {
        out.push(make_tag("trigger", lead_tokens(host_tokens("OnRemove"), &tag.tokens)));
    } else {
        out.push(tag.duplicate());
    }
    assert(out.deep_view() =~= normalize(tag@, queries as nat));
    out
}

} // verus!
