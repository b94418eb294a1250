//! What holds of token groups under the grammar: a bracketed group stays
//! whole, with its brackets and everything inside them, in one element of
//! a comma-separated list.

use crate::grammar::{is_closing, is_opening, open_brackets, split_groups};
use crate::text::Text;
use crate::token::{closing, flatten, opening, token_strings, Delimiter, TokenModel};
use vstd::prelude::*;

verus! {

/// Whether no identifier, literal or punctuation of a token is itself a
/// bracket: brackets come from groups alone.
pub open spec fn is_plain(token: TokenModel) -> bool
    decreases token, 1int,
{
    match token {
        TokenModel::Ident(text) => !is_opening(text) && !is_closing(text),
        TokenModel::Literal(text) => !is_opening(text) && !is_closing(text),
        TokenModel::Punct(text) => !is_opening(text) && !is_closing(text),
        TokenModel::Group(_, inner) => all_plain(inner),
    }
}

/// Whether every token of a run is plain.
pub open spec fn all_plain(tokens: Seq<TokenModel>) -> bool
    decreases tokens, 0int,
{
    if tokens.len() == 0 {
        true
    } else {
        all_plain(tokens.drop_last()) && is_plain(tokens.last())
    }
}

/// The groups after `strings` were added to the end of the last group.
pub open spec fn last_extended(groups: Seq<Seq<Text>>, strings: Seq<Text>) -> Seq<Seq<Text>> {
    groups.drop_last().push(groups.last() + strings)
}

/// The seven strings of brackets and comma are pairwise different.
pub proof fn lemma_bracket_strings()
    ensures
        !is_opening(","@) && !is_closing(","@),
        forall|text: Text| is_opening(text) ==> !is_closing(text) && text != ","@,
        forall|text: Text| is_closing(text) ==> text != ","@,
{
    reveal_strlit("(");
    reveal_strlit(")");
    reveal_strlit("[");
    reveal_strlit("]");
    reveal_strlit("{");
    reveal_strlit("}");
    reveal_strlit(",");
    assert("("@[0] == '(' && ")"@[0] == ')' && "["@[0] == '[' && "]"@[0] == ']');
    assert("{"@[0] == '{' && "}"@[0] == '}' && ","@[0] == ',');
}

/// A split always yields at least one group.
pub proof fn lemma_split_is_not_empty(tokens: Seq<Text>)
    ensures
        split_groups(tokens).len() >= 1,
    decreases tokens.len(),
{
    if tokens.len() > 0 {
        lemma_split_is_not_empty(tokens.drop_last());
    }
}

/// One more string that separates nothing joins the last group: a string
/// that is no comma, or any string while a bracket stands open.
pub proof fn lemma_one_more_string(before: Seq<Text>, text: Text)
    requires
        text != ","@ || open_brackets(before) > 0,
    ensures
        split_groups(before.push(text)) == last_extended(split_groups(before), seq![text]),
        split_groups(before + seq![text]) == last_extended(split_groups(before), seq![text]),
{
    lemma_split_is_not_empty(before);
    assert(before.push(text).drop_last() =~= before);
    assert(before + seq![text] =~= before.push(text));
    let groups = split_groups(before);
    assert(groups.last().push(text) =~= groups.last() + seq![text]);
}

/// How one more string moves the count of open brackets.
pub proof fn lemma_one_more_bracket(before: Seq<Text>, text: Text)
    ensures
        open_brackets(before.push(text)) == if is_opening(text) {
            open_brackets(before) + 1
        } else if is_closing(text) && open_brackets(before) > 0 {
            (open_brackets(before) - 1) as nat
        } else {
            open_brackets(before)
        },
{
    assert(before.push(text).drop_last() =~= before);
}

/// Inside an open bracket, one plain token separates nothing and leaves
/// the count of open brackets as it was.
pub proof fn lemma_token_inside(before: Seq<Text>, token: TokenModel)
    requires
        is_plain(token),
        open_brackets(before) > 0,
    ensures
        open_brackets(before + token_strings(token)) == open_brackets(before),
        split_groups(before + token_strings(token)) == last_extended(
            split_groups(before),
            token_strings(token),
        ),
    decreases token, 1int,
{
    lemma_bracket_strings();
    lemma_split_is_not_empty(before);
    match token {
        TokenModel::Group(delimiter, inner) => {
            if delimiter == Delimiter::Invisible {
                lemma_tokens_inside(before, inner);
                assert(token_strings(token) =~= flatten(inner));
            } else {
                lemma_bracketed(before, delimiter, inner);
            }
        },
        _ => {
            let text = token_strings(token)[0];
            assert(token_strings(token) =~= seq![text]);
            lemma_one_more_string(before, text);
            lemma_one_more_bracket(before, text);
            assert(before + seq![text] =~= before.push(text));
        },
    }
}

/// Inside an open bracket, a run of plain tokens separates nothing and
/// leaves the count of open brackets as it was.
pub proof fn lemma_tokens_inside(before: Seq<Text>, tokens: Seq<TokenModel>)
    requires
        all_plain(tokens),
        open_brackets(before) > 0,
    ensures
        open_brackets(before + flatten(tokens)) == open_brackets(before),
        split_groups(before + flatten(tokens)) == last_extended(
            split_groups(before),
            flatten(tokens),
        ),
    decreases tokens, 0int,
{
    lemma_split_is_not_empty(before);
    let groups = split_groups(before);
    if tokens.len() == 0 {
        assert(before + flatten(tokens) =~= before);
        assert(groups.last() + flatten(tokens) =~= groups.last());
        assert(last_extended(groups, flatten(tokens)) =~= groups);
    } else {
        let head = flatten(tokens.drop_last());
        let tail = token_strings(tokens.last());
        lemma_tokens_inside(before, tokens.drop_last());
        lemma_token_inside(before + head, tokens.last());
        assert(before + flatten(tokens) =~= (before + head) + tail);
        let middle = last_extended(groups, head);
        assert(middle.drop_last() =~= groups.drop_last());
        assert(middle.last() + tail =~= groups.last() + (head + tail));
        assert(last_extended(middle, tail) =~= last_extended(groups, head + tail));
    }
}

/// The strings of a bracketed group of plain tokens, added behind any
/// tokens, separate nothing and leave the count of open brackets as it
/// was.
proof fn lemma_bracketed(before: Seq<Text>, delimiter: Delimiter, inner: Seq<TokenModel>)
    requires
        delimiter != Delimiter::Invisible,
        all_plain(inner),
    ensures
        open_brackets(before + token_strings(TokenModel::Group(delimiter, inner)))
            == open_brackets(before),
        split_groups(before + token_strings(TokenModel::Group(delimiter, inner)))
            == last_extended(
            split_groups(before),
            token_strings(TokenModel::Group(delimiter, inner)),
        ),
    decreases TokenModel::Group(delimiter, inner), 0int,
{
    lemma_bracket_strings();
    lemma_split_is_not_empty(before);
    let open = opening(delimiter)[0];
    let close = closing(delimiter)[0];
    let content = flatten(inner);
    let strings = token_strings(TokenModel::Group(delimiter, inner));
    let groups = split_groups(before);
    assert(is_opening(open) && is_closing(close));
    assert(strings =~= seq![open] + content + seq![close]);
    let opened = before.push(open);
    lemma_one_more_string(before, open);
    lemma_one_more_bracket(before, open);
    lemma_tokens_inside(opened, inner);
    let filled = opened + content;
    lemma_one_more_string(filled, close);
    lemma_one_more_bracket(filled, close);
    assert(before + strings =~= filled.push(close));
    let first = last_extended(groups, seq![open]);
    assert(first.drop_last() =~= groups.drop_last());
    let second = last_extended(first, content);
    assert(second.drop_last() =~= groups.drop_last());
    assert(second.last() =~= groups.last() + (seq![open] + content));
    assert(second.last() + seq![close] =~= groups.last() + strings);
    assert(last_extended(second, seq![close]) =~= last_extended(groups, strings));
}

/// A bracketed group stays whole: wherever it stands in a list of tokens,
/// its strings, from its opening bracket through the commas inside it to
/// its closing bracket, all join the element of the list that was being
/// read, and the list goes on as if nothing had been opened. So a state
/// value, a trigger type or a query element that holds a group is
/// forwarded with the group inside it.
pub proof fn lemma_group_stays_whole(
    before: Seq<Text>,
    delimiter: Delimiter,
    inner: Seq<TokenModel>,
)
    requires
        delimiter != Delimiter::Invisible,
        all_plain(inner),
    ensures
        split_groups(before + token_strings(TokenModel::Group(delimiter, inner)))
            == last_extended(
            split_groups(before),
            token_strings(TokenModel::Group(delimiter, inner)),
        ),
        split_groups(before + token_strings(TokenModel::Group(delimiter, inner))).len()
            == split_groups(before).len(),
        open_brackets(before + token_strings(TokenModel::Group(delimiter, inner)))
            == open_brackets(before),
{
    lemma_bracketed(before, delimiter, inner);
    lemma_split_is_not_empty(before);
}

} // verus!
