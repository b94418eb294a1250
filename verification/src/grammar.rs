//! The tag grammar at the level of tokens: comma-separated groups, phases,
//! ranks, query names, and the vocabulary that tells a query's filters
//! from what it selects.

use crate::kind::{PhaseExpr, PhaseModel, Rank};
use crate::text::{copy_range, parse_number, read_number, text_eq, is_digit, Text};
use vstd::prelude::*;
use vstd::string::*;

verus! {

/// Whether a token string is an opening bracket.
pub open spec fn is_opening(token: Text) -> bool {
    token == "("@ || token == "["@ || token == "{"@
}

/// Whether a token string is a closing bracket.
pub open spec fn is_closing(token: Text) -> bool {
    token == ")"@ || token == "]"@ || token == "}"@
}

/// How many brackets stand open behind the last token of a list. A
/// closing bracket that closes nothing is passed over.
pub open spec fn open_brackets(tokens: Seq<Text>) -> nat
    decreases tokens.len(),
{
    if tokens.len() == 0 {
        0
    } else {
        let before = open_brackets(tokens.drop_last());
        if is_opening(tokens.last()) {
            before + 1
        } else if is_closing(tokens.last()) && before > 0 {
            (before - 1) as nat
        } else {
            before
        }
    }
}

/// The groups that the commas of a token list separate, in order. Only a
/// comma outside all brackets separates: a bracketed run stays whole, with
/// its brackets and the commas inside it. A list with n such commas has
/// n + 1 groups, some of them possibly empty.
pub open spec fn split_groups(tokens: Seq<Text>) -> Seq<Seq<Text>>
    decreases tokens.len(),
{
    if tokens.len() == 0 {
        seq![Seq::<Text>::empty()]
    } else {
        let before = split_groups(tokens.drop_last());
        if tokens.last() == ","@ && open_brackets(tokens.drop_last()) == 0 {
            before.push(Seq::<Text>::empty())
        } else {
            before.drop_last().push(before.last().push(tokens.last()))
        }
    }
}

/// No more brackets stand open than tokens were read.
pub proof fn lemma_open_brackets_bound(tokens: Seq<Text>)
    ensures
        open_brackets(tokens) <= tokens.len(),
    decreases tokens.len(),
{
    if tokens.len() > 0 {
        lemma_open_brackets_bound(tokens.drop_last());
    }
}

/// Splits a token list at its commas outside brackets.
pub fn split_at_commas(tokens: &Vec<String>) -> (groups: Vec<Vec<String>>)
    ensures
        groups.deep_view() == split_groups(tokens.deep_view()),
{
    let mut groups: Vec<Vec<String>> = Vec::new();
    let mut current: Vec<String> = Vec::new();
    let mut open: usize = 0;
    let mut i: usize = 0;
    assert(tokens.deep_view().take(0) =~= Seq::<Text>::empty());
    assert(current.deep_view() =~= Seq::<Text>::empty());
    assert(groups.deep_view().push(current.deep_view()) =~= seq![Seq::<Text>::empty()]);
    while i < tokens.len()
        invariant
            i <= tokens.len(),
            open == open_brackets(tokens.deep_view().take(i as int)),
            groups.deep_view().push(current.deep_view()) == split_groups(
                tokens.deep_view().take(i as int),
            ),
        decreases tokens.len() - i,
    {
        let ghost before = groups.deep_view().push(current.deep_view());
        let ghost old_groups = groups.deep_view();
        let ghost old_current = current.deep_view();
        proof {
            assert(tokens.deep_view().take(i + 1).drop_last() =~= tokens.deep_view().take(
                i as int,
            ));
            assert(tokens.deep_view().take(i + 1).last() == tokens[i as int]@);
            assert(before.drop_last() =~= old_groups);
            assert(before.last() == old_current);
            lemma_open_brackets_bound(tokens.deep_view().take(i as int));
        }
        let token = tokens[i].as_str();
        if text_eq(token, ",") && open == 0 {
            groups.push(current);
            current = Vec::new();
            assert(groups.deep_view() =~= before);
            assert(current.deep_view() =~= Seq::<Text>::empty());
        } else {
            current.push(tokens[i].clone());
            assert(current.deep_view() =~= old_current.push(tokens[i as int]@));
        }
        if text_eq(token, "(") || text_eq(token, "[") || text_eq(token, "{") {
            open = open + 1;
        } else if (text_eq(token, ")") || text_eq(token, "]") || text_eq(token, "}")) && open > 0 {
            open = open - 1;
        }
        i += 1;
    }
    assert(tokens.deep_view().take(i as int) =~= tokens.deep_view());
    let ghost all = groups.deep_view().push(current.deep_view());
    groups.push(current);
    assert(groups.deep_view() =~= all);
    groups
}

/// Whether every group holds at least one token.
pub open spec fn all_groups_filled(groups: Seq<Seq<Text>>) -> bool {
    forall|i: int| 0 <= i < groups.len() ==> (#[trigger] groups[i]).len() > 0
}

/// Whether every group of `groups` holds at least one token.
pub fn groups_filled(groups: &Vec<Vec<String>>) -> (filled: bool)
    ensures
        filled == all_groups_filled(groups.deep_view()),
{
    let mut i: usize = 0;
    while i < groups.len()
        invariant
            i <= groups.len(),
            forall|k: int| 0 <= k < i ==> (#[trigger] groups.deep_view()[k]).len() > 0,
        decreases groups.len() - i,
    {
        if groups[i].len() == 0 {
            assert(groups.deep_view()[i as int].len() == 0);
            return false;
        }
        assert(groups.deep_view()[i as int].len() == groups[i as int].len());
        i += 1;
    }
    true
}

/// The words that open a filter element of a query.
pub open spec fn is_filter_word(word: Text) -> bool {
    word == "With"@ || word == "Without"@ || word == "Added"@ || word == "Removed"@ || word
        == "Changed"@
}

/// Whether a query element is a filter: one of the filter words followed
/// by an opening angle bracket.
pub open spec fn is_filter_group(group: Seq<Text>) -> bool {
    group.len() >= 2 && is_filter_word(group[0]) && group[1] == "<"@
}

/// Whether a query element is a filter.
pub fn filter_group(group: &Vec<String>) -> (is_filter: bool)
    ensures
        is_filter == is_filter_group(group.deep_view()),
{
    if group.len() < 2 {
        return false;
    }
    assert(group.deep_view()[0] == group[0]@);
    assert(group.deep_view()[1] == group[1]@);
    let word = group[0].as_str();
    let known = text_eq(word, "With") || text_eq(word, "Without") || text_eq(word, "Added")
        || text_eq(word, "Removed") || text_eq(word, "Changed");
    known && text_eq(group[1].as_str(), "<")
}

/// Whether a query element takes a mutable reference at position `at`: the
/// token `&` directly followed by the token `mut`.
pub open spec fn mutable_at(group: Seq<Text>, at: int) -> bool {
    0 <= at && at + 1 < group.len() && group[at] == "&"@ && group[at + 1] == "mut"@
}

/// Whether a query element takes a mutable reference anywhere.
pub open spec fn is_mutable_group(group: Seq<Text>) -> bool {
    exists|at: int| mutable_at(group, at)
}

/// Whether a query element takes a mutable reference anywhere.
pub fn mutable_group(group: &Vec<String>) -> (mutable: bool)
    ensures
        mutable == is_mutable_group(group.deep_view()),
{
    let n = group.len();
    if n < 2 {
        assert(forall|at: int| !mutable_at(group.deep_view(), at));
        return false;
    }
    let mut i: usize = 0;
    while i < n - 1
        invariant
            i <= n - 1,
            n == group.len(),
            n >= 2,
            forall|at: int| 0 <= at < i ==> !mutable_at(group.deep_view(), at),
        decreases n - i,
    {
        assert(group.deep_view()[i as int] == group[i as int]@);
        assert(group.deep_view()[i + 1] == group[i + 1]@);
        if text_eq(group[i].as_str(), "&") && text_eq(group[i + 1].as_str(), "mut") {
            assert(mutable_at(group.deep_view(), i as int));
            return true;
        }
        i += 1;
    }
    assert(forall|at: int| !mutable_at(group.deep_view(), at));
    false
}

/// Whether any of the groups takes a mutable reference.
pub open spec fn any_mutable(groups: Seq<Seq<Text>>) -> bool {
    exists|i: int| 0 <= i < groups.len() && is_mutable_group(#[trigger] groups[i])
}

/// Whether any of the groups takes a mutable reference.
pub fn some_mutable(groups: &Vec<Vec<String>>) -> (mutable: bool)
    ensures
        mutable == any_mutable(groups.deep_view()),
{
    let mut i: usize = 0;
    while i < groups.len()
        invariant
            i <= groups.len(),
            forall|k: int| 0 <= k < i ==> !is_mutable_group(#[trigger] groups.deep_view()[k]),
        decreases groups.len() - i,
    {
        assert(groups.deep_view()[i as int] == groups[i as int].deep_view());
        if mutable_group(&groups[i]) {
            return true;
        }
        i += 1;
    }
    false
}

/// The groups that are filters (`filters` true) or that are not (`filters`
/// false), in their order.
pub open spec fn select_groups(groups: Seq<Seq<Text>>, filters: bool) -> Seq<Seq<Text>>
    decreases groups.len(),
{
    if groups.len() == 0 {
        Seq::<Seq<Text>>::empty()
    } else {
        let before = select_groups(groups.drop_last(), filters);
        if is_filter_group(groups.last()) == filters {
            before.push(groups.last())
        } else {
            before
        }
    }
}

/// Copies out the filter elements, or the other elements, of a query.
pub fn pick_groups(groups: &Vec<Vec<String>>, filters: bool) -> (out: Vec<Vec<String>>)
    ensures
        out.deep_view() == select_groups(groups.deep_view(), filters),
{
    let mut out: Vec<Vec<String>> = Vec::new();
    let mut i: usize = 0;
    assert(groups.deep_view().take(0) =~= Seq::<Seq<Text>>::empty());
    assert(out.deep_view() =~= Seq::<Seq<Text>>::empty());
    while i < groups.len()
        invariant
            i <= groups.len(),
            out.deep_view() == select_groups(groups.deep_view().take(i as int), filters),
        decreases groups.len() - i,
    {
        let ghost before = out.deep_view();
        proof {
            assert(groups.deep_view().take(i + 1).drop_last() =~= groups.deep_view().take(
                i as int,
            ));
            assert(groups.deep_view().take(i + 1).last() == groups[i as int].deep_view());
        }
        if filter_group(&groups[i]) == filters {
            let group = &groups[i];
            out.push(copy_range(group, 0, group.len()));
            assert(group.deep_view().subrange(0, group.len() as int) =~= group.deep_view());
            assert(out.deep_view() =~= before.push(group.deep_view()));
        }
        i += 1;
    }
    assert(groups.deep_view().take(i as int) =~= groups.deep_view());
    out
}

/// The phase that the tokens of a `system` tag name: `startup`, `update`,
/// or `enter` / `exit` followed by a comma and a state value of at least
/// one token.
pub open spec fn parse_phase(tokens: Seq<Text>) -> Option<PhaseModel> {
    if tokens.len() == 1 && tokens[0] == "startup"@ {
        Some(PhaseModel::Startup)
    } else if tokens.len() == 1 && tokens[0] == "update"@ {
        Some(PhaseModel::Update)
    } else if tokens.len() >= 3 && tokens[0] == "enter"@ && tokens[1] == ","@ {
        Some(PhaseModel::OnEnter(tokens.skip(2)))
    } else if tokens.len() >= 3 && tokens[0] == "exit"@ && tokens[1] == ","@ {
        Some(PhaseModel::OnExit(tokens.skip(2)))
    } else {
        None
    }
}

/// Reads the phase from the tokens of a `system` tag.
pub fn read_phase(tokens: &Vec<String>) -> (phase: Option<PhaseExpr>)
    ensures
        match phase {
            Some(p) => parse_phase(tokens.deep_view()) == Some(p@),
            None => parse_phase(tokens.deep_view()) is None,
        },
{
    let n = tokens.len();
    if n == 0 {
        return None;
    }
    assert(tokens.deep_view()[0] == tokens[0]@);
    let head = tokens[0].as_str();
    if n == 1 {
        if text_eq(head, "startup") {
            Some(PhaseExpr::Startup)
        } else if text_eq(head, "update") {
            Some(PhaseExpr::Update)
        } else {
            None
        }
    } else if n >= 3 {
        assert(tokens.deep_view()[1] == tokens[1]@);
        if !text_eq(tokens[1].as_str(), ",") {
            return None;
        }
        assert(tokens.deep_view().subrange(2, n as int) =~= tokens.deep_view().skip(2));
        if text_eq(head, "enter") {
            Some(PhaseExpr::OnEnter(copy_range(tokens, 2, n)))
        } else if text_eq(head, "exit") {
            Some(PhaseExpr::OnExit(copy_range(tokens, 2, n)))
        } else {
            None
        }
    } else {
        None
    }
}

/// The rank that the tokens of a `priority` tag name: one of the five
/// level words, or `CUSTOM`, a comma and a decimal number of 32 bits.
pub open spec fn parse_rank(tokens: Seq<Text>) -> Option<Rank> {
    if tokens.len() == 1 && tokens[0] == "LOWEST"@ {
        Some(Rank::Lowest)
    } else if tokens.len() == 1 && tokens[0] == "LOW"@ {
        Some(Rank::Low)
    } else if tokens.len() == 1 && tokens[0] == "NORMAL"@ {
        Some(Rank::Normal)
    } else if tokens.len() == 1 && tokens[0] == "HIGH"@ {
        Some(Rank::High)
    } else if tokens.len() == 1 && tokens[0] == "HIGHEST"@ {
        Some(Rank::Highest)
    } else if tokens.len() == 3 && tokens[0] == "CUSTOM"@ && tokens[1] == ","@ {
        match parse_number(tokens[2]) {
            Some(n) => Some(Rank::Custom(n)),
            None => None,
        }
    } else {
        None
    }
}

/// Reads the rank from the tokens of a `priority` tag.
pub fn read_rank(tokens: &Vec<String>) -> (rank: Option<Rank>)
    ensures
        rank == parse_rank(tokens.deep_view()),
{
    let n = tokens.len();
    if n == 1 {
        assert(tokens.deep_view()[0] == tokens[0]@);
        let word = tokens[0].as_str();
        if text_eq(word, "LOWEST") {
            Some(Rank::Lowest)
        } else if text_eq(word, "LOW") {
            Some(Rank::Low)
        } else if text_eq(word, "NORMAL") {
            Some(Rank::Normal)
        } else if text_eq(word, "HIGH") {
            Some(Rank::High)
        } else if text_eq(word, "HIGHEST") {
            Some(Rank::Highest)
        } else {
            None
        }
    } else if n == 3 {
        assert(tokens.deep_view()[0] == tokens[0]@);
        assert(tokens.deep_view()[1] == tokens[1]@);
        assert(tokens.deep_view()[2] == tokens[2]@);
        if text_eq(tokens[0].as_str(), "CUSTOM") && text_eq(tokens[1].as_str(), ",") {
            match read_number(tokens[2].as_str()) {
                Some(value) => Some(Rank::Custom(value)),
                None => None,
            }
        } else {
            None
        }
    } else {
        None
    }
}

/// Whether a tag name is a numbered query: `query` followed by one or more
/// decimal digits.
pub open spec fn is_query_name(name: Text) -> bool {
    &&& name.len() > 5
    &&& name.take(5) == "query"@
    &&& forall|i: int| 5 <= i < name.len() ==> is_digit(#[trigger] name[i])
}

/// Whether a tag name is a numbered query.
pub fn query_name(name: &str) -> (numbered: bool)
    ensures
        numbered == is_query_name(name@),
{
    let n = name.unicode_len();
    if n <= 5 {
        return false;
    }
    let head = name.substring_char(0, 5);
    assert(name@.subrange(0, 5) =~= name@.take(5));
    if !text_eq(head, "query") {
        return false;
    }
    let mut i: usize = 5;
    while i < n
        invariant
            5 <= i <= n,
            n == name@.len(),
            forall|k: int| 5 <= k < i ==> is_digit(#[trigger] name@[k]),
        decreases n - i,
    {
        let c = name.get_char(i);
        let digit = c == '0' || c == '1' || c == '2' || c == '3' || c == '4' || c == '5' || c
            == '6' || c == '7' || c == '8' || c == '9';
        if !digit {
            assert(!is_digit(name@[i as int]));
            return false;
        }
        i += 1;
    }
    true
}

} // verus!
