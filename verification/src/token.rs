//! Token trees as a tag carries them, and their flattening into the token
//! strings that the rest of the compiler reads.

use crate::text::Text;
use vstd::prelude::*;
use vstd::string::*;

verus! {

/// The brackets of a group.
#[derive(Clone, Copy, PartialEq, Eq, Structural, Debug)]
pub enum Delimiter {
    /// `(` and `)`.
    Parenthesis,
    /// `{` and `}`.
    Brace,
    /// `[` and `]`.
    Bracket,
    /// No brackets are written: the group only holds its tokens together.
    Invisible,
}

/// One token of a tag's argument list. A group is a bracketed run of
/// tokens, with the brackets it was written in.
#[derive(Debug, PartialEq, Eq)]
pub enum Token {
    Ident(String),
    Literal(String),
    Punct(String),
    Group(Delimiter, Vec<Token>),
}

/// The mathematical value of a [`Token`].
pub enum TokenModel {
    Ident(Text),
    Literal(Text),
    Punct(Text),
    Group(Delimiter, Seq<TokenModel>),
}

impl View for Token {
    type V = TokenModel;

    open spec fn view(&self) -> TokenModel
        decreases self,
    {
        match self {
            Token::Ident(text) => TokenModel::Ident(text@),
            Token::Literal(text) => TokenModel::Literal(text@),
            Token::Punct(text) => TokenModel::Punct(text@),
            Token::Group(delimiter, inner) => TokenModel::Group(
                *delimiter,
                Seq::new(
                    inner@.len(),
                    |i: int|
                        if 0 <= i < inner@.len() {
                            inner@[i].view()
                        } else {
                            TokenModel::Group(Delimiter::Invisible, Seq::<TokenModel>::empty())
                        },
                ),
            ),
        }
    }
}

impl DeepView for Token {
    type V = TokenModel;

    open spec fn deep_view(&self) -> TokenModel {
        self@
    }
}

/// The strings that open a group: its opening bracket, or nothing for an
/// invisible group.
pub open spec fn opening(delimiter: Delimiter) -> Seq<Text> {
    match delimiter {
        Delimiter::Parenthesis => seq!["("@],
        Delimiter::Brace => seq!["{"@],
        Delimiter::Bracket => seq!["["@],
        Delimiter::Invisible => Seq::<Text>::empty(),
    }
}

/// The strings that close a group: its closing bracket, or nothing for an
/// invisible group.
pub open spec fn closing(delimiter: Delimiter) -> Seq<Text> {
    match delimiter {
        Delimiter::Parenthesis => seq![")"@],
        Delimiter::Brace => seq!["}"@],
        Delimiter::Bracket => seq!["]"@],
        Delimiter::Invisible => Seq::<Text>::empty(),
    }
}

/// The strings of one token: its own text, or, for a group, its opening
/// bracket, the strings of the tokens inside it, and its closing bracket.
pub open spec fn token_strings(token: TokenModel) -> Seq<Text>
    decreases token, 1int,
{
    match token {
        TokenModel::Ident(text) => seq![text],
        TokenModel::Literal(text) => seq![text],
        TokenModel::Punct(text) => seq![text],
        TokenModel::Group(delimiter, inner) => opening(delimiter) + flatten(inner) + closing(
            delimiter,
        ),
    }
}

/// The strings of a run of tokens, left to right, every group between its
/// brackets.
pub open spec fn flatten(tokens: Seq<TokenModel>) -> Seq<Text>
    decreases tokens, 0int,
{
    if tokens.len() == 0 {
        Seq::<Text>::empty()
    } else {
        flatten(tokens.drop_last()) + token_strings(tokens.last())
    }
}

/// A group is forwarded with its brackets: the strings of a bracketed
/// group are longer by two than the strings of its content, begin with
/// the opening bracket and end with the closing one, so that a group and
/// its bare content never give the same strings.
pub proof fn lemma_group_keeps_its_brackets(delimiter: Delimiter, inner: Seq<TokenModel>)
    requires
        delimiter != Delimiter::Invisible,
    ensures
        token_strings(TokenModel::Group(delimiter, inner)).len() == flatten(inner).len() + 2,
        token_strings(TokenModel::Group(delimiter, inner)).first() == opening(delimiter)[0],
        token_strings(TokenModel::Group(delimiter, inner)).last() == closing(delimiter)[0],
        token_strings(TokenModel::Group(delimiter, inner)).subrange(
            1,
            flatten(inner).len() as int + 1,
        ) == flatten(inner),
        token_strings(TokenModel::Group(delimiter, inner)) != flatten(inner),
{
    let strings = token_strings(TokenModel::Group(delimiter, inner));
    assert(strings.subrange(1, flatten(inner).len() as int + 1) =~= flatten(inner));
}

/// The bracket strings of a delimiter, as text to push.
fn brackets(delimiter: Delimiter) -> (pair: Option<(&'static str, &'static str)>)
    ensures
        match pair {
            Some((open, close)) => opening(delimiter) == seq![open@] && closing(delimiter)
                == seq![close@],
            None => opening(delimiter) == Seq::<Text>::empty() && closing(delimiter)
                == Seq::<Text>::empty(),
        },
{
    match delimiter {
        Delimiter::Parenthesis => Some(("(", ")")),
        Delimiter::Brace => Some(("{", "}")),
        Delimiter::Bracket => Some(("[", "]")),
        Delimiter::Invisible => None,
    }
}

/// Flattens a run of tokens into strings: identifiers, literals and
/// punctuation give their text; a group gives its opening bracket, the
/// strings of its content, and its closing bracket.
pub fn tokens_to_strings(tokens: &Vec<Token>) -> (out: Vec<String>)
    ensures
        out.deep_view() == flatten(tokens.deep_view()),
    decreases tokens,
{
    let mut out: Vec<String> = Vec::new();
    let mut i: usize = 0;
    assert(tokens.deep_view().take(0) =~= Seq::<TokenModel>::empty());
    assert(out.deep_view() =~= Seq::<Text>::empty());
    while i < tokens.len()
        invariant
            i <= tokens.len(),
            out.deep_view() == flatten(tokens.deep_view().take(i as int)),
        decreases tokens.len() - i,
    {
        let ghost before = out.deep_view();
        proof {
            assert(tokens.deep_view().take(i + 1).drop_last() =~= tokens.deep_view().take(
                i as int,
            ));
            assert(tokens.deep_view().take(i + 1).last() == tokens[i as int]@);
            assert(flatten(tokens.deep_view().take(i + 1)) == before + token_strings(
                tokens[i as int]@,
            ));
        }
        match &tokens[i] {
            Token::Ident(text) => {
                out.push(text.clone());
                assert(token_strings(tokens[i as int]@) == seq![text@]);
                assert(out.deep_view() =~= before + seq![text@]);
            },
            Token::Literal(text) => {
                out.push(text.clone());
                assert(token_strings(tokens[i as int]@) == seq![text@]);
                assert(out.deep_view() =~= before + seq![text@]);
            },
            Token::Punct(text) => {
                out.push(text.clone());
                assert(token_strings(tokens[i as int]@) == seq![text@]);
                assert(out.deep_view() =~= before + seq![text@]);
            },
            Token::Group(delimiter, inner) => {
                let mut nested = tokens_to_strings(inner);
                let ghost added = nested.deep_view();
                assert(inner.deep_view() =~= tokens[i as int]@->Group_1);
                assert(token_strings(tokens[i as int]@) == opening(*delimiter) + flatten(
                    inner.deep_view(),
                ) + closing(*delimiter));
                match brackets(*delimiter) {
                    Some((open, close)) => {
                        out.push(String::from_str(open));
                        out.append(&mut nested);
                        out.push(String::from_str(close));
                        assert(out.deep_view() =~= before + (seq![open@] + added + seq![close@]));
                    },
                    None => {
                        out.append(&mut nested);
                        assert(out.deep_view() =~= before + (Seq::<Text>::empty() + added
                            + Seq::<Text>::empty()));
                    },
                }
            },
        }
        i += 1;
    }
    assert(tokens.deep_view().take(i as int) =~= tokens.deep_view());
    out
}

/// The token strings of a tag's argument list: those of its tokens if it
/// has a list, none if the tag stands bare.
pub fn meta_to_strings(list: &Option<Vec<Token>>) -> (out: Vec<String>)
    ensures
        out.deep_view() == match list {
            Some(tokens) => flatten(tokens.deep_view()),
            None => Seq::<Text>::empty(),
        },
{
    match list {
        Some(tokens) => tokens_to_strings(tokens),
        None => {
            let out: Vec<String> = Vec::new();
            assert(out.deep_view() =~= Seq::<Text>::empty());
            out
        },
    }
}

} // verus!
