//! Text helpers shared by every stage: comparison, copying and spelling
//! of token strings, decimal numbers, and the conversion of case.

use convert_case::{Case, Casing};
use vstd::prelude::*;
use vstd::string::*;

verus! {

/// The characters of a piece of text.
pub type Text = Seq<char>;

/// The snake-case spelling that `convert_case` gives to a piece of text.
pub uninterp spec fn snake_case(text: Seq<char>) -> Seq<char>;

/// Calls `convert_case::Casing::to_case` with `Case::Snake`. The conversion
/// never fails and depends on the characters of its argument alone; the
/// result is known to proofs only as `snake_case` of those characters.
#[verifier::external_body]
pub(crate) fn to_snake_case(text: &str) -> (out: String)
    ensures
        out@ == snake_case(text@),
{
    text.to_case(Case::Snake)
}

/// The upper-case mapping that the standard library gives to a character:
/// one or more characters.
pub uninterp spec fn upper_mapping(c: char) -> Seq<char>;

/// Calls `char::to_uppercase` and collects what it yields. The standard
/// library documents that this is one or more characters: the upper-case
/// mapping of `c`, or `c` itself where it has none. Proofs know the result
/// only as `upper_mapping` of the character.
#[verifier::external_body]
pub(crate) fn to_upper_mapping(c: char) -> (out: Vec<char>)
    ensures
        out@ == upper_mapping(c),
        out@.len() >= 1,
{
    c.to_uppercase().collect()
}

/// The first character of the upper-case mapping of a character.
pub open spec fn upper_initial(c: char) -> char {
    upper_mapping(c)[0]
}

/// The first character of the upper-case mapping of `c`.
pub fn to_upper_initial(c: char) -> (out: char)
    ensures
        out == upper_initial(c),
{
    let mapping = to_upper_mapping(c);
    mapping[0]
}

/// Calls `String::push`, which appends one character to the end of the
/// string.
#[verifier::external_body]
pub(crate) fn push_char(text: &mut String, c: char)
    ensures
        final(text)@ == old(text)@.push(c),
{
    text.push(c)
}

/// Whether two pieces of text hold the same characters.
pub fn text_eq(a: &str, b: &str) -> (same: bool)
    ensures
        same == (a@ == b@),
{
    let x = String::from_str(a);
    let y = String::from_str(b);
    x == y
}

/// A fresh copy of the strings of `texts` from index `from` up to, not
/// including, index `to`.
pub fn copy_range(texts: &Vec<String>, from: usize, to: usize) -> (out: Vec<String>)
    requires
        from <= to <= texts.len(),
    ensures
        out.deep_view() == texts.deep_view().subrange(from as int, to as int),
{
    let mut out: Vec<String> = Vec::new();
    let mut i: usize = from;
    while i < to
        invariant
            from <= i <= to <= texts.len(),
            out.len() == i - from,
            forall|k: int| 0 <= k < out.len() ==> out[k]@ == texts[from + k]@,
        decreases to - i,
    {
        out.push(texts[i].clone());
        i += 1;
    }
    assert(out.deep_view() =~= texts.deep_view().subrange(from as int, to as int));
    out
}

/// A fresh copy of every string of `texts`, in order.
pub fn copy_texts(texts: &Vec<String>) -> (out: Vec<String>)
    ensures
        out.deep_view() == texts.deep_view(),
{
    let out = copy_range(texts, 0, texts.len());
    assert(texts.deep_view().subrange(0, texts.len() as int) =~= texts.deep_view());
    out
}

/// Whether two token lists hold the same strings in the same order.
pub fn texts_eq(a: &Vec<String>, b: &Vec<String>) -> (same: bool)
    ensures
        same == (a.deep_view() == b.deep_view()),
{
    if a.len() != b.len() {
        assert(a.deep_view().len() != b.deep_view().len());
        return false;
    }
    let mut i: usize = 0;
    while i < a.len()
        invariant
            i <= a.len(),
            a.len() == b.len(),
            forall|k: int| 0 <= k < i ==> a[k]@ == b[k]@,
        decreases a.len() - i,
    {
        if !text_eq(a[i].as_str(), b[i].as_str()) {
            assert(a.deep_view()[i as int] != b.deep_view()[i as int]);
            return false;
        }
        i += 1;
    }
    assert(a.deep_view() =~= b.deep_view());
    true
}

/// A fresh copy of every token group of `groups`, in order.
pub fn copy_groups(groups: &Vec<Vec<String>>) -> (out: Vec<Vec<String>>)
    ensures
        out.deep_view() == groups.deep_view(),
{
    let mut out: Vec<Vec<String>> = Vec::new();
    let mut i: usize = 0;
    while i < groups.len()
        invariant
            i <= groups.len(),
            out.len() == i,
            forall|k: int| 0 <= k < i ==> out[k].deep_view() == groups[k].deep_view(),
        decreases groups.len() - i,
    {
        out.push(copy_texts(&groups[i]));
        i += 1;
    }
    assert(out.deep_view() =~= groups.deep_view());
    out
}

/// Whether a character can be part of a word: a letter or digit of the
/// basic alphabet, an underscore, a double quote, or any character
/// beyond the basic alphabet.
pub open spec fn is_word_char(c: char) -> bool {
    let n = c as u32;
    (48 <= n <= 57) || (65 <= n <= 90) || (97 <= n <= 122) || n == 95 || n == 34 || n >= 128
}

/// Whether two neighbouring token strings must be held apart by a space,
/// lest they read as one word: the left one ends in a word character and
/// the right one begins with one.
pub open spec fn needs_space(left: Seq<char>, right: Seq<char>) -> bool {
    left.len() > 0 && right.len() > 0 && is_word_char(left.last()) && is_word_char(right[0])
}

/// The text that spells a list of token strings: the strings in order,
/// with one space between two neighbours that would else read as one
/// word, and nothing between any others. Brackets and punctuation so
/// stand as they were written.
pub open spec fn spelled(tokens: Seq<Seq<char>>) -> Seq<char>
    decreases tokens.len(),
{
    if tokens.len() == 0 {
        Seq::<char>::empty()
    } else if tokens.len() >= 2 && needs_space(tokens[tokens.len() - 2], tokens.last()) {
        spelled(tokens.drop_last()) + " "@ + tokens.last()
    } else {
        spelled(tokens.drop_last()) + tokens.last()
    }
}

/// Whether `c` can be part of a word.
pub fn word_char(c: char) -> (word: bool)
    ensures
        word == is_word_char(c),
{
    let n = c as u32;
    (48 <= n && n <= 57) || (65 <= n && n <= 90) || (97 <= n && n <= 122) || n == 95 || n == 34
        || n >= 128
}

/// Whether two neighbouring token strings must be held apart by a space.
pub fn space_between(left: &str, right: &str) -> (space: bool)
    ensures
        space == needs_space(left@, right@),
{
    let n = left.unicode_len();
    if n == 0 || right.unicode_len() == 0 {
        return false;
    }
    word_char(left.get_char(n - 1)) && word_char(right.get_char(0))
}

/// Spells a list of token strings as text.
pub fn spell(tokens: &Vec<String>) -> (out: String)
    ensures
        out@ == spelled(tokens.deep_view()),
{
    let mut out = String::new();
    let mut i: usize = 0;
    assert(tokens.deep_view().take(0) =~= Seq::<Seq<char>>::empty());
    while i < tokens.len()
        invariant
            i <= tokens.len(),
            out@ == spelled(tokens.deep_view().take(i as int)),
        decreases tokens.len() - i,
    {
        let ghost before = out@;
        let ghost upto = tokens.deep_view().take(i + 1);
        proof {
            assert(upto.drop_last() =~= tokens.deep_view().take(i as int));
            assert(upto.last() == tokens[i as int]@);
            if i > 0 {
                assert(upto[upto.len() - 2] == tokens[i - 1]@);
            }
        }
        if i > 0 && space_between(tokens[i - 1].as_str(), tokens[i].as_str()) {
            out.append(" ");
        }
        out.append(tokens[i].as_str());
        assert(out@ =~= spelled(upto));
        i += 1;
    }
    assert(tokens.deep_view().take(i as int) =~= tokens.deep_view());
    out
}

/// Whether `c` is one of the ten decimal digits.
pub open spec fn is_digit(c: char) -> bool {
    digit_of(c) is Some
}

/// The value of a decimal digit.
pub open spec fn digit_of(c: char) -> Option<nat> {
    if c == '0' {
        Some(0)
    } else if c == '1' {
        Some(1)
    } else if c == '2' {
        Some(2)
    } else if c == '3' {
        Some(3)
    } else if c == '4' {
        Some(4)
    } else if c == '5' {
        Some(5)
    } else if c == '6' {
        Some(6)
    } else if c == '7' {
        Some(7)
    } else if c == '8' {
        Some(8)
    } else if c == '9' {
        Some(9)
    } else {
        None
    }
}

/// Whether every character of `text` is a decimal digit.
pub open spec fn all_digits(text: Seq<char>) -> bool {
    forall|i: int| 0 <= i < text.len() ==> is_digit(#[trigger] text[i])
}

/// The number that a run of decimal digits writes, most significant digit
/// first; characters that are no digits count as zero.
pub open spec fn digits_value(text: Seq<char>) -> nat
    decreases text.len(),
{
    if text.len() == 0 {
        0
    } else {
        let last = match digit_of(text.last()) {
            Some(d) => d,
            None => 0,
        };
        digits_value(text.drop_last()) * 10 + last
    }
}

/// The number written by `text`, where `text` is one or more decimal digits
/// and the number fits in 32 bits.
pub open spec fn parse_number(text: Seq<char>) -> Option<u32> {
    if text.len() > 0 && all_digits(text) && digits_value(text) <= u32::MAX {
        Some(digits_value(text) as u32)
    } else {
        None
    }
}

/// The value of a run of digits is at least the value of each of its
/// prefixes.
pub proof fn lemma_digits_value_grows(text: Seq<char>, n: int)
    requires
        0 <= n <= text.len(),
    ensures
        digits_value(text.take(n)) <= digits_value(text),
    decreases text.len(),
{
    if n == text.len() {
        assert(text.take(n) =~= text);
    } else {
        assert(text.drop_last().take(n) =~= text.take(n));
        lemma_digits_value_grows(text.drop_last(), n);
    }
}

fn digit_value(c: char) -> (value: Option<u32>)
    ensures
        match value {
            Some(d) => digit_of(c) == Some(d as nat) && d <= 9,
            None => digit_of(c) is None,
        },
{
    match c {
        '0' => Some(0),
        '1' => Some(1),
        '2' => Some(2),
        '3' => Some(3),
        '4' => Some(4),
        '5' => Some(5),
        '6' => Some(6),
        '7' => Some(7),
        '8' => Some(8),
        '9' => Some(9),
        _ => None,
    }
}

/// Reads a decimal number of at most 32 bits: `Some` exactly when `text` is
/// one or more decimal digits whose value fits.
pub fn read_number(text: &str) -> (value: Option<u32>)
    ensures
        value == parse_number(text@),
{
    let n = text.unicode_len();
    if n == 0 {
        return None;
    }
    let mut acc: u32 = 0;
    let mut i: usize = 0;
    while i < n
        invariant
            i <= n,
            n == text@.len(),
            all_digits(text@.take(i as int)),
            acc == digits_value(text@.take(i as int)),
        decreases n - i,
    {
        let c = text.get_char(i);
        proof {
            assert(text@.take(i + 1).drop_last() =~= text@.take(i as int));
            assert(text@.take(i + 1).last() == c);
        }
        match digit_value(c) {
            None => {
                assert(!is_digit(text@[i as int]));
                return None;
            },
            Some(d) => {
                if acc > 429496729 || (acc == 429496729 && d > 5) {
                    proof {
                        lemma_digits_value_grows(text@, i + 1);
                    }
                    return None;
                }
                acc = acc * 10 + d;
                assert forall|k: int| 0 <= k < i + 1 implies is_digit(
                    #[trigger] text@.take(i + 1)[k],
                ) by {
                    if k < i {
                        assert(text@.take(i as int)[k] == text@.take(i + 1)[k]);
                    }
                }
            },
        }
        i += 1;
    }
    assert(text@.take(n as int) =~= text@);
    Some(acc)
}

/// The character that writes a digit, `'0'` for anything above 9.
pub open spec fn digit_char(d: nat) -> char {
    if d == 1 {
        '1'
    } else if d == 2 {
        '2'
    } else if d == 3 {
        '3'
    } else if d == 4 {
        '4'
    } else if d == 5 {
        '5'
    } else if d == 6 {
        '6'
    } else if d == 7 {
        '7'
    } else if d == 8 {
        '8'
    } else if d == 9 {
        '9'
    } else {
        '0'
    }
}

/// The decimal spelling of `n`, without leading zeros.
pub open spec fn decimal_text(n: nat) -> Seq<char>
    decreases n,
{
    if n < 10 {
        seq![digit_char(n)]
    } else {
        decimal_text(n / 10).push(digit_char(n % 10))
    }
}

fn digit_text(d: usize) -> (out: &'static str)
    requires
        d < 10,
    ensures
        out@ == seq![digit_char(d as nat)],
{
    proof {
        reveal_strlit("0");
        reveal_strlit("1");
        reveal_strlit("2");
        reveal_strlit("3");
        reveal_strlit("4");
        reveal_strlit("5");
        reveal_strlit("6");
        reveal_strlit("7");
        reveal_strlit("8");
        reveal_strlit("9");
    }
    let out = if d == 0 {
        "0"
    } else if d == 1 {
        "1"
    } else if d == 2 {
        "2"
    } else if d == 3 {
        "3"
    } else if d == 4 {
        "4"
    } else if d == 5 {
        "5"
    } else if d == 6 {
        "6"
    } else if d == 7 {
        "7"
    } else if d == 8 {
        "8"
    } else {
        "9"
    };
    assert(out@ =~= seq![digit_char(d as nat)]);
    out
}

/// Writes `n` in decimal.
pub fn decimal(n: usize) -> (out: String)
    ensures
        out@ == decimal_text(n as nat),
    decreases n,
{
    if n < 10 {
        String::from_str(digit_text(n))
    } else {
        let mut out = decimal(n / 10);
        out.append(digit_text(n % 10));
        assert(out@ =~= decimal_text(n as nat));
        out
    }
}

/// Reading back what `decimal_text` wrote gives the number again.
pub proof fn lemma_decimal_round_trip(n: nat)
    ensures
        all_digits(decimal_text(n)),
        decimal_text(n).len() > 0,
        digits_value(decimal_text(n)) == n,
    decreases n,
{
    let text = decimal_text(n);
    if n < 10 {
        assert(text.drop_last() =~= Seq::<char>::empty());
        assert(digits_value(text.drop_last()) == 0);
        assert(text.last() == digit_char(n));
        assert(digit_of(digit_char(n)) == Some(n));
    } else {
        lemma_decimal_round_trip(n / 10);
        assert(text.drop_last() =~= decimal_text(n / 10));
        assert(text.last() == digit_char(n % 10));
        assert(digit_of(digit_char(n % 10)) == Some(n % 10));
        assert forall|i: int| 0 <= i < text.len() implies is_digit(#[trigger] text[i]) by {
            if i < text.len() - 1 {
                assert(text[i] == decimal_text(n / 10)[i]);
            }
        }
    }
}

} // verus!
