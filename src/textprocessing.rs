//! Statement classification and extraction of values from statements.
use vstd::prelude::*;

use crate::mapping::{NumeralMapping, Rate};
use crate::roman::{is_letter, is_roman_letter, roman_value, Roman};
use crate::strings::{
    chars_of, ends_with_char, has_prefix, parse_digits, parse_i32, split_chars, split_on,
    starts_with, string_of, sub_vec, substring,
};
use crate::unicode::{
    digit_char, is_digit_char, is_word_char, lower_of, lowercase, trim, trim_of, word_char,
};

verus! {

/// The separator ` is `.
pub open spec fn is_sep() -> Seq<char> {
    seq![' ', 'i', 's', ' ']
}

/// The closing ` Credits`.
pub open spec fn credits_tail() -> Seq<char> {
    seq![' ', 'C', 'r', 'e', 'd', 'i', 't', 's']
}

/// `<token> is <letter>`, where the token is one or more word characters and
/// the letter one of `IVXLCDM`: the token and the letter.
pub open spec fn numeral_statement(s: Seq<char>) -> Option<(Seq<char>, Seq<char>)> {
    let n = s.len() as int;
    if n >= 6 && s.subrange(n - 5, n - 1) == is_sep() && is_roman_letter(s[n - 1]) && (forall|
        i: int,
    |
        0 <= i < n - 5 ==> word_char(#[trigger] s[i])) {
        Some((s.subrange(0, n - 5), seq![s[n - 1]]))
    } else {
        None
    }
}

/// Where the run of decimal digits that ends at `end` begins.
pub open spec fn digits_start(s: Seq<char>, end: int) -> int
    decreases end,
{
    if 0 < end <= s.len() && digit_char(s[end - 1]) {
        digits_start(s, end - 1)
    } else {
        end
    }
}

/// `<group> is <digits> Credits`, where the group is one or more word
/// characters or spaces and the digits are one or more decimal digits: the
/// group and the digits.
pub open spec fn unit_statement(s: Seq<char>) -> Option<(Seq<char>, Seq<char>)> {
    let n = s.len() as int;
    let p = n - 8;
    let j = digits_start(s, p);
    if n >= 8 && s.subrange(p, n) == credits_tail() && j < p && j >= 5 && s.subrange(j - 4, j)
        == is_sep() && (forall|i: int|
        0 <= i < j - 4 ==> word_char(#[trigger] s[i]) || s[i] == ' ') {
        Some((s.subrange(0, j - 4), s.subrange(j, p)))
    } else {
        None
    }
}

/// The unit of a unit statement: the last space-separated token of its
/// group, which must hold at least two tokens.
pub open spec fn unit_name(s: Seq<char>) -> Option<Seq<char>> {
    match unit_statement(s) {
        Some(parts) => {
            let tokens = split_on(parts.0, ' ');
            if tokens.len() >= 2 {
                Some(tokens.last())
            } else {
                None
            }
        },
        None => None,
    }
}

/// Every token has a definition in `m`.
pub open spec fn all_mapped(m: Map<Seq<char>, char>, tokens: Seq<Seq<char>>) -> bool {
    forall|i: int| 0 <= i < tokens.len() ==> m.contains_key(#[trigger] tokens[i])
}

/// The letters that `m` gives the tokens, in order.
pub open spec fn letters_of(m: Map<Seq<char>, char>, tokens: Seq<Seq<char>>) -> Seq<char> {
    Seq::new(tokens.len(), |i: int| m[tokens[i]])
}

/// The quantity that a sequence of alien tokens stands for: every token is
/// translated to its letter and the letters are read as one numeral.
pub open spec fn amount_value(m: Map<Seq<char>, char>, tokens: Seq<Seq<char>>) -> Option<int> {
    if all_mapped(m, tokens) {
        roman_value(letters_of(m, tokens))
    } else {
        None
    }
}

/// The quantity of a unit statement: its group without the unit, read as
/// alien numerals.
pub open spec fn statement_amount(m: Map<Seq<char>, char>, s: Seq<char>) -> Option<int> {
    match unit_statement(s) {
        Some(parts) => amount_value(m, split_on(parts.0, ' ').drop_last()),
        None => None,
    }
}

/// The number of Credits of a unit statement, when it fits an `i32`.
pub open spec fn statement_credits(s: Seq<char>) -> Option<i32> {
    match unit_statement(s) {
        Some(parts) => parse_i32(parts.1),
        None => None,
    }
}

/// The unit and its price that a unit statement defines, under `m`.
pub open spec fn statement_rate(m: Map<Seq<char>, char>, s: Seq<char>) -> Option<
    (Seq<char>, Rate),
> {
    let t = trim_of(s);
    match (statement_amount(m, t), unit_name(t), statement_credits(s)) {
        (Some(a), Some(u), Some(c)) => Some((u, Rate { credits: c, amount: a as i32 })),
        _ => None,
    }
}

/// `s` asks "how much is ...?"; the prefix is compared on `lowered`, the
/// lowercase form of `s`.
pub open spec fn how_much_shape(lowered: Seq<char>, s: Seq<char>) -> bool {
    starts_with(lowered, "how much is"@) && ends_with_char(s, '?')
}

/// `s` asks "how many Credits is ...?".
pub open spec fn how_many_shape(s: Seq<char>) -> bool {
    starts_with(s, "how many Credits is"@) && ends_with_char(s, '?')
}

/// `s` defines an alien numeral.
pub open spec fn is_numeral_statement(s: Seq<char>) -> bool {
    numeral_statement(s) is Some
}

/// `s`, once trimmed, states the price of a unit.
pub open spec fn is_unit_statement(s: Seq<char>) -> bool {
    unit_name(trim_of(s)) is Some
}

/// Whether `sentence` asks "how much is ...?", the prefix compared without
/// regard to case.
pub fn is_question_how_much(sentence: &str) -> (r: bool)
    ensures
        r == how_much_shape(lower_of(sentence@), sentence@),
{
    let lowered = lowercase(sentence);
    is_how_much_lowered(lowered.as_str(), sentence)
}

/// Whether `sentence` asks "how much is ...?", given `lowered`, its
/// lowercase form.
pub fn is_how_much_lowered(lowered: &str, sentence: &str) -> (r: bool)
    ensures
        r == how_much_shape(lowered@, sentence@),
{
    let l = chars_of(lowered);
    let s = chars_of(sentence);
    has_prefix(&l, "how much is") && s.len() > 0 && s[s.len() - 1] == '?'
}

/// Whether `sentence` asks "how many Credits is ...?", the prefix compared
/// exactly.
pub fn is_question_how_many_credits(sentence: &str) -> (r: bool)
    ensures
        r == how_many_shape(sentence@),
{
    let s = chars_of(sentence);
    has_prefix(&s, "how many Credits is") && s.len() > 0 && s[s.len() - 1] == '?'
}

/// The token and the letter of `<token> is <letter>`.
pub fn numerals_to_roman(sentence: &str) -> (r: Option<(String, String)>)
    ensures
        match r {
            Some(p) => numeral_statement(sentence@) == Some((p.0@, p.1@)),
            None => numeral_statement(sentence@) is None,
        },
{
    let s = chars_of(sentence);
    let n = s.len();
    if n < 6 {
        return None;
    }
    if !(s[n - 5] == ' ' && s[n - 4] == 'i' && s[n - 3] == 's' && s[n - 2] == ' ') {
        assert(s@.subrange(n - 5, n - 1)[0] == s@[n - 5]);
        assert(s@.subrange(n - 5, n - 1)[1] == s@[n - 4]);
        assert(s@.subrange(n - 5, n - 1)[2] == s@[n - 3]);
        assert(s@.subrange(n - 5, n - 1)[3] == s@[n - 2]);
        return None;
    }
    assert(s@.subrange(n - 5, n - 1) =~= is_sep());
    if !is_letter(s[n - 1]) {
        return None;
    }
    let mut i: usize = 0;
    while i < n - 5
        invariant
            n == s.len(),
            n >= 6,
            s@ == sentence@,
            i <= n - 5,
            forall|j: int| 0 <= j < i ==> word_char(#[trigger] s@[j]),
        decreases n - 5 - i,
    {
        if !is_word_char(s[i]) {
            return None;
        }
        i = i + 1;
    }
    let token = substring(&s, 0, n - 5);
    let letter = substring(&s, n - 1, n);
    assert(letter@ =~= seq![s@[n - 1]]);
    Some((token, letter))
}

/// Where the group of a unit statement ends and where its digits begin.
fn unit_bounds(s: &Vec<char>) -> (r: Option<(usize, usize)>)
    ensures
        match r {
            Some(b) => b.0 + 4 == b.1 && b.1 + 8 <= s.len() && unit_statement(s@) == Some(
                (s@.subrange(0, b.0 as int), s@.subrange(b.1 as int, s.len() - 8)),
            ),
            None => unit_statement(s@) is None,
        },
{
    let n = s.len();
    if n < 8 {
        return None;
    }
    let p = n - 8;
    if !(s[p] == ' ' && s[p + 1] == 'C' && s[p + 2] == 'r' && s[p + 3] == 'e' && s[p + 4] == 'd'
        && s[p + 5] == 'i' && s[p + 6] == 't' && s[p + 7] == 's') {
        proof {
            let t = s@.subrange(p as int, n as int);
            if t == credits_tail() {
                assert(t[0] == s@[p as int] && t[1] == s@[p + 1] && t[2] == s@[p + 2] && t[3]
                    == s@[p + 3]);
                assert(t[4] == s@[p + 4] && t[5] == s@[p + 5] && t[6] == s@[p + 6] && t[7]
                    == s@[p + 7]);
            }
        }
        return None;
    }
    assert(s@.subrange(p as int, n as int) =~= credits_tail());
    let mut j: usize = p;
    while j > 0 && is_digit_char(s[j - 1])
        invariant
            j <= p,
            p + 8 == n == s.len(),
            digits_start(s@, j as int) == digits_start(s@, p as int),
        decreases j,
    {
        j = j - 1;
    }
    if j >= p || j < 5 {
        return None;
    }
    if !(s[j - 4] == ' ' && s[j - 3] == 'i' && s[j - 2] == 's' && s[j - 1] == ' ') {
        proof {
            let t = s@.subrange(j - 4, j as int);
            if t == is_sep() {
                assert(t[0] == s@[j - 4] && t[1] == s@[j - 3] && t[2] == s@[j - 2] && t[3]
                    == s@[j - 1]);
            }
        }
        return None;
    }
    assert(s@.subrange(j - 4, j as int) =~= is_sep());
    let mut i: usize = 0;
    while i < j - 4
        invariant
            5 <= j < p,
            p + 8 == n == s.len(),
            j == digits_start(s@, p as int),
            s@.subrange(j - 4, j as int) == is_sep(),
            s@.subrange(p as int, n as int) == credits_tail(),
            i <= j - 4,
            forall|k: int| 0 <= k < i ==> word_char(#[trigger] s@[k]) || s@[k] == ' ',
        decreases j - 4 - i,
    {
        if !(s[i] == ' ' || is_word_char(s[i])) {
            return None;
        }
        i = i + 1;
    }
    Some((j - 4, j))
}

/// The space-separated tokens of the group of a unit statement, after
/// trimming `sentence`.
fn unit_tokens(sentence: &str) -> (r: Option<Vec<String>>)
    ensures
        match r {
            Some(t) => unit_statement(trim_of(sentence@)) matches Some(parts) && t.deep_view()
                == split_on(parts.0, ' '),
            None => unit_statement(trim_of(sentence@)) is None,
        },
{
    let s = chars_of(trim(sentence));
    match unit_bounds(&s) {
        Some(b) => {
            let group = sub_vec(&s, 0, b.0);
            Some(split_chars(&group, ' '))
        },
        None => None,
    }
}

/// The unit of `<amount> <unit> is <digits> Credits`: the last token before
/// ` is `, when at least one token precedes it.
pub fn extract_units_from_sentence(sentence: &str) -> (r: Option<String>)
    ensures
        match r {
            Some(u) => unit_name(trim_of(sentence@)) == Some(u@),
            None => unit_name(trim_of(sentence@)) is None,
        },
{
    match unit_tokens(sentence) {
        Some(tokens) => {
            if tokens.len() < 2 {
                return None;
            }
            let unit = tokens[tokens.len() - 1].clone();
            Some(unit)
        },
        None => None,
    }
}

/// Whether `sentence` is `<amount> <unit> is <digits> Credits`.
pub fn is_unit_info(sentence: &str) -> (r: bool)
    ensures
        r == is_unit_statement(sentence@),
{
    extract_units_from_sentence(sentence).is_some()
}

/// The letters that `numeral_map` gives `tokens`, or `None` when a token
/// has no definition.
pub fn translate_tokens(numeral_map: &NumeralMapping, tokens: &Vec<String>) -> (r: Option<
    Vec<char>,
>)
    ensures
        match r {
            Some(l) => all_mapped(numeral_map@, tokens.deep_view()) && l@ == letters_of(
                numeral_map@,
                tokens.deep_view(),
            ),
            None => !all_mapped(numeral_map@, tokens.deep_view()),
        },
{
    let ghost t = tokens.deep_view();
    let mut letters: Vec<char> = Vec::new();
    let mut i: usize = 0;
    while i < tokens.len()
        invariant
            i <= tokens.len(),
            t == tokens.deep_view(),
            letters@ == letters_of(numeral_map@, t.take(i as int)),
            all_mapped(numeral_map@, t.take(i as int)),
        decreases tokens.len() - i,
    {
        match numeral_map.get(&tokens[i]) {
            Some(c) => {
                letters.push(c);
                i = i + 1;
                assert(letters@ =~= letters_of(numeral_map@, t.take(i as int)));
                assert(all_mapped(numeral_map@, t.take(i as int))) by {
                    assert forall|k: int| 0 <= k < i implies numeral_map@.contains_key(
                        #[trigger] t.take(i as int)[k],
                    ) by {
                        if k < i - 1 {
                            assert(t.take(i as int)[k] == t.take(i - 1)[k]);
                        }
                    }
                }
            },
            None => {
                assert(!numeral_map@.contains_key(t[i as int]));
                return None;
            },
        }
    }
    assert(t.take(tokens.len() as int) =~= t);
    Some(letters)
}

/// The value of `letters` read as one numeral.
pub fn decode_letters(letters: &Vec<char>) -> (r: Option<i32>)
    ensures
        match r {
            Some(v) => roman_value(letters@) == Some(v as int),
            None => roman_value(letters@) is None,
        },
{
    let text = string_of(letters);
    match Roman::decode(text.as_str()) {
        Ok(numeral) => Some(numeral.get_value()),
        Err(_) => None,
    }
}

/// The quantity of `<amount> <unit> is <digits> Credits`: the amount tokens
/// translated through `numeral_map` and read as one numeral.
pub fn extract_amounts_from_sentence(numeral_map: &NumeralMapping, sentence: &str) -> (r: Option<
    i32,
>)
    ensures
        match r {
            Some(v) => statement_amount(numeral_map@, trim_of(sentence@)) == Some(v as int),
            None => statement_amount(numeral_map@, trim_of(sentence@)) is None,
        },
{
    match unit_tokens(sentence) {
        Some(tokens) => {
            let mut amount = tokens;
            let ghost all = amount.deep_view();
            proof {
                let parts = unit_statement(trim_of(sentence@))->0;
                crate::strings::lemma_split_nonempty(parts.0, ' ');
            }
            amount.pop();
            assert(amount.deep_view() =~= all.drop_last());
            match translate_tokens(numeral_map, &amount) {
                Some(letters) => decode_letters(&letters),
                None => None,
            }
        },
        None => None,
    }
}

/// The number of Credits of `<amount> <unit> is <digits> Credits`, when it
/// fits an `i32`.
pub fn extract_amount_credits_from_sentence(sentence: &str) -> (r: Option<i32>)
    ensures
        r == statement_credits(sentence@),
{
    let s = chars_of(sentence);
    match unit_bounds(&s) {
        Some(b) => {
            let digits = sub_vec(&s, b.1, s.len() - 8);
            parse_digits(&digits)
        },
        None => None,
    }
}

/// The unit and its price that `<amount> <unit> is <digits> Credits`
/// defines: `digits` Credits for the quantity that the amount tokens stand
/// for.
pub fn extract_unit_values_from_sentence(numeral_map: &NumeralMapping, sentence: &str) -> (r:
    Option<(String, Rate)>)
    ensures
        match r {
            Some(p) => statement_rate(numeral_map@, sentence@) == Some((p.0@, p.1)),
            None => statement_rate(numeral_map@, sentence@) is None,
        },
{
    if let Some(amount) = extract_amounts_from_sentence(numeral_map, sentence) {
        if let Some(unit) = extract_units_from_sentence(sentence) {
            if let Some(credits) = extract_amount_credits_from_sentence(sentence) {
                return Some((unit, Rate { credits, amount }));
            }
        }
    }
    None
}

/// Whether `sentence` is `<token> is <letter>`.
pub fn is_numeral_info(sentence: &str) -> (r: bool)
    ensures
        r == is_numeral_statement(sentence@),
{
    numerals_to_roman(sentence).is_some()
}

} // verus!
