//! Answering questions and running a whole batch of statements.
use vstd::prelude::*;

use crate::mapping::{NumeralMapping, Rate, UnitMapping};
use crate::roman::roman_value;
use crate::strings::{
    chars_of, decimal, ends_with_char, has_prefix, join_strings, join_with, push_decimal,
    same_chars, split_chars, split_on, starts_with, string_of, substring,
};
use crate::textprocessing::{
    all_mapped, decode_letters, extract_unit_values_from_sentence, how_many_shape,
    how_much_shape, is_numeral_info, is_numeral_statement, is_question_how_many_credits,
    is_question_how_much, is_unit_info, is_unit_statement, letters_of, numeral_statement,
    numerals_to_roman, statement_rate, translate_tokens,
};
use crate::unicode::{lower_of, trim, trim_of};

verus! {

/// One line of output, or the parts of one that the caller renders.
#[derive(Debug)]
pub enum Reply {
    /// A finished line.
    Line(String),
    /// `<phrase> is <quantity × price per unit> Credits`; the product is
    /// left to the caller.
    Priced { phrase: String, quantity: i32, rate: Rate },
    /// A unit was defined again with another price.
    RateChanged { unit: String, previous: Rate, current: Rate },
}

/// What a [`Reply`] holds.
pub enum ReplyModel {
    Line(Seq<char>),
    Priced(Seq<char>, int, Rate),
    RateChanged(Seq<char>, Rate, Rate),
}

impl View for Reply {
    type V = ReplyModel;

    open spec fn view(&self) -> ReplyModel {
        match self {
            Reply::Line(s) => ReplyModel::Line(s@),
            Reply::Priced { phrase, quantity, rate } => ReplyModel::Priced(
                phrase@,
                *quantity as int,
                *rate,
            ),
            Reply::RateChanged { unit, previous, current } => ReplyModel::RateChanged(
                unit@,
                *previous,
                *current,
            ),
        }
    }
}

/// The words of a "how much" question that are never numerals.
pub open spec fn is_reserved(t: Seq<char>) -> bool {
    t == "?"@ || t == "how"@ || t == "much"@ || t == "is"@
}

/// The tokens of a "how much" question that are translated: not reserved
/// and defined in `m`, in order.
pub open spec fn kept_tokens(m: Map<Seq<char>, char>, tokens: Seq<Seq<char>>) -> Seq<Seq<char>>
    decreases tokens.len(),
{
    if tokens.len() == 0 {
        Seq::empty()
    } else {
        let kept = kept_tokens(m, tokens.drop_last());
        let t = tokens.last();
        if !is_reserved(t) && m.contains_key(t) {
            kept.push(t)
        } else {
            kept
        }
    }
}

/// The answer to "how much is <tokens> ?": the translated tokens and their
/// value, or a notice that the letters do not form a numeral.
pub open spec fn how_much_answer(m: Map<Seq<char>, char>, question: Seq<char>) -> Seq<char> {
    let kept = kept_tokens(m, split_on(question, ' '));
    let letters = letters_of(m, kept);
    match roman_value(letters) {
        Some(v) => join_with(kept, ' ') + " is "@ + decimal(v as nat),
        None => "I don't know how to interpret this number: "@ + join_with(kept, ' ') + " -> "@
            + letters,
    }
}

/// The reply to any statement that is not understood.
pub open spec fn default_response() -> Seq<char> {
    "I have no idea what you are talking about"@
}

/// The part of "how many Credits is <amount> <unit> ?" between the prefix
/// and the question mark, with surrounding whitespace trimmed.
pub open spec fn credits_query_body(q: Seq<char>) -> Option<Seq<char>> {
    if starts_with(q, "how many Credits is "@) {
        let t = trim_of(q.skip("how many Credits is "@.len() as int));
        if ends_with_char(t, '?') {
            Some(trim_of(t.drop_last()))
        } else {
            None
        }
    } else {
        None
    }
}

/// The answer to "how many Credits is <amount> <unit> ?" under the two
/// tables: a notice when an amount token or the unit is unknown, else the
/// quantity and the unit's price.
pub open spec fn how_many_answer(
    nm: Map<Seq<char>, char>,
    um: Map<Seq<char>, Rate>,
    question: Seq<char>,
) -> ReplyModel {
    match credits_query_body(question) {
        None => ReplyModel::Line(default_response()),
        Some(body) => {
            let tokens = split_on(body, ' ');
            let unit = tokens.last();
            let amount = tokens.drop_last();
            if !all_mapped(nm, amount) {
                ReplyModel::Line(
                    "Not everything could be translated to roman numerals: "@ + join_with(
                        amount,
                        ' ',
                    ),
                )
            } else if !um.contains_key(unit) {
                ReplyModel::Line("This unit is unkown to me: "@ + unit)
            } else {
                match roman_value(letters_of(nm, amount)) {
                    Some(v) => ReplyModel::Priced(
                        join_with(amount, ' ').push(' ') + unit,
                        v,
                        um[unit],
                    ),
                    None => ReplyModel::Line(default_response()),
                }
            }
        },
    }
}

/// The reply to any statement that is not understood.
fn default_reply() -> (r: Reply)
    ensures
        r@ == ReplyModel::Line(default_response()),
{
    Reply::Line(String::from_str("I have no idea what you are talking about"))
}

/// Whether `t` is one of the reserved words.
fn is_reserved_token(t: &String) -> (r: bool)
    ensures
        r == is_reserved(t@),
{
    let c = chars_of(t.as_str());
    same_chars(&c, &chars_of("?")) || same_chars(&c, &chars_of("how")) || same_chars(
        &c,
        &chars_of("much"),
    ) || same_chars(&c, &chars_of("is"))
}

/// Answers "how much is <tokens> ?". Tokens without a definition are left
/// out of both the echo and the numeral.
pub fn answer_how_much(numeral_mapping: &NumeralMapping, question: &str) -> (r: String)
    ensures
        r@ == how_much_answer(numeral_mapping@, question@),
{
    let q = chars_of(question);
    let tokens = split_chars(&q, ' ');
    let ghost t = tokens.deep_view();
    let ghost m = numeral_mapping@;
    let mut kept: Vec<String> = Vec::new();
    let mut letters: Vec<char> = Vec::new();
    let mut i: usize = 0;
    while i < tokens.len()
        invariant
            i <= tokens.len(),
            t == tokens.deep_view(),
            m == numeral_mapping@,
            kept.deep_view() == kept_tokens(m, t.take(i as int)),
            letters@ == letters_of(m, kept.deep_view()),
        decreases tokens.len() - i,
    {
        assert(t.take(i + 1).drop_last() =~= t.take(i as int));
        let token = &tokens[i];
        if !is_reserved_token(token) {
            if let Some(c) = numeral_mapping.get(token) {
                let ghost before = kept.deep_view();
                kept.push(token.clone());
                letters.push(c);
                assert(kept.deep_view() =~= before.push(t[i as int]));
                assert(letters@ =~= letters_of(m, kept.deep_view()));
            }
        }
        i = i + 1;
    }
    assert(t.take(tokens.len() as int) =~= t);
    let echo = join_strings(&kept, ' ');
    match decode_letters(&letters) {
        Some(v) => {
            let mut out = echo;
            out.append(" is ");
            push_decimal(&mut out, v as u32);
            out
        },
        None => {
            let mut out = String::from_str("I don't know how to interpret this number: ");
            out.append(echo.as_str());
            out.append(" -> ");
            out.append(string_of(&letters).as_str());
            out
        },
    }
}

/// Answers "how many Credits is <amount> <unit> ?". Every amount token
/// must have a definition and the unit a price; the product of quantity and
/// price is left to the caller, in [`Reply::Priced`].
pub fn answer_how_many_credits(
    numeral_mapping: &NumeralMapping,
    unit_mapping: &UnitMapping,
    question: &str,
) -> (r: Reply)
    ensures
        r@ == how_many_answer(numeral_mapping@, unit_mapping@, question@),
{
    let q = chars_of(question);
    let prefix = chars_of("how many Credits is ");
    if !has_prefix(&q, "how many Credits is ") {
        return default_reply();
    }
    let rest = substring(&q, prefix.len(), q.len());
    assert(rest@ =~= question@.skip("how many Credits is "@.len() as int));
    let t = chars_of(trim(rest.as_str()));
    if t.len() == 0 || t[t.len() - 1] != '?' {
        return default_reply();
    }
    let inner = substring(&t, 0, t.len() - 1);
    assert(inner@ =~= t@.drop_last());
    let body = chars_of(trim(inner.as_str()));
    let mut amount = split_chars(&body, ' ');
    let ghost tokens = amount.deep_view();
    proof {
        crate::strings::lemma_split_nonempty(body@, ' ');
    }
    let unit = match amount.pop() {
        Some(u) => u,
        None => String::new(),
    };
    assert(amount.deep_view() =~= tokens.drop_last());
    let echo = join_strings(&amount, ' ');
    let letters = match translate_tokens(numeral_mapping, &amount) {
        Some(l) => l,
        None => {
            let mut out = String::from_str(
                "Not everything could be translated to roman numerals: ",
            );
            out.append(echo.as_str());
            return Reply::Line(out);
        },
    };
    let rate = match unit_mapping.get(&unit) {
        Some(rate) => rate,
        None => {
            let mut out = String::from_str("This unit is unkown to me: ");
            out.append(unit.as_str());
            return Reply::Line(out);
        },
    };
    match decode_letters(&letters) {
        Some(v) => {
            let mut phrase = echo;
            crate::strings::push_char(&mut phrase, ' ');
            phrase.append(unit.as_str());
            Reply::Priced { phrase, quantity: v, rate }
        },
        None => default_reply(),
    }
}

/// The five kinds of statement.
#[derive(Debug, Clone, Copy, PartialEq, Eq, Structural)]
pub enum StatementKind {
    NumeralStatement,
    UnitStatement,
    HowManyQuestion,
    HowMuchQuestion,
    Uncategorized,
}

/// The kind of a statement: the first of these tests that it passes.
pub open spec fn kind_of(s: Seq<char>) -> StatementKind {
    if is_numeral_statement(s) {
        StatementKind::NumeralStatement
    } else if is_unit_statement(s) {
        StatementKind::UnitStatement
    } else if how_many_shape(s) {
        StatementKind::HowManyQuestion
    } else if how_much_shape(lower_of(s), s) {
        StatementKind::HowMuchQuestion
    } else {
        StatementKind::Uncategorized
    }
}

/// Classifies one statement.
pub fn classify(statement: &str) -> (r: StatementKind)
    ensures
        r == kind_of(statement@),
{
    if is_numeral_info(statement) {
        StatementKind::NumeralStatement
    } else if is_unit_info(statement) {
        StatementKind::UnitStatement
    } else if is_question_how_many_credits(statement) {
        StatementKind::HowManyQuestion
    } else if is_question_how_much(statement) {
        StatementKind::HowMuchQuestion
    } else {
        StatementKind::Uncategorized
    }
}

/// The statements of an input: its lines, trimmed, blank ones left out.
pub open spec fn statements_of(lines: Seq<Seq<char>>) -> Seq<Seq<char>>
    decreases lines.len(),
{
    if lines.len() == 0 {
        Seq::empty()
    } else {
        let before = statements_of(lines.drop_last());
        let t = trim_of(lines.last());
        if t.len() == 0 {
            before
        } else {
            before.push(t)
        }
    }
}

/// The numeral table that the numeral statements among `st` define, later
/// ones winning.
pub open spec fn numeral_table(st: Seq<Seq<char>>) -> Map<Seq<char>, char>
    decreases st.len(),
{
    if st.len() == 0 {
        Map::empty()
    } else {
        let m = numeral_table(st.drop_last());
        let s = st.last();
        if kind_of(s) == StatementKind::NumeralStatement {
            match numeral_statement(s) {
                Some(p) => m.insert(p.0, p.1[0]),
                None => m,
            }
        } else {
            m
        }
    }
}

/// Whether two prices are the same ratio.
pub open spec fn same_ratio(a: Rate, b: Rate) -> bool {
    a.credits * b.amount == b.credits * a.amount
}

/// The unit table that the unit statements among `st` define under `nm`,
/// later ones winning, with the notices given on the way: a unit defined
/// again at another price, and a unit statement whose price cannot be
/// worked out.
pub open spec fn unit_table(nm: Map<Seq<char>, char>, st: Seq<Seq<char>>) -> (
    Map<Seq<char>, Rate>,
    Seq<ReplyModel>,
)
    decreases st.len(),
{
    if st.len() == 0 {
        (Map::empty(), Seq::empty())
    } else {
        let (um, notes) = unit_table(nm, st.drop_last());
        let s = st.last();
        if kind_of(s) == StatementKind::UnitStatement {
            match statement_rate(nm, s) {
                Some(p) => {
                    let notes2 = if um.contains_key(p.0) && !same_ratio(um[p.0], p.1) {
                        notes.push(ReplyModel::RateChanged(p.0, um[p.0], p.1))
                    } else {
                        notes
                    };
                    (um.insert(p.0, p.1), notes2)
                },
                None => (
                    um,
                    notes.push(
                        ReplyModel::Line("I don't understand this statement about units: "@ + s),
                    ),
                ),
            }
        } else {
            (um, notes)
        }
    }
}

/// The replies to the questions and unrecognised statements among `st`, in
/// order.
pub open spec fn answers(
    nm: Map<Seq<char>, char>,
    um: Map<Seq<char>, Rate>,
    st: Seq<Seq<char>>,
) -> Seq<ReplyModel>
    decreases st.len(),
{
    if st.len() == 0 {
        Seq::empty()
    } else {
        let before = answers(nm, um, st.drop_last());
        let s = st.last();
        let k = kind_of(s);
        if k == StatementKind::HowMuchQuestion {
            before.push(ReplyModel::Line(how_much_answer(nm, s)))
        } else if k == StatementKind::HowManyQuestion {
            before.push(how_many_answer(nm, um, s))
        } else if k == StatementKind::Uncategorized {
            before.push(ReplyModel::Line(default_response()))
        } else {
            before
        }
    }
}

/// Everything a whole input gives, in order: first the notices on unit
/// statements, then one reply per question or unrecognised statement.
pub open spec fn run_model(text: Seq<char>) -> Seq<ReplyModel> {
    let st = statements_of(split_on(text, '\n'));
    let nm = numeral_table(st);
    let units = unit_table(nm, st);
    units.1 + answers(nm, units.0, st)
}

/// The statements of `text`: its lines, trimmed, blank ones left out.
pub fn read_statements(text: &str) -> (r: Vec<String>)
    ensures
        r.deep_view() == statements_of(split_on(text@, '\n')),
{
    let chars = chars_of(text);
    let lines = split_chars(&chars, '\n');
    let ghost l = lines.deep_view();
    let mut st: Vec<String> = Vec::new();
    let mut i: usize = 0;
    while i < lines.len()
        invariant
            i <= lines.len(),
            l == lines.deep_view(),
            st.deep_view() == statements_of(l.take(i as int)),
        decreases lines.len() - i,
    {
        assert(l.take(i + 1).drop_last() =~= l.take(i as int));
        let t = trim(lines[i].as_str());
        if t.unicode_len() > 0 {
            let ghost before = st.deep_view();
            st.push(String::from_str(t));
            assert(st.deep_view() =~= before.push(trim_of(l[i as int])));
        }
        i = i + 1;
    }
    assert(l.take(lines.len() as int) =~= l);
    st
}

/// Resolving a question is repeatable: against unchanged tables, the same
/// question gets the same reply every time it is asked.
pub proof fn lemma_resolution_repeatable(
    nm1: Map<Seq<char>, char>,
    nm2: Map<Seq<char>, char>,
    um1: Map<Seq<char>, Rate>,
    um2: Map<Seq<char>, Rate>,
    q: Seq<char>,
)
    requires
        nm1 == nm2,
        um1 == um2,
    ensures
        how_much_answer(nm1, q) == how_much_answer(nm2, q),
        how_many_answer(nm1, um1, q) == how_many_answer(nm2, um2, q),
{
}

/// What a list of replies holds.
pub open spec fn replies_view(v: Seq<Reply>) -> Seq<ReplyModel> {
    v.map_values(|x: Reply| x@)
}

/// The kind of each statement.
fn classify_all(st: &Vec<String>) -> (r: Vec<StatementKind>)
    ensures
        r.len() == st.len(),
        forall|i: int| 0 <= i < st.len() ==> r@[i] == kind_of(#[trigger] st.deep_view()[i]),
{
    let mut kinds: Vec<StatementKind> = Vec::new();
    let mut i: usize = 0;
    while i < st.len()
        invariant
            i <= st.len(),
            kinds.len() == i,
            forall|j: int| 0 <= j < i ==> kinds@[j] == kind_of(#[trigger] st.deep_view()[j]),
        decreases st.len() - i,
    {
        kinds.push(classify(st[i].as_str()));
        i = i + 1;
    }
    kinds
}

/// Folds the numeral statements into a table, in order.
fn fold_numerals(st: &Vec<String>, kinds: &Vec<StatementKind>) -> (r: NumeralMapping)
    requires
        kinds.len() == st.len(),
        forall|i: int| 0 <= i < st.len() ==> kinds@[i] == kind_of(#[trigger] st.deep_view()[i]),
    ensures
        r@ == numeral_table(st.deep_view()),
{
    let ghost sv = st.deep_view();
    let mut nm = NumeralMapping::new();
    let mut i: usize = 0;
    while i < st.len()
        invariant
            i <= st.len(),
            kinds.len() == st.len(),
            sv == st.deep_view(),
            forall|j: int| 0 <= j < st.len() ==> kinds@[j] == kind_of(#[trigger] sv[j]),
            nm@ == numeral_table(sv.take(i as int)),
        decreases st.len() - i,
    {
        assert(sv.take(i + 1).drop_last() =~= sv.take(i as int));
        assert(sv.take(i + 1).last() == sv[i as int]);
        if kinds[i] == StatementKind::NumeralStatement {
            if let Some(pair) = numerals_to_roman(st[i].as_str()) {
                let letter = chars_of(pair.1.as_str());
                nm.insert(pair.0, letter[0]);
            }
        }
        i = i + 1;
    }
    assert(sv.take(st.len() as int) =~= sv);
    nm
}

/// The notice on a unit statement whose price cannot be worked out.
fn not_understood(statement: &String) -> (r: Reply)
    ensures
        r@ == ReplyModel::Line("I don't understand this statement about units: "@ + statement@),
{
    let mut out = String::from_str("I don't understand this statement about units: ");
    out.append(statement.as_str());
    Reply::Line(out)
}

/// Folds the unit statements into a table, in order, with the notices given
/// on the way.
fn fold_units(nm: &NumeralMapping, st: &Vec<String>, kinds: &Vec<StatementKind>) -> (r: (
    UnitMapping,
    Vec<Reply>,
))
    requires
        kinds.len() == st.len(),
        forall|i: int| 0 <= i < st.len() ==> kinds@[i] == kind_of(#[trigger] st.deep_view()[i]),
    ensures
        (r.0@, replies_view(r.1@)) == unit_table(nm@, st.deep_view()),
{
    let ghost sv = st.deep_view();
    let mut um = UnitMapping::new();
    let mut notes: Vec<Reply> = Vec::new();
    let mut i: usize = 0;
    while i < st.len()
        invariant
            i <= st.len(),
            kinds.len() == st.len(),
            sv == st.deep_view(),
            forall|j: int| 0 <= j < st.len() ==> kinds@[j] == kind_of(#[trigger] sv[j]),
            (um@, replies_view(notes@)) == unit_table(nm@, sv.take(i as int)),
        decreases st.len() - i,
    {
        assert(sv.take(i + 1).drop_last() =~= sv.take(i as int));
        assert(sv.take(i + 1).last() == sv[i as int]);
        let ghost before = replies_view(notes@);
        if kinds[i] == StatementKind::UnitStatement {
            match extract_unit_values_from_sentence(nm, st[i].as_str()) {
                Some(pair) => {
                    let (unit, rate) = pair;
                    if let Some(previous) = um.get(&unit) {
                        if !previous.same_as(&rate) {
                            notes.push(
                                Reply::RateChanged { unit: unit.clone(), previous, current: rate },
                            );
                            assert(replies_view(notes@) =~= before.push(
                                ReplyModel::RateChanged(unit@, previous, rate),
                            ));
                        }
                    }
                    um.insert(unit, rate);
                },
                None => {
                    notes.push(not_understood(&st[i]));
                    assert(replies_view(notes@) =~= before.push(
                        ReplyModel::Line(
                            "I don't understand this statement about units: "@ + sv[i as int],
                        ),
                    ));
                },
            }
        }
        i = i + 1;
    }
    assert(sv.take(st.len() as int) =~= sv);
    (um, notes)
}

/// Runs a whole input: classifies its statements, folds the numeral
/// statements and then the unit statements into the two tables, and
/// answers the questions and unrecognised statements in input order. The
/// notices on unit statements come first.
pub fn run_statements(text: &str) -> (r: Vec<Reply>)
    ensures
        replies_view(r@) == run_model(text@),
{
    let st = read_statements(text);
    let ghost sv = st.deep_view();
    let kinds = classify_all(&st);
    let nm = fold_numerals(&st, &kinds);
    let (um, mut out) = fold_units(&nm, &st, &kinds);
    let ghost notes = replies_view(out@);
    let mut i: usize = 0;
    assert(notes + answers(nm@, um@, sv.take(0)) =~= notes);
    while i < st.len()
        invariant
            i <= st.len(),
            kinds.len() == st.len(),
            sv == st.deep_view(),
            forall|j: int| 0 <= j < st.len() ==> kinds@[j] == kind_of(#[trigger] sv[j]),
            replies_view(out@) == notes + answers(nm@, um@, sv.take(i as int)),
        decreases st.len() - i,
    {
        assert(sv.take(i + 1).drop_last() =~= sv.take(i as int));
        assert(sv.take(i + 1).last() == sv[i as int]);
        let ghost before = replies_view(out@);
        let k = kinds[i];
        if k == StatementKind::HowMuchQuestion {
            let reply = Reply::Line(answer_how_much(&nm, st[i].as_str()));
            out.push(reply);
            assert(replies_view(out@) =~= before.push(reply@));
        } else if k == StatementKind::HowManyQuestion {
            let reply = answer_how_many_credits(&nm, &um, st[i].as_str());
            out.push(reply);
            assert(replies_view(out@) =~= before.push(reply@));
        } else if k == StatementKind::Uncategorized {
            let reply = default_reply();
            out.push(reply);
            assert(replies_view(out@) =~= before.push(reply@));
        }
        i = i + 1;
        assert(replies_view(out@) =~= notes + answers(nm@, um@, sv.take(i as int)));
    }
    assert(sv.take(st.len() as int) =~= sv);
    out
}

} // verus!
