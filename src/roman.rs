//! Roman numerals: canonical encoding of 1..=3999 and strict decoding.
use vstd::prelude::*;

use crate::strings::{chars_of, decimal, push_char, push_decimal, same_chars, string_of};

verus! {

/// The weight of a Roman letter, 0 for any other character.
pub open spec fn letter_value(c: char) -> int {
    if c == 'I' {
        1
    } else if c == 'V' {
        5
    } else if c == 'X' {
        10
    } else if c == 'L' {
        50
    } else if c == 'C' {
        100
    } else if c == 'D' {
        500
    } else if c == 'M' {
        1000
    } else {
        0
    }
}

pub open spec fn is_roman_letter(c: char) -> bool {
    letter_value(c) > 0
}

/// `n` copies of `c`.
pub open spec fn repeat(c: char, n: int) -> Seq<char> {
    Seq::new(n as nat, |i: int| c)
}

/// The spelling of one decimal digit `d` (0..=9) in a place whose unit,
/// half-step and next unit are `one`, `five` and `ten`.
pub open spec fn digit_form(d: int, one: char, five: char, ten: char) -> Seq<char> {
    if d <= 3 {
        repeat(one, d)
    } else if d == 4 {
        seq![one, five]
    } else if d <= 8 {
        seq![five] + repeat(one, d - 5)
    } else {
        seq![one, ten]
    }
}

/// The canonical Roman spelling of `v`: thousands, hundreds, tens and units
/// written one after the other.
pub open spec fn roman_of(v: int) -> Seq<char> {
    repeat('M', v / 1000) + digit_form((v / 100) % 10, 'C', 'D', 'M') + digit_form(
        (v / 10) % 10,
        'X',
        'L',
        'C',
    ) + digit_form(v % 10, 'I', 'V', 'X')
}

/// The subtractive-notation sum of a letter sequence: a letter counts
/// negatively when the letter after it weighs more, positively otherwise.
pub open spec fn numeral_sum(s: Seq<char>) -> int
    decreases s.len(),
{
    if s.len() == 0 {
        0
    } else if s.len() >= 2 && letter_value(s[0]) < letter_value(s[1]) {
        numeral_sum(s.drop_first()) - letter_value(s[0])
    } else {
        numeral_sum(s.drop_first()) + letter_value(s[0])
    }
}

/// `s` is the canonical spelling of a value in 1..=3999: its
/// subtractive-notation sum lies in that range and spells back to `s`.
pub open spec fn is_canonical(s: Seq<char>) -> bool {
    1 <= numeral_sum(s) <= 3999 && roman_of(numeral_sum(s)) == s
}

proof fn lemma_sum_concat(a: Seq<char>, b: Seq<char>)
    requires
        a.len() == 0 || b.len() == 0 || letter_value(a.last()) >= letter_value(b[0]),
    ensures
        numeral_sum(a + b) == numeral_sum(a) + numeral_sum(b),
    decreases a.len(),
{
    if a.len() == 0 {
        assert(a + b =~= b);
    } else {
        assert((a + b).drop_first() =~= a.drop_first() + b);
        lemma_sum_concat(a.drop_first(), b);
        if a.len() == 1 {
            assert(a.drop_first() + b =~= b);
        }
    }
}

proof fn lemma_repeat_sum(c: char, n: int)
    requires
        n >= 0,
    ensures
        numeral_sum(repeat(c, n)) == n * letter_value(c),
    decreases n,
{
    if n > 0 {
        let r = repeat(c, n);
        assert(r.drop_first() =~= repeat(c, n - 1));
        lemma_repeat_sum(c, n - 1);
        assert(numeral_sum(r) == numeral_sum(r.drop_first()) + letter_value(c));
        assert(n * letter_value(c) == (n - 1) * letter_value(c) + letter_value(c))
            by (nonlinear_arith);
    }
}

proof fn lemma_pair_sum(a: char, b: char)
    ensures
        letter_value(a) < letter_value(b) ==> numeral_sum(seq![a, b]) == letter_value(b)
            - letter_value(a),
{
    let f = seq![a, b];
    assert(f.drop_first() =~= seq![b]);
    assert(seq![b].drop_first() =~= Seq::<char>::empty());
    assert(numeral_sum(Seq::<char>::empty()) == 0);
    assert(numeral_sum(seq![b]) == letter_value(b));
}

proof fn lemma_digit_sum(d: int, one: char, five: char, ten: char)
    requires
        0 <= d <= 9,
        letter_value(one) > 0,
        letter_value(five) == 5 * letter_value(one),
        letter_value(ten) == 10 * letter_value(one),
    ensures
        numeral_sum(digit_form(d, one, five, ten)) == d * letter_value(one),
        digit_form(d, one, five, ten).len() <= 4,
        forall|i: int|
            0 <= i < digit_form(d, one, five, ten).len() ==> {
                let c = #[trigger] digit_form(d, one, five, ten)[i];
                c == one || c == five || c == ten
            },
        d > 0 ==> digit_form(d, one, five, ten).len() > 0,
        d > 0 ==> letter_value(digit_form(d, one, five, ten)[0]) <= 5 * letter_value(one),
{
    if d <= 3 {
        lemma_repeat_sum(one, d);
    } else if d == 4 {
        lemma_pair_sum(one, five);
    } else if d <= 8 {
        lemma_repeat_sum(one, d - 5);
        lemma_sum_concat(seq![five], repeat(one, d - 5));
        assert(seq![five].drop_first() =~= Seq::<char>::empty());
        assert(numeral_sum(Seq::<char>::empty()) == 0);
        assert(numeral_sum(seq![five]) == letter_value(five));
        assert((d - 5) * letter_value(one) + 5 * letter_value(one) == d * letter_value(one))
            by (nonlinear_arith);
    } else {
        lemma_pair_sum(one, ten);
    }
}

proof fn lemma_place_bounds(v: int)
    requires
        1 <= v <= 3999,
    ensures
        0 <= v / 1000 <= 3,
        0 <= (v / 100) % 10 <= 9,
        0 <= (v / 10) % 10 <= 9,
        0 <= v % 10 <= 9,
        v == (v / 1000) * 1000 + ((v / 100) % 10) * 100 + ((v / 10) % 10) * 10 + v % 10,
{
    assert(v == (v / 1000) * 1000 + ((v / 100) % 10) * 100 + ((v / 10) % 10) * 10 + v % 10)
        by (nonlinear_arith)
        requires
            1 <= v <= 3999,
    ;
}

proof fn lemma_roman_parts(v: int)
    requires
        1 <= v <= 3999,
    ensures
        numeral_sum(roman_of(v)) == v,
        roman_of(v).len() <= 15,
        forall|i: int| 0 <= i < roman_of(v).len() ==> is_roman_letter(#[trigger] roman_of(v)[i]),
{
    let a = v / 1000;
    let b = (v / 100) % 10;
    let c = (v / 10) % 10;
    let d = v % 10;
    lemma_place_bounds(v);
    let th = repeat('M', a);
    let h = digit_form(b, 'C', 'D', 'M');
    let t = digit_form(c, 'X', 'L', 'C');
    let u = digit_form(d, 'I', 'V', 'X');
    lemma_repeat_sum('M', a);
    lemma_digit_sum(b, 'C', 'D', 'M');
    lemma_digit_sum(c, 'X', 'L', 'C');
    lemma_digit_sum(d, 'I', 'V', 'X');
    lemma_sum_concat(t, u);
    assert(t.len() == 0 || letter_value((t + u).last()) >= 1);
    lemma_sum_concat(h, t + u);
    lemma_sum_concat(th, h + (t + u));
    assert(roman_of(v) =~= th + (h + (t + u)));
    let r = roman_of(v);
    assert forall|i: int| 0 <= i < r.len() implies is_roman_letter(#[trigger] r[i]) by {
        if i < th.len() {
            assert(r[i] == th[i]);
        } else if i < th.len() + h.len() {
            assert(r[i] == h[i - th.len()]);
        } else if i < th.len() + h.len() + t.len() {
            assert(r[i] == t[i - th.len() - h.len()]);
        } else {
            assert(r[i] == u[i - th.len() - h.len() - t.len()]);
        }
    }
}

/// The canonical spelling of a value in 1..=3999 is a non-empty string of
/// Roman letters whose subtractive-notation sum is that value.
proof fn lemma_roman_of_sum(v: int)
    requires
        1 <= v <= 3999,
    ensures
        numeral_sum(roman_of(v)) == v,
        0 < roman_of(v).len() <= 15,
        forall|i: int| 0 <= i < roman_of(v).len() ==> is_roman_letter(#[trigger] roman_of(v)[i]),
{
    lemma_roman_parts(v);
}

/// Encoding and decoding are mutual inverses: the spelling of every value in
/// 1..=3999 is canonical and decodes to that value, and every canonical
/// spelling is the encoding of the value it decodes to.
pub proof fn lemma_round_trip(v: int, s: Seq<char>)
    requires
        1 <= v <= 3999,
    ensures
        is_canonical(roman_of(v)),
        numeral_sum(roman_of(v)) == v,
        is_canonical(s) ==> roman_of(numeral_sum(s)) == s,
{
    lemma_roman_of_sum(v);
}

/// The value a string decodes to, if it is a canonical numeral.
pub open spec fn roman_value(s: Seq<char>) -> Option<int> {
    if is_canonical(s) {
        Some(numeral_sum(s))
    } else {
        None
    }
}

/// The two ways the codec can fail.
#[derive(Debug, Clone, Copy, PartialEq, Eq, Structural)]
pub enum ParseRomanNumeralError {
    /// A string that is not the canonical spelling of a value in 1..=3999.
    InvalidNumeral,
    /// A value outside 1..=3999.
    OutOfRange,
}

impl ParseRomanNumeralError {
    /// A sentence that describes the error.
    pub fn to_string(&self) -> (r: String)
        ensures
            *self == ParseRomanNumeralError::InvalidNumeral ==> r@
                == "invalid string for roman numeral"@,
            *self == ParseRomanNumeralError::OutOfRange ==> r@
                == "value out of range for roman numeral"@,
    {
        match self {
            ParseRomanNumeralError::InvalidNumeral => String::from_str(
                "invalid string for roman numeral",
            ),
            ParseRomanNumeralError::OutOfRange => String::from_str(
                "value out of range for roman numeral",
            ),
        }
    }
}

/// Pushes `n` copies of `c`.
fn push_repeat(v: &mut Vec<char>, c: char, n: u32)
    requires
        n <= 3,
    ensures
        final(v)@ == old(v)@ + repeat(c, n as int),
{
    let mut i: u32 = 0;
    while i < n
        invariant
            i <= n,
            v@ == old(v)@ + repeat(c, i as int),
        decreases n - i,
    {
        v.push(c);
        i = i + 1;
        assert(v@ =~= old(v)@ + repeat(c, i as int));
    }
}

/// Pushes the spelling of decimal digit `d`.
fn push_digit(v: &mut Vec<char>, d: u32, one: char, five: char, ten: char)
    requires
        d <= 9,
    ensures
        final(v)@ == old(v)@ + digit_form(d as int, one, five, ten),
{
    if d <= 3 {
        push_repeat(v, one, d);
    } else if d == 4 {
        v.push(one);
        v.push(five);
        assert(v@ =~= old(v)@ + seq![one, five]);
    } else if d <= 8 {
        v.push(five);
        push_repeat(v, one, d - 5);
        assert(v@ =~= old(v)@ + (seq![five] + repeat(one, d - 5)));
    } else {
        v.push(one);
        v.push(ten);
        assert(v@ =~= old(v)@ + seq![one, ten]);
    }
}

/// The canonical spelling of `num`, as characters.
fn roman_chars(num: u32) -> (r: Vec<char>)
    requires
        1 <= num <= 3999,
    ensures
        r@ == roman_of(num as int),
{
    let thousands = num / 1000;
    let hundreds = (num / 100) % 10;
    let tens = (num / 10) % 10;
    let units = num % 10;
    let mut r: Vec<char> = Vec::new();
    push_repeat(&mut r, 'M', thousands);
    push_digit(&mut r, hundreds, 'C', 'D', 'M');
    push_digit(&mut r, tens, 'X', 'L', 'C');
    push_digit(&mut r, units, 'I', 'V', 'X');
    assert(r@ =~= roman_of(num as int));
    r
}

/// Whether `c` is one of `IVXLCDM`.
pub fn is_letter(c: char) -> (r: bool)
    ensures
        r == is_roman_letter(c),
{
    letter_weight(c) > 0
}

/// The weight of a Roman letter, 0 for any other character.
fn letter_weight(c: char) -> (r: i32)
    ensures
        r == letter_value(c),
{
    match c {
        'I' => 1,
        'V' => 5,
        'X' => 10,
        'L' => 50,
        'C' => 100,
        'D' => 500,
        'M' => 1000,
        _ => 0,
    }
}

/// A value in 1..=3999 together with its canonical Roman spelling.
#[derive(Debug)]
pub struct Roman {
    pub(crate) repr: String,
    pub(crate) value: i32,
}

impl Roman {
    #[verifier::type_invariant]
    closed spec fn inv(&self) -> bool {
        1 <= self.value <= 3999 && self.repr@ == roman_of(self.value as int)
    }

    /// The value.
    pub closed spec fn spec_value(&self) -> int {
        self.value as int
    }

    /// The spelling.
    pub closed spec fn spec_repr(&self) -> Seq<char> {
        self.repr@
    }

    /// The numeral for `num`, which must lie in 1..=3999.
    pub fn from(num: u32) -> (r: Roman)
        requires
            1 <= num <= 3999,
        ensures
            r.spec_value() == num,
            r.spec_repr() == roman_of(num as int),
    {
        let chars = roman_chars(num);
        Roman { repr: string_of(&chars), value: num as i32 }
    }

    /// The numeral for `num`, or `OutOfRange` when `num` lies outside 1..=3999.
    pub fn encode(num: u32) -> (r: Result<Roman, ParseRomanNumeralError>)
        ensures
            match r {
                Ok(x) => 1 <= num <= 3999 && x.spec_value() == num && x.spec_repr() == roman_of(
                    num as int,
                ),
                Err(e) => !(1 <= num <= 3999) && e == ParseRomanNumeralError::OutOfRange,
            },
    {
        if 1 <= num && num <= 3999 {
            Ok(Roman::from(num))
        } else {
            Err(ParseRomanNumeralError::OutOfRange)
        }
    }

    /// Reads a numeral. Only canonical spellings are accepted: `"IV"` is 4,
    /// while `"IIII"`, `"VX"` or `"CMCD"` are `InvalidNumeral`, as are the
    /// empty string and any character outside `IVXLCDM`.
    pub fn decode(s: &str) -> (r: Result<Roman, ParseRomanNumeralError>)
        ensures
            match r {
                Ok(x) => is_canonical(s@) && x.spec_value() == numeral_sum(s@) && x.spec_repr()
                    == s@,
                Err(e) => !is_canonical(s@) && e == ParseRomanNumeralError::InvalidNumeral,
            },
    {
        let chars = chars_of(s);
        let n = chars.len();
        if n == 0 || n > 15 {
            proof {
                if is_canonical(s@) {
                    lemma_roman_of_sum(numeral_sum(s@));
                }
            }
            return Err(ParseRomanNumeralError::InvalidNumeral);
        }
        let mut sum: i32 = 0;
        let mut i: usize = 0;
        assert(s@.subrange(0, n as int) =~= s@);
        while i < n
            invariant
                n == chars.len(),
                1 <= n <= 15,
                chars@ == s@,
                i <= n,
                -1000 * i <= sum <= 1000 * i,
                sum + numeral_sum(s@.subrange(i as int, n as int)) == numeral_sum(s@),
            decreases n - i,
        {
            let ghost rest = s@.subrange(i as int, n as int);
            assert(rest.drop_first() =~= s@.subrange(i + 1, n as int));
            let w = letter_weight(chars[i]);
            if i + 1 < n && w < letter_weight(chars[i + 1]) {
                sum = sum - w;
            } else {
                sum = sum + w;
            }
            i = i + 1;
        }
        assert(s@.subrange(n as int, n as int) =~= Seq::<char>::empty());
        if sum <= 0 || sum >= 4000 {
            return Err(ParseRomanNumeralError::InvalidNumeral);
        }
        let canonical = roman_chars(sum as u32);
        if !same_chars(&canonical, &chars) {
            return Err(ParseRomanNumeralError::InvalidNumeral);
        }
        Ok(Roman { repr: string_of(&chars), value: sum })
    }

    /// The value, in 1..=3999.
    pub fn get_value(&self) -> (r: i32)
        ensures
            r == self.spec_value(),
            1 <= r <= 3999,
            self.spec_repr() == roman_of(r as int),
    {
        proof {
            use_type_invariant(self);
        }
        self.value
    }

    /// The spelling and the value, as `<spelling>:<value>`.
    pub fn to_string(&self) -> (r: String)
        ensures
            r@ == self.spec_repr().push(':') + decimal(self.spec_value() as nat),
    {
        proof {
            use_type_invariant(self);
        }
        let mut out = self.repr.clone();
        push_char(&mut out, ':');
        push_decimal(&mut out, self.value as u32);
        out
    }

    /// The canonical spelling.
    pub fn get_representation(&self) -> (r: String)
        ensures
            r@ == self.spec_repr(),
    {
        self.repr.clone()
    }
}

impl core::str::FromStr for Roman {
    type Err = ParseRomanNumeralError;

    /// Reads a numeral, as [`Roman::decode`] does.
    fn from_str(s: &str) -> (r: Result<Roman, ParseRomanNumeralError>)
        ensures
            match r {
                Ok(x) => is_canonical(s@) && x.spec_value() == numeral_sum(s@) && x.spec_repr()
                    == s@,
                Err(e) => !is_canonical(s@) && e == ParseRomanNumeralError::InvalidNumeral,
            },
    {
        Roman::decode(s)
    }
}

} // verus!
