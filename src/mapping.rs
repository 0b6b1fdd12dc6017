//! The two lookup tables: alien token to Roman letter, and unit name to rate.
use vstd::prelude::*;

verus! {

/// What a list of definitions means: later definitions of a key replace
/// earlier ones.
pub open spec fn definitions_map<V>(e: Seq<(Seq<char>, V)>) -> Map<Seq<char>, V>
    decreases e.len(),
{
    if e.len() == 0 {
        Map::empty()
    } else {
        definitions_map(e.drop_last()).insert(e.last().0, e.last().1)
    }
}

/// A table from words to values, filled in the order definitions are read.
pub struct TokenMap<V> {
    entries: Vec<(String, V)>,
}

/// Alien token to Roman letter.
pub type NumeralMapping = TokenMap<char>;

/// Unit name to the price of one unit.
pub type UnitMapping = TokenMap<Rate>;

impl<V: Copy> View for TokenMap<V> {
    type V = Map<Seq<char>, V>;

    closed spec fn view(&self) -> Map<Seq<char>, V> {
        definitions_map(self.entries@.map_values(|p: (String, V)| (p.0@, p.1)))
    }
}

impl<V: Copy> TokenMap<V> {
    /// An empty table.
    pub fn new() -> (r: TokenMap<V>)
        ensures
            r@ == Map::<Seq<char>, V>::empty(),
    {
        TokenMap { entries: Vec::new() }
    }

    /// Defines `key` as `value`, replacing an earlier definition of `key`.
    pub fn insert(&mut self, key: String, value: V)
        ensures
            final(self)@ == old(self)@.insert(key@, value),
    {
        let ghost before = self.entries@.map_values(|p: (String, V)| (p.0@, p.1));
        self.entries.push((key, value));
        let ghost after = self.entries@.map_values(|p: (String, V)| (p.0@, p.1));
        assert(after.drop_last() =~= before);
    }

    /// The value defined for `key`, if any.
    pub fn get(&self, key: &String) -> (r: Option<V>)
        ensures
            r == (if self@.contains_key(key@) {
                Some(self@[key@])
            } else {
                None::<V>
            }),
    {
        let ghost e = self.entries@.map_values(|p: (String, V)| (p.0@, p.1));
        let mut i: usize = self.entries.len();
        assert(e.take(i as int) =~= e);
        while i > 0
            invariant
                i <= self.entries.len(),
                e == self.entries@.map_values(|p: (String, V)| (p.0@, p.1)),
                definitions_map(e).contains_key(key@) == definitions_map(e.take(i as int))
                    .contains_key(key@),
                definitions_map(e).contains_key(key@) ==> definitions_map(e)[key@]
                    == definitions_map(e.take(i as int))[key@],
            decreases i,
        {
            assert(e.take(i as int).drop_last() =~= e.take(i - 1));
            let entry = &self.entries[i - 1];
            if entry.0 == *key {
                return Some(entry.1);
            }
            i = i - 1;
        }
        assert(e.take(0) =~= Seq::<(Seq<char>, V)>::empty());
        None
    }
}

proof fn lemma_product_fits(x: int, y: int)
    requires
        i32::MIN <= x <= i32::MAX,
        i32::MIN <= y <= i32::MAX,
    ensures
        i64::MIN <= x * y <= i64::MAX,
{
    assert(-0x4000_0000_0000_0000 <= x * y <= 0x4000_0000_0000_0000) by (nonlinear_arith)
        requires
            -0x8000_0000 <= x <= 0x7fff_ffff,
            -0x8000_0000 <= y <= 0x7fff_ffff,
    ;
}

/// A price: `credits` Credits for `amount` units.
#[derive(Debug, Clone, Copy, PartialEq, Eq, Structural)]
pub struct Rate {
    pub credits: i32,
    pub amount: i32,
}

impl Rate {
    /// Whether two prices are the same ratio.
    pub fn same_as(&self, other: &Rate) -> (r: bool)
        ensures
            r == (self.credits * other.amount == other.credits * self.amount),
    {
        let a = self.credits as i64;
        let b = other.amount as i64;
        let c = other.credits as i64;
        let d = self.amount as i64;
        proof {
            lemma_product_fits(a as int, b as int);
            lemma_product_fits(c as int, d as int);
        }
        a * b == c * d
    }
}

} // verus!
