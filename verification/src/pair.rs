//! A currency pair.

use vstd::prelude::*;
use vstd::string::*;

verus! {

/// The canonical rendering of a pair: `base-quote`.
pub open spec fn spec_pair_string(base: Seq<char>, quote: Seq<char>) -> Seq<char> {
    base + "-"@ + quote
}

/// The JSON-like rendering of a pair.
pub open spec fn spec_pair_json(p: Pair) -> Seq<char> {
    "{\"Pair\":{\"base\":\""@ + p.base@ + "\",\"quote\":\""@ + p.quote@ + "\",\"asString\":\""@
        + p.as_string@ + "\"}}"@
}

/// A market pair of a base and a quote currency, with its canonical
/// `base-quote` rendering kept alongside.
#[derive(Debug, Clone, Hash)]
pub struct Pair {
    /// The base currency name.
    pub base: String,
    /// The quote currency name.
    pub quote: String,
    /// The canonical rendering `base-quote`.
    pub as_string: String,
}

impl Pair {
    /// A pair of `base` and `quote`, rendered as `base-quote`.
    pub fn new(base: String, quote: String) -> (p: Pair)
        ensures
            p.base == base,
            p.quote == quote,
            p.as_string@ == spec_pair_string(base@, quote@),
    {
        let mut as_string = base.clone();
        as_string.append("-");
        as_string.append(quote.as_str());
        Pair { base, quote, as_string }
    }

    /// Whether the named currency is one side of the pair.  The
    /// full currency record carries fee figures the library does
    /// not hold; only the name takes part in the comparison.
    pub fn contains(&self, currency_name: &String) -> (b: bool)
        ensures
            b == (self.base@ == currency_name@ || self.quote@ == currency_name@),
    {
        self.base == *currency_name || self.quote == *currency_name
    }

    /// The same pair the other way round.
    pub fn get_swap(&self) -> (p: Pair)
        ensures
            p.base == self.quote,
            p.quote == self.base,
            p.as_string@ == spec_pair_string(self.quote@, self.base@),
    {
        Pair::new(self.quote.clone(), self.base.clone())
    }

    /// The JSON-like rendering of the pair.
    pub fn to_string(&self) -> (s: String)
        ensures
            s@ == spec_pair_json(*self),
    {
        let mut s = "{\"Pair\":{\"base\":\"".to_owned();
        s.append(self.base.as_str());
        s.append("\",\"quote\":\"");
        s.append(self.quote.as_str());
        s.append("\",\"asString\":\"");
        s.append(self.as_string.as_str());
        s.append("\"}}");
        s
    }
}

impl PartialEq for Pair {
    /// Pairs are equal when base and quote agree; the rendering is
    /// derived and not compared.
    fn eq(&self, other: &Pair) -> (r: bool) {
        self.base == other.base && self.quote == other.quote
    }
}

impl vstd::std_specs::cmp::PartialEqSpecImpl for Pair {
    open spec fn obeys_eq_spec() -> bool {
        true
    }

    open spec fn eq_spec(&self, other: &Pair) -> bool {
        self.base@ == other.base@ && self.quote@ == other.quote@
    }
}

impl Eq for Pair {

}

} // verus!
