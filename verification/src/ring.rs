//! A triangular ring of three market pairs.
//!
//! The ring's type encodes the direction each leg is traded in:
//! base side (`B`), quote side (`Q`), or the combined directions
//! `BQ` and `QB`; only the six listed direction triples form a
//! recognized ring type, every other triple gets type 0.

use vstd::prelude::*;
use vstd::string::*;
use crate::decimal::dec_chars_signed;
use crate::pair::{Pair, spec_pair_json};

verus! {

/// The ring type encoded by a direction triple, 0 when the triple
/// is not one of the six recognized ones.
pub open spec fn spec_ring_type(a_to_b: int, b_to_c: int, c_to_a: int) -> int {
    if a_to_b == 1 && b_to_c == 2 && c_to_a == 3 {
        1
    } else if a_to_b == 1 && b_to_c == 4 && c_to_a == 2 {
        2
    } else if a_to_b == 2 && b_to_c == 1 && c_to_a == 4 {
        3
    } else if a_to_b == 2 && b_to_c == 3 && c_to_a == 1 {
        4
    } else if a_to_b == 3 && b_to_c == 1 && c_to_a == 2 {
        5
    } else if a_to_b == 4 && b_to_c == 2 && c_to_a == 1 {
        6
    } else {
        0
    }
}

/// The canonical rendering of a ring:
/// `type a.as_string b.as_string c.as_string`.
pub open spec fn spec_ring_string(t: int, a: Seq<char>, b: Seq<char>, c: Seq<char>) -> Seq<
    char,
> {
    dec_chars_signed(t) + " "@ + a + " "@ + b + " "@ + c
}

/// The JSON-like rendering of a ring.
pub open spec fn spec_ring_json(r: Ring) -> Seq<char> {
    "{\"Ring\":{\"type\":\""@ + dec_chars_signed(r.ring_type as int) + "\", \"aMarketId\":\""@
        + dec_chars_signed(r.a_market_id as int) + "\", \"bMarketId\":\""@ + dec_chars_signed(
        r.b_market_id as int,
    ) + "\", \"cMarketId\":\""@ + dec_chars_signed(r.c_market_id as int) + "\", \"a\":"@
        + spec_pair_json(r.a) + ", \"b\":"@ + spec_pair_json(r.b) + ", \"c\":"@ + spec_pair_json(
        r.c,
    ) + ", \"asString\":\""@ + r.as_string@ + "\"}}"@
}

/// A ring of three market pairs with the ids of their markets, the
/// encoded ring type, and the canonical rendering kept alongside.
#[derive(Debug, Clone, Hash)]
pub struct Ring {
    /// The encoded direction triple, 0 when unrecognized.
    pub ring_type: i32,
    /// The market id of the first leg.
    pub a_market_id: i32,
    /// The market id of the second leg.
    pub b_market_id: i32,
    /// The market id of the third leg.
    pub c_market_id: i32,
    /// The first leg.
    pub a: Pair,
    /// The second leg.
    pub b: Pair,
    /// The third leg.
    pub c: Pair,
    /// The canonical rendering of the ring.
    pub as_string: String,
}

impl Ring {
    /// Direction triple `B Q BQ`.
    pub const TYPE_123: i32 = 1;

    /// Direction triple `B QB Q`.
    pub const TYPE_142: i32 = 2;

    /// Direction triple `Q B QB`.
    pub const TYPE_214: i32 = 3;

    /// Direction triple `Q BQ B`.
    pub const TYPE_231: i32 = 4;

    /// Direction triple `BQ B Q`.
    pub const TYPE_312: i32 = 5;

    /// Direction triple `QB Q B`.
    pub const TYPE_421: i32 = 6;

    /// A leg traded on the base side.
    pub const B: i32 = 1;

    /// A leg traded on the quote side.
    pub const Q: i32 = 2;

    /// A leg traded base-then-quote.
    pub const BQ: i32 = 3;

    /// A leg traded quote-then-base.
    pub const QB: i32 = 4;

    /// A ring of the three legs with their market ids and trade
    /// directions; the type encodes the direction triple.
    pub fn new(
        a_market_id: i32,
        b_market_id: i32,
        c_market_id: i32,
        a: Pair,
        b: Pair,
        c: Pair,
        a_to_b: i32,
        b_to_c: i32,
        c_to_a: i32,
    ) -> (r: Ring)
        ensures
            r.ring_type == spec_ring_type(a_to_b as int, b_to_c as int, c_to_a as int),
            r.a_market_id == a_market_id,
            r.b_market_id == b_market_id,
            r.c_market_id == c_market_id,
            r.a == a,
            r.b == b,
            r.c == c,
            r.as_string@ == spec_ring_string(r.ring_type as int, a.as_string@, b.as_string@, c.as_string@),
    {
        let ring_type: i32 = if a_to_b == 1 && b_to_c == 2 && c_to_a == 3 {
            1
        } else if a_to_b == 1 && b_to_c == 4 && c_to_a == 2 {
            2
        } else if a_to_b == 2 && b_to_c == 1 && c_to_a == 4 {
            3
        } else if a_to_b == 2 && b_to_c == 3 && c_to_a == 1 {
            4
        } else if a_to_b == 3 && b_to_c == 1 && c_to_a == 2 {
            5
        } else if a_to_b == 4 && b_to_c == 2 && c_to_a == 1 {
            6
        } else {
            0
        };
        let mut as_string = crate::decimal::i64_to_string(ring_type as i64);
        as_string.append(" ");
        as_string.append(a.as_string.as_str());
        as_string.append(" ");
        as_string.append(b.as_string.as_str());
        as_string.append(" ");
        as_string.append(c.as_string.as_str());
        Ring { ring_type, a_market_id, b_market_id, c_market_id, a, b, c, as_string }
    }

    /// Whether the named currency takes part in any leg of the
    /// ring, as base or quote.
    pub fn contains_currency(&self, currency_name: &String) -> (b: bool)
        ensures
            b == (self.a.base@ == currency_name@ || self.a.quote@ == currency_name@
                || self.b.base@ == currency_name@ || self.b.quote@ == currency_name@
                || self.c.base@ == currency_name@ || self.c.quote@ == currency_name@),
    {
        self.a.contains(currency_name) || self.b.contains(currency_name) || self.c.contains(
            currency_name,
        )
    }

    /// Whether `pair` is one of the ring's legs, compared by the
    /// canonical rendering.
    pub fn contains_pair(&self, pair: &Pair) -> (b: bool)
        ensures
            b == (self.a.as_string@ == pair.as_string@ || self.b.as_string@ == pair.as_string@
                || self.c.as_string@ == pair.as_string@),
    {
        self.a.as_string == pair.as_string || self.b.as_string == pair.as_string
            || self.c.as_string == pair.as_string
    }

    /// The JSON-like rendering of the ring.
    pub fn to_string(&self) -> (s: String)
        ensures
            s@ == spec_ring_json(*self),
    {
        let mut s = "{\"Ring\":{\"type\":\"".to_owned();
        let t = crate::decimal::i64_to_string(self.ring_type as i64);
        s.append(t.as_str());
        s.append("\", \"aMarketId\":\"");
        let ida = crate::decimal::i64_to_string(self.a_market_id as i64);
        s.append(ida.as_str());
        s.append("\", \"bMarketId\":\"");
        let idb = crate::decimal::i64_to_string(self.b_market_id as i64);
        s.append(idb.as_str());
        s.append("\", \"cMarketId\":\"");
        let idc = crate::decimal::i64_to_string(self.c_market_id as i64);
        s.append(idc.as_str());
        s.append("\", \"a\":");
        let pa = self.a.to_string();
        s.append(pa.as_str());
        s.append(", \"b\":");
        let pb = self.b.to_string();
        s.append(pb.as_str());
        s.append(", \"c\":");
        let pc = self.c.to_string();
        s.append(pc.as_str());
        s.append(", \"asString\":\"");
        s.append(self.as_string.as_str());
        s.append("\"}}");
        s
    }
}

impl PartialEq for Ring {
    /// Rings are equal when type, market ids and all three legs
    /// agree; the rendering is derived and not compared.
    fn eq(&self, other: &Ring) -> (r: bool) {
        self.ring_type == other.ring_type && self.a_market_id == other.a_market_id
            && self.b_market_id == other.b_market_id && self.c_market_id == other.c_market_id
            && self.a == other.a && self.b == other.b && self.c == other.c
    }
}

impl vstd::std_specs::cmp::PartialEqSpecImpl for Ring {
    open spec fn obeys_eq_spec() -> bool {
        true
    }

    open spec fn eq_spec(&self, other: &Ring) -> bool {
        &&& self.ring_type == other.ring_type
        &&& self.a_market_id == other.a_market_id
        &&& self.b_market_id == other.b_market_id
        &&& self.c_market_id == other.c_market_id
        &&& self.a.base@ == other.a.base@ && self.a.quote@ == other.a.quote@
        &&& self.b.base@ == other.b.base@ && self.b.quote@ == other.b.quote@
        &&& self.c.base@ == other.c.base@ && self.c.quote@ == other.c.quote@
    }
}

impl Eq for Ring {

}

} // verus!
