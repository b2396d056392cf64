//! The market catalog.
//!
//! The exchange's market endpoint answers with a catalog of markets;
//! only online markets are kept.  As with the instrument catalog,
//! the fields the logic reads are held as plain values and the
//! endpoint's reply is decoded outside the library.

use vstd::prelude::*;
use vstd::string::*;

verus! {

/// The request path of the market catalog endpoint.
pub const PATH: &'static str = "/v1/settings/common/market-symbols";

/// One market of the catalog: the fields the pipeline reads.
#[derive(Debug)]
pub struct HtxMarket {
    /// The market name.
    pub symbol: Option<String>,
    /// The base currency.
    pub base_currency: Option<String>,
    /// The quote currency.
    pub quote_currency: Option<String>,
    /// The listing state; only `online` markets are kept.
    pub state: Option<String>,
}

impl Clone for HtxMarket {
    /// A clone carries exactly the same fields.
    fn clone(&self) -> (r: Self)
        ensures
            r == self,
    {
        HtxMarket {
            symbol: clone_optional_string(&self.symbol),
            base_currency: clone_optional_string(&self.base_currency),
            quote_currency: clone_optional_string(&self.quote_currency),
            state: clone_optional_string(&self.state),
        }
    }
}

/// A field-for-field copy of an optional string.
fn clone_optional_string(s: &Option<String>) -> (r: Option<String>)
    ensures
        r == s,
{
    match s {
        Some(x) => Some(x.clone()),
        None => None,
    }
}

/// Whether a market is online.
pub open spec fn market_is_online(m: HtxMarket) -> bool {
    m.state matches Some(st) && st@ == "online"@
}

/// The catalog as the market endpoint answers it.
#[derive(Debug)]
pub struct HtxMarkets {
    /// The reply status word.
    pub status: Option<String>,
    /// The markets.
    pub data: Vec<HtxMarket>,
    /// The reply timestamp, as sent.
    pub timestamp: String,
    /// The full-data flag: 1 for a full catalog, 0 for incremental.
    pub full: i8,
    /// The error code of an erroneous reply.
    pub err_code: Option<String>,
    /// The error message of an erroneous reply.
    pub err_msg: Option<String>,
}

impl HtxMarkets {
    /// Keeps the markets whose state is `online`, all reply fields
    /// kept.
    pub fn with_online_markets(&self) -> (r: HtxMarkets)
        ensures
            r.data@ == self.data@.filter(|m: HtxMarket| market_is_online(m)),
            r.status == self.status,
            r.timestamp == self.timestamp,
            r.full == self.full,
            r.err_code == self.err_code,
            r.err_msg == self.err_msg,
    {
        let mut out: Vec<HtxMarket> = Vec::new();
        let mut i: usize = 0;
        proof {
            reveal(Seq::filter);
            assert(self.data@.take(0int) =~= Seq::<HtxMarket>::empty());
        }
        while i < self.data.len()
            invariant
                i <= self.data@.len(),
                out@ == self.data@.take(i as int).filter(|m: HtxMarket| market_is_online(m)),
            decreases self.data@.len() - i,
        {
            let online = match &self.data[i].state {
                Some(st) => {
                    let word: String = "online".to_owned();
                    *st == word
                },
                None => false,
            };
            if online {
                let copy = self.data[i].clone();
                out.push(copy);
            }
            proof {
                reveal(Seq::filter);
                assert(self.data@.take(i + 1).drop_last() =~= self.data@.take(i as int));
                assert(self.data@.take(i + 1).last() == self.data@[i as int]);
            }
            i = i + 1;
        }
        proof {
            assert(self.data@.take(i as int) =~= self.data@);
        }
        HtxMarkets {
            status: clone_optional_string(&self.status),
            data: out,
            timestamp: self.timestamp.clone(),
            full: self.full,
            err_code: clone_optional_string(&self.err_code),
            err_msg: clone_optional_string(&self.err_msg),
        }
    }

    /// How many markets the catalog holds.
    pub fn len(&self) -> (n: usize)
        ensures
            n == self.data@.len(),
    {
        self.data.len()
    }

    /// The error a reply carries, if any: `Err` exactly when the
    /// reply has an error code or an error message, with the text
    /// combined as `code: message`.
    pub fn get_error(&self) -> (r: Result<(), String>)
        ensures
            match r {
                Ok(_) => self.err_code is None && self.err_msg is None,
                Err(e) => Some(e@) == crate::htx_symbol::spec_error_message(
                    self.err_code,
                    self.err_msg,
                ),
            },
            r is Err <==> self.err_code is Some || self.err_msg is Some,
    {
        match (&self.err_code, &self.err_msg) {
            (None, None) => Ok(()),
            (Some(c), None) => Err(c.clone()),
            (None, Some(m)) => Err(m.clone()),
            (Some(c), Some(m)) => {
                if c.as_str().unicode_len() == 0 {
                    Err(m.clone())
                } else {
                    let mut e = c.clone();
                    e.append(": ");
                    e.append(m.as_str());
                    Err(e)
                }
            },
        }
    }
}

} // verus!
