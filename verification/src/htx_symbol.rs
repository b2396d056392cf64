//! The instrument catalog and its filter pipeline.
//!
//! The exchange's symbol endpoint answers with a catalog of
//! instruments; only those that are online, tradable, cancellable,
//! visible, not delisted and not country-disabled are routed.  The
//! catalog here holds the fields that the pipeline reads as plain
//! values; fetching and decoding the endpoint's reply happens
//! outside the library and hands the catalog in.

use vstd::prelude::*;
use vstd::string::*;

verus! {

/// The request path of the symbol catalog endpoint.
pub const PATH: &'static str = "/v1/settings/common/symbols";

/// One instrument of the catalog: the fields the filter pipeline
/// and the subscription builder read.
#[derive(Debug)]
pub struct HtxSymbol {
    /// The instrument name, as subscribed on the stream.
    pub symbol: Option<String>,
    /// The listing state; only `online` instruments are routed.
    pub state: Option<String>,
    /// Whether the instrument is visible.
    pub visible: Option<bool>,
    /// Whether the instrument is being delisted.
    pub delist: Option<bool>,
    /// Whether the instrument is disabled for this country.
    pub country_disabled: Option<bool>,
    /// Whether trading is enabled.
    pub trade_enabled: Option<bool>,
    /// Whether cancelling is enabled.
    pub cancel_enabled: Option<bool>,
}

impl Clone for HtxSymbol {
    /// A clone carries exactly the same fields.
    fn clone(&self) -> (r: Self)
        ensures
            r == self,
    {
        HtxSymbol {
            symbol: clone_optional_string(&self.symbol),
            state: clone_optional_string(&self.state),
            visible: self.visible,
            delist: self.delist,
            country_disabled: self.country_disabled,
            trade_enabled: self.trade_enabled,
            cancel_enabled: self.cancel_enabled,
        }
    }
}

/// A field-for-field copy of an optional string.
fn clone_optional_string(s: &Option<String>) -> (r: Option<String>)
    ensures
        r == s,
{
    match s {
        Some(x) => Some(x.clone()),
        None => None,
    }
}

/// The six catalog filters.
#[derive(Clone, Copy, Debug, PartialEq, Eq, Structural)]
pub enum SymbolFilter {
    Online,
    TradeEnabled,
    CancelEnabled,
    Visible,
    Listed,
    CountryEnabled,
}

/// Whether one instrument passes one filter.
pub open spec fn passes_filter(kind: SymbolFilter, s: HtxSymbol) -> bool {
    match kind {
        SymbolFilter::Online => s.state matches Some(st) && st@ == "online"@,
        SymbolFilter::TradeEnabled => s.trade_enabled == Some(true),
        SymbolFilter::CancelEnabled => s.cancel_enabled == Some(true),
        SymbolFilter::Visible => s.visible == Some(true),
        SymbolFilter::Listed => s.delist == Some(false),
        SymbolFilter::CountryEnabled => s.country_disabled == Some(false),
    }
}

/// Whether one instrument passes one filter.
fn symbol_passes(kind: SymbolFilter, s: &HtxSymbol) -> (b: bool)
    ensures
        b == passes_filter(kind, *s),
{
    match kind {
        SymbolFilter::Online => match &s.state {
            Some(st) => {
                let online: String = "online".to_owned();
                *st == online
            },
            None => false,
        },
        SymbolFilter::TradeEnabled => s.trade_enabled == Some(true),
        SymbolFilter::CancelEnabled => s.cancel_enabled == Some(true),
        SymbolFilter::Visible => s.visible == Some(true),
        SymbolFilter::Listed => s.delist == Some(false),
        SymbolFilter::CountryEnabled => s.country_disabled == Some(false),
    }
}

/// The instruments of `data` that pass `kind`, in order.
fn filter_data(data: &Vec<HtxSymbol>, kind: SymbolFilter) -> (out: Vec<HtxSymbol>)
    ensures
        out@ == data@.filter(|s: HtxSymbol| passes_filter(kind, s)),
{
    let mut out: Vec<HtxSymbol> = Vec::new();
    let mut i: usize = 0;
    proof {
        reveal(Seq::filter);
        assert(data@.take(0int) =~= Seq::<HtxSymbol>::empty());
    }
    while i < data.len()
        invariant
            i <= data@.len(),
            out@ == data@.take(i as int).filter(|s: HtxSymbol| passes_filter(kind, s)),
        decreases data@.len() - i,
    {
        if symbol_passes(kind, &data[i]) {
            let copy = data[i].clone();
            out.push(copy);
        }
        proof {
            reveal(Seq::filter);
            assert(data@.take(i + 1).drop_last() =~= data@.take(i as int));
            assert(data@.take(i + 1).last() == data@[i as int]);
        }
        i = i + 1;
    }
    proof {
        assert(data@.take(i as int) =~= data@);
    }
    out
}

/// The catalog as the symbol endpoint answers it: status fields,
/// the instruments, and the error fields an erroneous reply carries.
#[derive(Debug)]
pub struct HtxSymbols {
    /// The reply status word.
    pub status: String,
    /// The instruments.
    pub data: Vec<HtxSymbol>,
    /// The reply timestamp, as sent.
    pub timestamp: String,
    /// The full-data flag: 1 for a full catalog, 0 for incremental.
    pub full: i8,
    /// The error code of an erroneous reply.
    pub err_code: Option<String>,
    /// The error message of an erroneous reply.
    pub err_msg: Option<String>,
}

/// The name of one catalog instrument, when it has one.
pub open spec fn symbol_name_of(s: HtxSymbol) -> Option<Seq<char>> {
    match s.symbol {
        Option::Some(n) => Option::Some(n@),
        Option::None => Option::None,
    }
}

/// The error text a catalog reply carries: the code, the message,
/// or `code: message` when both are present and the code is not
/// empty.
pub open spec fn spec_error_message(code: Option<String>, msg: Option<String>) -> Option<
    Seq<char>,
> {
    match (code, msg) {
        (Option::None, Option::None) => Option::None,
        (Option::Some(c), Option::None) => Option::Some(c@),
        (Option::None, Option::Some(m)) => Option::Some(m@),
        (Option::Some(c), Option::Some(m)) => Option::Some(
            if c@.len() == 0 {
                m@
            } else {
                c@ + ": "@ + m@
            },
        ),
    }
}

impl HtxSymbols {
    /// The catalog restricted by one filter, all reply fields kept.
    fn filtered(&self, kind: SymbolFilter) -> (r: HtxSymbols)
        ensures
            r.data@ == self.data@.filter(|s: HtxSymbol| passes_filter(kind, s)),
            r.status == self.status,
            r.timestamp == self.timestamp,
            r.full == self.full,
            r.err_code == self.err_code,
            r.err_msg == self.err_msg,
    {
        HtxSymbols {
            status: self.status.clone(),
            data: filter_data(&self.data, kind),
            timestamp: self.timestamp.clone(),
            full: self.full,
            err_code: clone_optional_string(&self.err_code),
            err_msg: clone_optional_string(&self.err_msg),
        }
    }

    /// Keeps the instruments whose state is `online`.
    pub fn with_online_symbols(&self) -> (r: HtxSymbols)
        ensures
            r.data@ == self.data@.filter(
                |s: HtxSymbol| passes_filter(SymbolFilter::Online, s),
            ),
            r.status == self.status,
            r.timestamp == self.timestamp,
            r.full == self.full,
            r.err_code == self.err_code,
            r.err_msg == self.err_msg,
    {
        self.filtered(SymbolFilter::Online)
    }

    /// Keeps the instruments with trading enabled.
    pub fn with_trade_enabled_symbols(&self) -> (r: HtxSymbols)
        ensures
            r.data@ == self.data@.filter(
                |s: HtxSymbol| passes_filter(SymbolFilter::TradeEnabled, s),
            ),
            r.status == self.status,
            r.timestamp == self.timestamp,
            r.full == self.full,
            r.err_code == self.err_code,
            r.err_msg == self.err_msg,
    {
        self.filtered(SymbolFilter::TradeEnabled)
    }

    /// Keeps the instruments with cancelling enabled.
    pub fn with_cancel_enabled_symbols(&self) -> (r: HtxSymbols)
        ensures
            r.data@ == self.data@.filter(
                |s: HtxSymbol| passes_filter(SymbolFilter::CancelEnabled, s),
            ),
            r.status == self.status,
            r.timestamp == self.timestamp,
            r.full == self.full,
            r.err_code == self.err_code,
            r.err_msg == self.err_msg,
    {
        self.filtered(SymbolFilter::CancelEnabled)
    }

    /// Keeps the visible instruments.
    pub fn with_visible_symbols(&self) -> (r: HtxSymbols)
        ensures
            r.data@ == self.data@.filter(
                |s: HtxSymbol| passes_filter(SymbolFilter::Visible, s),
            ),
            r.status == self.status,
            r.timestamp == self.timestamp,
            r.full == self.full,
            r.err_code == self.err_code,
            r.err_msg == self.err_msg,
    {
        self.filtered(SymbolFilter::Visible)
    }

    /// Keeps the instruments that are not being delisted.
    pub fn with_listed_symbols(&self) -> (r: HtxSymbols)
        ensures
            r.data@ == self.data@.filter(
                |s: HtxSymbol| passes_filter(SymbolFilter::Listed, s),
            ),
            r.status == self.status,
            r.timestamp == self.timestamp,
            r.full == self.full,
            r.err_code == self.err_code,
            r.err_msg == self.err_msg,
    {
        self.filtered(SymbolFilter::Listed)
    }

    /// Keeps the instruments not disabled for this country.
    pub fn with_country_enabled(&self) -> (r: HtxSymbols)
        ensures
            r.data@ == self.data@.filter(
                |s: HtxSymbol| passes_filter(SymbolFilter::CountryEnabled, s),
            ),
            r.status == self.status,
            r.timestamp == self.timestamp,
            r.full == self.full,
            r.err_code == self.err_code,
            r.err_msg == self.err_msg,
    {
        self.filtered(SymbolFilter::CountryEnabled)
    }

    /// How many instruments the catalog holds.
    pub fn len(&self) -> (n: usize)
        ensures
            n == self.data@.len(),
    {
        self.data.len()
    }

    /// The error a reply carries, if any: `Err` exactly when the
    /// reply has an error code or an error message, with the text
    /// combined as `code: message`.
    pub fn get_error(&self) -> (r: Result<(), String>)
        ensures
            match r {
                Ok(_) => self.err_code is None && self.err_msg is None,
                Err(e) => Some(e@) == spec_error_message(self.err_code, self.err_msg),
            },
            r is Err <==> self.err_code is Some || self.err_msg is Some,
    {
        match (&self.err_code, &self.err_msg) {
            (None, None) => Ok(()),
            (Some(c), None) => Err(c.clone()),
            (None, Some(m)) => Err(m.clone()),
            (Some(c), Some(m)) => {
                if c.as_str().unicode_len() == 0 {
                    Err(m.clone())
                } else {
                    let mut e = c.clone();
                    e.append(": ");
                    e.append(m.as_str());
                    Err(e)
                }
            },
        }
    }

    /// The instrument names of the catalog rows `start..end`, in
    /// order — the names one partition subscribes to and routes by.
    ///
    /// Yields nothing exactly when a row in the range has no name;
    /// the caller treats that as fatal, since a nameless instrument
    /// cannot be subscribed.
    pub fn subscription_names(&self, start: usize, end: usize) -> (r: Option<Vec<String>>)
        requires
            start <= end <= self.data@.len(),
        ensures
            match r {
                Some(names) => {
                    &&& names@.len() == end - start
                    &&& forall|k: int|
                        0 <= k < names@.len() ==> Some(#[trigger] names@[k]@) == symbol_name_of(
                            self.data@[start + k],
                        )
                },
                None => exists|k: int|
                    start <= k < end && #[trigger] self.data@[k].symbol is None,
            },
    {
        let mut names: Vec<String> = Vec::new();
        let mut i: usize = start;
        while i < end
            invariant
                start <= i <= end <= self.data@.len(),
                names@.len() == i - start,
                forall|k: int|
                    0 <= k < names@.len() ==> Some(#[trigger] names@[k]@) == symbol_name_of(
                        self.data@[start + k],
                    ),
            decreases end - i,
        {
            let ghost prev_names = names@;
            match &self.data[i].symbol {
                Some(name) => {
                    let cloned = name.clone();
                    names.push(cloned);
                    proof {
                        assert forall|k: int|
                            0 <= k < names@.len() implies Some(#[trigger] names@[k]@)
                            == symbol_name_of(self.data@[start + k]) by {
                            if k < prev_names.len() {
                                assert(names@[k] == prev_names[k]);
                                assert(Some(prev_names[k]@) == symbol_name_of(
                                    self.data@[start + k],
                                ));
                            } else {
                                assert(names@[k] == cloned);
                                assert(self.data@[i as int].symbol == Some(*name));
                            }
                        }
                    }
                },
                None => {
                    return None;
                },
            }
            i = i + 1;
        }
        Some(names)
    }
}

} // verus!
