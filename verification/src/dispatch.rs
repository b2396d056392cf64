//! Classification and routing of inflated feed frames.
//!
//! Every inflated payload is classified by byte patterns, never by
//! JSON parsing: a frame whose first six bytes are `{"ping` is a
//! keepalive and is echoed back with byte 3 turned into `o`; a frame
//! naming a channel `market.<instrument>.bbo` is routed by the
//! instrument name to a slot and published; a frame with neither but
//! with the token `status` is an out-of-band acknowledgment and is
//! discarded; anything else means protocol drift and is fatal.

use vstd::prelude::*;
use crate::errors::WorkerError;
use crate::framing::MAX_HEADER_LEN;
use crate::shm_block_writer::SharedMemoryWriter;
use crate::slot_table::SlotTable;

verus! {

/// The bytes of `{"ping`.
pub open spec fn ping_prefix() -> Seq<u8> {
    seq![123u8, 34u8, 112u8, 105u8, 110u8, 103u8]
}

/// The bytes of `market.`.
pub open spec fn market_dot() -> Seq<u8> {
    seq![109u8, 97u8, 114u8, 107u8, 101u8, 116u8, 46u8]
}

/// The bytes of `.bbo`.
pub open spec fn bbo_suffix() -> Seq<u8> {
    seq![46u8, 98u8, 98u8, 111u8]
}

/// The bytes of `status`.
pub open spec fn status_token() -> Seq<u8> {
    seq![115u8, 116u8, 97u8, 116u8, 117u8, 115u8]
}

/// A keepalive: the first six bytes are exactly `{"ping`.
pub open spec fn is_ping_spec(m: Seq<u8>) -> bool {
    m.len() >= 6 && m.subrange(0, 6) == ping_prefix()
}

/// The echo of a keepalive: the same bytes with byte 3 turned into
/// `o`.
pub open spec fn pong_of(m: Seq<u8>) -> Seq<u8> {
    m.update(3, 111u8)
}

/// `needle` occurs in `h` starting at `i`.
pub open spec fn is_match_at(h: Seq<u8>, needle: Seq<u8>, i: int) -> bool {
    0 <= i && i + needle.len() <= h.len() && h.subrange(i, i + needle.len()) == needle
}

/// The first occurrence of `needle` in `h` at or after `from`.
pub open spec fn first_match_from(h: Seq<u8>, needle: Seq<u8>, from: int) -> Option<int>
    decreases h.len() - from,
{
    if from < 0 || from + needle.len() > h.len() {
        None
    } else if needle.len() == 0 || is_match_at(h, needle, from) {
        Some(from)
    } else {
        first_match_from(h, needle, from + 1)
    }
}

/// A found occurrence lies inside `h`, at or after `from`.
pub proof fn lemma_first_match_props(h: Seq<u8>, needle: Seq<u8>, from: int)
    requires
        0 <= from,
    ensures
        first_match_from(h, needle, from) matches Some(i) ==> from <= i && i + needle.len()
            <= h.len(),
    decreases h.len() - from,
{
    if !(from + needle.len() > h.len()) && needle.len() != 0 && !is_match_at(h, needle, from) {
        lemma_first_match_props(h, needle, from + 1);
    }
}

/// The instrument name of a market-data frame: the bytes between the
/// first `market.` and the first `.bbo` after it.
pub open spec fn spec_market_instrument(m: Seq<u8>) -> Option<Seq<u8>> {
    match first_match_from(m, market_dot(), 0) {
        Option::None => Option::None,
        Option::Some(i) => {
            let start = i + market_dot().len();
            match first_match_from(m, bbo_suffix(), start) {
                Option::None => Option::None,
                Option::Some(j) => Option::Some(m.subrange(start, j)),
            }
        },
    }
}

/// How a frame is classified, in order: keepalive; market data with
/// its instrument name; a market channel with no `.bbo` after it;
/// a status acknowledgment; protocol drift.
pub enum SpecFrameClass {
    Keepalive,
    Market(Seq<u8>),
    MarketMalformed,
    StatusAck,
    Unknown,
}

/// The classification of an inflated frame.
pub open spec fn spec_classify(m: Seq<u8>) -> SpecFrameClass {
    if is_ping_spec(m) {
        SpecFrameClass::Keepalive
    } else if first_match_from(m, market_dot(), 0) is Some {
        match spec_market_instrument(m) {
            Option::Some(name) => SpecFrameClass::Market(name),
            Option::None => SpecFrameClass::MarketMalformed,
        }
    } else if first_match_from(m, status_token(), 0) is Some {
        SpecFrameClass::StatusAck
    } else {
        SpecFrameClass::Unknown
    }
}

/// Whether the first six bytes of `msg` are exactly `{"ping`.
pub fn is_ping(msg: &[u8]) -> (b: bool)
    ensures
        b == is_ping_spec(msg@),
{
    if msg.len() < 6 {
        return false;
    }
    let b = msg[0] == 123 && msg[1] == 34 && msg[2] == 112 && msg[3] == 105 && msg[4] == 110
        && msg[5] == 103;
    proof {
        if b {
            assert(msg@.subrange(0, 6) =~= ping_prefix());
        } else {
            if msg@.subrange(0, 6) == ping_prefix() {
                assert(forall|k: int|
                    0 <= k < 6 ==> msg@[k] == #[trigger] msg@.subrange(0, 6)[k]);
            }
        }
    }
    b
}

/// Builds the pong for a keepalive: the same bytes with byte 3
/// turned into `o`.
pub fn make_pong(msg: &[u8]) -> (r: Vec<u8>)
    requires
        msg@.len() >= 4,
    ensures
        r@ == pong_of(msg@),
{
    let mut r = vstd::slice::slice_to_vec(msg);
    r.set(3, 111);
    r
}

/// The pong answers the ping in place: same length, every byte equal
/// except byte 3, which turns from the `i` of `{"ping` into an `o`.
pub proof fn lemma_pong_echoes_ping(m: Seq<u8>)
    requires
        is_ping_spec(m),
    ensures
        pong_of(m).len() == m.len(),
        forall|i: int| 0 <= i < m.len() && i != 3 ==> pong_of(m)[i] == m[i],
        pong_of(m)[3] == 111,
        m[3] == 105,
        pong_of(m)[3] != m[3],
{
    assert(m.subrange(0, 6)[3] == m[3]);
}

/// The first index at or after `from` where `needle` occurs in `h`.
pub fn find_subsequence(h: &[u8], needle: &[u8], from: usize) -> (r: Option<usize>)
    requires
        from <= h@.len(),
    ensures
        match r {
            Some(i) => Some(i as int) == first_match_from(h@, needle@, from as int),
            None => first_match_from(h@, needle@, from as int) is None,
        },
{
    if needle.len() > h.len() {
        return None;
    }
    let last_start: usize = h.len() - needle.len();
    if from > last_start {
        return None;
    }
    let mut i: usize = from;
    while i <= last_start
        invariant
            from <= i <= last_start + 1,
            needle@.len() <= h@.len(),
            last_start == h@.len() - needle@.len(),
            h@.len() <= usize::MAX,
            first_match_from(h@, needle@, from as int) == first_match_from(
                h@,
                needle@,
                i as int,
            ),
        decreases last_start + 1 - i,
    {
        let mut k: usize = 0;
        let mut found = true;
        while k < needle.len()
            invariant
                found ==> forall|q: int| 0 <= q < k ==> h@[i + q] == needle@[q],
                !found ==> !is_match_at(h@, needle@, i as int),
                i + needle@.len() <= h@.len(),
                h@.len() <= usize::MAX,
                k <= needle@.len(),
            decreases needle@.len() - k,
        {
            if h[i + k] != needle[k] {
                proof {
                    if is_match_at(h@, needle@, i as int) {
                        assert(h@.subrange(i as int, i + needle@.len())[k as int] == h@[i + k]);
                    }
                }
                found = false;
                k = needle.len();
            } else {
                k = k + 1;
            }
        }
        if found {
            proof {
                assert(h@.subrange(i as int, i + needle@.len()) =~= needle@);
            }
            return Some(i);
        }
        proof {
            if needle@.len() == 0 {
                assert(h@.subrange(i as int, i as int) =~= needle@);
                assert(false);
            }
        }
        i = i + 1;
    }
    None
}

/// Whether two byte strings hold the same bytes.
pub fn bytes_equal(a: &[u8], b: &[u8]) -> (eq: bool)
    ensures
        eq <==> a@ == b@,
{
    if a.len() != b.len() {
        proof {
            if a@ == b@ {
                assert(a@.len() == b@.len());
            }
        }
        return false;
    }
    let mut i: usize = 0;
    while i < a.len()
        invariant
            i <= a@.len() == b@.len(),
            forall|j: int| 0 <= j < i ==> a@[j] == b@[j],
        decreases a@.len() - i,
    {
        if a[i] != b[i] {
            return false;
        }
        i = i + 1;
    }
    proof {
        assert(a@ =~= b@);
    }
    true
}

/// The per-partition routing map: instrument `names[i]` routes to
/// slot `i` of the partition.  It is built once, when the
/// subscription is constructed, and never changes.
pub struct RoutingMap {
    names: Vec<Vec<u8>>,
}

impl RoutingMap {
    /// The instrument names, in slot order.
    pub closed spec fn names(&self) -> Seq<Seq<u8>> {
        self.names@.map_values(|v: Vec<u8>| v@)
    }

    /// The slot an instrument routes to: the first position holding
    /// its name.
    pub open spec fn spec_lookup(&self, name: Seq<u8>) -> Option<int> {
        self.names().index_of_first(name)
    }

    /// Builds the map from the instrument names of one partition, in
    /// slot order.
    pub fn from_names(names: Vec<Vec<u8>>) -> (m: RoutingMap)
        ensures
            m.names() == names@.map_values(|v: Vec<u8>| v@),
    {
        RoutingMap { names }
    }

    /// How many instruments the map routes.
    pub fn len(&self) -> (n: usize)
        ensures
            n == self.names().len(),
    {
        self.names.len()
    }

    /// The number of instruments does not exceed the partition
    /// width of `writer`, so every looked-up slot index is a valid
    /// chunk index.
    pub open spec fn fits_partition(&self, writer: &SharedMemoryWriter) -> bool {
        self.names().len() <= writer.chunk_count()
    }

    /// The slot index of `name`, or `None` when the map does not
    /// hold it.
    pub fn lookup(&self, name: &[u8]) -> (r: Option<usize>)
        ensures
            match r {
                Some(i) => Some(i as int) == self.spec_lookup(name@),
                None => self.spec_lookup(name@) is None,
            },
    {
        let ghost views = self.names();
        let mut i: usize = 0;
        while i < self.names.len()
            invariant
                i <= self.names@.len(),
                views == self.names(),
                forall|j: int| 0 <= j < i ==> self.names()[j] != name@,
            decreases self.names@.len() - i,
        {
            if bytes_equal(self.names[i].as_slice(), name) {
                proof {
                    assert(self.names()[i as int] == name@);
                    self.names().index_of_first_ensures(name@);
                }
                return Some(i);
            }
            proof {
                assert(self.names()[i as int] == self.names@[i as int]@);
            }
            i = i + 1;
        }
        proof {
            self.names().index_of_first_ensures(name@);
        }
        None
    }
}

/// With pairwise-distinct instrument names — the routing map and
/// the subscription list are built together from one partition's
/// catalog rows — the map is injective: the `i`-th subscribed
/// instrument routes to slot `i` exactly.
pub proof fn lemma_routing_injective(m: &RoutingMap, i: int)
    requires
        0 <= i < m.names().len(),
        forall|a: int, b: int|
            0 <= a < b < m.names().len() ==> m.names()[a] != m.names()[b],
    ensures
        m.spec_lookup(m.names()[i]) == Some(i),
{
    m.names().index_of_first_ensures(m.names()[i]);
    match m.names().index_of_first(m.names()[i]) {
        Option::Some(idx) => {
            if idx < i {
                assert(m.names()[idx] == m.names()[i]);
                assert(false);
            }
            if idx > i {
                assert(m.names()[i] != m.names()[i]);
                assert(false);
            }
        },
        Option::None => {
            assert(m.names()[i] != m.names()[i]);
            assert(false);
        },
    }
}

/// The outcome of dispatching one inflated frame.
#[derive(Debug)]
pub enum DispatchOutcome {
    /// The frame was a keepalive; send this pong back, publish
    /// nothing.
    Pong(Vec<u8>),
    /// The frame was market data; it was published into this slot of
    /// the worker's partition.
    Published(usize),
    /// The frame was an out-of-band acknowledgment; nothing was
    /// published.
    Discarded,
}

/// What dispatching the inflated frame `m` must do, given the
/// writer and table states before (`w0`, `t0`) and after (`w1`,
/// `t1`) the call and its result `r`.
pub open spec fn dispatch_post(
    m: Seq<u8>,
    routing: &RoutingMap,
    w0: SharedMemoryWriter,
    w1: SharedMemoryWriter,
    t0: SlotTable,
    t1: SlotTable,
    r: Result<DispatchOutcome, WorkerError>,
) -> bool {
    match spec_classify(m) {
        SpecFrameClass::Keepalive => {
            &&& r matches Ok(DispatchOutcome::Pong(p)) && p@ == pong_of(m)
            &&& w1 == w0
            &&& t1 == t0
        },
        SpecFrameClass::Market(name) => match routing.spec_lookup(name) {
            Option::Some(idx) => {
                &&& m.len() + MAX_HEADER_LEN + 1 <= w0.chunk_size() ==> (r matches Ok(
                    DispatchOutcome::Published(_),
                ))
                &&& match r {
                    Ok(DispatchOutcome::Published(slot)) => {
                        &&& slot == idx
                        &&& w1.writer_id() == w0.writer_id()
                        &&& w1.chunk_size() == w0.chunk_size()
                        &&& w1.chunk_count() == w0.chunk_count()
                        &&& w1.sequence() == w0.sequence() + 1
                        &&& exists|timestamp: u64|
                            #[trigger] w0.published(t0, t1, idx, m, timestamp)
                        &&& forall|j: int|
                            0 <= j < t0.slot_count() && j != w0.abs_slot(idx) ==> t1.slot(j)
                                == t0.slot(j)
                    },
                    Err(e) => {
                        &&& e == WorkerError::FrameTooLarge
                        &&& m.len() + MAX_HEADER_LEN + 1 > w0.chunk_size()
                        &&& w1 == w0
                        &&& t1 == t0
                    },
                    _ => false,
                }
            },
            Option::None => {
                &&& r matches Err(e) && e == WorkerError::RoutingMiss
                &&& w1 == w0
                &&& t1 == t0
            },
        },
        SpecFrameClass::MarketMalformed => {
            &&& r matches Err(e) && e == WorkerError::MarketChannelMalformed
            &&& w1 == w0
            &&& t1 == t0
        },
        SpecFrameClass::StatusAck => {
            &&& r matches Ok(o) && o is Discarded
            &&& w1 == w0
            &&& t1 == t0
        },
        SpecFrameClass::Unknown => {
            &&& r matches Err(e) && e == WorkerError::UnrecognizedFrame
            &&& w1 == w0
            &&& t1 == t0
        },
    }
}

/// Classifies one inflated frame and acts on it: echoes a keepalive,
/// publishes market data into the slot its instrument routes to,
/// discards a status acknowledgment, and reports protocol drift —
/// an unroutable instrument, a market channel without `.bbo`, or an
/// unrecognizable frame — as the fatal error it is.
pub fn dispatch_frame(
    msg: &[u8],
    routing: &RoutingMap,
    writer: &mut SharedMemoryWriter,
    table: &mut SlotTable,
) -> (r: Result<DispatchOutcome, WorkerError>)
    requires
        old(table).wf(),
        old(writer).owns_partition_of(old(table)),
        routing.fits_partition(old(writer)),
        old(writer).sequence() < usize::MAX,
    ensures
        final(table).wf(),
        final(table).stride() == old(table).stride(),
        final(table).slot_count() == old(table).slot_count(),
        final(writer).owns_partition_of(final(table)),
        dispatch_post(
            msg@,
            routing,
            *old(writer),
            *final(writer),
            *old(table),
            *final(table),
            r,
        ),
{
    let msg_len: usize = msg.len();
    if is_ping(msg) {
        let pong = make_pong(msg);
        return Ok(DispatchOutcome::Pong(pong));
    }
    let market_needle: [u8; 7] = [109, 97, 114, 107, 101, 116, 46];
    proof {
        assert(market_needle@ =~= market_dot());
    }
    match find_subsequence(msg, market_needle.as_slice(), 0) {
        Some(m_start) => {
            proof {
                lemma_first_match_props(msg@, market_dot(), 0);
            }
            let name_start = m_start + 7;
            let bbo_needle: [u8; 4] = [46, 98, 98, 111];
            proof {
                assert(bbo_needle@ =~= bbo_suffix());
            }
            match find_subsequence(msg, bbo_needle.as_slice(), name_start) {
                Some(name_end) => {
                    proof {
                        lemma_first_match_props(msg@, bbo_suffix(), name_start as int);
                    }
                    let name = &msg[name_start..name_end];
                    match routing.lookup(name) {
                        Some(chunk_index) => {
                            proof {
                                routing.names().index_of_first_ensures(name@);
                            }
                            match writer.write(table, chunk_index, msg) {
                                Ok(_) => Ok(DispatchOutcome::Published(chunk_index)),
                                Err(e) => Err(e),
                            }
                        },
                        None => Err(WorkerError::RoutingMiss),
                    }
                },
                None => Err(WorkerError::MarketChannelMalformed),
            }
        },
        None => {
            let status_needle: [u8; 6] = [115, 116, 97, 116, 117, 115];
            proof {
                assert(status_needle@ =~= status_token());
            }
            match find_subsequence(msg, status_needle.as_slice(), 0) {
                Some(_) => Ok(DispatchOutcome::Discarded),
                None => Err(WorkerError::UnrecognizedFrame),
            }
        },
    }
}

/// Handles one compressed binary frame from the transport: inflates
/// it into the worker's scratch buffer and dispatches the inflated
/// payload.  A frame the decoder rejects is dropped as transient.
pub fn process_binary_frame(
    compressed: &Vec<u8>,
    buffer: &mut Vec<u8>,
    routing: &RoutingMap,
    writer: &mut SharedMemoryWriter,
    table: &mut SlotTable,
) -> (r: Result<DispatchOutcome, WorkerError>)
    requires
        old(table).wf(),
        old(writer).owns_partition_of(old(table)),
        routing.fits_partition(old(writer)),
        old(writer).sequence() < usize::MAX,
    ensures
        final(table).wf(),
        final(table).stride() == old(table).stride(),
        final(table).slot_count() == old(table).slot_count(),
        final(writer).owns_partition_of(final(table)),
        final(buffer)@.len() == old(buffer)@.len(),
        match crate::compression::gz_inflate(compressed@, old(buffer)@.len() as nat) {
            Some(m) => dispatch_post(
                m,
                routing,
                *old(writer),
                *final(writer),
                *old(table),
                *final(table),
                r,
            ),
            None => {
                &&& r matches Ok(o) && o is Discarded
                &&& *final(writer) == *old(writer)
                &&& *final(table) == *old(table)
            },
        },
{
    match crate::compression::gz_inflate_to_buffer(compressed, buffer) {
        Ok(size) => {
            let msg = &buffer.as_slice()[0..size];
            proof {
                assert(msg@ =~= buffer@.take(size as int));
            }
            dispatch_frame(msg, routing, writer, table)
        },
        Err(_) => Ok(DispatchOutcome::Discarded),
    }
}

} // verus!
