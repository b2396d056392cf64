//! The protocol side of a feed worker's websocket session.
//!
//! The transport itself (TCP, TLS, websocket framing) lives outside
//! the library; what is here is the subscription request a worker
//! sends for its partition, and the state machine its session
//! follows: `Connecting` → `Subscribed` → `Streaming` → `Closed`,
//! closing only on a transport close frame and failing fatally on a
//! transport error.

use vstd::prelude::*;
use vstd::string::*;
use crate::decimal::dec_chars;
use crate::errors::WorkerError;

verus! {

/// One channel entry of the subscription list:
/// `"market.<name>.bbo"`.
pub open spec fn sub_item(name: Seq<char>) -> Seq<char> {
    "\"market."@ + name + ".bbo\""@
}

/// The channel entries joined with commas, no trailing comma.
pub open spec fn sub_items(names: Seq<Seq<char>>) -> Seq<char>
    decreases names.len(),
{
    if names.len() == 0 {
        Seq::empty()
    } else if names.len() == 1 {
        sub_item(names[0])
    } else {
        sub_items(names.drop_last()) + ","@ + sub_item(names.last())
    }
}

/// The outbound subscription request for a partition: its channel
/// list and the correlation id `id<partition_index>`.
pub open spec fn spec_subscribe_request(names: Seq<Seq<char>>, id: nat) -> Seq<char> {
    "{\"sub\": ["@ + sub_items(names) + "\n],\n\"id\": \"id"@ + dec_chars(id) + "\"\n}"@
}

/// Builds the subscription request for the instruments of one
/// partition, in slot order, with the partition index as the
/// correlation id.
pub fn build_subscribe_request(names: &Vec<String>, id: usize) -> (s: String)
    ensures
        s@ == spec_subscribe_request(names@.map_values(|n: String| n@), id as nat),
{
    let ghost views = names@.map_values(|n: String| n@);
    let mut s = "{\"sub\": [".to_owned();
    let mut i: usize = 0;
    while i < names.len()
        invariant
            i <= names@.len(),
            views == names@.map_values(|n: String| n@),
            s@ == "{\"sub\": ["@ + sub_items(views.take(i as int)),
        decreases names@.len() - i,
    {
        if i > 0 {
            s.append(",");
        }
        s.append("\"market.");
        s.append(names[i].as_str());
        s.append(".bbo\"");
        proof {
            assert(views.take(i + 1).drop_last() =~= views.take(i as int));
            assert(views.take(i + 1).last() == views[i as int]);
            if i == 0 {
                assert(views.take(1)[0] == views[0]);
                assert(s@ =~= "{\"sub\": ["@ + sub_items(views.take(1)));
            } else {
                assert(s@ =~= "{\"sub\": ["@ + sub_items(views.take(i + 1)));
            }
        }
        i = i + 1;
    }
    proof {
        assert(views.take(i as int) =~= views);
    }
    s.append("\n],\n\"id\": \"id");
    let digits = crate::decimal::u64_to_string(id as u64);
    s.append(digits.as_str());
    s.append("\"\n}");
    proof {
        assert(s@ =~= spec_subscribe_request(views, id as nat));
    }
    s
}

/// The lifecycle of a feed worker's session.
#[derive(Clone, Copy, Debug, PartialEq, Eq, Structural)]
pub enum WorkerState {
    /// The transport is being established.
    Connecting,
    /// The subscription request has been sent; no acknowledgment is
    /// awaited.
    Subscribed,
    /// The steady state: frames flow in.
    Streaming,
    /// The server closed the session; terminal.
    Closed,
}

/// What the transport reports to the worker.
#[derive(Clone, Copy, Debug, PartialEq, Eq, Structural)]
pub enum TransportEvent {
    /// The subscription request went out.
    SubscriptionSent,
    /// A frame arrived.
    FrameReceived,
    /// The server sent a close frame.
    CloseFrame,
    /// The transport failed.
    TransportFailure,
}

/// The session transitions: forward on progress, `Closed` on a close
/// frame, fatal on transport failure, terminal once closed, and
/// unchanged on an event the state has no use for.
pub open spec fn spec_next_state(s: WorkerState, e: TransportEvent) -> Result<
    WorkerState,
    WorkerError,
> {
    match (s, e) {
        (WorkerState::Closed, _) => Ok(WorkerState::Closed),
        (_, TransportEvent::CloseFrame) => Ok(WorkerState::Closed),
        (_, TransportEvent::TransportFailure) => Err(WorkerError::TransportFailed),
        (WorkerState::Connecting, TransportEvent::SubscriptionSent) => Ok(WorkerState::Subscribed),
        (WorkerState::Subscribed, TransportEvent::FrameReceived) => Ok(WorkerState::Streaming),
        (WorkerState::Streaming, TransportEvent::FrameReceived) => Ok(WorkerState::Streaming),
        _ => Ok(s),
    }
}

/// Advances the session state machine by one transport event.
pub fn next_worker_state(s: WorkerState, e: TransportEvent) -> (r: Result<
    WorkerState,
    WorkerError,
>)
    ensures
        r == spec_next_state(s, e),
{
    match (s, e) {
        (WorkerState::Closed, _) => Ok(WorkerState::Closed),
        (_, TransportEvent::CloseFrame) => Ok(WorkerState::Closed),
        (_, TransportEvent::TransportFailure) => Err(WorkerError::TransportFailed),
        (WorkerState::Connecting, TransportEvent::SubscriptionSent) => Ok(WorkerState::Subscribed),
        (WorkerState::Subscribed, TransportEvent::FrameReceived) => Ok(WorkerState::Streaming),
        (WorkerState::Streaming, TransportEvent::FrameReceived) => Ok(WorkerState::Streaming),
        _ => Ok(s),
    }
}

} // verus!
