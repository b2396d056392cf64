use cashengine::config::{
    partition_count, required_file_size, websocket_count, CHUNK_SIZE, MARKETS_PER_WEBSOCKET,
};
use cashengine::decimal::{i64_to_string, u64_to_string};
use cashengine::errors::WorkerError;
use cashengine::time_util::print_systemtime;
use cashengine::websocket::{
    build_subscribe_request, next_worker_state, TransportEvent, WorkerState,
};

#[test]
fn subscription_request_lists_channels_and_the_partition_id() {
    let names = vec!["btcusdt".to_string(), "ethusdt".to_string(), "htxusdt".to_string()];
    let request = build_subscribe_request(&names, 1);
    assert_eq!(
        request,
        "{\"sub\": [\"market.btcusdt.bbo\",\"market.ethusdt.bbo\",\"market.htxusdt.bbo\"\n],\n\"id\": \"id1\"\n}"
    );
}

#[test]
fn subscription_request_of_one_channel_has_no_comma() {
    let names = vec!["btcusdt".to_string()];
    let request = build_subscribe_request(&names, 0);
    assert_eq!(request, "{\"sub\": [\"market.btcusdt.bbo\"\n],\n\"id\": \"id0\"\n}");
}

#[test]
fn subscription_request_of_no_channels_is_an_empty_list() {
    let request = build_subscribe_request(&Vec::new(), 7);
    assert_eq!(request, "{\"sub\": [\n],\n\"id\": \"id7\"\n}");
}

#[test]
fn worker_session_walks_its_states_in_order() {
    let s = WorkerState::Connecting;
    let s = next_worker_state(s, TransportEvent::SubscriptionSent).expect("subscribe");
    assert_eq!(s, WorkerState::Subscribed);
    let s = next_worker_state(s, TransportEvent::FrameReceived).expect("first frame");
    assert_eq!(s, WorkerState::Streaming);
    let s = next_worker_state(s, TransportEvent::FrameReceived).expect("steady");
    assert_eq!(s, WorkerState::Streaming);
    let s = next_worker_state(s, TransportEvent::CloseFrame).expect("close");
    assert_eq!(s, WorkerState::Closed);
    // closed is terminal
    let s = next_worker_state(s, TransportEvent::FrameReceived).expect("terminal");
    assert_eq!(s, WorkerState::Closed);
}

#[test]
fn transport_failure_is_fatal_in_any_live_state() {
    for state in [WorkerState::Connecting, WorkerState::Subscribed, WorkerState::Streaming] {
        let r = next_worker_state(state, TransportEvent::TransportFailure);
        assert_eq!(r.unwrap_err(), WorkerError::TransportFailed);
    }
}

#[test]
fn partitioning_follows_the_catalog_size() {
    assert_eq!(MARKETS_PER_WEBSOCKET, 150);
    assert_eq!(CHUNK_SIZE, 320);
    assert_eq!(websocket_count(0), 1);
    assert_eq!(websocket_count(149), 1);
    assert_eq!(websocket_count(150), 2);
    assert_eq!(websocket_count(151), 2);
    assert_eq!(partition_count(7, 3), 3);
}

#[test]
fn mapping_size_is_the_slot_count_times_the_stride() {
    assert_eq!(required_file_size(2, 150, 320), Some(2 * 150 * 320));
    assert_eq!(required_file_size(0, 150, 320), Some(0));
    assert_eq!(required_file_size(usize::MAX, 2, 320), None);
}

#[test]
fn startup_banner_names_the_timestamp() {
    let line = print_systemtime();
    assert!(line.starts_with("Startup timestamp"));
}

#[test]
fn decimal_rendering_matches_the_usual_notation() {
    assert_eq!(u64_to_string(0), "0");
    assert_eq!(u64_to_string(12345), "12345");
    assert_eq!(u64_to_string(u64::MAX), "18446744073709551615");
    assert_eq!(i64_to_string(-7), "-7");
    assert_eq!(i64_to_string(42), "42");
    assert_eq!(i64_to_string(i64::MIN), "-9223372036854775808");
}
