use cashengine::dispatch::{
    bytes_equal, dispatch_frame, find_subsequence, is_ping, make_pong, process_binary_frame,
    DispatchOutcome, RoutingMap,
};
use cashengine::envelope::parse_envelope;
use cashengine::errors::WorkerError;
use cashengine::shm_block_writer::SharedMemoryWriter;
use cashengine::slot_table::SlotTable;
use cashengine::string_u8_util::is_zero;
use std::io::Write;

// The stride is wide enough for a full market frame under a
// current wall-clock timestamp (a 16-digit microsecond field).
const STRIDE: usize = 128;
const WIDTH: usize = 2;
const PARTITIONS: usize = 2;

fn scenario() -> (SlotTable, SharedMemoryWriter, RoutingMap) {
    let table = SlotTable::create(PARTITIONS * WIDTH, STRIDE).expect("table");
    let writer = SharedMemoryWriter::create(0, STRIDE, WIDTH);
    let routing = RoutingMap::from_names(vec![b"btcusdt".to_vec(), b"ethusdt".to_vec()]);
    (table, writer, routing)
}

#[test]
fn single_ping_is_echoed_and_publishes_nothing() {
    let (mut table, mut writer, routing) = scenario();
    let ping = b"{\"ping\":1700000000}";
    let r = dispatch_frame(ping, &routing, &mut writer, &mut table).expect("dispatch");
    match r {
        DispatchOutcome::Pong(pong) => assert_eq!(pong, b"{\"pong\":1700000000}".to_vec()),
        other => panic!("expected a pong, got {:?}", other),
    }
    for slot in 0..PARTITIONS * WIDTH {
        assert!(is_zero(&table.snapshot(slot)));
    }
}

#[test]
fn ping_detection_is_bit_exact_on_the_prefix() {
    assert!(is_ping(b"{\"ping\":1}"));
    assert!(is_ping(b"{\"ping"));
    assert!(!is_ping(b"{\"pin"));
    assert!(!is_ping(b"{\"pinG\":1}"));
    assert!(!is_ping(b"(\"ping\":1}"));
    assert!(!is_ping(b""));
}

#[test]
fn pong_differs_from_ping_only_at_byte_three() {
    let ping = b"{\"ping\":1700000000}";
    let pong = make_pong(ping);
    assert_eq!(pong.len(), ping.len());
    for (i, (p, q)) in ping.iter().zip(pong.iter()).enumerate() {
        if i == 3 {
            assert_eq!(*p, b'i');
            assert_eq!(*q, b'o');
        } else {
            assert_eq!(p, q);
        }
    }
}

#[test]
fn route_and_publish_frames_the_full_payload() {
    let (mut table, mut writer, routing) = scenario();
    let payload = b"{\"ch\":\"market.btcusdt.bbo\"}";
    let r = dispatch_frame(payload, &routing, &mut writer, &mut table).expect("dispatch");
    assert!(matches!(r, DispatchOutcome::Published(0)));
    let env = parse_envelope(&table.snapshot(0)).expect("parse");
    assert_eq!(env.writer_id, 0);
    assert_eq!(env.sequence, 0);
    assert_eq!(env.payload, payload.to_vec());
    // the sibling slot is untouched
    assert!(is_zero(&table.snapshot(1)));
}

#[test]
fn second_instrument_routes_to_the_second_slot() {
    let (mut table, mut writer, routing) = scenario();
    let payload = b"{\"ch\":\"market.ethusdt.bbo\"}";
    let r = dispatch_frame(payload, &routing, &mut writer, &mut table).expect("dispatch");
    assert!(matches!(r, DispatchOutcome::Published(1)));
    assert!(is_zero(&table.snapshot(0)));
    assert!(!is_zero(&table.snapshot(1)));
}

#[test]
fn routing_miss_is_fatal_and_leaves_slots_unchanged() {
    let (mut table, mut writer, routing) = scenario();
    let payload = b"{\"ch\":\"market.xxxxxx.bbo\"}";
    let r = dispatch_frame(payload, &routing, &mut writer, &mut table);
    assert_eq!(r.unwrap_err(), WorkerError::RoutingMiss);
    for slot in 0..PARTITIONS * WIDTH {
        assert!(is_zero(&table.snapshot(slot)));
    }
}

#[test]
fn market_channel_without_bbo_is_fatal() {
    let (mut table, mut writer, routing) = scenario();
    let payload = b"{\"ch\":\"market.btcusdt.trade\"}";
    let r = dispatch_frame(payload, &routing, &mut writer, &mut table);
    assert_eq!(r.unwrap_err(), WorkerError::MarketChannelMalformed);
}

#[test]
fn status_acknowledgment_is_discarded() {
    let (mut table, mut writer, routing) = scenario();
    let payload = b"{\"id\":\"id0\",\"status\":\"ok\"}";
    let r = dispatch_frame(payload, &routing, &mut writer, &mut table).expect("dispatch");
    assert!(matches!(r, DispatchOutcome::Discarded));
    assert!(is_zero(&table.snapshot(0)));
}

#[test]
fn unrecognizable_frame_is_fatal() {
    let (mut table, mut writer, routing) = scenario();
    let r = dispatch_frame(b"hello there", &routing, &mut writer, &mut table);
    assert_eq!(r.unwrap_err(), WorkerError::UnrecognizedFrame);
}

#[test]
fn oversized_market_frame_is_fatal() {
    let (mut table, mut writer, routing) = scenario();
    let mut payload = b"{\"ch\":\"market.btcusdt.bbo\",\"filler\":\"".to_vec();
    payload.extend(std::iter::repeat(b'z').take(STRIDE));
    payload.extend_from_slice(b"\"}");
    let r = dispatch_frame(&payload, &routing, &mut writer, &mut table);
    assert_eq!(r.unwrap_err(), WorkerError::FrameTooLarge);
    assert!(is_zero(&table.snapshot(0)));
}

#[test]
fn find_subsequence_returns_the_first_occurrence() {
    assert_eq!(find_subsequence(b"abcabc", b"abc", 0), Some(0));
    assert_eq!(find_subsequence(b"abcabc", b"abc", 1), Some(3));
    assert_eq!(find_subsequence(b"abcabc", b"cab", 0), Some(2));
    assert_eq!(find_subsequence(b"abcabc", b"zzz", 0), None);
    assert_eq!(find_subsequence(b"ab", b"abc", 0), None);
}

#[test]
fn bytes_equal_compares_contents() {
    assert!(bytes_equal(b"same", b"same"));
    assert!(!bytes_equal(b"same", b"sane"));
    assert!(!bytes_equal(b"same", b"sam"));
    assert!(bytes_equal(b"", b""));
}

#[test]
fn routing_map_looks_up_by_name() {
    let routing = RoutingMap::from_names(vec![b"btcusdt".to_vec(), b"ethusdt".to_vec()]);
    assert_eq!(routing.len(), 2);
    assert_eq!(routing.lookup(b"btcusdt"), Some(0));
    assert_eq!(routing.lookup(b"ethusdt"), Some(1));
    assert_eq!(routing.lookup(b"xxxxxx"), None);
}

fn gzip(bytes: &[u8]) -> Vec<u8> {
    let mut enc = flate2::write::GzEncoder::new(Vec::new(), flate2::Compression::default());
    enc.write_all(bytes).expect("compress");
    enc.finish().expect("finish")
}

#[test]
fn inflate_recovers_the_original_payload() {
    let payload = b"{\"ch\":\"market.btcusdt.bbo\"}";
    let compressed = gzip(payload);
    assert_ne!(compressed, payload.to_vec());
    let mut buffer = vec![0u8; STRIDE];
    let n = cashengine::compression::gz_inflate_to_buffer(&compressed, &mut buffer)
        .expect("inflate");
    assert_eq!(&buffer[..n], payload);
}

#[test]
fn inflate_rejects_bytes_that_are_not_gzip() {
    let mut buffer = vec![0u8; STRIDE];
    let r = cashengine::compression::gz_inflate_to_buffer(&vec![1, 2, 3, 4], &mut buffer);
    assert!(r.is_err());
}

#[test]
fn binary_frame_is_inflated_and_published() {
    let (mut table, mut writer, routing) = scenario();
    let payload = b"{\"ch\":\"market.btcusdt.bbo\"}";
    let compressed = gzip(payload);
    let mut buffer = vec![0u8; STRIDE];
    let r = process_binary_frame(&compressed, &mut buffer, &routing, &mut writer, &mut table)
        .expect("process");
    assert!(matches!(r, DispatchOutcome::Published(0)));
    let env = parse_envelope(&table.snapshot(0)).expect("parse");
    assert_eq!(env.payload, payload.to_vec());
}

#[test]
fn binary_ping_is_inflated_and_echoed() {
    let (mut table, mut writer, routing) = scenario();
    let compressed = gzip(b"{\"ping\":1700000000}");
    let mut buffer = vec![0u8; STRIDE];
    let r = process_binary_frame(&compressed, &mut buffer, &routing, &mut writer, &mut table)
        .expect("process");
    match r {
        DispatchOutcome::Pong(pong) => assert_eq!(pong, b"{\"pong\":1700000000}".to_vec()),
        other => panic!("expected a pong, got {:?}", other),
    }
    assert!(is_zero(&table.snapshot(0)));
}

#[test]
fn undecodable_binary_frame_is_dropped() {
    let (mut table, mut writer, routing) = scenario();
    let mut buffer = vec![0u8; STRIDE];
    let r = process_binary_frame(
        &vec![0xde, 0xad, 0xbe, 0xef],
        &mut buffer,
        &routing,
        &mut writer,
        &mut table,
    )
    .expect("process");
    assert!(matches!(r, DispatchOutcome::Discarded));
    assert!(is_zero(&table.snapshot(0)));
}
