use cashengine::envelope::parse_envelope;
use cashengine::errors::ConfigError;
use cashengine::framing::make_frame;
use cashengine::shm_block_writer::SharedMemoryWriter;
use cashengine::shm_reader::SharedMemoryReader;
use cashengine::slot_table::SlotTable;
use cashengine::string_u8_util::is_zero;

// The end-to-end scenarios run on a table of 2 partitions of 2
// slots of 64 bytes each.
const STRIDE: usize = 64;
const WIDTH: usize = 2;
const PARTITIONS: usize = 2;

fn scenario_table() -> SlotTable {
    SlotTable::create(PARTITIONS * WIDTH, STRIDE).expect("table")
}

// The slot bytes expected after one write into a fresh table: the
// frame over the zero filler.
fn fresh_slot_after(
    writer_id: usize,
    sequence: usize,
    timestamp: u64,
    chunk_index: usize,
    payload: &[u8],
) -> Vec<u8> {
    let offset = writer_id + chunk_index * STRIDE;
    let mut expected = make_frame(writer_id, sequence, timestamp, offset, payload);
    while expected.len() < STRIDE {
        expected.push(0);
    }
    expected
}

#[test]
fn round_trip_write_then_read() {
    let mut table = scenario_table();
    let mut writer = SharedMemoryWriter::create(0, STRIDE, WIDTH);
    let payload = b"\"ch\":\"market.btcusdt.bbo\"";
    writer
        .write_at(&mut table, 1, payload, 1_700_000)
        .expect("write");
    let snap = table.snapshot(1);
    let env = parse_envelope(&snap).expect("parse");
    assert_eq!(env.writer_id, 0);
    assert_eq!(env.sequence, 0);
    assert_eq!(env.start_ts_micros, 1_700_000);
    assert_eq!(env.offset, 64);
    assert_eq!(env.payload, payload.to_vec());
}

#[test]
fn payload_at_capacity_succeeds() {
    // header: 1 digit writer, 1 digit sequence, 16 digit timestamp,
    // 20 digit offset, 4 separators = 42 bytes; 64 - 42 - 1 = 21
    // payload bytes exactly fit.
    let mut table = scenario_table();
    let mut writer = SharedMemoryWriter::create(0, STRIDE, WIDTH);
    let payload = [b'x'; 21];
    assert!(writer
        .write_at(&mut table, 0, &payload, 1_700_000_000_000_000)
        .is_ok());
    let env = parse_envelope(&table.snapshot(0)).expect("parse");
    assert_eq!(env.payload, payload.to_vec());
}

#[test]
fn payload_one_past_capacity_fails() {
    let mut table = scenario_table();
    let mut writer = SharedMemoryWriter::create(0, STRIDE, WIDTH);
    let payload = [b'x'; 22];
    let r = writer.write_at(&mut table, 0, &payload, 1_700_000_000_000_000);
    assert_eq!(r, Err(cashengine::errors::WorkerError::FrameTooLarge));
    // nothing was published
    assert!(is_zero(&table.snapshot(0)));
}

#[test]
fn overwrite_keeps_only_the_last_payload() {
    let mut table = scenario_table();
    let mut writer = SharedMemoryWriter::create(0, STRIDE, WIDTH);
    writer.write_at(&mut table, 0, b"payload-A", 10).expect("A");
    writer.write_at(&mut table, 0, b"payload-B", 20).expect("B");
    writer.write_at(&mut table, 0, b"payload-C", 30).expect("C");
    let env = parse_envelope(&table.snapshot(0)).expect("parse");
    assert_eq!(env.payload, b"payload-C".to_vec());
    assert_eq!(env.sequence, 2);
    assert_eq!(env.start_ts_micros, 30);
}

#[test]
fn round_robin_visits_every_slot_once_then_wraps() {
    let mut table = scenario_table();
    let mut writer0 = SharedMemoryWriter::create(0, STRIDE, WIDTH);
    let mut writer1 = SharedMemoryWriter::create(1, STRIDE, WIDTH);
    writer0.write_at(&mut table, 0, b"slot-0-0", 1).expect("w");
    writer0.write_at(&mut table, 1, b"slot-0-1", 2).expect("w");
    writer1.write_at(&mut table, 0, b"slot-1-0", 3).expect("w");
    writer1.write_at(&mut table, 1, b"slot-1-1", 4).expect("w");

    let mut reader = SharedMemoryReader::create(STRIDE, PARTITIONS * WIDTH);
    let expected = [b"slot-0-0", b"slot-0-1", b"slot-1-0", b"slot-1-1"];
    for want in expected {
        let snap = reader.read_next_message(&table);
        let env = parse_envelope(&snap).expect("parse");
        assert_eq!(env.payload, want.to_vec());
    }
    // the fifth read wraps back to the first slot
    let snap = reader.read_next_message(&table);
    let env = parse_envelope(&snap).expect("parse");
    assert_eq!(env.payload, b"slot-0-0".to_vec());
}

#[test]
fn writes_stay_inside_the_partition() {
    let mut table = scenario_table();
    let mut writer1 = SharedMemoryWriter::create(1, STRIDE, WIDTH);
    writer1.write_at(&mut table, 0, b"p1", 5).expect("w");
    writer1.write_at(&mut table, 1, b"p2", 6).expect("w");
    // partition 0 was never touched
    assert!(is_zero(&table.snapshot(0)));
    assert!(is_zero(&table.snapshot(1)));
    assert!(!is_zero(&table.snapshot(2)));
    assert!(!is_zero(&table.snapshot(3)));
}

#[test]
fn slot_bytes_are_exactly_the_frame_over_the_filler() {
    let mut table = scenario_table();
    let mut writer = SharedMemoryWriter::create(0, STRIDE, WIDTH);
    writer.write_at(&mut table, 1, b"tick", 77).expect("w");
    let expected = fresh_slot_after(0, 0, 77, 1, b"tick");
    assert_eq!(table.snapshot(1), expected);
}

#[test]
fn write_with_wall_clock_publishes_the_payload() {
    let mut table = scenario_table();
    let mut writer = SharedMemoryWriter::create(0, STRIDE, WIDTH);
    writer.write(&mut table, 0, b"clocked").expect("write");
    let env = parse_envelope(&table.snapshot(0)).expect("parse");
    assert_eq!(env.payload, b"clocked".to_vec());
    assert_eq!(env.writer_id, 0);
    assert_eq!(env.sequence, 0);
}

#[test]
fn unwritten_and_torn_snapshots_parse_to_nothing() {
    let table = scenario_table();
    // an unwritten slot is all zeros
    assert!(parse_envelope(&table.snapshot(3)).is_none());
    // no colons at all
    assert!(parse_envelope(b"garbage-without-colons").is_none());
    // a non-digit inside a numeric field
    assert!(parse_envelope(b"0:1x:2:00000000000000000003:payload\0").is_none());
    // too few fields before the terminator
    assert!(parse_envelope(b"0:1:2\0:3:4:payload\0").is_none());
    // an empty field
    assert!(parse_envelope(b"0::2:00000000000000000003:payload\0").is_none());
}

#[test]
fn sequences_count_up_per_writer() {
    let mut table = scenario_table();
    let mut writer = SharedMemoryWriter::create(0, STRIDE, WIDTH);
    for expected_sequence in 0u64..5 {
        writer.write_at(&mut table, 0, b"tick", 9).expect("w");
        let env = parse_envelope(&table.snapshot(0)).expect("parse");
        assert_eq!(env.sequence, expected_sequence);
    }
}

#[test]
fn stride_floor_and_size_overflow_are_rejected() {
    assert!(matches!(
        SlotTable::create(4, 28),
        Err(ConfigError::StrideTooSmall)
    ));
    assert!(matches!(
        SlotTable::create(usize::MAX, 64),
        Err(ConfigError::SizeOverflow)
    ));
    assert!(SlotTable::create(4, 29).is_ok());
}
