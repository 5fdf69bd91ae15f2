//! Event records and the ring that keeps them.

use monad::error::ErrorCode;
use monad::telemetry::{
    EventKind, EventRecord, EventRing, EVENT_PROVENANCE_VALID, EVENT_RECORD_BYTES,
    EVENT_RING_CAPACITY, EVENT_SCHEMA_VERSION,
};

#[test]
fn event_record_layout_and_zero_reserved() {
    assert_eq!(std::mem::size_of::<EventRecord>(), EVENT_RECORD_BYTES);
    let mut record = EventRecord::zeroed();
    record.sequence = 7;
    record.kind = EventKind::EptViolation.code();
    record.schema_version = EVENT_SCHEMA_VERSION;
    record.record_size = EVENT_RECORD_BYTES as u16;
    record = record.with_provenance(0x1234, 9, 13);
    let decoded = EventRecord::decode_words(record.encode_words());
    assert_eq!(decoded, record);
    assert_eq!(decoded.run_id, 0x1234);
    assert_eq!(decoded.view_epoch, 9);
    assert_eq!(decoded.provenance_flags, EVENT_PROVENANCE_VALID);
    assert!(decoded.encoded_reserved_is_zero());
}

#[test]
fn ring_wrap_drop_and_snapshot() {
    let mut ring = EventRing::try_new().expect("ring");
    ring.set_next_sequence(u64::MAX - 1);
    for index in 0..EVENT_RING_CAPACITY + 9 {
        let mut record = EventRecord::zeroed();
        record.detail = index as u32;
        ring.record(record);
    }
    let mut records = vec![EventRecord::zeroed(); EVENT_RING_CAPACITY];
    let snapshot = ring.snapshot(&mut records);
    assert_eq!(snapshot.count, EVENT_RING_CAPACITY);
    assert_eq!(snapshot.dropped, 9);
    assert_eq!(records[0].detail, 9);
    assert_eq!(records[0].sequence, 7);
    assert_eq!(snapshot.next_sequence, 1030);

    let mut ring = EventRing::try_new().expect("ring");
    let mut last = 0u64;
    let mut records = [EventRecord::zeroed(); 31];
    for index in 0..4096u32 {
        let mut record = EventRecord::zeroed();
        record.detail = index;
        ring.record(record);
        if index % 7 != 0 {
            continue;
        }
        let snapshot = ring.snapshot(&mut records);
        for record in &records[..snapshot.count] {
            if last != 0 {
                assert!(record.sequence.wrapping_sub(last) < (1u64 << 63));
            }
            assert_eq!(record.sequence, u64::from(record.detail) + 1);
            last = record.sequence;
        }
    }
    loop {
        let snapshot = ring.snapshot(&mut records);
        for record in &records[..snapshot.count] {
            if last != 0 {
                assert!(record.sequence.wrapping_sub(last) < (1u64 << 63));
            }
            assert_eq!(record.sequence, u64::from(record.detail) + 1);
            last = record.sequence;
        }
        if snapshot.count == 0 {
            break;
        }
    }
    assert_eq!(last, 4096);
}

#[test]
fn attempt_identity_is_payload_not_the_ring_version_word() {
    let mut ring = EventRing::try_new().expect("ring");
    let event = EventRecord::zeroed().with_provenance(0x1234, 7, 99);
    ring.record(event);
    let mut output = [EventRecord::zeroed(); 1];
    let snapshot = ring.snapshot_from(0, &mut output).expect("snapshot");
    assert_eq!(snapshot.count, 1);
    assert_eq!(
        (output[0].run_id, output[0].view_epoch, output[0].attempt_epoch),
        (0x1234, 7, 99)
    );
}

#[test]
fn a_reader_that_claims_the_future_is_refused() {
    let mut ring = EventRing::try_new().expect("ring");
    ring.record(EventRecord::zeroed());
    assert_eq!(ring.latest_sequence(), 1);
    let mut output = [EventRecord::zeroed(); 1];
    let refused = ring.snapshot_from(5, &mut output);
    assert_eq!(refused.map(|_| ()).map_err(|error| error.code), Err(ErrorCode::StaleHandle));
}

#[test]
fn words_keep_every_field_apart() {
    let mut record = EventRecord::zeroed();
    record.cpu_dense_index = 0x0102;
    record.cpu_group = 0x0304;
    record.cpu_number = 5;
    record.kind = EventKind::ViewSwitch.code();
    record.access = 7;
    record.view_slot = 0x0908;
    record.status = 0x1112_1314;
    record.detail = 0x2122_2324;
    let words = record.encode_words();
    assert_eq!(words[2] & 0xffff_ffff, 0x0304_0102);
    assert_eq!((words[2] >> 32) & 0xff, 5);
    assert_eq!(EventRecord::decode_words(words), record);
    record.reserved1 = 1;
    assert!(!record.encoded_reserved_is_zero());
    assert_eq!(record.cpu().dense_index, 0x0102);
    assert_eq!(record.view().slot, 0x0908);
}
