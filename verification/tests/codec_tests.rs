use pptviewlib::codec::{decode_table, encode_table, TABLE_BYTES};
use pptviewlib::table::{Rect, SharedTable, SlotState};

fn sample_table() -> SharedTable {
    let mut t = SharedTable::new();
    t.current_hook = 0x1122_3344_5566_7788;
    t.slots[0].primary_wnd = 0xdead_beef_0000_0001;
    t.slots[0].secondary_wnd = 2;
    t.slots[0].parent_wnd = 3;
    t.slots[0].owner_thread = 0xcafe_0001;
    t.slots[0].rect = Rect { top: -20, left: 10, bottom: 220, right: -110 };
    t.slots[0].state = SlotState::Started;
    t.slots[15].state = SlotState::Closing;
    t.slots[15].owner_thread = 42;
    t.slots[15].rect = Rect { top: i32::MIN, left: i32::MAX, bottom: 0, right: -1 };
    t
}

#[test]
fn encoded_record_has_declared_size() {
    let t = SharedTable::new();
    assert_eq!(encode_table(&t).len(), TABLE_BYTES);
    assert_eq!(TABLE_BYTES, 728);
}

#[test]
fn layout_starts_with_little_endian_hook() {
    let mut t = SharedTable::new();
    t.current_hook = 0x0102_0304_0506_0708;
    let b = encode_table(&t);
    assert_eq!(&b[0..8], &[0x08, 0x07, 0x06, 0x05, 0x04, 0x03, 0x02, 0x01]);
}

#[test]
fn round_trip_preserves_every_field() {
    let t = sample_table();
    let bytes = encode_table(&t);
    let back = decode_table(&bytes).expect("a valid encoding must decode");
    assert_eq!(back.current_hook, t.current_hook);
    assert_eq!(back.slots, t.slots);
}

#[test]
fn second_view_observes_bytes_last_written() {
    // One view writes the record into the shared bytes; a second view,
    // opened later, parses those same bytes and sees the same record.
    let mut t = SharedTable::new();
    t.slots[4].owner_thread = 7;
    t.slots[4].state = SlotState::Started;
    let shared_bytes = encode_table(&t);
    let second_view = decode_table(&shared_bytes).unwrap();
    assert_eq!(second_view.slots[4].owner_thread, 7);
    assert_eq!(second_view.slots[4].state, SlotState::Started);
    assert_eq!(second_view.slots, t.slots);
}

#[test]
fn wrong_length_is_rejected() {
    let bytes: Vec<u8> = vec![0; TABLE_BYTES - 1];
    assert!(decode_table(&bytes).is_none());
    let bytes: Vec<u8> = vec![0; TABLE_BYTES + 1];
    assert!(decode_table(&bytes).is_none());
    let bytes: Vec<u8> = Vec::new();
    assert!(decode_table(&bytes).is_none());
}

#[test]
fn impossible_state_byte_is_rejected() {
    let t = SharedTable::new();
    let mut bytes = encode_table(&t);
    // The state byte of the first slot sits after the hook handle (8 bytes)
    // and the slot's fixed 44 bytes of handles, thread id and rectangle.
    bytes[8 + 44] = 9;
    assert!(decode_table(&bytes).is_none());
}

#[test]
fn zeroed_bytes_decode_to_fresh_table() {
    let zeroed: Vec<u8> = vec![0; TABLE_BYTES];
    let t = decode_table(&zeroed).expect("an all-zero region is a valid record");
    assert_eq!(t.current_hook, 0);
    let fresh = SharedTable::new();
    assert_eq!(t.slots, fresh.slots);
}
