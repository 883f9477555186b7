use pptviewlib::table::{MAX_PPTS, Rect, SharedTable, SlotState};

fn rect(top: i32, left: i32, bottom: i32, right: i32) -> Rect {
    Rect { top, left, bottom, right }
}

#[test]
fn it_works() {
}

#[test]
fn fresh_table_is_closed_everywhere() {
    let t = SharedTable::new();
    assert_eq!(t.current_hook, 0);
    assert_eq!(t.slots.len(), MAX_PPTS);
    for s in &t.slots {
        assert_eq!(s.state, SlotState::Closed);
        assert_eq!(s.primary_wnd, 0);
        assert_eq!(s.secondary_wnd, 0);
        assert_eq!(s.parent_wnd, 0);
        assert_eq!(s.owner_thread, 0);
    }
}

#[test]
fn allocate_reserves_first_free_slot() {
    let mut t = SharedTable::new();
    let id = t.allocate(77, rect(1, 2, 3, 4));
    assert_eq!(id, Some(0));
    assert_eq!(t.slots[0].state, SlotState::Started);
    assert_eq!(t.slots[0].parent_wnd, 77);
    assert_eq!(t.slots[0].rect, rect(1, 2, 3, 4));
    assert_eq!(t.slots[0].primary_wnd, 0);
    assert_eq!(t.slots[0].secondary_wnd, 0);
    assert_eq!(t.slots[1].state, SlotState::Closed);
}

#[test]
fn allocate_skips_taken_slots() {
    let mut t = SharedTable::new();
    t.slots[0].state = SlotState::Opened;
    t.slots[1].state = SlotState::Closing;
    let id = t.allocate(9, rect(0, 0, 10, 10));
    assert_eq!(id, Some(2));
    assert_eq!(t.slots[0].state, SlotState::Opened);
    assert_eq!(t.slots[1].state, SlotState::Closing);
    assert_eq!(t.slots[2].state, SlotState::Started);
}

#[test]
fn allocate_resets_window_handles() {
    let mut t = SharedTable::new();
    t.slots[0].primary_wnd = 11;
    t.slots[0].secondary_wnd = 22;
    let id = t.allocate(5, rect(0, 0, 1, 1));
    assert_eq!(id, Some(0));
    assert_eq!(t.slots[0].primary_wnd, 0);
    assert_eq!(t.slots[0].secondary_wnd, 0);
}

#[test]
fn allocate_exhausts_with_distinct_ids_then_fails() {
    let mut t = SharedTable::new();
    let mut ids: Vec<usize> = Vec::new();
    for k in 0..MAX_PPTS {
        let id = t.allocate(k as u64, rect(0, 0, 1, 1));
        ids.push(id.expect("a free slot should remain"));
    }
    for a in 0..ids.len() {
        for b in 0..a {
            assert_ne!(ids[a], ids[b]);
        }
    }
    let before: Vec<_> = t.slots.clone();
    let overflow = t.allocate(99, rect(7, 7, 8, 8));
    assert_eq!(overflow, None);
    assert_eq!(t.slots, before);
}
