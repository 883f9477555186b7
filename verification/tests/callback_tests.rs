use pptviewlib::callback::{
    classify, on_create_window, on_other_notification, pane_class_name, screen_class_name,
    ClassKind, CreateParams, OFFSCREEN_COORD,
};
use pptviewlib::table::{Rect, SharedTable};

fn utf16(s: &str) -> Vec<u16> {
    s.encode_utf16().collect()
}

fn params() -> CreateParams {
    CreateParams { parent: 1, x: 5, y: 6, cx: 7, cy: 8 }
}

#[test]
fn classify_recognizes_both_identifiers() {
    assert_eq!(classify(&utf16("paneClassDC")), ClassKind::Pane);
    assert_eq!(classify(&utf16("screenClass")), ClassKind::Screen);
    assert_eq!(classify(&utf16("Edit")), ClassKind::Other);
    assert_eq!(classify(&utf16("")), ClassKind::Other);
    assert_eq!(classify(&utf16("screenClass2")), ClassKind::Other);
    assert_eq!(pane_class_name(), utf16("paneClassDC"));
    assert_eq!(screen_class_name(), utf16("screenClass"));
}

#[test]
fn foreign_class_passes_through_unchanged() {
    let mut t = SharedTable::new();
    t.current_hook = 400;
    t.slots[3].owner_thread = 7;
    let before = t.slots.clone();
    let o = on_create_window(&mut t, 1000, 7, &utf16("SomeOtherClass"), params());
    assert_eq!(o.chain_hook, 400);
    assert_eq!(o.params, params());
    assert!(!o.uninstall);
    assert_eq!(t.current_hook, 400);
    assert_eq!(t.slots, before);
}

#[test]
fn unowned_thread_passes_through_unchanged() {
    let mut t = SharedTable::new();
    t.current_hook = 400;
    t.slots[3].owner_thread = 7;
    let before = t.slots.clone();
    let o = on_create_window(&mut t, 1000, 8, &utf16("screenClass"), params());
    assert_eq!(o.chain_hook, 400);
    assert_eq!(o.params, params());
    assert!(!o.uninstall);
    assert_eq!(t.slots, before);
}

#[test]
fn screen_class_rewrites_geometry_and_parent() {
    let mut t = SharedTable::new();
    t.current_hook = 400;
    t.slots[2].owner_thread = 7;
    t.slots[2].parent_wnd = 500;
    t.slots[2].rect = Rect { top: 20, left: 10, bottom: 220, right: 110 };
    let o = on_create_window(&mut t, 1000, 7, &utf16("screenClass"), params());
    assert_eq!(o.chain_hook, 400);
    assert_eq!(o.params.cx, 100);
    assert_eq!(o.params.cy, 200);
    assert_eq!(o.params.x, OFFSCREEN_COORD);
    assert_eq!(o.params.y, OFFSCREEN_COORD);
    assert_eq!(o.params.parent, 500);
    assert_eq!(t.slots[2].primary_wnd, 1000);
    assert!(!o.uninstall);
    assert_eq!(t.current_hook, 400);
}

#[test]
fn screen_class_keeps_requested_parent_when_slot_has_none() {
    let mut t = SharedTable::new();
    t.current_hook = 400;
    t.slots[0].owner_thread = 7;
    t.slots[0].rect = Rect { top: 0, left: 0, bottom: 50, right: 60 };
    let o = on_create_window(&mut t, 1000, 7, &utf16("screenClass"), params());
    assert_eq!(o.params.parent, params().parent);
    assert_eq!(o.params.cx, 60);
    assert_eq!(o.params.cy, 50);
}

#[test]
fn pane_class_records_secondary_without_rewriting() {
    let mut t = SharedTable::new();
    t.current_hook = 400;
    t.slots[1].owner_thread = 7;
    let o = on_create_window(&mut t, 900, 7, &utf16("paneClassDC"), params());
    assert_eq!(o.params, params());
    assert_eq!(t.slots[1].secondary_wnd, 900);
    assert_eq!(t.slots[1].primary_wnd, 0);
    assert!(!o.uninstall);
    assert_eq!(t.current_hook, 400);
}

#[test]
fn capture_completes_after_both_classes_then_idles() {
    let mut t = SharedTable::new();
    t.current_hook = 400;
    t.slots[0].owner_thread = 7;
    t.slots[0].rect = Rect { top: 0, left: 0, bottom: 10, right: 10 };

    let first = on_create_window(&mut t, 900, 7, &utf16("paneClassDC"), params());
    assert!(!first.uninstall);
    assert_eq!(t.current_hook, 400);

    let second = on_create_window(&mut t, 1000, 7, &utf16("screenClass"), params());
    assert!(second.uninstall);
    assert_eq!(second.chain_hook, 400);
    assert_eq!(t.current_hook, 0);
    assert_eq!(t.slots[0].primary_wnd, 1000);
    assert_eq!(t.slots[0].secondary_wnd, 900);

    // A later notification for the same thread passes through untouched.
    let before = t.slots.clone();
    let third = on_create_window(&mut t, 1100, 7, &utf16("screenClass"), params());
    assert_eq!(third.chain_hook, 0);
    assert_eq!(third.params, params());
    assert!(!third.uninstall);
    assert_eq!(t.current_hook, 0);
    assert_eq!(t.slots, before);
}

#[test]
fn extreme_rect_edges_wrap_as_machine_arithmetic() {
    // The extent is the plain 32-bit difference of the stored edges, with
    // two's-complement wrap-around on degenerate rectangles.
    let mut t = SharedTable::new();
    t.slots[0].owner_thread = 7;
    t.slots[0].rect = Rect { top: 1, left: 0, bottom: i32::MIN, right: 3 };
    let o = on_create_window(&mut t, 1000, 7, &utf16("screenClass"), params());
    assert_eq!(o.params.cy, i32::MIN.wrapping_sub(1));
    assert_eq!(o.params.cx, 3);
}

#[test]
fn other_notifications_only_read_the_hook()  {
    let mut t = SharedTable::new();
    t.current_hook = 123;
    assert_eq!(on_other_notification(&t), 123);
    assert_eq!(t.current_hook, 123);
}
