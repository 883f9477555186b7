use pptviewlib::region::{acquire, RegionLifecycle};

#[test]
fn successful_acquire_then_release_gives_back_each_resource_once() {
    let mut rgn = acquire(true, true).expect("both steps succeeded");
    assert!(rgn.handle_open);
    assert!(rgn.mapped);
    assert_eq!(rgn.unmaps, 0);
    assert_eq!(rgn.closes, 0);
    rgn.release();
    assert!(!rgn.handle_open);
    assert!(!rgn.mapped);
    assert_eq!(rgn.unmaps, 1);
    assert_eq!(rgn.closes, 1);
}

#[test]
fn failed_mapping_closes_the_handle_exactly_once() {
    let left = acquire(true, false).expect_err("mapping failed");
    assert!(!left.handle_open);
    assert!(!left.mapped);
    assert_eq!(left.unmaps, 0);
    assert_eq!(left.closes, 1);
}

#[test]
fn failed_handle_leaves_nothing_to_give_back() {
    let left = acquire(false, false).expect_err("no handle was granted");
    assert!(!left.handle_open);
    assert!(!left.mapped);
    assert_eq!(left.unmaps, 0);
    assert_eq!(left.closes, 0);
    let left = acquire(false, true).expect_err("no handle was granted");
    assert_eq!(left.closes, 0);
}

#[test]
fn release_unmaps_before_closing() {
    let mut rgn = acquire(true, true).unwrap();
    rgn.unmap();
    assert!(rgn.handle_open);
    assert!(!rgn.mapped);
    assert_eq!(rgn.unmaps, 1);
    rgn.close();
    assert!(!rgn.handle_open);
    assert_eq!(rgn.closes, 1);
    assert_eq!(rgn, RegionLifecycle { handle_open: false, mapped: false, unmaps: 1, closes: 1 });
}
