use pptviewlib::session::{
    expects_event, session_step, OpenAction, OpenEvent, OpenRequest, OpenStage, ERR_AUTO_RECT,
    ERR_HOOK_INSTALL, ERR_LOG_OPEN, ERR_NO_MODULE, ERR_REGION_CREATE, ERR_SPAWN, ERR_TABLE_FULL,
};
use pptviewlib::table::{MAX_PPTS, Rect, SharedTable, SlotState};

fn request() -> OpenRequest {
    OpenRequest { parent: 77, x: 10, y: 20, width: 100, height: 200 }
}

/// Drive a session from its first stage, answering each asked action with
/// the canned event for it, and collect every action the session asks for.
fn drive(
    table: &mut SharedTable,
    req: OpenRequest,
    log_ok: bool,
    module: u64,
    region_ok: bool,
    hook: u64,
    spawn_ok: bool,
) -> (i32, Vec<OpenAction>) {
    let mut stage = OpenStage::Started;
    let mut actions: Vec<OpenAction> = Vec::new();
    loop {
        let event = match stage {
            OpenStage::Started => OpenEvent::LogOpened { ok: log_ok },
            OpenStage::LogReady => OpenEvent::ModuleQueried { module },
            OpenStage::ModuleReady => OpenEvent::RegionCreated { ok: region_ok },
            OpenStage::SlotReady { .. } => OpenEvent::HookInstalled { hook },
            OpenStage::HookSet { .. } => OpenEvent::ViewerSpawned { ok: spawn_ok },
            OpenStage::ViewerRunning { .. } => OpenEvent::HookRemoveTried { ok: false },
            OpenStage::Finished { code } => return (code, actions),
        };
        assert!(expects_event(&stage, &event));
        let (next, action) = session_step(stage, event, table, req);
        actions.push(action);
        stage = next;
    }
}

#[test]
fn happy_path_reserves_slot_and_returns_its_id() {
    let mut t = SharedTable::new();
    let (code, actions) = drive(&mut t, request(), true, 5, true, 444, true);
    assert_eq!(code, 0);
    assert_eq!(
        actions,
        vec![
            OpenAction::QueryModule,
            OpenAction::CreateRegion,
            OpenAction::InstallHook,
            OpenAction::SpawnViewer,
            OpenAction::RemoveHook,
            OpenAction::Finish { code: 0 },
        ]
    );
    assert_eq!(t.slots[0].state, SlotState::Started);
    assert_eq!(t.slots[0].parent_wnd, 77);
    assert_eq!(t.slots[0].rect, Rect { top: 20, left: 10, bottom: 220, right: 110 });
    assert_eq!(t.current_hook, 444);
}

#[test]
fn full_table_reports_sentinel_without_hook_or_spawn() {
    let mut t = SharedTable::new();
    for _ in 0..MAX_PPTS {
        assert!(t.allocate(0, Rect { top: 0, left: 0, bottom: 1, right: 1 }).is_some());
    }
    let hook_before = t.current_hook;
    let slots_before = t.slots.clone();
    let (code, actions) = drive(&mut t, request(), true, 5, true, 444, true);
    assert_eq!(code, ERR_TABLE_FULL);
    for a in &actions {
        assert_ne!(*a, OpenAction::InstallHook);
        assert_ne!(*a, OpenAction::SpawnViewer);
    }
    assert_eq!(t.current_hook, hook_before);
    assert_eq!(t.slots, slots_before);
}

#[test]
fn each_failure_stage_has_its_own_code() {
    let mut t = SharedTable::new();
    assert_eq!(drive(&mut t, request(), false, 5, true, 444, true).0, ERR_LOG_OPEN);
    let mut t = SharedTable::new();
    assert_eq!(drive(&mut t, request(), true, 0, true, 444, true).0, ERR_NO_MODULE);
    let mut t = SharedTable::new();
    assert_eq!(drive(&mut t, request(), true, 5, false, 444, true).0, ERR_REGION_CREATE);
    let mut t = SharedTable::new();
    assert_eq!(drive(&mut t, request(), true, 5, true, 0, true).0, ERR_HOOK_INSTALL);
    let mut t = SharedTable::new();
    assert_eq!(drive(&mut t, request(), true, 5, true, 444, false).0, ERR_SPAWN);
}

#[test]
fn auto_rect_request_is_reported_unsupported() {
    let mut t = SharedTable::new();
    let req = OpenRequest { parent: 77, x: 0, y: 0, width: 0, height: 0 };
    let (code, actions) = drive(&mut t, req, true, 5, true, 444, true);
    assert_eq!(code, ERR_AUTO_RECT);
    for a in &actions {
        assert_ne!(*a, OpenAction::InstallHook);
    }
    // A null parent with zero geometry is an ordinary (empty) rectangle,
    // not the unsupported form.
    let mut t = SharedTable::new();
    let req = OpenRequest { parent: 0, x: 0, y: 0, width: 0, height: 0 };
    assert_eq!(drive(&mut t, req, true, 5, true, 444, true).0, 0);
}

#[test]
fn hook_failure_leaves_slot_reserved() {
    // A later-stage failure does not hand the reserved slot back: a
    // declared gap of the protocol, deliberately preserved.
    let mut t = SharedTable::new();
    let (code, _) = drive(&mut t, request(), true, 5, true, 0, true);
    assert_eq!(code, ERR_HOOK_INSTALL);
    assert_eq!(t.slots[0].state, SlotState::Started);
}

#[test]
fn second_session_takes_the_next_slot() {
    let mut t = SharedTable::new();
    let (first, _) = drive(&mut t, request(), true, 5, true, 444, true);
    let (second, _) = drive(&mut t, request(), true, 5, true, 555, true);
    assert_eq!(first, 0);
    assert_eq!(second, 1);
    assert_eq!(t.slots[1].state, SlotState::Started);
    assert_eq!(t.current_hook, 555);
}

#[test]
fn hook_removal_result_is_tolerated_either_way() {
    // The controller's removal is redundant defense: the callback may have
    // retired the handle already, so a failing removal ends the session
    // exactly as a successful one does.
    for removal_ok in [false, true] {
        let mut t = SharedTable::new();
        let stage = OpenStage::ViewerRunning { id: 3 };
        let event = OpenEvent::HookRemoveTried { ok: removal_ok };
        assert!(expects_event(&stage, &event));
        let (next, action) = session_step(stage, event, &mut t, request());
        assert_eq!(next, OpenStage::Finished { code: 3 });
        assert_eq!(action, OpenAction::Finish { code: 3 });
    }
}

#[test]
fn mismatched_event_is_refused_by_the_guard() {
    let stage = OpenStage::Started;
    assert!(!expects_event(&stage, &OpenEvent::ViewerSpawned { ok: true }));
    assert!(!expects_event(
        &OpenStage::Finished { code: 0 },
        &OpenEvent::LogOpened { ok: true }
    ));
    assert!(expects_event(&stage, &OpenEvent::LogOpened { ok: false }));
}
