//! Controller-side embedding session: allocate a slot, install the hook,
//! spawn the viewer, then best-effort remove the hook.
//!
//! The session interleaves decisions with outside work (opening a log,
//! querying the module identity, creating the shared region, installing the
//! hook, spawning the viewer). All decisions live here, in one verified step
//! function from stage and event to next stage and action; the caller
//! performs each action against the operating system and feeds the outcome
//! back as the next event. Every failure is immediate and non-retried, and
//! each failure stage maps to its own small negative code.

use vstd::prelude::*;
use crate::table::{MAX_PPTS, Rect, SharedTable, ViewSlot};

verus! {

/// The diagnostic log could not be opened.
pub const ERR_LOG_OPEN: i32 = -1;
/// The process-module identity was never recorded at load time.
pub const ERR_NO_MODULE: i32 = -2;
/// The named shared-memory region could not be created.
pub const ERR_REGION_CREATE: i32 = -3;
/// Every slot of the shared table is taken.
pub const ERR_TABLE_FULL: i32 = -4;
/// The system hook could not be installed.
pub const ERR_HOOK_INSTALL: i32 = -5;
/// The viewer process could not be spawned.
pub const ERR_SPAWN: i32 = -6;
/// Deriving the rectangle from the parent window is not implemented.
pub const ERR_AUTO_RECT: i32 = -99;

/// What one embedding request asks for: the host window to reparent into
/// (0 for none) and the geometry of the embedded window.
#[derive(Clone, Copy, PartialEq, Eq, Structural, Debug)]
pub struct OpenRequest {
    pub parent: u64,
    pub x: i32,
    pub y: i32,
    pub width: i32,
    pub height: i32,
}

/// Where an embedding session stands.
#[derive(Clone, Copy, PartialEq, Eq, Structural, Debug)]
pub enum OpenStage {
    /// Nothing done yet; the log is being opened.
    Started,
    /// Log ready; the module identity is being queried.
    LogReady,
    /// Module identity at hand; the shared region is being created.
    ModuleReady,
    /// Slot `id` reserved; the hook is being installed.
    SlotReady { id: usize },
    /// Hook recorded in the table; the viewer is being spawned.
    HookSet { id: usize },
    /// Viewer running; the hook is being removed, best effort.
    ViewerRunning { id: usize },
    /// The session is over with this return code: the slot id on success, a
    /// negative code on failure.
    Finished { code: i32 },
}

/// The outcome of the outside work the session last asked for.
#[derive(Clone, Copy, PartialEq, Eq, Structural, Debug)]
pub enum OpenEvent {
    /// Whether the diagnostic log could be opened.
    LogOpened { ok: bool },
    /// The module identity recorded at load time; 0 when none was.
    ModuleQueried { module: u64 },
    /// Whether the named shared region was created and mapped.
    RegionCreated { ok: bool },
    /// The handle of the freshly installed hook; 0 on failure.
    HookInstalled { hook: u64 },
    /// Whether the viewer process was spawned.
    ViewerSpawned { ok: bool },
    /// The best-effort hook removal was attempted; its result does not
    /// matter — the callback may already have retired the hook itself.
    HookRemoveTried { ok: bool },
}

/// The outside work the session asks its caller to perform next.
#[derive(Clone, Copy, PartialEq, Eq, Structural, Debug)]
pub enum OpenAction {
    /// Open the diagnostic log.
    OpenLog,
    /// Look up the module identity recorded at load time.
    QueryModule,
    /// Create and map the named shared region.
    CreateRegion,
    /// Install the system hook for the controller's module.
    InstallHook,
    /// Spawn the viewer process.
    SpawnViewer,
    /// Remove the hook, best effort; any result is tolerated.
    RemoveHook,
    /// Return this code to the caller of the exported entry point.
    Finish { code: i32 },
}

/// Which event answers which stage.
pub open spec fn expects(stage: OpenStage, event: OpenEvent) -> bool {
    match (stage, event) {
        (OpenStage::Started, OpenEvent::LogOpened { .. }) => true,
        (OpenStage::LogReady, OpenEvent::ModuleQueried { .. }) => true,
        (OpenStage::ModuleReady, OpenEvent::RegionCreated { .. }) => true,
        (OpenStage::SlotReady { .. }, OpenEvent::HookInstalled { .. }) => true,
        (OpenStage::HookSet { .. }, OpenEvent::ViewerSpawned { .. }) => true,
        (OpenStage::ViewerRunning { .. }, OpenEvent::HookRemoveTried { .. }) => true,
        _ => false,
    }
}

/// A slot id carried by a stage always lies inside the table.
pub open spec fn stage_ok(stage: OpenStage) -> bool {
    match stage {
        OpenStage::SlotReady { id } => id < MAX_PPTS,
        OpenStage::HookSet { id } => id < MAX_PPTS,
        OpenStage::ViewerRunning { id } => id < MAX_PPTS,
        _ => true,
    }
}

/// The request asks the rectangle to be taken from the parent window: a
/// non-null parent with all-zero geometry. Unsupported; the session reports
/// `ERR_AUTO_RECT` instead of inventing the missing behavior.
pub open spec fn is_auto_rect(req: OpenRequest) -> bool {
    req.parent != 0 && req.x == 0 && req.y == 0 && req.width == 0 && req.height == 0
}

/// The rectangle a request describes: origin at (x, y), extent width by
/// height, edges wrapping as 32-bit machine arithmetic does.
pub open spec fn requested_rect(req: OpenRequest) -> Rect {
    Rect {
        top: req.y,
        left: req.x,
        bottom: req.y.wrapping_add(req.height),
        right: req.x.wrapping_add(req.width),
    }
}

/// One decision of the session: the next stage, the action to perform, and
/// the shared table (hook handle and slots) afterwards.
pub struct SessionStep {
    pub stage: OpenStage,
    pub action: OpenAction,
    pub hook: u64,
    pub slots: Seq<ViewSlot>,
}

impl SessionStep {
    /// Move on without touching the table.
    pub open spec fn cont(stage: OpenStage, action: OpenAction, hook: u64, slots: Seq<ViewSlot>) -> SessionStep {
        SessionStep { stage, action, hook, slots }
    }

    /// End the session with `code`, leaving the table as it stands.
    pub open spec fn fin(code: i32, hook: u64, slots: Seq<ViewSlot>) -> SessionStep {
        SessionStep {
            stage: OpenStage::Finished { code },
            action: OpenAction::Finish { code },
            hook,
            slots,
        }
    }
}

/// The session's decision for one (stage, event) pair over a table holding
/// `hook` and `slots`.
pub open spec fn step_spec(
    stage: OpenStage,
    event: OpenEvent,
    hook: u64,
    slots: Seq<ViewSlot>,
    req: OpenRequest,
) -> SessionStep {
    match (stage, event) {
        (OpenStage::Started, OpenEvent::LogOpened { ok }) => {
            if ok {
                SessionStep::cont(OpenStage::LogReady, OpenAction::QueryModule, hook, slots)
            } else {
                SessionStep::fin(ERR_LOG_OPEN, hook, slots)
            }
        },
        (OpenStage::LogReady, OpenEvent::ModuleQueried { module }) => {
            if module != 0 {
                SessionStep::cont(OpenStage::ModuleReady, OpenAction::CreateRegion, hook, slots)
            } else {
                SessionStep::fin(ERR_NO_MODULE, hook, slots)
            }
        },
        (OpenStage::ModuleReady, OpenEvent::RegionCreated { ok }) => {
            if !ok {
                SessionStep::fin(ERR_REGION_CREATE, hook, slots)
            } else if is_auto_rect(req) {
                SessionStep::fin(ERR_AUTO_RECT, hook, slots)
            } else {
                match SharedTable::first_closed(slots) {
                    None => SessionStep::fin(ERR_TABLE_FULL, hook, slots),
                    Some(i) => SessionStep {
                        stage: OpenStage::SlotReady { id: i as usize },
                        action: OpenAction::InstallHook,
                        hook,
                        slots: SharedTable::alloc_result(slots, req.parent, requested_rect(req)),
                    },
                }
            }
        },
        (OpenStage::SlotReady { id }, OpenEvent::HookInstalled { hook: installed }) => {
            if installed == 0 {
                // The reserved slot is not handed back: a known leak of the
                // protocol, kept rather than silently repaired.
                SessionStep::fin(ERR_HOOK_INSTALL, hook, slots)
            } else {
                SessionStep::cont(OpenStage::HookSet { id }, OpenAction::SpawnViewer, installed, slots)
            }
        },
        (OpenStage::HookSet { id }, OpenEvent::ViewerSpawned { ok }) => {
            if ok {
                SessionStep::cont(OpenStage::ViewerRunning { id }, OpenAction::RemoveHook, hook, slots)
            } else {
                // The hook stays installed here as well: same preserved gap.
                SessionStep::fin(ERR_SPAWN, hook, slots)
            }
        },
        (OpenStage::ViewerRunning { id }, OpenEvent::HookRemoveTried { .. }) => {
            SessionStep::fin(id as i32, hook, slots)
        },
        _ => arbitrary(),
    }
}

/// Every slot of `slots` has left the `Closed` state: nothing is free.
pub open spec fn all_taken(slots: Seq<ViewSlot>) -> bool {
    forall|j: int| 0 <= j < slots.len() ==> slots[j].state != crate::table::SlotState::Closed
}

/// Stages at which this session has not yet reserved a slot nor recorded a
/// hook handle.
pub open spec fn pre_reservation(stage: OpenStage) -> bool {
    stage is Started || stage is LogReady || stage is ModuleReady || stage is Finished
}

/// One step of a session that stands before any reservation, against a full
/// table, stays before any reservation, touches nothing, and never asks for
/// a hook to be installed nor for the viewer to be spawned.
pub proof fn lemma_full_table_step_stalls(
    stage: OpenStage,
    event: OpenEvent,
    hook: u64,
    slots: Seq<ViewSlot>,
    req: OpenRequest,
)
    requires
        all_taken(slots),
        pre_reservation(stage),
        expects(stage, event),
    ensures
        pre_reservation(step_spec(stage, event, hook, slots, req).stage),
        step_spec(stage, event, hook, slots, req).slots == slots,
        step_spec(stage, event, hook, slots, req).hook == hook,
        step_spec(stage, event, hook, slots, req).action != OpenAction::InstallHook,
        step_spec(stage, event, hook, slots, req).action != OpenAction::SpawnViewer,
{
    SharedTable::lemma_first_closed_misses(slots, 0);
}

/// The step that reaches the table when it is already full ends the session
/// with the table-full sentinel, at once and with the table untouched.
pub proof fn lemma_full_table_reports_sentinel(hook: u64, slots: Seq<ViewSlot>, req: OpenRequest)
    requires
        all_taken(slots),
        !is_auto_rect(req),
    ensures
        step_spec(OpenStage::ModuleReady, OpenEvent::RegionCreated { ok: true }, hook, slots, req)
            == SessionStep::fin(ERR_TABLE_FULL, hook, slots),
{
    SharedTable::lemma_first_closed_misses(slots, 0);
}

/// Whether `events`, fed in order, is a run of the session: each event
/// answers the stage the session stands at when it arrives.
pub open spec fn trace_fits(
    stage: OpenStage,
    hook: u64,
    slots: Seq<ViewSlot>,
    req: OpenRequest,
    events: Seq<OpenEvent>,
) -> bool
    decreases events.len(),
{
    events.len() == 0 || {
        &&& expects(stage, events[0])
        &&& {
            let s = step_spec(stage, events[0], hook, slots, req);
            trace_fits(s.stage, s.hook, s.slots, req, events.drop_first())
        }
    }
}

/// The actions a run of the session asks for, in order.
pub open spec fn trace_actions(
    stage: OpenStage,
    hook: u64,
    slots: Seq<ViewSlot>,
    req: OpenRequest,
    events: Seq<OpenEvent>,
) -> Seq<OpenAction>
    decreases events.len(),
{
    if events.len() == 0 {
        Seq::empty()
    } else {
        let s = step_spec(stage, events[0], hook, slots, req);
        seq![s.action].add(trace_actions(s.stage, s.hook, s.slots, req, events.drop_first()))
    }
}

/// A run asks for exactly one action per event.
pub proof fn lemma_trace_actions_len(
    stage: OpenStage,
    hook: u64,
    slots: Seq<ViewSlot>,
    req: OpenRequest,
    events: Seq<OpenEvent>,
)
    ensures
        trace_actions(stage, hook, slots, req, events).len() == events.len(),
    decreases events.len(),
{
    if events.len() > 0 {
        let s = step_spec(stage, events[0], hook, slots, req);
        lemma_trace_actions_len(s.stage, s.hook, s.slots, req, events.drop_first());
    }
}

/// Law: a session begun when the slot table is already full never asks for
/// a hook to be installed nor for a viewer process to be spawned, however
/// its outside work turns out, and the table is never touched.
pub proof fn lemma_full_table_never_hooks(
    hook: u64,
    slots: Seq<ViewSlot>,
    req: OpenRequest,
    events: Seq<OpenEvent>,
    stage: OpenStage,
)
    requires
        all_taken(slots),
        pre_reservation(stage),
        trace_fits(stage, hook, slots, req, events),
    ensures
        forall|k: int| 0 <= k < events.len()
            ==> trace_actions(stage, hook, slots, req, events)[k] != OpenAction::InstallHook
                && trace_actions(stage, hook, slots, req, events)[k] != OpenAction::SpawnViewer,
    decreases events.len(),
{
    if events.len() > 0 {
        lemma_full_table_step_stalls(stage, events[0], hook, slots, req);
        let s = step_spec(stage, events[0], hook, slots, req);
        lemma_full_table_never_hooks(s.hook, s.slots, req, events.drop_first(), s.stage);
        lemma_trace_actions_len(s.stage, s.hook, s.slots, req, events.drop_first());
        assert forall|k: int| 0 <= k < events.len() implies
            trace_actions(stage, hook, slots, req, events)[k] != OpenAction::InstallHook
                && trace_actions(stage, hook, slots, req, events)[k] != OpenAction::SpawnViewer
        by {
            if k > 0 {
                assert(trace_actions(stage, hook, slots, req, events)[k]
                    == trace_actions(s.stage, s.hook, s.slots, req, events.drop_first())[k - 1]);
            }
        }
    }
}

/// Whether `event` answers `stage`, decidably, so an unverified driver can
/// guard its calls into `session_step`.
pub fn expects_event(stage: &OpenStage, event: &OpenEvent) -> (r: bool)
    ensures
        r == expects(*stage, *event),
{
    match (stage, event) {
        (OpenStage::Started, OpenEvent::LogOpened { .. }) => true,
        (OpenStage::LogReady, OpenEvent::ModuleQueried { .. }) => true,
        (OpenStage::ModuleReady, OpenEvent::RegionCreated { .. }) => true,
        (OpenStage::SlotReady { .. }, OpenEvent::HookInstalled { .. }) => true,
        (OpenStage::HookSet { .. }, OpenEvent::ViewerSpawned { .. }) => true,
        (OpenStage::ViewerRunning { .. }, OpenEvent::HookRemoveTried { .. }) => true,
        _ => false,
    }
}

/// Advance the session by one event: decide the next stage and the action
/// the caller is to perform, reserving the slot and recording the hook
/// handle in the shared table at the stages that call for it.
pub fn session_step(
    stage: OpenStage,
    event: OpenEvent,
    table: &mut SharedTable,
    req: OpenRequest,
) -> (r: (OpenStage, OpenAction))
    requires
        expects(stage, event),
        stage_ok(stage),
        old(table).wf(),
    ensures
        final(table).wf(),
        stage_ok(r.0),
        ({
            let s = step_spec(stage, event, old(table).current_hook, old(table).slots@, req);
            &&& r.0 == s.stage
            &&& r.1 == s.action
            &&& final(table).current_hook == s.hook
            &&& final(table).slots@ == s.slots
        }),
{
    match (stage, event) {
        (OpenStage::Started, OpenEvent::LogOpened { ok }) => {
            if ok {
                (OpenStage::LogReady, OpenAction::QueryModule)
            } else {
                (OpenStage::Finished { code: ERR_LOG_OPEN }, OpenAction::Finish { code: ERR_LOG_OPEN })
            }
        },
        (OpenStage::LogReady, OpenEvent::ModuleQueried { module }) => {
            if module != 0 {
                (OpenStage::ModuleReady, OpenAction::CreateRegion)
            } else {
                (OpenStage::Finished { code: ERR_NO_MODULE }, OpenAction::Finish { code: ERR_NO_MODULE })
            }
        },
        (OpenStage::ModuleReady, OpenEvent::RegionCreated { ok }) => {
            if !ok {
                (OpenStage::Finished { code: ERR_REGION_CREATE }, OpenAction::Finish { code: ERR_REGION_CREATE })
            } else if req.parent != 0 && req.x == 0 && req.y == 0 && req.width == 0 && req.height == 0 {
                (OpenStage::Finished { code: ERR_AUTO_RECT }, OpenAction::Finish { code: ERR_AUTO_RECT })
            } else {
                let rect = Rect {
                    top: req.y,
                    left: req.x,
                    bottom: req.y.wrapping_add(req.height),
                    right: req.x.wrapping_add(req.width),
                };
                match table.allocate(req.parent, rect) {
                    None => (OpenStage::Finished { code: ERR_TABLE_FULL }, OpenAction::Finish { code: ERR_TABLE_FULL }),
                    Some(id) => (OpenStage::SlotReady { id }, OpenAction::InstallHook),
                }
            }
        },
        (OpenStage::SlotReady { id }, OpenEvent::HookInstalled { hook: installed }) => {
            if installed == 0 {
                (OpenStage::Finished { code: ERR_HOOK_INSTALL }, OpenAction::Finish { code: ERR_HOOK_INSTALL })
            } else {
                table.current_hook = installed;
                (OpenStage::HookSet { id }, OpenAction::SpawnViewer)
            }
        },
        (OpenStage::HookSet { id }, OpenEvent::ViewerSpawned { ok }) => {
            if ok {
                (OpenStage::ViewerRunning { id }, OpenAction::RemoveHook)
            } else {
                (OpenStage::Finished { code: ERR_SPAWN }, OpenAction::Finish { code: ERR_SPAWN })
            }
        },
        (OpenStage::ViewerRunning { id }, OpenEvent::HookRemoveTried { .. }) => {
            let code = id as i32;
            (OpenStage::Finished { code }, OpenAction::Finish { code })
        },
        _ => {
            proof {
                assert(false);
            }
            (stage, OpenAction::Finish { code: 0 })
        },
    }
}

} // verus!
