//! Decision logic of the window-creation callback.
//!
//! Inside the viewer process, an installed system hook invokes a callback
//! once per window-creation notification on the viewer's UI thread. The
//! callback here is decomposed, independent of the installation mechanism,
//! into a pure decision: given the shared table and the notification's plain
//! values, it may record the created window into the owning slot, rewrite
//! the pending creation parameters, and retire the hook — and it always
//! instructs its caller to forward the notification to the next subscriber
//! in the chain, whatever else it decided.

use vstd::prelude::*;
use crate::table::{SharedTable, ViewSlot};

verus! {

/// Capacity, in UTF-16 units, of the fixed buffer the class name is read
/// into; a longer class name is silently truncated to this many units.
pub const CLASS_BUF_LEN: usize = 16;

/// Off-screen coordinate forced onto the pending window position, so the
/// window cannot flash on screen before the host repositions it.
pub const OFFSCREEN_COORD: i32 = -32000;

/// The mutable creation parameters of a window about to be created, as the
/// notification carries them: requested parent, position and extent.
#[derive(Clone, Copy, PartialEq, Eq, Structural, Debug)]
pub struct CreateParams {
    pub parent: u64,
    pub x: i32,
    pub y: i32,
    pub cx: i32,
    pub cy: i32,
}

/// Which of the two recognized window classes a class name denotes, if any.
#[derive(Clone, Copy, PartialEq, Eq, Structural, Debug)]
pub enum ClassKind {
    /// The secondary ("pane") window class.
    Pane,
    /// The primary ("screen") window class, whose creation parameters are
    /// rewritten.
    Screen,
    /// Any other class: the notification passes through untouched.
    Other,
}

/// The UTF-16 units of the secondary window class identifier, "paneClassDC".
pub open spec fn pane_class() -> Seq<u16> {
    seq![
        112u16, 97u16, 110u16, 101u16,
        67u16, 108u16, 97u16, 115u16, 115u16,
        68u16, 67u16,
    ]
}

/// The UTF-16 units of the primary window class identifier, "screenClass".
pub open spec fn screen_class() -> Seq<u16> {
    seq![
        115u16, 99u16, 114u16, 101u16, 101u16, 110u16,
        67u16, 108u16, 97u16, 115u16, 115u16,
    ]
}

/// How a class name is recognized.
pub open spec fn classify_spec(class: Seq<u16>) -> ClassKind {
    if class == pane_class() {
        ClassKind::Pane
    } else if class == screen_class() {
        ClassKind::Screen
    } else {
        ClassKind::Other
    }
}

/// Whether two UTF-16 strings hold the same units.
fn u16_vec_eq(a: &Vec<u16>, b: &Vec<u16>) -> (r: bool)
    ensures
        r <==> a@ == b@,
{
    if a.len() != b.len() {
        return false;
    }
    let mut i: usize = 0;
    while i < a.len()
        invariant
            a@.len() == b@.len(),
            i <= a@.len(),
            forall|j: int| 0 <= j < i as int ==> a@[j] == b@[j],
        decreases a@.len() - i,
    {
        if a[i] != b[i] {
            return false;
        }
        i = i + 1;
    }
    proof {
        assert(a@ =~= b@);
    }
    true
}

/// The secondary ("pane") class identifier as a UTF-16 string.
pub fn pane_class_name() -> (r: Vec<u16>)
    ensures
        r@ == pane_class(),
{
    let mut v: Vec<u16> = Vec::new();
    v.push(112u16);
    v.push(97u16);
    v.push(110u16);
    v.push(101u16);
    v.push(67u16);
    v.push(108u16);
    v.push(97u16);
    v.push(115u16);
    v.push(115u16);
    v.push(68u16);
    v.push(67u16);
    proof {
        assert(v@ =~= pane_class());
    }
    v
}

/// The primary ("screen") class identifier as a UTF-16 string.
pub fn screen_class_name() -> (r: Vec<u16>)
    ensures
        r@ == screen_class(),
{
    let mut v: Vec<u16> = Vec::new();
    v.push(115u16);
    v.push(99u16);
    v.push(114u16);
    v.push(101u16);
    v.push(101u16);
    v.push(110u16);
    v.push(67u16);
    v.push(108u16);
    v.push(97u16);
    v.push(115u16);
    v.push(115u16);
    proof {
        assert(v@ =~= screen_class());
    }
    v
}

/// Recognize a class name.
pub fn classify(class: &Vec<u16>) -> (k: ClassKind)
    ensures
        k == classify_spec(class@),
{
    let pane = pane_class_name();
    if u16_vec_eq(class, &pane) {
        return ClassKind::Pane;
    }
    let screen = screen_class_name();
    if u16_vec_eq(class, &screen) {
        return ClassKind::Screen;
    }
    ClassKind::Other
}

/// Index of the first slot at or after `from` owned by `thread`. The scan
/// goes by the recorded owner thread alone, whatever the slot's state.
pub open spec fn resolve_slot_from(slots: Seq<ViewSlot>, thread: u32, from: int) -> Option<int>
    decreases slots.len() - from,
{
    if from < 0 || from >= slots.len() {
        None
    } else if slots[from].owner_thread == thread {
        Some(from)
    } else {
        resolve_slot_from(slots, thread, from + 1)
    }
}

/// The slot owning `thread`: the first one recorded for it, if any.
pub open spec fn resolve_slot(slots: Seq<ViewSlot>, thread: u32) -> Option<int> {
    resolve_slot_from(slots, thread, 0)
}

/// The creation parameters as rewritten for the primary window of `slot`:
/// extent taken from the slot's rectangle, position forced off screen, and
/// the parent overridden whenever the slot holds one.
pub open spec fn rewritten_params(slot: ViewSlot, p: CreateParams) -> CreateParams {
    CreateParams {
        parent: if slot.parent_wnd != 0 { slot.parent_wnd } else { p.parent },
        x: OFFSCREEN_COORD,
        y: OFFSCREEN_COORD,
        cx: slot.rect.right.wrapping_sub(slot.rect.left),
        cy: slot.rect.bottom.wrapping_sub(slot.rect.top),
    }
}

/// Everything one window-creation notification decides: the handle to
/// forward with, the shared table afterwards, the (possibly rewritten)
/// creation parameters, and whether the hook retires itself now.
pub struct CbtStep {
    /// Handle read from the table at entry; the notification is always
    /// forwarded with it.
    pub chain_hook: u64,
    /// The shared hook handle after the call.
    pub hook_after: u64,
    /// The slot table after the call.
    pub slots_after: Seq<ViewSlot>,
    /// The creation parameters after the call.
    pub params_after: CreateParams,
    /// Whether the callback retires the hook (self-uninstall) now.
    pub uninstall: bool,
}

impl CbtStep {
    /// A step that changes nothing: the notification passes through.
    pub open spec fn inert(hook: u64, slots: Seq<ViewSlot>, p: CreateParams) -> CbtStep {
        CbtStep { chain_hook: hook, hook_after: hook, slots_after: slots, params_after: p, uninstall: false }
    }
}

/// The decision taken for one impending window creation: window handle
/// `wnd`, created on `thread`, of class `class`, with pending parameters
/// `p`, against a table holding `hook` and `slots`.
pub open spec fn cbt_create_spec(
    hook: u64,
    slots: Seq<ViewSlot>,
    wnd: u64,
    thread: u32,
    class: Seq<u16>,
    p: CreateParams,
) -> CbtStep {
    let kind = classify_spec(class);
    if kind == ClassKind::Other {
        CbtStep::inert(hook, slots, p)
    } else {
        match resolve_slot(slots, thread) {
            None => CbtStep::inert(hook, slots, p),
            Some(i) => {
                let slot = slots[i];
                if slot.is_complete() {
                    // Capture already finished for this slot: nothing more
                    // to record, the notification passes through.
                    CbtStep::inert(hook, slots, p)
                } else if kind == ClassKind::Pane {
                    let updated = ViewSlot { secondary_wnd: wnd, ..slot };
                    CbtStep {
                        chain_hook: hook,
                        hook_after: if updated.is_complete() { 0 } else { hook },
                        slots_after: slots.update(i, updated),
                        params_after: p,
                        uninstall: updated.is_complete(),
                    }
                } else {
                    let updated = ViewSlot { primary_wnd: wnd, ..slot };
                    CbtStep {
                        chain_hook: hook,
                        hook_after: if updated.is_complete() { 0 } else { hook },
                        slots_after: slots.update(i, updated),
                        params_after: rewritten_params(slot, p),
                        uninstall: updated.is_complete(),
                    }
                }
            },
        }
    }
}

/// What the caller of the decision does with it: forward the notification
/// with `chain_hook`, hand the rewritten parameters back to the creation,
/// and retire the hook when told to.
#[derive(Clone, Copy, PartialEq, Eq, Structural, Debug)]
pub struct CbtOutcome {
    /// Handle to forward the notification with — always, whatever else was
    /// decided; dropping the forward would break every other subscriber of
    /// the chain.
    pub chain_hook: u64,
    /// The creation parameters to let the window creation proceed with.
    pub params: CreateParams,
    /// Whether to self-uninstall the hook `chain_hook` now.
    pub uninstall: bool,
}

/// Handle a notification that does not signal a window creation: read the
/// hook handle for the unconditional forward and touch nothing.
pub fn on_other_notification(table: &SharedTable) -> (hook: u64)
    ensures
        hook == table.current_hook,
{
    table.current_hook
}

/// Handle one impending window creation inside the viewer process.
///
/// Recognizes the two expected window classes, records the created window
/// into the slot owned by the creating thread, rewrites the pending
/// creation parameters for the primary window, and — once both expected
/// windows of the slot are seen — clears the shared hook handle and asks
/// for self-uninstall. On any miss (foreign class, no owning slot, capture
/// already complete) everything is left untouched. The notification is
/// forwarded with `chain_hook` in every case.
pub fn on_create_window(
    table: &mut SharedTable,
    wnd: u64,
    thread: u32,
    class: &Vec<u16>,
    params: CreateParams,
) -> (o: CbtOutcome)
    ensures
        ({
            let step = cbt_create_spec(
                old(table).current_hook, old(table).slots@, wnd, thread, class@, params);
            &&& o.chain_hook == step.chain_hook
            &&& o.params == step.params_after
            &&& o.uninstall == step.uninstall
            &&& final(table).current_hook == step.hook_after
            &&& final(table).slots@ == step.slots_after
        }),
{
    let chain_hook = table.current_hook;
    let kind = classify(class);
    if matches!(kind, ClassKind::Other) {
        return CbtOutcome { chain_hook, params, uninstall: false };
    }

    let mut i: usize = 0;
    let n = table.slots.len();
    while i < n
        invariant
            n == table.slots@.len(),
            i <= n,
            table == old(table),
            chain_hook == old(table).current_hook,
            kind == classify_spec(class@),
            kind != ClassKind::Other,
            forall|j: int| 0 <= j < i as int ==> table.slots@[j].owner_thread != thread,
        decreases n - i,
    {
        if table.slots[i].owner_thread == thread {
            proof {
                lemma_resolve_slot_finds(table.slots@, thread, 0, i as int);
            }
            let slot = table.slots[i];
            if slot.primary_wnd != 0 && slot.secondary_wnd != 0 {
                return CbtOutcome { chain_hook, params, uninstall: false };
            }
            if matches!(kind, ClassKind::Pane) {
                let updated = ViewSlot { secondary_wnd: wnd, ..slot };
                let complete = updated.primary_wnd != 0 && updated.secondary_wnd != 0;
                self_update(table, i, updated, complete);
                return CbtOutcome { chain_hook, params, uninstall: complete };
            } else {
                let updated = ViewSlot { primary_wnd: wnd, ..slot };
                let complete = updated.primary_wnd != 0 && updated.secondary_wnd != 0;
                let new_params = CreateParams {
                    parent: if slot.parent_wnd != 0 { slot.parent_wnd } else { params.parent },
                    x: OFFSCREEN_COORD,
                    y: OFFSCREEN_COORD,
                    cx: slot.rect.right.wrapping_sub(slot.rect.left),
                    cy: slot.rect.bottom.wrapping_sub(slot.rect.top),
                };
                self_update(table, i, updated, complete);
                return CbtOutcome { chain_hook, params: new_params, uninstall: complete };
            }
        }
        i = i + 1;
    }
    proof {
        lemma_resolve_slot_misses(table.slots@, thread, 0);
    }
    CbtOutcome { chain_hook, params, uninstall: false }
}

/// Store the updated slot and, when the capture is now complete, clear the
/// shared hook handle (publishing "capture complete" to the controller).
fn self_update(table: &mut SharedTable, i: usize, updated: ViewSlot, complete: bool)
    requires
        (i as int) < old(table).slots@.len(),
    ensures
        final(table).slots@ == old(table).slots@.update(i as int, updated),
        final(table).current_hook == if complete { 0u64 } else { old(table).current_hook },
{
    table.slots.set(i, updated);
    if complete {
        table.current_hook = 0;
    }
}

/// Law: a creation whose class name is neither recognized identifier passes
/// through untouched — the creation parameters stay byte-identical, the
/// table is not written, the hook is not retired, and the notification is
/// still forwarded with the hook handle read at entry.
pub proof fn lemma_unrecognized_class_is_inert(
    hook: u64,
    slots: Seq<ViewSlot>,
    wnd: u64,
    thread: u32,
    class: Seq<u16>,
    p: CreateParams,
)
    requires
        classify_spec(class) == ClassKind::Other,
    ensures
        cbt_create_spec(hook, slots, wnd, thread, class, p) == CbtStep::inert(hook, slots, p),
{
}

/// Law: a creation on a thread that no slot owns passes through untouched.
pub proof fn lemma_unresolved_thread_is_inert(
    hook: u64,
    slots: Seq<ViewSlot>,
    wnd: u64,
    thread: u32,
    class: Seq<u16>,
    p: CreateParams,
)
    requires
        resolve_slot(slots, thread) is None,
    ensures
        cbt_create_spec(hook, slots, wnd, thread, class, p) == CbtStep::inert(hook, slots, p),
{
}

/// Which slot owns a thread does not move when one slot is rewritten
/// without changing its recorded owner.
pub proof fn lemma_resolve_slot_stable(
    slots: Seq<ViewSlot>,
    i: int,
    updated: ViewSlot,
    thread: u32,
    from: int,
)
    requires
        0 <= i < slots.len(),
        updated.owner_thread == slots[i].owner_thread,
        0 <= from,
    ensures
        resolve_slot_from(slots.update(i, updated), thread, from)
            == resolve_slot_from(slots, thread, from),
    decreases slots.len() - from,
{
    if from < slots.len() {
        lemma_resolve_slot_stable(slots, i, updated, thread, from + 1);
    }
}

/// Law: once a creation completes a slot's capture, the shared hook handle
/// is cleared, and any later creation on the same thread passes through
/// untouched — the table keeps its value, the parameters stay byte-identical,
/// and no further self-uninstall is requested.
pub proof fn lemma_post_capture_idempotent(
    hook: u64,
    slots: Seq<ViewSlot>,
    wnd: u64,
    thread: u32,
    class: Seq<u16>,
    p: CreateParams,
    wnd2: u64,
    class2: Seq<u16>,
    p2: CreateParams,
)
    requires
        cbt_create_spec(hook, slots, wnd, thread, class, p).uninstall,
    ensures
        cbt_create_spec(hook, slots, wnd, thread, class, p).hook_after == 0,
        ({
            let s1 = cbt_create_spec(hook, slots, wnd, thread, class, p);
            cbt_create_spec(s1.hook_after, s1.slots_after, wnd2, thread, class2, p2)
                == CbtStep::inert(0, s1.slots_after, p2)
        }),
{
    let s1 = cbt_create_spec(hook, slots, wnd, thread, class, p);
    let i = resolve_slot(slots, thread)->Some_0;
    lemma_resolve_slot_bounded(slots, thread, 0);
    lemma_resolve_slot_stable(slots, i, s1.slots_after[i], thread, 0);
    assert(s1.slots_after[i].is_complete());
}

/// A resolved slot index lies inside the table.
pub proof fn lemma_resolve_slot_bounded(slots: Seq<ViewSlot>, thread: u32, from: int)
    requires
        0 <= from,
        resolve_slot_from(slots, thread, from) is Some,
    ensures
        from <= resolve_slot_from(slots, thread, from)->Some_0 < slots.len(),
        slots[resolve_slot_from(slots, thread, from)->Some_0].owner_thread == thread,
    decreases slots.len() - from,
{
    if from < slots.len() && slots[from].owner_thread != thread {
        lemma_resolve_slot_bounded(slots, thread, from + 1);
    }
}

/// Law: reading the class name through the fixed buffer is harmless — silent
/// truncation to the buffer's capacity never changes how the name
/// classifies, because both recognized identifiers are shorter than the
/// buffer.
pub proof fn lemma_truncation_preserves_classification(class: Seq<u16>, cap: int)
    requires
        pane_class().len() < cap,
        screen_class().len() < cap,
    ensures
        classify_spec(if class.len() <= cap { class } else { class.take(cap) })
            == classify_spec(class),
{
    if class.len() > cap {
        assert(class.take(cap).len() == cap);
    }
}

/// Law: the fixed class-name buffer is large enough — both recognized
/// identifiers fit in `CLASS_BUF_LEN` units, so a name read through that
/// buffer classifies exactly as the full name would.
pub proof fn lemma_class_buffer_suffices(class: Seq<u16>)
    ensures
        classify_spec(
            if class.len() <= CLASS_BUF_LEN as int {
                class
            } else {
                class.take(CLASS_BUF_LEN as int)
            },
        ) == classify_spec(class),
{
    lemma_truncation_preserves_classification(class, CLASS_BUF_LEN as int);
}

/// Scanning from `from`, the first slot owned by `thread` is exactly the
/// lowest index at or past `from` recorded for it.
pub proof fn lemma_resolve_slot_finds(slots: Seq<ViewSlot>, thread: u32, from: int, i: int)
    requires
        0 <= from <= i < slots.len(),
        slots[i].owner_thread == thread,
        forall|j: int| from <= j < i ==> slots[j].owner_thread != thread,
    ensures
        resolve_slot_from(slots, thread, from) == Some(i),
    decreases i - from,
{
    if from < i {
        lemma_resolve_slot_finds(slots, thread, from + 1, i);
    }
}

/// Scanning from `from`, no slot is found when none is owned by `thread`.
pub proof fn lemma_resolve_slot_misses(slots: Seq<ViewSlot>, thread: u32, from: int)
    requires
        0 <= from,
        forall|j: int| from <= j < slots.len() ==> slots[j].owner_thread != thread,
    ensures
        resolve_slot_from(slots, thread, from) is None,
    decreases slots.len() - from,
{
    if from < slots.len() {
        lemma_resolve_slot_misses(slots, thread, from + 1);
    }
}

} // verus!
