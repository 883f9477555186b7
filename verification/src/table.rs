//! The shared slot table: the single cross-process object of the protocol.
//!
//! One record of fixed capacity holds the currently installed hook handle and
//! one slot per embedded viewer window. Handles are carried as plain 64-bit
//! integers, with `0` standing for "no handle". The table is written without a
//! lock; safety comes from protocol phase ordering, so every mutation here is
//! a plain function whose effect is pinned down by its contract.

use vstd::prelude::*;

verus! {

/// Capacity of the slot table: how many viewer windows can be embedded at once.
pub const MAX_PPTS: usize = 16;

/// A window rectangle in screen coordinates, as four signed 32-bit edges.
#[derive(Clone, Copy, PartialEq, Eq, Structural, Debug)]
pub struct Rect {
    pub top: i32,
    pub left: i32,
    pub bottom: i32,
    pub right: i32,
}

/// Lifecycle phase of one embedding slot.
///
/// A slot only ever moves forward along this order within one embedding
/// lifetime. Today only `Closed -> Started` is ever taken: no component
/// advances a slot past the initial creation phase; the later
/// transitions are a declared gap of the protocol, not invented here.
#[derive(Clone, Copy, PartialEq, Eq, Structural, Debug)]
pub enum SlotState {
    Closed,
    Started,
    Opened,
    Loaded,
    Closing,
}

/// One entry of the slot table: the tracked state of a single embedded
/// viewer window. `owner_thread` is meaningful only while `state` is not
/// `Closed`.
#[derive(Clone, Copy, PartialEq, Eq, Structural, Debug)]
pub struct ViewSlot {
    /// The primary ("screen" class) window handle, once captured; 0 before.
    pub primary_wnd: u64,
    /// The secondary ("pane" class) window handle, once captured; 0 before.
    pub secondary_wnd: u64,
    /// The host window the captured window is to be reparented into; 0 if none.
    pub parent_wnd: u64,
    /// Id of the viewer thread whose window creations belong to this slot.
    pub owner_thread: u32,
    /// Target geometry for the captured window.
    pub rect: Rect,
    /// Lifecycle phase.
    pub state: SlotState,
}

impl ViewSlot {
    /// A zeroed slot, as the freshly created shared region holds it.
    pub open spec fn zeroed_spec() -> ViewSlot {
        ViewSlot {
            primary_wnd: 0,
            secondary_wnd: 0,
            parent_wnd: 0,
            owner_thread: 0,
            rect: Rect { top: 0, left: 0, bottom: 0, right: 0 },
            state: SlotState::Closed,
        }
    }

    /// Both expected windows of this slot have been captured.
    pub open spec fn is_complete(self) -> bool {
        self.primary_wnd != 0 && self.secondary_wnd != 0
    }
}

/// The one record shared between the controller and the viewer process.
pub struct SharedTable {
    /// Handle of the currently installed system hook; 0 when none is
    /// installed or after the callback has retired it.
    pub current_hook: u64,
    /// The fixed-capacity slot table.
    pub slots: Vec<ViewSlot>,
}

impl SharedTable {
    /// Well-formedness: the slot array has exactly the declared capacity.
    pub open spec fn wf(self) -> bool {
        self.slots@.len() == MAX_PPTS as int
    }

    /// No slot is free: every entry has left the `Closed` state.
    pub open spec fn is_full(self) -> bool {
        forall|i: int| 0 <= i < self.slots@.len() ==> self.slots@[i].state != SlotState::Closed
    }

    /// A freshly created table: hook absent, every slot zeroed, exactly as
    /// the zero-initialized shared region reads back.
    pub fn new() -> (r: SharedTable)
        ensures
            r.wf(),
            r.current_hook == 0,
            forall|i: int| 0 <= i < MAX_PPTS as int ==> r.slots@[i] == ViewSlot::zeroed_spec(),
    {
        let mut slots: Vec<ViewSlot> = Vec::new();
        let mut i: usize = 0;
        while i < MAX_PPTS
            invariant
                i <= MAX_PPTS,
                slots@.len() == i as int,
                forall|j: int| 0 <= j < i as int ==> slots@[j] == ViewSlot::zeroed_spec(),
            decreases MAX_PPTS - i,
        {
            slots.push(ViewSlot {
                primary_wnd: 0,
                secondary_wnd: 0,
                parent_wnd: 0,
                owner_thread: 0,
                rect: Rect { top: 0, left: 0, bottom: 0, right: 0 },
                state: SlotState::Closed,
            });
            i = i + 1;
        }
        SharedTable { current_hook: 0, slots }
    }

    /// What one successful allocation writes into the chosen slot: window
    /// handles reset, the requested parent and rectangle stored, the slot
    /// moved out of `Closed` into the initial phase. The owner thread is left
    /// as it was: no component records it today, a declared gap of the
    /// protocol kept as it stands.
    pub open spec fn reserved_spec(before: ViewSlot, parent: u64, rect: Rect) -> ViewSlot {
        ViewSlot {
            primary_wnd: 0,
            secondary_wnd: 0,
            parent_wnd: parent,
            owner_thread: before.owner_thread,
            rect: rect,
            state: SlotState::Started,
        }
    }

    /// The slot sequence after `allocate` reserved index `i` of `slots`.
    pub open spec fn allocated_spec(slots: Seq<ViewSlot>, i: int, parent: u64, rect: Rect) -> Seq<ViewSlot> {
        slots.update(i, Self::reserved_spec(slots[i], parent, rect))
    }

    /// Index of the first slot at or after `from` that is still `Closed`.
    pub open spec fn first_closed_from(slots: Seq<ViewSlot>, from: int) -> Option<int>
        decreases slots.len() - from,
    {
        if from < 0 || from >= slots.len() {
            None
        } else if slots[from].state == SlotState::Closed {
            Some(from)
        } else {
            Self::first_closed_from(slots, from + 1)
        }
    }

    /// Index of the first free slot, the one `allocate` reserves.
    pub open spec fn first_closed(slots: Seq<ViewSlot>) -> Option<int> {
        Self::first_closed_from(slots, 0)
    }

    /// The slot sequence after one `allocate(parent, rect)` call: the first
    /// free slot reserved, or everything unchanged when none is free.
    pub open spec fn alloc_result(slots: Seq<ViewSlot>, parent: u64, rect: Rect) -> Seq<ViewSlot> {
        match Self::first_closed(slots) {
            None => slots,
            Some(i) => Self::allocated_spec(slots, i, parent, rect),
        }
    }

    /// Reserve the first free slot: scan for the lowest index still in
    /// `Closed` state, reset its window handles, store the requested parent
    /// handle and rectangle, and return its id. When every slot is taken,
    /// return `None` and leave the table untouched.
    pub fn allocate(&mut self, parent: u64, rect: Rect) -> (r: Option<usize>)
        requires
            old(self).wf(),
        ensures
            final(self).wf(),
            final(self).current_hook == old(self).current_hook,
            r is None <==> old(self).is_full(),
            r is None ==> *final(self) == *old(self),
            r is Some ==> {
                let i = r->Some_0 as int;
                &&& 0 <= i < MAX_PPTS as int
                &&& old(self).slots@[i].state == SlotState::Closed
                &&& (forall|j: int| 0 <= j < i ==> old(self).slots@[j].state != SlotState::Closed)
                &&& final(self).slots@ == Self::allocated_spec(old(self).slots@, i, parent, rect)
            },
            (match r {
                None => None::<int>,
                Some(i) => Some(i as int),
            }) == Self::first_closed(old(self).slots@),
            final(self).slots@ == Self::alloc_result(old(self).slots@, parent, rect),
    {
        let mut i: usize = 0;
        while i < MAX_PPTS
            invariant
                self == old(self),
                old(self).wf(),
                i <= MAX_PPTS,
                forall|j: int| 0 <= j < i as int ==> old(self).slots@[j].state != SlotState::Closed,
            decreases MAX_PPTS - i,
        {
            if self.slots[i].state == SlotState::Closed {
                proof {
                    Self::lemma_first_closed_finds(self.slots@, 0, i as int);
                }
                let owner_thread = self.slots[i].owner_thread;
                self.slots.set(i, ViewSlot {
                    primary_wnd: 0,
                    secondary_wnd: 0,
                    parent_wnd: parent,
                    owner_thread,
                    rect,
                    state: SlotState::Started,
                });
                return Some(i);
            }
            i = i + 1;
        }
        proof {
            Self::lemma_first_closed_misses(self.slots@, 0);
        }
        None
    }

    /// Scanning from `from`, the first `Closed` slot is exactly the lowest
    /// index `i >= from` whose slot is `Closed`.
    pub proof fn lemma_first_closed_finds(slots: Seq<ViewSlot>, from: int, i: int)
        requires
            0 <= from <= i < slots.len(),
            slots[i].state == SlotState::Closed,
            forall|j: int| from <= j < i ==> slots[j].state != SlotState::Closed,
        ensures
            Self::first_closed_from(slots, from) == Some(i),
        decreases i - from,
    {
        if from < i {
            Self::lemma_first_closed_finds(slots, from + 1, i);
        }
    }

    /// The ids handed out by a run of `allocate` calls, one per requested
    /// (parent, rectangle) pair, in order.
    pub open spec fn alloc_chain_ids(slots: Seq<ViewSlot>, params: Seq<(u64, Rect)>) -> Seq<Option<int>>
        decreases params.len(),
    {
        if params.len() == 0 {
            Seq::empty()
        } else {
            seq![Self::first_closed(slots)].add(
                Self::alloc_chain_ids(Self::alloc_result(slots, params[0].0, params[0].1), params.drop_first()),
            )
        }
    }

    /// The slot sequence left behind by that same run of `allocate` calls.
    pub open spec fn alloc_chain_slots(slots: Seq<ViewSlot>, params: Seq<(u64, Rect)>) -> Seq<ViewSlot>
        decreases params.len(),
    {
        if params.len() == 0 {
            slots
        } else {
            Self::alloc_chain_slots(Self::alloc_result(slots, params[0].0, params[0].1), params.drop_first())
        }
    }

    /// On a table whose slots from index `k` on are the only free ones, a run
    /// of `allocate` calls hands out ids `k`, `k + 1`, ... in order, and
    /// leaves free exactly the slots past the last one reserved.
    pub proof fn lemma_alloc_chain_sequential(slots: Seq<ViewSlot>, params: Seq<(u64, Rect)>, k: int)
        requires
            slots.len() == MAX_PPTS as int,
            0 <= k,
            k + params.len() <= MAX_PPTS as int,
            forall|j: int| k <= j < MAX_PPTS as int ==> slots[j].state == SlotState::Closed,
            forall|j: int| 0 <= j < k ==> slots[j].state != SlotState::Closed,
        ensures
            Self::alloc_chain_ids(slots, params).len() == params.len(),
            forall|a: int| 0 <= a < params.len() ==> Self::alloc_chain_ids(slots, params)[a] == Some(k + a),
            Self::alloc_chain_slots(slots, params).len() == MAX_PPTS as int,
            forall|j: int| k + params.len() <= j < MAX_PPTS as int
                ==> Self::alloc_chain_slots(slots, params)[j].state == SlotState::Closed,
            forall|j: int| 0 <= j < k + params.len()
                ==> Self::alloc_chain_slots(slots, params)[j].state != SlotState::Closed,
        decreases params.len(),
    {
        if params.len() > 0 {
            if k < MAX_PPTS as int {
                Self::lemma_first_closed_finds(slots, 0, k);
            }
            let s1 = Self::alloc_result(slots, params[0].0, params[0].1);
            Self::lemma_alloc_chain_sequential(s1, params.drop_first(), k + 1);
            assert forall|a: int| 0 <= a < params.len() implies
                Self::alloc_chain_ids(slots, params)[a] == Some(k + a)
            by {
                if a > 0 {
                    assert(Self::alloc_chain_ids(slots, params)[a]
                        == Self::alloc_chain_ids(s1, params.drop_first())[a - 1]);
                }
            }
        }
    }

    /// Law: on a table whose slots are all `Closed` beforehand, issuing
    /// `allocate` once per slot returns pairwise-distinct ids, every call
    /// succeeding; one further call, with any requested parent and rectangle,
    /// reports exhaustion and changes no slot.
    pub proof fn lemma_allocate_exhausts_distinct(slots: Seq<ViewSlot>, params: Seq<(u64, Rect)>)
        requires
            slots.len() == MAX_PPTS as int,
            forall|j: int| 0 <= j < MAX_PPTS as int ==> slots[j].state == SlotState::Closed,
            params.len() == MAX_PPTS as int,
        ensures
            forall|a: int| 0 <= a < MAX_PPTS as int ==> Self::alloc_chain_ids(slots, params)[a] == Some(a),
            forall|a: int, b: int|
                0 <= a < MAX_PPTS as int && 0 <= b < MAX_PPTS as int && a != b
                    ==> Self::alloc_chain_ids(slots, params)[a] != Self::alloc_chain_ids(slots, params)[b],
            Self::first_closed(Self::alloc_chain_slots(slots, params)) is None,
            forall|parent: u64, rect: Rect|
                Self::alloc_result(Self::alloc_chain_slots(slots, params), parent, rect)
                    == Self::alloc_chain_slots(slots, params),
    {
        Self::lemma_alloc_chain_sequential(slots, params, 0);
        Self::lemma_first_closed_misses(Self::alloc_chain_slots(slots, params), 0);
    }

    /// Scanning from `from`, no `Closed` slot is found when none remains.
    pub proof fn lemma_first_closed_misses(slots: Seq<ViewSlot>, from: int)
        requires
            0 <= from,
            forall|j: int| from <= j < slots.len() ==> slots[j].state != SlotState::Closed,
        ensures
            Self::first_closed_from(slots, from) is None,
        decreases slots.len() - from,
    {
        if from < slots.len() {
            Self::lemma_first_closed_misses(slots, from + 1);
        }
    }
}

} // verus!
