//! The bit-exact byte layout of the shared record.
//!
//! The two processes exchange the slot table through raw shared memory, so
//! its layout is a strict cross-process contract: declared field order,
//! declared widths, little-endian, no padding. This module states that
//! layout explicitly as a (de)serialization pair and proves it round-trips,
//! instead of relying on incidental in-memory struct compatibility between
//! build configurations.
//!
//! Layout: the hook handle as 8 bytes, then each slot as 45 bytes — its
//! three window handles (8 bytes each), the owner thread id (4), the four
//! rectangle edges in top, left, bottom, right order (4 each, two's
//! complement), and one state byte.

use vstd::prelude::*;
use crate::table::{MAX_PPTS, Rect, SharedTable, SlotState, ViewSlot};

verus! {

/// Bytes one slot occupies in the shared record.
pub const SLOT_BYTES: usize = 45;

/// Bytes the whole shared record occupies.
pub const TABLE_BYTES: usize = 8 + MAX_PPTS * SLOT_BYTES;

/// The little-endian bytes of a 64-bit value.
pub open spec fn u64_le(x: u64) -> Seq<u8> {
    seq![
        ((x >> 0) & 0xff) as u8,
        ((x >> 8) & 0xff) as u8,
        ((x >> 16) & 0xff) as u8,
        ((x >> 24) & 0xff) as u8,
        ((x >> 32) & 0xff) as u8,
        ((x >> 40) & 0xff) as u8,
        ((x >> 48) & 0xff) as u8,
        ((x >> 56) & 0xff) as u8,
    ]
}

/// The 64-bit value eight little-endian bytes hold.
pub open spec fn u64_of_le(b: Seq<u8>) -> u64
    recommends
        b.len() == 8,
{
    (b[0] as u64)
    | (b[1] as u64) << 8
    | (b[2] as u64) << 16
    | (b[3] as u64) << 24
    | (b[4] as u64) << 32
    | (b[5] as u64) << 40
    | (b[6] as u64) << 48
    | (b[7] as u64) << 56
}

/// The little-endian bytes of a 32-bit value.
pub open spec fn u32_le(x: u32) -> Seq<u8> {
    seq![
        ((x >> 0) & 0xff) as u8,
        ((x >> 8) & 0xff) as u8,
        ((x >> 16) & 0xff) as u8,
        ((x >> 24) & 0xff) as u8,
    ]
}

/// The 32-bit value four little-endian bytes hold.
pub open spec fn u32_of_le(b: Seq<u8>) -> u32
    recommends
        b.len() == 4,
{
    (b[0] as u32) | (b[1] as u32) << 8 | (b[2] as u32) << 16 | (b[3] as u32) << 24
}

/// The unsigned 32-bit pattern of a signed value, two's complement.
pub open spec fn i32_bits_spec(x: i32) -> u32 {
    if x >= 0 {
        x as u32
    } else {
        (x + 0x1_0000_0000) as u32
    }
}

/// The signed value of an unsigned 32-bit pattern, two's complement.
pub open spec fn i32_of_bits(u: u32) -> i32 {
    if u < 0x8000_0000 {
        u as i32
    } else {
        (u - 0x1_0000_0000) as i32
    }
}

/// The little-endian bytes of a signed 32-bit value, two's complement.
pub open spec fn i32_le(x: i32) -> Seq<u8> {
    u32_le(i32_bits_spec(x))
}

/// The signed 32-bit value four little-endian bytes hold.
pub open spec fn i32_of_le(b: Seq<u8>) -> i32
    recommends
        b.len() == 4,
{
    i32_of_bits(u32_of_le(b))
}

/// Decoding the eight bytes of a 64-bit value gives it back.
pub proof fn lemma_u64_round_trip(x: u64)
    ensures
        u64_of_le(u64_le(x)) == x,
{
    assert(
        (((x >> 0) & 0xff) as u8 as u64)
        | ((((x >> 8) & 0xff) as u8 as u64) << 8)
        | ((((x >> 16) & 0xff) as u8 as u64) << 16)
        | ((((x >> 24) & 0xff) as u8 as u64) << 24)
        | ((((x >> 32) & 0xff) as u8 as u64) << 32)
        | ((((x >> 40) & 0xff) as u8 as u64) << 40)
        | ((((x >> 48) & 0xff) as u8 as u64) << 48)
        | ((((x >> 56) & 0xff) as u8 as u64) << 56)
        == x
    ) by (bit_vector);
}

/// Decoding the four bytes of a 32-bit value gives it back.
pub proof fn lemma_u32_round_trip(x: u32)
    ensures
        u32_of_le(u32_le(x)) == x,
{
    assert(
        (((x >> 0) & 0xff) as u8 as u32)
        | ((((x >> 8) & 0xff) as u8 as u32) << 8)
        | ((((x >> 16) & 0xff) as u8 as u32) << 16)
        | ((((x >> 24) & 0xff) as u8 as u32) << 24)
        == x
    ) by (bit_vector);
}

/// Decoding the four bytes of a signed 32-bit value gives it back.
pub proof fn lemma_i32_round_trip(x: i32)
    ensures
        i32_of_le(i32_le(x)) == x,
{
    lemma_u32_round_trip(i32_bits_spec(x));
}

/// The byte a slot state is stored as.
pub open spec fn state_byte(s: SlotState) -> u8 {
    match s {
        SlotState::Closed => 0,
        SlotState::Started => 1,
        SlotState::Opened => 2,
        SlotState::Loaded => 3,
        SlotState::Closing => 4,
    }
}

/// The slot state a byte stores, if it stores one at all.
pub open spec fn state_of_byte(b: u8) -> Option<SlotState> {
    if b == 0 {
        Some(SlotState::Closed)
    } else if b == 1 {
        Some(SlotState::Started)
    } else if b == 2 {
        Some(SlotState::Opened)
    } else if b == 3 {
        Some(SlotState::Loaded)
    } else if b == 4 {
        Some(SlotState::Closing)
    } else {
        None
    }
}

/// The declared layout of one slot: handles, owner thread, rectangle
/// edges, state byte, in this order.
pub open spec fn slot_bytes(s: ViewSlot) -> Seq<u8> {
    u64_le(s.primary_wnd)
        + u64_le(s.secondary_wnd)
        + u64_le(s.parent_wnd)
        + u32_le(s.owner_thread)
        + i32_le(s.rect.top)
        + i32_le(s.rect.left)
        + i32_le(s.rect.bottom)
        + i32_le(s.rect.right)
        + seq![state_byte(s.state)]
}

/// The slot 45 bytes hold, unless the state byte holds no state.
pub open spec fn slot_of_bytes(b: Seq<u8>) -> Option<ViewSlot>
    recommends
        b.len() == SLOT_BYTES as int,
{
    match state_of_byte(b[44]) {
        None => None,
        Some(st) => Some(ViewSlot {
            primary_wnd: u64_of_le(b.subrange(0, 8)),
            secondary_wnd: u64_of_le(b.subrange(8, 16)),
            parent_wnd: u64_of_le(b.subrange(16, 24)),
            owner_thread: u32_of_le(b.subrange(24, 28)),
            rect: Rect {
                top: i32_of_le(b.subrange(28, 32)),
                left: i32_of_le(b.subrange(32, 36)),
                bottom: i32_of_le(b.subrange(36, 40)),
                right: i32_of_le(b.subrange(40, 44)),
            },
            state: st,
        }),
    }
}

/// The slots of the table, laid out one after the other.
pub open spec fn slots_bytes(slots: Seq<ViewSlot>) -> Seq<u8>
    decreases slots.len(),
{
    if slots.len() == 0 {
        Seq::empty()
    } else {
        slot_bytes(slots[0]) + slots_bytes(slots.drop_first())
    }
}

/// The `n` slots a byte run holds, front first; `None` as soon as one
/// state byte holds no state.
pub open spec fn slots_of_bytes(b: Seq<u8>, n: nat) -> Option<Seq<ViewSlot>>
    decreases n,
{
    if n == 0 {
        Some(Seq::empty())
    } else {
        match slot_of_bytes(b.subrange(0, SLOT_BYTES as int)) {
            None => None,
            Some(s) => match slots_of_bytes(b.skip(SLOT_BYTES as int), (n - 1) as nat) {
                None => None,
                Some(rest) => Some(seq![s].add(rest)),
            },
        }
    }
}

/// The declared layout of the whole shared record: the hook handle, then
/// the slots.
pub open spec fn table_bytes(hook: u64, slots: Seq<ViewSlot>) -> Seq<u8> {
    u64_le(hook) + slots_bytes(slots)
}

/// The record a byte run holds: `None` when the run has the wrong length
/// or some state byte holds no state.
pub open spec fn table_of_bytes(b: Seq<u8>) -> Option<(u64, Seq<ViewSlot>)> {
    if b.len() != TABLE_BYTES as int {
        None
    } else {
        match slots_of_bytes(b.skip(8), MAX_PPTS as nat) {
            None => None,
            Some(slots) => Some((u64_of_le(b.subrange(0, 8)), slots)),
        }
    }
}

/// A slot's layout occupies exactly its declared width.
pub proof fn lemma_slot_bytes_len(s: ViewSlot)
    ensures
        slot_bytes(s).len() == SLOT_BYTES as int,
{
}

/// The slots' layout occupies exactly its declared width.
pub proof fn lemma_slots_bytes_len(slots: Seq<ViewSlot>)
    ensures
        slots_bytes(slots).len() == SLOT_BYTES as int * slots.len(),
    decreases slots.len(),
{
    if slots.len() > 0 {
        lemma_slots_bytes_len(slots.drop_first());
    }
}

/// Decoding the 45 bytes of a slot gives the slot back.
pub proof fn lemma_slot_round_trip(s: ViewSlot)
    ensures
        slot_of_bytes(slot_bytes(s)) == Some(s),
{
    let b = slot_bytes(s);
    assert(b[44] == state_byte(s.state));
    assert(b.subrange(0, 8) =~= u64_le(s.primary_wnd));
    assert(b.subrange(8, 16) =~= u64_le(s.secondary_wnd));
    assert(b.subrange(16, 24) =~= u64_le(s.parent_wnd));
    assert(b.subrange(24, 28) =~= u32_le(s.owner_thread));
    assert(b.subrange(28, 32) =~= i32_le(s.rect.top));
    assert(b.subrange(32, 36) =~= i32_le(s.rect.left));
    assert(b.subrange(36, 40) =~= i32_le(s.rect.bottom));
    assert(b.subrange(40, 44) =~= i32_le(s.rect.right));
    lemma_u64_round_trip(s.primary_wnd);
    lemma_u64_round_trip(s.secondary_wnd);
    lemma_u64_round_trip(s.parent_wnd);
    lemma_u32_round_trip(s.owner_thread);
    lemma_i32_round_trip(s.rect.top);
    lemma_i32_round_trip(s.rect.left);
    lemma_i32_round_trip(s.rect.bottom);
    lemma_i32_round_trip(s.rect.right);
}

/// Decoding the laid-out slots gives them back.
pub proof fn lemma_slots_round_trip(slots: Seq<ViewSlot>)
    ensures
        slots_of_bytes(slots_bytes(slots), slots.len()) == Some(slots),
    decreases slots.len(),
{
    if slots.len() > 0 {
        let b = slots_bytes(slots);
        lemma_slot_bytes_len(slots[0]);
        lemma_slots_bytes_len(slots.drop_first());
        assert(b.subrange(0, SLOT_BYTES as int) =~= slot_bytes(slots[0]));
        assert(b.skip(SLOT_BYTES as int) =~= slots_bytes(slots.drop_first()));
        lemma_slot_round_trip(slots[0]);
        lemma_slots_round_trip(slots.drop_first());
        assert(seq![slots[0]].add(slots.drop_first()) =~= slots);
    }
}

/// A sequence of laid-out slots grows at its back, slot by slot.
pub proof fn lemma_slots_bytes_push(slots: Seq<ViewSlot>, s: ViewSlot)
    ensures
        slots_bytes(slots.push(s)) == slots_bytes(slots) + slot_bytes(s),
    decreases slots.len(),
{
    if slots.len() == 0 {
        assert(slots.push(s)[0] == s);
        assert(slots.push(s).drop_first() =~= Seq::<ViewSlot>::empty());
        assert(slots_bytes(Seq::<ViewSlot>::empty()) == Seq::<u8>::empty());
        assert(slots_bytes(slots.push(s)) =~= slots_bytes(slots) + slot_bytes(s));
    } else {
        assert(slots.push(s).drop_first() =~= slots.drop_first().push(s));
        lemma_slots_bytes_push(slots.drop_first(), s);
        assert(slots_bytes(slots.push(s)) =~= slots_bytes(slots) + slot_bytes(s));
    }
}

/// The state byte of a slot state.
pub fn state_to_byte(s: SlotState) -> (b: u8)
    ensures
        b == state_byte(s),
{
    match s {
        SlotState::Closed => 0,
        SlotState::Started => 1,
        SlotState::Opened => 2,
        SlotState::Loaded => 3,
        SlotState::Closing => 4,
    }
}

/// The slot state a byte stores, if any.
pub fn state_from_byte(b: u8) -> (r: Option<SlotState>)
    ensures
        r == state_of_byte(b),
{
    if b == 0 {
        Some(SlotState::Closed)
    } else if b == 1 {
        Some(SlotState::Started)
    } else if b == 2 {
        Some(SlotState::Opened)
    } else if b == 3 {
        Some(SlotState::Loaded)
    } else if b == 4 {
        Some(SlotState::Closing)
    } else {
        None
    }
}

/// The unsigned 32-bit pattern of a signed value.
fn i32_bits(x: i32) -> (u: u32)
    ensures
        u == i32_bits_spec(x),
{
    if x >= 0 {
        x as u32
    } else {
        ((x as i64) + 0x1_0000_0000) as u32
    }
}

/// The signed value of an unsigned 32-bit pattern.
fn bits_i32(u: u32) -> (x: i32)
    ensures
        x == i32_of_bits(u),
{
    if u < 0x8000_0000 {
        u as i32
    } else {
        ((u as i64) - 0x1_0000_0000) as i32
    }
}

/// Append the eight little-endian bytes of a 64-bit value.
fn push_u64_le(v: &mut Vec<u8>, x: u64)
    ensures
        final(v)@ == old(v)@ + u64_le(x),
{
    v.push(((x >> 0) & 0xff) as u8);
    v.push(((x >> 8) & 0xff) as u8);
    v.push(((x >> 16) & 0xff) as u8);
    v.push(((x >> 24) & 0xff) as u8);
    v.push(((x >> 32) & 0xff) as u8);
    v.push(((x >> 40) & 0xff) as u8);
    v.push(((x >> 48) & 0xff) as u8);
    v.push(((x >> 56) & 0xff) as u8);
    proof {
        assert(v@ =~= old(v)@ + u64_le(x));
    }
}

/// Append the four little-endian bytes of a 32-bit value.
fn push_u32_le(v: &mut Vec<u8>, x: u32)
    ensures
        final(v)@ == old(v)@ + u32_le(x),
{
    v.push(((x >> 0) & 0xff) as u8);
    v.push(((x >> 8) & 0xff) as u8);
    v.push(((x >> 16) & 0xff) as u8);
    v.push(((x >> 24) & 0xff) as u8);
    proof {
        assert(v@ =~= old(v)@ + u32_le(x));
    }
}

/// Append the four little-endian bytes of a signed 32-bit value.
fn push_i32_le(v: &mut Vec<u8>, x: i32)
    ensures
        final(v)@ == old(v)@ + i32_le(x),
{
    let u = i32_bits(x);
    push_u32_le(v, u);
}

/// Append the 45 bytes of one slot.
fn push_slot(v: &mut Vec<u8>, s: &ViewSlot)
    ensures
        final(v)@ == old(v)@ + slot_bytes(*s),
{
    push_u64_le(v, s.primary_wnd);
    push_u64_le(v, s.secondary_wnd);
    push_u64_le(v, s.parent_wnd);
    push_u32_le(v, s.owner_thread);
    push_i32_le(v, s.rect.top);
    push_i32_le(v, s.rect.left);
    push_i32_le(v, s.rect.bottom);
    push_i32_le(v, s.rect.right);
    let b = state_to_byte(s.state);
    v.push(b);
    proof {
        assert(v@ =~= old(v)@ + slot_bytes(*s));
    }
}

/// Lay the shared record out as bytes, exactly as the declared layout says.
pub fn encode_table(t: &SharedTable) -> (r: Vec<u8>)
    requires
        t.wf(),
    ensures
        r@ == table_bytes(t.current_hook, t.slots@),
        r@.len() == TABLE_BYTES as int,
{
    let mut v: Vec<u8> = Vec::new();
    push_u64_le(&mut v, t.current_hook);
    proof {
        assert(v@ =~= u64_le(t.current_hook) + slots_bytes(t.slots@.take(0)));
    }
    let mut i: usize = 0;
    let n = t.slots.len();
    while i < n
        invariant
            n == t.slots@.len(),
            i <= n,
            v@ == u64_le(t.current_hook) + slots_bytes(t.slots@.take(i as int)),
        decreases n - i,
    {
        push_slot(&mut v, &t.slots[i]);
        proof {
            lemma_slots_bytes_push(t.slots@.take(i as int), t.slots@[i as int]);
            assert(t.slots@.take(i as int + 1) =~= t.slots@.take(i as int).push(t.slots@[i as int]));
            assert(v@ =~= u64_le(t.current_hook) + slots_bytes(t.slots@.take(i as int + 1)));
        }
        i = i + 1;
    }
    proof {
        assert(t.slots@.take(n as int) =~= t.slots@);
        lemma_slots_bytes_len(t.slots@);
    }
    v
}

/// Read the 64-bit value stored little-endian at `off`.
fn read_u64_le(b: &Vec<u8>, off: usize) -> (x: u64)
    requires
        off + 8 <= b@.len(),
    ensures
        x == u64_of_le(b@.subrange(off as int, off as int + 8)),
{
    let _len = b.len();
    let x = (b[off] as u64)
        | ((b[off + 1] as u64) << 8)
        | ((b[off + 2] as u64) << 16)
        | ((b[off + 3] as u64) << 24)
        | ((b[off + 4] as u64) << 32)
        | ((b[off + 5] as u64) << 40)
        | ((b[off + 6] as u64) << 48)
        | ((b[off + 7] as u64) << 56);
    proof {
        let s = b@.subrange(off as int, off as int + 8);
        assert(s[0] == b@[off as int]);
        assert(s[1] == b@[off as int + 1]);
        assert(s[2] == b@[off as int + 2]);
        assert(s[3] == b@[off as int + 3]);
        assert(s[4] == b@[off as int + 4]);
        assert(s[5] == b@[off as int + 5]);
        assert(s[6] == b@[off as int + 6]);
        assert(s[7] == b@[off as int + 7]);
    }
    x
}

/// Read the 32-bit value stored little-endian at `off`.
fn read_u32_le(b: &Vec<u8>, off: usize) -> (x: u32)
    requires
        off + 4 <= b@.len(),
    ensures
        x == u32_of_le(b@.subrange(off as int, off as int + 4)),
{
    let _len = b.len();
    let x = (b[off] as u32)
        | ((b[off + 1] as u32) << 8)
        | ((b[off + 2] as u32) << 16)
        | ((b[off + 3] as u32) << 24);
    proof {
        let s = b@.subrange(off as int, off as int + 4);
        assert(s[0] == b@[off as int]);
        assert(s[1] == b@[off as int + 1]);
        assert(s[2] == b@[off as int + 2]);
        assert(s[3] == b@[off as int + 3]);
    }
    x
}

/// Read the signed 32-bit value stored little-endian at `off`.
fn read_i32_le(b: &Vec<u8>, off: usize) -> (x: i32)
    requires
        off + 4 <= b@.len(),
    ensures
        x == i32_of_le(b@.subrange(off as int, off as int + 4)),
{
    let u = read_u32_le(b, off);
    bits_i32(u)
}

/// A parsed prefix placed before the outcome of parsing the rest.
pub open spec fn opt_prepend(pre: Seq<ViewSlot>, o: Option<Seq<ViewSlot>>) -> Option<Seq<ViewSlot>> {
    match o {
        None => None,
        Some(rest) => Some(pre + rest),
    }
}

/// Parse the 45 bytes of one slot stored at `off`.
fn read_slot(b: &Vec<u8>, off: usize) -> (r: Option<ViewSlot>)
    requires
        off + SLOT_BYTES <= b@.len(),
    ensures
        r == slot_of_bytes(b@.subrange(off as int, off as int + SLOT_BYTES as int)),
{
    let _len = b.len();
    let primary = read_u64_le(b, off);
    let secondary = read_u64_le(b, off + 8);
    let parent = read_u64_le(b, off + 16);
    let owner = read_u32_le(b, off + 24);
    let top = read_i32_le(b, off + 28);
    let left = read_i32_le(b, off + 32);
    let bottom = read_i32_le(b, off + 36);
    let right = read_i32_le(b, off + 40);
    let stb = b[off + 44];
    proof {
        let chunk = b@.subrange(off as int, off as int + SLOT_BYTES as int);
        assert(chunk[44] == stb);
        assert(chunk.subrange(0, 8) =~= b@.subrange(off as int, off as int + 8));
        assert(chunk.subrange(8, 16) =~= b@.subrange(off as int + 8, off as int + 16));
        assert(chunk.subrange(16, 24) =~= b@.subrange(off as int + 16, off as int + 24));
        assert(chunk.subrange(24, 28) =~= b@.subrange(off as int + 24, off as int + 28));
        assert(chunk.subrange(28, 32) =~= b@.subrange(off as int + 28, off as int + 32));
        assert(chunk.subrange(32, 36) =~= b@.subrange(off as int + 32, off as int + 36));
        assert(chunk.subrange(36, 40) =~= b@.subrange(off as int + 36, off as int + 40));
        assert(chunk.subrange(40, 44) =~= b@.subrange(off as int + 40, off as int + 44));
    }
    match state_from_byte(stb) {
        None => None,
        Some(st) => Some(ViewSlot {
            primary_wnd: primary,
            secondary_wnd: secondary,
            parent_wnd: parent,
            owner_thread: owner,
            rect: Rect { top, left, bottom, right },
            state: st,
        }),
    }
}

/// Parse the shared record back from its bytes, as the opening process
/// reads what the creating process wrote: `None` exactly on byte runs the
/// declared layout rejects — wrong length or an impossible state byte.
pub fn decode_table(b: &Vec<u8>) -> (r: Option<SharedTable>)
    ensures
        r is None <==> table_of_bytes(b@) is None,
        r matches Some(t) ==> t.wf() && table_of_bytes(b@) == Some((t.current_hook, t.slots@)),
{
    if b.len() != TABLE_BYTES {
        return None;
    }
    let hook = read_u64_le(b, 0);
    let mut slots: Vec<ViewSlot> = Vec::new();
    proof {
        let whole = slots_of_bytes(b@.skip(8), MAX_PPTS as nat);
        if whole is Some {
            assert(Seq::<ViewSlot>::empty() + whole->Some_0 =~= whole->Some_0);
        }
    }
    let mut i: usize = 0;
    while i < MAX_PPTS
        invariant
            b@.len() == TABLE_BYTES as int,
            i <= MAX_PPTS,
            slots@.len() == i as int,
            slots_of_bytes(b@.skip(8), MAX_PPTS as nat) == opt_prepend(
                slots@,
                slots_of_bytes(
                    b@.skip(8 + SLOT_BYTES as int * i as int),
                    (MAX_PPTS - i) as nat,
                ),
            ),
        decreases MAX_PPTS - i,
    {
        let off = 8 + SLOT_BYTES * i;
        let parsed = read_slot(b, off);
        proof {
            let tail = b@.skip(8 + SLOT_BYTES as int * i as int);
            assert(tail.subrange(0, SLOT_BYTES as int)
                =~= b@.subrange(off as int, off as int + SLOT_BYTES as int));
        }
        match parsed {
            None => {
                return None;
            },
            Some(slot) => {
                proof {
                    let tail = b@.skip(8 + SLOT_BYTES as int * i as int);
                    assert(tail.skip(SLOT_BYTES as int)
                        =~= b@.skip(8 + SLOT_BYTES as int * (i as int + 1)));
                    let rest_opt = slots_of_bytes(
                        b@.skip(8 + SLOT_BYTES as int * (i as int + 1)),
                        (MAX_PPTS - i - 1) as nat,
                    );
                    if rest_opt is Some {
                        assert((slots@ + (seq![slot] + rest_opt->Some_0))
                            =~= (slots@.push(slot) + rest_opt->Some_0));
                    }
                }
                slots.push(slot);
                i = i + 1;
            },
        }
    }
    proof {
        assert(slots_of_bytes(
            b@.skip(8 + SLOT_BYTES as int * MAX_PPTS as int),
            0,
        ) == Some(Seq::<ViewSlot>::empty()));
        assert(slots@ + Seq::<ViewSlot>::empty() =~= slots@);
    }
    Some(SharedTable { current_hook: hook, slots })
}

/// Law: the shared record survives the byte layout unchanged — decoding
/// what was encoded from one view yields exactly the record the other view
/// wrote, hook handle and every slot alike.
pub proof fn lemma_table_round_trip(hook: u64, slots: Seq<ViewSlot>)
    requires
        slots.len() == MAX_PPTS as int,
    ensures
        table_of_bytes(table_bytes(hook, slots)) == Some((hook, slots)),
{
    let b = table_bytes(hook, slots);
    lemma_slots_bytes_len(slots);
    assert(b.subrange(0, 8) =~= u64_le(hook));
    assert(b.skip(8) =~= slots_bytes(slots));
    lemma_u64_round_trip(hook);
    lemma_slots_round_trip(slots);
}

} // verus!
