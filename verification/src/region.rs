//! Lifecycle of a named shared-memory region.
//!
//! A region is acquired in two steps — obtain the OS mapping handle, then
//! map the view into the address space — and given back in two: unmap the
//! view, then close the handle, in that order and each exactly once. The
//! model here tracks both resources and counts every give-back, so the
//! contracts pin down the whole discipline: no exit path leaks, nothing is
//! released twice, the view is never unmapped without the handle being
//! closed, and the handle is never closed while the view is still mapped.
//! The unverified mapping layer performs the OS calls in exactly this
//! order.

use vstd::prelude::*;

verus! {

/// The resources one region holds, and how often each was given back.
#[derive(Clone, Copy, PartialEq, Eq, Structural, Debug)]
pub struct RegionLifecycle {
    /// The OS mapping handle is currently held.
    pub handle_open: bool,
    /// The view is currently mapped into the address space.
    pub mapped: bool,
    /// How many times the view has been unmapped.
    pub unmaps: u32,
    /// How many times the handle has been closed.
    pub closes: u32,
}

impl RegionLifecycle {
    /// The discipline every region obeys: a mapped view implies a held
    /// handle, and neither resource is ever given back twice.
    pub open spec fn wf(self) -> bool {
        &&& self.mapped ==> self.handle_open
        &&& self.mapped ==> self.unmaps == 0
        &&& self.handle_open ==> self.closes == 0
        &&& self.unmaps <= 1
        &&& self.closes <= 1
    }

    /// The region is usable: handle held and view mapped.
    pub open spec fn live(self) -> bool {
        self.handle_open && self.mapped
    }

    /// Nothing is held any more.
    pub open spec fn retired(self) -> bool {
        !self.handle_open && !self.mapped
    }

    /// A freshly acquired region: both resources held, nothing given back.
    pub open spec fn fresh_spec() -> RegionLifecycle {
        RegionLifecycle { handle_open: true, mapped: true, unmaps: 0, closes: 0 }
    }

    /// A region after its one release: both resources given back once.
    pub open spec fn released_spec() -> RegionLifecycle {
        RegionLifecycle { handle_open: false, mapped: false, unmaps: 1, closes: 1 }
    }

    /// Unmap the view. The handle stays held: a view is never given up
    /// without the handle being closed afterwards.
    pub fn unmap(&mut self)
        requires
            old(self).wf(),
            old(self).mapped,
        ensures
            final(self).wf(),
            *final(self) == (RegionLifecycle {
                mapped: false,
                unmaps: 1,
                ..*old(self)
            }),
    {
        self.mapped = false;
        self.unmaps = self.unmaps + 1;
    }

    /// Close the handle. Refused while the view is still mapped: the close
    /// always comes second.
    pub fn close(&mut self)
        requires
            old(self).wf(),
            old(self).handle_open,
            !old(self).mapped,
        ensures
            final(self).wf(),
            *final(self) == (RegionLifecycle {
                handle_open: false,
                closes: (old(self).closes + 1) as u32,
                ..*old(self)
            }),
    {
        self.handle_open = false;
        self.closes = self.closes + 1;
    }

    /// Release a live region: unmap the view, then close the handle, each
    /// exactly once. A region that is no longer live cannot be released
    /// again — there is no double release.
    pub fn release(&mut self)
        requires
            old(self).wf(),
            old(self).live(),
        ensures
            final(self).retired(),
            *final(self) == Self::released_spec(),
    {
        self.unmap();
        self.close();
    }
}

/// What acquisition leaves behind, step by step: `Ok` carries the live
/// region; `Err` carries the record of the failure path, on which whatever
/// had been obtained was already given back.
pub open spec fn acquire_spec(handle_ok: bool, map_ok: bool) -> Result<RegionLifecycle, RegionLifecycle> {
    if !handle_ok {
        // The handle was never obtained: nothing to give back.
        Err(RegionLifecycle { handle_open: false, mapped: false, unmaps: 0, closes: 0 })
    } else if !map_ok {
        // The handle was obtained but the view could not be mapped: the
        // handle is closed, once, before the failure is reported.
        Err(RegionLifecycle { handle_open: false, mapped: false, unmaps: 0, closes: 1 })
    } else {
        Ok(RegionLifecycle::fresh_spec())
    }
}

/// Acquire a region, as creating or opening one does it: obtain the OS
/// mapping handle (`handle_ok` tells whether the OS granted it), then map
/// the view (`map_ok` likewise). On the early-failure path where mapping
/// fails after the handle was obtained, the handle is closed before the
/// failure is reported: no exit path leaks.
pub fn acquire(handle_ok: bool, map_ok: bool) -> (r: Result<RegionLifecycle, RegionLifecycle>)
    ensures
        r == acquire_spec(handle_ok, map_ok),
        r matches Ok(rgn) ==> rgn.wf() && rgn.live(),
        r matches Err(left) ==> left.wf() && left.retired(),
{
    if !handle_ok {
        return Err(RegionLifecycle { handle_open: false, mapped: false, unmaps: 0, closes: 0 });
    }
    let mut rgn = RegionLifecycle { handle_open: true, mapped: false, unmaps: 0, closes: 0 };
    if !map_ok {
        rgn.close();
        return Err(rgn);
    }
    rgn.mapped = true;
    Ok(rgn)
}

/// Law: on every path, each resource is given back exactly as often as it
/// was taken. A failed acquisition leaves nothing held — zero closes when
/// the handle was never granted, exactly one when mapping failed after it
/// was — and a successful acquisition followed by its one release leaves
/// the region retired with exactly one unmap and one close.
pub proof fn lemma_region_balanced(handle_ok: bool, map_ok: bool)
    ensures
        !handle_ok ==> acquire_spec(handle_ok, map_ok)
            == Err::<RegionLifecycle, RegionLifecycle>(
                RegionLifecycle { handle_open: false, mapped: false, unmaps: 0, closes: 0 }),
        handle_ok && !map_ok ==> acquire_spec(handle_ok, map_ok)
            == Err::<RegionLifecycle, RegionLifecycle>(
                RegionLifecycle { handle_open: false, mapped: false, unmaps: 0, closes: 1 }),
        handle_ok && map_ok ==> {
            &&& acquire_spec(handle_ok, map_ok)
                == Ok::<RegionLifecycle, RegionLifecycle>(RegionLifecycle::fresh_spec())
            &&& RegionLifecycle::released_spec().retired()
            &&& RegionLifecycle::released_spec().unmaps == 1
            &&& RegionLifecycle::released_spec().closes == 1
        },
{
}

} // verus!
