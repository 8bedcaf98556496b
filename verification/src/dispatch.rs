//! Debouncing and routing of raw hotkey events.
//!
//! The platform reports one physical hotkey activation as a press event and
//! a release event carrying the same registration id. The dispatcher keeps a
//! per-binding counter and acts only when the counter turns odd, so the
//! first event of each pair dispatches and the second is discarded.

use vstd::prelude::*;

verus! {

/// The two logical actions a hotkey can trigger.
#[derive(Clone, Copy, Debug, PartialEq, Eq, Structural)]
pub enum HotkeyAction {
    /// Transform the clipboard with the current mode.
    Transform,
    /// Advance to the next configured mode, reloading the config first.
    CycleMode,
}

/// A registered global hotkey: the platform registration id and the logical
/// action it stands for. Created at startup, immutable thereafter.
#[derive(Clone, Copy, Debug, PartialEq, Eq, Structural)]
pub struct HotkeyBinding {
    pub action: HotkeyAction,
    pub id: u32,
}

/// Classify a raw event by registration id; the transform binding is
/// checked first, events of unknown id are ignored.
pub fn route(id: u32, transform: &HotkeyBinding, cycle: &HotkeyBinding) -> (r: Option<
    HotkeyAction,
>)
    ensures
        id == transform.id ==> r == Some(transform.action),
        id != transform.id && id == cycle.id ==> r == Some(cycle.action),
        id != transform.id && id != cycle.id ==> r is None,
{
    if id == transform.id {
        Some(transform.action)
    } else if id == cycle.id {
        Some(cycle.action)
    } else {
        None
    }
}

/// A counter one step further, wrapping at the top; wrapping keeps the
/// parity flipping, which is all the debounce relies on.
pub open spec fn bumped(c: u64) -> u64 {
    if c == 0xffff_ffff_ffff_ffffu64 {
        0u64
    } else {
        (c + 1) as u64
    }
}

/// The per-binding trigger counters. Each raw event bumps the counter of
/// its binding; the event dispatches exactly when the counter turns odd.
pub struct Dispatcher {
    pub transform_count: u64,
    pub cycle_count: u64,
}

/// How many events of `n` raw ones dispatch when the counter of their
/// binding starts at `c`: every other one, beginning with the first when
/// `c` is even.
pub open spec fn dispatches_from(c: int, n: int) -> int {
    if c % 2 == 0 {
        (n + 1) / 2
    } else {
        n / 2
    }
}

/// How many of the events are for the given action.
pub open spec fn occurrences(evs: Seq<HotkeyAction>, a: HotkeyAction) -> int
    decreases evs.len(),
{
    if evs.len() == 0 {
        0
    } else {
        occurrences(evs.drop_last(), a) + if evs.last() == a {
            1int
        } else {
            0int
        }
    }
}

impl Dispatcher {
    /// A fresh dispatcher: no event seen yet for either binding.
    pub fn new() -> (d: Dispatcher)
        ensures
            d.transform_count == 0,
            d.cycle_count == 0,
    {
        Dispatcher { transform_count: 0, cycle_count: 0 }
    }

    /// Record one raw event for `action`'s binding; true exactly when the
    /// event is the first of a press/release pair and must be dispatched.
    /// The other binding's counter is untouched.
    pub fn note_event(&mut self, action: HotkeyAction) -> (dispatch: bool)
        ensures
            action == HotkeyAction::Transform ==> final(self).transform_count == bumped(
                old(self).transform_count,
            ) && final(self).cycle_count == old(self).cycle_count,
            action == HotkeyAction::CycleMode ==> final(self).cycle_count == bumped(
                old(self).cycle_count,
            ) && final(self).transform_count == old(self).transform_count,
            dispatch == (match action {
                HotkeyAction::Transform => final(self).transform_count % 2 == 1,
                HotkeyAction::CycleMode => final(self).cycle_count % 2 == 1,
            }),
    {
        match action {
            HotkeyAction::Transform => {
                self.transform_count = if self.transform_count == 0xffff_ffff_ffff_ffffu64 {
                    0
                } else {
                    self.transform_count + 1
                };
                self.transform_count % 2 == 1
            },
            HotkeyAction::CycleMode => {
                self.cycle_count = if self.cycle_count == 0xffff_ffff_ffff_ffffu64 {
                    0
                } else {
                    self.cycle_count + 1
                };
                self.cycle_count % 2 == 1
            },
        }
    }

    /// Feed a burst of raw events through the debounce, in order, and count
    /// the dispatches per action.
    ///
    /// For each binding, exactly every other raw event dispatches: of `n`
    /// raw events from an even counter — in particular from a fresh
    /// dispatcher — exactly `(n + 1) / 2` dispatch, whatever the
    /// interleaving with the other binding's events. A press/release pair
    /// dispatches once; two pairs dispatch twice.
    pub fn consume(&mut self, events: &Vec<HotkeyAction>) -> (r: (usize, usize))
        requires
            old(self).transform_count + events@.len() < 0xffff_ffff_ffff_ffffu64,
            old(self).cycle_count + events@.len() < 0xffff_ffff_ffff_ffffu64,
        ensures
            final(self).transform_count == old(self).transform_count + occurrences(
                events@,
                HotkeyAction::Transform,
            ),
            final(self).cycle_count == old(self).cycle_count + occurrences(
                events@,
                HotkeyAction::CycleMode,
            ),
            r.0 == dispatches_from(
                old(self).transform_count as int,
                occurrences(events@, HotkeyAction::Transform),
            ),
            r.1 == dispatches_from(
                old(self).cycle_count as int,
                occurrences(events@, HotkeyAction::CycleMode),
            ),
    {
        let t0: u64 = self.transform_count;
        let c0: u64 = self.cycle_count;
        let mut transforms: usize = 0;
        let mut cycles: usize = 0;
        let mut i: usize = 0;
        while i < events.len()
            invariant
                i <= events@.len(),
                t0 + events@.len() < 0xffff_ffff_ffff_ffffu64,
                c0 + events@.len() < 0xffff_ffff_ffff_ffffu64,
                occurrences(events@.take(i as int), HotkeyAction::Transform) + occurrences(
                    events@.take(i as int),
                    HotkeyAction::CycleMode,
                ) == i,
                0 <= occurrences(events@.take(i as int), HotkeyAction::Transform),
                0 <= occurrences(events@.take(i as int), HotkeyAction::CycleMode),
                self.transform_count == t0 + occurrences(
                    events@.take(i as int),
                    HotkeyAction::Transform,
                ),
                self.cycle_count == c0 + occurrences(events@.take(i as int), HotkeyAction::CycleMode),
                transforms == dispatches_from(
                    t0 as int,
                    occurrences(events@.take(i as int), HotkeyAction::Transform),
                ),
                cycles == dispatches_from(
                    c0 as int,
                    occurrences(events@.take(i as int), HotkeyAction::CycleMode),
                ),
            decreases events@.len() - i,
        {
            let ev = events[i];
            proof {
                assert(events@.take(i as int + 1).drop_last() =~= events@.take(i as int));
                assert(events@.take(i as int + 1).last() == events@[i as int]);
            }
            let dispatch = self.note_event(ev);
            if dispatch {
                match ev {
                    HotkeyAction::Transform => { transforms = transforms + 1; },
                    HotkeyAction::CycleMode => { cycles = cycles + 1; },
                }
            }
            i = i + 1;
        }
        proof {
            assert(events@.take(events@.len() as int) =~= events@);
        }
        (transforms, cycles)
    }
}

} // verus!
