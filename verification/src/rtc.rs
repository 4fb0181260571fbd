//! Software model of one RTC peripheral and the handle that drives it.
//!
//! The hardware block is a 24-bit monotonic counter clocked at 32 768 Hz with
//! four compare slots.  Each slot holds a compare value (`CC`), a sticky
//! compare-match event flag (`EVENTS_COMPARE`), an event-routing enable
//! (`EVTEN`) and an interrupt enable (`INTEN`).  The counter increments while
//! started and wraps from `2^24 - 1` to zero; a slot's event flag is set when
//! the counter, after an increment, equals the slot's compare value and the
//! slot is armed through either enable.
//!
//! [`RtcHandle`] owns one such register model and exposes exactly the
//! operations the scheduler performs on the real block: start/stop, counter
//! clear and read, compare programming, event and interrupt arming, and
//! read-and-clear of the event flag.  [`RtcHandle::tick`] is the host-side
//! clock edge: it advances the model the way one low-frequency clock period
//! advances the hardware counter.  On the target every one of these
//! operations is a single volatile register access performed by the
//! unverified hardware layer.

use vstd::prelude::*;

verus! {

/// The counter wraps every `2^24` ticks (about 512 s at 32 768 Hz).
pub const COUNTER_PERIOD: u32 = 0x100_0000;

/// Number of compare slots in one RTC block.
pub const NUM_COMPARE_SLOTS: usize = 4;

/// Durations must stay strictly below half the counter period (`2^23`,
/// about 256 s) so that wrap-around cannot produce a false compare match.
pub const MAX_DURATION: u32 = 0x80_0000;

/// One compare slot of the register model.
#[derive(Clone, Copy, PartialEq, Eq, Structural, Debug)]
pub struct CompareSlot {
    /// The programmed 24-bit compare value (`CC`).
    pub cc: u32,
    /// The sticky compare-match event flag (`EVENTS_COMPARE`).
    pub event: bool,
    /// Whether the peripheral-level event is armed (`EVTEN`).
    pub evten: bool,
    /// Whether the interrupt for this slot is armed (`INTEN`).
    pub inten: bool,
}

/// The state of one whole RTC block: the mathematical model that contracts
/// and proofs speak of.
pub struct RtcModel {
    /// Whether the counter is running.
    pub started: bool,
    /// The 24-bit counter (`COUNTER`).
    pub counter: u32,
    /// The four compare slots.
    pub slots: Seq<CompareSlot>,
}

impl RtcModel {
    /// Counter and compare values fit in 24 bits and all four slots exist.
    pub open spec fn wf(self) -> bool {
        &&& self.counter < COUNTER_PERIOD
        &&& self.slots.len() == NUM_COMPARE_SLOTS
        &&& forall|s: int|
            0 <= s < NUM_COMPARE_SLOTS ==> (#[trigger] self.slots[s]).cc < COUNTER_PERIOD
    }

    /// The slot is armed: a compare match on it raises the event flag.
    pub open spec fn armed(self, slot: int) -> bool {
        self.slots[slot].evten || self.slots[slot].inten
    }
}

/// The counter value `k` ticks after `c`, for `k` at most one full period:
/// 24-bit wrap-around addition.
pub open spec fn wrap24(c: u32, k: int) -> u32 {
    if c + k < COUNTER_PERIOD {
        (c + k) as u32
    } else {
        (c + k - COUNTER_PERIOD) as u32
    }
}

/// One compare slot after a counter increment that landed on `new_counter`.
pub open spec fn slot_after_tick(s: CompareSlot, new_counter: u32) -> CompareSlot {
    CompareSlot {
        cc: s.cc,
        event: s.event || ((s.evten || s.inten) && new_counter == s.cc),
        evten: s.evten,
        inten: s.inten,
    }
}

/// The whole block after one clock edge: a stopped counter holds its state;
/// a started one increments with wrap-around and latches compare matches.
pub open spec fn rtc_after_tick(m: RtcModel) -> RtcModel {
    if !m.started {
        m
    } else {
        let nc = wrap24(m.counter, 1);
        RtcModel {
            started: m.started,
            counter: nc,
            slots: Seq::new(m.slots.len(), |s: int| slot_after_tick(m.slots[s], nc)),
        }
    }
}

/// The block after `k` clock edges.
pub open spec fn rtc_after_ticks(m: RtcModel, k: nat) -> RtcModel
    decreases k,
{
    if k == 0 {
        m
    } else {
        rtc_after_tick(rtc_after_ticks(m, (k - 1) as nat))
    }
}

/// A handle on one RTC block.  On the host it owns the software model of the
/// registers; on the target the same operations are volatile accesses to the
/// memory-mapped block.
pub struct RtcHandle {
    started: bool,
    counter: u32,
    slots: Vec<CompareSlot>,
}

impl View for RtcHandle {
    type V = RtcModel;

    closed spec fn view(&self) -> RtcModel {
        RtcModel { started: self.started, counter: self.counter, slots: self.slots@ }
    }
}

impl RtcHandle {
    /// The handle's register model is well formed.
    pub open spec fn wf(&self) -> bool {
        self@.wf()
    }

    /// Attaches to a block at boot.  The hardware counter retains whatever
    /// 24-bit value it held, so the caller states it; compare slots come up
    /// unprogrammed and disarmed, the counter stopped.
    pub fn new(counter: u32) -> (rtc: RtcHandle)
        requires
            counter < COUNTER_PERIOD,
        ensures
            rtc.wf(),
            !rtc@.started,
            rtc@.counter == counter,
            forall|s: int|
                0 <= s < NUM_COMPARE_SLOTS ==> #[trigger] rtc@.slots[s] == (CompareSlot {
                    cc: 0u32,
                    event: false,
                    evten: false,
                    inten: false,
                }),
    {
        let slot = CompareSlot { cc: 0, event: false, evten: false, inten: false };
        let mut slots: Vec<CompareSlot> = Vec::new();
        slots.push(slot);
        slots.push(slot);
        slots.push(slot);
        slots.push(slot);
        RtcHandle { started: false, counter, slots }
    }

    /// Enables the counter (`TASKS_START`); it increments from its current
    /// value.  Idempotent while started.
    pub fn start(&mut self)
        requires
            old(self).wf(),
        ensures
            final(self).wf(),
            final(self)@ == (RtcModel { started: true, ..old(self)@ }),
    {
        self.started = true;
    }

    /// Disables the counter (`TASKS_STOP`); it retains its value.  Idempotent
    /// while stopped.
    pub fn stop(&mut self)
        requires
            old(self).wf(),
        ensures
            final(self).wf(),
            final(self)@ == (RtcModel { started: false, ..old(self)@ }),
    {
        self.started = false;
    }

    /// Resets the counter to zero (`TASKS_CLEAR`).  Legal in both states.
    pub fn clear_counter(&mut self)
        requires
            old(self).wf(),
        ensures
            final(self).wf(),
            final(self)@ == (RtcModel { counter: 0u32, ..old(self)@ }),
    {
        self.counter = 0;
    }

    /// Reads the current counter value (`COUNTER`).  Always legal.
    pub fn now(&self) -> (c: u32)
        requires
            self.wf(),
        ensures
            c == self@.counter,
            c < COUNTER_PERIOD,
    {
        self.counter
    }

    /// Whether the counter is running.
    pub fn is_started(&self) -> (r: bool)
        ensures
            r == self@.started,
    {
        self.started
    }

    /// Programs one compare slot with a 24-bit target (`CC[slot]`),
    /// overwriting any prior value.
    pub fn set_compare(&mut self, slot: usize, value: u32)
        requires
            old(self).wf(),
            slot < NUM_COMPARE_SLOTS,
            value < COUNTER_PERIOD,
        ensures
            final(self).wf(),
            final(self)@ == (RtcModel {
                slots: old(self)@.slots.update(
                    slot as int,
                    CompareSlot { cc: value, ..old(self)@.slots[slot as int] },
                ),
                ..old(self)@
            }),
    {
        let mut s = self.slots[slot];
        s.cc = value;
        self.slots[slot] = s;
    }

    /// Arms the peripheral-level compare-match event on a slot (`EVTENSET`).
    pub fn arm_event(&mut self, slot: usize)
        requires
            old(self).wf(),
            slot < NUM_COMPARE_SLOTS,
        ensures
            final(self).wf(),
            final(self)@ == (RtcModel {
                slots: old(self)@.slots.update(
                    slot as int,
                    CompareSlot { evten: true, ..old(self)@.slots[slot as int] },
                ),
                ..old(self)@
            }),
    {
        let mut s = self.slots[slot];
        s.evten = true;
        self.slots[slot] = s;
    }

    /// Disarms the peripheral-level compare-match event on a slot
    /// (`EVTENCLR`).
    pub fn disarm_event(&mut self, slot: usize)
        requires
            old(self).wf(),
            slot < NUM_COMPARE_SLOTS,
        ensures
            final(self).wf(),
            final(self)@ == (RtcModel {
                slots: old(self)@.slots.update(
                    slot as int,
                    CompareSlot { evten: false, ..old(self)@.slots[slot as int] },
                ),
                ..old(self)@
            }),
    {
        let mut s = self.slots[slot];
        s.evten = false;
        self.slots[slot] = s;
    }

    /// Arms the NVIC-visible interrupt source for a slot (`INTENSET`).
    pub fn arm_interrupt(&mut self, slot: usize)
        requires
            old(self).wf(),
            slot < NUM_COMPARE_SLOTS,
        ensures
            final(self).wf(),
            final(self)@ == (RtcModel {
                slots: old(self)@.slots.update(
                    slot as int,
                    CompareSlot { inten: true, ..old(self)@.slots[slot as int] },
                ),
                ..old(self)@
            }),
    {
        let mut s = self.slots[slot];
        s.inten = true;
        self.slots[slot] = s;
    }

    /// Disarms the interrupt source for a slot (`INTENCLR`).
    pub fn disarm_interrupt(&mut self, slot: usize)
        requires
            old(self).wf(),
            slot < NUM_COMPARE_SLOTS,
        ensures
            final(self).wf(),
            final(self)@ == (RtcModel {
                slots: old(self)@.slots.update(
                    slot as int,
                    CompareSlot { inten: false, ..old(self)@.slots[slot as int] },
                ),
                ..old(self)@
            }),
    {
        let mut s = self.slots[slot];
        s.inten = false;
        self.slots[slot] = s;
    }

    /// Whether the interrupt source for a slot is armed.
    pub fn interrupt_armed(&self, slot: usize) -> (r: bool)
        requires
            self.wf(),
            slot < NUM_COMPARE_SLOTS,
        ensures
            r == self@.slots[slot as int].inten,
    {
        self.slots[slot].inten
    }

    /// Atomically reads and clears a slot's event flag (`EVENTS_COMPARE`);
    /// returns whether it had fired.
    pub fn take_event(&mut self, slot: usize) -> (fired: bool)
        requires
            old(self).wf(),
            slot < NUM_COMPARE_SLOTS,
        ensures
            final(self).wf(),
            fired == old(self)@.slots[slot as int].event,
            final(self)@ == (RtcModel {
                slots: old(self)@.slots.update(
                    slot as int,
                    CompareSlot { event: false, ..old(self)@.slots[slot as int] },
                ),
                ..old(self)@
            }),
    {
        let mut s = self.slots[slot];
        let fired = s.event;
        s.event = false;
        self.slots[slot] = s;
        fired
    }

    /// One low-frequency clock edge of the host-side model: what one 32 768 Hz
    /// period does to the hardware block.  A stopped counter holds its state;
    /// a started one increments with wrap-around and latches a compare match
    /// on every armed slot whose compare value the counter just reached.
    pub fn tick(&mut self)
        requires
            old(self).wf(),
        ensures
            final(self).wf(),
            final(self)@ == rtc_after_tick(old(self)@),
    {
        if self.started {
            let nc = if self.counter + 1 == COUNTER_PERIOD {
                0
            } else {
                self.counter + 1
            };
            self.counter = nc;
            let mut i: usize = 0;
            while i < NUM_COMPARE_SLOTS
                invariant
                    i <= NUM_COMPARE_SLOTS,
                    self@.started == old(self)@.started,
                    self@.counter == nc,
                    nc == wrap24(old(self)@.counter, 1),
                    old(self)@.wf(),
                    self@.slots.len() == NUM_COMPARE_SLOTS,
                    forall|s: int|
                        0 <= s < i ==> #[trigger] self@.slots[s] == slot_after_tick(
                            old(self)@.slots[s],
                            nc,
                        ),
                    forall|s: int| i <= s < NUM_COMPARE_SLOTS ==> #[trigger] self@.slots[s]
                        == old(self)@.slots[s],
                decreases NUM_COMPARE_SLOTS - i,
            {
                let mut s = self.slots[i];
                s.event = s.event || ((s.evten || s.inten) && nc == s.cc);
                self.slots[i] = s;
                i = i + 1;
            }
            proof {
                assert(self@.slots =~= rtc_after_tick(old(self)@).slots);
            }
        }
    }
}

/// Ticking a running block changes nothing but the counter and the event
/// flags: after `k` clock edges the counter has advanced by `k` with
/// wrap-around, and every slot keeps its compare value and its arming.
pub proof fn lemma_ticks_keep_structure(m: RtcModel, k: nat)
    requires
        m.wf(),
        m.started,
        k <= COUNTER_PERIOD,
    ensures
        rtc_after_ticks(m, k).wf(),
        rtc_after_ticks(m, k).started,
        rtc_after_ticks(m, k).counter == wrap24(m.counter, k as int),
        rtc_after_ticks(m, k).slots.len() == m.slots.len(),
        forall|s: int|
            0 <= s < m.slots.len() ==> (#[trigger] rtc_after_ticks(m, k).slots[s]).cc
                == m.slots[s].cc && rtc_after_ticks(m, k).slots[s].evten == m.slots[s].evten
                && rtc_after_ticks(m, k).slots[s].inten == m.slots[s].inten,
    decreases k,
{
    if k > 0 {
        lemma_ticks_keep_structure(m, (k - 1) as nat);
    }
}

/// Within one full period, only the `ticks`-th clock edge lands the counter
/// on the value programmed `ticks` ahead of it: wrap-around cannot produce a
/// second match.
pub proof fn lemma_wrap24_unique(c: u32, ticks: int, k: int)
    requires
        c < COUNTER_PERIOD,
        1 <= ticks < COUNTER_PERIOD,
        1 <= k <= COUNTER_PERIOD,
    ensures
        wrap24(c, k) == wrap24(c, ticks) <==> k == ticks,
{
}

/// Wrap-around safety: on a running block with a clear event flag, an armed
/// slot whose compare value sits `ticks` ahead of the current counter --
/// `ticks` below half the counter period -- first raises its event flag on
/// exactly the `ticks`-th clock edge, wherever the counter starts, and the
/// sticky flag then stays up.  In particular the event fires exactly once,
/// at the target, within a full counter period.
pub proof fn lemma_compare_fires_exactly_once(m: RtcModel, slot: int, ticks: int, k: nat)
    requires
        m.wf(),
        m.started,
        0 <= slot < NUM_COMPARE_SLOTS,
        m.armed(slot),
        !m.slots[slot].event,
        1 <= ticks < MAX_DURATION,
        m.slots[slot].cc == wrap24(m.counter, ticks),
        k <= COUNTER_PERIOD,
    ensures
        rtc_after_ticks(m, k).slots[slot].event <==> ticks <= k,
    decreases k,
{
    if k > 0 {
        lemma_compare_fires_exactly_once(m, slot, ticks, (k - 1) as nat);
        lemma_ticks_keep_structure(m, (k - 1) as nat);
        lemma_wrap24_unique(m.counter, ticks, k as int);
        let prev = rtc_after_ticks(m, (k - 1) as nat);
        assert(wrap24(prev.counter, 1) == wrap24(m.counter, k as int));
        assert(rtc_after_ticks(m, k).slots[slot] == slot_after_tick(
            prev.slots[slot],
            wrap24(prev.counter, 1),
        ));
    }
}

/// The block after the one-shot arming sequence for compare slot 0: events
/// cleared, counter cleared, compare programmed, event and interrupt armed,
/// counter started.
pub open spec fn armed_rtc(m: RtcModel, ticks: u32) -> RtcModel {
    RtcModel {
        started: true,
        counter: 0u32,
        slots: m.slots.update(
            0,
            CompareSlot { cc: ticks, event: false, evten: true, inten: true },
        ),
    }
}

/// The block after the cancellation sequence: every slot disarmed and its
/// event flag cleared, the counter stopped; compare values and the counter
/// itself are retained.
pub open spec fn quiesced_rtc(m: RtcModel) -> RtcModel {
    RtcModel {
        started: false,
        counter: m.counter,
        slots: Seq::new(
            m.slots.len(),
            |s: int|
                CompareSlot { cc: m.slots[s].cc, event: false, evten: false, inten: false },
        ),
    }
}

/// One compare slot after interrupt dispatch: a fired slot has its event
/// flag cleared and its interrupt disarmed; a silent slot is untouched.
pub open spec fn dispatched_slot(s: CompareSlot) -> CompareSlot {
    if s.event {
        CompareSlot { cc: s.cc, event: false, evten: s.evten, inten: false }
    } else {
        s
    }
}

/// The block after interrupt dispatch: every fired slot is cleared and
/// disarmed, and if no slot keeps an armed interrupt the counter is stopped
/// to save power.
pub open spec fn dispatched_rtc(m: RtcModel) -> RtcModel {
    RtcModel {
        started: m.started && (exists|s: int|
            0 <= s < m.slots.len() && (#[trigger] dispatched_slot(m.slots[s])).inten),
        counter: m.counter,
        slots: Seq::new(m.slots.len(), |s: int| dispatched_slot(m.slots[s])),
    }
}

/// The block after a completed blocking delay of `ticks`: counter stopped at
/// the target, compare slot 0 holding the target with its event taken and
/// its peripheral event disarmed, everything else untouched.
pub open spec fn delayed_rtc(m: RtcModel, ticks: u32) -> RtcModel {
    RtcModel {
        started: false,
        counter: ticks,
        slots: m.slots.update(
            0,
            CompareSlot { cc: ticks, event: false, evten: false, inten: m.slots[0].inten },
        ),
    }
}

impl RtcHandle {
    /// The one-shot arming sequence on compare slot 0, in the order that
    /// avoids a spurious interrupt from a stale event: clear the event,
    /// clear and program the counter, arm the event, arm the interrupt,
    /// start the counter.
    pub fn arm_one_shot(&mut self, ticks: u32)
        requires
            old(self).wf(),
            ticks < COUNTER_PERIOD,
        ensures
            final(self).wf(),
            final(self)@ == armed_rtc(old(self)@, ticks),
    {
        let _stale = self.take_event(0);
        self.clear_counter();
        self.set_compare(0, ticks);
        self.arm_event(0);
        self.arm_interrupt(0);
        self.start();
        proof {
            assert(self@.slots =~= armed_rtc(old(self)@, ticks).slots);
        }
    }

    /// The cancellation sequence, unarming in the reverse of the arming
    /// order on every slot: disarm the interrupt, disarm the event, clear
    /// the event flag; then stop the counter.
    pub fn quiesce(&mut self)
        requires
            old(self).wf(),
        ensures
            final(self).wf(),
            final(self)@ == quiesced_rtc(old(self)@),
    {
        let mut i: usize = 0;
        while i < NUM_COMPARE_SLOTS
            invariant
                i <= NUM_COMPARE_SLOTS,
                self@.started == old(self)@.started,
                self@.counter == old(self)@.counter,
                old(self)@.wf(),
                self@.slots.len() == NUM_COMPARE_SLOTS,
                forall|s: int|
                    0 <= s < i ==> #[trigger] self@.slots[s] == (CompareSlot {
                        cc: old(self)@.slots[s].cc,
                        event: false,
                        evten: false,
                        inten: false,
                    }),
                forall|s: int| i <= s < NUM_COMPARE_SLOTS ==> #[trigger] self@.slots[s] == old(
                    self,
                )@.slots[s],
            decreases NUM_COMPARE_SLOTS - i,
        {
            self.disarm_interrupt(i);
            self.disarm_event(i);
            let _stale = self.take_event(i);
            i = i + 1;
        }
        self.stop();
        proof {
            assert(self@.slots =~= quiesced_rtc(old(self)@).slots);
        }
    }

    /// The interrupt-dispatch sequence: for every slot whose event flag is
    /// set, clear the event and disarm that slot's interrupt; stop the
    /// counter if no slot keeps an armed interrupt.  Returns whether slot 0
    /// had fired.
    pub fn dispatch(&mut self) -> (fired0: bool)
        requires
            old(self).wf(),
        ensures
            final(self).wf(),
            fired0 == old(self)@.slots[0].event,
            final(self)@ == dispatched_rtc(old(self)@),
    {
        let fired0 = self.slots[0].event;
        let mut any_armed = false;
        let mut i: usize = 0;
        while i < NUM_COMPARE_SLOTS
            invariant
                i <= NUM_COMPARE_SLOTS,
                self@.started == old(self)@.started,
                self@.counter == old(self)@.counter,
                old(self)@.wf(),
                self@.slots.len() == NUM_COMPARE_SLOTS,
                forall|s: int|
                    0 <= s < i ==> #[trigger] self@.slots[s] == dispatched_slot(
                        old(self)@.slots[s],
                    ),
                forall|s: int| i <= s < NUM_COMPARE_SLOTS ==> #[trigger] self@.slots[s] == old(
                    self,
                )@.slots[s],
                any_armed == (exists|s: int|
                    0 <= s < i && (#[trigger] dispatched_slot(old(self)@.slots[s])).inten),
            decreases NUM_COMPARE_SLOTS - i,
        {
            let mut sl = self.slots[i];
            if sl.event {
                sl.event = false;
                sl.inten = false;
                self.slots[i] = sl;
            }
            proof {
                assert(sl == dispatched_slot(old(self)@.slots[i as int]));
            }
            if sl.inten {
                any_armed = true;
            }
            i = i + 1;
        }
        if !any_armed {
            self.stop();
        }
        proof {
            assert(self@.slots =~= dispatched_rtc(old(self)@).slots);
        }
        fired0
    }

    /// The blocking-delay sequence on compare slot 0: clear the stale event,
    /// clear the counter, program the compare, arm the event, start the
    /// counter, then poll-and-sleep until the event fires; finally disarm
    /// the event and stop the counter.  On the host each poll is one clock
    /// edge of the model, so exactly `ticks` edges elapse.
    pub fn run_delay(&mut self, ticks: u32) -> (elapsed: u32)
        requires
            old(self).wf(),
            1 <= ticks < MAX_DURATION,
            forall|s: int|
                1 <= s < NUM_COMPARE_SLOTS ==> !(#[trigger] old(self)@.slots[s]).evten && !old(
                    self,
                )@.slots[s].inten,
        ensures
            final(self).wf(),
            elapsed == ticks,
            final(self)@ == delayed_rtc(old(self)@, ticks),
    {
        let _stale = self.take_event(0);
        self.clear_counter();
        self.set_compare(0, ticks);
        self.arm_event(0);
        self.start();
        let ghost armed = self@;
        proof {
            assert(armed.slots =~= old(self)@.slots.update(
                0,
                CompareSlot {
                    cc: ticks,
                    event: false,
                    evten: true,
                    inten: old(self)@.slots[0].inten,
                },
            ));
        }
        let mut elapsed: u32 = 0;
        let mut fired = false;
        while !fired
            invariant
                armed.wf(),
                armed.started,
                armed.counter == 0,
                armed.slots[0] == (CompareSlot {
                    cc: ticks,
                    event: false,
                    evten: true,
                    inten: armed.slots[0].inten,
                }),
                forall|s: int|
                    1 <= s < NUM_COMPARE_SLOTS ==> !(#[trigger] armed.slots[s]).evten
                        && !armed.slots[s].inten,
                1 <= ticks < MAX_DURATION,
                !fired ==> elapsed < ticks && self@ == (RtcModel {
                    counter: elapsed,
                    ..armed
                }),
                fired ==> elapsed == ticks && self@ == (RtcModel { counter: ticks, ..armed }),
            decreases ticks - elapsed,
        {
            self.tick();
            elapsed = elapsed + 1;
            fired = self.take_event(0);
            proof {
                assert(self@.slots =~= armed.slots);
            }
        }
        self.disarm_event(0);
        self.stop();
        proof {
            assert(self@.slots =~= delayed_rtc(old(self)@, ticks).slots);
        }
        elapsed
    }
}

} // verus!
