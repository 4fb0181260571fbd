//! The multi-channel monotonic scheduler layered over N hardware counters.
//!
//! A [`ClockManager`] owns the low-frequency oscillator source and exactly N
//! [`RtcHandle`]s.  It is constructed stopped; [`ClockManager::start`]
//! consumes it, starts the oscillator, and returns a
//! [`StartedClockManager`], the only type that schedules -- so nothing can
//! be scheduled against a stopped oscillator.  While started, each channel
//! independently is idle or scheduled.
//!
//! Scheduling uses compare slot 0 of each channel's counter; the other
//! three slots stay untouched (kept pristine by the manager's invariant).
//! Callbacks run in interrupt context on the target: the per-channel entry
//! points [`StartedClockManager::on_rtc0`] and its siblings are routed from
//! the corresponding interrupt vectors, and each returns the callback whose
//! ownership the dispatch took out of the channel's slot, for the vector
//! shim to invoke.  On the host, [`StartedClockManager::tick`] advances one
//! channel's counter model by one 32 768 Hz period.

use vstd::prelude::*;

use crate::rtc::COUNTER_PERIOD;
use crate::rtc::CompareSlot;
use crate::rtc::MAX_DURATION;
use crate::rtc::NUM_COMPARE_SLOTS;
use crate::rtc::RtcHandle;
use crate::rtc::RtcModel;
use crate::rtc::armed_rtc;
use crate::rtc::delayed_rtc;
use crate::rtc::dispatched_rtc;
use crate::rtc::dispatched_slot;
use crate::rtc::quiesced_rtc;
use crate::rtc::rtc_after_tick;
use crate::rtc::rtc_after_ticks;

verus! {

/// Ticks per millisecond, rounded down from 32.768: about 23 parts per
/// million slow.  Callers needing exact wall time must scale themselves.
pub const MILLISECOND: u32 = 32;

/// Ticks per second.
pub const SECOND: u32 = 32768;

/// A scheduling request the manager refuses.
#[derive(Clone, Copy, PartialEq, Eq, Structural, Debug)]
pub enum TimerError {
    /// The requested duration is zero or at least `2^23` ticks, which
    /// wrap-around could turn into a false compare match.
    DurationOutOfRange,
    /// The channel is already scheduled from another context.
    ChannelBusy,
}

/// One scheduler channel: one hardware counter and the callback slot of the
/// one-shot timer armed on it, if any.
pub struct Channel<F> {
    /// The counter backing this channel.
    pub rtc: RtcHandle,
    /// The stored one-shot callback, owned until dispatch hands it out.
    pub callback: Option<F>,
}

/// The mathematical state of one channel: the counter's register model and
/// the callback slot.
pub struct ChannelModel<F> {
    /// The register model of the channel's counter.
    pub rtc: RtcModel,
    /// The stored one-shot callback.
    pub callback: Option<F>,
}

/// The models of a sequence of channels.
pub open spec fn channels_model<F>(cs: Seq<Channel<F>>) -> Seq<ChannelModel<F>> {
    Seq::new(cs.len(), |i: int| ChannelModel { rtc: cs[i].rtc@, callback: cs[i].callback })
}

/// The channel has nothing scheduled: no stored callback and a stopped
/// counter.
pub open spec fn channel_idle<F>(c: ChannelModel<F>) -> bool {
    c.callback is None && !c.rtc.started
}

/// The channel is fully silent: idle, with every event flag down and every
/// slot disarmed, so no dispatch on it can ever produce a callback.
pub open spec fn channel_quiescent<F>(c: ChannelModel<F>) -> bool {
    &&& c.callback is None
    &&& !c.rtc.started
    &&& forall|s: int|
        0 <= s < c.rtc.slots.len() ==> !(#[trigger] c.rtc.slots[s]).event
            && !c.rtc.slots[s].evten && !c.rtc.slots[s].inten
}

/// Compare slots 1 to 3 of the channel's counter are as they came up at
/// boot; the scheduler only ever programs slot 0.
pub open spec fn aux_slots_pristine(m: RtcModel) -> bool {
    forall|s: int|
        1 <= s < NUM_COMPARE_SLOTS ==> #[trigger] m.slots[s] == (CompareSlot {
            cc: 0u32,
            event: false,
            evten: false,
            inten: false,
        })
}

/// What one interrupt dispatch on channel `ch` does: the channel's counter
/// model becomes [`dispatched_rtc`] of the old one; if slot 0 had fired the
/// stored callback is handed out, otherwise it stays; no other channel is
/// touched.
pub open spec fn dispatch_post<F>(
    pre: Seq<ChannelModel<F>>,
    post: Seq<ChannelModel<F>>,
    ch: int,
    cb: Option<F>,
) -> bool {
    &&& post.len() == pre.len()
    &&& forall|j: int| 0 <= j < pre.len() && j != ch ==> post[j] == pre[j]
    &&& post[ch].rtc == dispatched_rtc(pre[ch].rtc)
    &&& cb == (if pre[ch].rtc.slots[0].event {
        pre[ch].callback
    } else {
        None::<F>
    })
    &&& post[ch].callback == (if pre[ch].rtc.slots[0].event {
        None::<F>
    } else {
        pre[ch].callback
    })
}

/// The scheduler over N counters, before the low-frequency oscillator has
/// been started.  No scheduling is possible in this state.
pub struct ClockManager<F, const N: usize> {
    channels: Vec<Channel<F>>,
}

/// The scheduler over N counters with the oscillator running: the only
/// state that schedules.  Obtained exactly once, from
/// [`ClockManager::start`].
pub struct StartedClockManager<F, const N: usize> {
    channels: Vec<Channel<F>>,
}

impl<F, const N: usize> View for ClockManager<F, N> {
    type V = Seq<ChannelModel<F>>;

    closed spec fn view(&self) -> Seq<ChannelModel<F>> {
        channels_model(self.channels@)
    }
}

impl<F, const N: usize> View for StartedClockManager<F, N> {
    type V = Seq<ChannelModel<F>>;

    closed spec fn view(&self) -> Seq<ChannelModel<F>> {
        channels_model(self.channels@)
    }
}

impl<F, const N: usize> ClockManager<F, N> {
    /// The manager's invariant: one model per channel, each well formed with
    /// its auxiliary compare slots untouched.
    pub open spec fn wf(&self) -> bool {
        &&& self@.len() == N
        &&& forall|i: int|
            0 <= i < N ==> (#[trigger] self@[i]).rtc.wf() && aux_slots_pristine(self@[i].rtc)
    }

    /// Builds a stopped manager over N counters.  Does not start the
    /// oscillator.  The hardware counters retain whatever 24-bit values they
    /// held at boot, so the caller states them; every channel comes up
    /// quiescent.
    pub fn new(counters: Vec<u32>) -> (m: ClockManager<F, N>)
        requires
            counters@.len() == N,
            forall|i: int| 0 <= i < N ==> #[trigger] counters@[i] < COUNTER_PERIOD,
        ensures
            m.wf(),
            forall|i: int|
                0 <= i < N ==> channel_quiescent(#[trigger] m@[i]) && m@[i].rtc.counter
                    == counters@[i],
    {
        let mut channels: Vec<Channel<F>> = Vec::new();
        let mut i: usize = 0;
        while i < N
            invariant
                i <= N,
                counters@.len() == N,
                forall|k: int| 0 <= k < N ==> #[trigger] counters@[k] < COUNTER_PERIOD,
                channels@.len() == i,
                forall|k: int|
                    0 <= k < i ==> channel_quiescent(
                        #[trigger] channels_model(channels@)[k],
                    ) && channels_model(channels@)[k].rtc.wf() && aux_slots_pristine(
                        channels_model(channels@)[k].rtc,
                    ) && channels_model(channels@)[k].rtc.counter == counters@[k],
            decreases N - i,
        {
            let rtc = RtcHandle::new(counters[i]);
            let ghost pre = channels@;
            channels.push(Channel { rtc, callback: None });
            proof {
                assert forall|k: int| 0 <= k < i + 1 implies channel_quiescent(
                    #[trigger] channels_model(channels@)[k],
                ) && channels_model(channels@)[k].rtc.wf() && aux_slots_pristine(
                    channels_model(channels@)[k].rtc,
                ) && channels_model(channels@)[k].rtc.counter == counters@[k] by {
                    if k < i {
                        assert(channels@[k] == pre[k]);
                        assert(channels_model(channels@)[k] == channels_model(pre)[k]);
                    } else {
                        assert(channels@[k].rtc == rtc);
                    }
                }
            }
            i = i + 1;
        }
        ClockManager { channels }
    }

    /// Starts the low-frequency oscillator, consuming the stopped manager
    /// and returning the started one; the channels carry over unchanged.  On
    /// the target this busy-waits until the oscillator reports running; the
    /// host model's oscillator is running as soon as it is asked.
    pub fn start(self) -> (m: StartedClockManager<F, N>)
        ensures
            m@ == self@,
    {
        StartedClockManager { channels: self.channels }
    }
}

impl<F, const N: usize> StartedClockManager<F, N> {
    /// The manager's invariant: one model per channel, each well formed with
    /// its auxiliary compare slots untouched.
    pub open spec fn wf(&self) -> bool {
        &&& self@.len() == N
        &&& forall|i: int|
            0 <= i < N ==> (#[trigger] self@[i]).rtc.wf() && aux_slots_pristine(self@[i].rtc)
    }

    /// Arms a one-shot timer on `channel`: when `ticks` clock periods have
    /// elapsed the channel's interrupt fires and its dispatch hands
    /// `callback` out to be invoked, exactly once.  Returns immediately.
    /// Durations of at least `2^23` ticks are refused as out of range, and a
    /// channel that is already scheduled as busy; either way nothing is
    /// written to the channel.  A zero duration cannot be scheduled on
    /// match-after-increment hardware, so at least one tick is required.
    pub fn after(&mut self, channel: usize, ticks: u32, callback: F) -> (r: Result<
        (),
        TimerError,
    >)
        requires
            old(self).wf(),
            channel < N,
            1 <= ticks,
        ensures
            final(self).wf(),
            final(self)@.len() == N,
            forall|j: int| 0 <= j < N && j != channel ==> final(self)@[j] == old(self)@[j],
            ticks >= MAX_DURATION ==> r == Err::<(), TimerError>(TimerError::DurationOutOfRange)
                && final(self)@ == old(self)@,
            ticks < MAX_DURATION && !channel_idle(old(self)@[channel as int]) ==> r == Err::<
                (),
                TimerError,
            >(TimerError::ChannelBusy) && final(self)@ == old(self)@,
            ticks < MAX_DURATION && channel_idle(old(self)@[channel as int]) ==> r == Ok::<
                (),
                TimerError,
            >(()) && final(self)@[channel as int] == (ChannelModel {
                rtc: armed_rtc(old(self)@[channel as int].rtc, ticks),
                callback: Some(callback),
            }),
    {
        if ticks >= MAX_DURATION {
            return Err(TimerError::DurationOutOfRange);
        }
        let busy = self.channels[channel].callback.is_some()
            || self.channels[channel].rtc.is_started();
        if busy {
            return Err(TimerError::ChannelBusy);
        }
        let ch = &mut self.channels[channel];
        ch.rtc.arm_one_shot(ticks);
        ch.callback = Some(callback);
        proof {
            let c = channel as int;
            assert(self@[c].rtc == armed_rtc(old(self)@[c].rtc, ticks));
            assert forall|i: int|
                0 <= i < N implies (#[trigger] self@[i]).rtc.wf() && aux_slots_pristine(
                self@[i].rtc,
            ) by {
                if i != c {
                    assert(self@[i] == old(self)@[i]);
                }
            }
        }
        Ok(())
    }

    /// Disarms and stops `channel`: its interrupt sources are disarmed, its
    /// event flags cleared, its counter stopped, and a pending callback is
    /// dropped, so it will never be invoked.  The channel is left fully
    /// quiescent.
    pub fn cancel(&mut self, channel: usize)
        requires
            old(self).wf(),
            channel < N,
        ensures
            final(self).wf(),
            final(self)@.len() == N,
            forall|j: int| 0 <= j < N && j != channel ==> final(self)@[j] == old(self)@[j],
            final(self)@[channel as int].rtc == quiesced_rtc(old(self)@[channel as int].rtc),
            final(self)@[channel as int].callback is None,
            channel_quiescent(final(self)@[channel as int]),
    {
        let ch = &mut self.channels[channel];
        ch.rtc.quiesce();
        ch.callback = None;
        proof {
            let c = channel as int;
            assert(self@[c].rtc == quiesced_rtc(old(self)@[c].rtc));
            assert forall|i: int|
                0 <= i < N implies (#[trigger] self@[i]).rtc.wf() && aux_slots_pristine(
                self@[i].rtc,
            ) by {
                if i != c {
                    assert(self@[i] == old(self)@[i]);
                } else {
                    assert forall|s: int|
                        1 <= s < NUM_COMPARE_SLOTS implies #[trigger] self@[c].rtc.slots[s]
                        == (CompareSlot {
                        cc: 0u32,
                        event: false,
                        evten: false,
                        inten: false,
                    }) by {
                        assert(old(self)@[c].rtc.slots[s] == (CompareSlot {
                            cc: 0u32,
                            event: false,
                            evten: false,
                            inten: false,
                        }));
                    }
                }
            }
        }
    }

    /// One clock edge of the host-side model on `channel`'s counter: what
    /// one 32 768 Hz period does to that channel's hardware block.
    pub fn tick(&mut self, channel: usize)
        requires
            old(self).wf(),
            channel < N,
        ensures
            final(self).wf(),
            final(self)@.len() == N,
            forall|j: int| 0 <= j < N && j != channel ==> final(self)@[j] == old(self)@[j],
            final(self)@[channel as int].rtc == rtc_after_tick(old(self)@[channel as int].rtc),
            final(self)@[channel as int].callback == old(self)@[channel as int].callback,
    {
        let ch = &mut self.channels[channel];
        ch.rtc.tick();
        proof {
            let c = channel as int;
            assert forall|i: int|
                0 <= i < N implies (#[trigger] self@[i]).rtc.wf() && aux_slots_pristine(
                self@[i].rtc,
            ) by {
                if i != c {
                    assert(self@[i] == old(self)@[i]);
                } else {
                    let pre = old(self)@[c].rtc;
                    assert forall|s: int|
                        1 <= s < NUM_COMPARE_SLOTS implies #[trigger] self@[c].rtc.slots[s]
                        == (CompareSlot {
                        cc: 0u32,
                        event: false,
                        evten: false,
                        inten: false,
                    }) by {
                        assert(pre.slots[s] == (CompareSlot {
                            cc: 0u32,
                            event: false,
                            evten: false,
                            inten: false,
                        }));
                    }
                }
            }
        }
    }

    /// The interrupt dispatch for `channel`: clears every fired compare
    /// slot, disarms its interrupt, stops the counter if nothing stays
    /// armed, and -- if the scheduling slot had fired -- hands out the
    /// stored callback, transferring its ownership to the caller, which
    /// invokes it.  Callbacks of one channel are serialized through this
    /// single exit.
    pub fn on_rtc(&mut self, channel: usize) -> (cb: Option<F>)
        requires
            old(self).wf(),
            channel < N,
        ensures
            final(self).wf(),
            dispatch_post(old(self)@, final(self)@, channel as int, cb),
    {
        let ch = &mut self.channels[channel];
        proof {
            assert(ch.rtc@ == old(self)@[channel as int].rtc);
        }
        let fired = ch.rtc.dispatch();
        let cb = if fired {
            ch.callback.take()
        } else {
            None
        };
        proof {
            let c = channel as int;
            assert forall|i: int|
                0 <= i < N implies (#[trigger] self@[i]).rtc.wf() && aux_slots_pristine(
                self@[i].rtc,
            ) by {
                if i != c {
                    assert(self@[i] == old(self)@[i]);
                } else {
                    let pre = old(self)@[c].rtc;
                    assert forall|s: int|
                        1 <= s < NUM_COMPARE_SLOTS implies #[trigger] self@[c].rtc.slots[s]
                        == (CompareSlot {
                        cc: 0u32,
                        event: false,
                        evten: false,
                        inten: false,
                    }) by {
                        assert(pre.slots[s] == (CompareSlot {
                            cc: 0u32,
                            event: false,
                            evten: false,
                            inten: false,
                        }));
                        assert(self@[c].rtc.slots[s] == dispatched_slot(pre.slots[s]));
                    }
                }
            }
        }
        cb
    }

    /// Interrupt entry point for hardware counter 0: the runtime routes the
    /// first counter's vector here.  Returns the callback taken out of the
    /// channel, for the vector shim to invoke.
    pub fn on_rtc0(&mut self) -> (cb: Option<F>)
        requires
            old(self).wf(),
            0 < N,
        ensures
            final(self).wf(),
            dispatch_post(old(self)@, final(self)@, 0, cb),
    {
        self.on_rtc(0)
    }

    /// Interrupt entry point for hardware counter 1.
    pub fn on_rtc1(&mut self) -> (cb: Option<F>)
        requires
            old(self).wf(),
            1 < N,
        ensures
            final(self).wf(),
            dispatch_post(old(self)@, final(self)@, 1, cb),
    {
        self.on_rtc(1)
    }

    /// Interrupt entry point for hardware counter 2.
    pub fn on_rtc2(&mut self) -> (cb: Option<F>)
        requires
            old(self).wf(),
            2 < N,
        ensures
            final(self).wf(),
            dispatch_post(old(self)@, final(self)@, 2, cb),
    {
        self.on_rtc(2)
    }
}

impl<F, const N: usize> StartedClockManager<F, N> {
    /// Blocks the calling context until `ticks` clock periods have elapsed
    /// on `channel`, then returns how many elapsed: exactly `ticks`.  The
    /// sequence is the one the hardware wants: clear the counter, program
    /// compare slot 0, arm the event, start the counter, sleep-and-poll the
    /// event, then disarm the event and stop the counter.  Durations of at
    /// least `2^23` ticks are refused as out of range and a scheduled
    /// channel as busy, with nothing written to any register; a zero delay
    /// has already elapsed and also touches nothing.
    pub fn delay(&mut self, channel: usize, ticks: u32) -> (r: Result<u32, TimerError>)
        requires
            old(self).wf(),
            channel < N,
        ensures
            final(self).wf(),
            final(self)@.len() == N,
            forall|j: int| 0 <= j < N && j != channel ==> final(self)@[j] == old(self)@[j],
            ticks >= MAX_DURATION ==> r == Err::<u32, TimerError>(
                TimerError::DurationOutOfRange,
            ) && final(self)@ == old(self)@,
            ticks < MAX_DURATION && !channel_idle(old(self)@[channel as int]) ==> r == Err::<
                u32,
                TimerError,
            >(TimerError::ChannelBusy) && final(self)@ == old(self)@,
            ticks == 0 && channel_idle(old(self)@[channel as int]) ==> r == Ok::<
                u32,
                TimerError,
            >(0) && final(self)@ == old(self)@,
            1 <= ticks < MAX_DURATION && channel_idle(old(self)@[channel as int]) ==> r == Ok::<
                u32,
                TimerError,
            >(ticks) && final(self)@[channel as int] == (ChannelModel {
                rtc: delayed_rtc(old(self)@[channel as int].rtc, ticks),
                callback: None::<F>,
            }),
    {
        if ticks >= MAX_DURATION {
            return Err(TimerError::DurationOutOfRange);
        }
        let busy = self.channels[channel].callback.is_some()
            || self.channels[channel].rtc.is_started();
        if busy {
            return Err(TimerError::ChannelBusy);
        }
        if ticks == 0 {
            return Ok(0);
        }
        let ch = &mut self.channels[channel];
        proof {
            assert(ch.rtc@ == old(self)@[channel as int].rtc);
        }
        let elapsed = ch.rtc.run_delay(ticks);
        proof {
            let c = channel as int;
            assert(self@[c].rtc == delayed_rtc(old(self)@[c].rtc, ticks));
            assert forall|i: int|
                0 <= i < N implies (#[trigger] self@[i]).rtc.wf() && aux_slots_pristine(
                self@[i].rtc,
            ) by {
                if i != c {
                    assert(self@[i] == old(self)@[i]);
                }
            }
        }
        Ok(elapsed)
    }

    /// Whether `channel` has nothing scheduled: no stored callback and a
    /// stopped counter.
    pub fn is_idle(&self, channel: usize) -> (r: bool)
        requires
            self.wf(),
            channel < N,
        ensures
            r == channel_idle(self@[channel as int]),
    {
        self.channels[channel].callback.is_none() && !self.channels[channel].rtc.is_started()
    }

    /// Whether `channel`'s counter is running.
    pub fn channel_running(&self, channel: usize) -> (r: bool)
        requires
            self.wf(),
            channel < N,
        ensures
            r == self@[channel as int].rtc.started,
    {
        self.channels[channel].rtc.is_started()
    }

    /// The current value of `channel`'s counter.
    pub fn channel_counter(&self, channel: usize) -> (c: u32)
        requires
            self.wf(),
            channel < N,
        ensures
            c == self@[channel as int].rtc.counter,
    {
        self.channels[channel].rtc.now()
    }

    /// Whether the interrupt of `channel`'s scheduling slot is armed.
    pub fn channel_interrupt_armed(&self, channel: usize) -> (r: bool)
        requires
            self.wf(),
            channel < N,
        ensures
            r == self@[channel as int].rtc.slots[0].inten,
    {
        self.channels[channel].rtc.interrupt_armed(0)
    }
}

/// A one-shot timer fires exactly once, wherever the counter stood before
/// arming: `after` leaves the channel in [`armed_rtc`], and from that state
/// the scheduling slot's event flag first rises on exactly the `ticks`-th
/// clock edge -- never earlier, whatever wrap-around does -- and the sticky
/// flag then stays up until dispatch takes it, within a full counter
/// period.
pub proof fn lemma_armed_channel_fires_exactly_once(m: RtcModel, ticks: u32, k: nat)
    requires
        m.wf(),
        1 <= ticks < MAX_DURATION,
        k <= COUNTER_PERIOD,
    ensures
        rtc_after_ticks(armed_rtc(m, ticks), k).slots[0].event <==> ticks <= k,
{
    let armed = armed_rtc(m, ticks);
    assert(armed.wf());
    crate::rtc::lemma_compare_fires_exactly_once(armed, 0, ticks as int, k);
}

/// Scheduler serialization: a cancelled channel stays silent.  Cancellation
/// leaves the channel quiescent -- counter stopped, events down, slots
/// disarmed, callback dropped -- and this lemma says that state is final:
/// however many clock edges follow, the counter model does not move, the
/// scheduling slot's event flag stays down, and there is no callback left
/// that a dispatch could hand out.  So arming `after(ch, t, f)` and
/// cancelling `ch` before `t` elapses means `f` is never invoked.
pub proof fn lemma_quiescent_channel_stays_silent<F>(c: ChannelModel<F>, k: nat)
    requires
        c.rtc.wf(),
        channel_quiescent(c),
    ensures
        rtc_after_ticks(c.rtc, k) == c.rtc,
        !rtc_after_ticks(c.rtc, k).slots[0].event,
        c.callback is None,
    decreases k,
{
    if k > 0 {
        lemma_quiescent_channel_stays_silent::<F>(c, (k - 1) as nat);
    }
}

} // verus!
