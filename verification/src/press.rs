use vstd::prelude::*;

use crate::signals::{ChannelState, CHANNEL_MASK, channel_state_of, channel_state_from_channel_bits};
use crate::snapshot::Event;

verus! {

/// One key press as the receiver shows it: `VT` went high, then low again.
/// `channels` classifies every channel output that was seen high while `VT`
/// was high, and `pulse_ms` is how long `VT` stayed high.
#[derive(Clone, Copy, Debug, PartialEq, Eq, Structural)]
pub struct Press {
    pub channels: ChannelState,
    pub pulse_ms: u32,
}

/// What a press tracker holds: the clock, the time of the last `VT` rising
/// edge, and the channel bits seen since it.
pub struct PressState {
    pub now: u32,
    pub start: u32,
    pub seen: u8,
}

/// Milliseconds from `start` to `now` on a clock that wraps around at `2^32`.
pub open spec fn elapsed(start: u32, now: u32) -> u32 {
    ((now - start) % 0x1_0000_0000) as u32
}

/// The clock after `period` more milliseconds, wrapping around at `2^32`.
pub open spec fn advanced(now: u32, period: u32) -> u32 {
    ((now + period) % 0x1_0000_0000) as u32
}

/// The clock after `advance`: only the time moves.
pub open spec fn after_advance(st: PressState, period: u32) -> PressState {
    PressState { now: advanced(st.now, period), ..st }
}

/// One tracker step on a change event: a `VT` rising edge starts a press at
/// the current time with the channels of that sample; every sample with `VT`
/// high adds its channels; a `VT` falling edge ends the press, reports it, and
/// forgets the channels.
pub open spec fn press_step(st: PressState, event: Event) -> (PressState, Option<Press>) {
    let bits = event.current.channel_value();
    let rising = !event.previous.vt && event.current.vt;
    let falling = event.previous.vt && !event.current.vt;
    let start = if rising { st.now } else { st.start };
    let seen1 = if rising { bits } else { st.seen };
    let seen2 = if event.current.vt { seen1 | bits } else { seen1 };
    if falling {
        (
            PressState { now: st.now, start, seen: 0 },
            Some(Press { channels: channel_state_of(seen2), pulse_ms: elapsed(start, st.now) }),
        )
    } else {
        (PressState { now: st.now, start, seen: seen2 }, None)
    }
}

/// Turns a receiver's change events into key presses, timing each `VT` pulse
/// on a millisecond clock that the caller advances.
pub struct PressTracker {
    now_ms: u32,
    active_start_ms: u32,
    seen_channel_bits: u8,
}

impl PressTracker {
    /// The tracker's state.
    pub closed spec fn state(&self) -> PressState {
        PressState { now: self.now_ms, start: self.active_start_ms, seen: self.seen_channel_bits }
    }

    /// Only channel bits are ever remembered.
    #[verifier::type_invariant]
    spec fn only_channel_bits(self) -> bool {
        self.seen_channel_bits & CHANNEL_MASK == self.seen_channel_bits
    }

    /// A tracker at time zero that has seen nothing.
    pub fn new() -> (r: Self)
        ensures
            r.state() == (PressState { now: 0, start: 0, seen: 0 }),
    {
        assert(0u8 & 15u8 == 0u8) by (bit_vector);
        PressTracker { now_ms: 0, active_start_ms: 0, seen_channel_bits: 0 }
    }

    /// The tracker's clock, in milliseconds.
    pub fn now_ms(&self) -> (r: u32)
        ensures
            r == self.state().now,
    {
        self.now_ms
    }

    /// Moves the clock on by `period_ms` milliseconds.
    pub fn advance(&mut self, period_ms: u32)
        ensures
            final(self).state() == after_advance(old(self).state(), period_ms),
    {
        proof { use_type_invariant(&*self); }
        self.now_ms = self.now_ms.wrapping_add(period_ms);
    }

    /// Takes one change event and returns the press that it ends, if any.
    pub fn on_event(&mut self, event: &Event) -> (r: Option<Press>)
        ensures
            (final(self).state(), r) == press_step(old(self).state(), *event),
    {
        proof { use_type_invariant(&*self); }
        let bits = event.current.channel_bits();
        if event.vt_rising() {
            self.active_start_ms = self.now_ms;
            self.seen_channel_bits = bits;
        }
        if event.current.vt {
            let before = self.seen_channel_bits;
            let seen = before | bits;
            assert(seen & 15u8 == seen) by (bit_vector)
                requires
                    seen == before | bits,
                    before & 15u8 == before,
                    bits & 15u8 == bits,
            ;
            self.seen_channel_bits = seen;
        }
        if event.vt_falling() {
            let pulse_ms = self.now_ms.wrapping_sub(self.active_start_ms);
            let channels = channel_state_from_channel_bits(self.seen_channel_bits);
            assert(0u8 & 15u8 == 0u8) by (bit_vector);
            self.seen_channel_bits = 0;
            return Some(Press { channels, pulse_ms });
        }
        None
    }
}


/// Pulse timing: when `VT` rises, the clock then moves on by `dt`
/// milliseconds, and `VT` falls, the press that the fall reports lasted `dt`
/// milliseconds and carries the channels of the rising sample; the rise
/// itself reports nothing.
pub proof fn lemma_press_timing(st: PressState, rise: Event, dt: u32, fall: Event)
    requires
        !rise.previous.vt && rise.current.vt,
        fall.previous.vt && !fall.current.vt,
    ensures
        press_step(st, rise).1 is None,
        press_step(after_advance(press_step(st, rise).0, dt), fall).1 == Some(
            Press { channels: channel_state_of(rise.current.channel_value()), pulse_ms: dt },
        ),
        press_step(after_advance(press_step(st, rise).0, dt), fall).0.seen == 0,
{
    let bits = rise.current.channel_value();
    assert(bits | bits == bits) by (bit_vector);
}

/// Channels seen during a pulse add up: when `VT` rises on one sample, stays
/// high on a second, and then falls, the press carries every channel that
/// either sample showed high, and lasts the whole time from rise to fall.
pub proof fn lemma_press_collects_channels(
    st: PressState,
    rise: Event,
    dt1: u32,
    mid: Event,
    dt2: u32,
    fall: Event,
)
    requires
        !rise.previous.vt && rise.current.vt,
        mid.previous.vt && mid.current.vt,
        fall.previous.vt && !fall.current.vt,
    ensures
        ({
            let st1 = after_advance(press_step(st, rise).0, dt1);
            let st2 = after_advance(press_step(st1, mid).0, dt2);
            &&& press_step(st1, mid).1 is None
            &&& press_step(st2, fall).1 == Some(
                Press {
                    channels: channel_state_of(
                        rise.current.channel_value() | mid.current.channel_value(),
                    ),
                    pulse_ms: ((dt1 + dt2) % 0x1_0000_0000) as u32,
                },
            )
        }),
{
    let b = rise.current.channel_value();
    assert(b | b == b) by (bit_vector);
}

/// Outside a pulse nothing is remembered: an event on which `VT` stays low
/// reports nothing and leaves the tracker as it was.
pub proof fn lemma_quiet_while_vt_low(st: PressState, event: Event)
    requires
        !event.previous.vt && !event.current.vt,
    ensures
        press_step(st, event) == (st, None::<Press>),
{
}

} // verus!
