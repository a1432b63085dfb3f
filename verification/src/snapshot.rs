use vstd::prelude::*;

use crate::signals::{
    has_channel, channel_count, lemma_channel_state_classifies,
    Channel, Signal, ChannelState, Edge, D0_BIT, D1_BIT, D2_BIT, D3_BIT, VT_BIT, CHANNEL_MASK,
    channel_state_of, channel_state_from_channel_bits,
};

verus! {

/// Whether `bits` has the bit of signal `s` set.
pub open spec fn has_signal(bits: u8, s: Signal) -> bool {
    bits & s.mask() != 0
}

/// The number a level stands for when it is a bit: `1` when high, `0` when low.
pub open spec fn bit_value(level: bool) -> int {
    if level { 1 } else { 0 }
}

/// The edge that a signal shows when it goes from `before` to `after`.
pub open spec fn edge_between(before: bool, after: bool) -> Option<Edge> {
    if !before && after {
        Some(Edge::Rising)
    } else if before && !after {
        Some(Edge::Falling)
    } else {
        None
    }
}

/// The five output levels sampled at one moment.
#[derive(Clone, Copy, Debug, PartialEq, Eq, Structural)]
pub struct Snapshot {
    pub d0: bool,
    pub d1: bool,
    pub d2: bool,
    pub d3: bool,
    pub vt: bool,
}

/// Packing five bit values that are each either `0` or their own bit: the
/// packed byte is their sum, and each bit of it is one of them.
proof fn lemma_pack(b0: u8, b1: u8, b2: u8, b3: u8, b4: u8)
    requires
        b0 == 0 || b0 == 1,
        b1 == 0 || b1 == 2,
        b2 == 0 || b2 == 4,
        b3 == 0 || b3 == 8,
        b4 == 0 || b4 == 16,
    ensures
        b0 | b1 | b2 | b3 == b0 + b1 + b2 + b3,
        (b0 | b1 | b2 | b3) | b4 == b0 + b1 + b2 + b3 + b4,
        ((b0 | b1 | b2 | b3) | b4) & 1u8 != 0 <==> b0 == 1,
        ((b0 | b1 | b2 | b3) | b4) & 2u8 != 0 <==> b1 == 2,
        ((b0 | b1 | b2 | b3) | b4) & 4u8 != 0 <==> b2 == 4,
        ((b0 | b1 | b2 | b3) | b4) & 8u8 != 0 <==> b3 == 8,
        ((b0 | b1 | b2 | b3) | b4) & 16u8 != 0 <==> b4 == 16,
        ((b0 | b1 | b2 | b3) | b4) & 15u8 == b0 | b1 | b2 | b3,
{
    assert(b0 | b1 | b2 | b3 == b0 + b1 + b2 + b3) by (bit_vector)
        requires
            b0 == 0 || b0 == 1,
            b1 == 0 || b1 == 2,
            b2 == 0 || b2 == 4,
            b3 == 0 || b3 == 8,
    ;
    assert({
        let x = (b0 | b1 | b2 | b3) | b4;
        &&& x == b0 + b1 + b2 + b3 + b4
        &&& (x & 1u8 != 0 <==> b0 == 1)
        &&& (x & 2u8 != 0 <==> b1 == 2)
        &&& (x & 4u8 != 0 <==> b2 == 4)
        &&& (x & 8u8 != 0 <==> b3 == 8)
        &&& (x & 16u8 != 0 <==> b4 == 16)
        &&& x & 15u8 == b0 | b1 | b2 | b3
    }) by (bit_vector)
        requires
            b0 == 0 || b0 == 1,
            b1 == 0 || b1 == 2,
            b2 == 0 || b2 == 4,
            b3 == 0 || b3 == 8,
            b4 == 0 || b4 == 16,
    ;
}

impl Snapshot {
    /// The snapshot with every output low.
    pub open spec fn all_low() -> Snapshot {
        Snapshot { d0: false, d1: false, d2: false, d3: false, vt: false }
    }

    /// The sampled level of signal `s`.
    pub open spec fn level(self, s: Signal) -> bool {
        match s {
            Signal::D0 => self.d0,
            Signal::D1 => self.d1,
            Signal::D2 => self.d2,
            Signal::D3 => self.d3,
            Signal::VT => self.vt,
        }
    }

    /// The channel levels as a binary number: `D0` is worth 1, `D1` 2, `D2` 4
    /// and `D3` 8.
    pub open spec fn channel_value(self) -> u8 {
        (bit_value(self.d0) + 2 * bit_value(self.d1) + 4 * bit_value(self.d2) + 8 * bit_value(
            self.d3,
        )) as u8
    }

    /// All five levels as a binary number: the channels as in
    /// `channel_value`, and `VT` worth 16.
    pub open spec fn value(self) -> u8 {
        (self.channel_value() + 16 * bit_value(self.vt)) as u8
    }

    /// How many of `D0`-`D3` are high.
    pub open spec fn high_channels(self) -> nat {
        (bit_value(self.d0) + bit_value(self.d1) + bit_value(self.d2) + bit_value(self.d3)) as nat
    }

    /// Whether at least one of `D0`-`D3` is high.
    pub open spec fn some_channel_high(self) -> bool {
        self.d0 || self.d1 || self.d2 || self.d3
    }

    pub fn get(&self, channel: Channel) -> (r: bool)
        ensures
            r == self.level(channel.signal()),
    {
        match channel {
            Channel::D0 => self.d0,
            Channel::D1 => self.d1,
            Channel::D2 => self.d2,
            Channel::D3 => self.d3,
        }
    }

    pub fn get_signal(&self, signal: Signal) -> (r: bool)
        ensures
            r == self.level(signal),
    {
        match signal {
            Signal::D0 => self.d0,
            Signal::D1 => self.d1,
            Signal::D2 => self.d2,
            Signal::D3 => self.d3,
            Signal::VT => self.vt,
        }
    }

    /// Packed `D0`-`D3` bits in the low nibble.
    pub fn channel_bits(&self) -> (r: u8)
        ensures
            r == self.channel_value(),
            r & CHANNEL_MASK == r,
            forall|c: Channel| #[trigger] has_signal(r, c.signal()) == self.level(c.signal()),
            !has_signal(r, Signal::VT),
    {
        let b0: u8 = if self.d0 { D0_BIT } else { 0 };
        let b1: u8 = if self.d1 { D1_BIT } else { 0 };
        let b2: u8 = if self.d2 { D2_BIT } else { 0 };
        let b3: u8 = if self.d3 { D3_BIT } else { 0 };
        let r = b0 | b1 | b2 | b3;
        proof {
            lemma_pack(b0, b1, b2, b3, 0);
            assert(r | 0u8 == r) by (bit_vector);
            assert forall|c: Channel| #[trigger] has_signal(r, c.signal()) == self.level(c.signal()) by {
                match c {
                    Channel::D0 => {},
                    Channel::D1 => {},
                    Channel::D2 => {},
                    Channel::D3 => {},
                }
            }
        }
        r
    }

    /// Returns true when at least one `D0`-`D3` channel output is active.
    pub fn any_channel_active(&self) -> (r: bool)
        ensures
            r == self.some_channel_high(),
    {
        self.channel_bits() != 0
    }

    /// Packed snapshot bits: channels in the low nibble, `VT` in bit 4.
    pub fn bits(&self) -> (r: u8)
        ensures
            r == self.value(),
            r & CHANNEL_MASK == self.channel_value(),
            forall|s: Signal| #[trigger] has_signal(r, s) == self.level(s),
            r < 32,
    {
        let c = self.channel_bits();
        let v: u8 = if self.vt { VT_BIT } else { 0 };
        let r = c | v;
        proof {
            let b0: u8 = if self.d0 { 1u8 } else { 0u8 };
            let b1: u8 = if self.d1 { 2u8 } else { 0u8 };
            let b2: u8 = if self.d2 { 4u8 } else { 0u8 };
            let b3: u8 = if self.d3 { 8u8 } else { 0u8 };
            lemma_pack(b0, b1, b2, b3, v);
            assert(c == b0 | b1 | b2 | b3);
            assert forall|s: Signal| #[trigger] has_signal(r, s) == self.level(s) by {
                match s {
                    Signal::D0 => {},
                    Signal::D1 => {},
                    Signal::D2 => {},
                    Signal::D3 => {},
                    Signal::VT => {},
                }
            }
        }
        r
    }

    /// Returns true when the `VT` valid-transmission output is active.
    pub fn is_valid_transmission(&self) -> (r: bool)
        ensures
            r == self.vt,
    {
        self.vt
    }

    pub fn active_channel(&self) -> (r: Option<Channel>)
        ensures
            r == (match channel_state_of(self.channel_value()) {
                ChannelState::Single(c) => Some(c),
                _ => None,
            }),
    {
        match channel_state_from_channel_bits(self.channel_bits()) {
            ChannelState::Single(channel) => Some(channel),
            _ => None,
        }
    }

    pub fn channel_state(&self) -> (r: ChannelState)
        ensures
            r == channel_state_of(self.channel_value()),
    {
        channel_state_from_channel_bits(self.channel_bits())
    }

    /// Returns true when `VT` is active but no `D0`-`D3` channel output is active.
    pub fn vt_only(&self) -> (r: bool)
        ensures
            r == (self.vt && !self.some_channel_high()),
    {
        self.vt && self.channel_bits() == 0
    }
}

impl Default for Snapshot {
    fn default() -> (r: Snapshot)
        ensures
            r == Snapshot::all_low(),
    {
        Snapshot { d0: false, d1: false, d2: false, d3: false, vt: false }
    }
}

/// A change between two consecutive samples.
#[derive(Clone, Copy, Debug, PartialEq, Eq, Structural)]
pub struct Event {
    pub previous: Snapshot,
    pub current: Snapshot,
}

impl Event {
    /// The signals whose level differs between the two samples, as packed bits.
    pub open spec fn changed(self) -> u8 {
        self.previous.value() ^ self.current.value()
    }

    pub fn changed_mask(&self) -> (r: u8)
        ensures
            r == self.changed(),
            forall|s: Signal|
                #[trigger] has_signal(r, s) == (self.previous.level(s) != self.current.level(s)),
            r < 32,
    {
        let p = self.previous.bits();
        let c = self.current.bits();
        let r = p ^ c;
        proof {
            assert forall|s: Signal|
                #[trigger] has_signal(r, s) == (self.previous.level(s) != self.current.level(s)) by {
                let m = s.mask();
                assert(has_signal(p, s) == self.previous.level(s));
                assert(has_signal(c, s) == self.current.level(s));
                assert((p ^ c) & m != 0 <==> ((p & m != 0) != (c & m != 0))) by (bit_vector)
                    requires
                        m == 1u8 || m == 2u8 || m == 4u8 || m == 8u8 || m == 16u8,
                ;
            }
            assert(p ^ c < 32) by (bit_vector)
                requires
                    p < 32,
                    c < 32,
            ;
        }
        r
    }

    pub fn edge(&self, signal: Signal) -> (r: Option<Edge>)
        ensures
            r == edge_between(self.previous.level(signal), self.current.level(signal)),
    {
        match (self.previous.get_signal(signal), self.current.get_signal(signal)) {
            (false, true) => Some(Edge::Rising),
            (true, false) => Some(Edge::Falling),
            _ => None,
        }
    }

    pub fn vt_rising(&self) -> (r: bool)
        ensures
            r == (!self.previous.vt && self.current.vt),
    {
        match self.edge(Signal::VT) {
            Some(Edge::Rising) => true,
            _ => false,
        }
    }

    pub fn vt_falling(&self) -> (r: bool)
        ensures
            r == (self.previous.vt && !self.current.vt),
    {
        match self.edge(Signal::VT) {
            Some(Edge::Falling) => true,
            _ => false,
        }
    }
}


/// Packing: bit `i` of a snapshot's packed value is the level of the signal
/// at position `i`; the low nibble is the channel value, and nothing above
/// bit 4 is set.
pub proof fn lemma_value_bits(s: Snapshot)
    ensures
        forall|sig: Signal| #[trigger] has_signal(s.value(), sig) == s.level(sig),
        forall|c: Channel| #[trigger] has_channel(s.channel_value(), c) == s.level(c.signal()),
        s.value() & CHANNEL_MASK == s.channel_value(),
        s.channel_value() < 16,
        s.value() < 32,
{
    let b0: u8 = if s.d0 { 1u8 } else { 0u8 };
    let b1: u8 = if s.d1 { 2u8 } else { 0u8 };
    let b2: u8 = if s.d2 { 4u8 } else { 0u8 };
    let b3: u8 = if s.d3 { 8u8 } else { 0u8 };
    let b4: u8 = if s.vt { 16u8 } else { 0u8 };
    lemma_pack(b0, b1, b2, b3, b4);
    lemma_pack(b0, b1, b2, b3, 0);
    let c = b0 | b1 | b2 | b3;
    assert(c | 0u8 == c) by (bit_vector);
    assert(s.channel_value() == c);
    assert(s.value() == (b0 | b1 | b2 | b3) | b4);
    assert forall|sig: Signal| #[trigger] has_signal(s.value(), sig) == s.level(sig) by {
        match sig {
            Signal::D0 => {},
            Signal::D1 => {},
            Signal::D2 => {},
            Signal::D3 => {},
            Signal::VT => {},
        }
    }
    assert forall|ch: Channel| #[trigger] has_channel(s.channel_value(), ch) == s.level(ch.signal()) by {
        match ch {
            Channel::D0 => {},
            Channel::D1 => {},
            Channel::D2 => {},
            Channel::D3 => {},
        }
    }
}

/// Packing loses nothing: two snapshots with the same packed bits are the
/// same snapshot.
pub proof fn lemma_value_injective(a: Snapshot, b: Snapshot)
    ensures
        (a.value() == b.value()) == (a == b),
{
    lemma_value_bits(a);
    lemma_value_bits(b);
    if a.value() == b.value() {
        assert(a.level(Signal::D0) == b.level(Signal::D0));
        assert(a.level(Signal::D1) == b.level(Signal::D1));
        assert(a.level(Signal::D2) == b.level(Signal::D2));
        assert(a.level(Signal::D3) == b.level(Signal::D3));
        assert(a.level(Signal::VT) == b.level(Signal::VT));
    }
}

/// A snapshot's channel state: no channel output high is `Inactive`; channel
/// `c` alone high is `Single(c)`; two or more high is `Multiple`, whose mask
/// is the packed channel bits. `VT` plays no part.
pub proof fn lemma_snapshot_channel_state(s: Snapshot)
    ensures
        (channel_state_of(s.channel_value()) == ChannelState::Inactive) == (s.high_channels() == 0),
        forall|c: Channel|
            (#[trigger] channel_state_of(s.channel_value()) == ChannelState::Single(c)) == (
            s.high_channels() == 1 && s.level(c.signal())),
        (channel_state_of(s.channel_value()) is Multiple) == (s.high_channels() >= 2),
        channel_state_of(s.channel_value()) is Multiple ==> channel_state_of(
            s.channel_value(),
        )->Multiple_0 == s.channel_value(),
        (s.high_channels() == 0) == !s.some_channel_high(),
        (channel_state_of(s.channel_value()) == ChannelState::Inactive) == !s.some_channel_high(),
        (s.vt && !s.some_channel_high()) == (s.vt && channel_state_of(s.channel_value())
            == ChannelState::Inactive),
{
    let v = s.channel_value();
    lemma_value_bits(s);
    lemma_channel_state_classifies(v);
    assert(v & CHANNEL_MASK == v) by (bit_vector)
        requires
            v < 16,
    ;
    assert(has_channel(v, Channel::D0) == s.level(Channel::D0.signal()));
    assert(has_channel(v, Channel::D1) == s.level(Channel::D1.signal()));
    assert(has_channel(v, Channel::D2) == s.level(Channel::D2.signal()));
    assert(has_channel(v, Channel::D3) == s.level(Channel::D3.signal()));
    assert(channel_count(v) == s.high_channels());
}

/// Edge direction: a signal rises exactly when it was low before and is high
/// after, and falls exactly when it was high before and is low after.
pub proof fn lemma_edge_direction(e: Event, s: Signal)
    ensures
        (edge_between(e.previous.level(s), e.current.level(s)) == Some(Edge::Rising)) == (
        !e.previous.level(s) && e.current.level(s)),
        (edge_between(e.previous.level(s), e.current.level(s)) == Some(Edge::Falling)) == (
        e.previous.level(s) && !e.current.level(s)),
{
}

/// An event's changed mask and its edges agree: a signal has an edge exactly
/// when its bit is in the changed mask; the mask is empty exactly when the
/// two samples are equal.
pub proof fn lemma_changed_mask_matches_edges(e: Event)
    ensures
        forall|s: Signal|
            (#[trigger] edge_between(e.previous.level(s), e.current.level(s)) is Some) == has_signal(
                e.changed(),
                s,
            ),
        (e.changed() == 0) == (e.previous == e.current),
{
    let p = e.previous.value();
    let c = e.current.value();
    lemma_value_bits(e.previous);
    lemma_value_bits(e.current);
    lemma_value_injective(e.previous, e.current);
    assert forall|s: Signal|
        (#[trigger] edge_between(e.previous.level(s), e.current.level(s)) is Some) == has_signal(
            e.changed(),
            s,
        ) by {
        let m = s.mask();
        assert(has_signal(p, s) == e.previous.level(s));
        assert(has_signal(c, s) == e.current.level(s));
        assert((p ^ c) & m != 0 <==> ((p & m != 0) != (c & m != 0))) by (bit_vector)
            requires
                m == 1u8 || m == 2u8 || m == 4u8 || m == 8u8 || m == 16u8,
        ;
    }
    assert((p ^ c == 0) == (p == c)) by (bit_vector);
}

} // verus!
