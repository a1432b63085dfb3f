use vstd::prelude::*;

verus! {

/// Bit for the active-high `D0` channel output.
pub const D0_BIT: u8 = 0b0000_0001;
/// Bit for the active-high `D1` channel output.
pub const D1_BIT: u8 = 0b0000_0010;
/// Bit for the active-high `D2` channel output.
pub const D2_BIT: u8 = 0b0000_0100;
/// Bit for the active-high `D3` channel output.
pub const D3_BIT: u8 = 0b0000_1000;
/// Bit for the active-high `VT` valid-transmission output.
pub const VT_BIT: u8 = 0b0001_0000;
/// All four channel bits `D0`-`D3`.
pub const CHANNEL_MASK: u8 = 0b0000_1111;

/// One decoded channel output (`D0`-`D3`).
#[derive(Clone, Copy, Debug, PartialEq, Eq, Structural)]
pub enum Channel {
    D0,
    D1,
    D2,
    D3,
}

impl Channel {
    /// Position of the channel's bit: `D0` is bit 0, ..., `D3` is bit 3.
    pub open spec fn position(self) -> nat {
        match self {
            Channel::D0 => 0,
            Channel::D1 => 1,
            Channel::D2 => 2,
            Channel::D3 => 3,
        }
    }

    /// The channel's bit, `2` to the power of its position.
    pub open spec fn mask(self) -> u8 {
        match self {
            Channel::D0 => D0_BIT,
            Channel::D1 => D1_BIT,
            Channel::D2 => D2_BIT,
            Channel::D3 => D3_BIT,
        }
    }

    /// The channel's name, as the module's pin label.
    pub open spec fn label(self) -> Seq<char> {
        match self {
            Channel::D0 => seq!['D', '0'],
            Channel::D1 => seq!['D', '1'],
            Channel::D2 => seq!['D', '2'],
            Channel::D3 => seq!['D', '3'],
        }
    }

    /// The same output seen as a sampled signal.
    pub open spec fn signal(self) -> Signal {
        match self {
            Channel::D0 => Signal::D0,
            Channel::D1 => Signal::D1,
            Channel::D2 => Signal::D2,
            Channel::D3 => Signal::D3,
        }
    }

    pub fn name(self) -> (r: &'static str)
        ensures
            r@ == self.label(),
    {
        match self {
            Channel::D0 => {
                let s = "D0";
                proof { reveal_strlit("D0"); }
                s
            },
            Channel::D1 => {
                let s = "D1";
                proof { reveal_strlit("D1"); }
                s
            },
            Channel::D2 => {
                let s = "D2";
                proof { reveal_strlit("D2"); }
                s
            },
            Channel::D3 => {
                let s = "D3";
                proof { reveal_strlit("D3"); }
                s
            },
        }
    }

    pub fn bit(self) -> (r: u8)
        ensures
            r == self.mask(),
            r == vstd::arithmetic::power2::pow2(self.position()),
    {
        proof { vstd::arithmetic::power2::lemma2_to64(); }
        match self {
            Channel::D0 => D0_BIT,
            Channel::D1 => D1_BIT,
            Channel::D2 => D2_BIT,
            Channel::D3 => D3_BIT,
        }
    }
}

/// One sampled signal (`D0`-`D3` or `VT`).
#[derive(Clone, Copy, Debug, PartialEq, Eq, Structural)]
pub enum Signal {
    D0,
    D1,
    D2,
    D3,
    VT,
}


impl Signal {
    /// The signal's bit in a packed snapshot.
    pub open spec fn mask(self) -> u8 {
        match self {
            Signal::D0 => D0_BIT,
            Signal::D1 => D1_BIT,
            Signal::D2 => D2_BIT,
            Signal::D3 => D3_BIT,
            Signal::VT => VT_BIT,
        }
    }

    /// Position of the signal's bit: `D0` is bit 0, ..., `VT` is bit 4.
    pub open spec fn position(self) -> nat {
        match self {
            Signal::D0 => 0,
            Signal::D1 => 1,
            Signal::D2 => 2,
            Signal::D3 => 3,
            Signal::VT => 4,
        }
    }

    /// The signal's name, as the module's pin label.
    pub open spec fn label(self) -> Seq<char> {
        match self {
            Signal::D0 => seq!['D', '0'],
            Signal::D1 => seq!['D', '1'],
            Signal::D2 => seq!['D', '2'],
            Signal::D3 => seq!['D', '3'],
            Signal::VT => seq!['V', 'T'],
        }
    }

    pub fn name(self) -> (r: &'static str)
        ensures
            r@ == self.label(),
    {
        match self {
            Signal::D0 => {
                let s = "D0";
                proof { reveal_strlit("D0"); }
                s
            },
            Signal::D1 => {
                let s = "D1";
                proof { reveal_strlit("D1"); }
                s
            },
            Signal::D2 => {
                let s = "D2";
                proof { reveal_strlit("D2"); }
                s
            },
            Signal::D3 => {
                let s = "D3";
                proof { reveal_strlit("D3"); }
                s
            },
            Signal::VT => {
                let s = "VT";
                proof { reveal_strlit("VT"); }
                s
            },
        }
    }

    pub fn bit(self) -> (r: u8)
        ensures
            r == self.mask(),
            r == vstd::arithmetic::power2::pow2(self.position()),
    {
        proof { vstd::arithmetic::power2::lemma2_to64(); }
        match self {
            Signal::D0 => D0_BIT,
            Signal::D1 => D1_BIT,
            Signal::D2 => D2_BIT,
            Signal::D3 => D3_BIT,
            Signal::VT => VT_BIT,
        }
    }
}

/// Decoded `D0`-`D3` channel state.
///
/// `VT` is not part of a `ChannelState`; a snapshot's `vt_only` and an event's
/// `vt_rising` / `vt_falling` speak of it.
#[derive(Clone, Copy, Debug, PartialEq, Eq, Structural)]
pub enum ChannelState {
    Inactive,
    Single(Channel),
    Multiple(u8),
}

/// Rising/falling transition on a sampled signal.
#[derive(Clone, Copy, Debug, PartialEq, Eq, Structural)]
pub enum Edge {
    Rising,
    Falling,
}

/// Bit layout: each signal has its own bit, `2` to the power of its
/// position, and no two signals share one; a channel's bit and name are those
/// of the same output seen as a signal; the channel mask is the four channel
/// bits together and holds no `VT`.
pub proof fn lemma_bit_layout()
    ensures
        forall|s: Signal| #[trigger] s.mask() == vstd::arithmetic::power2::pow2(s.position()),
        forall|s: Signal, t: Signal| s != t ==> #[trigger] s.mask() & #[trigger] t.mask() == 0,
        forall|c: Channel| #[trigger] c.mask() == c.signal().mask(),
        forall|c: Channel| #[trigger] c.label() == c.signal().label(),
        forall|c: Channel| #[trigger] c.position() == c.signal().position(),
        CHANNEL_MASK == D0_BIT | D1_BIT | D2_BIT | D3_BIT,
        CHANNEL_MASK & VT_BIT == 0,
{
    vstd::arithmetic::power2::lemma2_to64();
    assert(CHANNEL_MASK == 1u8 | 2u8 | 4u8 | 8u8) by (bit_vector);
    assert(15u8 & 16u8 == 0) by (bit_vector);
    assert forall|s: Signal, t: Signal| s != t implies #[trigger] s.mask() & #[trigger] t.mask() == 0 by {
        let a = s.mask();
        let b = t.mask();
        assert(a & b == 0) by (bit_vector)
            requires
                a == 1u8 || a == 2u8 || a == 4u8 || a == 8u8 || a == 16u8,
                b == 1u8 || b == 2u8 || b == 4u8 || b == 8u8 || b == 16u8,
                a != b,
        ;
    }
}

/// Whether `bits` has the bit of channel `c` set.
pub open spec fn has_channel(bits: u8, c: Channel) -> bool {
    bits & c.mask() != 0
}

/// The channel state that a set of bits stands for: only the four channel
/// bits count; none set is `Inactive`, exactly one set is that channel, and two or
/// more set is `Multiple` with the channel bits as its mask.
pub open spec fn channel_state_of(bits: u8) -> ChannelState {
    let m = bits & CHANNEL_MASK;
    if m == 0 {
        ChannelState::Inactive
    } else if m == D0_BIT {
        ChannelState::Single(Channel::D0)
    } else if m == D1_BIT {
        ChannelState::Single(Channel::D1)
    } else if m == D2_BIT {
        ChannelState::Single(Channel::D2)
    } else if m == D3_BIT {
        ChannelState::Single(Channel::D3)
    } else {
        ChannelState::Multiple(m)
    }
}

/// How many of the four channel bits `bits` has set.
pub open spec fn channel_count(bits: u8) -> nat {
    (if has_channel(bits, Channel::D0) { 1nat } else { 0nat })
        + (if has_channel(bits, Channel::D1) { 1nat } else { 0nat })
        + (if has_channel(bits, Channel::D2) { 1nat } else { 0nat })
        + (if has_channel(bits, Channel::D3) { 1nat } else { 0nat })
}

/// The four channel bits of a byte, one by one, and what its low nibble is
/// when none, or exactly one, of them is set.
proof fn lemma_channel_bits(bits: u8)
    ensures
        has_channel(bits, Channel::D0) == (bits & 1u8 != 0),
        has_channel(bits, Channel::D1) == (bits & 2u8 != 0),
        has_channel(bits, Channel::D2) == (bits & 4u8 != 0),
        has_channel(bits, Channel::D3) == (bits & 8u8 != 0),
        (bits & 15u8 == 0) == (bits & 1u8 == 0 && bits & 2u8 == 0 && bits & 4u8 == 0 && bits & 8u8 == 0),
        (bits & 15u8 == 1) == (bits & 1u8 != 0 && bits & 2u8 == 0 && bits & 4u8 == 0 && bits & 8u8 == 0),
        (bits & 15u8 == 2) == (bits & 1u8 == 0 && bits & 2u8 != 0 && bits & 4u8 == 0 && bits & 8u8 == 0),
        (bits & 15u8 == 4) == (bits & 1u8 == 0 && bits & 2u8 == 0 && bits & 4u8 != 0 && bits & 8u8 == 0),
        (bits & 15u8 == 8) == (bits & 1u8 == 0 && bits & 2u8 == 0 && bits & 4u8 == 0 && bits & 8u8 != 0),
        (bits & 15u8) & 1u8 == bits & 1u8,
        (bits & 15u8) & 2u8 == bits & 2u8,
        (bits & 15u8) & 4u8 == bits & 4u8,
        (bits & 15u8) & 8u8 == bits & 8u8,
        (bits & 15u8) & 15u8 == bits & 15u8,
{
    assert((bits & 15u8 == 0) == (bits & 1u8 == 0 && bits & 2u8 == 0 && bits & 4u8 == 0 && bits & 8u8 == 0)) by (bit_vector);
    assert((bits & 15u8 == 1) == (bits & 1u8 != 0 && bits & 2u8 == 0 && bits & 4u8 == 0 && bits & 8u8 == 0)) by (bit_vector);
    assert((bits & 15u8 == 2) == (bits & 1u8 == 0 && bits & 2u8 != 0 && bits & 4u8 == 0 && bits & 8u8 == 0)) by (bit_vector);
    assert((bits & 15u8 == 4) == (bits & 1u8 == 0 && bits & 2u8 == 0 && bits & 4u8 != 0 && bits & 8u8 == 0)) by (bit_vector);
    assert((bits & 15u8 == 8) == (bits & 1u8 == 0 && bits & 2u8 == 0 && bits & 4u8 == 0 && bits & 8u8 != 0)) by (bit_vector);
    assert((bits & 15u8) & 1u8 == bits & 1u8 && (bits & 15u8) & 2u8 == bits & 2u8 && (bits & 15u8) & 4u8 == bits & 4u8
        && (bits & 15u8) & 8u8 == bits & 8u8 && (bits & 15u8) & 15u8 == bits & 15u8) by (bit_vector);
}

/// Classification: a byte stands for no channel when none of the four
/// channel bits is set, for channel `c` when `c`'s bit is the only one set,
/// and for several channels, with its channel bits as the mask, when two or
/// more are set; `VT` and the bits above it never count.
pub proof fn lemma_channel_state_classifies(bits: u8)
    ensures
        (channel_state_of(bits) == ChannelState::Inactive) == (channel_count(bits) == 0),
        forall|c: Channel|
            (#[trigger] channel_state_of(bits) == ChannelState::Single(c))
                == (channel_count(bits) == 1 && has_channel(bits, c)),
        (channel_state_of(bits) is Multiple) == (channel_count(bits) >= 2),
        channel_state_of(bits) is Multiple ==> channel_state_of(bits)->Multiple_0 == bits & CHANNEL_MASK,
        channel_state_of(bits) == channel_state_of(bits & CHANNEL_MASK),
        forall|c: Channel| #[trigger] has_channel(bits, c) == has_channel(bits & CHANNEL_MASK, c),
{
    lemma_channel_bits(bits);
    lemma_channel_bits(bits & CHANNEL_MASK);
    assert forall|c: Channel|
        (#[trigger] channel_state_of(bits) == ChannelState::Single(c))
            == (channel_count(bits) == 1 && has_channel(bits, c)) by {
        match c {
            Channel::D0 => {},
            Channel::D1 => {},
            Channel::D2 => {},
            Channel::D3 => {},
        }
    }
    assert forall|c: Channel| #[trigger] has_channel(bits, c) == has_channel(bits & CHANNEL_MASK, c) by {
        match c {
            Channel::D0 => {},
            Channel::D1 => {},
            Channel::D2 => {},
            Channel::D3 => {},
        }
    }
}

/// Classify only the `D0`-`D3` channel bits.
pub fn channel_state_from_channel_bits(bits: u8) -> (r: ChannelState)
    ensures
        r == channel_state_of(bits),
{
    let m = bits & (D0_BIT | D1_BIT | D2_BIT | D3_BIT);
    assert(m == bits & CHANNEL_MASK) by (bit_vector)
        requires
            m == bits & (1u8 | 2u8 | 4u8 | 8u8),
    ;
    if m == 0 {
        ChannelState::Inactive
    } else if m == D0_BIT {
        ChannelState::Single(Channel::D0)
    } else if m == D1_BIT {
        ChannelState::Single(Channel::D1)
    } else if m == D2_BIT {
        ChannelState::Single(Channel::D2)
    } else if m == D3_BIT {
        ChannelState::Single(Channel::D3)
    } else {
        ChannelState::Multiple(m)
    }
}

/// Older name of [`channel_state_from_channel_bits`], kept for callers that
/// still use it.
pub fn channel_state_from_bits(bits: u8) -> (r: ChannelState)
    ensures
        r == channel_state_of(bits),
{
    channel_state_from_channel_bits(bits)
}

} // verus!
