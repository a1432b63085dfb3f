//! Input helpers for the RX480-E-WQ / RX480E-4 receiver module's decoded
//! outputs: the active-high channel outputs `D0`-`D3` and the active-high
//! valid-transmission output `VT`.
//!
//! Bits are laid out as `D0=0b0000_0001`, `D1=0b0000_0010`, `D2=0b0000_0100`,
//! `D3=0b0000_1000`, `VT=0b0001_0000`.
//!
//! - `signals`: the outputs, their bits and names, and the classification of
//!   channel bits.
//! - `snapshot`: one sample of all five outputs, and the change between two.
//! - `receiver`: the receiver, which turns pin readings into snapshots and
//!   change events.
//! - `press`: a tracker that turns change events into timed key presses.

pub mod signals;
pub mod snapshot;
pub mod receiver;
pub mod press;

pub use signals::{
    Channel, Signal, ChannelState, Edge, D0_BIT, D1_BIT, D2_BIT, D3_BIT, VT_BIT, CHANNEL_MASK,
    channel_state_from_channel_bits, channel_state_from_bits,
};
pub use snapshot::{Snapshot, Event};
pub use receiver::Rx480eWq;
pub use press::{Press, PressTracker};
