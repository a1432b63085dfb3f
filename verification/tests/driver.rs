use core::cell::Cell;

use embedded_hal::digital::InputPin;
use rx480e_wq_driver::{
    channel_state_from_channel_bits, Channel, ChannelState, Edge, Event, Rx480eWq, Signal, Snapshot,
    D0_BIT, D1_BIT, D2_BIT, D3_BIT, VT_BIT,
};

#[derive(Clone)]
struct MockPin {
    state: Cell<bool>,
}

impl MockPin {
    fn new(state: bool) -> Self {
        Self {
            state: Cell::new(state),
        }
    }
}

impl embedded_hal::digital::ErrorType for MockPin {
    type Error = core::convert::Infallible;
}

impl InputPin for MockPin {
    fn is_high(&mut self) -> Result<bool, Self::Error> {
        Ok(self.state.get())
    }
    fn is_low(&mut self) -> Result<bool, Self::Error> {
        Ok(!self.state.get())
    }
}

#[derive(Clone, Copy, Debug, Eq, PartialEq)]
struct PinError;

impl embedded_hal::digital::Error for PinError {
    fn kind(&self) -> embedded_hal::digital::ErrorKind {
        embedded_hal::digital::ErrorKind::Other
    }
}

struct ErrorPin;

impl embedded_hal::digital::ErrorType for ErrorPin {
    type Error = PinError;
}

impl InputPin for ErrorPin {
    fn is_high(&mut self) -> Result<bool, Self::Error> {
        Err(PinError)
    }

    fn is_low(&mut self) -> Result<bool, Self::Error> {
        Err(PinError)
    }
}

/// Reads the five pins in order and builds the snapshot.
fn sample<D0, D1, D2, D3, VT>(
    dev: &mut Rx480eWq<D0, D1, D2, D3, VT>,
) -> Result<Snapshot, D0::Error>
where
    D0: InputPin,
    D1: InputPin<Error = D0::Error>,
    D2: InputPin<Error = D0::Error>,
    D3: InputPin<Error = D0::Error>,
    VT: InputPin<Error = D0::Error>,
{
    let d0 = dev.d0.is_high()?;
    let d1 = dev.d1.is_high()?;
    let d2 = dev.d2.is_high()?;
    let d3 = dev.d3.is_high()?;
    let vt = dev.vt.is_high()?;
    Rx480eWq::<D0, D1, D2, D3, VT>::sample(Ok(d0), Ok(d1), Ok(d2), Ok(d3), Ok(vt))
}

/// Samples the pins and hands the sample to the receiver.
fn poll_change<D0, D1, D2, D3, VT>(
    dev: &mut Rx480eWq<D0, D1, D2, D3, VT>,
) -> Result<Option<Event>, D0::Error>
where
    D0: InputPin,
    D1: InputPin<Error = D0::Error>,
    D2: InputPin<Error = D0::Error>,
    D3: InputPin<Error = D0::Error>,
    VT: InputPin<Error = D0::Error>,
{
    let sampled = sample(dev);
    dev.poll_change(sampled)
}

#[test]
fn sample_reads_all_channels() {
    let mut dev = Rx480eWq::new(
        MockPin::new(true),
        MockPin::new(false),
        MockPin::new(true),
        MockPin::new(false),
        MockPin::new(true),
    );
    let s = sample(&mut dev).unwrap();
    assert_eq!(
        s,
        Snapshot {
            d0: true,
            d1: false,
            d2: true,
            d3: false,
            vt: true
        }
    );
}

#[test]
fn channel_helpers_return_stable_names_and_bits() {
    assert_eq!(Channel::D0.name(), "D0");
    assert_eq!(Channel::D1.name(), "D1");
    assert_eq!(Channel::D2.name(), "D2");
    assert_eq!(Channel::D3.name(), "D3");

    assert_eq!(Channel::D0.bit(), D0_BIT);
    assert_eq!(Channel::D1.bit(), D1_BIT);
    assert_eq!(Channel::D2.bit(), D2_BIT);
    assert_eq!(Channel::D3.bit(), D3_BIT);
}

#[test]
fn signal_helpers_return_stable_names_and_bits() {
    assert_eq!(Signal::D0.name(), "D0");
    assert_eq!(Signal::D1.name(), "D1");
    assert_eq!(Signal::D2.name(), "D2");
    assert_eq!(Signal::D3.name(), "D3");
    assert_eq!(Signal::VT.name(), "VT");

    assert_eq!(Signal::D0.bit(), D0_BIT);
    assert_eq!(Signal::D1.bit(), D1_BIT);
    assert_eq!(Signal::D2.bit(), D2_BIT);
    assert_eq!(Signal::D3.bit(), D3_BIT);
    assert_eq!(Signal::VT.bit(), VT_BIT);
}

#[test]
fn poll_change_emits_event_when_state_changes() {
    let mut dev = Rx480eWq::new(
        MockPin::new(false),
        MockPin::new(false),
        MockPin::new(false),
        MockPin::new(false),
        MockPin::new(false),
    );
    assert!(poll_change(&mut dev).unwrap().is_none());
    dev.d0.state.set(true);
    let evt = poll_change(&mut dev).unwrap().expect("event");
    assert!(!evt.previous.d0);
    assert!(evt.current.d0);
}

#[test]
fn snapshot_helpers_classify_channels() {
    let single = Snapshot {
        d0: false,
        d1: true,
        d2: false,
        d3: false,
        vt: true,
    };
    assert_eq!(single.channel_bits(), D1_BIT);
    assert!(single.any_channel_active());
    assert_eq!(single.bits(), D1_BIT | VT_BIT);
    assert!(single.is_valid_transmission());
    assert_eq!(single.active_channel(), Some(Channel::D1));
    assert_eq!(single.channel_state(), ChannelState::Single(Channel::D1));
    assert!(!single.vt_only());

    let vt_only = Snapshot {
        vt: true,
        ..Snapshot::default()
    };
    assert_eq!(vt_only.channel_state(), ChannelState::Inactive);
    assert!(!vt_only.any_channel_active());
    assert!(vt_only.vt_only());

    let multi = Snapshot {
        d0: true,
        d1: false,
        d2: true,
        d3: false,
        vt: true,
    };
    assert_eq!(multi.channel_bits(), D0_BIT | D2_BIT);
    assert_eq!(multi.active_channel(), None);
    assert_eq!(
        multi.channel_state(),
        ChannelState::Multiple(D0_BIT | D2_BIT)
    );
}

#[test]
fn event_helpers_report_changed_mask_and_edges() {
    let event = Event {
        previous: Snapshot::default(),
        current: Snapshot {
            d0: true,
            vt: true,
            ..Snapshot::default()
        },
    };

    assert_eq!(event.changed_mask(), D0_BIT | VT_BIT);
    assert_eq!(event.edge(Signal::D0), Some(Edge::Rising));
    assert_eq!(event.edge(Signal::VT), Some(Edge::Rising));
    assert!(event.vt_rising());
    assert!(!event.vt_falling());

    let falling = Event {
        previous: event.current,
        current: Snapshot::default(),
    };
    assert_eq!(falling.edge(Signal::D0), Some(Edge::Falling));
    assert_eq!(falling.edge(Signal::VT), Some(Edge::Falling));
    assert!(falling.vt_falling());
}

#[test]
fn poll_change_suppresses_repeated_same_state() {
    let mut dev = Rx480eWq::new(
        MockPin::new(false),
        MockPin::new(false),
        MockPin::new(false),
        MockPin::new(false),
        MockPin::new(false),
    );

    assert!(poll_change(&mut dev).unwrap().is_none());
    assert!(poll_change(&mut dev).unwrap().is_none());
}

#[test]
fn channel_state_from_channel_bits_detects_multi_channel() {
    assert_eq!(channel_state_from_channel_bits(0), ChannelState::Inactive);
    assert_eq!(
        channel_state_from_channel_bits(D3_BIT),
        ChannelState::Single(Channel::D3)
    );
    assert_eq!(
        channel_state_from_channel_bits(D0_BIT | D1_BIT),
        ChannelState::Multiple(D0_BIT | D1_BIT)
    );
    assert_eq!(channel_state_from_channel_bits(VT_BIT), ChannelState::Inactive);
}

#[test]
fn sample_propagates_pin_errors() {
    let mut dev = Rx480eWq::new(ErrorPin, ErrorPin, ErrorPin, ErrorPin, ErrorPin);
    assert_eq!(sample(&mut dev), Err(PinError));
}
