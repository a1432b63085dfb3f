use rx480e_wq_driver::{
    channel_state_from_bits, channel_state_from_channel_bits, Channel, ChannelState, Edge, Event,
    Press, PressTracker, Rx480eWq, Signal, Snapshot, CHANNEL_MASK, D0_BIT, D1_BIT, D2_BIT, D3_BIT,
    VT_BIT,
};

const SIGNALS: [Signal; 5] = [Signal::D0, Signal::D1, Signal::D2, Signal::D3, Signal::VT];
const CHANNELS: [Channel; 4] = [Channel::D0, Channel::D1, Channel::D2, Channel::D3];

fn snapshot_of(value: u8) -> Snapshot {
    Snapshot {
        d0: value & 1 != 0,
        d1: value & 2 != 0,
        d2: value & 4 != 0,
        d3: value & 8 != 0,
        vt: value & 16 != 0,
    }
}

type Receiver = Rx480eWq<(), (), (), (), ()>;

fn receiver() -> Receiver {
    Rx480eWq::new((), (), (), (), ())
}

#[test]
fn classification_counts_only_channel_bits() {
    for bits in 0..=255u8 {
        let m = bits & CHANNEL_MASK;
        let expected = match m.count_ones() {
            0 => ChannelState::Inactive,
            1 => {
                let c = CHANNELS.iter().copied().find(|c| c.bit() == m).unwrap();
                ChannelState::Single(c)
            }
            _ => ChannelState::Multiple(m),
        };
        assert_eq!(channel_state_from_channel_bits(bits), expected);
        assert_eq!(channel_state_from_bits(bits), expected);
        assert_eq!(channel_state_from_channel_bits(bits | VT_BIT), expected);
    }
}

#[test]
fn bit_layout_is_one_bit_per_signal() {
    assert_eq!(D0_BIT | D1_BIT | D2_BIT | D3_BIT, CHANNEL_MASK);
    assert_eq!(CHANNEL_MASK & VT_BIT, 0);
    for (i, s) in SIGNALS.iter().enumerate() {
        assert_eq!(s.bit(), 1u8 << i);
        for (j, t) in SIGNALS.iter().enumerate() {
            if i != j {
                assert_eq!(s.bit() & t.bit(), 0);
            }
        }
    }
    assert_eq!(Channel::D2.bit(), Signal::D2.bit());
    assert_eq!(Channel::D3.name(), Signal::D3.name());
}

#[test]
fn packing_is_lossless_and_matches_levels() {
    for value in 0..32u8 {
        let s = snapshot_of(value);
        assert_eq!(s.bits(), value);
        assert_eq!(s.channel_bits(), value & CHANNEL_MASK);
        for sig in SIGNALS {
            assert_eq!(s.get_signal(sig), s.bits() & sig.bit() != 0);
        }
        assert_eq!(s.get(Channel::D1), s.d1);
        assert_eq!(s.any_channel_active(), s.channel_state() != ChannelState::Inactive);
        assert_eq!(s.vt_only(), s.vt && s.channel_state() == ChannelState::Inactive);
        assert_eq!(s.is_valid_transmission(), s.vt);
        match s.channel_state() {
            ChannelState::Single(c) => assert_eq!(s.active_channel(), Some(c)),
            _ => assert_eq!(s.active_channel(), None),
        }
    }
}

#[test]
fn changed_mask_agrees_with_edges() {
    for a in 0..32u8 {
        for b in 0..32u8 {
            let e = Event { previous: snapshot_of(a), current: snapshot_of(b) };
            assert_eq!(e.changed_mask(), a ^ b);
            assert_eq!(e.changed_mask() == 0, e.previous == e.current);
            for sig in SIGNALS {
                let expected = match (a & sig.bit() != 0, b & sig.bit() != 0) {
                    (false, true) => Some(Edge::Rising),
                    (true, false) => Some(Edge::Falling),
                    _ => None,
                };
                assert_eq!(e.edge(sig), expected);
                assert_eq!(e.edge(sig).is_some(), e.changed_mask() & sig.bit() != 0);
            }
            assert_eq!(e.vt_rising(), e.edge(Signal::VT) == Some(Edge::Rising));
            assert_eq!(e.vt_falling(), e.edge(Signal::VT) == Some(Edge::Falling));
        }
    }
}

#[test]
fn default_snapshot_is_all_low() {
    assert_eq!(Snapshot::default().bits(), 0);
}

#[test]
fn first_poll_reports_high_pins_as_rising() {
    let mut rx = receiver();
    let s = Snapshot { d2: true, vt: true, ..Snapshot::default() };
    let e = rx.poll_change::<()>(Ok(s)).unwrap().unwrap();
    assert_eq!(e.previous, Snapshot::default());
    assert_eq!(e.current, s);
    assert_eq!(e.edge(Signal::D2), Some(Edge::Rising));
    assert_eq!(e.edge(Signal::VT), Some(Edge::Rising));
    assert_eq!(e.edge(Signal::D0), None);
}

#[test]
fn poll_error_leaves_baseline() {
    let mut rx = receiver();
    let s = Snapshot { d1: true, ..Snapshot::default() };
    assert!(rx.poll_change::<u8>(Ok(s)).unwrap().is_some());
    assert_eq!(rx.poll_change::<u8>(Err(3)), Err(3));
    assert_eq!(rx.poll_change::<u8>(Ok(s)), Ok(None));
    let back = rx.poll_change::<u8>(Ok(Snapshot::default())).unwrap().unwrap();
    assert_eq!(back.previous, s);
    assert_eq!(back.edge(Signal::D1), Some(Edge::Falling));
}

#[test]
fn sample_returns_first_error_in_pin_order() {
    assert_eq!(Receiver::sample::<u8>(Ok(true), Err(1), Ok(false), Err(2), Err(3)), Err(1));
    assert_eq!(Receiver::sample::<u8>(Ok(true), Ok(true), Ok(false), Ok(true), Err(3)), Err(3));
    assert_eq!(
        Receiver::sample::<u8>(Ok(false), Ok(true), Ok(false), Ok(true), Ok(true)),
        Ok(Snapshot { d0: false, d1: true, d2: false, d3: true, vt: true })
    );
}

fn event(a: Snapshot, b: Snapshot) -> Event {
    Event { previous: a, current: b }
}

#[test]
fn press_is_timed_from_vt_rise_to_vt_fall() {
    let mut t = PressTracker::new();
    let idle = Snapshot::default();
    let key = Snapshot { d1: true, vt: true, ..idle };
    t.advance(100);
    assert_eq!(t.on_event(&event(idle, key)), None);
    t.advance(25);
    t.advance(5);
    assert_eq!(t.now_ms(), 130);
    assert_eq!(
        t.on_event(&event(key, idle)),
        Some(Press { channels: ChannelState::Single(Channel::D1), pulse_ms: 30 })
    );
}

#[test]
fn press_collects_channels_seen_while_vt_high() {
    let mut t = PressTracker::new();
    let idle = Snapshot::default();
    let first = Snapshot { d0: true, vt: true, ..idle };
    let second = Snapshot { d2: true, vt: true, ..idle };
    let after = Snapshot { d2: true, ..idle };
    assert_eq!(t.on_event(&event(idle, first)), None);
    t.advance(10);
    assert_eq!(t.on_event(&event(first, second)), None);
    t.advance(10);
    assert_eq!(
        t.on_event(&event(second, after)),
        Some(Press { channels: ChannelState::Multiple(D0_BIT | D2_BIT), pulse_ms: 20 })
    );
    // The next press starts afresh.
    let vt_only = Snapshot { vt: true, ..idle };
    assert_eq!(t.on_event(&event(after, vt_only)), None);
    assert_eq!(
        t.on_event(&event(vt_only, idle)),
        Some(Press { channels: ChannelState::Inactive, pulse_ms: 0 })
    );
}

#[test]
fn press_timing_wraps_around_the_clock() {
    let mut t = PressTracker::new();
    t.advance(u32::MAX - 4);
    let idle = Snapshot::default();
    let key = Snapshot { d3: true, vt: true, ..idle };
    assert_eq!(t.on_event(&event(idle, key)), None);
    t.advance(10);
    assert_eq!(t.now_ms(), 5);
    assert_eq!(
        t.on_event(&event(key, idle)),
        Some(Press { channels: ChannelState::Single(Channel::D3), pulse_ms: 10 })
    );
}

#[test]
fn channel_changes_without_vt_report_nothing() {
    let mut t = PressTracker::new();
    let idle = Snapshot::default();
    let noise = Snapshot { d0: true, ..idle };
    assert_eq!(t.on_event(&event(idle, noise)), None);
    assert_eq!(t.on_event(&event(noise, idle)), None);
    let key = Snapshot { d1: true, vt: true, ..idle };
    assert_eq!(t.on_event(&event(idle, key)), None);
    assert_eq!(
        t.on_event(&event(key, idle)),
        Some(Press { channels: ChannelState::Single(Channel::D1), pulse_ms: 0 })
    );
}

#[test]
fn events_chain_across_quiet_and_failed_polls() {
    let mut rx = receiver();
    let a = Snapshot { d0: true, vt: true, ..Snapshot::default() };
    let b = Snapshot { d1: true, vt: true, ..Snapshot::default() };
    let first = rx.poll_change::<u8>(Ok(a)).unwrap().unwrap();
    assert_eq!(rx.poll_change::<u8>(Ok(a)), Ok(None));
    assert_eq!(rx.poll_change::<u8>(Err(9)), Err(9));
    assert_eq!(rx.poll_change::<u8>(Ok(a)), Ok(None));
    let second = rx.poll_change::<u8>(Ok(b)).unwrap().unwrap();
    assert_eq!(second.previous, first.current);
    assert_ne!(second.previous, second.current);
}
