# rx480e_wq_driver

Verified helpers for the RX480-E-WQ / RX480E-4 receiver module's decoded
outputs: the active-high channel outputs `D0`-`D3` and the active-high
valid-transmission output `VT`.

- `src/signals.rs`: the outputs, their bits (`D0=1`, `D1=2`, `D2=4`, `D3=8`,
  `VT=16`) and names, and the classification of channel bits into no channel,
  one channel, or several.
- `src/snapshot.rs`: a sample of all five outputs, its packed bits, and the
  change (edges and changed mask) between two samples.
- `src/receiver.rs`: the receiver, which builds snapshots from pin readings
  and reports a change event whenever a sample differs from the previous one,
  starting from an all-low baseline.
- `src/press.rs`: a tracker that turns change events into key presses timed
  from `VT` rising to `VT` falling.
- `app/lib.rs`: reading the pins through `embedded-hal`, and the board reader
  loop that logs each press.

Every function in `src/` carries a contract proved by Verus; the `lemma_*`
proof functions state the library's laws.
