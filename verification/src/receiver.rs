use vstd::prelude::*;

use crate::signals::Signal;
use crate::snapshot::{Snapshot, Event, edge_between, bit_value, lemma_value_bits};

verus! {

/// What polling reports when `current` is sampled and `last` was the
/// previous sample: nothing when they are equal, else the change from `last`
/// to `current`.
pub open spec fn poll_outcome(last: Snapshot, current: Snapshot) -> Option<Event> {
    if current == last {
        None
    } else {
        Some(Event { previous: last, current })
    }
}

/// One poll on a receiver whose baseline is `baseline`: the new baseline
/// and what the poll returns. A sample becomes the new baseline, and the
/// change to it, if any, is reported; a failed sample is passed on and keeps
/// the baseline.
pub open spec fn poll_step<E>(baseline: Snapshot, sampled: Result<Snapshot, E>) -> (
    Snapshot,
    Result<Option<Event>, E>,
) {
    match sampled {
        Ok(current) => (current, Ok(poll_outcome(baseline, current))),
        Err(e) => (baseline, Err(e)),
    }
}

/// The baseline after polling each of `samples` in turn, from `start`.
pub open spec fn baseline_after<E>(start: Snapshot, samples: Seq<Result<Snapshot, E>>) -> Snapshot
    decreases samples.len(),
{
    if samples.len() == 0 {
        start
    } else {
        poll_step(baseline_after(start, samples.drop_last()), samples.last()).0
    }
}

/// What the poll of `samples[i]` returns when `samples` are polled in turn
/// from the baseline `start`.
pub open spec fn poll_result<E>(start: Snapshot, samples: Seq<Result<Snapshot, E>>, i: int) -> Result<
    Option<Event>,
    E,
> {
    poll_step(baseline_after(start, samples.take(i)), samples[i]).1
}

/// Whether a poll reported an event.
pub open spec fn reported<E>(r: Result<Option<Event>, E>) -> bool {
    r matches Ok(Some(_))
}

/// The event that a poll reported.
pub open spec fn reported_event<E>(r: Result<Option<Event>, E>) -> Event
    recommends
        reported(r),
{
    r->Ok_0->Some_0
}

/// The reading taken from signal `s`'s own pin.
pub open spec fn reading_of<E>(
    s: Signal,
    d0: Result<bool, E>,
    d1: Result<bool, E>,
    d2: Result<bool, E>,
    d3: Result<bool, E>,
    vt: Result<bool, E>,
) -> Result<bool, E> {
    match s {
        Signal::D0 => d0,
        Signal::D1 => d1,
        Signal::D2 => d2,
        Signal::D3 => d3,
        Signal::VT => vt,
    }
}

/// Whether signal `s`'s reading failed while every signal read before it
/// (in the order `D0`, `D1`, `D2`, `D3`, `VT`) succeeded.
pub open spec fn first_failure<E>(
    s: Signal,
    d0: Result<bool, E>,
    d1: Result<bool, E>,
    d2: Result<bool, E>,
    d3: Result<bool, E>,
    vt: Result<bool, E>,
) -> bool {
    &&& reading_of(s, d0, d1, d2, d3, vt) is Err
    &&& forall|t: Signal|
        t.position() < s.position() ==> (#[trigger] reading_of(t, d0, d1, d2, d3, vt)) is Ok
}

/// The snapshot of five pin readings taken in the order `D0`, `D1`, `D2`,
/// `D3`, `VT`: the first failed reading's error, or the levels when every
/// reading succeeded.
pub open spec fn sample_outcome<E>(
    d0: Result<bool, E>,
    d1: Result<bool, E>,
    d2: Result<bool, E>,
    d3: Result<bool, E>,
    vt: Result<bool, E>,
) -> Result<Snapshot, E> {
    match (d0, d1, d2, d3, vt) {
        (Err(e), _, _, _, _) => Err(e),
        (Ok(_), Err(e), _, _, _) => Err(e),
        (Ok(_), Ok(_), Err(e), _, _) => Err(e),
        (Ok(_), Ok(_), Ok(_), Err(e), _) => Err(e),
        (Ok(_), Ok(_), Ok(_), Ok(_), Err(e)) => Err(e),
        (Ok(a), Ok(b), Ok(c), Ok(d), Ok(v)) => Ok(Snapshot { d0: a, d1: b, d2: c, d3: d, vt: v }),
    }
}

/// An RX480-E-WQ receiver: its five output pins and the last snapshot that
/// was taken of them. The pins are read by the caller (they are hardware
/// inputs); the receiver turns the readings into snapshots and change events.
pub struct Rx480eWq<D0, D1, D2, D3, VT> {
    pub d0: D0,
    pub d1: D1,
    pub d2: D2,
    pub d3: D3,
    pub vt: VT,
    last: Snapshot,
}

impl<D0, D1, D2, D3, VT> Rx480eWq<D0, D1, D2, D3, VT> {
    /// The snapshot that the next poll compares against.
    pub closed spec fn baseline(&self) -> Snapshot {
        self.last
    }

    /// The five pins, in the order `D0`, `D1`, `D2`, `D3`, `VT`.
    pub closed spec fn pins(&self) -> (D0, D1, D2, D3, VT) {
        (self.d0, self.d1, self.d2, self.d3, self.vt)
    }

    /// A receiver on the given pins, whose baseline is all outputs low.
    pub fn new(d0: D0, d1: D1, d2: D2, d3: D3, vt: VT) -> (r: Self)
        ensures
            r.pins() == (d0, d1, d2, d3, vt),
            r.baseline() == Snapshot::all_low(),
    {
        Rx480eWq { d0, d1, d2, d3, vt, last: Snapshot::default() }
    }

    /// Builds a snapshot from the readings of `D0`, `D1`, `D2`, `D3` and `VT`,
    /// in that order; the first failed reading's error is returned.
    pub fn sample<E>(
        d0: Result<bool, E>,
        d1: Result<bool, E>,
        d2: Result<bool, E>,
        d3: Result<bool, E>,
        vt: Result<bool, E>,
    ) -> (r: Result<Snapshot, E>)
        ensures
            r == sample_outcome(d0, d1, d2, d3, vt),
            (d0 is Ok && d1 is Ok && d2 is Ok && d3 is Ok && vt is Ok) ==> {
                &&& r is Ok
                &&& forall|s: Signal|
                    #[trigger] r->Ok_0.level(s) == reading_of(s, d0, d1, d2, d3, vt)->Ok_0
                &&& r->Ok_0.value() == bit_value(d0->Ok_0) + 2 * bit_value(d1->Ok_0) + 4
                    * bit_value(d2->Ok_0) + 8 * bit_value(d3->Ok_0) + 16 * bit_value(vt->Ok_0)
            },
            forall|s: Signal|
                #![trigger reading_of(s, d0, d1, d2, d3, vt)]
                first_failure(s, d0, d1, d2, d3, vt) ==> r == Err::<Snapshot, E>(
                    reading_of(s, d0, d1, d2, d3, vt)->Err_0,
                ),
    {
        proof { lemma_sample_outcome_reads_pins(d0, d1, d2, d3, vt); }
        Ok(Snapshot { d0: d0?, d1: d1?, d2: d2?, d3: d3?, vt: vt? })
    }

    /// Takes a new sample and returns an event when it differs from the
    /// previous one; the new sample becomes the baseline. A failed sample is
    /// passed on and leaves the receiver as it was.
    pub fn poll_change<E>(&mut self, sampled: Result<Snapshot, E>) -> (r: Result<Option<Event>, E>)
        ensures
            final(self).pins() == old(self).pins(),
            (final(self).baseline(), r) == poll_step(old(self).baseline(), sampled),
    {
        let current = sampled?;
        if current == self.last {
            return Ok(None);
        }
        let previous = self.last;
        self.last = current;
        Ok(Some(Event { previous, current }))
    }
}

/// Sampling reads each signal from its own pin: when all five readings
/// succeed, every signal's level in the snapshot is its own pin's reading and
/// the packed bits are those readings in the bit layout; when a reading fails,
/// the error of the first failing pin in the order `D0`, `D1`, `D2`, `D3`, `VT`
/// is returned, and the sample fails exactly when some reading fails.
pub proof fn lemma_sample_outcome_reads_pins<E>(
    d0: Result<bool, E>,
    d1: Result<bool, E>,
    d2: Result<bool, E>,
    d3: Result<bool, E>,
    vt: Result<bool, E>,
)
    ensures
        (sample_outcome(d0, d1, d2, d3, vt) is Ok) == (d0 is Ok && d1 is Ok && d2 is Ok && d3 is Ok
            && vt is Ok),
        sample_outcome(d0, d1, d2, d3, vt) is Ok ==> {
            &&& forall|s: Signal|
                #[trigger] sample_outcome(d0, d1, d2, d3, vt)->Ok_0.level(s) == reading_of(
                    s,
                    d0,
                    d1,
                    d2,
                    d3,
                    vt,
                )->Ok_0
            &&& sample_outcome(d0, d1, d2, d3, vt)->Ok_0.value() == bit_value(d0->Ok_0) + 2
                * bit_value(d1->Ok_0) + 4 * bit_value(d2->Ok_0) + 8 * bit_value(d3->Ok_0) + 16
                * bit_value(vt->Ok_0)
        },
        forall|s: Signal|
            #![trigger reading_of(s, d0, d1, d2, d3, vt)]
            first_failure(s, d0, d1, d2, d3, vt) ==> sample_outcome(d0, d1, d2, d3, vt) == Err::<
                Snapshot,
                E,
            >(reading_of(s, d0, d1, d2, d3, vt)->Err_0),
{
    let r = sample_outcome(d0, d1, d2, d3, vt);
    if r is Ok {
        let snap = r->Ok_0;
        lemma_value_bits(snap);
        assert forall|s: Signal| #[trigger] snap.level(s) == reading_of(s, d0, d1, d2, d3, vt)->Ok_0 by {
            match s {
                Signal::D0 => {},
                Signal::D1 => {},
                Signal::D2 => {},
                Signal::D3 => {},
                Signal::VT => {},
            }
        }
    }
    assert forall|s: Signal|
        #![trigger reading_of(s, d0, d1, d2, d3, vt)]
        first_failure(s, d0, d1, d2, d3, vt) implies r == Err::<Snapshot, E>(
            reading_of(s, d0, d1, d2, d3, vt)->Err_0,
        ) by {
        assert(reading_of(Signal::D0, d0, d1, d2, d3, vt) == d0);
        assert(reading_of(Signal::D1, d0, d1, d2, d3, vt) == d1);
        assert(reading_of(Signal::D2, d0, d1, d2, d3, vt) == d2);
        assert(reading_of(Signal::D3, d0, d1, d2, d3, vt) == d3);
        match s {
            Signal::D0 => {},
            Signal::D1 => {},
            Signal::D2 => {},
            Signal::D3 => {},
            Signal::VT => {},
        }
    }
}

/// One more poll on a run: the baseline after `samples[..k + 1]` is that of
/// the poll of `samples[k]` from the baseline after `samples[..k]`.
proof fn lemma_baseline_step<E>(start: Snapshot, samples: Seq<Result<Snapshot, E>>, k: int)
    requires
        0 <= k < samples.len(),
    ensures
        baseline_after(start, samples.take(k + 1)) == poll_step(
            baseline_after(start, samples.take(k)),
            samples[k],
        ).0,
{
    assert(samples.take(k + 1).drop_last() =~= samples.take(k));
    assert(samples.take(k + 1).last() == samples[k]);
}

/// After a poll that reported `e`, the baseline is `e.current` until the next
/// poll that reports an event: polls in between that report nothing or fail
/// keep it.
proof fn lemma_baseline_holds<E>(
    start: Snapshot,
    samples: Seq<Result<Snapshot, E>>,
    i: int,
    k: int,
)
    requires
        0 <= i < k <= samples.len(),
        reported(poll_result(start, samples, i)),
        forall|m: int| i < m < k ==> !reported(#[trigger] poll_result(start, samples, m)),
    ensures
        baseline_after(start, samples.take(k)) == reported_event(
            poll_result(start, samples, i),
        ).current,
    decreases k - i,
{
    if k == i + 1 {
        lemma_baseline_step(start, samples, i);
    } else {
        lemma_baseline_holds(start, samples, i, k - 1);
        lemma_baseline_step(start, samples, k - 1);
        assert(!reported(poll_result(start, samples, k - 1)));
    }
}

/// Events chain: over any run of polls, each reported event starts from the
/// snapshot that the previous reported event ended in, however many polls in
/// between reported nothing or failed; and it is a real change.
pub proof fn lemma_events_chain<E>(start: Snapshot, samples: Seq<Result<Snapshot, E>>, i: int, j: int)
    requires
        0 <= i < j < samples.len(),
        reported(poll_result(start, samples, i)),
        reported(poll_result(start, samples, j)),
        forall|m: int| i < m < j ==> !reported(#[trigger] poll_result(start, samples, m)),
    ensures
        reported_event(poll_result(start, samples, j)).previous == reported_event(
            poll_result(start, samples, i),
        ).current,
        reported_event(poll_result(start, samples, j)).previous != reported_event(
            poll_result(start, samples, j),
        ).current,
{
    lemma_baseline_holds(start, samples, i, j);
}

/// The first event of a run starts from the starting baseline: polls before
/// it that reported nothing or failed keep that baseline.
pub proof fn lemma_first_event_starts_at_baseline<E>(
    start: Snapshot,
    samples: Seq<Result<Snapshot, E>>,
    j: int,
)
    requires
        0 <= j < samples.len(),
        reported(poll_result(start, samples, j)),
        forall|m: int| 0 <= m < j ==> !reported(#[trigger] poll_result(start, samples, m)),
    ensures
        reported_event(poll_result(start, samples, j)).previous == start,
{
    lemma_start_holds(start, samples, j);
}

/// Polls that report nothing or fail keep the starting baseline.
proof fn lemma_start_holds<E>(start: Snapshot, samples: Seq<Result<Snapshot, E>>, k: int)
    requires
        0 <= k <= samples.len(),
        forall|m: int| 0 <= m < k ==> !reported(#[trigger] poll_result(start, samples, m)),
    ensures
        baseline_after(start, samples.take(k)) == start,
    decreases k,
{
    if k == 0 {
        assert(samples.take(0) =~= Seq::<Result<Snapshot, E>>::empty());
    } else {
        lemma_start_holds(start, samples, k - 1);
        lemma_baseline_step(start, samples, k - 1);
        assert(!reported(poll_result(start, samples, k - 1)));
    }
}

/// Polling reports every change and only changes: an event is reported
/// exactly when the sample differs from the baseline, and it runs from the
/// baseline to the sample.
pub proof fn lemma_poll_reports_changes(last: Snapshot, current: Snapshot)
    ensures
        (poll_outcome(last, current) is None) == (current == last),
        poll_outcome(last, current) matches Some(e) ==> e.previous == last && e.current == current
            && e.previous != e.current,
{
}

/// Polling twice on an unchanged input: once a sample has become the
/// baseline, polling the same sample again reports nothing.
pub proof fn lemma_repeated_poll_is_quiet(current: Snapshot)
    ensures
        poll_outcome(current, current) is None,
{
}

/// The baseline starts all low, so on the first poll every output that is
/// already high shows a rising edge, and no output shows a falling edge.
pub proof fn lemma_first_poll_rises(current: Snapshot)
    ensures
        (poll_outcome(Snapshot::all_low(), current) is None) == (current == Snapshot::all_low()),
        poll_outcome(Snapshot::all_low(), current) matches Some(e) ==> forall|s: Signal|
            #[trigger] edge_between(e.previous.level(s), e.current.level(s)) == (if current.level(s) {
                Some(crate::signals::Edge::Rising)
            } else {
                None
            }),
{
}

} // verus!
