use vstd::prelude::*;
use crate::demux::PendingStore;

verus! {

/// How a channel's pending values become samples at a flush.
#[derive(Clone, Copy, PartialEq, Eq, Structural, Debug)]
pub enum Mode {
    /// Every value, each with its own time, spread evenly over the window.
    All,
    /// The last value only, at the time of the flush.
    Lost,
    /// The mean of the values, at the time of the flush.
    Mean,
}

/// A point in time, in milliseconds since the session started:
/// `elapsed_ms + window_ms * slot / slots`. Slot `slot` of `slots` equal
/// parts of a window that starts `elapsed_ms` after the start.
#[derive(Clone, Copy, PartialEq, Eq, Structural, Debug)]
pub struct Stamp {
    pub elapsed_ms: u64,
    pub window_ms: u64,
    pub slot: usize,
    pub slots: usize,
}

/// One item of the outgoing stream. A `Time` gives the time of the channel
/// values that follow it, up to the next `Time`.
#[derive(Debug)]
pub enum Sample<V> {
    Time(Stamp),
    /// A value of the channel with this index.
    Channel(usize, V),
    /// The channel with this index takes the arithmetic mean of these values.
    Mean(usize, Vec<V>),
}

/// What a `Sample` says, with the values of a `Mean` as a sequence.
pub ghost enum SampleView<V> {
    Time(Stamp),
    Channel(nat, V),
    Mean(nat, Seq<V>),
}

pub open spec fn sample_view<V>(s: Sample<V>) -> SampleView<V> {
    match s {
        Sample::Time(t) => SampleView::Time(t),
        Sample::Channel(c, v) => SampleView::Channel(c as nat, v),
        Sample::Mean(c, vs) => SampleView::Mean(c as nat, vs@),
    }
}

pub open spec fn samples_view<V>(s: Seq<Sample<V>>) -> Seq<SampleView<V>> {
    s.map_values(|x: Sample<V>| sample_view(x))
}

/// The time of a stamp in milliseconds, times its number of slots.
pub open spec fn stamp_scaled(t: Stamp) -> int {
    t.elapsed_ms * t.slots + t.window_ms * t.slot
}

/// `a` is no later than `b`.
pub open spec fn stamp_le(a: Stamp, b: Stamp) -> bool {
    stamp_scaled(a) * b.slots <= stamp_scaled(b) * a.slots
}

/// The instant `elapsed_ms` itself.
pub open spec fn instant(elapsed_ms: u64) -> Stamp {
    Stamp { elapsed_ms, window_ms: 0, slot: 0, slots: 1 }
}

/// The first `j` pairs of time and value that mode `All` gives for channel
/// `c` with pending `vals`: value `k` at slot `k` of `vals.len()` of the
/// window that starts at `elapsed_ms`.
pub open spec fn spread_upto<V>(
    c: nat,
    vals: Seq<V>,
    elapsed_ms: u64,
    window_ms: u64,
    j: nat,
) -> Seq<SampleView<V>>
    decreases j,
{
    if j == 0 {
        Seq::empty()
    } else {
        spread_upto(c, vals, elapsed_ms, window_ms, (j - 1) as nat) + seq![
            SampleView::Time(
                Stamp {
                    elapsed_ms,
                    window_ms,
                    slot: (j - 1) as usize,
                    slots: vals.len() as usize,
                },
            ),
            SampleView::Channel(c, vals[j - 1]),
        ]
    }
}

/// What a flush emits for channel `c` with pending `vals`, after the
/// shared `Time` of modes `Lost` and `Mean`. A channel with nothing pending
/// emits nothing.
pub open spec fn channel_emission<V>(
    mode: Mode,
    c: nat,
    vals: Seq<V>,
    elapsed_ms: u64,
    window_ms: u64,
) -> Seq<SampleView<V>> {
    if vals.len() == 0 {
        Seq::empty()
    } else {
        match mode {
            Mode::All => spread_upto(c, vals, elapsed_ms, window_ms, vals.len()),
            Mode::Lost => seq![SampleView::Channel(c, vals.last())],
            Mode::Mean => seq![SampleView::Mean(c, vals)],
        }
    }
}

/// The emissions of the first `n` channels, in channel order.
pub open spec fn channels_emission<V>(
    mode: Mode,
    chans: Seq<Seq<V>>,
    elapsed_ms: u64,
    window_ms: u64,
    n: nat,
) -> Seq<SampleView<V>>
    decreases n,
{
    if n == 0 {
        Seq::empty()
    } else {
        channels_emission(mode, chans, elapsed_ms, window_ms, (n - 1) as nat) + channel_emission(
            mode,
            (n - 1) as nat,
            chans[n - 1],
            elapsed_ms,
            window_ms,
        )
    }
}

/// Everything a flush of `chans` emits: nothing while no channel exists;
/// else, for modes `Lost` and `Mean`, one `Time` of the flush instant, then
/// each channel's emission in channel order.
pub open spec fn flush_emission<V>(
    mode: Mode,
    chans: Seq<Seq<V>>,
    elapsed_ms: u64,
    window_ms: u64,
) -> Seq<SampleView<V>> {
    if chans.len() == 0 {
        Seq::empty()
    } else {
        let head = if mode == Mode::All {
            Seq::empty()
        } else {
            seq![SampleView::Time(instant(elapsed_ms))]
        };
        head + channels_emission(mode, chans, elapsed_ms, window_ms, chans.len())
    }
}

/// Appends `s` to `out`.
fn emit<V>(out: &mut Vec<Sample<V>>, s: Sample<V>)
    ensures
        samples_view(final(out)@) == samples_view(old(out)@).push(sample_view(s)),
{
    out.push(s);
    assert(samples_view(out@) == samples_view(old(out)@).push(sample_view(s)));
}

/// Appends to `out` what a flush emits for channel `c` with pending `vals`.
fn emit_channel<V: Copy>(
    out: &mut Vec<Sample<V>>,
    mode: Mode,
    c: usize,
    vals: Vec<V>,
    elapsed_ms: u64,
    window_ms: u64,
)
    ensures
        samples_view(final(out)@) == samples_view(old(out)@) + channel_emission(
            mode,
            c as nat,
            vals@,
            elapsed_ms,
            window_ms,
        ),
{
    let m = vals.len();
    if m == 0 {
        assert(samples_view(out@) == samples_view(old(out)@) + Seq::<SampleView<V>>::empty());
        return;
    }
    match mode {
        Mode::All => {
            let mut j: usize = 0;
            while j < m
                invariant
                    j <= m == vals.len(),
                    samples_view(out@) == samples_view(old(out)@) + spread_upto(
                        c as nat,
                        vals@,
                        elapsed_ms,
                        window_ms,
                        j as nat,
                    ),
                decreases m - j,
            {
                let t = Stamp { elapsed_ms, window_ms, slot: j, slots: m };
                emit(out, Sample::Time(t));
                emit(out, Sample::Channel(c, vals[j]));
                j = j + 1;
            }
        },
        Mode::Lost => {
            emit(out, Sample::Channel(c, vals[m - 1]));
        },
        Mode::Mean => {
            emit(out, Sample::Mean(c, vals));
        },
    }
}

impl<V: Copy> PendingStore<V> {
    /// Empties channel `c`, which stays present, and returns what it held.
    fn take_channel(&mut self, c: usize) -> (vals: Vec<V>)
        requires
            c < old(self).channels.len(),
        ensures
            vals@ == old(self).pending()[c as int],
            final(self).pending() == old(self).pending().update(c as int, Seq::empty()),
            final(self).cursor == old(self).cursor,
            final(self).channels.len() == old(self).channels.len(),
    {
        let mut vals: Vec<V> = Vec::new();
        std::mem::swap(&mut vals, &mut self.channels[c]);
        proof {
            assert(self.pending() == old(self).pending().update(c as int, Seq::empty()));
        }
        vals
    }

    /// Flushes every channel under `mode`, at `elapsed_ms` after the start
    /// of the session, with a window of `window_ms`. Each channel is left
    /// present and empty; no channel is added.
    pub fn flush(&mut self, mode: Mode, elapsed_ms: u64, window_ms: u64) -> (out: Vec<
        Sample<V>,
    >)
        requires
            old(self).wf(),
        ensures
            final(self).wf(),
            final(self).cursor == old(self).cursor,
            final(self).pending().len() == old(self).pending().len(),
            forall|k: int|
                0 <= k < final(self).pending().len() ==> #[trigger] final(self).pending()[k].len()
                    == 0,
            samples_view(out@) == flush_emission(mode, old(self).pending(), elapsed_ms, window_ms),
    {
        let mut out: Vec<Sample<V>> = Vec::new();
        let n = self.channels.len();
        if n == 0 {
            assert(samples_view(out@) == Seq::<SampleView<V>>::empty());
            return out;
        }
        if mode != Mode::All {
            emit(&mut out, Sample::Time(Stamp { elapsed_ms, window_ms: 0, slot: 0, slots: 1 }));
        }
        let ghost head = samples_view(out@);
        let mut c: usize = 0;
        while c < n
            invariant
                c <= n == self.channels.len() == old(self).channels.len(),
                self.cursor == old(self).cursor,
                self.pending().len() == old(self).pending().len(),
                forall|k: int| 0 <= k < c ==> #[trigger] self.pending()[k].len() == 0,
                forall|k: int|
                    c <= k < n ==> #[trigger] self.pending()[k] == old(self).pending()[k],
                samples_view(out@) == head + channels_emission(
                    mode,
                    old(self).pending(),
                    elapsed_ms,
                    window_ms,
                    c as nat,
                ),
            decreases n - c,
        {
            let vals = self.take_channel(c);
            emit_channel(&mut out, mode, c, vals, elapsed_ms, window_ms);
            c = c + 1;
        }
        out
    }
}

} // verus!
