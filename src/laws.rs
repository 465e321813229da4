use vstd::prelude::*;
use crate::aggregate::{
    Mode,
    SampleView,
    Stamp,
    channel_emission,
    channels_emission,
    flush_emission,
    spread_upto,
    stamp_le,
    stamp_scaled,
};
use crate::demux::{absorb_all, absorb_step};

verus! {

/// Channel `k`'s values before a cycle: empty if it was not present yet.
pub open spec fn before_cycle<V>(chans: Seq<Seq<V>>, k: int) -> Seq<V> {
    if k < chans.len() {
        chans[k]
    } else {
        Seq::empty()
    }
}

/// The channels after the first `j` lines of a cycle each gave a number:
/// channel `k < j` has gained `values[k]`, the others are as they were.
pub open spec fn cycle_state<V>(chans: Seq<Seq<V>>, values: Seq<Option<V>>, j: nat) -> Seq<
    Seq<V>,
> {
    let n = if chans.len() > j {
        chans.len()
    } else {
        j
    };
    Seq::new(
        n,
        |k: int|
            if k < j {
                before_cycle(chans, k).push(values[k]->Some_0)
            } else {
                chans[k]
            },
    )
}

proof fn lemma_cycle_prefix<V>(
    chans: Seq<Seq<V>>,
    lines: Seq<Seq<u8>>,
    values: Seq<Option<V>>,
    j: nat,
)
    requires
        j <= lines.len() == values.len(),
        forall|k: int| 0 <= k < j ==> #[trigger] lines[k].len() > 0 && values[k] is Some,
    ensures
        absorb_all(chans, 0, lines.take(j as int), values.take(j as int)) == (
            cycle_state(chans, values, j),
            j,
            0nat,
        ),
    decreases j,
{
    if j == 0 {
        assert(cycle_state(chans, values, 0) == chans);
    } else {
        let i = (j - 1) as nat;
        lemma_cycle_prefix(chans, lines, values, i);
        let lj = lines.take(j as int);
        let vj = values.take(j as int);
        assert(lj.take(i as int) == lines.take(i as int));
        assert(vj.take(i as int) == values.take(i as int));
        assert(lj[i as int] == lines[i as int]);
        assert(vj[i as int] == values[i as int]);
        assert(lines[i as int].len() > 0 && values[i as int] is Some);
        let prev = cycle_state(chans, values, i);
        let v = values[i as int]->Some_0;
        let next = absorb_step(prev, i, lines[i as int], values[i as int]);
        if i < prev.len() {
            assert(next.0 == cycle_state(chans, values, j));
        } else {
            assert(next.0 == cycle_state(chans, values, j));
        }
    }
}

/// A well-formed cycle, read from the start of a cycle: `n` lines that all
/// hold numbers, then a blank line. Each of the channels `0..n` gains
/// exactly one value, the number of its line, in line order; any other
/// channel is untouched; no warning is given and the next cycle starts at
/// channel 0.
pub proof fn lemma_cycle_fills_each_channel_once<V>(
    chans: Seq<Seq<V>>,
    lines: Seq<Seq<u8>>,
    values: Seq<Option<V>>,
)
    requires
        lines.len() >= 1,
        values.len() == lines.len(),
        forall|k: int| 0 <= k < lines.len() - 1 ==> #[trigger] lines[k].len() > 0 && values[k] is Some,
        lines.last().len() == 0,
    ensures
        ({
            let n = lines.len() - 1;
            let r = absorb_all(chans, 0, lines, values);
            &&& r.1 == 0
            &&& r.2 == 0
            &&& r.0.len() == if chans.len() > n {
                chans.len() as int
            } else {
                n
            }
            &&& forall|k: int|
                0 <= k < n ==> #[trigger] r.0[k] == before_cycle(chans, k).push(values[k]->Some_0)
            &&& forall|k: int| n <= k < chans.len() ==> #[trigger] r.0[k] == chans[k]
        }),
{
    let n = (lines.len() - 1) as nat;
    lemma_cycle_prefix(chans, lines, values, n);
}

/// A non-blank line that is not a number leaves the channels and the
/// cursor as they were, and gives exactly one warning.
pub proof fn lemma_malformed_line_dropped<V>(chans: Seq<Seq<V>>, cursor: nat, line: Seq<u8>)
    requires
        line.len() > 0,
    ensures
        absorb_step(chans, cursor, line, None::<V>) == (chans, cursor, 1nat),
{
}

/// Mode `All` on a channel with `m >= 1` pending values: exactly `m` pairs
/// of a time and a value, the values in their order with none lost; the
/// times are non-decreasing, the first is the start of the window, and the
/// last is one slot short of its end `elapsed_ms + window_ms`.
pub proof fn lemma_all_spreads_every_value<V>(
    c: nat,
    vals: Seq<V>,
    elapsed_ms: u64,
    window_ms: u64,
)
    requires
        1 <= vals.len() <= usize::MAX,
    ensures
        ({
            let m = vals.len();
            let out = channel_emission(Mode::All, c, vals, elapsed_ms, window_ms);
            &&& out.len() == 2 * m
            &&& forall|k: int|
                0 <= k < m ==> out[2 * k] == SampleView::<V>::Time(
                    #[trigger] slot_stamp(elapsed_ms, window_ms, k, m),
                )
            &&& forall|k: int|
                0 <= k < m ==> #[trigger] out[2 * k + 1] == SampleView::Channel(c, vals[k])
            &&& forall|a: int, b: int|
                0 <= a <= b < m ==> stamp_le(
                    #[trigger] slot_stamp(elapsed_ms, window_ms, a, m),
                    #[trigger] slot_stamp(elapsed_ms, window_ms, b, m),
                )
            &&& stamp_scaled(slot_stamp(elapsed_ms, window_ms, 0, m)) == elapsed_ms * m
            &&& stamp_scaled(slot_stamp(elapsed_ms, window_ms, m - 1, m)) + window_ms == (
            elapsed_ms + window_ms) * m
        }),
{
    let m = vals.len();
    let e = elapsed_ms as int;
    let w = window_ms as int;
    let mm = m as int;
    lemma_spread_shape(c, vals, elapsed_ms, window_ms, m);
    assert forall|a: int, b: int| 0 <= a <= b < m implies stamp_le(
        #[trigger] slot_stamp(elapsed_ms, window_ms, a, m),
        #[trigger] slot_stamp(elapsed_ms, window_ms, b, m),
    ) by {
        assert(stamp_scaled(slot_stamp(elapsed_ms, window_ms, a, m)) == e * mm + w * a);
        assert(stamp_scaled(slot_stamp(elapsed_ms, window_ms, b, m)) == e * mm + w * b);
        assert((e * mm + w * a) * mm <= (e * mm + w * b) * mm) by (nonlinear_arith)
            requires
                0 <= a <= b,
                0 <= w,
                0 <= mm,
        ;
    }
    assert(stamp_scaled(slot_stamp(elapsed_ms, window_ms, 0, m)) == e * mm + w * 0);
    assert(w * 0 == 0);
    assert(stamp_scaled(slot_stamp(elapsed_ms, window_ms, mm - 1, m)) == e * mm + w * (mm - 1));
    assert(e * mm + w * (mm - 1) + w == (e + w) * mm) by (nonlinear_arith);
}

/// Slot `k` of `m` of the window of `window_ms` that starts at `elapsed_ms`.
pub open spec fn slot_stamp(elapsed_ms: u64, window_ms: u64, k: int, m: nat) -> Stamp {
    Stamp { elapsed_ms, window_ms, slot: k as usize, slots: m as usize }
}

proof fn lemma_spread_shape<V>(c: nat, vals: Seq<V>, elapsed_ms: u64, window_ms: u64, j: nat)
    requires
        j <= vals.len() <= usize::MAX,
    ensures
        ({
            let out = spread_upto(c, vals, elapsed_ms, window_ms, j);
            &&& out.len() == 2 * j
            &&& forall|k: int|
                0 <= k < j ==> #[trigger] out[2 * k] == SampleView::<V>::Time(
                    Stamp {
                        elapsed_ms,
                        window_ms,
                        slot: k as usize,
                        slots: vals.len() as usize,
                    },
                )
            &&& forall|k: int| 0 <= k < j ==> #[trigger] out[2 * k + 1] == SampleView::Channel(c, vals[k])
        }),
    decreases j,
{
    if j > 0 {
        lemma_spread_shape(c, vals, elapsed_ms, window_ms, (j - 1) as nat);
    }
}

/// Mode `Lost` on a channel with pending values keeps the last one only,
/// however many there are.
pub proof fn lemma_lost_keeps_last<V>(c: nat, vals: Seq<V>, elapsed_ms: u64, window_ms: u64)
    requires
        vals.len() >= 1,
    ensures
        channel_emission(Mode::Lost, c, vals, elapsed_ms, window_ms) == seq![
            SampleView::Channel(c, vals.last()),
        ],
{
}

/// Mode `Mean` on a channel with pending values gives one item, which
/// carries all of them, in order, to be averaged.
pub proof fn lemma_mean_carries_all_values<V>(c: nat, vals: Seq<V>, elapsed_ms: u64, window_ms: u64)
    requires
        vals.len() >= 1,
    ensures
        channel_emission(Mode::Mean, c, vals, elapsed_ms, window_ms) == seq![
            SampleView::Mean(c, vals),
        ],
{
}

/// The number of channel values in a stream.
pub open spec fn value_count<V>(s: Seq<SampleView<V>>) -> nat
    decreases s.len(),
{
    if s.len() == 0 {
        0
    } else {
        value_count(s.drop_last()) + match s.last() {
            SampleView::Channel(_, _) => 1nat,
            _ => 0nat,
        }
    }
}

/// The number of values pending over the first `n` channels.
pub open spec fn pending_count<V>(chans: Seq<Seq<V>>, n: nat) -> nat
    decreases n,
{
    if n == 0 {
        0
    } else {
        pending_count(chans, (n - 1) as nat) + chans[n - 1].len()
    }
}

proof fn lemma_value_count_concat<V>(a: Seq<SampleView<V>>, b: Seq<SampleView<V>>)
    ensures
        value_count(a + b) == value_count(a) + value_count(b),
    decreases b.len(),
{
    if b.len() > 0 {
        lemma_value_count_concat(a, b.drop_last());
        assert((a + b).drop_last() == a + b.drop_last());
    } else {
        assert(a + b == a);
    }
}

proof fn lemma_spread_count<V>(c: nat, vals: Seq<V>, elapsed_ms: u64, window_ms: u64, j: nat)
    ensures
        value_count(spread_upto(c, vals, elapsed_ms, window_ms, j)) == j,
    decreases j,
{
    if j > 0 {
        let prev = spread_upto(c, vals, elapsed_ms, window_ms, (j - 1) as nat);
        let all = spread_upto(c, vals, elapsed_ms, window_ms, j);
        lemma_spread_count(c, vals, elapsed_ms, window_ms, (j - 1) as nat);
        assert(all.drop_last().drop_last() == prev);
        assert(all.last() is Channel);
        assert(all.drop_last().last() is Time);
        assert(value_count(all.drop_last()) == value_count(prev));
        assert(value_count(all) == value_count(all.drop_last()) + 1);
    }
}

proof fn lemma_channels_count<V>(chans: Seq<Seq<V>>, elapsed_ms: u64, window_ms: u64, n: nat)
    requires
        n <= chans.len(),
    ensures
        value_count(channels_emission(Mode::All, chans, elapsed_ms, window_ms, n))
            == pending_count(chans, n),
    decreases n,
{
    if n > 0 {
        let i = (n - 1) as nat;
        lemma_channels_count(chans, elapsed_ms, window_ms, i);
        lemma_value_count_concat(
            channels_emission(Mode::All, chans, elapsed_ms, window_ms, i),
            channel_emission(Mode::All, i, chans[i as int], elapsed_ms, window_ms),
        );
        lemma_spread_count(i, chans[i as int], elapsed_ms, window_ms, chans[i as int].len());
    }
}

/// A flush under mode `All` emits exactly as many channel values as were
/// pending over all channels: none is lost.
pub proof fn lemma_all_loses_nothing<V>(chans: Seq<Seq<V>>, elapsed_ms: u64, window_ms: u64)
    ensures
        value_count(flush_emission(Mode::All, chans, elapsed_ms, window_ms)) == pending_count(
            chans,
            chans.len(),
        ),
{
    if chans.len() > 0 {
        lemma_channels_count(chans, elapsed_ms, window_ms, chans.len());
        let body = channels_emission(Mode::All, chans, elapsed_ms, window_ms, chans.len());
        assert(Seq::<SampleView<V>>::empty() + body == body);
    }
}

/// Lines only ever create a channel by giving it a value: after any run of
/// lines, every channel beyond those present before holds a value, and at
/// most one channel is added per line.
pub proof fn lemma_channels_appear_only_when_seen<V>(
    chans: Seq<Seq<V>>,
    cursor: nat,
    lines: Seq<Seq<u8>>,
    values: Seq<Option<V>>,
)
    requires
        cursor <= chans.len(),
        values.len() == lines.len(),
    ensures
        ({
            let r = absorb_all(chans, cursor, lines, values);
            &&& chans.len() <= r.0.len() <= chans.len() + lines.len()
            &&& r.1 <= r.0.len()
            &&& forall|k: int| 0 <= k < chans.len() ==> (#[trigger] r.0[k]).len() >= chans[k].len()
            &&& forall|k: int| chans.len() <= k < r.0.len() ==> (#[trigger] r.0[k]).len() >= 1
        }),
    decreases lines.len(),
{
    if lines.len() > 0 {
        let n = lines.len() - 1;
        lemma_channels_appear_only_when_seen(chans, cursor, lines.take(n), values.take(n));
    }
}

} // verus!
