use vstd::prelude::*;
use crate::frame::lines_view;

verus! {

/// What one complete line does to the demultiplexer state.
///
/// `channels` are the pending values of each channel seen so far and
/// `cursor` the channel that the next value goes to. A blank line ends the
/// cycle and sends the cursor back to channel 0. Any other line carries
/// `value`, the outcome of reading it as a number: a number is appended to
/// the cursor's channel (which is created if it is the next new one) and the
/// cursor moves on; a line that is not a number is dropped with one warning.
/// The result is the new channels, the new cursor, and the warnings given.
pub open spec fn absorb_step<V>(
    channels: Seq<Seq<V>>,
    cursor: nat,
    line: Seq<u8>,
    value: Option<V>,
) -> (Seq<Seq<V>>, nat, nat) {
    if line.len() == 0 {
        (channels, 0, 0)
    } else {
        match value {
            Some(v) => if cursor < channels.len() {
                (channels.update(cursor as int, channels[cursor as int].push(v)), cursor + 1, 0)
            } else {
                (channels.push(seq![v]), cursor + 1, 0)
            },
            None => (channels, cursor, 1),
        }
    }
}

/// The state after a run of lines, each with its numeric reading, taken in
/// order from `channels` and `cursor`; the last component counts the warnings.
pub open spec fn absorb_all<V>(
    channels: Seq<Seq<V>>,
    cursor: nat,
    lines: Seq<Seq<u8>>,
    values: Seq<Option<V>>,
) -> (Seq<Seq<V>>, nat, nat)
    decreases lines.len(),
{
    if lines.len() == 0 {
        (channels, cursor, 0)
    } else {
        let n = lines.len() - 1;
        let before = absorb_all(channels, cursor, lines.take(n), values.take(n));
        let after = absorb_step(before.0, before.1, lines[n], values[n]);
        (after.0, after.1, before.2 + after.2)
    }
}

/// Pending values per channel, and the position within the current cycle.
///
/// Channels are numbered densely from 0 by their position in a cycle; a
/// channel is present from the first value it receives on. The cursor is at
/// most the number of channels, so a new channel is always the next index.
pub struct PendingStore<V> {
    pub channels: Vec<Vec<V>>,
    pub cursor: usize,
}

impl<V: Copy> PendingStore<V> {
    /// The pending values of each channel.
    pub open spec fn pending(&self) -> Seq<Seq<V>> {
        self.channels@.map_values(|c: Vec<V>| c@)
    }

    pub open spec fn wf(&self) -> bool {
        self.cursor <= self.channels.len()
    }

    /// An empty store at the start of a cycle.
    pub fn new() -> (r: PendingStore<V>)
        ensures
            r.wf(),
            r.pending() == Seq::<Seq<V>>::empty(),
            r.cursor == 0,
    {
        let r = PendingStore { channels: Vec::new(), cursor: 0 };
        assert(r.pending() == Seq::<Seq<V>>::empty());
        r
    }

    /// Number of channels that have received a value.
    pub fn channel_count(&self) -> (r: usize)
        ensures
            r == self.pending().len(),
    {
        self.channels.len()
    }

    /// Takes one complete line and `value`, the outcome of reading it as a
    /// number (not looked at for a blank line). Returns whether the line was
    /// dropped with a warning.
    pub fn absorb_line(&mut self, line: &Vec<u8>, value: Option<V>) -> (warned: bool)
        requires
            old(self).wf(),
            old(self).channels.len() < usize::MAX,
        ensures
            final(self).wf(),
            final(self).channels.len() <= old(self).channels.len() + 1,
            (final(self).pending(), final(self).cursor as nat, if warned {
                1nat
            } else {
                0nat
            }) == absorb_step(old(self).pending(), old(self).cursor as nat, line@, value),
    {
        if line.len() == 0 {
            self.cursor = 0;
            return false;
        }
        match value {
            Some(v) => {
                let c = self.cursor;
                if c < self.channels.len() {
                    let mut slot: Vec<V> = Vec::new();
                    std::mem::swap(&mut slot, &mut self.channels[c]);
                    slot.push(v);
                    self.channels.set(c, slot);
                    proof {
                        assert(self.pending() == old(self).pending().update(
                            c as int,
                            old(self).pending()[c as int].push(v),
                        ));
                    }
                } else {
                    let mut fresh: Vec<V> = Vec::new();
                    fresh.push(v);
                    self.channels.push(fresh);
                    proof {
                        assert(fresh@ == seq![v]);
                        assert(self.pending() == old(self).pending().push(seq![v]));
                    }
                }
                self.cursor = c + 1;
                false
            },
            None => true,
        }
    }

    /// Takes a run of complete lines in order; `values[k]` is the outcome of
    /// reading `lines[k]` as a number. Returns the number of warnings.
    pub fn absorb_lines(&mut self, lines: &Vec<Vec<u8>>, values: &Vec<Option<V>>) -> (warnings:
        usize)
        requires
            old(self).wf(),
            lines.len() == values.len(),
            old(self).channels.len() + lines.len() < usize::MAX,
        ensures
            final(self).wf(),
            (final(self).pending(), final(self).cursor as nat, warnings as nat) == absorb_all(
                old(self).pending(),
                old(self).cursor as nat,
                lines_view(lines@),
                values@,
            ),
    {
        let mut warnings: usize = 0;
        let mut i: usize = 0;
        proof {
            assert(lines_view(lines@).take(0) == Seq::<Seq<u8>>::empty());
            assert(values@.take(0) == Seq::<Option<V>>::empty());
        }
        while i < lines.len()
            invariant
                self.wf(),
                i <= lines.len() == values.len(),
                warnings <= i,
                self.channels.len() <= old(self).channels.len() + i,
                old(self).channels.len() + lines.len() < usize::MAX,
                (self.pending(), self.cursor as nat, warnings as nat) == absorb_all(
                    old(self).pending(),
                    old(self).cursor as nat,
                    lines_view(lines@).take(i as int),
                    values@.take(i as int),
                ),
            decreases lines.len() - i,
        {
            let warned = self.absorb_line(&lines[i], values[i]);
            if warned {
                warnings = warnings + 1;
            }
            proof {
                let ls = lines_view(lines@).take(i + 1);
                let vs = values@.take(i + 1);
                assert(ls.take(i as int) == lines_view(lines@).take(i as int));
                assert(vs.take(i as int) == values@.take(i as int));
                assert(ls[i as int] == lines@[i as int]@);
            }
            i = i + 1;
        }
        proof {
            assert(lines_view(lines@).take(i as int) == lines_view(lines@));
            assert(values@.take(i as int) == values@);
        }
        warnings
    }
}

} // verus!
