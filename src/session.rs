use vstd::prelude::*;
use vstd::utf8::valid_utf8;
use crate::aggregate::{Mode, Sample, samples_view, flush_emission};
use crate::demux::{PendingStore, absorb_all};
use crate::frame::{FrameDecoder, DecodeError, lines_view, segments, without_nul};

verus! {

/// A report from a session to its consumer. `MalformedLine` is a warning;
/// the others are fatal and end the session.
#[derive(Clone, Copy, PartialEq, Eq, Structural, Debug)]
pub enum Diagnostic {
    /// A line that should hold a number does not; it is dropped.
    MalformedLine,
    /// The serial port could not be opened.
    PortOpenFailed,
    /// The number of bytes waiting on the port could not be read.
    NoSignal,
    /// A chunk of input is not valid text.
    UndecodableData,
}

pub open spec fn fatal(d: Diagnostic) -> bool {
    d != Diagnostic::MalformedLine
}

impl Diagnostic {
    /// Whether the diagnostic ends the session.
    pub fn is_fatal(&self) -> (r: bool)
        ensures
            r == fatal(*self),
    {
        !matches!(self, Diagnostic::MalformedLine)
    }

    /// The text shown to the user; only a warning's text holds "Warning".
    pub fn message(&self) -> (r: &'static str)
        ensures
            r@ == match *self {
                Diagnostic::MalformedLine => "Warning! Incorrect received data"@,
                Diagnostic::PortOpenFailed => "Failed to open port"@,
                Diagnostic::NoSignal => "No signal"@,
                Diagnostic::UndecodableData => "Incorrect received data"@,
            },
    {
        match self {
            Diagnostic::MalformedLine => "Warning! Incorrect received data",
            Diagnostic::PortOpenFailed => "Failed to open port",
            Diagnostic::NoSignal => "No signal",
            Diagnostic::UndecodableData => "Incorrect received data",
        }
    }
}

/// Where a session stands. `Stopped` and `Failed` are final.
#[derive(Clone, Copy, PartialEq, Eq, Structural, Debug)]
pub enum Phase {
    Idle,
    Running,
    Stopped,
    Failed,
}

/// What one poll pass produced: the warnings for dropped lines, and the
/// samples of the flush.
pub struct PassOutput<V> {
    pub warnings: usize,
    pub samples: Vec<Sample<V>>,
}

/// The decisions of one read session over a byte source.
///
/// The driver performs the I/O and reports each outcome to the matching
/// method, which updates the state and says what to do next:
/// - `on_open` with whether the port opened; then, on success, wait for
///   the device to settle, clear its input once, and start polling;
/// - `on_byte_count` with the number of bytes waiting, or `None` when it
///   could not be read; the result is how many bytes to read;
/// - `on_chunk` with the bytes read; `Ok(None)` asks for the next poll at
///   once, `Ok(Some(lines))` for each line to be read as a number;
/// - `on_values` with those lines and numbers, and the time elapsed;
///   the result goes out to the consumer;
/// - `on_control` with the control messages waiting; `true` ends the
///   session, `false` asks to sleep one window and poll again.
/// After a fatal diagnostic, the session is `Failed` and takes no more
/// events.
pub struct Session<V> {
    pub mode: Mode,
    pub window_ms: u64,
    pub phase: Phase,
    pub decoder: FrameDecoder,
    pub store: PendingStore<V>,
}

impl<V: Copy> Session<V> {
    pub open spec fn wf(&self) -> bool {
        self.store.wf()
    }

    /// A session that has not opened its port yet.
    pub fn new(mode: Mode, window_ms: u64) -> (r: Session<V>)
        ensures
            r.wf(),
            r.mode == mode,
            r.window_ms == window_ms,
            r.phase == Phase::Idle,
            r.decoder.residual@ == Seq::<u8>::empty(),
            !r.decoder.primed,
            r.store.pending() == Seq::<Seq<V>>::empty(),
            r.store.cursor == 0,
    {
        Session {
            mode,
            window_ms,
            phase: Phase::Idle,
            decoder: FrameDecoder::new(),
            store: PendingStore::new(),
        }
    }

    /// Whether the session still takes poll events.
    pub fn is_running(&self) -> (r: bool)
        ensures
            r == (self.phase == Phase::Running),
    {
        self.phase == Phase::Running
    }

    /// The port was opened, or not. A failure ends the session with
    /// `PortOpenFailed` before any poll.
    pub fn on_open(&mut self, opened: bool) -> (r: Option<Diagnostic>)
        requires
            old(self).phase == Phase::Idle,
        ensures
            opened ==> r == None::<Diagnostic> && final(self).phase == Phase::Running,
            !opened ==> r == Some(Diagnostic::PortOpenFailed) && final(self).phase
                == Phase::Failed,
            final(self).mode == old(self).mode,
            final(self).window_ms == old(self).window_ms,
            final(self).decoder == old(self).decoder,
            final(self).store == old(self).store,
    {
        if opened {
            self.phase = Phase::Running;
            None
        } else {
            self.phase = Phase::Failed;
            Some(Diagnostic::PortOpenFailed)
        }
    }

    /// The number of bytes waiting, or `None` when the query failed, which
    /// ends the session with `NoSignal`. Otherwise the result is the number
    /// of bytes to read.
    pub fn on_byte_count(&mut self, count: Option<u32>) -> (r: Result<usize, Diagnostic>)
        requires
            old(self).phase == Phase::Running,
        ensures
            count is None ==> r == Err::<usize, Diagnostic>(Diagnostic::NoSignal)
                && final(self).phase == Phase::Failed,
            count is Some ==> r == Ok::<usize, Diagnostic>(count->Some_0 as usize)
                && final(self).phase == Phase::Running,
            final(self).mode == old(self).mode,
            final(self).window_ms == old(self).window_ms,
            final(self).decoder == old(self).decoder,
            final(self).store == old(self).store,
    {
        match count {
            Some(n) => Ok(n as usize),
            None => {
                self.phase = Phase::Failed;
                Err(Diagnostic::NoSignal)
            },
        }
    }

    /// The bytes read in this poll. Input that is not valid text ends the
    /// session with `UndecodableData`; otherwise the decoder's result.
    pub fn on_chunk(&mut self, chunk: &Vec<u8>) -> (r: Result<Option<Vec<Vec<u8>>>, Diagnostic>)
        requires
            old(self).phase == Phase::Running,
        ensures
            ({
                let clean = without_nul(chunk@);
                let text = old(self).decoder.residual@ + clean;
                let parts = segments(text);
                &&& !valid_utf8(clean) ==> r == Err::<Option<Vec<Vec<u8>>>, Diagnostic>(
                    Diagnostic::UndecodableData,
                ) && final(self).phase == Phase::Failed
                &&& valid_utf8(clean) ==> final(self).phase == Phase::Running
                &&& valid_utf8(clean) && parts.len() < 2 ==> r == Ok::<
                    Option<Vec<Vec<u8>>>,
                    Diagnostic,
                >(None) && final(self).decoder.residual@ == text
                    && final(self).decoder.primed == old(self).decoder.primed
                &&& valid_utf8(clean) && parts.len() >= 2 ==> {
                    &&& r matches Ok(Some(lines))
                    &&& lines_view(r->Ok_0->Some_0@) == if old(self).decoder.primed {
                        parts.drop_last()
                    } else {
                        Seq::empty()
                    }
                    &&& final(self).decoder.residual@ == parts.last()
                    &&& final(self).decoder.primed
                }
            }),
            final(self).mode == old(self).mode,
            final(self).window_ms == old(self).window_ms,
            final(self).store == old(self).store,
    {
        match self.decoder.feed(chunk) {
            Ok(lines) => Ok(lines),
            Err(DecodeError::InvalidText) => {
                self.phase = Phase::Failed;
                Err(Diagnostic::UndecodableData)
            },
        }
    }

    /// The complete lines of this poll with `values[k]` the outcome of
    /// reading `lines[k]` as a number, and the milliseconds elapsed since
    /// the session started. The lines go to their channels, then every
    /// channel is flushed under the session's mode.
    pub fn on_values(&mut self, lines: &Vec<Vec<u8>>, values: &Vec<Option<V>>, elapsed_ms: u64) -> (r:
        PassOutput<V>)
        requires
            old(self).phase == Phase::Running,
            old(self).wf(),
            lines.len() == values.len(),
            old(self).store.channels.len() + lines.len() < usize::MAX,
        ensures
            final(self).wf(),
            ({
                let absorbed = absorb_all(
                    old(self).store.pending(),
                    old(self).store.cursor as nat,
                    lines_view(lines@),
                    values@,
                );
                &&& r.warnings == absorbed.2
                &&& samples_view(r.samples@) == flush_emission(
                    old(self).mode,
                    absorbed.0,
                    elapsed_ms,
                    old(self).window_ms,
                )
                &&& final(self).store.cursor == absorbed.1
                &&& final(self).store.pending().len() == absorbed.0.len()
                &&& forall|k: int|
                    0 <= k < absorbed.0.len() ==> #[trigger] final(self).store.pending()[k].len()
                        == 0
            }),
            final(self).phase == Phase::Running,
            final(self).mode == old(self).mode,
            final(self).window_ms == old(self).window_ms,
            final(self).decoder == old(self).decoder,
    {
        let warnings = self.store.absorb_lines(lines, values);
        let samples = self.store.flush(self.mode, elapsed_ms, self.window_ms);
        PassOutput { warnings, samples }
    }

    /// The control messages waiting at the end of a pass. A `false` among
    /// them stops the session: the result is then `true`, and the driver
    /// reads no more.
    pub fn on_control(&mut self, signals: &Vec<bool>) -> (stop: bool)
        requires
            old(self).phase == Phase::Running,
        ensures
            stop == exists|k: int| 0 <= k < signals@.len() && !#[trigger] signals@[k],
            stop ==> final(self).phase == Phase::Stopped,
            !stop ==> final(self).phase == Phase::Running,
            final(self).mode == old(self).mode,
            final(self).window_ms == old(self).window_ms,
            final(self).decoder == old(self).decoder,
            final(self).store == old(self).store,
    {
        let stop = holds_stop(signals);
        if stop {
            self.phase = Phase::Stopped;
        }
        stop
    }
}

/// Whether a `false` is among `signals`.
fn holds_stop(signals: &Vec<bool>) -> (r: bool)
    ensures
        r == exists|k: int| 0 <= k < signals@.len() && !#[trigger] signals@[k],
{
    let mut i: usize = 0;
    while i < signals.len()
        invariant
            i <= signals.len(),
            forall|k: int| 0 <= k < i ==> #[trigger] signals@[k],
        decreases signals.len() - i,
    {
        if !signals[i] {
            return true;
        }
        i = i + 1;
    }
    false
}

} // verus!
