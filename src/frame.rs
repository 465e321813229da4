use vstd::prelude::*;
use vstd::utf8::valid_utf8;

verus! {

/// First byte of the record delimiter (carriage return).
pub const CR: u8 = 13;

/// Second byte of the record delimiter (line feed).
pub const LF: u8 = 10;

/// `s` with every zero byte removed, the other bytes kept in order.
pub open spec fn without_nul(s: Seq<u8>) -> Seq<u8>
    decreases s.len(),
{
    if s.len() == 0 {
        Seq::empty()
    } else if s.last() == 0 {
        without_nul(s.drop_last())
    } else {
        without_nul(s.drop_last()).push(s.last())
    }
}

/// A CR LF pair starts at position `i` of `s`.
pub open spec fn delimiter_at(s: Seq<u8>, i: int) -> bool {
    0 <= i && i + 1 < s.len() && s[i] == CR && s[i + 1] == LF
}

/// The segments of `s` from position `i` on, where the segment in progress
/// started at `start`: CR LF pairs are taken left to right, without overlap.
pub open spec fn segments_from(s: Seq<u8>, start: int, i: int) -> Seq<Seq<u8>>
    decreases s.len() - i,
{
    if i < 0 || start < 0 || start > i || i >= s.len() {
        seq![s.subrange(start, s.len() as int)]
    } else if delimiter_at(s, i) {
        seq![s.subrange(start, i)] + segments_from(s, i + 2, i + 2)
    } else {
        segments_from(s, start, i + 1)
    }
}

/// The segments of `s` between CR LF delimiters; there is always at least one.
pub open spec fn segments(s: Seq<u8>) -> Seq<Seq<u8>> {
    segments_from(s, 0, 0)
}

/// The byte strings that a vector of lines holds.
pub open spec fn lines_view(v: Seq<Vec<u8>>) -> Seq<Seq<u8>> {
    v.map_values(|l: Vec<u8>| l@)
}

/// Relies on std::str::from_utf8: it accepts exactly the byte strings that
/// are well-formed UTF-8.
#[verifier::external_body]
fn is_utf8(bytes: &Vec<u8>) -> (r: bool)
    ensures
        r == valid_utf8(bytes@),
{
    std::str::from_utf8(bytes.as_slice()).is_ok()
}

/// Copies the bytes of `s` that are not zero, in order.
pub fn strip_nul(s: &Vec<u8>) -> (r: Vec<u8>)
    ensures
        r@ == without_nul(s@),
{
    let mut r: Vec<u8> = Vec::new();
    let mut i: usize = 0;
    while i < s.len()
        invariant
            i <= s.len(),
            r@ == without_nul(s@.subrange(0, i as int)),
        decreases s.len() - i,
    {
        assert(s@.subrange(0, i + 1).drop_last() == s@.subrange(0, i as int));
        if s[i] != 0 {
            r.push(s[i]);
        }
        i = i + 1;
    }
    assert(s@.subrange(0, s.len() as int) == s@);
    r
}

/// A copy of `s[from..to]`.
fn copy_range(s: &Vec<u8>, from: usize, to: usize) -> (r: Vec<u8>)
    requires
        from <= to <= s.len(),
    ensures
        r@ == s@.subrange(from as int, to as int),
{
    let mut r: Vec<u8> = Vec::new();
    let mut i: usize = from;
    while i < to
        invariant
            from <= i <= to <= s.len(),
            r@ == s@.subrange(from as int, i as int),
        decreases to - i,
    {
        r.push(s[i]);
        i = i + 1;
        assert(r@ == s@.subrange(from as int, i as int));
    }
    r
}

/// Splits `s` at each CR LF pair, left to right; the delimiters are dropped.
pub fn split_lines(s: &Vec<u8>) -> (r: Vec<Vec<u8>>)
    ensures
        lines_view(r@) == segments(s@),
{
    let mut r: Vec<Vec<u8>> = Vec::new();
    let mut start: usize = 0;
    let mut i: usize = 0;
    while i < s.len()
        invariant
            start <= i,
            i <= s.len(),
            start <= s.len(),
            lines_view(r@) + segments_from(s@, start as int, i as int) == segments(s@),
        decreases s.len() - i,
    {
        if i + 1 < s.len() && s[i] == CR && s[i + 1] == LF {
            let piece = copy_range(s, start, i);
            proof {
                assert(lines_view(r@.push(piece)) == lines_view(r@).push(piece@));
                assert(segments_from(s@, start as int, i as int) == seq![piece@]
                    + segments_from(s@, i + 2, i + 2));
            }
            r.push(piece);
            i = i + 2;
            start = i;
        } else {
            i = i + 1;
        }
    }
    let last = copy_range(s, start, s.len());
    proof {
        assert(lines_view(r@.push(last)) == lines_view(r@).push(last@));
    }
    r.push(last);
    r
}


/// Accumulates decoded text and hands out complete lines.
///
/// `residual` is the unconsumed tail of the input: the partial line that the
/// next read continues. The first pass that completes a line only primes the
/// residual; its lines are dropped, since the stream may have been joined in
/// the middle of a record.
pub struct FrameDecoder {
    pub residual: Vec<u8>,
    pub primed: bool,
}

/// Why a chunk of input was refused.
#[derive(Clone, Copy, PartialEq, Eq, Debug)]
pub enum DecodeError {
    /// The chunk, once its zero bytes are removed, is not well-formed UTF-8.
    InvalidText,
}

impl FrameDecoder {
    /// A decoder with an empty residual that has not yet been primed.
    pub fn new() -> (r: FrameDecoder)
        ensures
            r.residual@ == Seq::<u8>::empty(),
            !r.primed,
    {
        FrameDecoder { residual: Vec::new(), primed: false }
    }

    /// Takes one chunk of raw input.
    ///
    /// Zero bytes are removed from the chunk, which must then be valid
    /// UTF-8, else it is refused and the decoder is left as it was. The text
    /// is appended to the residual and split at CR LF. With fewer than two
    /// segments no line is complete: `Ok(None)`, and the text stays in the
    /// residual. Otherwise the last segment becomes the residual and the
    /// others are the complete lines, returned once the decoder is primed;
    /// the pass that primes it returns no line.
    pub fn feed(&mut self, chunk: &Vec<u8>) -> (r: Result<Option<Vec<Vec<u8>>>, DecodeError>)
        ensures
            ({
                let clean = without_nul(chunk@);
                let text = old(self).residual@ + clean;
                let parts = segments(text);
                &&& !valid_utf8(clean) ==> r == Err::<Option<Vec<Vec<u8>>>, DecodeError>(
                    DecodeError::InvalidText,
                ) && *final(self) == *old(self)
                &&& valid_utf8(clean) && parts.len() < 2 ==> r == Ok::<
                    Option<Vec<Vec<u8>>>,
                    DecodeError,
                >(None) && final(self).residual@ == text && final(self).primed == old(
                    self,
                ).primed
                &&& valid_utf8(clean) && parts.len() >= 2 ==> {
                    &&& r matches Ok(Some(lines))
                    &&& lines_view(r->Ok_0->Some_0@) == if old(self).primed {
                        parts.drop_last()
                    } else {
                        Seq::empty()
                    }
                    &&& final(self).residual@ == parts.last()
                    &&& final(self).primed
                }
            }),
    {
        let clean = strip_nul(chunk);
        if !is_utf8(&clean) {
            return Err(DecodeError::InvalidText);
        }
        let mut text = self.residual.clone();
        let mut extra = clean;
        text.append(&mut extra);
        let mut parts = split_lines(&text);
        if parts.len() < 2 {
            self.residual = text;
            return Ok(None);
        }
        let last = parts.pop().unwrap();
        proof {
            assert(lines_view(parts@) == segments(text@).drop_last());
        }
        self.residual = last;
        let lines = if self.primed {
            parts
        } else {
            proof {
                assert(lines_view(Seq::<Vec<u8>>::empty()) == Seq::<Seq<u8>>::empty());
            }
            Vec::new()
        };
        self.primed = true;
        Ok(Some(lines))
    }
}

} // verus!
