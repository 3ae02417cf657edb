use vstd::prelude::*;

verus! {

/// The length of the first complete JSON value at the front of `s`,
/// leading whitespace included, when the bytes hold one.
pub uninterp spec fn json_value_end(s: Seq<u8>) -> Option<nat>;

/// Whether `s` ends before its first JSON value is complete, as opposed to
/// holding bytes that no continuation can make valid.
pub uninterp spec fn json_truncated(s: Seq<u8>) -> bool;

/// Relies on serde_json's `StreamDeserializer::next` over a byte slice: on
/// success its `byte_offset` is where the first value ends; on failure
/// `Error::is_eof` tells truncated input from invalid input; with nothing
/// but whitespace it yields no item, which counts as truncated. (A bare
/// number that reaches the end of the bytes counts as complete there;
/// protocol messages are objects, which end with their closing brace.)
#[verifier::external_body]
fn scan_json_value(buf: &[u8]) -> (r: Result<usize, bool>)
    ensures
        r is Ok <==> json_value_end(buf@) is Some,
        r matches Ok(n) ==> json_value_end(buf@) == Some(n as nat) && 0 < n <= buf@.len(),
        r matches Err(t) ==> t == json_truncated(buf@),
{
    let mut values = serde_json::Deserializer::from_slice(buf).into_iter::<serde_json::Value>();
    match values.next() {
        Some(Ok(_)) => Ok(values.byte_offset()),
        Some(Err(e)) => Err(e.is_eof()),
        None => Err(true),
    }
}

/// Why no frame could be taken.
#[derive(Debug, PartialEq, Eq)]
pub enum FrameError {
    /// The buffer is full and still holds no complete value.
    FrameTooLarge,
    /// The stream has ended and no complete value is left.
    EndOfStream,
    /// The buffered bytes cannot begin a JSON value.
    Malformed,
}

/// What a scan of the buffer found, in the form `scan_json_value` reports.
pub type Scan = Result<usize, bool>;

/// What `next_frame` does with a buffer, as a kind of result.
pub enum FrameStep {
    /// The first `n` bytes are a complete value, taken off as a frame.
    Frame(nat),
    /// More bytes are needed, and there is room for them.
    NeedMore,
    Failed(FrameError),
}

/// The step `next_frame` takes on buffer `b`, with room for `cap` bytes,
/// once the stream has or has not ended.
pub open spec fn frame_step(b: Seq<u8>, cap: nat, closed: bool) -> FrameStep {
    if b.len() == 0 {
        if closed {
            FrameStep::Failed(FrameError::EndOfStream)
        } else {
            FrameStep::NeedMore
        }
    } else {
        match json_value_end(b) {
            Some(n) => FrameStep::Frame(n),
            None => if !json_truncated(b) {
                FrameStep::Failed(FrameError::Malformed)
            } else if closed {
                FrameStep::Failed(FrameError::EndOfStream)
            } else if b.len() >= cap {
                FrameStep::Failed(FrameError::FrameTooLarge)
            } else {
                FrameStep::NeedMore
            },
        }
    }
}

pub open spec fn step_of(r: Result<Option<Vec<u8>>, FrameError>) -> FrameStep {
    match r {
        Ok(Some(frame)) => FrameStep::Frame(frame@.len()),
        Ok(None) => FrameStep::NeedMore,
        Err(e) => FrameStep::Failed(e),
    }
}

/// A stream whose first `cap` bytes or fewer never hold a complete value,
/// and never bytes that no continuation makes valid, read from its start
/// with a buffer of `cap` bytes: each read of fewer than `cap` bytes asks
/// for more, and the read that fills the buffer fails as too large. The
/// buffer never holds more than `cap` bytes, however long the value.
pub proof fn lemma_cap_enforced(s: Seq<u8>, cap: nat)
    requires
        cap > 0,
        s.len() > cap,
        forall|k: int|
            1 <= k <= cap ==> json_value_end(#[trigger] s.take(k)) is None && json_truncated(
                s.take(k),
            ),
    ensures
        forall|k: int| 1 <= k < cap ==> #[trigger] frame_step(s.take(k), cap, false) == FrameStep::NeedMore,
        frame_step(s.take(cap as int), cap, false) == FrameStep::Failed(FrameError::FrameTooLarge),
{
    assert forall|k: int| 1 <= k < cap implies #[trigger] frame_step(s.take(k), cap, false)
        == FrameStep::NeedMore by {
        assert(s.take(k).len() == k);
    }
    assert(s.take(cap as int).len() == cap);
}

/// Splits a byte stream into complete JSON values, holding at most `cap`
/// bytes of a value that is not complete yet.
pub struct JsonReader {
    buffer: Vec<u8>,
    cap: usize,
    closed: bool,
}

impl JsonReader {
    pub closed spec fn buffered(&self) -> Seq<u8> {
        self.buffer@
    }

    pub closed spec fn capacity(&self) -> nat {
        self.cap as nat
    }

    pub closed spec fn is_closed(&self) -> bool {
        self.closed
    }

    pub open spec fn wf(&self) -> bool {
        &&& self.capacity() > 0
        &&& self.buffered().len() <= self.capacity()
    }

    /// A reader with an empty buffer that holds at most `cap` bytes.
    pub fn new(cap: usize) -> (r: JsonReader)
        requires
            cap > 0,
        ensures
            r.wf(),
            r.buffered() == Seq::<u8>::empty(),
            r.capacity() == cap,
            !r.is_closed(),
    {
        JsonReader { buffer: Vec::new(), cap, closed: false }
    }

    /// How many more bytes the buffer can take.
    pub fn room(&self) -> (r: usize)
        requires
            self.wf(),
        ensures
            r == self.capacity() - self.buffered().len(),
    {
        self.cap - self.buffer.len()
    }

    /// Hands the reader bytes read from the stream; no bytes at all means
    /// that the stream has ended.
    pub fn feed(&mut self, bytes: &[u8])
        requires
            old(self).wf(),
            old(self).buffered().len() + bytes@.len() <= old(self).capacity(),
        ensures
            final(self).wf(),
            final(self).buffered() == old(self).buffered() + bytes@,
            final(self).capacity() == old(self).capacity(),
            final(self).is_closed() == (old(self).is_closed() || bytes@.len() == 0),
    {
        let ghost before = self.buffer@;
        let mut i: usize = 0;
        while i < bytes.len()
            invariant
                0 <= i <= bytes@.len(),
                self.buffer@ == before + bytes@.subrange(0, i as int),
                self.cap == old(self).cap,
                self.closed == old(self).closed,
            decreases bytes@.len() - i,
        {
            self.buffer.push(bytes[i]);
            assert(bytes@.subrange(0, i + 1) =~= bytes@.subrange(0, i as int).push(bytes@[i as int]));
            assert(self.buffer@ =~= before + bytes@.subrange(0, i + 1));
            i = i + 1;
        }
        assert(bytes@.subrange(0, bytes@.len() as int) =~= bytes@);
        if bytes.len() == 0 {
            self.closed = true;
        }
    }

    /// Acts on a scan of the buffer: takes the complete value off the
    /// front, asks for more bytes (`Ok(None)`), or fails.
    pub fn take_scanned(&mut self, scan: Scan) -> (r: Result<Option<Vec<u8>>, FrameError>)
        requires
            old(self).wf(),
            scan matches Ok(n) ==> 0 < n <= old(self).buffered().len(),
        ensures
            final(self).wf(),
            final(self).capacity() == old(self).capacity(),
            final(self).is_closed() == old(self).is_closed(),
            ({
                let b = old(self).buffered();
                match scan {
                    Ok(n) => r matches Ok(Some(frame)) && frame@ == b.subrange(0, n as int)
                        && final(self).buffered() == b.subrange(n as int, b.len() as int),
                    Err(false) => r matches Err(FrameError::Malformed)
                        && final(self).buffered() == b,
                    Err(true) => if old(self).is_closed() {
                        r matches Err(FrameError::EndOfStream)
                            && final(self).buffered() == Seq::<u8>::empty()
                    } else if b.len() >= old(self).capacity() {
                        r matches Err(FrameError::FrameTooLarge)
                            && final(self).buffered() == b
                    } else {
                        r matches Ok(None) && final(self).buffered() == b
                    },
                }
            }),
    {
        match scan {
            Ok(n) => {
                let mut frame = self.buffer.split_off(n);
                std::mem::swap(&mut self.buffer, &mut frame);
                Ok(Some(frame))
            },
            Err(false) => Err(FrameError::Malformed),
            Err(true) => {
                if self.closed {
                    self.buffer.clear();
                    Err(FrameError::EndOfStream)
                } else if self.buffer.len() >= self.cap {
                    Err(FrameError::FrameTooLarge)
                } else {
                    Ok(None)
                }
            },
        }
    }

    /// Takes the next complete JSON value off the front of the buffer, as
    /// its bytes. `Ok(None)` asks for more bytes, which the buffer then has
    /// room for.
    pub fn next_frame(&mut self) -> (r: Result<Option<Vec<u8>>, FrameError>)
        requires
            old(self).wf(),
        ensures
            final(self).wf(),
            final(self).capacity() == old(self).capacity(),
            final(self).is_closed() == old(self).is_closed(),
            step_of(r) == frame_step(old(self).buffered(), old(self).capacity(), old(self).is_closed()),
            r matches Ok(None) ==> final(self).buffered() == old(self).buffered()
                && final(self).buffered().len() < final(self).capacity(),
            ({
                let b = old(self).buffered();
                if b.len() == 0 {
                    &&& final(self).buffered() == b
                    &&& old(self).is_closed() ==> (r matches Err(FrameError::EndOfStream))
                    &&& !old(self).is_closed() ==> (r matches Ok(None))
                } else {
                    match json_value_end(b) {
                        Some(n) => r matches Ok(Some(frame)) && frame@ == b.subrange(0, n as int)
                            && final(self).buffered() == b.subrange(n as int, b.len() as int),
                        None => if !json_truncated(b) {
                            r matches Err(FrameError::Malformed)
                        } else if old(self).is_closed() {
                            r matches Err(FrameError::EndOfStream)
                        } else if b.len() >= old(self).capacity() {
                            r matches Err(FrameError::FrameTooLarge)
                        } else {
                            r matches Ok(None)
                        },
                    }
                }
            }),
    {
        if self.buffer.len() == 0 {
            if self.closed {
                return Err(FrameError::EndOfStream);
            } else {
                return Ok(None);
            }
        }
        let scan = scan_json_value(self.buffer.as_slice());
        self.take_scanned(scan)
    }
}

} // verus!
