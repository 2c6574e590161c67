use crate::endian::read_u32_le;
use crate::error::CursorError;
use crate::laws::lemma_read_hands_out_source_bytes;
use crate::model::CursorState;
use crate::step::{decoded, Step};
use vstd::prelude::*;
use vstd::slice::{slice_subrange, slice_to_vec};

verus! {

/// Target size of the window of a cursor made by `new`: 16 MiB.
pub const DEFAULT_CHUNK_SIZE: u64 = 16 * 1024 * 1024;

/// A cursor over a source of `len()` bytes of which it caches one window.
pub struct PartialLoadCursor {
    len: u64,
    pos: u64,
    chunk: Option<Vec<u8>>,
    chunk_start: u64,
    chunk_size: u64,
}

/// What a cursor tells of itself when the host is done with it: the final
/// position and the window.
#[derive(Debug, Clone, Copy, PartialEq, Eq)]
pub struct DropReport {
    pub pos: u64,
    pub chunk_start: u64,
    pub chunk_size: u64,
}

/// What the host hands to `load_chunk`, as plain bytes.
pub open spec fn loaded_bytes(loaded: Option<Vec<u8>>) -> Option<Seq<u8>> {
    match loaded {
        Some(bytes) => Some(bytes@),
        None => None,
    }
}

impl View for PartialLoadCursor {
    type V = CursorState;

    closed spec fn view(&self) -> CursorState {
        CursorState {
            len: self.len as nat,
            pos: self.pos as nat,
            chunk: loaded_bytes(self.chunk),
            chunk_start: self.chunk_start as nat,
            chunk_size: self.chunk_size as nat,
        }
    }
}

impl PartialLoadCursor {
    #[verifier::type_invariant]
    spec fn inv(&self) -> bool {
        self@.wf()
    }

    /// A cursor at the start of a source of `len` bytes, with the default
    /// window size and nothing loaded.
    pub fn new(len: u64) -> (cursor: Self)
        ensures
            cursor@ == CursorState::fresh(len as nat, DEFAULT_CHUNK_SIZE as nat),
            cursor@.wf(),
    {
        Self::with_chunk_size(len, DEFAULT_CHUNK_SIZE)
    }

    /// A cursor at the start of a source of `len` bytes, with a window of
    /// `chunk_size` bytes and nothing loaded.
    pub fn with_chunk_size(len: u64, chunk_size: u64) -> (cursor: Self)
        ensures
            cursor@ == CursorState::fresh(len as nat, chunk_size as nat),
            cursor@.wf(),
    {
        PartialLoadCursor { len, pos: 0, chunk: None, chunk_start: 0, chunk_size }
    }

    /// Total length of the source.
    pub fn len(&self) -> (len: u64)
        ensures
            len == self@.len,
    {
        self.len
    }

    /// Offset of the next byte to decode.
    pub fn pos(&self) -> (pos: u64)
        ensures
            pos == self@.pos,
    {
        self.pos
    }

    /// Bytes between the position and the end of the source.
    pub fn left(&self) -> (left: u64)
        ensures
            left == self@.left(),
    {
        proof {
            use_type_invariant(self);
        }
        self.len - self.pos
    }

    /// Offset at which the window begins.
    pub fn chunk_start(&self) -> (start: u64)
        ensures
            start == self@.chunk_start,
    {
        self.chunk_start
    }

    /// Target size of the window.
    pub fn chunk_size(&self) -> (size: u64)
        ensures
            size == self@.chunk_size,
    {
        self.chunk_size
    }

    /// True where a window is loaded: after a load that was taken, until
    /// one fails or the window has to grow.
    pub fn is_loaded(&self) -> (loaded: bool)
        ensures
            loaded == (self@.chunk is Some),
    {
        self.chunk.is_some()
    }

    /// The final position and the window, for the host to record when it
    /// discards the cursor.
    pub fn drop_report(&self) -> (report: DropReport)
        ensures
            report.pos == self@.pos,
            report.chunk_start == self@.chunk_start,
            report.chunk_size == self@.chunk_size,
    {
        DropReport { pos: self.pos, chunk_start: self.chunk_start, chunk_size: self.chunk_size }
    }

    /// Moves the position to `target`, or fails where `target` lies beyond
    /// the end of the source. The window is left alone.
    pub fn seek(&mut self, target: u64) -> (result: Result<(), CursorError>)
        ensures
            final(self)@ == old(self)@.seek_next(target as nat),
            final(self)@.wf(),
            target <= old(self)@.len ==> result == Ok::<(), CursorError>(()),
            target > old(self)@.len ==> result == Err::<(), CursorError>(CursorError::OutOfBounds),
    {
        proof {
            use_type_invariant(&*self);
        }
        if target > self.len {
            return Err(CursorError::OutOfBounds);
        }
        self.pos = target;
        Ok(())
    }

    /// The range `[start, end)` that a load at the present position reads:
    /// the target size from the position on, cut off at the end of the source.
    pub fn load_range(&self) -> (range: (u64, u64))
        ensures
            range.0 == self@.pos,
            range.1 == self@.load_end(),
    {
        proof {
            use_type_invariant(self);
        }
        let end = if self.chunk_size <= self.len - self.pos {
            self.pos + self.chunk_size
        } else {
            self.len
        };
        (self.pos, end)
    }

    /// Takes the outcome of reading `load_range()` from the source: the
    /// bytes, or `None` where the read failed. The bytes become the window,
    /// which then begins at the position. A failed read, or one that hands
    /// over another number of bytes than the range holds, empties the window.
    pub fn load_chunk(&mut self, loaded: Option<Vec<u8>>) -> (result: Result<(), CursorError>)
        ensures
            final(self)@ == old(self)@.load_next(loaded_bytes(loaded)),
            final(self)@.wf(),
            old(self)@.load_accepts(loaded_bytes(loaded)) ==> result == Ok::<(), CursorError>(()),
            !old(self)@.load_accepts(loaded_bytes(loaded)) ==> result == Err::<(), CursorError>(
                CursorError::ChunkLoadFailed,
            ),
    {
        proof {
            use_type_invariant(&*self);
        }
        let (start, end) = self.load_range();
        match loaded {
            Some(bytes) => {
                if bytes.len() as u64 == end - start {
                    *self = PartialLoadCursor {
                        len: self.len,
                        pos: self.pos,
                        chunk: Some(bytes),
                        chunk_start: self.pos,
                        chunk_size: self.chunk_size,
                    };
                    return Ok(());
                }
            },
            None => {},
        }
        self.chunk = None;
        Err(CursorError::ChunkLoadFailed)
    }

    /// One step of reading `n` bytes. Fails where fewer than `n` bytes are
    /// left. Where the window holds the bytes, hands out a copy of them and
    /// moves the position past them. Otherwise asks for a load at the
    /// position, after the window size has grown to twice `n` where `n`
    /// exceeds it; the position stays.
    pub fn next_bytes(&mut self, n: u64) -> (result: Result<Step<Vec<u8>>, CursorError>)
        ensures
            final(self)@ == old(self)@.read_step(n as nat).state,
            final(self)@.wf(),
            decoded(result) == old(self)@.read_step(n as nat).result,
            result matches Ok(Step::Done(bytes)) ==> final(self)@.pos == old(self)@.pos + n
                && forall|source: Seq<u8>| #[trigger]
                    old(self)@.agrees_with(source) ==> bytes@ == old(self)@.ahead(
                        source,
                        n as nat,
                    ),
    {
        proof {
            use_type_invariant(&*self);
            assert forall|source: Seq<u8>| #[trigger]
                old(self)@.agrees_with(source) && old(self)@.read_step(
                    n as nat,
                ).completes() implies old(self)@.read_step(n as nat).result == Ok::<
                Step<Seq<u8>>,
                CursorError,
            >(Step::Done(old(self)@.ahead(source, n as nat))) by {
                lemma_read_hands_out_source_bytes(old(self)@, source, n as nat);
            }
        }
        if n > self.len - self.pos {
            return Err(CursorError::OutOfBounds);
        }
        if n > self.chunk_size {
            self.chunk = None;
            self.chunk_size = if n > u64::MAX / 2 {
                u64::MAX
            } else {
                2 * n
            };
        }
        if let Some(chunk) = &self.chunk {
            if self.chunk_start <= self.pos && self.pos - self.chunk_start <= self.chunk_size && n
                <= self.chunk_size - (self.pos - self.chunk_start) {
                let window = chunk.as_slice();
                assert(self.pos - self.chunk_start + n <= window.len());
                let from = (self.pos - self.chunk_start) as usize;
                let to = from + n as usize;
                let bytes = slice_to_vec(slice_subrange(window, from, to));
                self.pos = self.pos + n;
                return Ok(Step::Done(bytes));
            }
        }
        let (start, end) = self.load_range();
        Ok(Step::Load { start, end, resume: None })
    }

    /// One step of reading an unsigned 32-bit integer, four bytes with the
    /// least significant first.
    pub fn next_u32(&mut self) -> (result: Result<Step<u32>, CursorError>)
        ensures
            final(self)@ == old(self)@.u32_step().state,
            final(self)@.wf(),
            decoded(result) == old(self)@.u32_step().result,
    {
        proof {
            use_type_invariant(&*self);
        }
        match self.next_bytes(4) {
            Ok(Step::Done(bytes)) => Ok(Step::Done(read_u32_le(bytes.as_slice()))),
            Ok(Step::Load { start, end, resume }) => Ok(Step::Load { start, end, resume }),
            Err(error) => Err(error),
        }
    }

    /// One step of reading a timestamp: a `u32` of seconds, then a `u32` of
    /// nanoseconds, handed out as nanoseconds. The first call takes `None`;
    /// a call that follows a load takes the `resume` that the step before
    /// it reported, which holds the seconds once they have been read.
    pub fn next_time(&mut self, resume: Option<u32>) -> (result: Result<Step<u64>, CursorError>)
        ensures
            final(self)@ == old(self)@.time_step(resume).state,
            final(self)@.wf(),
            decoded(result) == old(self)@.time_step(resume).result,
    {
        proof {
            use_type_invariant(&*self);
        }
        let seconds = match resume {
            Some(seconds) => seconds,
            None => match self.next_u32() {
                Ok(Step::Done(seconds)) => seconds,
                Ok(Step::Load { start, end, resume: _ }) => {
                    return Ok(Step::Load { start, end, resume: None });
                },
                Err(error) => {
                    return Err(error);
                },
            },
        };
        match self.next_u32() {
            Ok(Step::Done(nanos)) => Ok(
                Step::Done(1_000_000_000 * (seconds as u64) + (nanos as u64)),
            ),
            Ok(Step::Load { start, end, resume: _ }) => Ok(
                Step::Load { start, end, resume: Some(seconds) },
            ),
            Err(error) => Err(error),
        }
    }

    /// One step of reading a length-prefixed chunk: a `u32` that counts the
    /// bytes of the body, then the body, which is handed out. The first call
    /// takes `None`; a call that follows a load takes the `resume` that the
    /// step before it reported, which holds the prefix once it has been read.
    pub fn next_chunk(&mut self, resume: Option<u32>) -> (result: Result<
        Step<Vec<u8>>,
        CursorError,
    >)
        ensures
            final(self)@ == old(self)@.chunk_step(resume).state,
            final(self)@.wf(),
            decoded(result) == old(self)@.chunk_step(resume).result,
    {
        proof {
            use_type_invariant(&*self);
        }
        let count = match resume {
            Some(count) => count,
            None => match self.next_u32() {
                Ok(Step::Done(count)) => count,
                Ok(Step::Load { start, end, resume: _ }) => {
                    return Ok(Step::Load { start, end, resume: None });
                },
                Err(error) => {
                    return Err(error);
                },
            },
        };
        match self.next_bytes(count as u64) {
            Ok(Step::Done(bytes)) => Ok(Step::Done(bytes)),
            Ok(Step::Load { start, end, resume: _ }) => Ok(
                Step::Load { start, end, resume: Some(count) },
            ),
            Err(error) => Err(error),
        }
    }

    /// One step of skipping a length-prefixed chunk: reads the prefix, moves
    /// the position over the body without reading it, and asks for a load
    /// there, so that the window begins at the new position. Fails with
    /// `OutOfBounds`, the position behind the prefix, where the body would
    /// end beyond the source. The first call takes `None`; a call that
    /// follows a load takes the `resume` that the step before it reported,
    /// which holds the prefix once the position has moved.
    pub fn skip_chunk(&mut self, resume: Option<u32>) -> (result: Result<Step<()>, CursorError>)
        ensures
            final(self)@ == old(self)@.skip_step(resume).state,
            final(self)@.wf(),
            decoded(result) == old(self)@.skip_step(resume).result,
    {
        proof {
            use_type_invariant(&*self);
        }
        if resume.is_some() {
            return Ok(Step::Done(()));
        }
        let count = match self.next_u32() {
            Ok(Step::Done(count)) => count,
            Ok(Step::Load { start, end, resume: _ }) => {
                return Ok(Step::Load { start, end, resume: None });
            },
            Err(error) => {
                return Err(error);
            },
        };
        if count as u64 > self.len - self.pos {
            return Err(CursorError::OutOfBounds);
        }
        self.pos = self.pos + count as u64;
        let (start, end) = self.load_range();
        Ok(Step::Load { start, end, resume: Some(count) })
    }
}

} // verus!
