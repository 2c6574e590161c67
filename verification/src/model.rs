use crate::endian::le_u32;
use crate::error::CursorError;
use crate::step::Step;
use vstd::prelude::*;

verus! {

/// The mathematical state of a cursor: where it stands in the source, and
/// which part of the source its window holds.
pub struct CursorState {
    /// Total length of the source.
    pub len: nat,
    /// Offset of the next byte to decode.
    pub pos: nat,
    /// Bytes of the window; `None` before the first load, after a failed
    /// one, and while a window that had to grow awaits its load.
    pub chunk: Option<Seq<u8>>,
    /// Offset in the source at which the window begins.
    pub chunk_start: nat,
    /// Target size of the window.
    pub chunk_size: nat,
}

/// A decode step seen as a transition: the state it leaves and what it hands back.
pub struct Outcome<T> {
    pub state: CursorState,
    pub result: Result<Step<T>, CursorError>,
}

impl<T> Outcome<T> {
    /// The step asks the host for a load.
    pub open spec fn asks_load(self) -> bool {
        self.result is Ok && self.result->Ok_0 is Load
    }

    /// The step completes the decode.
    pub open spec fn completes(self) -> bool {
        self.result is Ok && self.result->Ok_0 is Done
    }
}

/// Nanoseconds in `seconds` seconds and `nanos` nanoseconds.
pub open spec fn time_of(seconds: u32, nanos: u32) -> nat {
    (1_000_000_000 * seconds + nanos) as nat
}

impl CursorState {
    /// A cursor that has loaded nothing yet.
    pub open spec fn fresh(len: nat, chunk_size: nat) -> CursorState {
        CursorState { len, pos: 0, chunk: None, chunk_start: 0, chunk_size }
    }

    /// Bytes of the source from the position on.
    pub open spec fn left(self) -> nat {
        (self.len - self.pos) as nat
    }

    /// Number of bytes that a window beginning at `chunk_start` holds: the
    /// target size, cut off at the end of the source.
    pub open spec fn window_len(self) -> nat {
        if self.chunk_start + self.chunk_size <= self.len {
            self.chunk_size
        } else {
            (self.len - self.chunk_start) as nat
        }
    }

    /// Where a load that begins at the position ends: the target size
    /// further on, or at the end of the source.
    pub open spec fn load_end(self) -> nat {
        if self.pos + self.chunk_size <= self.len {
            self.pos + self.chunk_size
        } else {
            self.len
        }
    }

    /// The position lies within the source, and a window that is present
    /// holds exactly `window_len()` bytes.
    pub open spec fn wf(self) -> bool {
        &&& self.pos <= self.len
        &&& self.len <= u64::MAX
        &&& self.chunk_start <= self.len
        &&& self.chunk_size <= u64::MAX
        &&& (self.chunk matches Some(bytes) ==> bytes.len() == self.window_len())
    }

    /// The window holds the `n` bytes that begin at the position.
    pub open spec fn covers(self, n: nat) -> bool {
        &&& self.chunk is Some
        &&& self.chunk_start <= self.pos
        &&& self.pos + n <= self.chunk_start + self.chunk_size
    }

    /// The `n` bytes of the window that begin at the position.
    pub open spec fn window_bytes(self, n: nat) -> Seq<u8>
        recommends
            self.covers(n),
    {
        self.chunk->0.subrange(self.pos - self.chunk_start, self.pos - self.chunk_start + n)
    }

    /// The window, where present, holds the bytes that `source` has there.
    pub open spec fn agrees_with(self, source: Seq<u8>) -> bool {
        &&& source.len() == self.len
        &&& (self.chunk matches Some(bytes) ==> bytes == source.subrange(
            self.chunk_start as int,
            (self.chunk_start + bytes.len()) as int,
        ))
    }

    /// The `n` bytes that `source` holds from the position on.
    pub open spec fn ahead(self, source: Seq<u8>, n: nat) -> Seq<u8>
        recommends
            self.pos + n <= source.len(),
    {
        source.subrange(self.pos as int, (self.pos + n) as int)
    }

    /// The state with the position at `target`.
    pub open spec fn at(self, target: nat) -> CursorState {
        CursorState { pos: target, ..self }
    }

    /// The state after `seek(target)`: the position moves if the target lies
    /// within the source.
    pub open spec fn seek_next(self, target: nat) -> CursorState {
        if target <= self.len {
            self.at(target)
        } else {
            self
        }
    }

    /// The target size after a request for `n` bytes: twice `n` where `n`
    /// exceeds the present size (as far as 64 bits hold it), else unchanged.
    pub open spec fn grown_size(self, n: nat) -> nat {
        if n <= self.chunk_size {
            self.chunk_size
        } else if 2 * n <= u64::MAX {
            2 * n
        } else {
            u64::MAX as nat
        }
    }

    /// The state after the growth policy has seen a request for `n` bytes.
    /// Where the window has to grow, what it held is dropped.
    pub open spec fn grown(self, n: nat) -> CursorState {
        if n <= self.chunk_size {
            self
        } else {
            CursorState { chunk_size: self.grown_size(n), chunk: None, ..self }
        }
    }

    /// A load hands over exactly the bytes of `[pos, load_end())`.
    pub open spec fn load_accepts(self, loaded: Option<Seq<u8>>) -> bool {
        loaded matches Some(bytes) && bytes.len() == self.load_end() - self.pos
    }

    /// The state after `load_chunk(loaded)`: the window begins at the
    /// position and holds the bytes, or is empty where the load failed.
    pub open spec fn load_next(self, loaded: Option<Seq<u8>>) -> CursorState {
        if self.load_accepts(loaded) {
            CursorState { chunk: loaded, chunk_start: self.pos, ..self }
        } else {
            CursorState { chunk: None, ..self }
        }
    }

    /// One step of reading `n` bytes.
    pub open spec fn read_step(self, n: nat) -> Outcome<Seq<u8>> {
        if self.pos + n > self.len {
            Outcome { state: self, result: Err(CursorError::OutOfBounds) }
        } else if self.covers(n) {
            Outcome {
                state: self.at(self.pos + n),
                result: Ok(Step::Done(self.window_bytes(n))),
            }
        } else {
            Outcome {
                state: self.grown(n),
                result: Ok(
                    Step::Load {
                        start: self.pos as u64,
                        end: self.grown(n).load_end() as u64,
                        resume: None,
                    },
                ),
            }
        }
    }

    /// One step of reading a little-endian `u32`.
    pub open spec fn u32_step(self) -> Outcome<u32> {
        let read = self.read_step(4);
        Outcome {
            state: read.state,
            result: match read.result {
                Ok(Step::Done(bytes)) => Ok(Step::Done(le_u32(bytes) as u32)),
                Ok(Step::Load { start, end, resume }) => Ok(Step::Load { start, end, resume }),
                Err(error) => Err(error),
            },
        }
    }

    /// One step of reading a timestamp whose seconds are `seconds`: the
    /// nanoseconds follow at the position.
    pub open spec fn time_rest(self, seconds: u32) -> Outcome<u64> {
        let second = self.u32_step();
        Outcome {
            state: second.state,
            result: match second.result {
                Ok(Step::Done(nanos)) => Ok(Step::Done(time_of(seconds, nanos) as u64)),
                Ok(Step::Load { start, end, resume }) => Ok(
                    Step::Load { start, end, resume: Some(seconds) },
                ),
                Err(error) => Err(error),
            },
        }
    }

    /// One step of reading a timestamp. `resume` holds the seconds where an
    /// earlier step has read them.
    pub open spec fn time_step(self, resume: Option<u32>) -> Outcome<u64> {
        match resume {
            Some(seconds) => self.time_rest(seconds),
            None => {
                let first = self.u32_step();
                match first.result {
                    Ok(Step::Done(seconds)) => first.state.time_rest(seconds),
                    Ok(Step::Load { start, end, resume }) => Outcome {
                        state: first.state,
                        result: Ok(Step::Load { start, end, resume: None }),
                    },
                    Err(error) => Outcome { state: first.state, result: Err(error) },
                }
            },
        }
    }

    /// One step of reading the body of a chunk whose prefix was `count`.
    pub open spec fn chunk_rest(self, count: u32) -> Outcome<Seq<u8>> {
        let body = self.read_step(count as nat);
        Outcome {
            state: body.state,
            result: match body.result {
                Ok(Step::Load { start, end, resume }) => Ok(
                    Step::Load { start, end, resume: Some(count) },
                ),
                other => other,
            },
        }
    }

    /// One step of reading a length-prefixed chunk. `resume` holds the
    /// prefix where an earlier step has read it.
    pub open spec fn chunk_step(self, resume: Option<u32>) -> Outcome<Seq<u8>> {
        match resume {
            Some(count) => self.chunk_rest(count),
            None => {
                let first = self.u32_step();
                match first.result {
                    Ok(Step::Done(count)) => first.state.chunk_rest(count),
                    Ok(Step::Load { start, end, resume }) => Outcome {
                        state: first.state,
                        result: Ok(Step::Load { start, end, resume: None }),
                    },
                    Err(error) => Outcome { state: first.state, result: Err(error) },
                }
            },
        }
    }

    /// The step of skipping the body of a chunk whose prefix was `count`:
    /// the position moves over the body, and the window is to be loaded anew
    /// from there.
    pub open spec fn skip_rest(self, count: u32) -> Outcome<()> {
        if self.pos + count > self.len {
            Outcome { state: self, result: Err(CursorError::OutOfBounds) }
        } else {
            let moved = self.at((self.pos + count) as nat);
            Outcome {
                state: moved,
                result: Ok(
                    Step::Load {
                        start: moved.pos as u64,
                        end: moved.load_end() as u64,
                        resume: Some(count),
                    },
                ),
            }
        }
    }

    /// One step of skipping a length-prefixed chunk. `resume` holds the
    /// prefix once the position has moved over the body and the window has
    /// been loaded anew.
    pub open spec fn skip_step(self, resume: Option<u32>) -> Outcome<()> {
        match resume {
            Some(_) => Outcome { state: self, result: Ok(Step::Done(())) },
            None => {
                let first = self.u32_step();
                match first.result {
                    Ok(Step::Done(count)) => first.state.skip_rest(count),
                    Ok(Step::Load { start, end, resume }) => Outcome {
                        state: first.state,
                        result: Ok(Step::Load { start, end, resume: None }),
                    },
                    Err(error) => Outcome { state: first.state, result: Err(error) },
                }
            },
        }
    }
}

} // verus!
