//! Decodes run to their end: the steps of a decode together with a host
//! that answers each load request with the bytes of the source.

use crate::model::{CursorState, Outcome};
use crate::step::Step;
use vstd::prelude::*;

verus! {

impl CursorState {
    /// The state after the host has answered a load request at the position
    /// with the bytes that `source` holds there.
    pub open spec fn served(self, source: Seq<u8>) -> CursorState {
        self.load_next(Some(source.subrange(self.pos as int, self.load_end() as int)))
    }

    /// Reading `n` bytes to the end: where the step asks for a load, the
    /// host serves it and the step is repeated, `loads` times at most.
    pub open spec fn read_run(self, source: Seq<u8>, n: nat, loads: nat) -> Outcome<Seq<u8>>
        decreases loads,
    {
        let out = self.read_step(n);
        if loads > 0 && out.asks_load() {
            out.state.served(source).read_run(source, n, (loads - 1) as nat)
        } else {
            out
        }
    }

    /// Reading a `u32` to the end, as `read_run` reads bytes.
    pub open spec fn u32_run(self, source: Seq<u8>, loads: nat) -> Outcome<u32>
        decreases loads,
    {
        let out = self.u32_step();
        if loads > 0 && out.asks_load() {
            out.state.served(source).u32_run(source, (loads - 1) as nat)
        } else {
            out
        }
    }

    /// Reading a timestamp to the end. Each repeated step takes the `resume`
    /// that the step before it reported.
    pub open spec fn time_run(self, source: Seq<u8>, resume: Option<u32>, loads: nat) -> Outcome<
        u64,
    >
        decreases loads,
    {
        let out = self.time_step(resume);
        match out.result {
            Ok(Step::Load { start, end, resume: next }) if loads > 0 => out.state.served(
                source,
            ).time_run(source, next, (loads - 1) as nat),
            _ => out,
        }
    }

    /// Reading a length-prefixed chunk to the end. Each repeated step takes
    /// the `resume` that the step before it reported.
    pub open spec fn chunk_run(self, source: Seq<u8>, resume: Option<u32>, loads: nat) -> Outcome<
        Seq<u8>,
    >
        decreases loads,
    {
        let out = self.chunk_step(resume);
        match out.result {
            Ok(Step::Load { start, end, resume: next }) if loads > 0 => out.state.served(
                source,
            ).chunk_run(source, next, (loads - 1) as nat),
            _ => out,
        }
    }

    /// Skipping a length-prefixed chunk to the end. Each repeated step takes
    /// the `resume` that the step before it reported.
    pub open spec fn skip_run(self, source: Seq<u8>, resume: Option<u32>, loads: nat) -> Outcome<
        (),
    >
        decreases loads,
    {
        let out = self.skip_step(resume);
        match out.result {
            Ok(Step::Load { start, end, resume: next }) if loads > 0 => out.state.served(
                source,
            ).skip_run(source, next, (loads - 1) as nat),
            _ => out,
        }
    }

    /// The bytes that `count` reads of one byte each hand out, one after
    /// another, each run to its end with one load at most.
    pub open spec fn single_reads(self, source: Seq<u8>, count: nat) -> Seq<u8>
        decreases count,
    {
        if count == 0 {
            Seq::empty()
        } else {
            let one = self.read_run(source, 1, 1);
            match one.result {
                Ok(Step::Done(byte)) => byte + one.state.single_reads(source, (count - 1) as nat),
                _ => Seq::empty(),
            }
        }
    }
}

} // verus!
