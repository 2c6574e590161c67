//! What holds of the cursor whatever the source and the requests.

use crate::endian::{le_bytes, le_u32, lemma_le_round_trip};
use crate::error::CursorError;
use crate::model::{time_of, CursorState};
use crate::step::Step;
use vstd::prelude::*;

verus! {

/// Every operation leaves a well-formed cursor over the same source, and
/// none makes the window's target size smaller.
pub proof fn lemma_operations_keep_well_formed(
    state: CursorState,
    target: nat,
    loaded: Option<Seq<u8>>,
    n: nat,
    resume: Option<u32>,
)
    requires
        state.wf(),
    ensures
        state.seek_next(target).wf(),
        state.load_next(loaded).wf(),
        state.read_step(n).state.wf(),
        state.u32_step().state.wf(),
        state.time_step(resume).state.wf(),
        state.chunk_step(resume).state.wf(),
        state.skip_step(resume).state.wf(),
        state.seek_next(target).len == state.len,
        state.load_next(loaded).len == state.len,
        state.read_step(n).state.len == state.len,
        state.u32_step().state.len == state.len,
        state.time_step(resume).state.len == state.len,
        state.chunk_step(resume).state.len == state.len,
        state.skip_step(resume).state.len == state.len,
        state.seek_next(target).chunk_size == state.chunk_size,
        state.load_next(loaded).chunk_size == state.chunk_size,
        state.read_step(n).state.chunk_size >= state.chunk_size,
        state.u32_step().state.chunk_size >= state.chunk_size,
        state.time_step(resume).state.chunk_size >= state.chunk_size,
        state.chunk_step(resume).state.chunk_size >= state.chunk_size,
        state.skip_step(resume).state.chunk_size >= state.chunk_size,
{
}

/// A served load leaves a well-formed cursor whose window begins at the
/// position, holds what the source holds from there to the end of the
/// load, and leaves everything else as it was.
pub proof fn lemma_served(state: CursorState, source: Seq<u8>)
    requires
        state.wf(),
        source.len() == state.len,
    ensures
        state.served(source).wf(),
        state.served(source).agrees_with(source),
        state.served(source) == (CursorState {
            chunk: Some(source.subrange(state.pos as int, state.load_end() as int)),
            chunk_start: state.pos,
            ..state
        }),
{
}

/// A read that completes moves the position by exactly `n` and hands out
/// the bytes that the source holds at `[pos, pos + n)`.
pub proof fn lemma_read_hands_out_source_bytes(state: CursorState, source: Seq<u8>, n: nat)
    requires
        state.wf(),
        state.agrees_with(source),
        state.read_step(n).completes(),
    ensures
        state.read_step(n).result == Ok::<Step<Seq<u8>>, CursorError>(
            Step::Done(state.ahead(source, n)),
        ),
        state.read_step(n).state == state.at(state.pos + n),
        state.read_step(n).state.wf(),
        state.read_step(n).state.agrees_with(source),
{
    assert(state.window_bytes(n) =~= state.ahead(source, n));
}

/// A read of `n` bytes that are left in the source completes after one
/// load at most, moves the position by exactly `n`, and hands out the bytes
/// that the source holds at `[pos, pos + n)`, whatever the window held.
pub proof fn lemma_read_run(state: CursorState, source: Seq<u8>, n: nat)
    requires
        state.wf(),
        state.agrees_with(source),
        state.pos + n <= state.len,
    ensures
        state.read_run(source, n, 1).result == Ok::<Step<Seq<u8>>, CursorError>(
            Step::Done(state.ahead(source, n)),
        ),
        state.read_run(source, n, 1).state.pos == state.pos + n,
        state.read_run(source, n, 1).state.len == state.len,
        state.read_run(source, n, 1).state.wf(),
        state.read_run(source, n, 1).state.agrees_with(source),
{
    reveal_with_fuel(CursorState::read_run, 2);
    if state.covers(n) {
        lemma_read_hands_out_source_bytes(state, source, n);
    } else {
        let grown = state.grown(n);
        lemma_served(grown, source);
        let served = grown.served(source);
        assert(served.covers(n));
        lemma_read_hands_out_source_bytes(served, source, n);
    }
}

/// After `seek(p)` with `p` within the source, `len() - p` bytes are left.
pub proof fn lemma_seek_then_left(state: CursorState, p: nat)
    requires
        state.wf(),
        p <= state.len,
    ensures
        state.seek_next(p).left() == state.len - p,
        state.seek_next(p).wf(),
{
}

/// A seek beyond the end of the source leaves the cursor as it was.
pub proof fn lemma_seek_beyond_end(state: CursorState, p: nat)
    requires
        p > state.len,
    ensures
        state.seek_next(p) == state,
{
}

/// A request for more bytes than the window's target size asks for one
/// load at the position, with a target size of at least `n`; once any load
/// of that range has been taken, the same request completes without
/// another.
pub proof fn lemma_growth_loads_once(state: CursorState, n: nat, loaded: Seq<u8>)
    requires
        state.wf(),
        state.pos + n <= state.len,
        n > state.chunk_size,
        state.read_step(n).state.load_accepts(Some(loaded)),
    ensures
        state.read_step(n).result == Ok::<Step<Seq<u8>>, CursorError>(
            Step::Load {
                start: state.pos as u64,
                end: state.read_step(n).state.load_end() as u64,
                resume: None,
            },
        ),
        state.read_step(n).state.chunk_size >= n,
        state.read_step(n).state.pos == state.pos,
        state.read_step(n).state.load_end() >= state.pos + n,
        state.read_step(n).state.load_next(Some(loaded)).read_step(n).result == Ok::<
            Step<Seq<u8>>,
            CursorError,
        >(Step::Done(loaded.subrange(0, n as int))),
{
    let after = state.read_step(n).state.load_next(Some(loaded));
    assert(after.covers(n));
    assert(after.window_bytes(n) =~= loaded.subrange(0, n as int));
}

/// Two reads one after the other ask for no load where the window covers
/// both; where the bytes are left in the source, both complete.
pub proof fn lemma_covered_reads_do_not_load(state: CursorState, first: nat, second: nat)
    requires
        state.wf(),
        state.covers(first + second),
    ensures
        !state.read_step(first).asks_load(),
        !state.read_step(first).state.read_step(second).asks_load(),
        state.pos + first + second <= state.len ==> state.read_step(first).completes()
            && state.read_step(first).state.read_step(second).completes(),
{
}

/// Reads of one byte each hand out, together, the bytes that one read of
/// the whole range hands out: loads between them do not show.
pub proof fn lemma_single_reads_equal_one_read(state: CursorState, source: Seq<u8>, count: nat)
    requires
        state.wf(),
        state.agrees_with(source),
        state.pos + count <= state.len,
    ensures
        state.read_run(source, count, 1).result == Ok::<Step<Seq<u8>>, CursorError>(
            Step::Done(state.single_reads(source, count)),
        ),
        state.single_reads(source, count) == state.ahead(source, count),
    decreases count,
{
    lemma_read_run(state, source, count);
    if count > 0 {
        lemma_read_run(state, source, 1);
        let one = state.read_run(source, 1, 1);
        lemma_single_reads_equal_one_read(one.state, source, (count - 1) as nat);
        assert(state.single_reads(source, count) =~= state.ahead(source, count));
    } else {
        assert(state.single_reads(source, count) =~= state.ahead(source, count));
    }
}

/// A load that fails, or hands over the wrong number of bytes, leaves the
/// position where it was and the window empty, and the next read of bytes
/// that are left asks for a load again.
pub proof fn lemma_failed_load_is_recoverable(state: CursorState, loaded: Option<Seq<u8>>, n: nat)
    requires
        state.wf(),
        !state.load_accepts(loaded),
        state.pos + n <= state.len,
    ensures
        state.load_next(loaded).pos == state.pos,
        state.load_next(loaded).chunk is None,
        state.load_next(loaded).wf(),
        state.load_next(loaded).read_step(n).asks_load(),
        state.load_next(loaded).read_step(n).state.pos == state.pos,
{
}

/// A read of a `u32` whose four bytes are left in the source completes
/// after one load at most, moves the position by four, and hands out the
/// little-endian value of the four bytes that the source holds there.
pub proof fn lemma_u32_run(state: CursorState, source: Seq<u8>)
    requires
        state.wf(),
        state.agrees_with(source),
        state.pos + 4 <= state.len,
    ensures
        state.u32_run(source, 1).result == Ok::<Step<u32>, CursorError>(
            Step::Done(le_u32(state.ahead(source, 4)) as u32),
        ),
        state.u32_run(source, 1).state.pos == state.pos + 4,
        state.u32_run(source, 1).state.len == state.len,
        state.u32_run(source, 1).state.wf(),
        state.u32_run(source, 1).state.agrees_with(source),
{
    reveal_with_fuel(CursorState::u32_run, 2);
    if state.covers(4) {
        lemma_read_hands_out_source_bytes(state, source, 4);
    } else {
        let grown = state.grown(4);
        lemma_served(grown, source);
        let served = grown.served(source);
        assert(served.covers(4));
        lemma_read_hands_out_source_bytes(served, source, 4);
    }
}

/// The nanoseconds of a timestamp whose seconds have been read: the run
/// completes, after one load at most, with the timestamp in nanoseconds.
proof fn lemma_time_rest_run(state: CursorState, source: Seq<u8>, seconds: u32, loads: nat)
    requires
        state.wf(),
        state.agrees_with(source),
        state.pos + 4 <= state.len,
        loads >= 1 || state.covers(4),
    ensures
        state.time_run(source, Some(seconds), loads).result == Ok::<Step<u64>, CursorError>(
            Step::Done(time_of(seconds, le_u32(state.ahead(source, 4)) as u32) as u64),
        ),
        state.time_run(source, Some(seconds), loads).state.pos == state.pos + 4,
        state.time_run(source, Some(seconds), loads).state.len == state.len,
        state.time_run(source, Some(seconds), loads).state.wf(),
        state.time_run(source, Some(seconds), loads).state.agrees_with(source),
{
    reveal_with_fuel(CursorState::time_run, 2);
    if state.covers(4) {
        lemma_read_hands_out_source_bytes(state, source, 4);
    } else {
        let grown = state.grown(4);
        lemma_served(grown, source);
        let served = grown.served(source);
        assert(served.covers(4));
        lemma_read_hands_out_source_bytes(served, source, 4);
    }
}

/// A read of a timestamp whose eight bytes are left in the source
/// completes after two loads at most, moves the position by eight, and
/// hands out `1_000_000_000 * seconds + nanoseconds`, both taken from the
/// source as little-endian `u32`s.
pub proof fn lemma_time_run(state: CursorState, source: Seq<u8>)
    requires
        state.wf(),
        state.agrees_with(source),
        state.pos + 8 <= state.len,
    ensures
        state.time_run(source, None, 2).result == Ok::<Step<u64>, CursorError>(
            Step::Done(
                time_of(
                    le_u32(state.ahead(source, 4)) as u32,
                    le_u32(state.at(state.pos + 4).ahead(source, 4)) as u32,
                ) as u64,
            ),
        ),
        state.time_run(source, None, 2).state.pos == state.pos + 8,
        state.time_run(source, None, 2).state.len == state.len,
        state.time_run(source, None, 2).state.wf(),
        state.time_run(source, None, 2).state.agrees_with(source),
{
    reveal_with_fuel(CursorState::time_run, 2);
    let seconds = le_u32(state.ahead(source, 4)) as u32;
    if state.covers(4) {
        lemma_read_hands_out_source_bytes(state, source, 4);
        let behind = state.at(state.pos + 4);
        lemma_time_rest_run(behind, source, seconds, 1);
        if behind.covers(4) {
            lemma_time_rest_run(behind, source, seconds, 0);
        }
    } else {
        let grown = state.grown(4);
        lemma_served(grown, source);
        let served = grown.served(source);
        assert(served.covers(4));
        lemma_read_hands_out_source_bytes(served, source, 4);
        let behind = served.at(served.pos + 4);
        lemma_time_rest_run(behind, source, seconds, 1);
        if behind.covers(4) {
            lemma_time_rest_run(behind, source, seconds, 0);
        } else {
            let again = behind.grown(4);
            lemma_served(again, source);
            lemma_time_rest_run(again.served(source), source, seconds, 0);
        }
    }
}

/// The body of a chunk whose prefix has been read: the run completes,
/// after one load at most, with the bytes of the body.
proof fn lemma_chunk_rest_run(state: CursorState, source: Seq<u8>, count: u32, loads: nat)
    requires
        state.wf(),
        state.agrees_with(source),
        state.pos + count <= state.len,
        loads >= 1 || state.covers(count as nat),
    ensures
        state.chunk_run(source, Some(count), loads).result == Ok::<Step<Seq<u8>>, CursorError>(
            Step::Done(state.ahead(source, count as nat)),
        ),
        state.chunk_run(source, Some(count), loads).state.pos == state.pos + count,
        state.chunk_run(source, Some(count), loads).state.len == state.len,
        state.chunk_run(source, Some(count), loads).state.wf(),
        state.chunk_run(source, Some(count), loads).state.agrees_with(source),
{
    reveal_with_fuel(CursorState::chunk_run, 2);
    let n = count as nat;
    if state.covers(n) {
        lemma_read_hands_out_source_bytes(state, source, n);
    } else {
        let grown = state.grown(n);
        lemma_served(grown, source);
        let served = grown.served(source);
        assert(served.covers(n));
        lemma_read_hands_out_source_bytes(served, source, n);
    }
}

/// A read of a length-prefixed chunk that lies within the source completes
/// after two loads at most, hands out the bytes that follow the prefix, as
/// many as the prefix counts, and leaves the position behind them.
pub proof fn lemma_chunk_run(state: CursorState, source: Seq<u8>)
    requires
        state.wf(),
        state.agrees_with(source),
        state.pos + 4 <= state.len,
        state.pos + 4 + le_u32(state.ahead(source, 4)) <= state.len,
    ensures
        state.chunk_run(source, None, 2).result == Ok::<Step<Seq<u8>>, CursorError>(
            Step::Done(state.at(state.pos + 4).ahead(source, le_u32(state.ahead(source, 4)))),
        ),
        state.chunk_run(source, None, 2).state.pos == state.pos + 4 + le_u32(
            state.ahead(source, 4),
        ),
        state.chunk_run(source, None, 2).state.len == state.len,
        state.chunk_run(source, None, 2).state.wf(),
        state.chunk_run(source, None, 2).state.agrees_with(source),
{
    reveal_with_fuel(CursorState::chunk_run, 2);
    let count = le_u32(state.ahead(source, 4)) as u32;
    let n = count as nat;
    if state.covers(4) {
        lemma_read_hands_out_source_bytes(state, source, 4);
        let behind = state.at(state.pos + 4);
        lemma_chunk_rest_run(behind, source, count, 1);
        if behind.covers(n) {
            lemma_chunk_rest_run(behind, source, count, 0);
        }
    } else {
        let grown = state.grown(4);
        lemma_served(grown, source);
        let served = grown.served(source);
        assert(served.covers(4));
        lemma_read_hands_out_source_bytes(served, source, 4);
        let behind = served.at(served.pos + 4);
        lemma_chunk_rest_run(behind, source, count, 1);
        if behind.covers(n) {
            lemma_chunk_rest_run(behind, source, count, 0);
        } else {
            let again = behind.grown(n);
            lemma_served(again, source);
            lemma_chunk_rest_run(again.served(source), source, count, 0);
        }
    }
}

/// A chunk written as the little-endian `u32` of its length, then its
/// bytes, is read back as exactly those bytes, whatever its length and
/// whatever the window holds; the position ends behind it.
pub proof fn lemma_chunk_round_trip(state: CursorState, source: Seq<u8>, data: Seq<u8>)
    requires
        state.wf(),
        state.agrees_with(source),
        data.len() <= u32::MAX,
        state.pos + 4 + data.len() <= state.len,
        state.ahead(source, 4 + data.len()) == le_bytes(data.len() as u32) + data,
    ensures
        state.chunk_run(source, None, 2).result == Ok::<Step<Seq<u8>>, CursorError>(
            Step::Done(data),
        ),
        state.chunk_run(source, None, 2).state.pos == state.pos + 4 + data.len(),
{
    let written = state.ahead(source, 4 + data.len());
    lemma_le_round_trip(data.len() as u32, data);
    assert(state.ahead(source, 4) =~= le_bytes(data.len() as u32)) by {
        assert forall|i: int| 0 <= i < 4 implies state.ahead(source, 4)[i] == le_bytes(
            data.len() as u32,
        )[i] by {
            assert(written[i] == source[state.pos + i]);
        }
    }
    lemma_le_round_trip(data.len() as u32, Seq::empty());
    assert(le_bytes(data.len() as u32) + Seq::<u8>::empty() =~= le_bytes(data.len() as u32));
    assert(state.at(state.pos + 4).ahead(source, data.len()) =~= data) by {
        assert forall|i: int| 0 <= i < data.len() implies state.at(state.pos + 4).ahead(
            source,
            data.len(),
        )[i] == data[i] by {
            assert(written[i + 4] == source[state.pos + i + 4]);
        }
    }
    lemma_chunk_run(state, source);
}

/// A skip of a length-prefixed chunk that lies within the source completes
/// after two loads at most, leaves the position behind the chunk, and
/// leaves a window that begins there.
pub proof fn lemma_skip_run(state: CursorState, source: Seq<u8>)
    requires
        state.wf(),
        state.agrees_with(source),
        state.pos + 4 <= state.len,
        state.pos + 4 + le_u32(state.ahead(source, 4)) <= state.len,
    ensures
        state.skip_run(source, None, 2).result == Ok::<Step<()>, CursorError>(Step::Done(())),
        state.skip_run(source, None, 2).state.pos == state.pos + 4 + le_u32(
            state.ahead(source, 4),
        ),
        state.skip_run(source, None, 2).state.chunk is Some,
        state.skip_run(source, None, 2).state.chunk_start == state.skip_run(
            source,
            None,
            2,
        ).state.pos,
        state.skip_run(source, None, 2).state.len == state.len,
        state.skip_run(source, None, 2).state.wf(),
        state.skip_run(source, None, 2).state.agrees_with(source),
{
    reveal_with_fuel(CursorState::skip_run, 3);
    let count = le_u32(state.ahead(source, 4)) as u32;
    if state.covers(4) {
        lemma_read_hands_out_source_bytes(state, source, 4);
        let moved = state.at((state.pos + 4 + count) as nat);
        lemma_served(moved, source);
    } else {
        let grown = state.grown(4);
        lemma_served(grown, source);
        let served = grown.served(source);
        assert(served.covers(4));
        lemma_read_hands_out_source_bytes(served, source, 4);
        let moved = served.at((served.pos + 4 + count) as nat);
        lemma_served(moved, source);
    }
}

} // verus!
