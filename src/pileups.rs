use crate::column::{Alignment, Pileup};
use vstd::prelude::*;

verus! {

/// The one error of a walk over pileups: the engine failed to generate a
/// column, and says nothing more.
#[derive(PartialEq, Eq, Structural, Debug, Clone, Copy)]
pub enum PileupError {
    Generation,
}

impl PileupError {
    /// A short text that says what went wrong.
    pub fn description(&self) -> (r: &'static str)
        ensures
            r@ == "error generating pileup"@,
    {
        proof {
            reveal_strlit("error generating pileup");
        }
        "error generating pileup"
    }
}

/// Where a walk stands: it may still ask the engine for columns, or it has
/// seen the end of the data, or the engine's failure.
#[derive(PartialEq, Eq, Structural, Debug, Clone, Copy)]
pub enum Phase {
    Active,
    Exhausted,
    Failed,
}

/// A call that the walk asks its owner to make on the engine's handle.
#[derive(PartialEq, Eq, Structural, Debug, Clone, Copy)]
pub enum EngineCall {
    /// Cap the number of reads per column.
    SetMaxDepth(u32),
    /// Discard the reads the engine holds in its buffer.
    ResetBuffer,
    /// Free the iteration handle.
    Destroy,
}

/// What one call of the engine's "next column" operation handed back: the
/// column's alignments, or nothing where the engine returned null, and the
/// three output slots (reference id, position, depth).
pub struct EngineReply<R> {
    pub column: Option<Vec<Alignment<R>>>,
    pub tid: i32,
    pub pos: i32,
    pub depth: i32,
}

impl<R> EngineReply<R> {
    /// The engine's own guarantee: a column holds exactly `depth` alignments.
    pub open spec fn wf(&self) -> bool {
        match self.column {
            Some(v) => self.depth >= 0 && v@.len() == self.depth as int,
            None => true,
        }
    }
}

/// What a pull yields, seen from outside: a column with its reference id,
/// position and depth, the error, or the end of the data.
#[derive(PartialEq, Eq, Structural, Debug, Clone, Copy)]
pub enum Pulled {
    Column(u32, u32, u32),
    Failure,
    End,
}

/// The engine's 32-bit output slot read as unsigned, bit for bit.
pub open spec fn as_unsigned(x: i32) -> u32 {
    if x >= 0 {
        x as u32
    } else {
        (x + 0x1_0000_0000int) as u32
    }
}

/// What a pull's result says, with the column's contents left out.
pub open spec fn pulled_of<R>(r: Option<Result<Pileup<R>, PileupError>>) -> Pulled {
    match r {
        Some(Ok(c)) => Pulled::Column(c.tid_spec(), c.pos_spec(), c.depth_spec()),
        Some(Err(_)) => Pulled::Failure,
        None => Pulled::End,
    }
}

/// The forward-only walk over the columns that an engine produces, and the
/// duty to release the engine's handle: reset, then destroy, once.
///
/// The walk owns no engine: its owner makes each engine call that the walk
/// asks for and hands back what came of it.
#[derive(PartialEq, Eq, Structural, Debug, Clone, Copy)]
pub struct Pileups {
    pub phase: Phase,
    pub released: bool,
}

/// Whether a pull from `p` calls the engine.
pub open spec fn calls_engine(p: Pileups) -> bool {
    p.phase == Phase::Active && !p.released
}

/// The walk after one pull that got `reply` from the engine (or did not call it).
pub open spec fn next_state<R>(p: Pileups, reply: EngineReply<R>) -> Pileups {
    if !calls_engine(p) {
        p
    } else {
        match reply.column {
            Some(_) => p,
            None => Pileups {
                phase: if reply.depth == -1 { Phase::Failed } else { Phase::Exhausted },
                released: p.released,
            },
        }
    }
}

/// What one pull from `p` yields when the engine answers `reply`.
pub open spec fn pulled<R>(p: Pileups, reply: EngineReply<R>) -> Pulled {
    if !calls_engine(p) {
        Pulled::End
    } else {
        match reply.column {
            Some(_) => Pulled::Column(
                as_unsigned(reply.tid),
                as_unsigned(reply.pos),
                reply.depth as u32,
            ),
            None => if reply.depth == -1 {
                Pulled::Failure
            } else {
                Pulled::End
            },
        }
    }
}

/// The engine calls that tearing down `p` asks for.
pub open spec fn teardown_calls(p: Pileups) -> Seq<EngineCall> {
    if p.released {
        seq![]
    } else {
        seq![EngineCall::ResetBuffer, EngineCall::Destroy]
    }
}

/// The walk after pulling once for each of `replies`, in order.
pub open spec fn state_after<R>(p: Pileups, replies: Seq<EngineReply<R>>) -> Pileups
    decreases replies.len(),
{
    if replies.len() == 0 {
        p
    } else {
        next_state(state_after(p, replies.drop_last()), replies.last())
    }
}

/// What the `j`-th of a run of pulls from `p` yields.
pub open spec fn pulled_at<R>(p: Pileups, replies: Seq<EngineReply<R>>, j: int) -> Pulled {
    pulled(state_after(p, replies.take(j)), replies[j])
}

/// Whether the `j`-th of a run of pulls from `p` calls the engine.
pub open spec fn engine_called_at<R>(p: Pileups, replies: Seq<EngineReply<R>>, j: int) -> bool {
    calls_engine(state_after(p, replies.take(j)))
}

/// Where the engine answers `replies[i]` with a column for every `i < k`, the
/// walk is still active after those `k` pulls.
proof fn lemma_active_through_columns<R>(p: Pileups, replies: Seq<EngineReply<R>>, k: int)
    requires
        calls_engine(p),
        0 <= k <= replies.len(),
        forall|i: int| 0 <= i < k ==> (#[trigger] replies[i]).column is Some,
    ensures
        state_after(p, replies.take(k)) == p,
    decreases k,
{
    if k > 0 {
        lemma_active_through_columns(p, replies, k - 1);
        assert(replies.take(k).drop_last() =~= replies.take(k - 1));
    }
}

/// Once a walk has stopped calling the engine, no pull makes it call again.
proof fn lemma_stays_done<R>(p: Pileups, replies: Seq<EngineReply<R>>, k: int, j: int)
    requires
        0 <= k <= j <= replies.len(),
        !calls_engine(state_after(p, replies.take(k))),
    ensures
        state_after(p, replies.take(j)) == state_after(p, replies.take(k)),
    decreases j - k,
{
    if j > k {
        lemma_stays_done(p, replies, k, j - 1);
        assert(replies.take(j).drop_last() =~= replies.take(j - 1));
    }
}

/// A fresh walk over an engine that produces `n` columns and then signals the
/// end of the data yields those `n` columns, each with the reference id,
/// position and depth that the engine gave it, then the end of the data,
/// and from then on only the end of the data without calling the engine
/// again. Where the engine's (reference id, position) pairs are
/// non-decreasing, so are those of the columns yielded.
pub proof fn lemma_columns_then_end<R>(replies: Seq<EngineReply<R>>, n: int)
    requires
        0 <= n < replies.len(),
        forall|i: int| 0 <= i < replies.len() ==> (#[trigger] replies[i]).wf(),
        forall|i: int| 0 <= i < n ==> (#[trigger] replies[i]).column is Some,
        replies[n].column is None,
        replies[n].depth != -1,
    ensures
        forall|i: int|
            0 <= i < n ==> #[trigger] pulled_at(Pileups::fresh(), replies, i) == Pulled::Column(
                as_unsigned(replies[i].tid),
                as_unsigned(replies[i].pos),
                replies[i].depth as u32,
            ),
        pulled_at(Pileups::fresh(), replies, n) == Pulled::End,
        forall|j: int|
            n < j < replies.len() ==> #[trigger] pulled_at(Pileups::fresh(), replies, j)
                == Pulled::End && !engine_called_at(Pileups::fresh(), replies, j),
        (forall|i: int|
            0 <= i < n ==> (#[trigger] replies[i]).tid >= 0 && replies[i].pos >= 0)
            && (forall|i: int|
            0 < i < n ==> (#[trigger] replies[i - 1]).tid < replies[i].tid || (replies[i
                - 1].tid == replies[i].tid && replies[i - 1].pos <= replies[i].pos))
            ==> forall|i: int, j: int|
            0 <= i < j < n ==> #[trigger] column_le(
                pulled_at(Pileups::fresh(), replies, i),
                pulled_at(Pileups::fresh(), replies, j),
            ),
{
    let p = Pileups::fresh();
    assert forall|i: int| 0 <= i <= n implies state_after(p, #[trigger] replies.take(i)) == p by {
        lemma_active_through_columns(p, replies, i);
    }
    assert(replies.take(n + 1).drop_last() =~= replies.take(n));
    let q = state_after(p, replies.take(n + 1));
    assert(q.phase == Phase::Exhausted);
    assert forall|j: int| n < j < replies.len() implies #[trigger] pulled_at(p, replies, j)
        == Pulled::End && !engine_called_at(p, replies, j) by {
        lemma_stays_done(p, replies, n + 1, j);
    }
    if (forall|i: int| 0 <= i < n ==> (#[trigger] replies[i]).tid >= 0 && replies[i].pos >= 0)
        && (forall|i: int|
        0 < i < n ==> (#[trigger] replies[i - 1]).tid < replies[i].tid || (replies[i - 1].tid
            == replies[i].tid && replies[i - 1].pos <= replies[i].pos)) {
        assert forall|i: int, j: int| 0 <= i < j < n implies #[trigger] column_le(
            pulled_at(p, replies, i),
            pulled_at(p, replies, j),
        ) by {
            lemma_sorted_pairs(replies, i, j);
        }
    }
}

/// Ordering of yielded columns by reference id, then position.
pub open spec fn column_le(a: Pulled, b: Pulled) -> bool {
    match (a, b) {
        (Pulled::Column(t1, p1, _), Pulled::Column(t2, p2, _)) => t1 < t2 || (t1 == t2 && p1 <= p2),
        _ => false,
    }
}

proof fn lemma_sorted_pairs<R>(replies: Seq<EngineReply<R>>, i: int, j: int)
    requires
        0 <= i < j <= replies.len(),
        forall|k: int|
            0 < k < j ==> (#[trigger] replies[k - 1]).tid < replies[k].tid || (replies[k - 1].tid
                == replies[k].tid && replies[k - 1].pos <= replies[k].pos),
    ensures
        replies[i].tid < replies[j - 1].tid || (replies[i].tid == replies[j - 1].tid
            && replies[i].pos <= replies[j - 1].pos),
    decreases j - i,
{
    if j - 1 > i {
        lemma_sorted_pairs(replies, i, j - 1);
        assert(replies[(j - 1) - 1].tid < replies[j - 1].tid || (replies[(j - 1) - 1].tid
            == replies[j - 1].tid && replies[(j - 1) - 1].pos <= replies[j - 1].pos));
    }
}

/// Where the engine signals its failure on pull `k` of a fresh walk, pulls
/// before it yield columns, pull `k` yields the error, and every later pull
/// yields the end of the data without calling the engine again.
pub proof fn lemma_error_is_terminal<R>(replies: Seq<EngineReply<R>>, k: int)
    requires
        0 <= k < replies.len(),
        forall|i: int| 0 <= i < k ==> (#[trigger] replies[i]).column is Some,
        replies[k].column is None,
        replies[k].depth == -1,
    ensures
        forall|i: int|
            0 <= i < k ==> (#[trigger] pulled_at(Pileups::fresh(), replies, i)) is Column,
        pulled_at(Pileups::fresh(), replies, k) == Pulled::Failure,
        forall|j: int|
            k < j < replies.len() ==> #[trigger] pulled_at(Pileups::fresh(), replies, j)
                == Pulled::End && !engine_called_at(Pileups::fresh(), replies, j),
{
    let p = Pileups::fresh();
    assert forall|i: int| 0 <= i <= k implies state_after(p, #[trigger] replies.take(i)) == p by {
        lemma_active_through_columns(p, replies, i);
    }
    assert(replies.take(k + 1).drop_last() =~= replies.take(k));
    assert forall|j: int| k < j < replies.len() implies #[trigger] pulled_at(p, replies, j)
        == Pulled::End && !engine_called_at(p, replies, j) by {
        lemma_stays_done(p, replies, k + 1, j);
    }
}

/// However a walk went (to its end, to the error, or left after any number
/// of pulls), tearing it down asks for a reset of the engine's buffer and
/// then the destruction of its handle, and tearing it down again asks for
/// nothing.
pub proof fn lemma_teardown_once<R>(replies: Seq<EngineReply<R>>)
    ensures
        teardown_calls(state_after(Pileups::fresh(), replies)) == seq![
            EngineCall::ResetBuffer,
            EngineCall::Destroy,
        ],
        teardown_calls(
            Pileups { released: true, ..state_after(Pileups::fresh(), replies) },
        ) == Seq::<EngineCall>::empty(),
    decreases replies.len(),
{
    if replies.len() > 0 {
        lemma_teardown_once(replies.drop_last());
    }
}

/// A cap on the reads per column, asked for at any point of a walk before
/// teardown, reaches the engine as the same value.
pub proof fn lemma_max_depth_forwarded<R>(replies: Seq<EngineReply<R>>, k: u32)
    ensures
        max_depth_call(state_after(Pileups::fresh(), replies), k) == Some(EngineCall::SetMaxDepth(k)),
    decreases replies.len(),
{
    if replies.len() > 0 {
        lemma_max_depth_forwarded(replies.drop_last(), k);
    }
}

/// The engine call that a cap of `depth` asks for in state `p`.
pub open spec fn max_depth_call(p: Pileups, depth: u32) -> Option<EngineCall> {
    if p.released {
        None
    } else {
        Some(EngineCall::SetMaxDepth(depth))
    }
}

fn to_unsigned(x: i32) -> (r: u32)
    ensures
        r == as_unsigned(x),
{
    if x >= 0 {
        x as u32
    } else {
        let wide: i64 = (x as i64) + 0x1_0000_0000i64;
        wide as u32
    }
}

impl Pileups {
    /// The state of a walk over a freshly created engine handle.
    pub open spec fn fresh() -> Pileups {
        Pileups { phase: Phase::Active, released: false }
    }

    /// A walk over a freshly created engine handle.
    pub fn new() -> (r: Self)
        ensures
            r == Pileups::fresh(),
    {
        Pileups { phase: Phase::Active, released: false }
    }

    /// Whether the next pull must call the engine; where it need not, the
    /// pull yields the end of the data.
    pub fn needs_engine(&self) -> (r: bool)
        ensures
            r == calls_engine(*self),
    {
        self.phase == Phase::Active && !self.released
    }

    /// One pull: decides from the engine's reply whether it is a column, the
    /// end of the data, or the engine's failure. A walk that is over does not
    /// look at `reply` and yields the end of the data.
    pub fn advance<R>(&mut self, reply: EngineReply<R>) -> (r: Option<Result<Pileup<R>, PileupError>>)
        requires
            reply.wf(),
        ensures
            *final(self) == next_state(*old(self), reply),
            pulled_of(r) == pulled(*old(self), reply),
            match r {
                Some(Ok(c)) => reply.column is Some && reply.column->0@ == c.alignments_spec(),
                _ => true,
            },
    {
        if !self.needs_engine() {
            return None;
        }
        match reply.column {
            Some(inner) => {
                let depth = reply.depth as u32;
                let tid = to_unsigned(reply.tid);
                let pos = to_unsigned(reply.pos);
                Some(Ok(Pileup::new(tid, pos, depth, inner)))
            },
            None => {
                if reply.depth == -1 {
                    self.phase = Phase::Failed;
                    Some(Err(PileupError::Generation))
                } else {
                    self.phase = Phase::Exhausted;
                    None
                }
            },
        }
    }

    /// Forwards a cap on the reads per column to the engine, unchanged,
    /// while the handle is alive.
    pub fn set_max_depth(&mut self, depth: u32) -> (r: Option<EngineCall>)
        ensures
            *final(self) == *old(self),
            r == max_depth_call(*old(self), depth),
    {
        if self.released {
            None
        } else {
            Some(EngineCall::SetMaxDepth(depth))
        }
    }

    /// Releases the engine: the first call asks to reset its buffer and then
    /// destroy the handle; every later call asks for nothing.
    pub fn teardown(&mut self) -> (r: Vec<EngineCall>)
        ensures
            r@ == teardown_calls(*old(self)),
            final(self).phase == old(self).phase,
            final(self).released,
    {
        if self.released {
            Vec::new()
        } else {
            self.released = true;
            let mut calls: Vec<EngineCall> = Vec::new();
            calls.push(EngineCall::ResetBuffer);
            calls.push(EngineCall::Destroy);
            calls
        }
    }
}

} // verus!
