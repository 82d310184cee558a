//! Time-ordered 64-bit identifiers.
//!
//! An identifier packs a millisecond timestamp (offset from a configured
//! epoch, 41 bits), a worker id (10 bits) and a per-millisecond sequence
//! number (12 bits). The generator is a state machine: the caller reads the
//! clock, hands the reading to [`Snowflake::generate`], and either receives
//! an identifier or is told to wait for the clock to advance.

use vstd::prelude::*;

verus! {

/// Number of distinct timestamps (2^41).
pub const TIMESTAMP_LIMIT: i64 = 2199023255552;

/// Number of distinct worker ids (2^10).
pub const WORKER_LIMIT: u16 = 1024;

/// Number of identifiers one worker can issue within one millisecond (2^12).
pub const SEQUENCE_LIMIT: u16 = 4096;

/// The identifier made of a timestamp, a worker id and a sequence number.
pub open spec fn compose(ts: int, worker: int, seq: int) -> int {
    ts * 4194304 + worker * 4096 + seq
}

/// Why a generator could not be configured.
#[derive(Debug, Clone, Copy, PartialEq, Eq)]
pub enum SnowflakeError {
    WorkerIdOutOfRange,
}

/// Outcome of one generation attempt.
#[derive(Debug, Clone, Copy, PartialEq, Eq)]
pub enum GenStep {
    /// A fresh identifier.
    Issued(i64),
    /// The sequence of this millisecond is used up, or the clock is behind
    /// the last timestamp used: read the clock again later.
    Wait,
    /// The clock reading lies before the epoch or beyond the 41-bit range.
    ClockOutOfRange,
}

/// Generator state: fixed epoch and worker id, the last timestamp used and
/// the next sequence number within it.
pub struct Snowflake {
    epoch: i64,
    worker_id: u16,
    last_ts: i64,
    next_seq: u16,
}

/// The state of a [`Snowflake`] as numbers. `last_ts == -1` before the
/// first identifier.
pub struct SnowflakeView {
    pub epoch: int,
    pub worker_id: int,
    pub last_ts: int,
    pub next_seq: int,
}

impl View for Snowflake {
    type V = SnowflakeView;

    closed spec fn view(&self) -> SnowflakeView {
        SnowflakeView {
            epoch: self.epoch as int,
            worker_id: self.worker_id as int,
            last_ts: self.last_ts as int,
            next_seq: self.next_seq as int,
        }
    }
}

impl SnowflakeView {
    /// The generator state is consistent.
    pub open spec fn wf(self) -> bool {
        &&& i64::MIN <= self.epoch <= i64::MAX
        &&& 0 <= self.worker_id < WORKER_LIMIT
        &&& -1 <= self.last_ts < TIMESTAMP_LIMIT
        &&& 0 <= self.next_seq <= SEQUENCE_LIMIT
        &&& self.last_ts == -1 ==> self.next_seq == 0
    }

    /// A bound that every identifier issued so far lies strictly below, and
    /// that every identifier issued later reaches at least.
    pub open spec fn floor(self) -> int {
        compose(self.last_ts, self.worker_id, self.next_seq)
    }

    /// One generation attempt at clock reading `now` (milliseconds).
    pub open spec fn step(self, now: int) -> (SnowflakeView, GenStep) {
        let ts = now - self.epoch;
        if ts < 0 || ts >= TIMESTAMP_LIMIT {
            (self, GenStep::ClockOutOfRange)
        } else if ts < self.last_ts {
            (self, GenStep::Wait)
        } else if ts == self.last_ts {
            if self.next_seq < SEQUENCE_LIMIT {
                (
                    SnowflakeView { next_seq: self.next_seq + 1, ..self },
                    GenStep::Issued(compose(ts, self.worker_id, self.next_seq) as i64),
                )
            } else {
                (self, GenStep::Wait)
            }
        } else {
            (
                SnowflakeView { last_ts: ts, next_seq: 1, ..self },
                GenStep::Issued(compose(ts, self.worker_id, 0) as i64),
            )
        }
    }

    /// Generation never lowers the floor, and an issued identifier lies
    /// between the floor before and the floor after.
    pub proof fn lemma_step_raises_floor(self, now: int)
        requires
            self.wf(),
        ensures
            self.step(now).0.wf(),
            self.floor() <= self.step(now).0.floor(),
            self.step(now).1 matches GenStep::Issued(id) ==> self.floor() <= id
                < self.step(now).0.floor(),
    {
    }
}

impl Snowflake {
    /// A generator for `worker_id` (0 to 1023) counting time from `epoch`
    /// (milliseconds since the Unix epoch).
    pub fn new(epoch: i64, worker_id: u16) -> (r: Result<Snowflake, SnowflakeError>)
        ensures
            r is Err <==> worker_id >= WORKER_LIMIT,
            r is Err ==> r == Err::<Snowflake, SnowflakeError>(SnowflakeError::WorkerIdOutOfRange),
            r matches Ok(g) ==> g@ == (SnowflakeView {
                epoch: epoch as int,
                worker_id: worker_id as int,
                last_ts: -1,
                next_seq: 0,
            }),
    {
        if worker_id >= WORKER_LIMIT {
            return Err(SnowflakeError::WorkerIdOutOfRange);
        }
        Ok(Snowflake { epoch, worker_id, last_ts: -1, next_seq: 0 })
    }

    pub fn epoch(&self) -> (r: i64)
        ensures
            r == self@.epoch,
    {
        self.epoch
    }

    pub fn worker_id(&self) -> (r: u16)
        ensures
            r == self@.worker_id,
    {
        self.worker_id
    }

    /// One generation attempt at clock reading `now_ms`.
    pub fn generate(&mut self, now_ms: i64) -> (r: GenStep)
        requires
            old(self)@.wf(),
        ensures
            (final(self)@, r) == old(self)@.step(now_ms as int),
            final(self)@.wf(),
    {
        let ts_wide: i128 = now_ms as i128 - self.epoch as i128;
        if ts_wide < 0 || ts_wide >= TIMESTAMP_LIMIT as i128 {
            return GenStep::ClockOutOfRange;
        }
        let ts: i64 = ts_wide as i64;
        if ts < self.last_ts {
            return GenStep::Wait;
        }
        if ts == self.last_ts {
            if self.next_seq >= SEQUENCE_LIMIT {
                return GenStep::Wait;
            }
        } else {
            self.last_ts = ts;
            self.next_seq = 0;
        }
        let id: i64 = ts * 4194304 + (self.worker_id as i64) * 4096 + (self.next_seq as i64);
        self.next_seq = self.next_seq + 1;
        GenStep::Issued(id)
    }
}

/// The identifiers issued by `g` over successive clock readings `times`,
/// in the order they were issued.
pub open spec fn issued_ids(g: SnowflakeView, times: Seq<int>) -> Seq<i64>
    decreases times.len(),
{
    if times.len() == 0 {
        Seq::empty()
    } else {
        let (next, r) = g.step(times[0]);
        let rest = issued_ids(next, times.drop_first());
        match r {
            GenStep::Issued(id) => seq![id] + rest,
            _ => rest,
        }
    }
}

/// Whatever the clock does (standing still, advancing, or moving
/// backwards; readings as milliseconds), the identifiers a generator issues strictly increase: they
/// are pairwise distinct, and none is smaller than one issued before it.
pub proof fn lemma_issued_ids_increase(g: SnowflakeView, times: Seq<int>)
    requires
        g.wf(),
    ensures
        forall|i: int| 0 <= i < issued_ids(g, times).len() ==> g.floor() <= #[trigger] issued_ids(g, times)[i],
        forall|i: int, j: int|
            0 <= i < j < issued_ids(g, times).len() ==> #[trigger] issued_ids(g, times)[i]
                < #[trigger] issued_ids(g, times)[j],
    decreases times.len(),
{
    if times.len() > 0 {
        let (next, r) = g.step(times[0]);
        g.lemma_step_raises_floor(times[0]);
        lemma_issued_ids_increase(next, times.drop_first());
        let rest = issued_ids(next, times.drop_first());
        let all = issued_ids(g, times);
        match r {
            GenStep::Issued(id) => {
                assert(all == seq![id] + rest);
                assert forall|i: int| 0 <= i < all.len() implies g.floor() <= #[trigger] all[i] by {
                    if i > 0 {
                        assert(all[i] == rest[i - 1]);
                    }
                }
                assert forall|i: int, j: int| 0 <= i < j < all.len() implies #[trigger] all[i]
                    < #[trigger] all[j] by {
                    assert(all[j] == rest[j - 1]);
                    if i > 0 {
                        assert(all[i] == rest[i - 1]);
                    }
                }
            },
            _ => {
                assert(all == rest);
            },
        }
    }
}

/// The state of `g` after successive clock readings `times`.
pub open spec fn state_after(g: SnowflakeView, times: Seq<int>) -> SnowflakeView
    decreases times.len(),
{
    if times.len() == 0 {
        g
    } else {
        state_after(g.step(times[0]).0, times.drop_first())
    }
}

/// After any run, whatever the clock reads next (an earlier time
/// included), an identifier issued then exceeds the maximum of all
/// identifiers issued before.
pub proof fn lemma_next_id_exceeds_all(g: SnowflakeView, times: Seq<int>, now: int)
    requires
        g.wf(),
    ensures
        state_after(g, times).wf(),
        forall|i: int|
            0 <= i < issued_ids(g, times).len() ==> #[trigger] issued_ids(g, times)[i] < state_after(
                g,
                times,
            ).floor(),
        state_after(g, times).step(now).1 matches GenStep::Issued(id) ==> forall|i: int|
            0 <= i < issued_ids(g, times).len() ==> #[trigger] issued_ids(g, times)[i] < id,
    decreases times.len(),
{
    if times.len() > 0 {
        let (next, r) = g.step(times[0]);
        g.lemma_step_raises_floor(times[0]);
        lemma_next_id_exceeds_all(next, times.drop_first(), now);
        lemma_issued_ids_increase(next, times.drop_first());
        let rest = issued_ids(next, times.drop_first());
        let all = issued_ids(g, times);
        let last = state_after(g, times);
        assert(last == state_after(next, times.drop_first()));
        if rest.len() > 0 {
            assert(next.floor() <= rest[0]);
        }
        assert(next.floor() <= last.floor()) by {
            lemma_floor_grows(next, times.drop_first());
        }
        match r {
            GenStep::Issued(id) => {
                assert(all == seq![id] + rest);
                assert forall|i: int| 0 <= i < all.len() implies #[trigger] all[i] < last.floor() by {
                    if i > 0 {
                        assert(all[i] == rest[i - 1]);
                    }
                }
            },
            _ => {
                assert(all == rest);
            },
        }
    }
    state_after(g, times).lemma_step_raises_floor(now);
}

/// A run never lowers the floor.
pub proof fn lemma_floor_grows(g: SnowflakeView, times: Seq<int>)
    requires
        g.wf(),
    ensures
        state_after(g, times).wf(),
        g.floor() <= state_after(g, times).floor(),
    decreases times.len(),
{
    if times.len() > 0 {
        g.lemma_step_raises_floor(times[0]);
        lemma_floor_grows(g.step(times[0]).0, times.drop_first());
    }
}

/// Identifiers issued by one generator are pairwise distinct.
pub proof fn lemma_issued_ids_unique(g: SnowflakeView, times: Seq<int>)
    requires
        g.wf(),
    ensures
        forall|i: int, j: int|
            0 <= i < issued_ids(g, times).len() && 0 <= j < issued_ids(g, times).len() && i != j
                ==> #[trigger] issued_ids(g, times)[i] != #[trigger] issued_ids(g, times)[j],
{
    lemma_issued_ids_increase(g, times);
    assert forall|i: int, j: int|
        0 <= i < issued_ids(g, times).len() && 0 <= j < issued_ids(g, times).len() && i != j
            implies #[trigger] issued_ids(g, times)[i] != #[trigger] issued_ids(g, times)[j] by {
        if i < j {
            assert(issued_ids(g, times)[i] < issued_ids(g, times)[j]);
        } else {
            assert(issued_ids(g, times)[j] < issued_ids(g, times)[i]);
        }
    }
}

} // verus!
