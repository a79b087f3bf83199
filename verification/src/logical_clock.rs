//! Lamport-style logical clock of a node, with its vector clock.

use vstd::prelude::*;
use crate::vector_clock::{VectorClock, clock_text, incremented, tick_of};

verus! {

/// What a logical clock holds: the next tick it hands out, the next id it hands out, and the
/// entries of its vector clock.
pub struct LogicalClockView {
    pub tick: u64,
    pub next_id: u64,
    pub clock: Map<u64, u64>,
}

/// The value after `v` with wrap-around at `u64::MAX` (the behaviour of `fetch_add`).
pub open spec fn wrapping_next(v: u64) -> u64 {
    if v == u64::MAX {
        0
    } else {
        (v + 1) as u64
    }
}

/// The clock after one `next_tick`.
pub open spec fn after_tick(c: LogicalClockView) -> LogicalClockView {
    LogicalClockView { tick: wrapping_next(c.tick), next_id: c.next_id, clock: incremented(c.clock, 0) }
}

/// The clock after one `next_id`.
pub open spec fn after_id(c: LogicalClockView) -> LogicalClockView {
    LogicalClockView { tick: c.tick, next_id: wrapping_next(c.next_id), clock: c.clock }
}

pub struct LogicalClock {
    tick: u64,
    id_counter: u64,
    vector_clock: VectorClock,
}

impl View for LogicalClock {
    type V = LogicalClockView;

    closed spec fn view(&self) -> LogicalClockView {
        LogicalClockView { tick: self.tick, next_id: self.id_counter, clock: self.vector_clock.ticks@ }
    }
}

impl LogicalClock {
    /// A clock at tick 1 and id 1, whose vector clock lists `node_id` at zero.
    pub fn new(node_id: u64) -> (r: Self)
        ensures
            r@ == fresh_clock(node_id),
    {
        LogicalClock { tick: 1, id_counter: 1, vector_clock: VectorClock::new(node_id) }
    }

    /// Hands out the current tick and advances the clock; the vector clock entry of node 0
    /// advances with it.
    pub fn next_tick(&mut self) -> (t: u64)
        requires
            tick_of(old(self)@.clock, 0) < u64::MAX,
        ensures
            t == old(self)@.tick,
            final(self)@ == after_tick(old(self)@),
    {
        let t = self.tick;
        self.tick = self.tick.wrapping_add(1);
        self.vector_clock.increment(0);
        t
    }

    /// Hands out the next id.
    pub fn next_id(&mut self) -> (id: u64)
        ensures
            id == old(self)@.next_id,
            final(self)@ == after_id(old(self)@),
    {
        let id = self.id_counter;
        self.id_counter = self.id_counter.wrapping_add(1);
        id
    }

    /// The tick that the next `next_tick` hands out.
    pub fn current_tick(&self) -> (t: u64)
        ensures
            t == self@.tick,
    {
        self.tick
    }

    /// The last id handed out, if any id has been.
    pub fn last_id(&self) -> (r: Option<u64>)
        ensures
            r == (if self@.next_id > 1 { Some((self@.next_id - 1) as u64) } else { None::<u64> }),
    {
        let c = self.id_counter;
        if c > 1 {
            Some(c - 1)
        } else {
            None
        }
    }

    /// The text of the vector clock.
    pub fn vector_clock_string(&self) -> (r: String)
        ensures
            r@ == clock_text(self@.clock),
    {
        self.vector_clock.to_string()
    }

    /// Leaves the clock as it is: the clock moves only through `next_tick` and `next_id`.
    pub fn advance(&self, _node_id: u64) {
    }
}

/// Between wrap-arounds, each tick handed out is larger than the one before.
pub proof fn law_ticks_increase(c: LogicalClockView)
    requires
        c.tick < u64::MAX,
    ensures
        after_tick(c).tick > c.tick,
        after_tick(c).tick == c.tick + 1,
{
}

/// Between wrap-arounds, ids are handed out in increasing order, so no id repeats.
pub proof fn law_ids_increase(c: LogicalClockView)
    requires
        c.next_id < u64::MAX,
    ensures
        after_id(c).next_id == c.next_id + 1,
        after_id(c).next_id > c.next_id,
{
}

/// The clock after `m` calls of `next_tick`.
pub open spec fn ticks_after(c: LogicalClockView, m: nat) -> LogicalClockView
    decreases m,
{
    if m == 0 {
        c
    } else {
        after_tick(ticks_after(c, (m - 1) as nat))
    }
}

/// The clock after `k` calls of `next_id`.
pub open spec fn ids_after(c: LogicalClockView, k: nat) -> LogicalClockView
    decreases k,
{
    if k == 0 {
        c
    } else {
        after_id(ids_after(c, (k - 1) as nat))
    }
}

/// What `new` gives.
pub open spec fn fresh_clock(node_id: u64) -> LogicalClockView {
    LogicalClockView { tick: 1, next_id: 1, clock: Map::<u64, u64>::empty().insert(node_id, 0) }
}

/// Short of a wrap-around, `m` calls of `next_tick` hand out the ticks `c.tick`, `c.tick + 1`,
/// ..., `c.tick + m - 1`, pairwise distinct, and raise the tick by exactly `m`; the ids stay.
pub proof fn law_ticks_after(c: LogicalClockView, m: nat)
    requires
        c.tick + m <= u64::MAX,
    ensures
        ticks_after(c, m).tick == c.tick + m,
        ticks_after(c, m).next_id == c.next_id,
        forall|k: nat| k < m ==> #[trigger] ticks_after(c, k).tick == c.tick + k,
        forall|i: nat, j: nat| i < j < m ==> ticks_after(c, i).tick != ticks_after(c, j).tick,
    decreases m,
{
    if m > 0 {
        law_ticks_after(c, (m - 1) as nat);
    }
    assert forall|i: nat, j: nat| i < j < m implies ticks_after(c, i).tick != ticks_after(c, j).tick by {
        law_ticks_after(c, i);
        law_ticks_after(c, j);
    }
}

/// From a fresh clock, the `k`-th call of `next_id` hands out `k`: ids are 1, 2, 3, ..., never
/// reused; afterwards `last_id` is the last id handed out, and the tick and the vector clock
/// are as they were.
pub proof fn law_ids_from_fresh(node_id: u64, k: nat)
    requires
        k < u64::MAX,
    ensures
        ids_after(fresh_clock(node_id), k).next_id == k + 1,
        ids_after(fresh_clock(node_id), k).tick == 1,
        ids_after(fresh_clock(node_id), k).clock == fresh_clock(node_id).clock,
        forall|j: nat| j < k ==> #[trigger] ids_after(fresh_clock(node_id), j).next_id == j + 1,
    decreases k,
{
    if k > 0 {
        law_ids_from_fresh(node_id, (k - 1) as nat);
    }
    assert forall|j: nat| j < k implies #[trigger] ids_after(fresh_clock(node_id), j).next_id == j + 1 by {
        law_ids_from_fresh(node_id, j);
    }
}

} // verus!
