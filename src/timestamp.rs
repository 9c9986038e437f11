//! Unwrapping of 33-bit MPEG-TS timestamps into a monotone 64-bit domain.

use vstd::prelude::*;

verus! {

/// The largest value a 33-bit MPEG-TS timestamp can hold.
pub const TIMESTAMP_MAX: u64 = 0x1_FFFF_FFFF;

/// One full turn of the 33-bit timestamp counter.
pub const WRAP: u64 = 0x2_0000_0000;

/// Distance beyond which a jump between two timestamps is taken to cross a wrap.
pub const HALF_WRAP: u64 = 0x1_0000_0000;

/// Bound on the accumulated carry, so that unwrapped values always fit an `i64`.
pub const CARRY_LIMIT: u64 = 0x4000_0000_0000_0000;

/// The value `unwrap` gives for `ts`, against the last timestamp `last` and the carry.
pub open spec fn unwrapped_value(last: int, carry: int, ts: int) -> int {
    let diff = ts - last;
    if diff > HALF_WRAP as int {
        ts + carry - WRAP as int
    } else if diff < -(HALF_WRAP as int) {
        ts + carry + WRAP as int
    } else {
        ts + carry
    }
}

/// Whether moving from `last` to `ts` is taken as a forward wrap of the counter.
pub open spec fn wraps_forward(last: int, ts: int) -> bool {
    ts - last < -(HALF_WRAP as int)
}

/// The unwrapper after `update(ts)`: `ts` becomes the last timestamp, and a
/// forward wrap adds one counter turn to the carry (up to its bound).
pub open spec fn updated(u: UnwrapTimestamp, ts: u64) -> UnwrapTimestamp {
    UnwrapTimestamp {
        last: Some(ts),
        carry: if u.last matches Some(l) && wraps_forward(l as int, ts as int) && u.carry < CARRY_LIMIT {
            (u.carry + WRAP) as u64
        } else {
            u.carry
        },
    }
}

/// Turns successive 33-bit timestamps into values of a single 64-bit timeline.
pub struct UnwrapTimestamp {
    pub last: Option<u64>,
    pub carry: u64,
}

impl UnwrapTimestamp {
    /// The carry is a whole number of counter turns, bounded, and the last
    /// timestamp seen is a 33-bit value.
    pub open spec fn wf(&self) -> bool {
        &&& self.carry % WRAP == 0
        &&& self.carry <= CARRY_LIMIT
        &&& (self.last matches Some(l) ==> l <= TIMESTAMP_MAX)
    }

    /// An unwrapper that has seen no timestamp yet.
    pub fn new() -> (r: UnwrapTimestamp)
        ensures
            r.wf(),
            r.last is None,
            r.carry == 0,
    {
        UnwrapTimestamp { last: None, carry: 0 }
    }

    /// Unwraps `ts` against the most recent timestamp given to `update`.
    pub fn unwrap(&self, ts: u64) -> (r: i64)
        requires
            self.wf(),
            self.last is Some,
            ts <= TIMESTAMP_MAX,
        ensures
            r as int == unwrapped_value(self.last->0 as int, self.carry as int, ts as int),
    {
        let last = self.last.unwrap();
        let its = ts as i64;
        let ilast = last as i64;
        let carry = self.carry as i64;
        let diff = its - ilast;
        if diff > HALF_WRAP as i64 {
            its + carry - WRAP as i64
        } else if diff < -(HALF_WRAP as i64) {
            its + carry + WRAP as i64
        } else {
            its + carry
        }
    }

    /// Records `ts` as the most recent timestamp, adding one counter turn to
    /// the carry when the step from the previous timestamp is a forward wrap.
    /// The carry stops growing at its bound.
    pub fn update(&mut self, ts: u64)
        requires
            old(self).wf(),
            ts <= TIMESTAMP_MAX,
        ensures
            final(self).wf(),
            *final(self) == updated(*old(self), ts),
            final(self).last == Some(ts),
            final(self).carry == (if old(self).last matches Some(l) && wraps_forward(l as int, ts as int)
                && old(self).carry < CARRY_LIMIT {
                old(self).carry + WRAP
            } else {
                old(self).carry as int
            }),
    {
        if let Some(last) = self.last {
            let diff = ts as i64 - last as i64;
            if diff < -(HALF_WRAP as i64) && self.carry < CARRY_LIMIT {
                self.carry = self.carry + WRAP;
            }
        }
        self.last = Some(ts);
    }
}

impl Default for UnwrapTimestamp {
    fn default() -> (r: UnwrapTimestamp)
        ensures
            r.wf(),
            r.last is None,
            r.carry == 0,
    {
        UnwrapTimestamp::new()
    }
}

/// Decode timestamps stay in order once unwrapped: after `update(b)` on an
/// unwrapper whose last timestamp was `a`, the unwrapped `b` is at least the
/// unwrapped `a` unless `b` lies behind `a` by no more than half a counter turn
/// (and the carry has not reached its bound).
pub proof fn lemma_unwrapped_dts_monotone(u: UnwrapTimestamp, a: u64, b: u64)
    requires
        u.wf(),
        u.last == Some(a),
        b <= TIMESTAMP_MAX,
        u.carry < CARRY_LIMIT,
    ensures
        ({
            let carry2 = if wraps_forward(a as int, b as int) { u.carry + WRAP } else { u.carry as int };
            let before = unwrapped_value(a as int, u.carry as int, a as int);
            let after = unwrapped_value(b as int, carry2, b as int);
            (after >= before) <==> !(-(HALF_WRAP as int) <= b - a < 0)
        }),
{
}

/// The unwrapper after updating a fresh one with each of `ts` in turn.
pub open spec fn run_state(ts: Seq<u64>) -> UnwrapTimestamp
    decreases ts.len(),
{
    if ts.len() == 0 {
        UnwrapTimestamp { last: None, carry: 0 }
    } else {
        updated(run_state(ts.drop_last()), ts.last())
    }
}

/// The unwrapped value of `ts[i]`, read right after updating with it.
pub open spec fn run_value(ts: Seq<u64>, i: int) -> int {
    unwrapped_value(ts[i] as int, run_state(ts.take(i + 1)).carry as int, ts[i] as int)
}

proof fn lemma_run_carry(ts: Seq<u64>)
    ensures
        run_state(ts).carry % WRAP == 0,
        run_state(ts).carry <= CARRY_LIMIT,
    decreases ts.len(),
{
    if ts.len() > 0 {
        lemma_run_carry(ts.drop_last());
    }
}

proof fn lemma_run_prefix(ts: Seq<u64>, i: int)
    requires
        0 <= i <= ts.len(),
    ensures
        run_state(ts.take(i)).carry <= run_state(ts).carry,
        i > 0 ==> run_state(ts.take(i)).last == Some(ts[i - 1]),
        i < ts.len() ==> run_state(ts.take(i + 1)) == updated(run_state(ts.take(i)), ts[i]),
    decreases ts.len() - i,
{
    if i < ts.len() {
        assert(ts.take(i + 1).drop_last() =~= ts.take(i));
        assert(ts.take(i + 1).last() == ts[i]);
        lemma_run_prefix(ts, i + 1);
    } else {
        assert(ts.take(i) =~= ts);
    }
    if i > 0 {
        assert(ts.take(i).drop_last() =~= ts.take(i - 1));
        assert(ts.take(i).last() == ts[i - 1]);
    }
}

/// Unwrapping a run of 33-bit timestamps, each a forward step of less than
/// half a counter turn from the one before, gives values that increase by
/// exactly that step (taken modulo 2^33) and agree with each timestamp
/// modulo 2^33, while the carry stays below its bound.
pub proof fn lemma_unwrapped_run(ts: Seq<u64>)
    requires
        forall|i: int| 0 <= i < ts.len() ==> #[trigger] ts[i] <= TIMESTAMP_MAX,
        forall|i: int|
            0 < i < ts.len() ==> (#[trigger] ts[i] - ts[i - 1]) % (WRAP as int) < HALF_WRAP as int,
        run_state(ts).carry < CARRY_LIMIT,
    ensures
        forall|i: int|
            0 < i < ts.len() ==> #[trigger] run_value(ts, i) - run_value(ts, i - 1) == (ts[i] - ts[i - 1]) % (
            WRAP as int) && run_value(ts, i - 1) <= run_value(ts, i),
        forall|i: int| 0 <= i < ts.len() ==> #[trigger] run_value(ts, i) % (WRAP as int) == ts[i] as int,
{
    assert forall|i: int| 0 <= i < ts.len() implies #[trigger] run_value(ts, i) % (WRAP as int) == ts[i] as int by {
        lemma_run_carry(ts.take(i + 1));
        let c = run_state(ts.take(i + 1)).carry as int;
        assert((ts[i] as int + c) % (WRAP as int) == ts[i] as int) by (nonlinear_arith)
            requires
                c % (WRAP as int) == 0,
                0 <= ts[i] < WRAP,
                c >= 0,
        ;
    }
    assert forall|i: int| 0 < i < ts.len() implies #[trigger] run_value(ts, i) - run_value(ts, i - 1) == (
    ts[i] - ts[i - 1]) % (WRAP as int) && run_value(ts, i - 1) <= run_value(ts, i) by {
        lemma_run_prefix(ts, i);
        lemma_run_prefix(ts, i - 1);
        lemma_run_prefix(ts, i + 1);
        let d = ts[i] - ts[i - 1];
        let r = d % (WRAP as int);
        assert(r < HALF_WRAP);
        if d < -(HALF_WRAP as int) {
            assert(r == d + WRAP) by (nonlinear_arith)
                requires
                    -(WRAP as int) < d < -(HALF_WRAP as int),
                    r == d % (WRAP as int),
            ;
        } else if d < 0 {
            assert(r == d + WRAP) by (nonlinear_arith)
                requires
                    -(HALF_WRAP as int) <= d < 0,
                    r == d % (WRAP as int),
            ;
        } else {
            assert(r == d) by (nonlinear_arith)
                requires
                    0 <= d < WRAP,
                    r == d % (WRAP as int),
            ;
        }
    }
}

} // verus!
