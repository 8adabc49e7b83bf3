//! The decisions of the shared generator state: which block of sequence
//! numbers a caller may take, and when it has to wait.
use vstd::prelude::*;
use crate::layout::{
    position, node_unit, ts_range, compose, MAX_SEQUENCE, SEQUENCE_BITS, SEQUENCE_MASK,
};

verus! {

/// How many sequence numbers one reservation takes at most.
pub const BATCH_SIZE: u64 = 512;

/// What the shared state, last read as `loaded`, allows a caller whose clock
/// reads `now`.
#[derive(Debug, Clone, Copy, PartialEq, Eq, Structural)]
pub enum Plan {
    /// Take the sequence numbers `first..end` of millisecond `ts`; the shared
    /// state is to become `(ts << 13) | end`.
    Reserve { ts: u64, first: u64, end: u64 },
    /// The millisecond of the state has no sequence number left: read the
    /// clock again until it moves on.
    AwaitNextMs,
    /// The clock is behind the state by at most a second: let it catch up.
    AwaitClock,
    /// The clock is behind the state by this many milliseconds, more than a
    /// second.
    Skew(u64),
}

/// The timestamp that a shared state word holds.
pub open spec fn state_ts(state: u64) -> int {
    state as int / node_unit()
}

/// The end of the last reserved block that a shared state word holds.
pub open spec fn state_seq(state: u64) -> int {
    state as int % node_unit()
}

/// The plan for a shared state `loaded` and a clock reading `now`.
pub open spec fn spec_plan(loaded: u64, now: u64) -> Plan {
    let last_ts = state_ts(loaded);
    let last_seq = state_seq(loaded);
    if now == last_ts {
        if last_seq >= MAX_SEQUENCE {
            Plan::AwaitNextMs
        } else {
            Plan::Reserve {
                ts: last_ts as u64,
                first: last_seq as u64,
                end: if last_seq + BATCH_SIZE < MAX_SEQUENCE {
                    (last_seq + BATCH_SIZE) as u64
                } else {
                    MAX_SEQUENCE
                },
            }
        }
    } else if now > last_ts {
        Plan::Reserve { ts: now, first: 0, end: BATCH_SIZE }
    } else if last_ts - now <= 1000 {
        Plan::AwaitClock
    } else {
        Plan::Skew((last_ts - now) as u64)
    }
}

/// The shared state word for timestamp `ts` and sequence `seq`; a timestamp
/// beyond 51 bits wraps, as the shift does.
pub open spec fn state_word(ts: int, seq: int) -> int {
    position(ts, seq) % 0x1_0000_0000_0000_0000
}

/// Decides what a caller may do with the shared state `loaded` when its clock
/// reads `now`.
pub fn plan_batch(loaded: u64, now: u64) -> (p: Plan)
    ensures
        p == spec_plan(loaded, now),
{
    let last_ts = loaded >> SEQUENCE_BITS;
    let last_seq = loaded & SEQUENCE_MASK;
    assert(last_ts == loaded / 0x2000 && last_seq == loaded % 0x2000) by (bit_vector)
        requires
            last_ts == loaded >> 13u64,
            last_seq == loaded & 0x1fffu64,
    ;
    if now == last_ts {
        if last_seq >= MAX_SEQUENCE {
            Plan::AwaitNextMs
        } else {
            let end = if last_seq + BATCH_SIZE < MAX_SEQUENCE {
                last_seq + BATCH_SIZE
            } else {
                MAX_SEQUENCE
            };
            Plan::Reserve { ts: last_ts, first: last_seq, end }
        }
    } else if now > last_ts {
        Plan::Reserve { ts: now, first: 0, end: BATCH_SIZE }
    } else {
        let elapsed = last_ts - now;
        if elapsed <= 1000 {
            Plan::AwaitClock
        } else {
            Plan::Skew(elapsed)
        }
    }
}

/// Packs a timestamp and a sequence number into a shared state word.
pub fn pack_state(ts: u64, seq: u64) -> (r: u64)
    requires
        seq < 0x2000,
    ensures
        r == state_word(ts as int, seq as int),
{
    let r = (ts << SEQUENCE_BITS) | seq;
    assert(r == (ts * 0x2000 + seq) % 0x1_0000_0000_0000_0000) by (bit_vector)
        requires
            r == (ts << 13u64) | seq,
            seq < 0x2000,
    ;
    r
}

/// A reservation takes a nonempty block of valid sequence numbers that lies
/// at or after the state it was planned from, and the state it writes lies
/// after the block: so the shared state only grows, and every block lies
/// between the state it read and the state it wrote.
pub proof fn lemma_reservation_advances(loaded: u64, now: u64)
    requires
        now < 0x8_0000_0000_0000u64,
        spec_plan(loaded, now) is Reserve,
    ensures
        ({
            let p = spec_plan(loaded, now);
            let (ts, first, end) = (p->ts as int, p->first as int, p->end as int);
            &&& first < end <= MAX_SEQUENCE
            &&& loaded <= position(ts, first)
            &&& position(ts, end) == state_word(ts, end)
            &&& loaded < state_word(ts, end)
        }),
{
    let p = spec_plan(loaded, now);
    assert(loaded as int == state_ts(loaded) * 0x2000 + state_seq(loaded));
    assert(p->ts * 0x2000 + p->end < 0x1_0000_0000_0000_0000) by (nonlinear_arith)
        requires p->ts < 0x8_0000_0000_0000u64, p->end < 0x2000;
    if now > state_ts(loaded) {
        assert(state_ts(loaded) * 0x2000 + state_seq(loaded) < now * 0x2000) by (nonlinear_arith)
            requires now > state_ts(loaded), 0 <= state_seq(loaded) < 0x2000;
    }
}

/// Every reservation is for the clock's millisecond: when the clock is ahead
/// of the millisecond the state holds, a fresh block of 512 numbers from 0;
/// when it reads that very millisecond and numbers are left, the 512 numbers
/// (at most up to 8191) after the ones already taken. The clock being
/// behind never reserves: at most a second behind is waited out, more is an
/// error of the full lag.
pub proof fn lemma_reservations_take_clock_ms(loaded: u64, now: u64)
    ensures
        (spec_plan(loaded, now) is Reserve) ==> spec_plan(loaded, now)->ts == now,
        now > loaded as int / 0x2000 ==> spec_plan(loaded, now) == (Plan::Reserve {
            ts: now,
            first: 0,
            end: 512,
        }),
        now == loaded as int / 0x2000 && loaded as int % 0x2000 < 0x1fff ==> {
            let p = spec_plan(loaded, now);
            &&& (p is Reserve)
            &&& p->ts == now
            &&& p->first == loaded as int % 0x2000
            &&& p->end == if loaded as int % 0x2000 + 512 < 0x1fff {
                loaded as int % 0x2000 + 512
            } else {
                0x1fff
            }
        },
        now == loaded as int / 0x2000 && loaded as int % 0x2000 == 0x1fff ==> spec_plan(
            loaded,
            now,
        ) == Plan::AwaitNextMs,
        now < loaded as int / 0x2000 && loaded as int / 0x2000 - now <= 1000 ==> spec_plan(
            loaded,
            now,
        ) == Plan::AwaitClock,
        now + 1000 < loaded as int / 0x2000 ==> spec_plan(loaded, now) == Plan::Skew(
            (loaded as int / 0x2000 - now) as u64,
        ),
{
}

/// Blocks reserved one after the other never meet: when a second reservation
/// is planned from a state at or after the one the first wrote, every
/// identifier of the first block comes before every identifier of the second,
/// for one node and within the timestamp range.
pub proof fn lemma_reservations_ordered(
    loaded1: u64,
    now1: u64,
    loaded2: u64,
    now2: u64,
    node: int,
    seq1: int,
    seq2: int,
)
    requires
        now1 < ts_range(),
        now2 < ts_range(),
        state_ts(loaded1) < ts_range(),
        state_ts(loaded2) < ts_range(),
        0 <= node < 0x400,
        spec_plan(loaded1, now1) matches Plan::Reserve { ts, first, end } && first <= seq1 < end
            && loaded2 >= state_word(ts as int, end as int),
        spec_plan(loaded2, now2) matches Plan::Reserve { ts, first, end } && first <= seq2 < end,
    ensures
        compose(spec_plan(loaded1, now1)->ts as int, node, seq1) < compose(
            spec_plan(loaded2, now2)->ts as int,
            node,
            seq2,
        ),
{
    let p1 = spec_plan(loaded1, now1);
    let p2 = spec_plan(loaded2, now2);
    lemma_reservation_advances(loaded1, now1);
    lemma_reservation_advances(loaded2, now2);
    crate::layout::lemma_id_order_is_position_order(
        p1->ts as int,
        seq1,
        p2->ts as int,
        seq2,
        node,
    );
}

} // verus!
