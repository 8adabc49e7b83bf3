//! The generator: a node id, a shared atomic state from which callers
//! reserve blocks of sequence numbers, and the per-caller caches.
use vstd::prelude::*;
use std::sync::atomic::{AtomicU64, Ordering};
use crate::batch::{
    Plan, spec_plan, plan_batch, pack_state, state_word, lemma_reservations_take_clock_ms,
};
use crate::clock::{current_timestamp_ms, spec_timestamp_of_reading, ClockStamp, read_clock_stamp};
use crate::error::IdError;
use crate::id::Id;
use crate::layout::{
    compose, node_field, seq_field, ts_field, ts_range, lemma_compose_fields, MAX_NODE_ID, MAX_SEQUENCE,
    TIMESTAMP_LIMIT,
};
use crate::node::{thread_local_entropy, resolve_node_id, spec_configured_node};

verus! {

/// What one attempt to generate an identifier came to.
#[derive(Debug, Clone, Copy, PartialEq, Eq, Structural)]
pub enum Attempt {
    /// A fresh identifier.
    Issued(Id),
    /// The attempt failed for good: the clock is behind by more than a
    /// second or before the custom epoch, or (for `generate_simple` on a
    /// generator with a fixed timestamp) the sequence numbers are used up.
    Failed(IdError),
    /// Nothing yet: spin briefly and try again (the millisecond is used up,
    /// or another caller changed the shared state first).
    Spin,
    /// Nothing yet: let other threads run and try again (the clock is
    /// slightly behind, or cannot be read).
    Yield,
}

/// A caller's cache of reserved sequence numbers: the generator it belongs
/// to (by tag), the millisecond, the next sequence number and the end of the
/// block. Keep one per thread and pass it to `Generator::generate`. It also
/// records, for proofs only, what the last attempt on it handed to the
/// compare-exchange of the shared state, and it keeps the last wall-clock
/// reading an attempt on it took.
pub struct ThreadBatch {
    tag: u64,
    ts: u64,
    next: u64,
    end: u64,
    handed: Ghost<Option<(u64, u64)>>,
    stamp: Option<ClockStamp>,
}

impl View for ThreadBatch {
    type V = (u64, u64, u64, u64);

    closed spec fn view(&self) -> (u64, u64, u64, u64) {
        (self.tag, self.ts, self.next, self.end)
    }
}

impl ThreadBatch {
    #[verifier::type_invariant]
    spec fn inv(self) -> bool {
        self.next <= self.end <= MAX_SEQUENCE
    }

    /// What the last attempt on this cache handed to the compare-exchange
    /// of the shared state: the state it expected and the state it wrote; or
    /// `None` when it made no compare-exchange.
    pub closed spec fn handed(&self) -> Option<(u64, u64)> {
        self.handed@
    }

    /// The last wall-clock reading that an attempt on this cache took, if
    /// any.
    pub closed spec fn last_reading(&self) -> Option<Result<u64, IdError>> {
        match self.stamp {
            Some(st) => Some(st.value()),
            None => None,
        }
    }

    /// An empty cache, which belongs to no generator.
    pub fn new() -> (b: ThreadBatch)
        ensures
            b@ == (0u64, u64::MAX, 0u64, 0u64),
            b.handed() is None,
            b.last_reading() is None,
    {
        ThreadBatch { tag: 0, ts: u64::MAX, next: 0, end: 0, handed: Ghost(None), stamp: None }
    }
}

/// Whether a cache `b` holds a sequence number for the generator tagged `tag`.
pub open spec fn batch_ready(b: (u64, u64, u64, u64), tag: u64) -> bool {
    b.0 == tag && b.1 != u64::MAX && b.2 < b.3
}

/// A caller's cursor for `Generator::generate_simple`: the millisecond and
/// the next sequence number, and the last wall-clock reading it moved on by.
/// Keep one per thread.
pub struct SimpleCursor {
    ts: u64,
    seq: u64,
    stamp: Option<ClockStamp>,
}

impl View for SimpleCursor {
    type V = (u64, u64);

    closed spec fn view(&self) -> (u64, u64) {
        (self.ts, self.seq)
    }
}

impl SimpleCursor {
    /// The last reading is never of a millisecond after the cursor's.
    #[verifier::type_invariant]
    spec fn inv(self) -> bool {
        match self.stamp {
            Some(st) => match st.value() {
                Ok(t) => t <= self.ts,
                Err(_) => true,
            },
            None => true,
        }
    }

    /// The last wall-clock reading that `generate_simple` took on this
    /// cursor, if any.
    pub closed spec fn last_reading(&self) -> Option<Result<u64, IdError>> {
        match self.stamp {
            Some(st) => Some(st.value()),
            None => None,
        }
    }

    /// A cursor with no sequence number left, so that its first identifier
    /// waits for a fresh millisecond.
    pub fn new() -> (c: SimpleCursor)
        ensures
            c@ == (0u64, u64::MAX),
            c.last_reading() is None,
    {
        SimpleCursor { ts: 0, seq: u64::MAX, stamp: None }
    }
}

/// One identifier issued from a cursor: the next sequence number of its
/// millisecond while there is one, otherwise sequence 0 of a later
/// millisecond; `before` and `after` are the cursor around the issue.
pub open spec fn simple_issue(
    before: (u64, u64),
    after: (u64, u64),
    node: u16,
    raw: u64,
) -> bool {
    if before.1 <= MAX_SEQUENCE {
        &&& after == (before.0, (before.1 + 1) as u64)
        &&& raw == compose(before.0 as int, node as int, before.1 as int)
    } else {
        &&& after.0 > before.0
        &&& after.1 == 1
        &&& raw == compose(after.0 as int, node as int, 0)
    }
}

/// Reads the shared state; its value is whatever the callers last wrote.
fn load_state(state: &AtomicU64) -> u64 {
    state.load(Ordering::Acquire)
}

/// Writes `new` into the shared state if it still holds `current`, says
/// whether it did, and records in `batch` what it handed to the
/// compare-exchange.
fn replace_state(state: &AtomicU64, current: u64, new: u64, batch: &mut ThreadBatch) -> (r: bool)
    ensures
        final(batch)@ == old(batch)@,
        final(batch).handed() == Some((current, new)),
        final(batch).last_reading() == old(batch).last_reading(),
{
    proof {
        use_type_invariant(&*batch);
    }
    let r = state.compare_exchange(current, new, Ordering::Release, Ordering::Relaxed).is_ok();
    batch.handed = Ghost(Some((current, new)));
    r
}

/// What an attempt that read the clock as `now` and the shared state as
/// `loaded` hands to the compare-exchange: for a reservation of block
/// `first..end` of millisecond `ts`, the state it read and the state just
/// after the block; otherwise nothing.
pub open spec fn spec_handed(now: Result<u64, IdError>, loaded: u64) -> Option<(u64, u64)> {
    match now {
        Ok(t) => match spec_plan(loaded, t) {
            Plan::Reserve { ts, end, .. } => Some((loaded, state_word(ts as int, end as int) as u64)),
            _ => None,
        },
        Err(_) => None,
    }
}

/// What a generator's clock reads: its fixed timestamp when it has one,
/// otherwise what the wall clock's `reading` gives.
pub open spec fn spec_clock(fixed: Option<u64>, reading: Result<u128, u128>) -> Result<u64, IdError> {
    match fixed {
        Some(t) => Ok(t),
        None => spec_timestamp_of_reading(reading),
    }
}

/// A plan whose block, if it has one, is a nonempty run of valid sequence
/// numbers; every plan that `plan_batch` makes is one.
pub open spec fn plan_fits(plan: Plan) -> bool {
    plan matches Plan::Reserve { first, end, .. } ==> first < end <= MAX_SEQUENCE
}

/// The attempt, and the cache after it, that a plan comes to: `replaced`
/// tells whether the shared state was replaced as a reservation asks, and
/// `b` is the cache before. A reservation that took place issues its first
/// sequence number and refills the cache with the rest of the block; one that
/// did not is retried. A used-up millisecond is waited out. A lag of at most a
/// second is waited out; a larger one is an error.
pub open spec fn spec_attempt_for(
    plan: Plan,
    replaced: bool,
    node: u16,
    tag: u64,
    b: (u64, u64, u64, u64),
) -> (Attempt, (u64, u64, u64, u64)) {
    match plan {
        Plan::Reserve { ts, first, end } => if replaced {
            (
                Attempt::Issued(Id(compose(ts as int, node as int, first as int) as u64)),
                (tag, ts, (first + 1) as u64, end),
            )
        } else {
            (Attempt::Spin, b)
        },
        Plan::AwaitNextMs => (Attempt::Spin, b),
        Plan::AwaitClock => (Attempt::Yield, b),
        Plan::Skew(d) => (Attempt::Failed(IdError::ClockSkew { elapsed_ms: d }), b),
    }
}

/// The attempt, and the cache after it, once the cache had nothing to serve:
/// a clock that cannot be read fails the attempt; otherwise the plan for the
/// shared state `loaded` and the clock's millisecond decides.
pub open spec fn spec_slow_attempt(
    now: Result<u64, IdError>,
    loaded: u64,
    replaced: bool,
    node: u16,
    tag: u64,
    b: (u64, u64, u64, u64),
) -> (Attempt, (u64, u64, u64, u64)) {
    match now {
        Err(e) => (Attempt::Failed(e), b),
        Ok(t) => spec_attempt_for(spec_plan(loaded, t), replaced, node, tag, b),
    }
}

/// The attempt, and the cursor after it, of `generate_simple` on a cursor
/// `c` when the clock reads `now`: the cursor's next sequence number while it
/// has one (the clock is not needed then); otherwise sequence 0 of the
/// clock's millisecond once the clock is past the cursor's; a clock that
/// cannot be read is waited out, and so is one that has not moved on, unless
/// it is fixed (`stopped`): then the used-up millisecond is final.
pub open spec fn spec_simple_step(
    c: (u64, u64),
    now: Result<u64, IdError>,
    stopped: bool,
    node: u16,
) -> (Attempt, (u64, u64)) {
    if c.1 <= MAX_SEQUENCE {
        (
            Attempt::Issued(Id(compose(c.0 as int, node as int, c.1 as int) as u64)),
            (c.0, (c.1 + 1) as u64),
        )
    } else {
        match now {
            Err(_) => (Attempt::Yield, c),
            Ok(t) => if t > c.0 {
                (Attempt::Issued(Id(compose(t as int, node as int, 0) as u64)), (t, 1u64))
            } else if stopped {
                (Attempt::Failed(IdError::SequenceExhausted), c)
            } else {
                (Attempt::Spin, c)
            },
        }
    }
}

/// An identifier that an attempt issues after reading the clock carries the
/// clock's millisecond (as far as 40 bits hold it) and the node, whatever
/// the shared state held; and when the clock is ahead of the state's
/// millisecond, it is sequence 0 of the clock's millisecond.
pub proof fn lemma_slow_issue_carries_clock(
    now: Result<u64, IdError>,
    loaded: u64,
    replaced: bool,
    node: u16,
    tag: u64,
    b: (u64, u64, u64, u64),
)
    requires
        node <= MAX_NODE_ID,
    ensures
        spec_slow_attempt(now, loaded, replaced, node, tag, b).0 matches Attempt::Issued(id) ==> {
            &&& now is Ok
            &&& ts_field(id.0) == now->Ok_0 as int % ts_range()
            &&& node_field(id.0) == node
            &&& now->Ok_0 > loaded as int / 0x2000 ==> seq_field(id.0) == 0
        },
{
    if let Ok(t) = now {
        lemma_reservations_take_clock_ms(loaded, t);
        let p = spec_plan(loaded, t);
        if p is Reserve {
            lemma_compose_fields(t, node as int, p->first as int);
        }
    }
}

/// A cursor with no sequence number left issues only once the clock reads a
/// later millisecond than its own, and the identifier it then issues is
/// sequence 0 of that very millisecond (as far as 40 bits hold it) on the
/// node, with the cursor moved to it.
pub proof fn lemma_simple_fresh_ms_is_clock(
    c: (u64, u64),
    now: Result<u64, IdError>,
    stopped: bool,
    node: u16,
)
    requires
        c.1 > MAX_SEQUENCE,
        node <= MAX_NODE_ID,
    ensures
        spec_simple_step(c, now, stopped, node).0 matches Attempt::Issued(id) ==> {
            &&& now matches Ok(t)
            &&& now->Ok_0 > c.0
            &&& ts_field(id.0) == now->Ok_0 as int % ts_range()
            &&& node_field(id.0) == node
            &&& seq_field(id.0) == 0
            &&& spec_simple_step(c, now, stopped, node).1 == (now->Ok_0, 1u64)
        },
        now matches Ok(t) && t <= c.0 ==> !(spec_simple_step(c, now, stopped, node).0 is Issued),
{
    if let Ok(t) = now {
        lemma_compose_fields(t, node as int, 0);
    }
}

/// A generator of identifiers for one node.
pub struct Generator {
    state: AtomicU64,
    node_id: u16,
    instance_tag: u64,
    fixed_ms: Option<u64>,
}

impl Generator {
    #[verifier::type_invariant]
    spec fn inv(self) -> bool {
        self.node_id <= MAX_NODE_ID
    }

    /// The node id that the generator writes into its identifiers.
    pub closed spec fn node(&self) -> u16 {
        self.node_id
    }

    /// The tag by which caches know the generator they belong to.
    pub closed spec fn tag(&self) -> u64 {
        self.instance_tag
    }

    /// The timestamp at which the generator's clock stands still, if it does.
    pub closed spec fn fixed(&self) -> Option<u64> {
        self.fixed_ms
    }

    /// The node id that the generator writes into its identifiers.
    pub fn node_id(&self) -> (r: u16)
        ensures
            r == self.node(),
            r <= MAX_NODE_ID,
    {
        proof {
            use_type_invariant(self);
        }
        self.node_id
    }

    /// A generator for node `node_id` whose shared state starts at the
    /// millisecond `now` that the clock read, or the clock's error.
    pub fn started_at(node_id: u16, now: Result<u64, IdError>) -> (r: Result<Generator, IdError>)
        ensures
            node_id > MAX_NODE_ID ==> r == Err::<Generator, IdError>(
                IdError::InvalidNodeId(node_id),
            ),
            node_id <= MAX_NODE_ID ==> match now {
                Err(e) => r == Err::<Generator, IdError>(e),
                Ok(_) => r matches Ok(g) && g.node() == node_id && g.fixed() is None,
            },
    {
        if node_id > MAX_NODE_ID {
            return Err(IdError::InvalidNodeId(node_id));
        }
        let ts = match now {
            Ok(ts) => ts,
            Err(e) => return Err(e),
        };
        let state = pack_state(ts, 0);
        Ok(
            Generator {
                state: AtomicU64::new(state),
                node_id,
                instance_tag: thread_local_entropy(),
                fixed_ms: None,
            },
        )
    }

    /// A generator for node `node_id`, whose shared state starts at the
    /// current millisecond; it hands on the clock's error.
    pub fn new(node_id: u16) -> (r: Result<Generator, IdError>)
        ensures
            node_id > MAX_NODE_ID <==> r == Err::<Generator, IdError>(
                IdError::InvalidNodeId(node_id),
            ),
            node_id <= MAX_NODE_ID ==> exists|reading: Result<u128, u128>|
                match #[trigger] spec_timestamp_of_reading(reading) {
                    Err(e) => r == Err::<Generator, IdError>(e),
                    Ok(_) => r matches Ok(g) && g.node() == node_id && g.fixed() is None,
                },
            r matches Err(e) ==> e == IdError::InvalidNodeId(node_id) || e is ClockSkew,
    {
        if node_id > MAX_NODE_ID {
            return Err(IdError::InvalidNodeId(node_id));
        }
        let now = current_timestamp_ms();
        let ghost reading = choose|reading: Result<u128, u128>|
            now == #[trigger] spec_timestamp_of_reading(reading);
        let r = Generator::started_at(node_id, now);
        assert(match spec_timestamp_of_reading(reading) {
            Err(e) => r == Err::<Generator, IdError>(e),
            Ok(_) => r matches Ok(g) && g.node() == node_id && g.fixed() is None,
        });
        r
    }

    /// A generator for node `node_id` whose shared state starts at
    /// `timestamp_ms`, for deterministic identifiers: `generate` still reads
    /// the wall clock, but for `generate_simple` the clock stands still at
    /// `timestamp_ms`, so its identifiers carry that timestamp and, once its
    /// sequence numbers are used up, it reports `SequenceExhausted`.
    pub fn with_timestamp(node_id: u16, timestamp_ms: u64) -> (r: Result<Generator, IdError>)
        ensures
            node_id > MAX_NODE_ID ==> r == Err::<Generator, IdError>(
                IdError::InvalidNodeId(node_id),
            ),
            node_id <= MAX_NODE_ID && timestamp_ms >= TIMESTAMP_LIMIT ==> r == Err::<
                Generator,
                IdError,
            >(IdError::ClockSkew { elapsed_ms: timestamp_ms }),
            node_id <= MAX_NODE_ID && timestamp_ms < TIMESTAMP_LIMIT ==> (r matches Ok(g)
                && g.node() == node_id && g.fixed() == Some(timestamp_ms)),
    {
        if node_id > MAX_NODE_ID {
            return Err(IdError::InvalidNodeId(node_id));
        }
        if timestamp_ms >= TIMESTAMP_LIMIT {
            return Err(IdError::ClockSkew { elapsed_ms: timestamp_ms });
        }
        let state = pack_state(timestamp_ms, 0);
        Ok(
            Generator {
                state: AtomicU64::new(state),
                node_id,
                instance_tag: thread_local_entropy(),
                fixed_ms: Some(timestamp_ms),
            },
        )
    }

    /// A generator for the configured node (`configured` is the value of
    /// `AX_ID_NODE`, if set), or for a random node when none valid is
    /// configured. It fails only when the clock cannot be used.
    pub fn new_auto(configured: Option<&str>) -> (r: Result<Generator, IdError>)
        ensures
            r matches Ok(g) ==> g.node() <= MAX_NODE_ID && g.fixed() is None && (
            configured matches Some(s) ==> (spec_configured_node(s@) is Some ==> Some(g.node())
                == spec_configured_node(s@))),
            r matches Err(e) ==> e is ClockSkew,
    {
        let node_id = resolve_node_id(configured);
        Generator::new(node_id)
    }

    /// Reads the generator's clock: its fixed timestamp, or the wall clock.
    fn read_clock(&self) -> (r: Result<u64, IdError>)
        ensures
            exists|reading: Result<u128, u128>| r == #[trigger] spec_clock(self.fixed(), reading),
    {
        match self.fixed_ms {
            Some(t) => {
                assert(Ok::<u64, IdError>(t) == spec_clock(self.fixed(), Ok(0u128)));
                Ok(t)
            },
            None => {
                let r = current_timestamp_ms();
                let ghost reading = choose|reading: Result<u128, u128>|
                    r == #[trigger] spec_timestamp_of_reading(reading);
                assert(r == spec_clock(self.fixed(), reading));
                r
            },
        }
    }

    /// What a plan comes to, once made and, for a reservation, once the
    /// replacement of the shared state was tried (`replaced` tells whether it
    /// took place): see `spec_attempt_for`.
    pub fn attempt_for(&self, plan: Plan, replaced: bool, batch: &mut ThreadBatch) -> (r: Attempt)
        requires
            plan_fits(plan),
        ensures
            (r, final(batch)@) == spec_attempt_for(
                plan,
                replaced,
                self.node(),
                self.tag(),
                old(batch)@,
            ),
            final(batch).handed() == old(batch).handed(),
            final(batch).last_reading() == old(batch).last_reading(),
    {
        proof {
            use_type_invariant(self);
        }
        match plan {
            Plan::Reserve { ts, first, end } => {
                if replaced {
                    let id = Id::from_parts(ts, self.node_id, first);
                    proof {
                        use_type_invariant(&*batch);
                    }
                    batch.tag = self.instance_tag;
                    batch.ts = ts;
                    batch.next = 0;
                    batch.end = end;
                    batch.next = first + 1;
                    Attempt::Issued(id)
                } else {
                    Attempt::Spin
                }
            },
            Plan::AwaitNextMs => Attempt::Spin,
            Plan::AwaitClock => Attempt::Yield,
            Plan::Skew(elapsed) => Attempt::Failed(IdError::ClockSkew { elapsed_ms: elapsed }),
        }
    }

    /// One attempt at an identifier, safe for any number of threads and
    /// generators. A cache that holds a sequence number of this generator
    /// serves it; otherwise the wall clock is read, the shared state is read
    /// and planned on, a reservation replaces the shared state, and
    /// `attempt_for` decides. What the clock and the shared state held, and
    /// whether the replacement took place, depends on time and on other
    /// threads: the result is what some such values give. Every identifier it
    /// issues carries the generator's node and a valid sequence number, and
    /// every failure is a clock skew.
    pub fn generate(&self, batch: &mut ThreadBatch) -> (r: Attempt)
        ensures
            final(batch)@.2 <= final(batch)@.3 <= MAX_SEQUENCE,
            batch_ready(old(batch)@, self.tag()) ==> {
                let b = old(batch)@;
                &&& r == Attempt::Issued(Id(compose(b.1 as int, self.node() as int, b.2 as int) as u64))
                &&& final(batch)@ == (b.0, b.1, (b.2 + 1) as u64, b.3)
                &&& final(batch).handed() is None
                &&& final(batch).last_reading() == old(batch).last_reading()
            },
            !batch_ready(old(batch)@, self.tag()) ==> final(batch).last_reading() is Some,
            !batch_ready(old(batch)@, self.tag()) && r is Issued ==> (final(batch).last_reading()
                matches Some(Ok(t)) && ts_field(r->Issued_0.0) == t as int % ts_range()),
            !batch_ready(old(batch)@, self.tag()) ==> exists|reading: Result<u128, u128>|
                final(batch).last_reading()->0 == #[trigger] spec_timestamp_of_reading(reading),
            !batch_ready(old(batch)@, self.tag()) ==> exists|loaded: u64, replaced: bool|
                (r, final(batch)@) == #[trigger] spec_slow_attempt(
                    final(batch).last_reading()->0,
                    loaded,
                    replaced,
                    self.node(),
                    self.tag(),
                    old(batch)@,
                ) && final(batch).handed() == spec_handed(final(batch).last_reading()->0, loaded),
            !batch_ready(old(batch)@, self.tag()) ==> exists|
                reading: Result<u128, u128>,
                loaded: u64,
                replaced: bool,
            |
                (r, final(batch)@) == #[trigger] spec_slow_attempt(
                    spec_timestamp_of_reading(reading),
                    loaded,
                    replaced,
                    self.node(),
                    self.tag(),
                    old(batch)@,
                ) && final(batch).handed() == spec_handed(spec_timestamp_of_reading(reading), loaded),
            r matches Attempt::Issued(id) ==> node_field(id.0) == self.node() && seq_field(id.0)
                <= MAX_SEQUENCE,
            r matches Attempt::Failed(e) ==> e is ClockSkew,
    {
        proof {
            use_type_invariant(self);
            use_type_invariant(&*batch);
        }
        if batch.tag == self.instance_tag && batch.ts != u64::MAX && batch.next < batch.end {
            let id = Id::from_parts(batch.ts, self.node_id, batch.next);
            proof {
                lemma_compose_fields(batch.ts, self.node_id as int, batch.next as int);
            }
            batch.next = batch.next + 1;
            batch.handed = Ghost(None);
            return Attempt::Issued(id);
        }
        batch.handed = Ghost(None);
        let stamp = read_clock_stamp();
        let clock = stamp.ms();
        let ghost reading = choose|reading: Result<u128, u128>|
            clock == #[trigger] spec_timestamp_of_reading(reading);
        batch.stamp = Some(stamp);
        let ghost old_batch = batch@;
        let now = match clock {
            Ok(t) => t,
            Err(e) => {
                assert((Attempt::Failed(e), old_batch) == spec_slow_attempt(
                    spec_timestamp_of_reading(reading),
                    0,
                    false,
                    self.node(),
                    self.tag(),
                    old_batch,
                ));
                return Attempt::Failed(e);
            },
        };
        let loaded = load_state(&self.state);
        let plan = plan_batch(loaded, now);
        let replaced = match plan {
            Plan::Reserve { ts, first: _, end } => replace_state(
                &self.state,
                loaded,
                pack_state(ts, end),
                batch,
            ),
            _ => false,
        };
        let r = self.attempt_for(plan, replaced, batch);
        proof {
            lemma_slow_issue_carries_clock(clock, loaded, replaced, self.node(), self.tag(), old_batch);
            if plan is Reserve {
                lemma_compose_fields(plan->ts, self.node_id as int, plan->first as int);
            }
        }
        assert((r, batch@) == spec_slow_attempt(
            spec_timestamp_of_reading(reading),
            loaded,
            replaced,
            self.node(),
            self.tag(),
            old_batch,
        ));
        r
    }

    /// What `generate_simple` does once the clock reads `now`: see
    /// `spec_simple_step`.
    pub fn simple_step(&self, cursor: &mut SimpleCursor, now: Result<u64, IdError>) -> (r: Attempt)
        ensures
            (r, final(cursor)@) == spec_simple_step(
                old(cursor)@,
                now,
                self.fixed() is Some,
                self.node(),
            ),
            final(cursor).last_reading() == old(cursor).last_reading(),
    {
        proof {
            use_type_invariant(self);
            use_type_invariant(&*cursor);
        }
        if cursor.seq <= MAX_SEQUENCE {
            let id = Id::from_parts(cursor.ts, self.node_id, cursor.seq);
            cursor.seq = cursor.seq + 1;
            return Attempt::Issued(id);
        }
        match now {
            Err(_) => Attempt::Yield,
            Ok(t) => {
                if t > cursor.ts {
                    cursor.ts = t;
                    cursor.seq = 1;
                    Attempt::Issued(Id::from_parts(t, self.node_id, 0))
                } else if self.fixed_ms.is_some() {
                    Attempt::Failed(IdError::SequenceExhausted)
                } else {
                    Attempt::Spin
                }
            },
        }
    }

    /// One attempt at an identifier from a cursor of one thread, without
    /// touching the shared state: the next sequence number of the cursor's
    /// millisecond while there is one, otherwise the clock is read and
    /// `simple_step` decides. Use one generator per cursor, and do not mix
    /// with `generate` on one node.
    pub fn generate_simple(&self, cursor: &mut SimpleCursor) -> (r: Attempt)
        ensures
            old(cursor)@.1 <= MAX_SEQUENCE ==> {
                let c = old(cursor)@;
                &&& r == Attempt::Issued(Id(compose(c.0 as int, self.node() as int, c.1 as int) as u64))
                &&& final(cursor)@ == (c.0, (c.1 + 1) as u64)
            },
            exists|reading: Result<u128, u128>|
                (r, final(cursor)@) == #[trigger] spec_simple_step(
                    old(cursor)@,
                    spec_clock(self.fixed(), reading),
                    self.fixed() is Some,
                    self.node(),
                ),
            r matches Attempt::Issued(id) ==> simple_issue(
                old(cursor)@,
                final(cursor)@,
                self.node(),
                id.0,
            ),
            r matches Attempt::Failed(e) ==> e is SequenceExhausted && self.fixed() is Some,
            r matches Attempt::Issued(id) ==> node_field(id.0) == self.node() && seq_field(id.0)
                <= MAX_SEQUENCE,
            old(cursor)@.1 > MAX_SEQUENCE && self.fixed() is None ==> final(cursor).last_reading()
                is Some,
            old(cursor)@.1 > MAX_SEQUENCE && self.fixed() is None ==> (r, final(cursor)@)
                == spec_simple_step(old(cursor)@, final(cursor).last_reading()->0, false, self.node()),
            old(cursor)@.1 > MAX_SEQUENCE && self.fixed() is None ==> exists|reading: Result<u128, u128>|
                final(cursor).last_reading()->0 == #[trigger] spec_timestamp_of_reading(reading),
            old(cursor)@.1 > MAX_SEQUENCE && self.fixed() is None && r is Issued ==> {
                &&& final(cursor).last_reading() == Some(Ok::<u64, IdError>(final(cursor)@.0))
                &&& ts_field(r->Issued_0.0) == final(cursor)@.0 as int % ts_range()
            },
            old(cursor)@.1 <= MAX_SEQUENCE || self.fixed() is Some ==> final(cursor).last_reading()
                == old(cursor).last_reading(),
    {
        proof {
            use_type_invariant(self);
        }
        let ghost c0 = cursor@;
        if cursor.seq <= MAX_SEQUENCE {
            // The cursor has a sequence number left: the clock is not read,
            // and the step does not look at the reading it is handed.
            let r = self.simple_step(cursor, Ok(0));
            proof {
                lemma_compose_fields(c0.0, self.node() as int, c0.1 as int);
            }
            assert((r, cursor@) == spec_simple_step(
                c0,
                spec_clock(self.fixed(), Ok(0u128)),
                self.fixed() is Some,
                self.node(),
            ));
            return r;
        }
        if let Some(t) = self.fixed_ms {
            let r = self.simple_step(cursor, Ok(t));
            proof {
                if r is Issued {
                    lemma_compose_fields(cursor@.0, self.node() as int, 0);
                }
            }
            assert((r, cursor@) == spec_simple_step(
                c0,
                spec_clock(self.fixed(), Ok(0u128)),
                self.fixed() is Some,
                self.node(),
            ));
            return r;
        }
        let stamp = read_clock_stamp();
        let now = stamp.ms();
        let ghost reading = choose|reading: Result<u128, u128>|
            now == #[trigger] spec_timestamp_of_reading(reading);
        let r = self.simple_step(cursor, now);
        proof {
            use_type_invariant(&*cursor);
            if r is Issued {
                lemma_compose_fields(cursor@.0, self.node() as int, 0);
            }
        }
        cursor.stamp = Some(stamp);
        proof {
            lemma_simple_fresh_ms_is_clock(c0, now, false, self.node());
        }
        assert((r, cursor@) == spec_simple_step(
            c0,
            spec_clock(self.fixed(), reading),
            self.fixed() is Some,
            self.node(),
        ));
        r
    }
}

/// What an attempt hands to the compare-exchange replaces the state it read
/// with a larger one: so every reservation that takes place makes the shared
/// state grow, and the block it takes lies between the two states.
pub proof fn lemma_handed_advances(t: u64, loaded: u64)
    requires
        t < 0x8_0000_0000_0000u64,
        spec_handed(Ok(t), loaded) is Some,
    ensures
        ({
            let (current, new) = spec_handed(Ok(t), loaded)->0;
            let p = spec_plan(loaded, t);
            &&& current == loaded
            &&& loaded < new
            &&& new == crate::layout::position(p->ts as int, p->end as int)
            &&& loaded <= crate::layout::position(p->ts as int, p->first as int)
        }),
{
    crate::batch::lemma_reservation_advances(loaded, t);
}

/// Identifiers whose node fields differ are different identifiers: so
/// generators with different node ids, whose identifiers carry their nodes,
/// never issue the same identifier.
pub proof fn lemma_distinct_nodes_distinct_ids(a: Id, b: Id)
    requires
        node_field(a.0) != node_field(b.0),
    ensures
        a != b,
{
}

/// Identifiers issued one after the other from a cursor grow strictly, for
/// one node and within the timestamp range.
pub proof fn lemma_simple_ids_increase(
    c0: (u64, u64),
    c1: (u64, u64),
    c2: (u64, u64),
    node: u16,
    raw1: u64,
    raw2: u64,
)
    requires
        node <= MAX_NODE_ID,
        c1.0 < 0x100_0000_0000,
        c2.0 < 0x100_0000_0000,
        simple_issue(c0, c1, node, raw1),
        simple_issue(c1, c2, node, raw2),
    ensures
        raw1 < raw2,
{
    let t1 = c1.0 as int;
    let s1 = if c0.1 <= MAX_SEQUENCE { c0.1 as int } else { 0 };
    let t2 = if c1.1 <= MAX_SEQUENCE { c1.0 as int } else { c2.0 as int };
    let s2 = if c1.1 <= MAX_SEQUENCE { c1.1 as int } else { 0 };
    crate::layout::lemma_id_order_is_position_order(t1, s1, t2, s2, node as int);
}

} // verus!
