use std::collections::BTreeSet;

use ax_id::batch::{plan_batch, pack_state, Plan};
use ax_id::node::{node_from_entropy, parse_node_id, resolve_node_id};
use ax_id::{Attempt, Generator, Id, IdError, SimpleCursor, ThreadBatch};

// Runs attempts until one gives an identifier or fails, as a thread does.
fn generate(g: &Generator, batch: &mut ThreadBatch) -> Result<Id, IdError> {
    loop {
        match g.generate(batch) {
            Attempt::Issued(id) => return Ok(id),
            Attempt::Failed(e) => return Err(e),
            Attempt::Spin => std::hint::spin_loop(),
            Attempt::Yield => std::hint::spin_loop(),
        }
    }
}

fn generate_simple(g: &Generator, cursor: &mut SimpleCursor) -> Result<Id, IdError> {
    loop {
        match g.generate_simple(cursor) {
            Attempt::Issued(id) => return Ok(id),
            Attempt::Failed(e) => return Err(e),
            _ => std::hint::spin_loop(),
        }
    }
}

#[test]
fn uniqueness_single_thread() {
    let generator = Generator::new(1).unwrap();
    let mut cursor = SimpleCursor::new();
    let mut set = BTreeSet::new();
    for _ in 0..100_000 {
        let id = generate_simple(&generator, &mut cursor).unwrap();
        assert!(set.insert(id.0), "duplicate ID detected");
    }
}

#[test]
fn monotonicity_same_millisecond() {
    let generator = Generator::new(1).unwrap();
    let mut cursor = SimpleCursor::new();
    let mut prev = generate_simple(&generator, &mut cursor).unwrap();
    for _ in 0..1_000 {
        let curr = generate_simple(&generator, &mut cursor).unwrap();
        assert!(curr.0 > prev.0, "IDs must be monotonically increasing");
        prev = curr;
    }
}

#[test]
fn node_id_extraction() {
    let generator = Generator::new(42).unwrap();
    let mut cursor = SimpleCursor::new();
    let id = generate_simple(&generator, &mut cursor).unwrap();
    assert_eq!(id.node_id(), 42);
}

#[test]
fn no_duplicate_generation_across_sequences() {
    let generator = Generator::new(1).unwrap();
    let mut batch = ThreadBatch::new();
    let mut set = BTreeSet::new();
    for _ in 0..10_000 {
        let id = generate(&generator, &mut batch).unwrap();
        assert!(set.insert(id.0), "duplicate across sequences");
    }
}

#[test]
fn simple_no_collision_under_exhaustion() {
    let g = Generator::new(1).unwrap();
    let mut cursor = SimpleCursor::new();
    let mut set = BTreeSet::new();
    for _ in 0..200_000 {
        let id = generate_simple(&g, &mut cursor).unwrap();
        assert!(set.insert(id.0), "duplicate from generate_simple");
    }
}

#[test]
fn cross_generator_uniqueness_same_thread() {
    let g1 = Generator::new(1).unwrap();
    let g2 = Generator::new(2).unwrap();
    let mut batch = ThreadBatch::new();
    let mut set = BTreeSet::new();
    for _ in 0..100_000 {
        let id1 = generate(&g1, &mut batch).unwrap();
        let id2 = generate(&g2, &mut batch).unwrap();
        assert!(set.insert(id1.0), "duplicate from g1");
        assert!(set.insert(id2.0), "duplicate from g2");
    }
}

#[test]
fn stale_batch_guard_same_thread() {
    let g1 = Generator::new(1).unwrap();
    let mut batch = ThreadBatch::new();
    let _ = generate(&g1, &mut batch).unwrap();
    let g2 = Generator::new(1).unwrap();
    let id2_first = generate(&g2, &mut batch).unwrap();
    assert_eq!(id2_first.raw_sequence(), 0);
}

#[test]
fn high_volume_atomic() {
    let g = Generator::new(1).unwrap();
    let mut batch = ThreadBatch::new();
    let mut set = BTreeSet::new();
    for _ in 0..1_000_000 {
        let id = generate(&g, &mut batch).unwrap();
        assert!(set.insert(id.0), "duplicate in high-volume atomic");
    }
}

#[test]
fn high_volume_simple() {
    let g = Generator::new(1).unwrap();
    let mut cursor = SimpleCursor::new();
    let mut set = BTreeSet::new();
    for _ in 0..1_000_000 {
        let id = generate_simple(&g, &mut cursor).unwrap();
        assert!(set.insert(id.0), "duplicate in high-volume simple");
    }
}

#[test]
fn generate_new_ms_starts_at_zero() {
    let g = Generator::new(1).unwrap();
    let mut batch = ThreadBatch::new();
    // Burn through any same-ms batch left over from construction.
    let start = std::time::Instant::now();
    while start.elapsed() < std::time::Duration::from_millis(2) {
        std::hint::spin_loop();
    }
    let id = generate(&g, &mut batch).unwrap();
    assert_eq!(
        id.raw_sequence(),
        0,
        "new-ms batch should start at seq 0, got {}",
        id.raw_sequence()
    );
}

#[test]
fn generated_ids_carry_node() {
    let g = Generator::new(1023).unwrap();
    let mut batch = ThreadBatch::new();
    let id = generate(&g, &mut batch).unwrap();
    assert_eq!(id.node_id(), 1023);
    assert_eq!(g.node_id(), 1023);
}

#[test]
fn invalid_node_ids_are_refused() {
    assert!(matches!(Generator::new(1024), Err(IdError::InvalidNodeId(1024))));
    assert!(matches!(
        Generator::with_timestamp(5000, 1000),
        Err(IdError::InvalidNodeId(5000))
    ));
}

#[test]
fn with_timestamp_bounds() {
    assert!(matches!(
        Generator::with_timestamp(1, 1u64 << 40),
        Err(IdError::ClockSkew { elapsed_ms }) if elapsed_ms == 1u64 << 40
    ));
    let g = Generator::with_timestamp(7, (1u64 << 40) - 1).unwrap();
    assert_eq!(g.node_id(), 7);
}

#[test]
fn with_timestamp_far_ahead_of_clock_is_skew() {
    // `generate` reads the wall clock, which lags the shared state's start.
    let g = Generator::with_timestamp(1, (1u64 << 40) - 1).unwrap();
    let mut batch = ThreadBatch::new();
    let now = ax_id::clock::current_timestamp_ms().unwrap();
    match generate(&g, &mut batch) {
        Err(IdError::ClockSkew { elapsed_ms }) => {
            assert!(elapsed_ms > 1000);
            assert!(elapsed_ms <= ((1u64 << 40) - 1) - now);
        }
        other => panic!("expected clock skew, got {:?}", other),
    }
    // Nothing was reserved: a retry fails the same way.
    assert!(matches!(generate(&g, &mut batch), Err(IdError::ClockSkew { .. })));
}

#[test]
fn timestamp_mode_issues_fixed_timestamp() {
    let g = Generator::with_timestamp(1, 1000).unwrap();
    let mut cursor = SimpleCursor::new();
    for expected in 0..8192u16 {
        let id = generate_simple(&g, &mut cursor).unwrap();
        assert_eq!(id.timestamp_ms(), 1000);
        assert_eq!(id.node_id(), 1);
        assert_eq!(id.raw_sequence(), expected);
    }
    assert_eq!(generate_simple(&g, &mut cursor), Err(IdError::SequenceExhausted));
}

#[test]
fn simple_step_after_clock_read() {
    let g = Generator::new(5).unwrap();
    let mut cursor = SimpleCursor::new();
    assert_eq!(g.simple_step(&mut cursor, Err(IdError::ClockSkew { elapsed_ms: 3 })), Attempt::Yield);
    assert_eq!(
        g.simple_step(&mut cursor, Ok(77)),
        Attempt::Issued(Id((77 << 23) | (5 << 13)))
    );
    assert_eq!(
        g.simple_step(&mut cursor, Ok(0)),
        Attempt::Issued(Id((77 << 23) | (5 << 13) | 1))
    );
    let mut used = SimpleCursor::new();
    assert_eq!(g.simple_step(&mut used, Ok(0)), Attempt::Spin);
}

#[test]
fn attempts_for_each_plan() {
    let g = Generator::new(4).unwrap();
    let fixed = Generator::with_timestamp(4, 10).unwrap();
    let mut batch = ThreadBatch::new();
    assert_eq!(g.attempt_for(Plan::AwaitClock, false, &mut batch), Attempt::Yield);
    assert_eq!(g.attempt_for(Plan::AwaitNextMs, false, &mut batch), Attempt::Spin);
    assert_eq!(fixed.attempt_for(Plan::AwaitNextMs, false, &mut batch), Attempt::Spin);
    assert_eq!(
        g.attempt_for(Plan::Skew(1500), false, &mut batch),
        Attempt::Failed(IdError::ClockSkew { elapsed_ms: 1500 })
    );
    let reserve = Plan::Reserve { ts: 9, first: 3, end: 515 };
    assert_eq!(g.attempt_for(reserve, false, &mut batch), Attempt::Spin);
    assert_eq!(
        g.attempt_for(reserve, true, &mut batch),
        Attempt::Issued(Id((9 << 23) | (4 << 13) | 3))
    );
    // The cache now serves the rest of the block.
    assert_eq!(g.generate(&mut batch), Attempt::Issued(Id((9 << 23) | (4 << 13) | 4)));
}

#[test]
fn started_at_hands_on_the_clock() {
    let skew = IdError::ClockSkew { elapsed_ms: 42 };
    assert!(matches!(Generator::started_at(3, Err(skew)), Err(e) if e == skew));
    assert_eq!(Generator::started_at(3, Ok(5)).unwrap().node_id(), 3);
    assert!(matches!(
        Generator::started_at(2000, Ok(5)),
        Err(IdError::InvalidNodeId(2000))
    ));
}

#[test]
fn distinct_nodes_give_distinct_ids() {
    let g1 = Generator::new(1).unwrap();
    let g2 = Generator::new(2).unwrap();
    let mut batch = ThreadBatch::new();
    let mut cursor = SimpleCursor::new();
    let a = generate(&g1, &mut batch).unwrap();
    let b = generate(&g2, &mut batch).unwrap();
    let c = generate_simple(&g2, &mut cursor).unwrap();
    assert_eq!(a.node_id(), 1);
    assert_eq!(b.node_id(), 2);
    assert_eq!(c.node_id(), 2);
    assert_ne!(a, b);
    assert_ne!(a, c);
}

#[test]
fn random_node_is_low_bits() {
    assert_eq!(node_from_entropy(0), 0);
    assert_eq!(node_from_entropy(1024), 0);
    assert_eq!(node_from_entropy(0xffff_ffff_ffff_ffff), 1023);
    assert_eq!(node_from_entropy(5 * 1024 + 17), 17);
}

#[test]
fn new_auto_uses_configured_node() {
    let g = Generator::new_auto(Some("17")).unwrap();
    assert_eq!(g.node_id(), 17);
    let r = Generator::new_auto(Some("4096")).unwrap();
    assert!(r.node_id() <= 1023);
    let n = Generator::new_auto(None).unwrap();
    assert!(n.node_id() <= 1023);
}

#[test]
fn configured_node_ids() {
    assert_eq!(parse_node_id("0"), Some(0));
    assert_eq!(parse_node_id("1023"), Some(1023));
    assert_eq!(parse_node_id("+5"), Some(5));
    assert_eq!(parse_node_id("1024"), None);
    assert_eq!(parse_node_id("70000"), None);
    assert_eq!(parse_node_id(" 5"), None);
    assert_eq!(parse_node_id("abc"), None);
    assert_eq!(parse_node_id(""), None);
    assert_eq!(resolve_node_id(Some("12")), 12);
    assert!(resolve_node_id(Some("nope")) <= 1023);
}

#[test]
fn plans_for_shared_state() {
    let same = pack_state(100, 10);
    assert_eq!(same, (100 << 13) | 10);
    assert_eq!(plan_batch(same, 100), Plan::Reserve { ts: 100, first: 10, end: 522 });
    assert_eq!(
        plan_batch(pack_state(100, 5000), 100),
        Plan::Reserve { ts: 100, first: 5000, end: 5512 }
    );
    assert_eq!(
        plan_batch(pack_state(100, 8000), 100),
        Plan::Reserve { ts: 100, first: 8000, end: 8191 }
    );
    assert_eq!(plan_batch(pack_state(100, 8191), 100), Plan::AwaitNextMs);
    assert_eq!(plan_batch(same, 101), Plan::Reserve { ts: 101, first: 0, end: 512 });
    assert_eq!(plan_batch(pack_state(2000, 0), 1000), Plan::AwaitClock);
    assert_eq!(plan_batch(pack_state(2001, 0), 1000), Plan::Skew(1001));
}

#[test]
fn batches_serve_in_order() {
    let g = Generator::new(9).unwrap();
    let mut batch = ThreadBatch::new();
    let first = generate(&g, &mut batch).unwrap();
    let second = generate(&g, &mut batch).unwrap();
    assert!(second.0 > first.0);
    assert_eq!(first.node_id(), 9);
}
