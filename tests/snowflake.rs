use filecore::snowflake::{GenStep, Snowflake, SnowflakeError};

#[test]
fn worker_id_out_of_range_is_rejected() {
    assert!(matches!(Snowflake::new(0, 1024), Err(SnowflakeError::WorkerIdOutOfRange)));
    assert!(Snowflake::new(0, 1023).is_ok());
}

#[test]
fn id_packs_timestamp_worker_and_sequence() {
    let mut g = Snowflake::new(1000, 1).unwrap();
    // 5 ms after the epoch, worker 1, sequence 0
    assert_eq!(g.generate(1005), GenStep::Issued(5 * 4194304 + 4096));
    // same millisecond: next sequence number
    assert_eq!(g.generate(1005), GenStep::Issued(5 * 4194304 + 4096 + 1));
    // next millisecond: sequence starts over
    assert_eq!(g.generate(1006), GenStep::Issued(6 * 4194304 + 4096));
}

#[test]
fn clock_before_epoch_is_out_of_range() {
    let mut g = Snowflake::new(1000, 0).unwrap();
    assert_eq!(g.generate(999), GenStep::ClockOutOfRange);
    assert_eq!(g.generate(1000 + 2199023255552), GenStep::ClockOutOfRange);
}

#[test]
fn clock_rollback_waits_instead_of_issuing_smaller_id() {
    let mut g = Snowflake::new(0, 3).unwrap();
    let first = match g.generate(50) {
        GenStep::Issued(id) => id,
        other => panic!("unexpected {:?}", other),
    };
    assert_eq!(g.generate(49), GenStep::Wait);
    match g.generate(50) {
        GenStep::Issued(id) => assert!(id > first),
        other => panic!("unexpected {:?}", other),
    }
}

#[test]
fn exhausted_sequence_waits_for_next_millisecond() {
    let mut g = Snowflake::new(0, 0).unwrap();
    let mut last = -1i64;
    for _ in 0..4096 {
        match g.generate(7) {
            GenStep::Issued(id) => {
                assert!(id > last);
                last = id;
            }
            other => panic!("unexpected {:?}", other),
        }
    }
    assert_eq!(g.generate(7), GenStep::Wait);
    match g.generate(8) {
        GenStep::Issued(id) => assert_eq!(id, 8 * 4194304),
        other => panic!("unexpected {:?}", other),
    }
}

#[test]
fn ids_are_unique_and_increasing_over_a_jumpy_clock() {
    let mut g = Snowflake::new(0, 5).unwrap();
    let clock = [10i64, 10, 12, 11, 11, 12, 30, 29, 30, 31];
    let mut ids: Vec<i64> = Vec::new();
    for t in clock.iter() {
        if let GenStep::Issued(id) = g.generate(*t) {
            ids.push(id);
        }
    }
    assert_eq!(ids.len(), 7);
    for w in ids.windows(2) {
        assert!(w[0] < w[1]);
    }
}
