use ax_id::clock::timestamp_of_reading;
use ax_id::IdError;

#[test]
fn error_texts() {
    assert_eq!(
        IdError::ClockSkew { elapsed_ms: 1500 }.to_string(),
        "clock skew detected: 1500 ms backward"
    );
    assert_eq!(
        IdError::SequenceExhausted.to_string(),
        "sequence exhausted for this millisecond"
    );
    assert_eq!(
        IdError::InvalidNodeId(2000).to_string(),
        "node id 2000 exceeds maximum 1023"
    );
    assert_eq!(IdError::InvalidFormat.to_string(), "invalid ID format");
    assert_eq!(
        IdError::ClockSkew { elapsed_ms: 0 }.to_string(),
        "clock skew detected: 0 ms backward"
    );
}

#[test]
fn clock_readings() {
    assert_eq!(timestamp_of_reading(Ok(1_704_067_200_123)), Ok(123));
    assert_eq!(timestamp_of_reading(Ok(1_704_067_200_000)), Ok(0));
    assert_eq!(
        timestamp_of_reading(Ok(1_704_067_199_000)),
        Err(IdError::ClockSkew { elapsed_ms: 1000 })
    );
    assert_eq!(
        timestamp_of_reading(Err(250)),
        Err(IdError::ClockSkew { elapsed_ms: 250 })
    );
    // Readings are cut to 64 bits before the epoch is taken off.
    assert_eq!(
        timestamp_of_reading(Ok((1u128 << 64) + 1_704_067_200_005)),
        Ok(5)
    );
}

#[test]
fn current_timestamp_is_after_epoch() {
    let ts = ax_id::clock::current_timestamp_ms().unwrap();
    assert!(ts > 0);
}
