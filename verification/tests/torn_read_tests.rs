use hashoverlay::shared_memory::{torn_read_step, TornReadStep, MAX_TORN_FRAME_RETRIES};
use hashoverlay::telemetry::TelemetryError;

#[test]
fn torn_reads_are_retried_then_rejected() {
    assert_eq!(MAX_TORN_FRAME_RETRIES, 3);
    assert!(matches!(torn_read_step::<u8>(0, Err(TelemetryError::TornFrame)), TornReadStep::Retry));
    assert!(matches!(torn_read_step::<u8>(1, Err(TelemetryError::TornFrame)), TornReadStep::Retry));
    assert!(matches!(
        torn_read_step::<u8>(2, Err(TelemetryError::TornFrame)),
        TornReadStep::Done(Err(TelemetryError::TornFrame))
    ));
}

#[test]
fn samples_and_other_errors_end_the_read_at_once() {
    assert!(matches!(torn_read_step(0, Ok(7u8)), TornReadStep::Done(Ok(7))));
    assert!(matches!(
        torn_read_step::<u8>(0, Err(TelemetryError::BufferTooSmall)),
        TornReadStep::Done(Err(TelemetryError::BufferTooSmall))
    ));
}
