use fuse_ring::error::completion_result;
use fuse_ring::error::ErrorKind;
use fuse_ring::error::IoError;
use fuse_ring::text::decimal_text;
use fuse_ring::text::signed_decimal_text;

fn described(error: IoError) -> (Option<ErrorKind>, Option<String>) {
    (error.kind(), error.message())
}

#[test]
fn numbers_are_written_in_decimal() {
    assert_eq!(decimal_text(0), "0");
    assert_eq!(decimal_text(9), "9");
    assert_eq!(decimal_text(10), "10");
    assert_eq!(decimal_text(1234567890), "1234567890");
    assert_eq!(decimal_text(usize::MAX), format!("{}", usize::MAX));
    for n in 0..2000 {
        assert_eq!(decimal_text(n), format!("{}", n));
    }
}

#[test]
fn negative_numbers_carry_a_sign() {
    assert_eq!(signed_decimal_text(0), "0");
    assert_eq!(signed_decimal_text(17), "17");
    assert_eq!(signed_decimal_text(-5), "-5");
    assert_eq!(signed_decimal_text(i32::MAX), "2147483647");
    assert_eq!(signed_decimal_text(i32::MIN), "-2147483648");
}

#[test]
fn operating_system_errors_have_no_message_of_their_own() {
    assert_eq!(described(IoError::Os(13)), (None, None));
}

#[test]
fn a_forgotten_request_is_not_found() {
    assert_eq!(described(IoError::RequestForgotten), (Some(ErrorKind::NotFound), None));
}

#[test]
fn a_missing_ring_thread_is_a_broken_pipe() {
    assert_eq!(
        described(IoError::RingThreadGone),
        (Some(ErrorKind::BrokenPipe), Some(String::from("ring thread gone")))
    );
    assert_eq!(
        described(IoError::RingCancelled),
        (Some(ErrorKind::BrokenPipe), Some(String::from("ring cancelled")))
    );
}

#[test]
fn busy_slots_can_be_retried() {
    assert_eq!(
        described(IoError::ReadSlotsBusy),
        (Some(ErrorKind::WouldBlock), Some(String::from("all in-flight read slots busy")))
    );
    assert_eq!(
        described(IoError::WriteSlotsBusy),
        (Some(ErrorKind::WouldBlock), Some(String::from("all in-flight write slots busy")))
    );
}

#[test]
fn a_full_submission_queue_is_reported() {
    assert_eq!(
        described(IoError::SubmissionQueueFull),
        (Some(ErrorKind::Other), Some(String::from("submission queue full")))
    );
}

#[test]
fn a_short_write_tells_both_counts() {
    assert_eq!(
        described(IoError::ShortWrite { written: 7, total: 120 }),
        (Some(ErrorKind::WriteZero), Some(String::from("short fuse reply write: 7 of 120 bytes")))
    );
}

#[test]
fn mount_helper_failures_are_told_apart() {
    assert_eq!(
        described(IoError::FusermountFailed),
        (Some(ErrorKind::Other), Some(String::from("fusermount run failed")))
    );
    assert_eq!(
        described(IoError::NoFuseFd),
        (Some(ErrorKind::Other), Some(String::from("no fuse fd")))
    );
    assert_eq!(
        described(IoError::GetFuseFdFailed),
        (Some(ErrorKind::Other), Some(String::from("get fuse fd failed")))
    );
}

#[test]
fn a_completion_is_a_count_or_an_error() {
    assert_eq!(completion_result(0), Ok(0));
    assert_eq!(completion_result(4096), Ok(4096));
    assert_eq!(completion_result(i32::MAX), Ok(2147483647));
    assert_eq!(completion_result(-1), Err(IoError::Os(1)));
    assert_eq!(completion_result(-107), Err(IoError::Os(107)));
    assert_eq!(completion_result(i32::MIN + 1), Err(IoError::Os(i32::MAX)));
}
