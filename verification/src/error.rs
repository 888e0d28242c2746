//! The errors that a connection reports.

use vstd::prelude::*;
use vstd::string::*;

use crate::text::decimal_text;

verus! {

/// What class of failure an error belongs to.
#[derive(Clone, Copy, Debug, PartialEq, Eq, Structural)]
pub enum ErrorKind {
    /// The other side of a channel is gone.
    BrokenPipe,
    /// The operation can be tried again later.
    WouldBlock,
    /// Fewer bytes were taken than were offered.
    WriteZero,
    /// The kernel no longer knows the request.
    NotFound,
    /// Anything else.
    Other,
}

/// An error that a connection reports to its caller.
#[derive(Clone, Copy, Debug, PartialEq, Eq, Structural)]
pub enum IoError {
    /// The operating system failed with this error number.
    Os(i32),
    /// The kernel forgot the request, because it was interrupted or aborted.
    RequestForgotten,
    /// The ring thread no longer receives requests.
    RingThreadGone,
    /// The ring thread dropped the request without answering it.
    RingCancelled,
    /// Every slot for reads is in use.
    ReadSlotsBusy,
    /// Every slot for writes is in use.
    WriteSlotsBusy,
    /// The submission queue took no further entry.
    SubmissionQueueFull,
    /// The kernel took only a part of a reply.
    ShortWrite {
        /// The number of bytes taken.
        written: usize,
        /// The number of bytes offered.
        total: usize,
    },
    /// The mount helper exited with a failure.
    FusermountFailed,
    /// The mount helper sent a list of descriptors with nothing in it.
    NoFuseFd,
    /// The mount helper sent no list of descriptors.
    GetFuseFdFailed,
}

impl IoError {
    /// The class of the error. For an operating system error the number decides, so there is
    /// none here.
    pub open spec fn spec_kind(self) -> Option<ErrorKind> {
        match self {
            IoError::Os(_) => None,
            IoError::RequestForgotten => Some(ErrorKind::NotFound),
            IoError::RingThreadGone => Some(ErrorKind::BrokenPipe),
            IoError::RingCancelled => Some(ErrorKind::BrokenPipe),
            IoError::ReadSlotsBusy => Some(ErrorKind::WouldBlock),
            IoError::WriteSlotsBusy => Some(ErrorKind::WouldBlock),
            IoError::SubmissionQueueFull => Some(ErrorKind::Other),
            IoError::ShortWrite { .. } => Some(ErrorKind::WriteZero),
            IoError::FusermountFailed => Some(ErrorKind::Other),
            IoError::NoFuseFd => Some(ErrorKind::Other),
            IoError::GetFuseFdFailed => Some(ErrorKind::Other),
        }
    }

    /// The message that goes with the error, where it has one of its own.
    pub open spec fn spec_message(self) -> Option<Seq<char>> {
        match self {
            IoError::Os(_) => None,
            IoError::RequestForgotten => None,
            IoError::RingThreadGone => Some("ring thread gone"@),
            IoError::RingCancelled => Some("ring cancelled"@),
            IoError::ReadSlotsBusy => Some("all in-flight read slots busy"@),
            IoError::WriteSlotsBusy => Some("all in-flight write slots busy"@),
            IoError::SubmissionQueueFull => Some("submission queue full"@),
            IoError::ShortWrite { written, total } => Some(
                "short fuse reply write: "@ + crate::text::decimal(written as nat) + " of "@
                    + crate::text::decimal(total as nat) + " bytes"@,
            ),
            IoError::FusermountFailed => Some("fusermount run failed"@),
            IoError::NoFuseFd => Some("no fuse fd"@),
            IoError::GetFuseFdFailed => Some("get fuse fd failed"@),
        }
    }

    /// The class of the error, unless the operating system's number decides it.
    pub fn kind(&self) -> (kind: Option<ErrorKind>)
        ensures
            kind == self.spec_kind(),
    {
        match self {
            IoError::Os(_) => None,
            IoError::RequestForgotten => Some(ErrorKind::NotFound),
            IoError::RingThreadGone => Some(ErrorKind::BrokenPipe),
            IoError::RingCancelled => Some(ErrorKind::BrokenPipe),
            IoError::ReadSlotsBusy => Some(ErrorKind::WouldBlock),
            IoError::WriteSlotsBusy => Some(ErrorKind::WouldBlock),
            IoError::SubmissionQueueFull => Some(ErrorKind::Other),
            IoError::ShortWrite { .. } => Some(ErrorKind::WriteZero),
            IoError::FusermountFailed => Some(ErrorKind::Other),
            IoError::NoFuseFd => Some(ErrorKind::Other),
            IoError::GetFuseFdFailed => Some(ErrorKind::Other),
        }
    }

    /// The message that goes with the error, where it has one of its own.
    pub fn message(&self) -> (message: Option<String>)
        ensures
            message is Some <==> self.spec_message() is Some,
            message is Some ==> message->0@ == self.spec_message()->0,
    {
        match self {
            IoError::Os(_) => None,
            IoError::RequestForgotten => None,
            IoError::RingThreadGone => Some(String::from_str("ring thread gone")),
            IoError::RingCancelled => Some(String::from_str("ring cancelled")),
            IoError::ReadSlotsBusy => Some(String::from_str("all in-flight read slots busy")),
            IoError::WriteSlotsBusy => Some(String::from_str("all in-flight write slots busy")),
            IoError::SubmissionQueueFull => Some(String::from_str("submission queue full")),
            IoError::ShortWrite { written, total } => {
                let mut text = String::from_str("short fuse reply write: ");
                text.append(decimal_text(*written).as_str());
                text.append(" of ");
                text.append(decimal_text(*total).as_str());
                text.append(" bytes");
                Some(text)
            },
            IoError::FusermountFailed => Some(String::from_str("fusermount run failed")),
            IoError::NoFuseFd => Some(String::from_str("no fuse fd")),
            IoError::GetFuseFdFailed => Some(String::from_str("get fuse fd failed")),
        }
    }
}

/// What an operation on a connection hands back: the buffers it was given, and its outcome.
pub type CompleteIoResult<T, U> = (T, Result<U, IoError>);

/// The outcome that the number in a completion stands for: a count of bytes, or, where it is
/// negative, an error number with its sign turned.
pub open spec fn spec_completion_result(result: i32) -> Result<usize, IoError> {
    if result < 0 {
        Err(IoError::Os((-result) as i32))
    } else {
        Ok(result as usize)
    }
}

/// Reads the number in a completion.
pub fn completion_result(result: i32) -> (outcome: Result<usize, IoError>)
    requires
        result > i32::MIN,
    ensures
        outcome == spec_completion_result(result),
        match outcome {
            Ok(count) => count as int == result as int,
            Err(error) => result < 0 && error == IoError::Os((-result) as i32),
        },
{
    if result < 0 {
        Err(IoError::Os(-result))
    } else {
        Ok(result as usize)
    }
}

/// A completion that is not negative is a success with that count, and a negative one is the
/// operating system error of which it is the opposite.
pub proof fn law_completion_is_count_or_errno(result: i32)
    requires
        result > i32::MIN,
    ensures
        match spec_completion_result(result) {
            Ok(count) => count as int == result as int,
            Err(IoError::Os(errno)) => errno as int + result as int == 0 && errno > 0,
            Err(_) => false,
        },
{
}

/// The message on a short write names both counts, the one that was written first.
pub proof fn law_short_write_names_both_counts(written: usize, total: usize)
    ensures
        (IoError::ShortWrite { written, total }).spec_kind() == Some(ErrorKind::WriteZero),
        exists|count: Seq<char>, of: Seq<char>|
            {
                &&& crate::text::plain_number(count)
                &&& crate::text::plain_number(of)
                &&& crate::text::number_of(count) == written
                &&& crate::text::number_of(of) == total
                &&& (IoError::ShortWrite { written, total }).spec_message() == Some(
                    #[trigger] (("short fuse reply write: "@ + count + " of "@) + of) + " bytes"@,
                )
            },
{
    let count = crate::text::decimal(written as nat);
    let of = crate::text::decimal(total as nat);
    crate::text::law_decimal_reads_back(written as nat);
    crate::text::law_decimal_reads_back(total as nat);
    let message = (("short fuse reply write: "@ + count + " of "@) + of) + " bytes"@;
    assert((IoError::ShortWrite { written, total }).spec_message()->0 =~= message);
}

/// An operating system error carries nothing but its number, whichever that is.
pub proof fn law_os_error_has_nothing_of_its_own(errno: i32)
    ensures
        IoError::Os(errno).spec_kind() is None,
        IoError::Os(errno).spec_message() is None,
{
}

} // verus!
