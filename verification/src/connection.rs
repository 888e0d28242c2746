//! A connection to the device, and the calls that are made on it.
//!
//! A call through the ring thread sends a request and waits; a blocking call writes to the device
//! itself. Either way the caller gets the buffers back that it passed in.

use bytes::Bytes;
use vstd::prelude::*;

use crate::error::CompleteIoResult;
use crate::error::IoError;
use crate::foreign::eintr;
use crate::foreign::enoent;
use crate::request::AlignedDataBuf;
use crate::request::IoVecs;
use crate::request::ReadRequest;
use crate::request::Region;
use crate::request::RingRequest;
use crate::request::Segment;
use crate::request::WriteRequest;

verus! {

/// A connection to the device.
#[derive(Debug, PartialEq, Eq, Structural)]
pub struct FuseConnection {
    /// The descriptor of the device.
    pub fd: i32,
}

/// The number of bytes in an extension, which may be missing.
pub open spec fn extend_len(body_extend: Option<Bytes>) -> nat {
    match body_extend {
        Some(body) => crate::request::bytes_len(body),
        None => 0,
    }
}

/// The two hold the same bytes, or are both missing.
pub open spec fn same_extend(a: Option<Bytes>, b: Option<Bytes>) -> bool {
    match (a, b) {
        (Some(a), Some(b)) => crate::foreign::bytes_content(a) == crate::foreign::bytes_content(b),
        (None, None) => true,
        _ => false,
    }
}

/// The entries for a blocking write: the reply and the extension, without those that are empty.
pub open spec fn blocking_iovecs(data: Bytes, body_extend: Option<Bytes>) -> IoVecs {
    let reply = Segment {
        region: Region::Reply,
        len: crate::request::bytes_len(data) as usize,
    };
    let extend = Segment { region: Region::Extend, len: extend_len(body_extend) as usize };
    let null = crate::request::null_segment();
    if reply.len > 0 && extend.len > 0 {
        IoVecs { first: reply, second: extend, count: 2 }
    } else if reply.len > 0 {
        IoVecs { first: reply, second: null, count: 1 }
    } else if extend.len > 0 {
        IoVecs { first: extend, second: null, count: 1 }
    } else {
        IoVecs { first: null, second: null, count: 0 }
    }
}

impl FuseConnection {
    /// The descriptor of the device.
    pub fn as_raw_fd(&self) -> (fd: i32)
        ensures
            fd == self.fd,
    {
        self.fd
    }

    /// Begins a read through the ring thread: the request to send. Once it was sent, `data_buf`
    /// has to be kept where it is until the ring thread has answered the request or dropped it,
    /// even if the file system is unmounted meanwhile.
    pub fn read_vectored<R, W>(
        &self,
        header_buf: Vec<u8>,
        data_buf: &mut [u8],
        reply: R,
    ) -> (req: RingRequest<R, W>)
        ensures
            req matches RingRequest::Read(read) && {
                &&& read.header_buf == header_buf
                &&& read.data_buf.ptr != 0
                &&& read.data_buf.len == old(data_buf)@.len()
                &&& read.reply == reply
            },
            final(data_buf)@ == old(data_buf)@,
    {
        RingRequest::Read(
            ReadRequest { header_buf, data_buf: AlignedDataBuf::new(data_buf), reply },
        )
    }

    /// Begins a write through the ring thread: the request to send, which shares the bytes with
    /// the caller's buffers.
    pub fn write_vectored<R, W>(
        &self,
        data: &Bytes,
        body_extend: &Option<Bytes>,
        reply: W,
    ) -> (req: RingRequest<R, W>)
        ensures
            req matches RingRequest::Write(write) && {
                &&& crate::foreign::bytes_content(write.data) == crate::foreign::bytes_content(
                    *data,
                )
                &&& same_extend(write.body_extend, *body_extend)
                &&& write.body_extend is Some <==> body_extend is Some
                &&& body_extend is Some ==> crate::foreign::bytes_content(write.body_extend->0)
                    == crate::foreign::bytes_content(body_extend->0)
                &&& write.reply == reply
            },
    {
        let body_extend = match body_extend {
            Some(body) => Some(body.clone()),
            None => None,
        };
        RingRequest::Write(WriteRequest { data: data.clone(), body_extend, reply })
    }

    /// How a write that blocks on the device begins. A reply with nothing in it is written
    /// without asking the device.
    pub open spec fn spec_write_vectored_blocking(
        self,
        data: Bytes,
        body_extend: Option<Bytes>,
    ) -> BlockingStep {
        if blocking_iovecs(data, body_extend).count == 0 {
            BlockingStep::Done(((data, body_extend), Ok(0)))
        } else {
            BlockingStep::Writev(
                BlockingWrite {
                    fd: self.fd,
                    data,
                    body_extend,
                    iovecs: blocking_iovecs(data, body_extend),
                    total: (crate::request::bytes_len(data) + extend_len(body_extend)) as usize,
                },
            )
        }
    }

    /// Begins a write that blocks on the device, unless the lengths of the two buffers add up to
    /// more than the machine can count.
    pub fn try_write_vectored_blocking(&self, data: Bytes, body_extend: Option<Bytes>) -> (step:
        Option<BlockingStep>)
        ensures
            step == (if crate::request::bytes_len(data) + extend_len(body_extend) <= usize::MAX {
                Some(self.spec_write_vectored_blocking(data, body_extend))
            } else {
                None
            }),
    {
        let extend: usize = match &body_extend {
            Some(body) => body.len(),
            None => 0,
        };
        match data.len().checked_add(extend) {
            Some(_) => Some(self.write_vectored_blocking(data, body_extend)),
            None => None,
        }
    }

    /// Begins a write that blocks on the device.
    pub fn write_vectored_blocking(&self, data: Bytes, body_extend: Option<Bytes>) -> (step:
        BlockingStep)
        requires
            crate::request::bytes_len(data) + extend_len(body_extend) <= usize::MAX,
        ensures
            step == self.spec_write_vectored_blocking(data, body_extend),
    {
        let null = Segment { region: Region::Null, len: 0 };
        let mut iovecs = IoVecs { first: null, second: null, count: 0 };
        let mut total: usize = 0;
        if !data.is_empty() {
            iovecs.first = Segment { region: Region::Reply, len: data.len() };
            iovecs.count = 1;
            total = data.len();
        }
        if let Some(extend) = &body_extend {
            if !extend.is_empty() {
                let entry = Segment { region: Region::Extend, len: extend.len() };
                if iovecs.count == 0 {
                    iovecs.first = entry;
                    iovecs.count = 1;
                } else {
                    iovecs.second = entry;
                    iovecs.count = 2;
                }
                total = total + extend.len();
            }
        }
        if iovecs.count == 0 {
            return BlockingStep::Done(((data, body_extend), Ok(0)));
        }
        BlockingStep::Writev(BlockingWrite { fd: self.fd, data, body_extend, iovecs, total })
    }
}

/// What happened to a read through the ring thread.
pub enum ReadEvent {
    /// The request was handed to the ring thread, or could not be.
    Sent(bool),
    /// The file system is being unmounted.
    Unmounted,
    /// The ring thread answered.
    Answered {
        /// The header buffer, which comes back.
        header_buf: Vec<u8>,
        /// The outcome.
        result: Result<usize, IoError>,
    },
    /// The ring thread dropped the request.
    Cancelled,
}

/// Where a read through the ring thread stands.
pub enum ReadStep<T> {
    /// The answer, or the end of the mount, is awaited; the data buffer is kept.
    Pending(T),
    /// The file system is being unmounted, so the caller gets no outcome. The ring thread may
    /// still fill the data buffer, so it is kept until the request is answered or dropped.
    Draining(T),
    /// The call is over. There is no outcome if the file system is being unmounted.
    Done(Option<CompleteIoResult<(Vec<u8>, T), usize>>),
}

impl<T> ReadStep<T> {
    /// The data buffer that is kept for the ring thread, and whether the call is only draining.
    pub open spec fn kept(self) -> Option<(T, bool)> {
        match self {
            ReadStep::Pending(data_buf) => Some((data_buf, false)),
            ReadStep::Draining(data_buf) => Some((data_buf, true)),
            ReadStep::Done(_) => None,
        }
    }
}

/// The call ends with an error: the header buffer is lost, the data buffer comes back.
pub open spec fn read_fails<T>(step: ReadStep<T>, data_buf: T, error: IoError) -> bool {
    step matches ReadStep::Done(Some(((header_buf, returned), result))) && {
        &&& header_buf@.len() == 0
        &&& returned == data_buf
        &&& result == Result::<usize, IoError>::Err(error)
    }
}

/// `step` is where a read stands after `event`, if `data_buf` was kept for it before, and, where
/// it was `draining`, the file system was already being unmounted.
pub open spec fn read_follows<T>(
    data_buf: T,
    draining: bool,
    event: ReadEvent,
    step: ReadStep<T>,
) -> bool {
    match event {
        ReadEvent::Sent(sent) => if sent {
            step == ReadStep::Pending(data_buf)
        } else {
            read_fails(step, data_buf, IoError::RingThreadGone)
        },
        ReadEvent::Unmounted => step == ReadStep::Draining(data_buf),
        ReadEvent::Answered { header_buf, result } => if draining {
            step == ReadStep::<T>::Done(None)
        } else {
            step == ReadStep::Done(Some(((header_buf, data_buf), result)))
        },
        ReadEvent::Cancelled => if draining {
            step == ReadStep::<T>::Done(None)
        } else {
            read_fails(step, data_buf, IoError::RingCancelled)
        },
    }
}

/// Goes on with a read through the ring thread, on behalf of which `data_buf` is kept. After an
/// unmount the read is `draining`: it has no outcome any more, and ends once the ring thread is
/// done with the buffer.
pub fn read_step<T>(data_buf: T, draining: bool, event: ReadEvent) -> (step: ReadStep<T>)
    ensures
        read_follows(data_buf, draining, event, step),
        event == ReadEvent::Sent(true) ==> step == ReadStep::Pending(data_buf),
        event is Unmounted ==> step == ReadStep::Draining(data_buf),
        ring_is_done(event) && draining ==> step == ReadStep::<T>::Done(None),
        event matches ReadEvent::Answered { header_buf, result } ==> (!draining ==> step
            == ReadStep::Done(Some(((header_buf, data_buf), result)))),
        event == ReadEvent::Sent(false) || event is Cancelled && !draining ==> (step matches
            ReadStep::Done(Some(((header_buf, returned), result))) && {
            &&& header_buf@.len() == 0
            &&& returned == data_buf
            &&& result == Result::<usize, IoError>::Err(
                if event is Cancelled {
                    IoError::RingCancelled
                } else {
                    IoError::RingThreadGone
                },
            )
        }),
{
    match event {
        ReadEvent::Sent(sent) => if sent {
            ReadStep::Pending(data_buf)
        } else {
            ReadStep::Done(Some(((Vec::new(), data_buf), Err(IoError::RingThreadGone))))
        },
        ReadEvent::Unmounted => ReadStep::Draining(data_buf),
        ReadEvent::Answered { header_buf, result } => if draining {
            ReadStep::Done(None)
        } else {
            ReadStep::Done(Some(((header_buf, data_buf), result)))
        },
        ReadEvent::Cancelled => if draining {
            ReadStep::Done(None)
        } else {
            ReadStep::Done(Some(((Vec::new(), data_buf), Err(IoError::RingCancelled))))
        },
    }
}

/// The ring thread is done with the request, so it no longer uses the data buffer.
pub open spec fn ring_is_done(event: ReadEvent) -> bool {
    event is Answered || event is Cancelled
}

/// A read that was sent with `data_buf`, and where it stands after each of the events that
/// follow: `steps[i + 1]` is the step on `events[i]`.
pub open spec fn read_runs<T>(
    data_buf: T,
    events: Seq<ReadEvent>,
    steps: Seq<ReadStep<T>>,
) -> bool {
    &&& steps.len() == events.len() + 1
    &&& steps[0] == ReadStep::Pending(data_buf)
    &&& forall|i: int|
        0 <= i < events.len() ==> {
            &&& !((#[trigger] events[i]) is Sent)
            &&& steps[i].kept() matches Some((kept, draining)) && read_follows(
                kept,
                draining,
                events[i],
                steps[i + 1],
            )
        }
}

/// Once a read was sent, only an event by which the ring thread is done with the buffer ends the
/// call. Until then the buffer is kept, and so it is through an unmount.
pub proof fn law_sent_buffer_is_kept_until_the_ring_is_done<T>(
    data_buf: T,
    events: Seq<ReadEvent>,
    steps: Seq<ReadStep<T>>,
)
    requires
        read_runs(data_buf, events, steps),
    ensures
        forall|i: int|
            0 <= i < events.len() ==> ((#[trigger] steps[i + 1]) is Done <==> ring_is_done(
                events[i],
            )),
        !(steps.last() is Done) ==> (steps.last().kept() matches Some((kept, draining)) && kept
            == data_buf && draining == exists|i: int|
            0 <= i < events.len() && (#[trigger] events[i]) is Unmounted),
        steps.last() is Done ==> (steps.last() == ReadStep::<T>::Done(None) <==> exists|i: int|
            0 <= i < events.len() && (#[trigger] events[i]) is Unmounted),
    decreases events.len(),
{
    if events.len() > 0 {
        let earlier = events.drop_last();
        let reached = steps.drop_last();
        let last = events.len() - 1;
        assert forall|i: int| 0 <= i < earlier.len() implies {
            &&& !((#[trigger] earlier[i]) is Sent)
            &&& reached[i].kept() matches Some((kept, draining)) && read_follows(
                kept,
                draining,
                earlier[i],
                reached[i + 1],
            )
        } by {
            assert(events[i] == earlier[i]);
        }
        law_sent_buffer_is_kept_until_the_ring_is_done(data_buf, earlier, reached);
        assert(reached.last() == steps[last]);
        assert(!(events[last] is Sent));
        assert forall|i: int| 0 <= i < events.len() implies ((#[trigger] steps[i + 1]) is Done
            <==> ring_is_done(events[i])) by {
            if i < last {
                assert(reached[i + 1] == steps[i + 1]);
                assert(earlier[i] == events[i]);
            }
        }
        if exists|i: int| 0 <= i < earlier.len() && (#[trigger] earlier[i]) is Unmounted {
            let i = choose|i: int| 0 <= i < earlier.len() && (#[trigger] earlier[i]) is Unmounted;
            assert(events[i] is Unmounted);
        } else if exists|i: int| 0 <= i < last && (#[trigger] events[i]) is Unmounted {
            let i = choose|i: int| 0 <= i < last && (#[trigger] events[i]) is Unmounted;
            assert(earlier[i] is Unmounted);
        }
    }
}

/// What happened to a write through the ring thread.
#[derive(Clone, Copy, Debug, PartialEq, Eq)]
pub enum WriteEvent {
    /// The request was handed to the ring thread, or could not be.
    Sent(bool),
    /// The ring thread answered.
    Answered(Result<usize, IoError>),
    /// The ring thread dropped the request.
    Cancelled,
}

/// Where a write through the ring thread stands.
pub enum WriteStep {
    /// The answer is awaited; the buffers are kept.
    Pending(Bytes, Option<Bytes>),
    /// The call is over.
    Done(CompleteIoResult<(Bytes, Option<Bytes>), usize>),
}

/// Where a write through the ring thread stands after an event.
pub open spec fn spec_write_step(
    data: Bytes,
    body_extend: Option<Bytes>,
    event: WriteEvent,
) -> WriteStep {
    match event {
        WriteEvent::Sent(sent) => if sent {
            WriteStep::Pending(data, body_extend)
        } else {
            WriteStep::Done(((data, body_extend), Err(IoError::RingThreadGone)))
        },
        WriteEvent::Answered(result) => WriteStep::Done(((data, body_extend), result)),
        WriteEvent::Cancelled => WriteStep::Done(
            ((data, body_extend), Err(IoError::RingCancelled)),
        ),
    }
}

/// Goes on with a write through the ring thread, on behalf of which the buffers are kept.
pub fn write_step(data: Bytes, body_extend: Option<Bytes>, event: WriteEvent) -> (step: WriteStep)
    ensures
        step == spec_write_step(data, body_extend, event),
{
    match event {
        WriteEvent::Sent(sent) => if sent {
            WriteStep::Pending(data, body_extend)
        } else {
            WriteStep::Done(((data, body_extend), Err(IoError::RingThreadGone)))
        },
        WriteEvent::Answered(result) => WriteStep::Done(((data, body_extend), result)),
        WriteEvent::Cancelled => WriteStep::Done(
            ((data, body_extend), Err(IoError::RingCancelled)),
        ),
    }
}

/// A write that blocks on the device.
pub struct BlockingWrite {
    /// The descriptor of the device.
    pub fd: i32,
    /// The reply.
    pub data: Bytes,
    /// What is written behind it.
    pub body_extend: Option<Bytes>,
    /// The entries to write.
    pub iovecs: IoVecs,
    /// The number of bytes in them.
    pub total: usize,
}

/// Where a blocking write stands.
pub enum BlockingStep {
    /// The entries are to be written to the device.
    Writev(BlockingWrite),
    /// The call is over.
    Done(CompleteIoResult<(Bytes, Option<Bytes>), usize>),
}

impl BlockingWrite {
    /// Where the write stands after the device took `written` bytes, or, where that is negative,
    /// failed with `errno`. A reply is taken whole or not at all, a write that a signal
    /// interrupted is repeated, and a request that the kernel forgot is not found.
    pub open spec fn spec_wrote(self, written: isize, errno: i32) -> BlockingStep {
        if written >= 0 {
            BlockingStep::Done(
                (
                    (self.data, self.body_extend),
                    if written == self.total {
                        Ok(written as usize)
                    } else {
                        Err(IoError::ShortWrite { written: written as usize, total: self.total })
                    },
                ),
            )
        } else if errno == crate::foreign::interrupted_errno() {
            BlockingStep::Writev(self)
        } else if errno == crate::foreign::not_found_errno() {
            BlockingStep::Done(
                ((self.data, self.body_extend), Err(IoError::RequestForgotten)),
            )
        } else {
            BlockingStep::Done(((self.data, self.body_extend), Err(IoError::Os(errno))))
        }
    }

    /// Goes on after the device was asked to write the entries.
    pub fn wrote(self, written: isize, errno: i32) -> (step: BlockingStep)
        ensures
            step == self.spec_wrote(written, errno),
    {
        if written >= 0 {
            let written = written as usize;
            if written != self.total {
                return BlockingStep::Done(
                    (
                        (self.data, self.body_extend),
                        Err(IoError::ShortWrite { written, total: self.total }),
                    ),
                );
            }
            return BlockingStep::Done(((self.data, self.body_extend), Ok(written)));
        }
        if errno == eintr() {
            BlockingStep::Writev(self)
        } else if errno == enoent() {
            BlockingStep::Done(
                ((self.data, self.body_extend), Err(IoError::RequestForgotten)),
            )
        } else {
            BlockingStep::Done(((self.data, self.body_extend), Err(IoError::Os(errno))))
        }
    }

    /// Where the write stands after the device was asked several times, as long as that was
    /// called for.
    pub open spec fn wrote_repeatedly(self, results: Seq<(isize, i32)>) -> BlockingStep
        decreases results.len(),
    {
        if results.len() == 0 {
            BlockingStep::Writev(self)
        } else {
            match self.spec_wrote(results[0].0, results[0].1) {
                BlockingStep::Writev(again) => again.wrote_repeatedly(results.drop_first()),
                done => done,
            }
        }
    }

    /// However often a signal interrupts the write, it is repeated unchanged, and the first
    /// other result decides.
    pub proof fn law_interruptions_are_retried(self, results: Seq<(isize, i32)>)
        requires
            results.len() > 0,
            forall|i: int|
                0 <= i < results.len() - 1 ==> (#[trigger] results[i]).0 < 0 && results[i].1
                    == crate::foreign::interrupted_errno(),
        ensures
            self.wrote_repeatedly(results) == self.spec_wrote(results.last().0, results.last().1),
        decreases results.len(),
    {
        reveal_with_fuel(BlockingWrite::wrote_repeatedly, 2);
        if results.len() > 1 {
            let rest = results.drop_first();
            assert(results[0].0 < 0);
            assert forall|i: int| 0 <= i < rest.len() - 1 implies (#[trigger] rest[i]).0 < 0
                && rest[i].1 == crate::foreign::interrupted_errno() by {
                assert(results[i + 1] == rest[i]);
            }
            self.law_interruptions_are_retried(rest);
        }
    }

    /// A blocking write succeeds only with the whole reply: a short write is an error. Whatever
    /// happens, the buffers come back.
    pub proof fn law_success_means_the_whole_reply(self, written: isize, errno: i32)
        ensures
            self.spec_wrote(written, errno) matches BlockingStep::Done((buffers, result)) ==> {
                &&& buffers == (self.data, self.body_extend)
                &&& result is Ok <==> written == self.total
                &&& result matches Ok(count) ==> count == self.total
            },
            self.spec_wrote(written, errno) matches BlockingStep::Writev(again) ==> again == self,
    {
    }
}

/// The entries of a blocking write cover exactly the bytes of the reply and its extension, as
/// those of a write through the ring thread do, and none of them is empty.
pub proof fn law_blocking_covers_the_same_bytes<W>(write: WriteRequest<W>)
    requires
        crate::request::bytes_len(write.data) + extend_len(write.body_extend) <= usize::MAX,
    ensures
        blocking_iovecs(write.data, write.body_extend).total() == crate::request::bytes_len(
            write.data,
        ) + extend_len(write.body_extend),
        write.spec_iovecs().total() == blocking_iovecs(write.data, write.body_extend).total(),
        forall|i: int|
            0 <= i < blocking_iovecs(write.data, write.body_extend).used().len() ==> (
            #[trigger] blocking_iovecs(write.data, write.body_extend).used()[i]).len > 0,
{
}

/// However a write through the ring thread ends, its caller gets the buffers back.
pub proof fn law_write_hands_the_buffers_back(
    data: Bytes,
    body_extend: Option<Bytes>,
    event: WriteEvent,
)
    ensures
        match spec_write_step(data, body_extend, event) {
            WriteStep::Pending(kept, kept_extend) => (kept, kept_extend) == (data, body_extend),
            WriteStep::Done((buffers, _)) => buffers == (data, body_extend),
        },
{
}

/// A read that ends without an unmount ends with what the ring thread answered: its header
/// buffer, its outcome whether that is a count or an error, and the caller's data buffer. If the
/// ring thread dropped the request instead, the read ends with that error.
pub proof fn law_read_ends_with_the_answer<T>(
    data_buf: T,
    events: Seq<ReadEvent>,
    steps: Seq<ReadStep<T>>,
)
    requires
        read_runs(data_buf, events, steps),
        steps.last() is Done,
        forall|i: int| 0 <= i < events.len() ==> !((#[trigger] events[i]) is Unmounted),
    ensures
        match events.last() {
            ReadEvent::Answered { header_buf, result } => steps.last() == ReadStep::Done(
                Some(((header_buf, data_buf), result)),
            ),
            ReadEvent::Cancelled => steps.last() matches ReadStep::Done(
                Some(((header_buf, returned), result)),
            ) && header_buf@.len() == 0 && returned == data_buf && result == Result::<
                usize,
                IoError,
            >::Err(IoError::RingCancelled),
            _ => false,
        },
{
    law_sent_buffer_is_kept_until_the_ring_is_done(data_buf, events, steps);
    let last = events.len() - 1;
    assert(steps.last() == steps[last + 1]);
    assert(steps[last].kept() is Some) by {
        assert(!(events[last] is Sent));
    }
    let earlier = events.drop_last();
    let reached = steps.drop_last();
    assert forall|i: int| 0 <= i < earlier.len() implies {
        &&& !((#[trigger] earlier[i]) is Sent)
        &&& reached[i].kept() matches Some((kept, draining)) && read_follows(
            kept,
            draining,
            earlier[i],
            reached[i + 1],
        )
    } by {
        assert(events[i] == earlier[i]);
    }
    law_sent_buffer_is_kept_until_the_ring_is_done(data_buf, earlier, reached);
    assert(reached.last() == steps[last]);
    assert forall|i: int| 0 <= i < earlier.len() implies !((
    #[trigger] earlier[i]) is Unmounted) by {
        assert(events[i] == earlier[i]);
    }
}

/// On each event of a read, what the caller is told follows from that event alone: nothing while
/// the buffer is kept, the answer as it is, or the error for want of an answer.
pub proof fn law_read_tells_what_happened<T>(
    data_buf: T,
    draining: bool,
    event: ReadEvent,
    step: ReadStep<T>,
)
    requires
        read_follows(data_buf, draining, event, step),
    ensures
        step is Pending <==> event == ReadEvent::Sent(true),
        step is Draining <==> event is Unmounted,
        step matches ReadStep::Pending(kept) ==> kept == data_buf,
        step matches ReadStep::Draining(kept) ==> kept == data_buf,
        step matches ReadStep::Done(outcome) ==> {
            &&& outcome is None <==> draining && (event is Answered || event is Cancelled)
            &&& outcome matches Some(((header_buf, returned), result)) ==> {
                &&& returned == data_buf
                &&& match event {
                    ReadEvent::Answered { header_buf: answered, result: said } => header_buf
                        == answered && result == said,
                    ReadEvent::Cancelled => header_buf@.len() == 0 && result == Result::<
                        usize,
                        IoError,
                    >::Err(IoError::RingCancelled),
                    ReadEvent::Sent(_) => header_buf@.len() == 0 && result == Result::<
                        usize,
                        IoError,
                    >::Err(IoError::RingThreadGone),
                    ReadEvent::Unmounted => false,
                }
            }
        },
{
}

/// A write through the ring thread waits exactly once it was sent. It ends with the outcome that
/// the ring thread answered, whether that is a count or an error, or with the error for want of
/// an answer.
pub proof fn law_write_tells_what_happened(
    data: Bytes,
    body_extend: Option<Bytes>,
    event: WriteEvent,
)
    ensures
        spec_write_step(data, body_extend, event) is Pending <==> event == WriteEvent::Sent(true),
        spec_write_step(data, body_extend, event) matches WriteStep::Done((buffers, result)) ==> {
            &&& buffers.0 == data
            &&& buffers.1 == body_extend
            &&& match event {
                WriteEvent::Answered(said) => result == said,
                WriteEvent::Cancelled => result == Result::<usize, IoError>::Err(
                    IoError::RingCancelled,
                ),
                WriteEvent::Sent(_) => result == Result::<usize, IoError>::Err(
                    IoError::RingThreadGone,
                ),
            }
        },
{
}

/// A blocking write asks its own device for exactly the bytes of the reply from first to last and
/// then those of the extension from first to last, with one entry for each of the two that is not
/// empty. It asks for nothing, and succeeds at once, exactly if both are empty.
pub proof fn law_blocking_sends_reply_then_extension(
    connection: FuseConnection,
    data: Bytes,
    body_extend: Option<Bytes>,
    k: int,
)
    requires
        ({
            let extension = match body_extend {
                Some(body) => crate::foreign::bytes_content(body),
                None => Seq::empty(),
            };
            crate::foreign::bytes_content(data).len() + extension.len() <= usize::MAX
        }),
    ensures
        ({
            let reply = crate::foreign::bytes_content(data);
            let extension = match body_extend {
                Some(body) => crate::foreign::bytes_content(body),
                None => Seq::empty(),
            };
            match connection.spec_write_vectored_blocking(data, body_extend) {
                BlockingStep::Done((buffers, result)) => {
                    &&& reply.len() == 0
                    &&& extension.len() == 0
                    &&& buffers.0 == data
                    &&& buffers.1 == body_extend
                    &&& result == Result::<usize, IoError>::Ok(0)
                },
                BlockingStep::Writev(call) => {
                    &&& reply.len() + extension.len() > 0
                    &&& call.fd == connection.fd
                    &&& call.data == data
                    &&& call.body_extend == body_extend
                    &&& call.total == reply.len() + extension.len()
                    &&& crate::request::byte_place(call.iovecs, k) == (if 0 <= k < reply.len() {
                        Some((Region::Reply, k))
                    } else if reply.len() <= k < reply.len() + extension.len() {
                        Some((Region::Extend, k - reply.len()))
                    } else {
                        None
                    })
                    &&& call.iovecs.count == (if reply.len() > 0 {
                        1int
                    } else {
                        0
                    }) + (if extension.len() > 0 {
                        1int
                    } else {
                        0
                    })
                    &&& call.iovecs.first.len > 0
                    &&& call.iovecs.first.region == (if reply.len() > 0 {
                        Region::Reply
                    } else {
                        Region::Extend
                    })
                    &&& call.iovecs.second.region == (if call.iovecs.count == 2 {
                        Region::Extend
                    } else {
                        Region::Null
                    })
                    &&& call.iovecs.count < 2 ==> call.iovecs.second.len == 0
                },
            }
        }),
{
}

/// What the device says decides a blocking write: all bytes taken is success with their number,
/// any other number is a short write that names it, a signal repeats the same call, a forgotten
/// request is not found, and every other error is passed on. The buffers always come back.
pub proof fn law_device_decides_a_blocking_write(call: BlockingWrite, written: isize, errno: i32)
    ensures
        match call.spec_wrote(written, errno) {
            BlockingStep::Writev(again) => written < 0 && errno == 4 && again == call,
            BlockingStep::Done((buffers, result)) => {
                &&& written >= 0 || errno != 4
                &&& buffers.0 == call.data
                &&& buffers.1 == call.body_extend
                &&& match result {
                    Ok(count) => count == written && count == call.total,
                    Err(IoError::ShortWrite { written: taken, total }) => taken == written && total
                        == call.total && written != call.total,
                    Err(IoError::RequestForgotten) => written < 0 && errno == 2,
                    Err(IoError::Os(number)) => written < 0 && number == errno && errno != 2,
                    Err(_) => false,
                }
            },
        },
{
}

} // verus!
