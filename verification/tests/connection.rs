use bytes::Bytes;
use fuse_ring::connection::read_step;
use fuse_ring::connection::write_step;
use fuse_ring::connection::BlockingStep;
use fuse_ring::connection::BlockingWrite;
use fuse_ring::connection::FuseConnection;
use fuse_ring::connection::ReadEvent;
use fuse_ring::connection::ReadStep;
use fuse_ring::connection::WriteEvent;
use fuse_ring::connection::WriteStep;
use fuse_ring::error::IoError;
use fuse_ring::request::Region;
use fuse_ring::request::RingRequest;
use fuse_ring::request::Segment;

fn begin(data: &'static [u8], extend: Option<&'static [u8]>) -> BlockingStep {
    let connection = FuseConnection { fd: 9 };
    connection.write_vectored_blocking(Bytes::from_static(data), extend.map(Bytes::from_static))
}

fn call(step: BlockingStep) -> BlockingWrite {
    match step {
        BlockingStep::Writev(call) => call,
        BlockingStep::Done(_) => panic!("the device has to be asked"),
    }
}

fn done(step: BlockingStep) -> ((Bytes, Option<Bytes>), Result<usize, IoError>) {
    match step {
        BlockingStep::Writev(_) => panic!("the call has to be over"),
        BlockingStep::Done(done) => done,
    }
}

#[test]
fn a_connection_tells_its_descriptor() {
    assert_eq!(FuseConnection { fd: 42 }.as_raw_fd(), 42);
}

#[test]
fn a_read_describes_the_buffers() {
    let connection = FuseConnection { fd: 3 };
    let mut data = [1u8; 16];
    let address = data.as_ptr() as usize;
    let req: RingRequest<&str, ()> = connection.read_vectored(vec![0; 40], &mut data, "handle");
    match req {
        RingRequest::Read(read) => {
            assert_eq!(read.header_buf, vec![0; 40]);
            assert_eq!(read.data_buf.ptr, address);
            assert_eq!(read.data_buf.len, 16);
            assert_eq!(read.reply, "handle");
        }
        RingRequest::Write(_) => panic!("a read was asked for"),
    }
    assert_eq!(data, [1u8; 16]);
}

#[test]
fn a_write_shares_the_bytes() {
    let connection = FuseConnection { fd: 3 };
    let data = Bytes::from(vec![1, 2, 3]);
    let extend = Some(Bytes::from(vec![4, 5]));
    let req: RingRequest<(), u8> = connection.write_vectored(&data, &extend, 8);
    match req {
        RingRequest::Write(write) => {
            assert_eq!(write.data, data);
            assert_eq!(write.data.as_ptr(), data.as_ptr());
            assert_eq!(write.body_extend, extend);
            assert_eq!(write.reply, 8);
        }
        RingRequest::Read(_) => panic!("a write was asked for"),
    }
}

#[test]
fn a_write_without_extension_has_none_in_its_request() {
    let connection = FuseConnection { fd: 3 };
    let req: RingRequest<(), ()> = connection.write_vectored(&Bytes::from_static(b"x"), &None, ());
    assert!(matches!(req, RingRequest::Write(write) if write.body_extend.is_none()));
}

#[test]
fn a_read_waits_once_it_was_sent() {
    assert!(matches!(read_step("data", false, ReadEvent::Sent(true)), ReadStep::Pending("data")));
}

#[test]
fn a_read_fails_if_the_ring_thread_is_gone() {
    match read_step("data", false, ReadEvent::Sent(false)) {
        ReadStep::Done(Some(((header, data), result))) => {
            assert!(header.is_empty());
            assert_eq!(data, "data");
            assert_eq!(result, Err(IoError::RingThreadGone));
        }
        _ => panic!("the call has to be over"),
    }
}

#[test]
fn a_read_keeps_its_buffer_through_an_unmount() {
    assert!(matches!(read_step("data", false, ReadEvent::Unmounted), ReadStep::Draining("data")));
    assert!(matches!(read_step("data", true, ReadEvent::Unmounted), ReadStep::Draining("data")));
}

#[test]
fn a_read_has_no_outcome_if_the_file_system_is_unmounted() {
    let answered = ReadEvent::Answered { header_buf: vec![1, 2], result: Ok(90) };
    assert!(matches!(read_step("data", true, answered), ReadStep::Done(None)));
    let failed = ReadEvent::Answered { header_buf: vec![], result: Err(IoError::Os(19)) };
    assert!(matches!(read_step("data", true, failed), ReadStep::Done(None)));
    assert!(matches!(read_step("data", true, ReadEvent::Cancelled), ReadStep::Done(None)));
}

#[test]
fn a_sent_read_ends_only_with_the_ring_thread() {
    let mut buffer = match read_step("data", false, ReadEvent::Sent(true)) {
        ReadStep::Pending(buffer) => buffer,
        _ => panic!("the answer has to be awaited"),
    };
    let mut draining = false;
    for _ in 0..3 {
        match read_step(buffer, draining, ReadEvent::Unmounted) {
            ReadStep::Draining(kept) => buffer = kept,
            _ => panic!("the buffer has to be kept"),
        }
        draining = true;
    }
    assert_eq!(buffer, "data");
    assert!(matches!(read_step(buffer, draining, ReadEvent::Cancelled), ReadStep::Done(None)));
}

#[test]
fn a_read_hands_both_buffers_back_with_its_outcome() {
    let event = ReadEvent::Answered { header_buf: vec![1, 2], result: Ok(90) };
    match read_step("data", false, event) {
        ReadStep::Done(Some(outcome)) => assert_eq!(outcome, ((vec![1, 2], "data"), Ok(90))),
        _ => panic!("the call has to be over"),
    }
}

#[test]
fn a_read_fails_if_the_request_was_dropped() {
    match read_step("data", false, ReadEvent::Cancelled) {
        ReadStep::Done(Some(outcome)) => {
            assert_eq!(outcome, ((vec![], "data"), Err(IoError::RingCancelled)))
        }
        _ => panic!("the call has to be over"),
    }
}

#[test]
fn a_write_hands_the_buffers_back_however_it_ends() {
    let data = Bytes::from_static(b"reply");
    let extend = Some(Bytes::from_static(b"more"));
    assert!(matches!(
        write_step(data.clone(), extend.clone(), WriteEvent::Sent(true)),
        WriteStep::Pending(kept, Some(more)) if kept == data && Some(&more) == extend.as_ref()
    ));
    let ends = vec![
        (WriteEvent::Sent(false), Err(IoError::RingThreadGone)),
        (WriteEvent::Answered(Ok(9)), Ok(9)),
        (WriteEvent::Answered(Err(IoError::Os(5))), Err(IoError::Os(5))),
        (WriteEvent::Cancelled, Err(IoError::RingCancelled)),
    ];
    for (event, result) in ends {
        match write_step(data.clone(), extend.clone(), event) {
            WriteStep::Done(outcome) => assert_eq!(outcome, ((data.clone(), extend.clone()), result)),
            WriteStep::Pending(..) => panic!("the call has to be over"),
        }
    }
}

#[test]
fn a_reply_with_nothing_in_it_is_written_without_the_device() {
    let ((data, extend), result) = done(begin(b"", None));
    assert!(data.is_empty() && extend.is_none());
    assert_eq!(result, Ok(0));
    let ((data, extend), result) = done(begin(b"", Some(b"")));
    assert!(data.is_empty());
    assert_eq!(extend, Some(Bytes::new()));
    assert_eq!(result, Ok(0));
}

#[test]
fn empty_parts_get_no_entry() {
    let reply = Segment { region: Region::Reply, len: 5 };
    let extend = Segment { region: Region::Extend, len: 4 };
    let null = Segment { region: Region::Null, len: 0 };

    let both = call(begin(b"reply", Some(b"more")));
    assert_eq!((both.fd, both.total, both.iovecs.count), (9, 9, 2));
    assert_eq!((both.iovecs.first, both.iovecs.second), (reply, extend));

    let alone = call(begin(b"reply", None));
    assert_eq!((alone.total, alone.iovecs.count), (5, 1));
    assert_eq!((alone.iovecs.first, alone.iovecs.second), (reply, null));

    let padded = call(begin(b"reply", Some(b"")));
    assert_eq!((padded.total, padded.iovecs.count), (5, 1));
    assert_eq!((padded.iovecs.first, padded.iovecs.second), (reply, null));

    let headless = call(begin(b"", Some(b"more")));
    assert_eq!((headless.total, headless.iovecs.count), (4, 1));
    assert_eq!((headless.iovecs.first, headless.iovecs.second), (extend, null));
}

#[test]
fn lengths_that_add_up_are_accepted() {
    let connection = FuseConnection { fd: 1 };
    let step = connection.try_write_vectored_blocking(
        Bytes::from_static(b"reply"),
        Some(Bytes::from_static(b"more")),
    );
    assert_eq!(call(step.unwrap()).total, 9);
}

#[test]
fn a_reply_that_is_taken_whole_succeeds() {
    let ((data, extend), result) = done(call(begin(b"reply", Some(b"more"))).wrote(9, 0));
    assert_eq!(data, Bytes::from_static(b"reply"));
    assert_eq!(extend, Some(Bytes::from_static(b"more")));
    assert_eq!(result, Ok(9));
}

#[test]
fn a_short_write_is_an_error() {
    let (_, result) = done(call(begin(b"reply", Some(b"more"))).wrote(5, 0));
    assert_eq!(result, Err(IoError::ShortWrite { written: 5, total: 9 }));
    let (_, result) = done(call(begin(b"reply", None)).wrote(0, 0));
    assert_eq!(result, Err(IoError::ShortWrite { written: 0, total: 5 }));
}

#[test]
fn an_interrupted_write_is_repeated() {
    let mut write = call(begin(b"reply", Some(b"more")));
    for _ in 0..10 {
        write = call(write.wrote(-1, libc::EINTR));
        assert_eq!((write.fd, write.total, write.iovecs.count), (9, 9, 2));
    }
    assert_eq!(done(write.wrote(9, libc::EINTR)).1, Ok(9));
}

#[test]
fn a_request_that_the_kernel_forgot_is_not_found() {
    let (_, result) = done(call(begin(b"reply", None)).wrote(-1, libc::ENOENT));
    assert_eq!(result, Err(IoError::RequestForgotten));
}

#[test]
fn other_failures_of_the_device_are_passed_on() {
    let ((data, _), result) = done(call(begin(b"reply", None)).wrote(-1, libc::EINVAL));
    assert_eq!(data, Bytes::from_static(b"reply"));
    assert_eq!(result, Err(IoError::Os(libc::EINVAL)));
}
