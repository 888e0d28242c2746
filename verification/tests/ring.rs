use bytes::Bytes;
use fuse_ring::error::IoError;
use fuse_ring::request::AlignedDataBuf;
use fuse_ring::request::Opcode;
use fuse_ring::request::ReadRequest;
use fuse_ring::request::Region;
use fuse_ring::request::RingRequest;
use fuse_ring::request::Submission;
use fuse_ring::request::WriteRequest;
use fuse_ring::request::MAX_INFLIGHT_READS;
use fuse_ring::request::MAX_INFLIGHT_WRITES;
use fuse_ring::ring::Answer;
use fuse_ring::ring::RingAction;
use fuse_ring::ring::RingEvent;
use fuse_ring::ring::RingThread;
use fuse_ring::ring::Storage;

type Thread = RingThread<u32, u32, u32>;
type Event = RingEvent<u32, u32, u32>;
type Request = RingRequest<u32, u32>;

#[derive(Debug, PartialEq)]
struct Told {
    read: bool,
    reply: u32,
    result: Result<usize, IoError>,
    storage: Storage<u32>,
}

fn told(answer: Answer<u32, u32, u32>) -> Told {
    match answer {
        Answer::Read { req, result, storage } => Told { read: true, reply: req.reply, result, storage },
        Answer::Write { req, result, storage } => Told { read: false, reply: req.reply, result, storage },
    }
}

fn step(thread: &mut Thread, event: Event) -> (Vec<Told>, RingAction) {
    assert!(thread.accepts(&event));
    let (answers, action) = thread.step(event);
    (answers.into_iter().map(told).collect(), action)
}

fn quiet(thread: &mut Thread, event: Event) -> RingAction {
    let (answers, action) = step(thread, event);
    assert_eq!(answers, vec![]);
    action
}

fn start() -> Thread {
    let (thread, action) = RingThread::start(7);
    assert_eq!(action, RingAction::Receive);
    thread
}

fn read(reply: u32) -> Request {
    RingRequest::Read(ReadRequest { header_buf: vec![0; 40], data_buf: AlignedDataBuf::at(64, 4096), reply })
}

fn write(reply: u32) -> Request {
    RingRequest::Write(WriteRequest { data: Bytes::from_static(b"reply"), body_extend: None, reply })
}

fn pushed(action: RingAction) -> Submission {
    match action {
        RingAction::Push(entry) => entry,
        other => panic!("{:?} is no push", other),
    }
}

/// Hands in a request where the thread looks for one, and pushes it. Gives its tag.
fn submit(thread: &mut Thread, req: Request, storage: u32) -> u64 {
    let entry = pushed(quiet(thread, RingEvent::Polled(Some(req))));
    assert_eq!(quiet(thread, RingEvent::Pushed(Some(storage))), RingAction::Poll);
    entry.user_data
}

/// A thread that was given one read, with tag 0, and looks for more.
fn busy() -> Thread {
    let mut thread = start();
    let entry = pushed(quiet(&mut thread, RingEvent::Received(Some(read(100)))));
    assert_eq!(entry.user_data, 0);
    assert_eq!(quiet(&mut thread, RingEvent::Pushed(Some(900))), RingAction::Poll);
    thread
}

/// Lets the wait for completions end well.
fn reap(thread: &mut Thread) {
    assert_eq!(quiet(thread, RingEvent::Polled(None)), RingAction::SubmitAndWait);
    assert_eq!(quiet(thread, RingEvent::Waited), RingAction::Reap);
}

fn completed(user_data: u64, result: i32) -> Event {
    RingEvent::Completed { user_data, result }
}

#[test]
fn a_closed_channel_ends_an_idle_thread() {
    let mut thread = start();
    assert_eq!(quiet(&mut thread, RingEvent::Received(None)), RingAction::Finish);
    let more: Event = RingEvent::Received(None);
    assert!(!thread.accepts(&more));
}

#[test]
fn a_read_is_laid_out_for_the_device() {
    let mut thread = start();
    let entry = pushed(quiet(&mut thread, RingEvent::Received(Some(read(100)))));
    assert_eq!((entry.opcode, entry.fd, entry.user_data), (Opcode::Readv, 7, 0));
    assert_eq!((entry.iovecs.first.region, entry.iovecs.first.len), (Region::Header, 40));
    assert_eq!((entry.iovecs.second.region, entry.iovecs.second.len), (Region::Data, 4096));
    assert_eq!(entry.iovecs.count, 2);
    assert!(matches!(thread.pushing(), Some(RingRequest::Read(read)) if read.reply == 100));
}

#[test]
fn a_write_is_laid_out_for_the_device() {
    let mut thread = start();
    let entry = pushed(quiet(&mut thread, RingEvent::Received(Some(write(5)))));
    assert_eq!((entry.opcode, entry.fd, entry.user_data), (Opcode::Writev, 7, 0x1000));
    assert_eq!((entry.iovecs.first.region, entry.iovecs.first.len), (Region::Reply, 5));
    assert_eq!(entry.iovecs.count, 1);
    assert!(matches!(thread.pushing(), Some(RingRequest::Write(write)) if write.reply == 5));
}

#[test]
fn nothing_is_pushed_before_a_request_arrives() {
    let thread = start();
    assert!(thread.pushing().is_none());
}

#[test]
fn a_completion_answers_its_request() {
    let mut thread = busy();
    reap(&mut thread);
    let (answers, action) = step(&mut thread, completed(0, 136));
    assert_eq!(
        answers,
        vec![Told { read: true, reply: 100, result: Ok(136), storage: Storage::Released(900) }]
    );
    assert_eq!(action, RingAction::Reap);
    assert_eq!(quiet(&mut thread, RingEvent::Reaped), RingAction::Receive);
}

#[test]
fn an_answer_hands_the_buffers_back() {
    let mut thread = busy();
    reap(&mut thread);
    let (answers, _) = thread.step(completed(0, 0));
    match answers.into_iter().next() {
        Some(Answer::Read { req, .. }) => {
            assert_eq!(req.header_buf, vec![0; 40]);
            assert_eq!(req.data_buf, AlignedDataBuf::at(64, 4096));
        }
        _ => panic!("the read has to be answered"),
    }
}

#[test]
fn a_failed_completion_carries_the_error_number() {
    let mut thread = busy();
    reap(&mut thread);
    let (answers, _) = step(&mut thread, completed(0, -19));
    assert_eq!(answers[0].result, Err(IoError::Os(19)));
}

#[test]
fn completions_may_arrive_in_any_order() {
    let mut thread = busy();
    let second = submit(&mut thread, write(200), 901);
    let third = submit(&mut thread, read(101), 902);
    assert_eq!((second, third), (0x1000, 1));
    reap(&mut thread);
    let (answers, _) = step(&mut thread, completed(third, 3));
    assert_eq!(answers, vec![Told { read: true, reply: 101, result: Ok(3), storage: Storage::Released(902) }]);
    let (answers, _) = step(&mut thread, completed(second, 2));
    assert_eq!(answers, vec![Told { read: false, reply: 200, result: Ok(2), storage: Storage::Released(901) }]);
    assert_eq!(quiet(&mut thread, RingEvent::Reaped), RingAction::Poll);
}

#[test]
fn a_completed_slot_is_used_again() {
    let mut thread = busy();
    reap(&mut thread);
    step(&mut thread, completed(0, 1));
    assert_eq!(quiet(&mut thread, RingEvent::Reaped), RingAction::Receive);
    let entry = pushed(quiet(&mut thread, RingEvent::Received(Some(read(101)))));
    assert_eq!(entry.user_data, 0);
}

#[test]
fn requests_that_came_together_are_submitted_together() {
    let mut thread = busy();
    for n in 0..10 {
        submit(&mut thread, write(n), n);
    }
    assert_eq!(quiet(&mut thread, RingEvent::Polled(None)), RingAction::SubmitAndWait);
}

#[test]
fn reads_beyond_the_limit_are_turned_away() {
    let mut thread = busy();
    for n in 1..MAX_INFLIGHT_READS as u32 {
        assert_eq!(submit(&mut thread, read(n), n), n as u64);
    }
    let (answers, action) = step(&mut thread, RingEvent::Polled(Some(read(55))));
    assert_eq!(
        answers,
        vec![Told { read: true, reply: 55, result: Err(IoError::ReadSlotsBusy), storage: Storage::Unused }]
    );
    assert_eq!(action, RingAction::Poll);
    assert_eq!(submit(&mut thread, write(56), 56), 0x1000);
    reap(&mut thread);
    step(&mut thread, completed(9, 0));
    assert_eq!(quiet(&mut thread, RingEvent::Reaped), RingAction::Poll);
    assert_eq!(submit(&mut thread, read(57), 57), 9);
}

#[test]
fn writes_beyond_the_limit_are_turned_away() {
    let mut thread = busy();
    for n in 0..MAX_INFLIGHT_WRITES as u32 {
        assert_eq!(submit(&mut thread, write(n), n), 0x1000 + n as u64);
    }
    let (answers, action) = step(&mut thread, RingEvent::Polled(Some(write(66))));
    assert_eq!(
        answers,
        vec![Told { read: false, reply: 66, result: Err(IoError::WriteSlotsBusy), storage: Storage::Unused }]
    );
    assert_eq!(action, RingAction::Poll);
}

#[test]
fn a_full_submission_queue_gives_the_slot_back() {
    let mut thread = start();
    let first = pushed(quiet(&mut thread, RingEvent::Received(Some(read(1)))));
    let (answers, action) = step(&mut thread, RingEvent::Pushed(None));
    assert_eq!(
        answers,
        vec![Told { read: true, reply: 1, result: Err(IoError::SubmissionQueueFull), storage: Storage::Unused }]
    );
    assert_eq!(action, RingAction::Poll);
    let again = pushed(quiet(&mut thread, RingEvent::Polled(Some(read(1)))));
    assert_eq!(again.user_data, first.user_data);
    step(&mut thread, RingEvent::Pushed(None));
    pushed(quiet(&mut thread, RingEvent::Polled(Some(write(2)))));
    let (answers, _) = step(&mut thread, RingEvent::Pushed(None));
    assert_eq!(
        answers,
        vec![Told { read: false, reply: 2, result: Err(IoError::SubmissionQueueFull), storage: Storage::Unused }]
    );
    assert_eq!(quiet(&mut thread, RingEvent::Polled(None)), RingAction::Receive);
}

#[test]
fn an_interrupted_wait_is_repeated() {
    let mut thread = busy();
    assert_eq!(quiet(&mut thread, RingEvent::Polled(None)), RingAction::SubmitAndWait);
    let interrupted = RingEvent::WaitFailed { interrupted: true, raw: Some(libc::EINTR) };
    assert_eq!(quiet(&mut thread, interrupted), RingAction::Poll);
    reap(&mut thread);
    let (answers, _) = step(&mut thread, completed(0, 1));
    assert_eq!(answers.len(), 1);
}

#[test]
fn an_unusable_ring_fails_every_request() {
    let mut thread = busy();
    submit(&mut thread, write(200), 901);
    submit(&mut thread, read(101), 902);
    submit(&mut thread, write(201), 903);
    assert_eq!(quiet(&mut thread, RingEvent::Polled(None)), RingAction::SubmitAndWait);
    let failure = RingEvent::WaitFailed { interrupted: false, raw: Some(libc::EBADF) };
    let (answers, action) = step(&mut thread, failure);
    let result = Err(IoError::Os(libc::EBADF));
    assert_eq!(
        answers,
        vec![
            Told { read: true, reply: 100, result, storage: Storage::Leaked(900) },
            Told { read: true, reply: 101, result, storage: Storage::Leaked(902) },
            Told { read: false, reply: 200, result, storage: Storage::Leaked(901) },
            Told { read: false, reply: 201, result, storage: Storage::Leaked(903) },
        ]
    );
    assert_eq!(action, RingAction::Abort);
    let more: Event = RingEvent::Polled(None);
    assert!(!thread.accepts(&more));
}

#[test]
fn a_failure_without_a_number_is_an_input_output_error() {
    let mut thread = busy();
    assert_eq!(quiet(&mut thread, RingEvent::Polled(None)), RingAction::SubmitAndWait);
    let (answers, _) = step(&mut thread, RingEvent::WaitFailed { interrupted: false, raw: None });
    assert_eq!(answers[0].result, Err(IoError::Os(libc::EIO)));
}

#[test]
fn a_completion_for_an_empty_slot_answers_nobody() {
    let mut thread = busy();
    submit(&mut thread, write(200), 901);
    reap(&mut thread);
    assert_eq!(quiet(&mut thread, completed(31, 0)), RingAction::Reap);
    assert_eq!(quiet(&mut thread, completed(0x2000, 0)), RingAction::Reap);
    let (answers, _) = step(&mut thread, completed(0x1000, 4));
    assert_eq!(answers[0].reply, 200);
    let (answers, _) = step(&mut thread, completed(0, 4));
    assert_eq!(answers[0].reply, 100);
}

#[test]
fn a_stray_completion_lets_the_count_run_short() {
    let mut thread = busy();
    reap(&mut thread);
    assert_eq!(quiet(&mut thread, completed(31, 0)), RingAction::Reap);
    assert_eq!(quiet(&mut thread, RingEvent::Reaped), RingAction::Receive);
}

#[test]
fn events_out_of_turn_are_refused() {
    let thread = busy();
    let waited: Event = RingEvent::Waited;
    assert!(!thread.accepts(&waited));
    let pushed: Event = RingEvent::Pushed(None);
    assert!(!thread.accepts(&pushed));
}

#[test]
fn an_error_number_whose_sign_cannot_be_turned_is_refused() {
    let mut thread = busy();
    reap(&mut thread);
    assert!(!thread.accepts(&completed(0, i32::MIN)));
    assert!(thread.accepts(&completed(0, i32::MIN + 1)));
}

#[test]
fn every_request_is_answered_once() {
    let mut thread = start();
    let mut action = RingAction::Receive;
    let mut answered = vec![];
    let mut outstanding: Vec<u64> = vec![];
    let mut sent = 0u32;
    let mut seed = 12345u64;
    while action != RingAction::Finish {
        seed = seed.wrapping_mul(6364136223846793005).wrapping_add(1442695040888963407);
        let chance = (seed >> 33) % 8;
        let event = match action {
            RingAction::Receive | RingAction::Poll => {
                let req = if sent < 2000 && (chance > 0 || action == RingAction::Receive) {
                    sent += 1;
                    Some(if chance % 2 == 0 { read(sent) } else { write(sent) })
                } else {
                    None
                };
                if action == RingAction::Receive {
                    RingEvent::Received(req)
                } else {
                    RingEvent::Polled(req)
                }
            }
            RingAction::Push(entry) => {
                if chance == 1 {
                    RingEvent::Pushed(None)
                } else {
                    assert!(!outstanding.contains(&entry.user_data));
                    outstanding.push(entry.user_data);
                    RingEvent::Pushed(Some(0))
                }
            }
            RingAction::SubmitAndWait => RingEvent::Waited,
            RingAction::Reap => {
                if outstanding.is_empty() || chance == 3 {
                    RingEvent::Reaped
                } else {
                    let at = (seed >> 40) as usize % outstanding.len();
                    completed(outstanding.swap_remove(at), 0)
                }
            }
            RingAction::Finish | RingAction::Abort => unreachable!(),
        };
        let (answers, next) = step(&mut thread, event);
        answered.extend(answers.into_iter().map(|told| told.reply));
        action = next;
    }
    answered.sort();
    assert_eq!(answered, (1..2001).collect::<Vec<u32>>());
    assert!(outstanding.is_empty());
}
