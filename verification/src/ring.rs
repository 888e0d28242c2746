//! The decisions of the ring thread.
//!
//! The thread takes requests from a channel, pushes them to the submission queue, waits for
//! completions and answers the callers. [`RingThread`] decides what is done next and who is
//! answered what; whoever runs it performs the actions and reports back what happened.
//!
//! A request that cannot be submitted is reported back to its caller instead of taking the
//! thread down: if the thread exits, no completion can arrive any more.

use vstd::prelude::*;

use crate::error::completion_result;
use crate::error::IoError;
use crate::foreign::eio;
use crate::lane::Inflight;
use crate::lane::Lane;
use crate::lane::LaneView;
use crate::request::decode_tag;
use crate::request::tag_number;
use crate::request::Opcode;
use crate::request::ReadRequest;
use crate::request::RingRequest;
use crate::request::Submission;
use crate::request::Tag;
use crate::request::WriteRequest;
use crate::request::MAX_INFLIGHT_READS;
use crate::request::MAX_INFLIGHT_WRITES;

verus! {

/// A read that the kernel is working on.
pub type InflightRead<R, I> = Inflight<ReadRequest<R>, I>;

/// A write that the kernel is working on.
pub type InflightWrite<W, I> = Inflight<WriteRequest<W>, I>;

/// What the thread waits to hear.
pub enum Phase<R, W> {
    /// What the channel delivers, however long that takes.
    Receiving,
    /// Whether the channel has something to deliver now.
    Polling,
    /// Whether the submission queue took the request, for which a slot is reserved.
    Pushing {
        /// The reserved slot.
        slot: usize,
        /// The request.
        req: RingRequest<R, W>,
    },
    /// How the wait for completions ended.
    Waiting,
    /// Which completions have arrived.
    Reaping,
    /// Nothing: the thread is over.
    Stopped,
}

/// What happened.
pub enum RingEvent<R, W, I> {
    /// The channel delivered a request, or was closed.
    Received(Option<RingRequest<R, W>>),
    /// The channel had a request to deliver, or had none.
    Polled(Option<RingRequest<R, W>>),
    /// The submission queue took the entry, which now uses this storage, or was full.
    Pushed(Option<I>),
    /// Submitting and waiting succeeded.
    Waited,
    /// Submitting and waiting failed.
    WaitFailed {
        /// Whether a signal interrupted it.
        interrupted: bool,
        /// The error number, where there is one.
        raw: Option<i32>,
    },
    /// A completion arrived.
    Completed {
        /// The number that its submission carried.
        user_data: u64,
        /// What it says about the outcome.
        result: i32,
    },
    /// All completions that had arrived were reported.
    Reaped,
}

/// What is done next.
#[derive(Clone, Copy, Debug, PartialEq, Eq, Structural)]
pub enum RingAction {
    /// Wait for the channel to deliver a request or to be closed.
    Receive,
    /// See whether the channel has a request to deliver.
    Poll,
    /// Push this entry to the submission queue.
    Push(Submission),
    /// Submit what was pushed and wait for at least one completion.
    SubmitAndWait,
    /// Report the next completion that has arrived, or that there is no further one.
    Reap,
    /// End the thread: the channel was closed and nothing is outstanding.
    Finish,
    /// End the thread with the error that made the ring unusable.
    Abort,
}

/// What becomes of the storage of a submission's entries.
#[derive(Debug, PartialEq, Eq)]
pub enum Storage<I> {
    /// The kernel never saw any.
    Unused,
    /// The kernel is done with it.
    Released(I),
    /// The kernel may still read it, so it must never be freed.
    Leaked(I),
}

/// What a caller is told, with the buffers that are handed back.
#[allow(inconsistent_fields)]
pub enum Answer<R, W, I> {
    /// The end of a read.
    Read {
        /// The request, with the caller's buffers and handle.
        req: ReadRequest<R>,
        /// The outcome.
        result: Result<usize, IoError>,
        /// What becomes of the storage.
        storage: Storage<I>,
    },
    /// The end of a write.
    Write {
        /// The request, with the caller's buffers and handle.
        req: WriteRequest<W>,
        /// The outcome.
        result: Result<usize, IoError>,
        /// What becomes of the storage.
        storage: Storage<I>,
    },
}

/// The state of a [`RingThread`], as mathematical values.
#[verifier::ext_equal]
pub struct RingView<R, W, I> {
    /// The descriptor of the device.
    pub fd: i32,
    /// The reads.
    pub reads: LaneView<ReadRequest<R>, I>,
    /// The writes.
    pub writes: LaneView<WriteRequest<W>, I>,
    /// What is waited for.
    pub phase: Phase<R, W>,
}

/// A state, and what was decided on the way to it.
#[verifier::ext_equal]
pub struct Step<R, W, I> {
    /// The state.
    pub next: RingView<R, W, I>,
    /// Who is answered what.
    pub answers: Seq<Answer<R, W, I>>,
    /// What is done next.
    pub action: RingAction,
}

/// The answers to reads that were given up.
pub open spec fn failed_reads<R, W, I>(
    reads: Seq<InflightRead<R, I>>,
    errno: i32,
) -> Seq<Answer<R, W, I>> {
    Seq::new(
        reads.len(),
        |i: int|
            Answer::Read {
                req: reads[i].req,
                result: Err(IoError::Os(errno)),
                storage: Storage::Leaked(reads[i].iovecs),
            },
    )
}

/// The answers to writes that were given up.
pub open spec fn failed_writes<R, W, I>(
    writes: Seq<InflightWrite<W, I>>,
    errno: i32,
) -> Seq<Answer<R, W, I>> {
    Seq::new(
        writes.len(),
        |i: int|
            Answer::Write {
                req: writes[i].req,
                result: Err(IoError::Os(errno)),
                storage: Storage::Leaked(writes[i].iovecs),
            },
    )
}

impl<R, W, I> RingView<R, W, I> {
    /// A thread that has just started.
    pub open spec fn initial(fd: i32) -> Self {
        RingView {
            fd,
            reads: LaneView::empty(MAX_INFLIGHT_READS),
            writes: LaneView::empty(MAX_INFLIGHT_WRITES),
            phase: Phase::Receiving,
        }
    }

    /// The tables are within their limits, a reserved slot exists, and the thread blocks on the
    /// channel only while nothing is outstanding.
    pub open spec fn wf(self) -> bool {
        &&& self.reads.table.wf()
        &&& self.writes.table.wf()
        &&& self.reads.table.max == MAX_INFLIGHT_READS
        &&& self.writes.table.max == MAX_INFLIGHT_WRITES
        &&& match self.phase {
            Phase::Receiving => self.idle(),
            Phase::Waiting => !self.idle(),
            Phase::Pushing { slot, req: RingRequest::Read(_) } => slot
                < self.reads.table.slots.len(),
            Phase::Pushing { slot, req: RingRequest::Write(_) } => slot
                < self.writes.table.slots.len(),
            _ => true,
        }
    }

    /// No completion is due.
    pub open spec fn idle(self) -> bool {
        self.reads.inflight == 0 && self.writes.inflight == 0
    }

    /// The event answers what the thread waits for, and stays within machine limits: counts of
    /// submissions that fit, and an error number whose sign can be turned.
    pub open spec fn accepts(self, event: RingEvent<R, W, I>) -> bool {
        match (self.phase, event) {
            (Phase::Receiving, RingEvent::Received(_)) => true,
            (Phase::Polling, RingEvent::Polled(_)) => true,
            (Phase::Pushing { req: RingRequest::Read(_), .. }, RingEvent::Pushed(taken)) => taken
                is Some ==> self.reads.inflight < usize::MAX,
            (Phase::Pushing { req: RingRequest::Write(_), .. }, RingEvent::Pushed(taken)) => taken
                is Some ==> self.writes.inflight < usize::MAX,
            (Phase::Waiting, RingEvent::Waited) => true,
            (Phase::Waiting, RingEvent::WaitFailed { .. }) => true,
            (Phase::Reaping, RingEvent::Completed { result, .. }) => result > i32::MIN,
            (Phase::Reaping, RingEvent::Reaped) => true,
            _ => false,
        }
    }

    /// Nobody is answered, and the thread goes on in the given phase with the given action.
    pub open spec fn quietly(self, phase: Phase<R, W>, action: RingAction) -> Step<R, W, I> {
        Step { next: RingView { phase, ..self }, answers: Seq::empty(), action }
    }

    /// Another round: the thread blocks on the channel if nothing is outstanding, and otherwise
    /// only looks whether there is a request.
    pub open spec fn another_round(self) -> Step<R, W, I> {
        if self.idle() {
            self.quietly(Phase::Receiving, RingAction::Receive)
        } else {
            self.quietly(Phase::Polling, RingAction::Poll)
        }
    }

    /// A request arrives. If there is a slot for it, it is pushed; else it is answered at once.
    pub open spec fn submit(self, req: RingRequest<R, W>) -> Step<R, W, I> {
        match req {
            RingRequest::Read(read) => match self.reads.table.acquired() {
                None => Step {
                    next: RingView { phase: Phase::Polling, ..self },
                    answers: seq![
                        Answer::Read {
                            req: read,
                            result: Err(IoError::ReadSlotsBusy),
                            storage: Storage::Unused,
                        },
                    ],
                    action: RingAction::Poll,
                },
                Some(slot) => Step {
                    next: RingView {
                        reads: self.reads.after_reserve(),
                        phase: Phase::Pushing { slot, req },
                        ..self
                    },
                    answers: Seq::empty(),
                    action: RingAction::Push(
                        Submission {
                            opcode: Opcode::Readv,
                            fd: self.fd,
                            iovecs: read.spec_iovecs(),
                            user_data: crate::request::encode_tag(Tag::Read(slot)) as u64,
                        },
                    ),
                },
            },
            RingRequest::Write(write) => match self.writes.table.acquired() {
                None => Step {
                    next: RingView { phase: Phase::Polling, ..self },
                    answers: seq![
                        Answer::Write {
                            req: write,
                            result: Err(IoError::WriteSlotsBusy),
                            storage: Storage::Unused,
                        },
                    ],
                    action: RingAction::Poll,
                },
                Some(slot) => Step {
                    next: RingView {
                        writes: self.writes.after_reserve(),
                        phase: Phase::Pushing { slot, req },
                        ..self
                    },
                    answers: Seq::empty(),
                    action: RingAction::Push(
                        Submission {
                            opcode: Opcode::Writev,
                            fd: self.fd,
                            iovecs: write.spec_iovecs(),
                            user_data: crate::request::encode_tag(Tag::Write(slot)) as u64,
                        },
                    ),
                },
            },
        }
    }

    /// The submission queue took the request in its slot, or did not. If it did, the request
    /// waits for its completion; else its slot is given back and it is answered.
    pub open spec fn settle(
        self,
        slot: usize,
        req: RingRequest<R, W>,
        taken: Option<I>,
    ) -> Step<R, W, I> {
        match (req, taken) {
            (RingRequest::Read(read), Some(iovecs)) => RingView {
                reads: self.reads.after_commit(slot, read, iovecs),
                ..self
            }.quietly(Phase::Polling, RingAction::Poll),
            (RingRequest::Write(write), Some(iovecs)) => RingView {
                writes: self.writes.after_commit(slot, write, iovecs),
                ..self
            }.quietly(Phase::Polling, RingAction::Poll),
            (RingRequest::Read(read), None) => Step {
                next: RingView {
                    reads: self.reads.after_cancel(slot),
                    phase: Phase::Polling,
                    ..self
                },
                answers: seq![
                    Answer::Read {
                        req: read,
                        result: Err(IoError::SubmissionQueueFull),
                        storage: Storage::Unused,
                    },
                ],
                action: RingAction::Poll,
            },
            (RingRequest::Write(write), None) => Step {
                next: RingView {
                    writes: self.writes.after_cancel(slot),
                    phase: Phase::Polling,
                    ..self
                },
                answers: seq![
                    Answer::Write {
                        req: write,
                        result: Err(IoError::SubmissionQueueFull),
                        storage: Storage::Unused,
                    },
                ],
                action: RingAction::Poll,
            },
        }
    }

    /// A completion arrives. The request in the slot that it names is answered with its outcome
    /// and the slot is recycled. Where the slot is empty nobody is answered.
    pub open spec fn complete(self, user_data: u64, result: i32) -> Step<R, W, I> {
        match crate::request::spec_decode_tag(user_data) {
            Tag::Read(slot) => Step {
                next: RingView {
                    reads: self.reads.after_complete(slot),
                    phase: Phase::Reaping,
                    ..self
                },
                answers: match self.reads.table.at(slot) {
                    Some(done) => seq![
                        Answer::Read {
                            req: done.req,
                            result: crate::error::spec_completion_result(result),
                            storage: Storage::Released(done.iovecs),
                        },
                    ],
                    None => Seq::empty(),
                },
                action: RingAction::Reap,
            },
            Tag::Write(slot) => Step {
                next: RingView {
                    writes: self.writes.after_complete(slot),
                    phase: Phase::Reaping,
                    ..self
                },
                answers: match self.writes.table.at(slot) {
                    Some(done) => seq![
                        Answer::Write {
                            req: done.req,
                            result: crate::error::spec_completion_result(result),
                            storage: Storage::Released(done.iovecs),
                        },
                    ],
                    None => Seq::empty(),
                },
                action: RingAction::Reap,
            },
        }
    }

    /// The ring is unusable. Every outstanding request is answered with the error number, or
    /// with that of an input/output error where there is none, the reads before the writes and
    /// each in slot order, and the thread is over.
    pub open spec fn give_up(self, raw: Option<i32>) -> Step<R, W, I> {
        let errno = match raw {
            Some(errno) => errno,
            None => crate::foreign::io_errno(),
        };
        Step {
            next: RingView {
                reads: self.reads.after_fail(),
                writes: self.writes.after_fail(),
                phase: Phase::Stopped,
                ..self
            },
            answers: failed_reads(crate::slot_table::occupied(self.reads.table.slots), errno)
                + failed_writes(crate::slot_table::occupied(self.writes.table.slots), errno),
            action: RingAction::Abort,
        }
    }

    /// What the thread decides on an event that it accepts.
    pub open spec fn step(self, event: RingEvent<R, W, I>) -> Step<R, W, I> {
        match event {
            RingEvent::Received(None) => self.quietly(Phase::Stopped, RingAction::Finish),
            RingEvent::Received(Some(req)) => self.submit(req),
            RingEvent::Polled(Some(req)) => self.submit(req),
            RingEvent::Polled(None) => if self.idle() {
                self.quietly(Phase::Receiving, RingAction::Receive)
            } else {
                self.quietly(Phase::Waiting, RingAction::SubmitAndWait)
            },
            RingEvent::Pushed(taken) => match self.phase {
                Phase::Pushing { slot, req } => self.settle(slot, req, taken),
                _ => arbitrary(),
            },
            RingEvent::Waited => self.quietly(Phase::Reaping, RingAction::Reap),
            RingEvent::WaitFailed { interrupted, raw } => if interrupted {
                self.another_round()
            } else {
                self.give_up(raw)
            },
            RingEvent::Completed { user_data, result } => self.complete(user_data, result),
            RingEvent::Reaped => self.another_round(),
        }
    }
}

/// The state of the ring thread.
pub struct RingThread<R, W, I> {
    fd: i32,
    reads: Lane<ReadRequest<R>, I>,
    writes: Lane<WriteRequest<W>, I>,
    phase: Phase<R, W>,
}

impl<R, W, I> View for RingThread<R, W, I> {
    type V = RingView<R, W, I>;

    closed spec fn view(&self) -> RingView<R, W, I> {
        RingView { fd: self.fd, reads: self.reads@, writes: self.writes@, phase: self.phase }
    }
}

/// Answers the reads that were given up.
fn answer_failed_reads<R, W, I>(
    reads: Vec<InflightRead<R, I>>,
    errno: i32,
    answers: &mut Vec<Answer<R, W, I>>,
)
    ensures
        final(answers)@ == old(answers)@ + failed_reads::<R, W, I>(reads@, errno),
{
    let ghost all = reads@;
    for inflight in it: reads
        invariant
            it.seq() == all,
            answers@ == old(answers)@ + failed_reads::<R, W, I>(all.take(it.index()), errno),
    {
        answers.push(
            Answer::Read {
                req: inflight.req,
                result: Err(IoError::Os(errno)),
                storage: Storage::Leaked(inflight.iovecs),
            },
        );
    }
    assert(all.take(all.len() as int) =~= all);
}

/// Answers the writes that were given up.
fn answer_failed_writes<R, W, I>(
    writes: Vec<InflightWrite<W, I>>,
    errno: i32,
    answers: &mut Vec<Answer<R, W, I>>,
)
    ensures
        final(answers)@ == old(answers)@ + failed_writes::<R, W, I>(writes@, errno),
{
    let ghost all = writes@;
    for inflight in it: writes
        invariant
            it.seq() == all,
            answers@ == old(answers)@ + failed_writes::<R, W, I>(all.take(it.index()), errno),
    {
        answers.push(
            Answer::Write {
                req: inflight.req,
                result: Err(IoError::Os(errno)),
                storage: Storage::Leaked(inflight.iovecs),
            },
        );
    }
    assert(all.take(all.len() as int) =~= all);
}

impl<R, W, I> RingThread<R, W, I> {
    /// A thread that starts on the device `fd`, and its first action.
    pub fn start(fd: i32) -> (started: (Self, RingAction))
        ensures
            started.0@ == RingView::<R, W, I>::initial(fd),
            started.0@.wf(),
            started.1 == RingAction::Receive,
    {
        let thread = RingThread {
            fd,
            reads: Lane::new(MAX_INFLIGHT_READS),
            writes: Lane::new(MAX_INFLIGHT_WRITES),
            phase: Phase::Receiving,
        };
        (thread, RingAction::Receive)
    }

    /// The request for which [`RingAction::Push`] was asked.
    pub fn pushing(&self) -> (req: Option<&RingRequest<R, W>>)
        ensures
            req == (match self@.phase {
                Phase::Pushing { slot: _, req } => Some(&req),
                _ => None,
            }),
    {
        match &self.phase {
            Phase::Pushing { slot: _, req } => Some(req),
            _ => None,
        }
    }

    /// Whether the event can be handed to [`RingThread::step`].
    pub fn accepts(&self, event: &RingEvent<R, W, I>) -> (accepted: bool)
        ensures
            accepted == self@.accepts(*event),
    {
        match (&self.phase, event) {
            (Phase::Receiving, RingEvent::Received(_)) => true,
            (Phase::Polling, RingEvent::Polled(_)) => true,
            (Phase::Pushing { req: RingRequest::Read(_), .. }, RingEvent::Pushed(taken)) => {
                taken.is_none() || self.reads.inflight() < usize::MAX
            },
            (Phase::Pushing { req: RingRequest::Write(_), .. }, RingEvent::Pushed(taken)) => {
                taken.is_none() || self.writes.inflight() < usize::MAX
            },
            (Phase::Waiting, RingEvent::Waited) => true,
            (Phase::Waiting, RingEvent::WaitFailed { .. }) => true,
            (Phase::Reaping, RingEvent::Completed { result, .. }) => *result > i32::MIN,
            (Phase::Reaping, RingEvent::Reaped) => true,
            _ => false,
        }
    }

    /// Whether no completion is due.
    fn idle(&self) -> (idle: bool)
        ensures
            idle == self@.idle(),
    {
        self.reads.inflight() == 0 && self.writes.inflight() == 0
    }

    /// Begins another round.
    fn another_round(&mut self) -> (action: RingAction)
        ensures
            final(self)@ == old(self)@.another_round().next,
            action == old(self)@.another_round().action,
    {
        if self.idle() {
            self.phase = Phase::Receiving;
            RingAction::Receive
        } else {
            self.phase = Phase::Polling;
            RingAction::Poll
        }
    }

    /// Finds a slot for a request and lays out its submission, or answers it at once.
    fn submit_request(&mut self, req: RingRequest<R, W>) -> (decided: (
        Vec<Answer<R, W, I>>,
        RingAction,
    ))
        requires
            old(self)@.wf(),
        ensures
            final(self)@ == old(self)@.submit(req).next,
            decided.0@ == old(self)@.submit(req).answers,
            decided.1 == old(self)@.submit(req).action,
            final(self)@.wf(),
    {
        let mut answers: Vec<Answer<R, W, I>> = Vec::new();
        match req {
            RingRequest::Read(read) => match self.reads.reserve() {
                None => {
                    answers.push(
                        Answer::Read {
                            req: read,
                            result: Err(IoError::ReadSlotsBusy),
                            storage: Storage::Unused,
                        },
                    );
                    self.phase = Phase::Polling;
                    (answers, RingAction::Poll)
                },
                Some(slot) => {
                    let entry = Submission {
                        opcode: Opcode::Readv,
                        fd: self.fd,
                        iovecs: read.iovecs(),
                        user_data: tag_number(Tag::Read(slot)),
                    };
                    self.phase = Phase::Pushing { slot, req: RingRequest::Read(read) };
                    (answers, RingAction::Push(entry))
                },
            },
            RingRequest::Write(write) => match self.writes.reserve() {
                None => {
                    answers.push(
                        Answer::Write {
                            req: write,
                            result: Err(IoError::WriteSlotsBusy),
                            storage: Storage::Unused,
                        },
                    );
                    self.phase = Phase::Polling;
                    (answers, RingAction::Poll)
                },
                Some(slot) => {
                    let entry = Submission {
                        opcode: Opcode::Writev,
                        fd: self.fd,
                        iovecs: write.iovecs(),
                        user_data: tag_number(Tag::Write(slot)),
                    };
                    self.phase = Phase::Pushing { slot, req: RingRequest::Write(write) };
                    (answers, RingAction::Push(entry))
                },
            },
        }
    }

    /// Keeps the request that the submission queue took, or answers the one that it did not.
    fn settle(&mut self, slot: usize, req: RingRequest<R, W>, taken: Option<I>) -> (answers: Vec<
        Answer<R, W, I>,
    >)
        requires
            old(self)@.reads.table.wf(),
            old(self)@.writes.table.wf(),
            old(self)@.reads.table.max == MAX_INFLIGHT_READS,
            old(self)@.writes.table.max == MAX_INFLIGHT_WRITES,
            match req {
                RingRequest::Read(_) => slot < old(self)@.reads.table.slots.len() && (taken is Some
                    ==> old(self)@.reads.inflight < usize::MAX),
                RingRequest::Write(_) => slot < old(self)@.writes.table.slots.len() && (taken
                    is Some ==> old(self)@.writes.inflight < usize::MAX),
            },
        ensures
            final(self)@ == old(self)@.settle(slot, req, taken).next,
            answers@ == old(self)@.settle(slot, req, taken).answers,
            final(self)@.wf(),
    {
        let mut answers: Vec<Answer<R, W, I>> = Vec::new();
        self.phase = Phase::Polling;
        match (req, taken) {
            (RingRequest::Read(read), Some(iovecs)) => {
                self.reads.commit(slot, read, iovecs);
            },
            (RingRequest::Write(write), Some(iovecs)) => {
                self.writes.commit(slot, write, iovecs);
            },
            (RingRequest::Read(read), None) => {
                self.reads.cancel(slot);
                answers.push(
                    Answer::Read {
                        req: read,
                        result: Err(IoError::SubmissionQueueFull),
                        storage: Storage::Unused,
                    },
                );
            },
            (RingRequest::Write(write), None) => {
                self.writes.cancel(slot);
                answers.push(
                    Answer::Write {
                        req: write,
                        result: Err(IoError::SubmissionQueueFull),
                        storage: Storage::Unused,
                    },
                );
            },
        }
        answers
    }

    /// Answers the request whose completion arrived.
    fn complete(&mut self, user_data: u64, result: i32) -> (answers: Vec<Answer<R, W, I>>)
        requires
            old(self)@.wf(),
            result > i32::MIN,
        ensures
            final(self)@ == old(self)@.complete(user_data, result).next,
            answers@ == old(self)@.complete(user_data, result).answers,
            final(self)@.wf(),
    {
        let mut answers: Vec<Answer<R, W, I>> = Vec::new();
        self.phase = Phase::Reaping;
        match decode_tag(user_data) {
            Tag::Read(slot) => {
                if let Some(done) = self.reads.complete(slot) {
                    answers.push(
                        Answer::Read {
                            req: done.req,
                            result: completion_result(result),
                            storage: Storage::Released(done.iovecs),
                        },
                    );
                }
            },
            Tag::Write(slot) => {
                if let Some(done) = self.writes.complete(slot) {
                    answers.push(
                        Answer::Write {
                            req: done.req,
                            result: completion_result(result),
                            storage: Storage::Released(done.iovecs),
                        },
                    );
                }
            },
        }
        answers
    }

    /// Answers every outstanding request with the error that made the ring unusable. The storage
    /// of their entries is leaked on purpose: the kernel may still be reading it while the ring
    /// is torn down.
    fn fail_pending(&mut self, raw: Option<i32>) -> (answers: Vec<Answer<R, W, I>>)
        requires
            old(self)@.wf(),
        ensures
            final(self)@ == old(self)@.give_up(raw).next,
            answers@ == old(self)@.give_up(raw).answers,
            final(self)@.wf(),
    {
        let errno: i32 = match raw {
            Some(errno) => errno,
            None => eio(),
        };
        let mut answers: Vec<Answer<R, W, I>> = Vec::new();
        answer_failed_reads(self.reads.fail(), errno, &mut answers);
        answer_failed_writes(self.writes.fail(), errno, &mut answers);
        self.phase = Phase::Stopped;
        answers
    }

    /// Decides what follows from an event: who is answered what, and what is done next.
    pub fn step(&mut self, event: RingEvent<R, W, I>) -> (decided: (
        Vec<Answer<R, W, I>>,
        RingAction,
    ))
        requires
            old(self)@.wf(),
            old(self)@.accepts(event),
        ensures
            final(self)@ == old(self)@.step(event).next,
            decided.0@ == old(self)@.step(event).answers,
            decided.1 == old(self)@.step(event).action,
            final(self)@.wf(),
    {
        match event {
            RingEvent::Received(None) => {
                self.phase = Phase::Stopped;
                (Vec::new(), RingAction::Finish)
            },
            RingEvent::Received(Some(req)) => self.submit_request(req),
            RingEvent::Polled(Some(req)) => self.submit_request(req),
            RingEvent::Polled(None) => {
                if self.idle() {
                    self.phase = Phase::Receiving;
                    (Vec::new(), RingAction::Receive)
                } else {
                    self.phase = Phase::Waiting;
                    (Vec::new(), RingAction::SubmitAndWait)
                }
            },
            RingEvent::Pushed(taken) => {
                let mut phase: Phase<R, W> = Phase::Polling;
                core::mem::swap(&mut phase, &mut self.phase);
                match phase {
                    Phase::Pushing { slot, req } => {
                        (self.settle(slot, req, taken), RingAction::Poll)
                    },
                    _ => vstd::pervasive::unreached(),
                }
            },
            RingEvent::Waited => {
                self.phase = Phase::Reaping;
                (Vec::new(), RingAction::Reap)
            },
            RingEvent::WaitFailed { interrupted, raw } => {
                if interrupted {
                    (Vec::new(), self.another_round())
                } else {
                    (self.fail_pending(raw), RingAction::Abort)
                }
            },
            RingEvent::Completed { user_data, result } => {
                (self.complete(user_data, result), RingAction::Reap)
            },
            RingEvent::Reaped => (Vec::new(), self.another_round()),
        }
    }
}

} // verus!
