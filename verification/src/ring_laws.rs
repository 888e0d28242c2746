//! What holds of the ring thread as a whole: no request is lost, none is answered twice, and
//! nobody is left waiting when the thread ends.

use vstd::multiset::Multiset;
use vstd::prelude::*;

use crate::error::IoError;
use crate::lane::Inflight;
use crate::lane::LaneView;
use crate::request::Opcode;
use crate::request::ReadRequest;
use crate::request::Region;
use crate::request::RingRequest;
use crate::request::Tag;
use crate::request::WriteRequest;
use crate::request::MAX_INFLIGHT_READS;
use crate::request::MAX_INFLIGHT_WRITES;
use crate::ring::Answer;
use crate::ring::InflightRead;
use crate::ring::InflightWrite;
use crate::ring::Phase;
use crate::ring::RingAction;
use crate::ring::RingEvent;
use crate::ring::RingView;
use crate::ring::Storage;

verus! {

/// The reads among the answered requests.
pub open spec fn answered_reads<R, W, I>(answers: Seq<Answer<R, W, I>>) -> Multiset<
    ReadRequest<R>,
>
    decreases answers.len(),
{
    if answers.len() == 0 {
        Multiset::empty()
    } else {
        match answers.last() {
            Answer::Read { req, .. } => answered_reads(answers.drop_last()).insert(req),
            Answer::Write { .. } => answered_reads(answers.drop_last()),
        }
    }
}

/// The writes among the answered requests.
pub open spec fn answered_writes<R, W, I>(answers: Seq<Answer<R, W, I>>) -> Multiset<
    WriteRequest<W>,
>
    decreases answers.len(),
{
    if answers.len() == 0 {
        Multiset::empty()
    } else {
        match answers.last() {
            Answer::Write { req, .. } => answered_writes(answers.drop_last()).insert(req),
            Answer::Read { .. } => answered_writes(answers.drop_last()),
        }
    }
}

/// The outcome in an answer.
pub open spec fn outcome_of<R, W, I>(answer: Answer<R, W, I>) -> Result<usize, IoError> {
    match answer {
        Answer::Read { result, .. } => result,
        Answer::Write { result, .. } => result,
    }
}

/// What an answer says of the storage.
pub open spec fn storage_of<R, W, I>(answer: Answer<R, W, I>) -> Storage<I> {
    match answer {
        Answer::Read { storage, .. } => storage,
        Answer::Write { storage, .. } => storage,
    }
}

impl<R, W, I> RingEvent<R, W, I> {
    /// The request that arrives with the event.
    pub open spec fn arriving(self) -> Option<RingRequest<R, W>> {
        match self {
            RingEvent::Received(req) => req,
            RingEvent::Polled(req) => req,
            _ => None,
        }
    }

    /// The read that arrives with the event.
    pub open spec fn arriving_reads(self) -> Multiset<ReadRequest<R>> {
        match self.arriving() {
            Some(RingRequest::Read(req)) => Multiset::singleton(req),
            _ => Multiset::empty(),
        }
    }

    /// The write that arrives with the event.
    pub open spec fn arriving_writes(self) -> Multiset<WriteRequest<W>> {
        match self.arriving() {
            Some(RingRequest::Write(req)) => Multiset::singleton(req),
            _ => Multiset::empty(),
        }
    }
}

impl<R, W, I> RingView<R, W, I> {
    /// The slot of a read that is being pushed.
    pub open spec fn reserved_reads(self) -> Set<usize> {
        match self.phase {
            Phase::Pushing { slot, req: RingRequest::Read(_) } => Set::empty().insert(slot),
            _ => Set::empty(),
        }
    }

    /// The slot of a write that is being pushed.
    pub open spec fn reserved_writes(self) -> Set<usize> {
        match self.phase {
            Phase::Pushing { slot, req: RingRequest::Write(_) } => Set::empty().insert(slot),
            _ => Set::empty(),
        }
    }

    /// The reads whose callers wait for an answer.
    pub open spec fn waiting_reads(self) -> Multiset<ReadRequest<R>> {
        match self.phase {
            Phase::Pushing { req: RingRequest::Read(req), .. } => self.reads.pending().insert(req),
            _ => self.reads.pending(),
        }
    }

    /// The writes whose callers wait for an answer.
    pub open spec fn waiting_writes(self) -> Multiset<WriteRequest<W>> {
        match self.phase {
            Phase::Pushing { req: RingRequest::Write(req), .. } => self.writes.pending().insert(
                req,
            ),
            _ => self.writes.pending(),
        }
    }

    /// The thread is running, every slot is in exactly one place, and the counts are right.
    pub open spec fn consistent(self) -> bool {
        &&& self.wf()
        &&& !(self.phase is Stopped)
        &&& self.reads.consistent(self.reserved_reads())
        &&& self.writes.consistent(self.reserved_writes())
    }

    /// A completion stands for a submission that has none yet.
    pub open spec fn genuine(self, event: RingEvent<R, W, I>) -> bool {
        match event {
            RingEvent::Completed { user_data, .. } => match crate::request::spec_decode_tag(
                user_data,
            ) {
                Tag::Read(slot) => self.reads.table.at(slot) is Some,
                Tag::Write(slot) => self.writes.table.at(slot) is Some,
            },
            _ => true,
        }
    }

    /// The request is kept, with its storage, for the completion with this number.
    pub open spec fn keeps(self, user_data: u64, req: RingRequest<R, W>, iovecs: I) -> bool {
        match (crate::request::spec_decode_tag(user_data), req) {
            (Tag::Read(slot), RingRequest::Read(req)) => self.reads.table.at(slot) == Some(
                Inflight { req, iovecs },
            ),
            (Tag::Write(slot), RingRequest::Write(req)) => self.writes.table.at(slot) == Some(
                Inflight { req, iovecs },
            ),
            _ => false,
        }
    }
}

proof fn lemma_answered_add<R, W, I>(a: Seq<Answer<R, W, I>>, b: Seq<Answer<R, W, I>>)
    ensures
        answered_reads(a + b) == answered_reads(a).add(answered_reads(b)),
        answered_writes(a + b) == answered_writes(a).add(answered_writes(b)),
    decreases b.len(),
{
    if b.len() == 0 {
        assert(a + b =~= a);
    } else {
        lemma_answered_add(a, b.drop_last());
        assert((a + b).drop_last() =~= a + b.drop_last());
        assert((a + b).last() == b.last());
    }
    assert(answered_reads(a + b) =~= answered_reads(a).add(answered_reads(b)));
    assert(answered_writes(a + b) =~= answered_writes(a).add(answered_writes(b)));
}

proof fn lemma_answered_one<R, W, I>(answer: Answer<R, W, I>)
    ensures
        answered_reads(seq![answer]) == (match answer {
            Answer::Read { req, .. } => Multiset::singleton(req),
            Answer::Write { .. } => Multiset::empty(),
        }),
        answered_writes(seq![answer]) == (match answer {
            Answer::Read { .. } => Multiset::empty(),
            Answer::Write { req, .. } => Multiset::singleton(req),
        }),
{
    reveal_with_fuel(answered_reads, 2);
    reveal_with_fuel(answered_writes, 2);
    assert(seq![answer].drop_last() =~= Seq::<Answer<R, W, I>>::empty());
    assert(answered_reads(seq![answer]) =~= (match answer {
        Answer::Read { req, .. } => Multiset::singleton(req),
        Answer::Write { .. } => Multiset::empty(),
    }));
    assert(answered_writes(seq![answer]) =~= (match answer {
        Answer::Read { .. } => Multiset::empty(),
        Answer::Write { req, .. } => Multiset::singleton(req),
    }));
}

proof fn lemma_failed_reads<R, W, I>(slots: Seq<Option<InflightRead<R, I>>>, errno: i32)
    ensures
        ({
            let answers = crate::ring::failed_reads::<R, W, I>(
                crate::slot_table::occupied(slots),
                errno,
            );
            &&& answered_reads(answers) == crate::lane::requests(slots)
            &&& answered_writes(answers) == Multiset::<WriteRequest<W>>::empty()
        }),
    decreases slots.len(),
{
    let answers = crate::ring::failed_reads::<R, W, I>(crate::slot_table::occupied(slots), errno);
    if slots.len() > 0 {
        let rest = slots.drop_last();
        lemma_failed_reads::<R, W, I>(rest, errno);
        if slots.last() is Some {
            assert(answers.drop_last() =~= crate::ring::failed_reads::<R, W, I>(
                crate::slot_table::occupied(rest),
                errno,
            ));
        }
    }
}

proof fn lemma_failed_writes<R, W, I>(slots: Seq<Option<InflightWrite<W, I>>>, errno: i32)
    ensures
        ({
            let answers = crate::ring::failed_writes::<R, W, I>(
                crate::slot_table::occupied(slots),
                errno,
            );
            &&& answered_writes(answers) == crate::lane::requests(slots)
            &&& answered_reads(answers) == Multiset::<ReadRequest<R>>::empty()
        }),
    decreases slots.len(),
{
    let answers = crate::ring::failed_writes::<R, W, I>(
        crate::slot_table::occupied(slots),
        errno,
    );
    if slots.len() > 0 {
        let rest = slots.drop_last();
        lemma_failed_writes::<R, W, I>(rest, errno);
        if slots.last() is Some {
            assert(answers.drop_last() =~= crate::ring::failed_writes::<R, W, I>(
                crate::slot_table::occupied(rest),
                errno,
            ));
        }
    }
}

impl<R, W, I> RingView<R, W, I> {
    /// A thread starts consistent, with nobody waiting.
    pub proof fn law_starts_consistent(fd: i32)
        ensures
            RingView::<R, W, I>::initial(fd).consistent(),
            RingView::<R, W, I>::initial(fd).waiting_reads() == Multiset::<
                ReadRequest<R>,
            >::empty(),
            RingView::<R, W, I>::initial(fd).waiting_writes() == Multiset::<
                WriteRequest<W>,
            >::empty(),
    {
        LaneView::<ReadRequest<R>, I>::law_empty_is_consistent(MAX_INFLIGHT_READS);
        LaneView::<WriteRequest<W>, I>::law_empty_is_consistent(MAX_INFLIGHT_WRITES);
    }

    /// Every step keeps the thread consistent until it ends, as long as completions stand for
    /// submissions.
    pub proof fn law_stays_consistent(self, event: RingEvent<R, W, I>)
        requires
            self.consistent(),
            self.accepts(event),
            self.genuine(event),
        ensures
            self.step(event).next.consistent() || self.step(event).next.phase is Stopped,
    {
        match event {
            RingEvent::Received(Some(_)) | RingEvent::Polled(Some(_)) => {
                self.reads.law_reserve(self.reserved_reads());
                self.writes.law_reserve(self.reserved_writes());
            },
            RingEvent::Pushed(taken) => {
                self.lemma_settle(taken);
            },
            RingEvent::Completed { user_data, .. } => {
                match crate::request::spec_decode_tag(user_data) {
                    Tag::Read(slot) => {
                        self.reads.law_complete(Set::empty(), slot);
                    },
                    Tag::Write(slot) => {
                        self.writes.law_complete(Set::empty(), slot);
                    },
                }
            },
            _ => {},
        }
    }

    proof fn lemma_settle(self, taken: Option<I>)
        requires
            self.consistent(),
            self.accepts(RingEvent::Pushed(taken)),
        ensures
            ({
                let step = self.step(RingEvent::Pushed(taken));
                &&& step.next.consistent()
                &&& step.next.waiting_reads().add(answered_reads(step.answers))
                    == self.waiting_reads()
                &&& step.next.waiting_writes().add(answered_writes(step.answers))
                    == self.waiting_writes()
            }),
    {
        let step = self.step(RingEvent::Pushed(taken));
        if step.answers.len() == 1 {
            lemma_answered_one(step.answers[0]);
            assert(step.answers =~= seq![step.answers[0]]);
        }
        if let Phase::Pushing { slot, req } = self.phase {
            assert(Set::<usize>::empty().insert(slot).remove(slot) =~= Set::empty());
            match (req, taken) {
                (RingRequest::Read(read), Some(iovecs)) => {
                    self.reads.law_commit(self.reserved_reads(), slot, read, iovecs);
                },
                (RingRequest::Write(write), Some(iovecs)) => {
                    self.writes.law_commit(self.reserved_writes(), slot, write, iovecs);
                },
                (RingRequest::Read(_), None) => {
                    self.reads.law_cancel(self.reserved_reads(), slot);
                },
                (RingRequest::Write(_), None) => {
                    self.writes.law_cancel(self.reserved_writes(), slot);
                },
            }
        }
        assert(step.next.waiting_reads().add(answered_reads(step.answers))
            =~= self.waiting_reads());
        assert(step.next.waiting_writes().add(answered_writes(step.answers))
            =~= self.waiting_writes());
    }

    /// In every step, the requests that waited or arrived are exactly those that are answered in
    /// it or wait after it, with their buffers: none is lost, none is answered that did not
    /// wait, and none is both answered and kept.
    pub proof fn law_no_request_is_lost(self, event: RingEvent<R, W, I>)
        requires
            self.consistent(),
            self.accepts(event),
        ensures
            ({
                let step = self.step(event);
                &&& step.next.waiting_reads().add(answered_reads(step.answers))
                    == self.waiting_reads().add(event.arriving_reads())
                &&& step.next.waiting_writes().add(answered_writes(step.answers))
                    == self.waiting_writes().add(event.arriving_writes())
            }),
    {
        let step = self.step(event);
        if step.answers.len() == 1 {
            lemma_answered_one(step.answers[0]);
            assert(step.answers =~= seq![step.answers[0]]);
        }
        match event {
            RingEvent::Received(Some(_)) | RingEvent::Polled(Some(_)) => {
                self.reads.law_reserve(self.reserved_reads());
                self.writes.law_reserve(self.reserved_writes());
            },
            RingEvent::Pushed(taken) => {
                self.lemma_settle(taken);
            },
            RingEvent::Completed { user_data, .. } => {
                match crate::request::spec_decode_tag(user_data) {
                    Tag::Read(slot) => {
                        self.reads.law_complete(Set::empty(), slot);
                    },
                    Tag::Write(slot) => {
                        self.writes.law_complete(Set::empty(), slot);
                    },
                }
            },
            RingEvent::WaitFailed { interrupted, raw } => {
                if !interrupted {
                    let errno = match raw {
                        Some(errno) => errno,
                        None => crate::foreign::io_errno(),
                    };
                    let reads = crate::ring::failed_reads::<R, W, I>(
                        crate::slot_table::occupied(self.reads.table.slots),
                        errno,
                    );
                    let writes = crate::ring::failed_writes::<R, W, I>(
                        crate::slot_table::occupied(self.writes.table.slots),
                        errno,
                    );
                    lemma_failed_reads::<R, W, I>(self.reads.table.slots, errno);
                    lemma_failed_writes::<R, W, I>(self.writes.table.slots, errno);
                    lemma_answered_add(reads, writes);
                    self.reads.law_fail();
                    self.writes.law_fail();
                }
            },
            _ => {},
        }
        assert(step.next.waiting_reads().add(answered_reads(step.answers))
            =~= self.waiting_reads().add(event.arriving_reads()));
        assert(step.next.waiting_writes().add(answered_writes(step.answers))
            =~= self.waiting_writes().add(event.arriving_writes()));
    }

    /// The thread ends only when the channel is closed while nothing is outstanding, or when
    /// waiting fails for another reason than a signal. Either way nobody is left waiting.
    pub proof fn law_ends_with_nobody_waiting(self, event: RingEvent<R, W, I>)
        requires
            self.consistent(),
            self.accepts(event),
        ensures
            self.step(event).next.phase is Stopped <==> (event == RingEvent::<R, W, I>::Received(
                None,
            ) || (event matches RingEvent::WaitFailed { interrupted, .. } && !interrupted)),
            self.step(event).next.phase is Stopped ==> {
                &&& self.step(event).next.waiting_reads() == Multiset::<ReadRequest<R>>::empty()
                &&& self.step(event).next.waiting_writes() == Multiset::<WriteRequest<W>>::empty()
            },
    {
        match event {
            RingEvent::Received(None) => {
                self.reads.law_inflight_is_bounded(self.reserved_reads());
                self.writes.law_inflight_is_bounded(self.reserved_writes());
                vstd::multiset::lemma_multiset_empty_len(self.reads.pending());
                vstd::multiset::lemma_multiset_empty_len(self.writes.pending());
            },
            RingEvent::WaitFailed { .. } => {
                self.reads.law_fail();
                self.writes.law_fail();
            },
            _ => {},
        }
    }

    /// The counts never exceed the limits, so the machine limit on them never stands in the way
    /// of a submission.
    pub proof fn law_outstanding_is_bounded(self)
        requires
            self.consistent(),
        ensures
            self.reads.inflight <= MAX_INFLIGHT_READS,
            self.writes.inflight <= MAX_INFLIGHT_WRITES,
            self.phase is Pushing ==> (forall|taken: Option<I>| #[trigger]
                self.accepts(RingEvent::Pushed(taken))),
    {
        self.reads.law_inflight_is_bounded(self.reserved_reads());
        self.writes.law_inflight_is_bounded(self.reserved_writes());
    }

    /// A request is turned away for want of a slot exactly when as many of its sort are
    /// outstanding as the limit allows.
    pub proof fn law_busy_only_at_the_limit(self, req: RingRequest<R, W>)
        requires
            self.consistent(),
            self.phase is Receiving || self.phase is Polling,
        ensures
            !(self.submit(req).action is Push) <==> (match req {
                RingRequest::Read(_) => self.reads.inflight == MAX_INFLIGHT_READS,
                RingRequest::Write(_) => self.writes.inflight == MAX_INFLIGHT_WRITES,
            }),
    {
        self.reads.law_refused_only_at_the_limit();
        self.writes.law_refused_only_at_the_limit();
    }

    /// A request that arrives or is pushed never ends the thread. If it is answered at once, it
    /// alone is, with an error after which its caller can send it again.
    pub proof fn law_refusal_keeps_the_thread_alive(self, event: RingEvent<R, W, I>)
        requires
            self.accepts(event),
            event.arriving() is Some || event is Pushed,
        ensures
            !(self.step(event).next.phase is Stopped),
            self.step(event).answers.len() <= 1,
            self.step(event).answers.len() == 1 ==> {
                let answer = self.step(event).answers[0];
                let req = match self.phase {
                    Phase::Pushing { req, .. } => req,
                    _ => event.arriving()->0,
                };
                match (answer, req) {
                    (
                        Answer::Read { req: answered, result, .. },
                        RingRequest::Read(read),
                    ) => answered == read && result == Result::<usize, IoError>::Err(
                        if event is Pushed {
                            IoError::SubmissionQueueFull
                        } else {
                            IoError::ReadSlotsBusy
                        },
                    ),
                    (
                        Answer::Write { req: answered, result, .. },
                        RingRequest::Write(write),
                    ) => answered == write && result == Result::<usize, IoError>::Err(
                        if event is Pushed {
                            IoError::SubmissionQueueFull
                        } else {
                            IoError::WriteSlotsBusy
                        },
                    ),
                    _ => false,
                }
            },
    {
    }

    /// The thread blocks on the channel only while nothing is outstanding, and waits for
    /// completions only when something is and the channel has no further request, so that all
    /// requests that came in together are submitted together.
    pub proof fn law_blocks_only_where_something_is_due(self, event: RingEvent<R, W, I>)
        requires
            self.accepts(event),
        ensures
            self.step(event).action == RingAction::Receive ==> self.step(event).next.idle(),
            self.step(event).action == RingAction::SubmitAndWait <==> !self.idle() && event
                == RingEvent::<R, W, I>::Polled(None),
    {
    }

    /// A wait that a signal interrupted is repeated: nobody is answered and nothing is given up.
    pub proof fn law_interruption_is_harmless(self, raw: Option<i32>)
        requires
            self.wf(),
            self.phase is Waiting,
        ensures
            ({
                let step = self.step(RingEvent::WaitFailed { interrupted: true, raw });
                &&& step.answers.len() == 0
                &&& step.action == RingAction::Poll
                &&& step.next.reads == self.reads
                &&& step.next.writes == self.writes
            }),
    {
    }

    /// A request that the submission queue took is kept for the completion with the number that
    /// its entry carries.
    pub proof fn law_submission_is_kept(self, event: RingEvent<R, W, I>, iovecs: I)
        requires
            self.consistent(),
            self.accepts(event),
            event.arriving() is Some,
            self.step(event).action is Push,
        ensures
            ({
                let entry = self.step(event).action->Push_0;
                let pushed = self.step(event).next.step(RingEvent::Pushed(Some(iovecs)));
                &&& pushed.next.keeps(entry.user_data, event.arriving()->0, iovecs)
                &&& pushed.answers.len() == 0
            }),
    {
        self.reads.law_reserve(self.reserved_reads());
        self.writes.law_reserve(self.reserved_writes());
    }

    /// What is kept for a completion stays kept while other things happen, until that completion
    /// arrives or the ring is given up.
    pub proof fn law_kept_until_completed(
        self,
        event: RingEvent<R, W, I>,
        user_data: u64,
        req: RingRequest<R, W>,
        iovecs: I,
    )
        requires
            self.consistent(),
            self.accepts(event),
            self.keeps(user_data, req, iovecs),
            event matches RingEvent::Completed { user_data: other, .. } ==> (
            crate::request::spec_decode_tag(other) != crate::request::spec_decode_tag(user_data)),
        ensures
            self.step(event).next.keeps(user_data, req, iovecs) || self.step(event).action
                == RingAction::Abort,
    {
        if event.arriving() is Some {
            if self.reads.table.acquired() is Some {
                self.reads.table.law_acquire_reserves_an_unused_slot(self.reserved_reads());
                assert(forall|i: usize|
                    #[trigger] self.reads.after_reserve().table.at(i) == self.reads.table.at(i));
            }
            if self.writes.table.acquired() is Some {
                self.writes.table.law_acquire_reserves_an_unused_slot(self.reserved_writes());
                assert(forall|i: usize|
                    #[trigger] self.writes.after_reserve().table.at(i) == self.writes.table.at(i));
            }
        }
        if let Phase::Pushing { slot, req: pushing } = self.phase {
            assert(pushing is Read ==> self.reserved_reads().contains(slot));
            assert(pushing is Write ==> self.reserved_writes().contains(slot));
        }
    }

    /// The completion answers the request that was kept for it, with its outcome, its buffers
    /// and its storage, and answers nobody else.
    pub proof fn law_completion_answers_its_request(
        self,
        user_data: u64,
        result: i32,
        req: RingRequest<R, W>,
        iovecs: I,
    )
        requires
            self.keeps(user_data, req, iovecs),
        ensures
            self.complete(user_data, result).answers == (match req {
                RingRequest::Read(req) => seq![
                    Answer::<R, W, I>::Read {
                        req,
                        result: crate::error::spec_completion_result(result),
                        storage: Storage::Released(iovecs),
                    },
                ],
                RingRequest::Write(req) => seq![
                    Answer::<R, W, I>::Write {
                        req,
                        result: crate::error::spec_completion_result(result),
                        storage: Storage::Released(iovecs),
                    },
                ],
            }),
    {
    }

    /// When the ring is given up, every answer carries the error that made it unusable.
    pub proof fn law_giving_up_reports_the_error(self, raw: Option<i32>, i: int)
        requires
            0 <= i < self.give_up(raw).answers.len(),
        ensures
            outcome_of(self.give_up(raw).answers[i]) == Result::<usize, IoError>::Err(
                IoError::Os(
                    if raw is Some {
                        raw->0
                    } else {
                        crate::foreign::io_errno()
                    },
                ),
            ),
    {
    }

    /// The storage of a submission is released only by its completion, and if there will be none
    /// it is leaked: it is never freed while the kernel may read it.
    pub proof fn law_storage_outlives_the_kernel(self, event: RingEvent<R, W, I>, i: int)
        requires
            self.accepts(event),
            0 <= i < self.step(event).answers.len(),
        ensures
            match storage_of(self.step(event).answers[i]) {
                Storage::Unused => !(event is Completed) && !(event is WaitFailed),
                Storage::Released(iovecs) => event matches RingEvent::Completed { user_data, .. }
                    && (match self.step(event).answers[i] {
                    Answer::Read { req, .. } => self.keeps(
                        user_data,
                        RingRequest::Read(req),
                        iovecs,
                    ),
                    Answer::Write { req, .. } => self.keeps(
                        user_data,
                        RingRequest::Write(req),
                        iovecs,
                    ),
                }),
                Storage::Leaked(_) => self.step(event).action == RingAction::Abort,
            },
    {
    }

    /// The state after a run of events.
    pub open spec fn run(self, events: Seq<RingEvent<R, W, I>>) -> Self
        decreases events.len(),
    {
        if events.len() == 0 {
            self
        } else {
            self.run(events.drop_last()).step(events.last()).next
        }
    }

    /// The answers given in a run of events.
    pub open spec fn run_answers(self, events: Seq<RingEvent<R, W, I>>) -> Seq<Answer<R, W, I>>
        decreases events.len(),
    {
        if events.len() == 0 {
            Seq::empty()
        } else {
            self.run_answers(events.drop_last()) + self.run(events.drop_last()).step(
                events.last(),
            ).answers
        }
    }

    /// Each event of the run is accepted where it stands, and completions stand for submissions.
    pub open spec fn genuine_run(self, events: Seq<RingEvent<R, W, I>>) -> bool
        decreases events.len(),
    {
        events.len() > 0 ==> {
            &&& self.genuine_run(events.drop_last())
            &&& self.run(events.drop_last()).accepts(events.last())
            &&& self.run(events.drop_last()).genuine(events.last())
        }
    }

    /// Whatever happens to a thread from its start on, the requests that arrived are exactly
    /// those that were answered and those that still wait. Once the thread has ended, every one
    /// was answered, and answered once.
    pub proof fn law_every_request_is_answered_once(fd: i32, events: Seq<RingEvent<R, W, I>>)
        requires
            RingView::<R, W, I>::initial(fd).genuine_run(events),
        ensures
            ({
                let start = RingView::<R, W, I>::initial(fd);
                let end = start.run(events);
                let answers = start.run_answers(events);
                &&& end.consistent() || end.phase is Stopped
                &&& answered_reads(answers).add(end.waiting_reads()) == all_arriving_reads(events)
                &&& answered_writes(answers).add(end.waiting_writes()) == all_arriving_writes(
                    events,
                )
                &&& end.phase is Stopped ==> {
                    &&& answered_reads(answers) == all_arriving_reads(events)
                    &&& answered_writes(answers) == all_arriving_writes(events)
                }
            }),
    {
        Self::lemma_run(fd, events);
        let start = RingView::<R, W, I>::initial(fd);
        let end = start.run(events);
        if end.phase is Stopped {
            let answers = start.run_answers(events);
            assert(answered_reads(answers) =~= answered_reads(answers).add(end.waiting_reads()));
            assert(answered_writes(answers) =~= answered_writes(answers).add(
                end.waiting_writes(),
            ));
        }
    }

    proof fn lemma_run(fd: i32, events: Seq<RingEvent<R, W, I>>)
        requires
            RingView::<R, W, I>::initial(fd).genuine_run(events),
        ensures
            ({
                let start = RingView::<R, W, I>::initial(fd);
                let end = start.run(events);
                let answers = start.run_answers(events);
                &&& end.consistent() || end.phase is Stopped
                &&& answered_reads(answers).add(end.waiting_reads()) == all_arriving_reads(events)
                &&& answered_writes(answers).add(end.waiting_writes()) == all_arriving_writes(
                    events,
                )
                &&& end.phase is Stopped ==> {
                    &&& end.waiting_reads() == Multiset::<ReadRequest<R>>::empty()
                    &&& end.waiting_writes() == Multiset::<WriteRequest<W>>::empty()
                }
            }),
        decreases events.len(),
    {
        let start = RingView::<R, W, I>::initial(fd);
        let end = start.run(events);
        let answers = start.run_answers(events);
        Self::law_starts_consistent(fd);
        if events.len() > 0 {
            let before = start.run(events.drop_last());
            let event = events.last();
            let earlier = start.run_answers(events.drop_last());
            Self::lemma_run(fd, events.drop_last());
            assert(before.consistent());
            before.law_stays_consistent(event);
            before.law_no_request_is_lost(event);
            before.law_ends_with_nobody_waiting(event);
            lemma_answered_add(earlier, before.step(event).answers);
            let now_reads = answered_reads(before.step(event).answers);
            let now_writes = answered_writes(before.step(event).answers);
            assert(answered_reads(answers).add(end.waiting_reads()) =~= answered_reads(earlier).add(
                end.waiting_reads().add(now_reads),
            ));
            assert(answered_writes(answers).add(end.waiting_writes()) =~= answered_writes(
                earlier,
            ).add(end.waiting_writes().add(now_writes)));
            assert(answered_reads(earlier).add(before.waiting_reads().add(event.arriving_reads()))
                =~= answered_reads(earlier).add(before.waiting_reads()).add(
                event.arriving_reads(),
            ));
            assert(answered_writes(earlier).add(
                before.waiting_writes().add(event.arriving_writes()),
            ) =~= answered_writes(earlier).add(before.waiting_writes()).add(
                event.arriving_writes(),
            ));
        } else {
            assert(answered_reads(answers).add(end.waiting_reads()) =~= all_arriving_reads(
                events,
            ));
            assert(answered_writes(answers).add(end.waiting_writes()) =~= all_arriving_writes(
                events,
            ));
        }
    }
}

/// The reads that arrive in a run of events.
pub open spec fn all_arriving_reads<R, W, I>(events: Seq<RingEvent<R, W, I>>) -> Multiset<
    ReadRequest<R>,
>
    decreases events.len(),
{
    if events.len() == 0 {
        Multiset::empty()
    } else {
        all_arriving_reads(events.drop_last()).add(events.last().arriving_reads())
    }
}

/// The writes that arrive in a run of events.
pub open spec fn all_arriving_writes<R, W, I>(events: Seq<RingEvent<R, W, I>>) -> Multiset<
    WriteRequest<W>,
>
    decreases events.len(),
{
    if events.len() == 0 {
        Multiset::empty()
    } else {
        all_arriving_writes(events.drop_last()).add(events.last().arriving_writes())
    }
}

impl<R, W, I> RingView<R, W, I> {
    /// A thread starts on the device it was given, with nothing in its lanes but room for as many
    /// requests as the limits say, and hears what the channel delivers first.
    pub proof fn law_starts_bare(fd: i32)
        ensures
            RingView::<R, W, I>::initial(fd).fd == fd,
            RingView::<R, W, I>::initial(fd).phase is Receiving,
            RingView::<R, W, I>::initial(fd).reads.inflight == 0,
            RingView::<R, W, I>::initial(fd).writes.inflight == 0,
            RingView::<R, W, I>::initial(fd).reads.table.slots.len() == 0,
            RingView::<R, W, I>::initial(fd).writes.table.slots.len() == 0,
            RingView::<R, W, I>::initial(fd).reads.table.free.len() == 0,
            RingView::<R, W, I>::initial(fd).writes.table.free.len() == 0,
            RingView::<R, W, I>::initial(fd).reads.table.max == 32,
            RingView::<R, W, I>::initial(fd).writes.table.max == 64,
    {
    }

    /// An event is accepted exactly while it is waited for, whatever it says, but for counts that
    /// cannot grow any more and an error number whose sign cannot be turned.
    pub proof fn law_accepts_each_event_in_its_turn(self, event: RingEvent<R, W, I>)
        ensures
            self.accepts(event) <==> match event {
                RingEvent::Received(_) => self.phase is Receiving,
                RingEvent::Polled(_) => self.phase is Polling,
                RingEvent::Pushed(taken) => match self.phase {
                    Phase::Pushing { req, .. } => taken is None || (if req is Read {
                        self.reads.inflight
                    } else {
                        self.writes.inflight
                    }) < usize::MAX,
                    _ => false,
                },
                RingEvent::Waited => self.phase is Waiting,
                RingEvent::WaitFailed { .. } => self.phase is Waiting,
                RingEvent::Completed { result, .. } => self.phase is Reaping && result
                    != i32::MIN,
                RingEvent::Reaped => self.phase is Reaping,
            },
    {
    }

    /// What is done next and what is waited for always belong together.
    pub proof fn law_action_fits_what_is_awaited(self, event: RingEvent<R, W, I>)
        requires
            self.accepts(event),
        ensures
            match self.step(event).action {
                RingAction::Receive => self.step(event).next.phase is Receiving,
                RingAction::Poll => self.step(event).next.phase is Polling,
                RingAction::Push(_) => self.step(event).next.phase is Pushing,
                RingAction::SubmitAndWait => self.step(event).next.phase is Waiting,
                RingAction::Reap => self.step(event).next.phase is Reaping,
                RingAction::Finish => self.step(event).next.phase is Stopped,
                RingAction::Abort => self.step(event).next.phase is Stopped,
            },
            self.step(event).next.fd == self.fd,
    {
    }

    /// In every state, a read that arrives is pushed if there is a slot for it: as a read of this
    /// device into its header buffer and then its data buffer, numbered by the slot, which is the
    /// one given back last or else a new one. Otherwise it, and nobody else, is told that the
    /// slots are busy, and nothing changes. No write is touched.
    pub proof fn law_arriving_read(self, event: RingEvent<R, W, I>, read: ReadRequest<R>)
        requires
            self.wf(),
            self.accepts(event),
            event == RingEvent::<R, W, I>::Received(Some(RingRequest::Read(read))) || event
                == RingEvent::<R, W, I>::Polled(Some(RingRequest::Read(read))),
        ensures
            self.step(event).next.fd == self.fd,
            self.step(event).next.writes == self.writes,
            self.step(event).next.reads.inflight == self.reads.inflight,
            match self.step(event).action {
                RingAction::Push(entry) => {
                    &&& self.step(event).answers.len() == 0
                    &&& entry.fd == self.fd
                    &&& entry.opcode == Opcode::Readv
                    &&& entry.iovecs.count == 2
                    &&& entry.iovecs.first.region == Region::Header
                    &&& entry.iovecs.first.len == read.header_buf@.len()
                    &&& entry.iovecs.second.region == Region::Data
                    &&& entry.iovecs.second.len == read.data_buf.len
                    &&& self.step(event).next.phase matches Phase::Pushing { slot, req } && {
                        &&& req == RingRequest::<R, W>::Read(read)
                        &&& entry.user_data == slot
                        &&& slot < 32
                        &&& self.step(event).next.reads.table.max == self.reads.table.max
                        &&& self.reads.table.free.len() > 0 ==> {
                            &&& slot == self.reads.table.free.last()
                            &&& self.step(event).next.reads.table.free
                                =~= self.reads.table.free.drop_last()
                            &&& self.step(event).next.reads.table.slots
                                == self.reads.table.slots
                        }
                        &&& self.reads.table.free.len() == 0 ==> {
                            &&& slot == self.reads.table.slots.len()
                            &&& self.step(event).next.reads.table.free.len() == 0
                            &&& self.step(event).next.reads.table.slots
                                =~= self.reads.table.slots.push(None)
                        }
                    }
                },
                RingAction::Poll => {
                    &&& self.reads.table.free.len() == 0
                    &&& self.reads.table.slots.len() == 32
                    &&& self.step(event).next.reads == self.reads
                    &&& self.step(event).answers == seq![
                        Answer::<R, W, I>::Read {
                            req: read,
                            result: Err(IoError::ReadSlotsBusy),
                            storage: Storage::Unused,
                        },
                    ]
                },
                _ => false,
            },
    {
        assert(read.header_buf.len() == read.header_buf@.len());
    }

    /// In every state, a write that arrives is pushed if there is a slot for it: as a write to
    /// this device of its reply and then its extension where there is one, numbered by the slot
    /// above those of all reads. Otherwise it, and nobody else, is told that the slots are busy,
    /// and nothing changes. No read is touched.
    pub proof fn law_arriving_write(self, event: RingEvent<R, W, I>, write: WriteRequest<W>)
        requires
            self.wf(),
            self.accepts(event),
            event == RingEvent::<R, W, I>::Received(Some(RingRequest::Write(write))) || event
                == RingEvent::<R, W, I>::Polled(Some(RingRequest::Write(write))),
        ensures
            self.step(event).next.fd == self.fd,
            self.step(event).next.reads == self.reads,
            self.step(event).next.writes.inflight == self.writes.inflight,
            match self.step(event).action {
                RingAction::Push(entry) => {
                    &&& self.step(event).answers.len() == 0
                    &&& entry.fd == self.fd
                    &&& entry.opcode == Opcode::Writev
                    &&& entry.iovecs.first.region == Region::Reply
                    &&& entry.iovecs.first.len == crate::foreign::bytes_content(
                        write.data,
                    ).len() as usize
                    &&& match write.body_extend {
                        Some(body) => {
                            &&& entry.iovecs.count == 2
                            &&& entry.iovecs.second.region == Region::Extend
                            &&& entry.iovecs.second.len == crate::foreign::bytes_content(
                                body,
                            ).len() as usize
                        },
                        None => {
                            &&& entry.iovecs.count == 1
                            &&& entry.iovecs.second.region == Region::Null
                            &&& entry.iovecs.second.len == 0
                        },
                    }
                    &&& self.step(event).next.phase matches Phase::Pushing { slot, req } && {
                        &&& req == RingRequest::<R, W>::Write(write)
                        &&& entry.user_data == 0x1000 + slot
                        &&& slot < 64
                        &&& self.step(event).next.writes.table.max == self.writes.table.max
                        &&& self.writes.table.free.len() > 0 ==> {
                            &&& slot == self.writes.table.free.last()
                            &&& self.step(event).next.writes.table.free
                                =~= self.writes.table.free.drop_last()
                            &&& self.step(event).next.writes.table.slots
                                == self.writes.table.slots
                        }
                        &&& self.writes.table.free.len() == 0 ==> {
                            &&& slot == self.writes.table.slots.len()
                            &&& self.step(event).next.writes.table.free.len() == 0
                            &&& self.step(event).next.writes.table.slots
                                =~= self.writes.table.slots.push(None)
                        }
                    }
                },
                RingAction::Poll => {
                    &&& self.writes.table.free.len() == 0
                    &&& self.writes.table.slots.len() == 64
                    &&& self.step(event).next.writes == self.writes
                    &&& self.step(event).answers == seq![
                        Answer::<R, W, I>::Write {
                            req: write,
                            result: Err(IoError::WriteSlotsBusy),
                            storage: Storage::Unused,
                        },
                    ]
                },
                _ => false,
            },
    {
    }

    /// In every state, a read that the submission queue took is kept in its slot with its
    /// storage and counted, and nobody is answered. One that it did not take is told so, alone,
    /// and its slot is put on the free list. Either way the channel is looked at next, and no
    /// other slot and no write is touched.
    pub proof fn law_pushed_read(self, slot: usize, read: ReadRequest<R>, taken: Option<I>)
        requires
            self.wf(),
            self.accepts(RingEvent::Pushed(taken)),
            self.phase == (Phase::<R, W>::Pushing { slot, req: RingRequest::Read(read) }),
        ensures
            ({
                let step = self.step(RingEvent::Pushed(taken));
                &&& step.action == RingAction::Poll
                &&& step.next.writes == self.writes
                &&& step.next.reads.table.max == self.reads.table.max
                &&& step.next.reads.table.slots.len() == self.reads.table.slots.len()
                &&& forall|i: int|
                    0 <= i < self.reads.table.slots.len() && i != slot ==> (
                    #[trigger] step.next.reads.table.slots[i]) == self.reads.table.slots[i]
                &&& match taken {
                    Some(iovecs) => {
                        &&& step.answers.len() == 0
                        &&& step.next.reads.inflight == self.reads.inflight + 1
                        &&& step.next.reads.table.free == self.reads.table.free
                        &&& step.next.reads.table.slots[slot as int] matches Some(kept)
                            && kept.req == read && kept.iovecs == iovecs
                    },
                    None => {
                        &&& step.next.reads.inflight == self.reads.inflight
                        &&& step.next.reads.table.slots == self.reads.table.slots
                        &&& self.reads.table.slots[slot as int] is None
                            ==> step.next.reads.table.free =~= self.reads.table.free + seq![slot]
                        &&& step.answers == seq![
                            Answer::<R, W, I>::Read {
                                req: read,
                                result: Err(IoError::SubmissionQueueFull),
                                storage: Storage::Unused,
                            },
                        ]
                    },
                }
            }),
    {
    }

    /// What [`RingView::law_pushed_read`] says of reads holds of writes.
    pub proof fn law_pushed_write(self, slot: usize, write: WriteRequest<W>, taken: Option<I>)
        requires
            self.wf(),
            self.accepts(RingEvent::Pushed(taken)),
            self.phase == (Phase::<R, W>::Pushing { slot, req: RingRequest::Write(write) }),
        ensures
            ({
                let step = self.step(RingEvent::Pushed(taken));
                &&& step.action == RingAction::Poll
                &&& step.next.reads == self.reads
                &&& step.next.writes.table.max == self.writes.table.max
                &&& step.next.writes.table.slots.len() == self.writes.table.slots.len()
                &&& forall|i: int|
                    0 <= i < self.writes.table.slots.len() && i != slot ==> (
                    #[trigger] step.next.writes.table.slots[i]) == self.writes.table.slots[i]
                &&& match taken {
                    Some(iovecs) => {
                        &&& step.answers.len() == 0
                        &&& step.next.writes.inflight == self.writes.inflight + 1
                        &&& step.next.writes.table.free == self.writes.table.free
                        &&& step.next.writes.table.slots[slot as int] matches Some(kept)
                            && kept.req == write && kept.iovecs == iovecs
                    },
                    None => {
                        &&& step.next.writes.inflight == self.writes.inflight
                        &&& step.next.writes.table.slots == self.writes.table.slots
                        &&& self.writes.table.slots[slot as int] is None
                            ==> step.next.writes.table.free =~= self.writes.table.free + seq![
                            slot,
                        ]
                        &&& step.answers == seq![
                            Answer::<R, W, I>::Write {
                                req: write,
                                result: Err(IoError::SubmissionQueueFull),
                                storage: Storage::Unused,
                            },
                        ]
                    },
                }
            }),
    {
    }

    /// In every state, a completion with a number below those of the writes concerns the read in
    /// that slot. If there is one, it, and nobody else, is answered: with the count if the result
    /// is not negative, else with the error number that is its opposite, and its storage is
    /// released. The slot is empty then and, if it exists, goes on the free list; the count goes
    /// down unless it is zero; no other slot and no write is touched.
    pub proof fn law_completed_read(self, user_data: u64, result: i32)
        requires
            self.accepts(RingEvent::Completed { user_data, result }),
            user_data < 0x1000,
        ensures
            ({
                let step = self.step(RingEvent::Completed { user_data, result });
                let slot = user_data as int;
                &&& step.action == RingAction::Reap
                &&& step.next.writes == self.writes
                &&& step.next.reads.inflight == (if self.reads.inflight > 0 {
                    self.reads.inflight - 1
                } else {
                    0
                })
                &&& step.next.reads.table.max == self.reads.table.max
                &&& step.next.reads.table.slots.len() == self.reads.table.slots.len()
                &&& forall|i: int|
                    0 <= i < self.reads.table.slots.len() && i != slot ==> (
                    #[trigger] step.next.reads.table.slots[i]) == self.reads.table.slots[i]
                &&& slot < self.reads.table.slots.len() ==> {
                    &&& step.next.reads.table.slots[slot] is None
                    &&& step.next.reads.table.free =~= self.reads.table.free + seq![
                        slot as usize,
                    ]
                }
                &&& slot >= self.reads.table.slots.len() ==> step.next.reads.table
                    == self.reads.table
                &&& if slot < self.reads.table.slots.len() && self.reads.table.slots[slot] is Some {
                    let done = self.reads.table.slots[slot]->0;
                    &&& step.answers.len() == 1
                    &&& step.answers[0] matches Answer::Read { req, result: told, storage } && {
                        &&& req == done.req
                        &&& storage == Storage::Released(done.iovecs)
                        &&& match told {
                            Ok(count) => count == result,
                            Err(error) => result < 0 && error == IoError::Os((-result) as i32),
                        }
                    }
                } else {
                    step.answers.len() == 0
                }
            }),
    {
    }

    /// What [`RingView::law_completed_read`] says of reads holds of writes, whose numbers are
    /// counted from where those of the reads end.
    pub proof fn law_completed_write(self, user_data: u64, result: i32)
        requires
            self.accepts(RingEvent::Completed { user_data, result }),
            0x1000 <= user_data <= usize::MAX,
        ensures
            ({
                let step = self.step(RingEvent::Completed { user_data, result });
                let slot = user_data - 0x1000;
                &&& step.action == RingAction::Reap
                &&& step.next.reads == self.reads
                &&& step.next.writes.inflight == (if self.writes.inflight > 0 {
                    self.writes.inflight - 1
                } else {
                    0
                })
                &&& step.next.writes.table.max == self.writes.table.max
                &&& step.next.writes.table.slots.len() == self.writes.table.slots.len()
                &&& forall|i: int|
                    0 <= i < self.writes.table.slots.len() && i != slot ==> (
                    #[trigger] step.next.writes.table.slots[i]) == self.writes.table.slots[i]
                &&& slot < self.writes.table.slots.len() ==> {
                    &&& step.next.writes.table.slots[slot] is None
                    &&& step.next.writes.table.free =~= self.writes.table.free + seq![
                        slot as usize,
                    ]
                }
                &&& slot >= self.writes.table.slots.len() ==> step.next.writes.table
                    == self.writes.table
                &&& if slot < self.writes.table.slots.len()
                    && self.writes.table.slots[slot] is Some {
                    let done = self.writes.table.slots[slot]->0;
                    &&& step.answers.len() == 1
                    &&& step.answers[0] matches Answer::Write { req, result: told, storage } && {
                        &&& req == done.req
                        &&& storage == Storage::Released(done.iovecs)
                        &&& match told {
                            Ok(count) => count == result,
                            Err(error) => result < 0 && error == IoError::Os((-result) as i32),
                        }
                    }
                } else {
                    step.answers.len() == 0
                }
            }),
    {
    }

    /// Everything else that can happen, short of the ring becoming unusable, answers nobody and
    /// touches no request. A closed channel ends the thread. An empty one leads to a wait for
    /// completions, or back to the channel if none is due. After a wait the completions are
    /// looked at; after that, or if a signal interrupted the wait, the channel is, blocking only
    /// if no completion is due.
    pub proof fn law_other_events_touch_no_request(self, event: RingEvent<R, W, I>)
        requires
            self.accepts(event),
            !(event is Pushed) && !(event is Completed),
            !(event is Received) || event == RingEvent::<R, W, I>::Received(None),
            !(event is Polled) || event == RingEvent::<R, W, I>::Polled(None),
            !(event matches RingEvent::WaitFailed { interrupted, .. } && !interrupted),
        ensures
            self.step(event).answers.len() == 0,
            self.step(event).next.fd == self.fd,
            self.step(event).next.reads == self.reads,
            self.step(event).next.writes == self.writes,
            self.step(event).action == (if event is Received {
                RingAction::Finish
            } else if event is Waited {
                RingAction::Reap
            } else if self.reads.inflight == 0 && self.writes.inflight == 0 {
                RingAction::Receive
            } else if event is Polled {
                RingAction::SubmitAndWait
            } else {
                RingAction::Poll
            }),
    {
    }

    /// If the ring becomes unusable, every request in a slot is answered: the reads in slot order,
    /// then the writes in slot order, each with the error of the ring, or that of input and
    /// output where it has no number, and each with its own storage leaked. No slot holds
    /// anything then, none is handed out again, and the thread ends with the error.
    pub proof fn law_unusable_ring_answers_in_order(self, raw: Option<i32>)
        requires
            self.phase is Waiting,
        ensures
            ({
                let step = self.step(RingEvent::WaitFailed { interrupted: false, raw });
                let errno = if raw is Some {
                    raw->0
                } else {
                    5
                };
                let reads = crate::slot_table::occupied(self.reads.table.slots);
                let writes = crate::slot_table::occupied(self.writes.table.slots);
                &&& step.action == RingAction::Abort
                &&& step.answers.len() == reads.len() + writes.len()
                &&& forall|i: int|
                    0 <= i < reads.len() ==> (#[trigger] step.answers[i]) == (Answer::<
                        R,
                        W,
                        I,
                    >::Read {
                        req: reads[i].req,
                        result: Err(IoError::Os(errno)),
                        storage: Storage::Leaked(reads[i].iovecs),
                    })
                &&& forall|i: int|
                    reads.len() <= i < step.answers.len() ==> (#[trigger] step.answers[i])
                        == (Answer::<R, W, I>::Write {
                        req: writes[i - reads.len()].req,
                        result: Err(IoError::Os(errno)),
                        storage: Storage::Leaked(writes[i - reads.len()].iovecs),
                    })
                &&& step.next.reads.inflight == self.reads.inflight
                &&& step.next.writes.inflight == self.writes.inflight
                &&& step.next.reads.table.free.len() == 0
                &&& step.next.writes.table.free.len() == 0
                &&& step.next.reads.table.slots.len() == self.reads.table.slots.len()
                &&& step.next.writes.table.slots.len() == self.writes.table.slots.len()
                &&& forall|i: int|
                    0 <= i < self.reads.table.slots.len() ==> (
                    #[trigger] step.next.reads.table.slots[i]) is None
                &&& forall|i: int|
                    0 <= i < self.writes.table.slots.len() ==> (
                    #[trigger] step.next.writes.table.slots[i]) is None
            }),
    {
    }

    /// Each event of the run is accepted where it stands.
    pub open spec fn accepted_run(self, events: Seq<RingEvent<R, W, I>>) -> bool
        decreases events.len(),
    {
        events.len() > 0 ==> {
            &&& self.accepted_run(events.drop_last())
            &&& self.run(events.drop_last()).accepts(events.last())
        }
    }

    /// Whatever happens to a thread from its start on, everything it pushes goes to the device
    /// that it was started on, and reads are pushed as reads and writes as writes.
    pub proof fn law_pushes_go_to_the_device_started_on(
        fd: i32,
        events: Seq<RingEvent<R, W, I>>,
        event: RingEvent<R, W, I>,
    )
        requires
            RingView::<R, W, I>::initial(fd).accepted_run(events),
            RingView::<R, W, I>::initial(fd).run(events).accepts(event),
        ensures
            RingView::<R, W, I>::initial(fd).run(events).fd == fd,
            RingView::<R, W, I>::initial(fd).run(events).step(event).action matches
                RingAction::Push(entry) ==> {
                &&& entry.fd == fd
                &&& match event {
                    RingEvent::Received(Some(RingRequest::Read(_))) => entry.opcode
                        == Opcode::Readv,
                    RingEvent::Polled(Some(RingRequest::Read(_))) => entry.opcode == Opcode::Readv,
                    RingEvent::Received(Some(RingRequest::Write(_))) => entry.opcode
                        == Opcode::Writev,
                    RingEvent::Polled(Some(RingRequest::Write(_))) => entry.opcode
                        == Opcode::Writev,
                    _ => false,
                }
            },
        decreases events.len(),
    {
        if events.len() > 0 {
            Self::law_pushes_go_to_the_device_started_on(fd, events.drop_last(), events.last());
        }
    }
}

} // verus!
