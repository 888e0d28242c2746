//! The requests of one sort that the kernel is working on.

use vstd::multiset::Multiset;
use vstd::prelude::*;

use crate::slot_table::SlotTable;

verus! {

/// A request that was submitted, with the storage of its entries, which the kernel reads until
/// the completion arrives.
pub struct Inflight<Q, I> {
    /// The request.
    pub req: Q,
    /// The storage that has to stay where it is.
    pub iovecs: I,
}

/// What a [`Lane`] holds, as mathematical values.
#[verifier::ext_equal]
pub struct LaneView<Q, I> {
    /// The slots.
    pub table: crate::slot_table::SlotView<Inflight<Q, I>>,
    /// The number of submissions whose completion has not arrived.
    pub inflight: usize,
}

/// The requests in the occupied slots.
pub open spec fn requests<Q, I>(slots: Seq<Option<Inflight<Q, I>>>) -> Multiset<Q>
    decreases slots.len(),
{
    if slots.len() == 0 {
        Multiset::empty()
    } else {
        match slots.last() {
            Some(inflight) => requests(slots.drop_last()).insert(inflight.req),
            None => requests(slots.drop_last()),
        }
    }
}

impl<Q, I> LaneView<Q, I> {
    /// Nothing submitted, and room for `max` requests.
    pub open spec fn empty(max: usize) -> Self {
        LaneView { table: crate::slot_table::SlotView::empty(max), inflight: 0 }
    }

    /// The requests that wait for their completion.
    pub open spec fn pending(self) -> Multiset<Q> {
        requests(self.table.slots)
    }

    /// Every slot is in exactly one place, and the count is that of the occupied ones.
    pub open spec fn consistent(self, reserved: Set<usize>) -> bool {
        &&& self.table.tidy(reserved)
        &&& self.inflight == crate::slot_table::occupied(self.table.slots).len()
    }

    /// The lane after a slot was asked for.
    pub open spec fn after_reserve(self) -> Self {
        LaneView { table: self.table.after_acquire(), ..self }
    }

    /// The lane after a reserved slot was given back unused.
    pub open spec fn after_cancel(self, slot: usize) -> Self {
        LaneView { table: self.table.after_release(slot), ..self }
    }

    /// The lane after a request was submitted from a reserved slot.
    pub open spec fn after_commit(self, slot: usize, req: Q, iovecs: I) -> Self {
        LaneView {
            table: self.table.after_store(slot, Inflight { req, iovecs }),
            inflight: (self.inflight + 1) as usize,
        }
    }

    /// The lane after a completion for slot `slot` arrived.
    pub open spec fn after_complete(self, slot: usize) -> Self {
        LaneView {
            table: self.table.after_take(slot).after_release(slot),
            inflight: if self.inflight == 0 {
                0
            } else {
                (self.inflight - 1) as usize
            },
        }
    }

    /// The lane after everything submitted was given up.
    pub open spec fn after_fail(self) -> Self {
        LaneView { table: self.table.after_take_all(), ..self }
    }
}

/// The requests of one sort that the kernel is working on: their slots and their number.
pub struct Lane<Q, I> {
    pending: SlotTable<Inflight<Q, I>>,
    inflight: usize,
}

impl<Q, I> View for Lane<Q, I> {
    type V = LaneView<Q, I>;

    closed spec fn view(&self) -> LaneView<Q, I> {
        LaneView { table: self.pending@, inflight: self.inflight }
    }
}

impl<Q, I> Lane<Q, I> {
    /// A lane for up to `max` requests.
    pub fn new(max: usize) -> (lane: Self)
        ensures
            lane@ == LaneView::<Q, I>::empty(max),
    {
        Lane { pending: SlotTable::new(max), inflight: 0 }
    }

    /// The number of submissions whose completion has not arrived.
    pub fn inflight(&self) -> (count: usize)
        ensures
            count == self@.inflight,
    {
        self.inflight
    }

    /// Asks for a slot.
    pub fn reserve(&mut self) -> (slot: Option<usize>)
        ensures
            slot == old(self)@.table.acquired(),
            final(self)@ == old(self)@.after_reserve(),
    {
        self.pending.acquire()
    }

    /// Gives a reserved slot back unused.
    pub fn cancel(&mut self, slot: usize)
        ensures
            final(self)@ == old(self)@.after_cancel(slot),
    {
        self.pending.release(slot);
    }

    /// Keeps a request that was submitted from a reserved slot.
    pub fn commit(&mut self, slot: usize, req: Q, iovecs: I)
        requires
            slot < old(self)@.table.slots.len(),
            old(self)@.inflight < usize::MAX,
        ensures
            final(self)@ == old(self)@.after_commit(slot, req, iovecs),
    {
        self.pending.store(slot, Inflight { req, iovecs });
        self.inflight += 1;
    }

    /// Takes the request out whose completion arrived, and recycles its slot.
    pub fn complete(&mut self, slot: usize) -> (done: Option<Inflight<Q, I>>)
        ensures
            done == old(self)@.table.at(slot),
            final(self)@ == old(self)@.after_complete(slot),
    {
        self.inflight = self.inflight.saturating_sub(1);
        let done = self.pending.take(slot);
        self.pending.release(slot);
        done
    }

    /// Takes all requests out, in slot order, because no completion will arrive any more.
    pub fn fail(&mut self) -> (given_up: Vec<Inflight<Q, I>>)
        ensures
            given_up@ == crate::slot_table::occupied(old(self)@.table.slots),
            final(self)@ == old(self)@.after_fail(),
    {
        self.pending.take_all()
    }
}

/// Filling an empty slot adds its request and one occupied slot.
proof fn lemma_fill<Q, I>(slots: Seq<Option<Inflight<Q, I>>>, i: int, inflight: Inflight<Q, I>)
    requires
        0 <= i < slots.len(),
        slots[i] is None,
    ensures
        requests(slots.update(i, Some(inflight))) == requests(slots).insert(inflight.req),
        crate::slot_table::occupied(slots.update(i, Some(inflight))).len()
            == crate::slot_table::occupied(slots).len() + 1,
    decreases slots.len(),
{
    let filled = slots.update(i, Some(inflight));
    if i == slots.len() - 1 {
        assert(filled.drop_last() =~= slots.drop_last());
    } else {
        lemma_fill(slots.drop_last(), i, inflight);
        assert(filled.drop_last() =~= slots.drop_last().update(i, Some(inflight)));
        assert(filled.last() == slots.last());
        assert(requests(filled) =~= requests(slots).insert(inflight.req));
    }
}

/// Emptying an occupied slot removes its request and one occupied slot.
proof fn lemma_empty<Q, I>(slots: Seq<Option<Inflight<Q, I>>>, i: int)
    requires
        0 <= i < slots.len(),
        slots[i] is Some,
    ensures
        requests(slots) == requests(slots.update(i, None)).insert(slots[i]->0.req),
        crate::slot_table::occupied(slots).len() == crate::slot_table::occupied(
            slots.update(i, None),
        ).len() + 1,
{
    let emptied = slots.update(i, None);
    lemma_fill(emptied, i, slots[i]->0);
    assert(emptied.update(i, Some(slots[i]->0)) =~= slots);
}

/// There are at most as many occupied slots as slots, and as many only if none is empty.
proof fn lemma_occupied_bound<T>(slots: Seq<Option<T>>)
    ensures
        crate::slot_table::occupied(slots).len() <= slots.len(),
        crate::slot_table::occupied(slots).len() == slots.len() <==> (forall|i: int|
            0 <= i < slots.len() ==> (#[trigger] slots[i]) is Some),
    decreases slots.len(),
{
    if slots.len() > 0 {
        let rest = slots.drop_last();
        lemma_occupied_bound(rest);
        assert(slots[slots.len() - 1] == slots.last());
        if forall|i: int| 0 <= i < rest.len() ==> (#[trigger] rest[i]) is Some {
            assert forall|i: int| 0 <= i < slots.len() - 1 implies (
            #[trigger] slots[i]) is Some by {
                assert(rest[i] is Some);
            }
        } else {
            let i = choose|i: int| 0 <= i < rest.len() && !((#[trigger] rest[i]) is Some);
            assert(!(slots[i] is Some));
        }
    }
}

/// There are as many requests as occupied slots.
proof fn lemma_requests_len<Q, I>(slots: Seq<Option<Inflight<Q, I>>>)
    ensures
        requests(slots).len() == crate::slot_table::occupied(slots).len(),
    decreases slots.len(),
{
    broadcast use vstd::multiset::group_multiset_axioms;

    if slots.len() > 0 {
        lemma_requests_len(slots.drop_last());
    }
}

/// In slots that are all empty there is no request.
proof fn lemma_no_requests<Q, I>(slots: Seq<Option<Inflight<Q, I>>>)
    requires
        forall|i: int| 0 <= i < slots.len() ==> (#[trigger] slots[i]) is None,
    ensures
        requests(slots) == Multiset::<Q>::empty(),
    decreases slots.len(),
{
    if slots.len() > 0 {
        assert(slots[slots.len() - 1] is None);
        assert forall|i: int| 0 <= i < slots.drop_last().len() implies (
        #[trigger] slots.drop_last()[i]) is None by {
            assert(slots[i] is None);
        }
        lemma_no_requests(slots.drop_last());
    }
}

impl<Q, I> LaneView<Q, I> {
    /// A new lane is consistent and nothing waits in it.
    pub proof fn law_empty_is_consistent(max: usize)
        ensures
            LaneView::<Q, I>::empty(max).consistent(Set::empty()),
            LaneView::<Q, I>::empty(max).pending() == Multiset::<Q>::empty(),
    {
        crate::slot_table::SlotView::<Inflight<Q, I>>::law_empty_is_tidy(max);
    }

    /// The count is that of the waiting requests and never exceeds the limit, so the lane never
    /// holds more than `max` requests in memory.
    pub proof fn law_inflight_is_bounded(self, reserved: Set<usize>)
        requires
            self.consistent(reserved),
        ensures
            self.inflight == self.pending().len(),
            self.inflight <= self.table.max,
    {
        lemma_requests_len(self.table.slots);
        lemma_occupied_bound(self.table.slots);
    }

    /// While nothing is reserved, a slot is refused exactly when the limit is reached.
    pub proof fn law_refused_only_at_the_limit(self)
        requires
            self.consistent(Set::empty()),
        ensures
            self.table.acquired() is None <==> self.inflight == self.table.max,
    {
        let table = self.table;
        lemma_occupied_bound(table.slots);
        table.law_acquire_fails_only_when_full(Set::empty());
        if table.acquired() is None {
            assert forall|i: int| 0 <= i < table.slots.len() implies (
            #[trigger] table.slots[i]) is Some by {
                assert(table.at(i as usize) is Some);
            }
        } else if self.inflight == table.max {
            assert forall|i: usize| i < table.max implies #[trigger] table.at(i) is Some by {
                assert(table.slots[i as int] is Some);
            }
        }
    }

    /// Reserving a slot changes nothing about the waiting requests.
    pub proof fn law_reserve(self, reserved: Set<usize>)
        requires
            self.consistent(reserved),
        ensures
            self.after_reserve().pending() == self.pending(),
            self.table.acquired() matches Some(slot) ==> {
                &&& slot < self.table.max
                &&& !reserved.contains(slot)
                &&& self.after_reserve().consistent(reserved.insert(slot))
            },
            self.table.acquired() is None ==> self.after_reserve() == self,
    {
        if self.table.acquired() is Some {
            self.table.law_acquire_reserves_an_unused_slot(reserved);
            if self.table.free.len() == 0 {
                assert(self.after_reserve().table.slots.drop_last() =~= self.table.slots);
            }
        }
    }

    /// Giving a reserved slot back changes nothing about the waiting requests.
    pub proof fn law_cancel(self, reserved: Set<usize>, slot: usize)
        requires
            self.consistent(reserved),
            reserved.contains(slot),
        ensures
            self.after_cancel(slot).consistent(reserved.remove(slot)),
            self.after_cancel(slot).pending() == self.pending(),
    {
        self.table.law_release_keeps_tidy(reserved, slot);
    }

    /// A request submitted from a reserved slot waits from then on, and so does every one that
    /// waited before.
    pub proof fn law_commit(self, reserved: Set<usize>, slot: usize, req: Q, iovecs: I)
        requires
            self.consistent(reserved),
            reserved.contains(slot),
        ensures
            self.inflight < self.table.max,
            self.after_commit(slot, req, iovecs).consistent(reserved.remove(slot)),
            self.after_commit(slot, req, iovecs).pending() == self.pending().insert(req),
    {
        let inflight = Inflight { req, iovecs };
        lemma_occupied_bound(self.table.slots);
        assert(!(self.table.slots[slot as int] is Some));
        self.table.law_store_keeps_tidy(reserved, slot, inflight);
        lemma_fill(self.table.slots, slot as int, inflight);
    }

    /// The request whose completion arrives stops waiting, and no other one does. A completion
    /// for a slot with nothing in it disturbs no request.
    pub proof fn law_complete(self, reserved: Set<usize>, slot: usize)
        requires
            self.consistent(reserved),
        ensures
            self.table.at(slot) matches Some(done) ==> {
                &&& self.after_complete(slot).consistent(reserved)
                &&& self.after_complete(slot).pending().insert(done.req) == self.pending()
            },
            self.table.at(slot) is None ==> self.after_complete(slot).pending()
                == self.pending(),
            forall|i: usize|
                i != slot ==> #[trigger] self.after_complete(slot).table.at(i)
                    == self.table.at(i),
    {
        if self.table.at(slot) is Some {
            lemma_empty(self.table.slots, slot as int);
            self.table.law_take_keeps_tidy(reserved, slot);
            let taken = self.table.after_take(slot);
            taken.law_release_keeps_tidy(reserved.insert(slot), slot);
            assert(!reserved.contains(slot));
            assert(reserved.insert(slot).remove(slot) =~= reserved);
        } else if slot < self.table.slots.len() {
            assert(self.table.slots.update(slot as int, None) =~= self.table.slots);
        }
    }

    /// Once everything was given up, nothing waits.
    pub proof fn law_fail(self)
        ensures
            self.after_fail().pending() == Multiset::<Q>::empty(),
    {
        lemma_no_requests(self.after_fail().table.slots);
    }
}

impl<Q, I> LaneView<Q, I> {
    /// A new lane has nothing in it, and its limit is the one asked for.
    pub proof fn law_new_lane_is_bare(max: usize)
        ensures
            LaneView::<Q, I>::empty(max).inflight == 0,
            LaneView::<Q, I>::empty(max).table.slots.len() == 0,
            LaneView::<Q, I>::empty(max).table.free.len() == 0,
            LaneView::<Q, I>::empty(max).table.max == max,
    {
    }

    /// A submission counts as one more, a completion as one less as long as there is one to
    /// count, and nothing else counts.
    pub proof fn law_counts(self, slot: usize, req: Q, iovecs: I)
        ensures
            self.inflight < usize::MAX ==> self.after_commit(slot, req, iovecs).inflight
                == self.inflight + 1,
            self.inflight > 0 ==> self.after_complete(slot).inflight == self.inflight - 1,
            self.inflight == 0 ==> self.after_complete(slot).inflight == 0,
            self.after_reserve().inflight == self.inflight,
            self.after_cancel(slot).inflight == self.inflight,
            self.after_fail().inflight == self.inflight,
    {
    }

    /// Reserving hands out the slot given back last, or else a new one; giving a reserved slot
    /// back unused makes it the next one handed out. Neither touches what other slots hold.
    pub proof fn law_reservation_touches_no_request(self, slot: usize)
        ensures
            forall|i: usize| #[trigger] self.after_reserve().table.at(i) == self.table.at(i),
            self.after_cancel(slot).table.slots == self.table.slots,
            slot < self.table.slots.len() && self.table.slots[slot as int] is None
                ==> self.after_cancel(slot).table.acquired() == Some(slot)
                && self.after_cancel(slot).after_reserve() == self,
    {
        if slot < self.table.slots.len() && self.table.slots[slot as int] is None {
            self.table.law_acquire_undoes_release(slot);
        }
    }

    /// A submission puts the request with its own storage into its slot and touches no other.
    pub proof fn law_commit_fills_its_slot(self, slot: usize, req: Q, iovecs: I)
        requires
            slot < self.table.slots.len(),
        ensures
            self.after_commit(slot, req, iovecs).table.slots.len() == self.table.slots.len(),
            self.after_commit(slot, req, iovecs).table.slots[slot as int] matches Some(kept)
                && kept.req == req && kept.iovecs == iovecs,
            forall|i: int|
                0 <= i < self.table.slots.len() && i != slot ==> #[trigger] self.after_commit(
                    slot,
                    req,
                    iovecs,
                ).table.slots[i] == self.table.slots[i],
            self.after_commit(slot, req, iovecs).table.free == self.table.free,
            self.after_commit(slot, req, iovecs).table.max == self.table.max,
    {
    }

    /// A completion empties its slot, which is then the next one handed out, and touches no
    /// other. A completion for a slot that was never created leaves the slots as they are.
    pub proof fn law_complete_recycles_its_slot(self, slot: usize)
        ensures
            self.after_complete(slot).table.slots.len() == self.table.slots.len(),
            forall|i: int|
                0 <= i < self.table.slots.len() && i != slot
                    ==> #[trigger] self.after_complete(slot).table.slots[i]
                    == self.table.slots[i],
            slot < self.table.slots.len() ==> {
                &&& self.after_complete(slot).table.slots[slot as int] is None
                &&& self.after_complete(slot).table.free =~= self.table.free + seq![slot]
                &&& self.after_complete(slot).table.acquired() == Some(slot)
            },
            slot >= self.table.slots.len() ==> self.after_complete(slot).table == self.table,
            self.after_complete(slot).table.max == self.table.max,
    {
    }

    /// Giving up leaves the same slots, all of them empty and none of them handed out again.
    pub proof fn law_fail_leaves_nothing(self)
        ensures
            self.after_fail().table.slots.len() == self.table.slots.len(),
            forall|i: int|
                0 <= i < self.table.slots.len() ==> (
                #[trigger] self.after_fail().table.slots[i]) is None,
            self.after_fail().table.free.len() == 0,
            self.after_fail().table.max == self.table.max,
    {
    }
}

} // verus!
