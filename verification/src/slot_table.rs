//! A fixed-capacity slot table with a free list.
//!
//! Slots are created on demand up to a limit and recycled afterwards, so a table that always has
//! something in it never outgrows that limit.

use vstd::prelude::*;

verus! {

/// What a [`SlotTable`] holds, as mathematical values.
#[verifier::ext_equal]
pub struct SlotView<T> {
    /// The slots created so far.
    pub slots: Seq<Option<T>>,
    /// The slots that were given back, the next one to be handed out last.
    pub free: Seq<usize>,
    /// The number of slots that may ever be created.
    pub max: usize,
}

/// The values of the occupied slots, in slot order.
pub open spec fn occupied<T>(slots: Seq<Option<T>>) -> Seq<T>
    decreases slots.len(),
{
    if slots.len() == 0 {
        Seq::empty()
    } else {
        match slots.last() {
            Some(value) => occupied(slots.drop_last()).push(value),
            None => occupied(slots.drop_last()),
        }
    }
}

impl<T> SlotView<T> {
    /// A table in which no slot has been created.
    pub open spec fn empty(max: usize) -> Self {
        SlotView { slots: Seq::empty(), free: Seq::empty(), max }
    }

    /// The table is within its limit and hands out only slots that exist.
    pub open spec fn wf(self) -> bool {
        &&& self.slots.len() <= self.max
        &&& forall|k: int| 0 <= k < self.free.len() ==> (#[trigger] self.free[k]) < self.slots.len()
    }

    /// Every slot is in exactly one place: it is occupied, or it is on the free list once, or it
    /// is one of the `reserved` slots, which were acquired and are not filled yet.
    pub open spec fn tidy(self, reserved: Set<usize>) -> bool {
        &&& self.wf()
        &&& self.free.no_duplicates()
        &&& forall|k: int|
            0 <= k < self.free.len() ==> self.slots[(#[trigger] self.free[k]) as int] is None
                && !reserved.contains(self.free[k])
        &&& forall|i: usize| #[trigger]
            reserved.contains(i) ==> i < self.slots.len() && self.slots[i as int] is None
        &&& forall|i: int|
            0 <= i < self.slots.len() && (#[trigger] self.slots[i]) is None ==> self.free.contains(
                i as usize,
            ) || reserved.contains(i as usize)
    }

    /// The slot that the next acquisition hands out: the one given back last, else a new one
    /// while the limit allows.
    pub open spec fn acquired(self) -> Option<usize> {
        if self.free.len() > 0 {
            Some(self.free.last())
        } else if self.slots.len() < self.max {
            Some(self.slots.len() as usize)
        } else {
            None
        }
    }

    /// The table after an acquisition.
    pub open spec fn after_acquire(self) -> Self {
        if self.free.len() > 0 {
            SlotView { free: self.free.drop_last(), ..self }
        } else if self.slots.len() < self.max {
            SlotView { slots: self.slots.push(None), ..self }
        } else {
            self
        }
    }

    /// The table after slot `idx` was given back. An occupied slot, and one that was never
    /// created, is not put on the free list.
    pub open spec fn after_release(self, idx: usize) -> Self {
        if idx < self.slots.len() && self.slots[idx as int] is None {
            SlotView { free: self.free.push(idx), ..self }
        } else {
            self
        }
    }

    /// The table after `value` was put into slot `idx`.
    pub open spec fn after_store(self, idx: usize, value: T) -> Self {
        SlotView { slots: self.slots.update(idx as int, Some(value)), ..self }
    }

    /// What slot `idx` holds, if it was created and is occupied.
    pub open spec fn at(self, idx: usize) -> Option<T> {
        if idx < self.slots.len() {
            self.slots[idx as int]
        } else {
            None
        }
    }

    /// The table after slot `idx` was emptied.
    pub open spec fn after_take(self, idx: usize) -> Self {
        if idx < self.slots.len() {
            SlotView { slots: self.slots.update(idx as int, None), ..self }
        } else {
            self
        }
    }

    /// The table after every slot was emptied and the free list dropped: the slots are neither
    /// occupied nor handed out again.
    pub open spec fn after_take_all(self) -> Self {
        SlotView {
            slots: Seq::new(self.slots.len(), |i: int| None),
            free: Seq::empty(),
            max: self.max,
        }
    }
}

/// Fixed-capacity slot table with a free list.
pub struct SlotTable<T> {
    slots: Vec<Option<T>>,
    free: Vec<usize>,
    max: usize,
}

impl<T> View for SlotTable<T> {
    type V = SlotView<T>;

    closed spec fn view(&self) -> SlotView<T> {
        SlotView { slots: self.slots@, free: self.free@, max: self.max }
    }
}

impl<T> SlotTable<T> {
    /// A table that creates up to `max` slots. Memory for all of them is set aside at once, as
    /// far as there is any.
    pub fn new(max: usize) -> (table: Self)
        ensures
            table@ == SlotView::<T>::empty(max),
            table@.wf(),
    {
        let mut slots: Vec<Option<T>> = Vec::new();
        let mut free: Vec<usize> = Vec::new();
        let _ = slots.try_reserve(max);
        let _ = free.try_reserve(max);
        SlotTable { slots, free, max }
    }

    /// Reserves a slot, growing the table until it reaches its limit.
    pub fn acquire(&mut self) -> (slot: Option<usize>)
        ensures
            slot == old(self)@.acquired(),
            final(self)@ == old(self)@.after_acquire(),
            old(self)@.wf() ==> final(self)@.wf(),
    {
        if let Some(idx) = self.free.pop() {
            return Some(idx);
        }
        if self.slots.len() < self.max {
            self.slots.push(None);
            return Some(self.slots.len() - 1);
        }
        None
    }

    /// Gives a slot back after its value has been taken out with [`SlotTable::take`].
    pub fn release(&mut self, idx: usize)
        ensures
            final(self)@ == old(self)@.after_release(idx),
            old(self)@.wf() ==> final(self)@.wf(),
    {
        if idx < self.slots.len() {
            if self.slots[idx].is_none() {
                self.free.push(idx);
            }
        }
    }

    /// Puts `value` into slot `idx`.
    pub fn store(&mut self, idx: usize, value: T)
        requires
            idx < old(self)@.slots.len(),
        ensures
            final(self)@ == old(self)@.after_store(idx, value),
            old(self)@.wf() ==> final(self)@.wf(),
    {
        self.slots[idx] = Some(value);
        proof {
            assert(self@.slots.len() == old(self)@.slots.len());
            assert(self@.free == old(self)@.free);
        }
    }

    /// Takes the value out of slot `idx`, if there is one.
    pub fn take(&mut self, idx: usize) -> (value: Option<T>)
        ensures
            value == old(self)@.at(idx),
            final(self)@ == old(self)@.after_take(idx),
            old(self)@.wf() ==> final(self)@.wf(),
    {
        if idx < self.slots.len() {
            let mut value: Option<T> = None;
            core::mem::swap(&mut value, &mut self.slots[idx]);
            value
        } else {
            None
        }
    }

    /// Takes the values out of all slots, in slot order, and drops the free list.
    pub fn take_all(&mut self) -> (values: Vec<T>)
        ensures
            values@ == occupied(old(self)@.slots),
            final(self)@ == old(self)@.after_take_all(),
            old(self)@.wf() ==> final(self)@.wf(),
    {
        let mut values: Vec<T> = Vec::new();
        let count: usize = self.slots.len();
        let mut idx: usize = 0;
        while idx < count
            invariant
                idx <= count,
                count == old(self)@.slots.len(),
                self.slots@.len() == count,
                self.max == old(self)@.max,
                values@ == occupied(old(self)@.slots.take(idx as int)),
                forall|i: int| 0 <= i < idx ==> (#[trigger] self.slots@[i]) is None,
                forall|i: int|
                    idx <= i < count ==> (#[trigger] self.slots@[i]) == old(self)@.slots[i],
            decreases count - idx,
        {
            let mut value: Option<T> = None;
            core::mem::swap(&mut value, &mut self.slots[idx]);
            assert(old(self)@.slots.take(idx + 1).drop_last() =~= old(self)@.slots.take(
                idx as int,
            ));
            if let Some(value) = value {
                values.push(value);
            }
            idx += 1;
        }
        assert(old(self)@.slots.take(count as int) =~= old(self)@.slots);
        self.free.clear();
        values
    }
}

impl<T> SlotView<T> {
    /// A new table is tidy, with nothing reserved.
    pub proof fn law_empty_is_tidy(max: usize)
        ensures
            SlotView::<T>::empty(max).tidy(Set::empty()),
            occupied(SlotView::<T>::empty(max).slots).len() == 0,
    {
    }

    /// The slot that is handed out was neither reserved nor occupied, no other slot changes, and
    /// the table stays tidy with that slot reserved.
    pub proof fn law_acquire_reserves_an_unused_slot(self, reserved: Set<usize>)
        requires
            self.tidy(reserved),
            self.acquired() is Some,
        ensures
            ({
                let idx = self.acquired()->0;
                let next = self.after_acquire();
                &&& idx < self.max
                &&& !reserved.contains(idx)
                &&& self.at(idx) is None
                &&& next.tidy(reserved.insert(idx))
                &&& forall|i: usize| #[trigger] next.at(i) == self.at(i)
                &&& occupied(next.slots) == occupied(self.slots)
            }),
    {
        let idx = self.acquired()->0;
        let next = self.after_acquire();
        if self.free.len() > 0 {
            let last = self.free.len() - 1;
            assert(self.free[last] == idx);
            assert forall|i: int|
                0 <= i < next.slots.len() && (#[trigger] next.slots[i]) is None implies next.free.contains(
                i as usize,
            ) || reserved.insert(idx).contains(i as usize) by {
                if self.free.contains(i as usize) && i != idx {
                    let k = choose|k: int| 0 <= k < self.free.len() && self.free[k] == i as usize;
                    assert(next.free[k] == i as usize);
                }
            }
            assert forall|k: int| 0 <= k < next.free.len() implies next.slots[(
            #[trigger] next.free[k]) as int] is None && !reserved.insert(idx).contains(
                next.free[k],
            ) by {
                assert(next.free[k] == self.free[k]);
            }
        } else {
            assert(next.slots.drop_last() =~= self.slots);
            assert forall|i: int|
                0 <= i < next.slots.len() && (#[trigger] next.slots[i]) is None implies next.free.contains(
                i as usize,
            ) || reserved.insert(idx).contains(i as usize) by {
                if i < self.slots.len() {
                    assert(next.slots[i] == self.slots[i]);
                }
            }
        }
    }

    /// Acquisition fails exactly when all the slots that the limit allows are in use.
    pub proof fn law_acquire_fails_only_when_full(self, reserved: Set<usize>)
        requires
            self.tidy(reserved),
        ensures
            self.acquired() is None <==> (forall|i: usize|
                i < self.max ==> #[trigger] self.at(i) is Some || reserved.contains(i)),
    {
        if self.free.len() > 0 {
            let last = self.free.len() - 1;
            let i = self.free[last];
            assert(self.at(i) is None && !reserved.contains(i) && i < self.max);
        } else if self.slots.len() < self.max {
            let i = self.slots.len() as usize;
            assert(self.at(i) is None && !reserved.contains(i) && i < self.max);
        } else {
            assert forall|i: usize| i < self.max implies #[trigger] self.at(i) is Some
                || reserved.contains(i) by {
                assert(self.at(i) == self.slots[i as int]);
            }
        }
    }

    /// Filling a reserved slot ends its reservation and leaves the table tidy.
    pub proof fn law_store_keeps_tidy(self, reserved: Set<usize>, idx: usize, value: T)
        requires
            self.tidy(reserved),
            reserved.contains(idx),
        ensures
            self.after_store(idx, value).tidy(reserved.remove(idx)),
            self.after_store(idx, value).at(idx) == Some(value),
    {
        let next = self.after_store(idx, value);
        assert forall|k: int| 0 <= k < next.free.len() implies next.slots[(
        #[trigger] next.free[k]) as int] is None && !reserved.remove(idx).contains(
            next.free[k],
        ) by {
            assert(self.free[k] != idx);
        }
        assert forall|i: int|
            0 <= i < next.slots.len() && (#[trigger] next.slots[i]) is None implies next.free.contains(
            i as usize,
        ) || reserved.remove(idx).contains(i as usize) by {
            assert(next.slots[i] == self.slots[i]);
        }
    }

    /// Emptying an occupied slot reserves it and leaves the table tidy.
    pub proof fn law_take_keeps_tidy(self, reserved: Set<usize>, idx: usize)
        requires
            self.tidy(reserved),
            self.at(idx) is Some,
        ensures
            self.after_take(idx).tidy(reserved.insert(idx)),
            self.after_take(idx).at(idx) is None,
    {
        let next = self.after_take(idx);
        assert forall|k: int| 0 <= k < next.free.len() implies next.slots[(
        #[trigger] next.free[k]) as int] is None && !reserved.insert(idx).contains(
            next.free[k],
        ) by {
            assert(self.free[k] != idx);
        }
        assert forall|i: int|
            0 <= i < next.slots.len() && (#[trigger] next.slots[i]) is None implies next.free.contains(
            i as usize,
        ) || reserved.insert(idx).contains(i as usize) by {
            if i != idx {
                assert(next.slots[i] == self.slots[i]);
            }
        }
    }

    /// Giving a reserved slot back ends its reservation and leaves the table tidy.
    pub proof fn law_release_keeps_tidy(self, reserved: Set<usize>, idx: usize)
        requires
            self.tidy(reserved),
            reserved.contains(idx),
        ensures
            self.after_release(idx).tidy(reserved.remove(idx)),
    {
        let next = self.after_release(idx);
        assert(!self.free.contains(idx));
        assert(next.free[self.free.len() as int] == idx);
        assert forall|k: int| 0 <= k < next.free.len() implies next.slots[(
        #[trigger] next.free[k]) as int] is None && !reserved.remove(idx).contains(
            next.free[k],
        ) by {
            if k < self.free.len() {
                assert(next.free[k] == self.free[k]);
            }
        }
        assert forall|i: int|
            0 <= i < next.slots.len() && (#[trigger] next.slots[i]) is None implies next.free.contains(
            i as usize,
        ) || reserved.remove(idx).contains(i as usize) by {
            assert(next.slots[i] == self.slots[i]);
            if self.free.contains(i as usize) {
                let k = choose|k: int| 0 <= k < self.free.len() && self.free[k] == i as usize;
                assert(next.free[k] == i as usize);
            }
        }
    }

    /// What was stored comes back, and taking it out of a slot that was empty before restores
    /// the table.
    pub proof fn law_take_undoes_store(self, idx: usize, value: T)
        requires
            idx < self.slots.len(),
        ensures
            self.after_store(idx, value).at(idx) == Some(value),
            self.at(idx) is None ==> self.after_store(idx, value).after_take(idx) == self,
    {
        if self.at(idx) is None {
            assert(self.after_store(idx, value).after_take(idx).slots =~= self.slots);
        }
    }

    /// A slot that was just given back is the next one handed out, so completed slots are reused
    /// before new ones are created.
    pub proof fn law_acquire_undoes_release(self, idx: usize)
        requires
            idx < self.slots.len(),
            self.at(idx) is None,
        ensures
            self.after_release(idx).acquired() == Some(idx),
            self.after_release(idx).after_acquire() == self,
    {
        assert(self.after_release(idx).after_acquire().free =~= self.free);
    }
}

impl<T> SlotView<T> {
    /// A new table has no slot and nothing on its free list, and its limit is the one asked for.
    pub proof fn law_new_table_is_bare(max: usize)
        ensures
            SlotView::<T>::empty(max).slots.len() == 0,
            SlotView::<T>::empty(max).free.len() == 0,
            SlotView::<T>::empty(max).max == max,
    {
    }

    /// A slot that was given back is handed out before a new one is created, and the one given
    /// back last is first. A new slot is numbered by how many there were, is empty, and is
    /// created only while the limit allows. Nothing else about the table changes.
    pub proof fn law_acquire_recycles_before_it_grows(self)
        ensures
            self.after_acquire().max == self.max,
            self.free.len() > 0 ==> {
                &&& self.acquired() == Some(self.free[self.free.len() - 1])
                &&& self.after_acquire().free =~= self.free.take(self.free.len() - 1)
                &&& self.after_acquire().slots =~= self.slots
            },
            self.free.len() == 0 && self.slots.len() < self.max ==> {
                &&& self.acquired() matches Some(idx) && idx == self.slots.len()
                &&& self.after_acquire().slots.len() == self.slots.len() + 1
                &&& self.after_acquire().slots[self.slots.len() as int] is None
                &&& forall|i: int|
                    0 <= i < self.slots.len() ==> #[trigger] self.after_acquire().slots[i]
                        == self.slots[i]
                &&& self.after_acquire().free.len() == 0
            },
            self.free.len() == 0 && self.slots.len() >= self.max ==> {
                &&& self.acquired() is None
                &&& self.after_acquire() == self
            },
    {
    }

    /// Giving back an empty slot puts it, and it alone, behind what is on the free list. Giving
    /// back one that is occupied or was never created changes nothing, and no slot's content
    /// ever changes by it.
    pub proof fn law_release_changes_only_the_free_list(self, idx: usize)
        ensures
            self.after_release(idx).slots == self.slots,
            self.after_release(idx).max == self.max,
            idx < self.slots.len() && self.slots[idx as int] is None ==> self.after_release(
                idx,
            ).free =~= self.free + seq![idx],
            idx >= self.slots.len() || self.slots[idx as int] is Some ==> self.after_release(idx)
                == self,
    {
    }

    /// Filling a slot changes that slot only.
    pub proof fn law_store_changes_only_its_slot(self, idx: usize, value: T)
        requires
            idx < self.slots.len(),
        ensures
            self.after_store(idx, value).slots.len() == self.slots.len(),
            self.after_store(idx, value).slots[idx as int] == Some(value),
            forall|i: int|
                0 <= i < self.slots.len() && i != idx ==> #[trigger] self.after_store(
                    idx,
                    value,
                ).slots[i] == self.slots[i],
            self.after_store(idx, value).free == self.free,
            self.after_store(idx, value).max == self.max,
    {
    }

    /// What is taken is what the slot held, and only that slot is emptied. From a slot that was
    /// never created nothing is taken and nothing changes.
    pub proof fn law_take_changes_only_its_slot(self, idx: usize)
        ensures
            idx < self.slots.len() ==> {
                &&& self.at(idx) == self.slots[idx as int]
                &&& self.after_take(idx).slots[idx as int] is None
            },
            idx >= self.slots.len() ==> self.at(idx) is None && self.after_take(idx) == self,
            self.after_take(idx).slots.len() == self.slots.len(),
            forall|i: int|
                0 <= i < self.slots.len() && i != idx ==> #[trigger] self.after_take(idx).slots[i]
                    == self.slots[i],
            self.after_take(idx).free == self.free,
            self.after_take(idx).max == self.max,
    {
    }

    /// After everything was taken the same slots exist, all of them empty, and none of them is
    /// handed out again.
    pub proof fn law_take_all_leaves_nothing(self)
        ensures
            self.after_take_all().slots.len() == self.slots.len(),
            forall|i: int|
                0 <= i < self.slots.len() ==> (#[trigger] self.after_take_all().slots[i]) is None,
            self.after_take_all().free.len() == 0,
            self.after_take_all().max == self.max,
    {
    }
}

/// An empty slot counts for nothing, an occupied one for its value, and the values of two rows of
/// slots are those of the first followed by those of the second: every value is there once, in
/// the order of the slots.
pub proof fn law_occupied_keeps_slot_order<T>(
    value: T,
    front: Seq<Option<T>>,
    back: Seq<Option<T>>,
)
    ensures
        occupied(Seq::<Option<T>>::empty()) == Seq::<T>::empty(),
        occupied(seq![None::<T>]) == Seq::<T>::empty(),
        occupied(seq![Some(value)]) == seq![value],
        occupied(front + back) == occupied(front) + occupied(back),
    decreases back.len(),
{
    reveal_with_fuel(occupied, 2);
    assert(seq![None::<T>].drop_last() =~= Seq::<Option<T>>::empty());
    assert(seq![Some(value)].drop_last() =~= Seq::<Option<T>>::empty());
    assert(occupied(seq![Some(value)]) =~= seq![value]);
    if back.len() == 0 {
        assert(front + back =~= front);
        assert(occupied(front) + occupied(back) =~= occupied(front));
    } else {
        law_occupied_keeps_slot_order(value, front, back.drop_last());
        assert((front + back).drop_last() =~= front + back.drop_last());
        assert((front + back).last() == back.last());
        assert(occupied(front + back) =~= occupied(front) + occupied(back));
    }
}

} // verus!
