//! The descriptor-reference ownership model.
//!
//! Bindless resources live in a large, size-bounded table and are named by
//! integer indices. A reference to a slot carries one of four ownership
//! classes:
//!
//! - [`OwnedDesc`]: the sole creator of a slot, produced by allocation;
//! - [`SharedDesc`]: CPU-side refcounted sharing, cloned and dropped
//!   through the table so the count stays exact;
//! - [`StrongDesc`]: embeddable inside GPU-visible data, participating in
//!   the refcount so the slot outlives every structure that may name it;
//! - [`TransientDesc`]: valid only for one submitted unit of GPU work.
//!
//! Slot recycling is tied to completion of submitted work, not merely to
//! the refcount reaching zero: a slot whose count hits zero is retired
//! until the unit of work being recorded at that moment has completed, so
//! no transient reference derived before the drop can observe reuse. Every
//! mutating operation states this as [`transients_preserved`]: a transient
//! reference stays valid, still naming the same contents, until its unit of
//! work completes.

use vstd::prelude::*;

verus! {

/// Marker trait: the ownership classes a type-erased buffer reference can
/// carry.
pub trait DescRef {

}

/// Capacity error: every slot of the bounded descriptor table is occupied
/// or awaiting retirement.
#[derive(Copy, Clone, Debug, Eq, PartialEq, Structural)]
pub struct DescriptorTableFull;

/// Sole-owner reference to a freshly allocated slot.
pub struct OwnedDesc<T> {
    index: usize,
    content: Ghost<T>,
}

/// CPU-side refcounted reference to a slot.
pub struct SharedDesc<T> {
    index: usize,
    content: Ghost<T>,
}

/// GPU-embeddable reference: keeps its slot alive as long as any
/// GPU-visible structure holding a copy could still be read.
pub struct StrongDesc<T> {
    index: usize,
    content: Ghost<T>,
}

/// Reference valid only for the unit of GPU work it was recorded into.
pub struct TransientDesc<T> {
    index: usize,
    submission: u64,
    content: Ghost<T>,
}

impl<T> DescRef for OwnedDesc<T> {

}

impl<T> DescRef for SharedDesc<T> {

}

impl<T> DescRef for StrongDesc<T> {

}

impl<T> DescRef for TransientDesc<T> {

}

impl<T> OwnedDesc<T> {
    pub closed spec fn spec_index(self) -> int {
        self.index as int
    }

    /// The slot contents this reference was created over.
    pub closed spec fn spec_content(self) -> T {
        self.content@
    }

    pub fn index(&self) -> (r: usize)
        ensures
            r == self.spec_index(),
    {
        self.index
    }

    /// Converts sole ownership into refcounted sharing; the single
    /// allocation-time reference becomes the single share.
    pub fn to_shared(self) -> (r: SharedDesc<T>)
        ensures
            r.spec_index() == self.spec_index(),
            r.spec_content() == self.spec_content(),
    {
        SharedDesc { index: self.index, content: self.content }
    }
}

impl<T> SharedDesc<T> {
    pub closed spec fn spec_index(self) -> int {
        self.index as int
    }

    /// The slot contents this reference was created over.
    pub closed spec fn spec_content(self) -> T {
        self.content@
    }

    pub fn index(&self) -> (r: usize)
        ensures
            r == self.spec_index(),
    {
        self.index
    }
}

impl<T> StrongDesc<T> {
    pub closed spec fn spec_index(self) -> int {
        self.index as int
    }

    /// The slot contents this reference was created over.
    pub closed spec fn spec_content(self) -> T {
        self.content@
    }

    pub fn index(&self) -> (r: usize)
        ensures
            r == self.spec_index(),
    {
        self.index
    }
}

impl<T> Clone for StrongDesc<T> {
    fn clone(&self) -> (r: Self)
        ensures
            r == *self,
    {
        StrongDesc { index: self.index, content: self.content }
    }
}

impl<T> Copy for StrongDesc<T> {

}

impl<T> TransientDesc<T> {
    pub closed spec fn spec_index(self) -> int {
        self.index as int
    }

    /// The slot contents this reference was created over.
    pub closed spec fn spec_content(self) -> T {
        self.content@
    }

    /// The unit of work this reference is valid for.
    pub closed spec fn spec_submission(self) -> u64 {
        self.submission
    }

    pub fn index(&self) -> (r: usize)
        ensures
            r == self.spec_index(),
    {
        self.index
    }
}

impl<T> Clone for TransientDesc<T> {
    fn clone(&self) -> (r: Self)
        ensures
            r == *self,
    {
        TransientDesc { index: self.index, submission: self.submission, content: self.content }
    }
}

impl<T> Copy for TransientDesc<T> {

}

/// The bindless descriptor table: a bounded array of slots holding
/// resource contents, with a refcount and a retirement stamp per slot, plus
/// the submission bookkeeping that gates slot reuse.
///
/// `recording` is the id of the unit of work currently being recorded;
/// every unit with id at most `completed` has finished executing.
pub struct DescriptorTable<T> {
    payloads: Vec<Option<T>>,
    refcounts: Vec<u64>,
    retires: Vec<Option<u64>>,
    capacity: usize,
    recording: u64,
    completed: u64,
}

/// Both slots' bookkeeping and contents agree between two table states.
pub open spec fn slot_unchanged<T>(pre: DescriptorTable<T>, post: DescriptorTable<T>, i: int) -> bool {
    &&& post.payload_at(i) == pre.payload_at(i)
    &&& post.refcount_at(i) == pre.refcount_at(i)
    &&& post.retire_at(i) == pre.retire_at(i)
}

/// The ordering guarantee of the submission protocol: every transient
/// reference that was valid before an operation, and whose unit of work has
/// still not completed afterwards, is still valid and still names the same
/// contents.
pub open spec fn transients_preserved<T>(pre: DescriptorTable<T>, post: DescriptorTable<T>) -> bool {
    forall|d: TransientDesc<T>|
        #[trigger] pre.transient_valid(d) && post.spec_completed() < d.spec_submission()
            ==> post.transient_valid(d)
}

impl<T> DescriptorTable<T> {
    pub closed spec fn spec_len(self) -> nat {
        self.payloads@.len()
    }

    pub closed spec fn payload_at(self, i: int) -> Option<T> {
        self.payloads@[i]
    }

    pub closed spec fn refcount_at(self, i: int) -> u64 {
        self.refcounts@[i]
    }

    /// If set, the unit of work whose completion frees this slot.
    pub closed spec fn retire_at(self, i: int) -> Option<u64> {
        self.retires@[i]
    }

    pub closed spec fn spec_capacity(self) -> usize {
        self.capacity
    }

    /// Id of the unit of work currently being recorded.
    pub closed spec fn spec_recording(self) -> u64 {
        self.recording
    }

    /// Every unit of work with an id at most this has finished executing.
    pub closed spec fn spec_completed(self) -> u64 {
        self.completed
    }

    pub closed spec fn internal_inv(self) -> bool {
        &&& self.refcounts@.len() == self.payloads@.len()
        &&& self.retires@.len() == self.payloads@.len()
    }

    /// Per-slot invariant: a held slot is occupied and not retired; a
    /// retired slot is occupied, unreferenced, and stamped with a unit of
    /// work that is submitted or recording but not yet completed; an empty
    /// slot is unreferenced and unstamped.
    pub open spec fn slot_wf(self, i: int) -> bool {
        &&& (self.refcount_at(i) > 0 ==> self.payload_at(i) is Some && self.retire_at(i) is None)
        &&& (match self.retire_at(i) {
            Some(s) => self.refcount_at(i) == 0 && self.payload_at(i) is Some
                && self.spec_completed() < s <= self.spec_recording(),
            None => true,
        })
        &&& (self.payload_at(i) is None ==> self.refcount_at(i) == 0 && self.retire_at(i) is None)
    }

    pub open spec fn wf(self) -> bool {
        &&& self.internal_inv()
        &&& self.spec_len() <= self.spec_capacity()
        &&& self.spec_completed() < self.spec_recording()
        &&& forall|i: int| 0 <= i < self.spec_len() ==> #[trigger] self.slot_wf(i)
    }

    /// No slot is free and no slot can be added: allocation must fail.
    pub open spec fn spec_full(self) -> bool {
        &&& self.spec_len() == self.spec_capacity()
        &&& forall|i: int| 0 <= i < self.spec_len() ==> #[trigger] self.payload_at(i) is Some
    }

    pub open spec fn owned_valid(self, d: OwnedDesc<T>) -> bool {
        &&& 0 <= d.spec_index() < self.spec_len()
        &&& self.refcount_at(d.spec_index()) > 0
        &&& self.payload_at(d.spec_index()) == Some(d.spec_content())
    }

    pub open spec fn shared_valid(self, d: SharedDesc<T>) -> bool {
        &&& 0 <= d.spec_index() < self.spec_len()
        &&& self.refcount_at(d.spec_index()) > 0
        &&& self.payload_at(d.spec_index()) == Some(d.spec_content())
    }

    pub open spec fn strong_valid(self, d: StrongDesc<T>) -> bool {
        &&& 0 <= d.spec_index() < self.spec_len()
        &&& self.refcount_at(d.spec_index()) > 0
        &&& self.payload_at(d.spec_index()) == Some(d.spec_content())
    }

    /// A transient reference is valid while its unit of work is recorded or
    /// in flight: its slot still holds the contents it was derived over,
    /// and any retirement stamp on the slot postdates the reference, so the
    /// slot cannot be freed before the unit of work completes.
    pub open spec fn transient_valid(self, d: TransientDesc<T>) -> bool {
        &&& 0 <= d.spec_index() < self.spec_len()
        &&& self.payload_at(d.spec_index()) == Some(d.spec_content())
        &&& self.spec_completed() < d.spec_submission() <= self.spec_recording()
        &&& (match self.retire_at(d.spec_index()) {
            Some(s) => d.spec_submission() <= s,
            None => true,
        })
    }

    /// An empty table for at most `capacity` resources, with the first unit
    /// of work open for recording.
    pub fn new(capacity: usize) -> (r: Self)
        ensures
            r.wf(),
            r.spec_len() == 0,
            r.spec_capacity() == capacity,
            r.spec_recording() == 1,
            r.spec_completed() == 0,
    {
        DescriptorTable {
            payloads: Vec::new(),
            refcounts: Vec::new(),
            retires: Vec::new(),
            capacity,
            recording: 1,
            completed: 0,
        }
    }

    /// Requests a new table slot and uploads its initial contents, as the
    /// sole owner. Fails exactly when the bounded table is exhausted.
    pub fn allocate(&mut self, payload: T) -> (r: Result<OwnedDesc<T>, DescriptorTableFull>)
        requires
            old(self).wf(),
        ensures
            final(self).wf(),
            final(self).spec_capacity() == old(self).spec_capacity(),
            final(self).spec_recording() == old(self).spec_recording(),
            final(self).spec_completed() == old(self).spec_completed(),
            r is Err <==> old(self).spec_full(),
            r is Err <==> old(self).spec_free_room() == 0,
            r is Ok ==> final(self).spec_free_room() == old(self).spec_free_room() - 1,
            r is Err ==> *final(self) == *old(self),
            r is Ok ==> {
                let d = r->Ok_0;
                &&& final(self).owned_valid(d)
                &&& d.spec_content() == payload
                &&& final(self).payload_at(d.spec_index()) == Some(payload)
                &&& final(self).refcount_at(d.spec_index()) == 1
                &&& final(self).retire_at(d.spec_index()) is None
                &&& !(0 <= d.spec_index() < old(self).spec_len() && old(self).payload_at(
                    d.spec_index(),
                ) is Some)
                &&& old(self).spec_len() <= final(self).spec_len() <= old(self).spec_len() + 1
                &&& forall|j: int|
                    0 <= j < old(self).spec_len() && j != d.spec_index() ==> #[trigger] slot_unchanged(
                        *old(self),
                        *final(self),
                        j,
                    )
            },
            forall|d2: SharedDesc<T>|
                #[trigger] old(self).shared_valid(d2) ==> final(self).shared_valid(d2),
            forall|d2: StrongDesc<T>|
                #[trigger] old(self).strong_valid(d2) ==> final(self).strong_valid(d2),
            transients_preserved(*old(self), *final(self)),
    {
        let n = self.payloads.len();
        let mut i: usize = 0;
        while i < n
            invariant
                *self == *old(self),
                n == self.spec_len(),
                self.wf(),
                forall|j: int| 0 <= j < i ==> #[trigger] self.payload_at(j) is Some,
            decreases n - i,
        {
            if self.payloads[i].is_none() {
                proof {
                    assert(old(self).slot_wf(i as int));
                    assert(!old(self).spec_full());
                }
                let ghost snapshot = payload;
                self.payloads[i] = Some(payload);
                self.refcounts[i] = 1;
                let d = OwnedDesc { index: i, content: Ghost(snapshot) };
                proof {
                    assert forall|j: int| 0 <= j < self.spec_len() implies #[trigger] self.slot_wf(
                        j,
                    ) by {
                        assert(old(self).slot_wf(j));
                    }
                    assert forall|t: TransientDesc<T>|
                        old(self).transient_valid(t) && self.spec_completed()
                            < t.spec_submission() implies self.transient_valid(t) by {
                        assert(t.spec_index() != i as int);
                    }
                    Self::lemma_free_in_prefix_fill(
                        *old(self),
                        *self,
                        i as int,
                        old(self).spec_len() as int,
                    );
                    assert forall|d2: SharedDesc<T>|
                        #[trigger] old(self).shared_valid(d2) implies self.shared_valid(d2) by {
                        assert(slot_unchanged(*old(self), *self, d2.spec_index()));
                    }
                    assert forall|d2: StrongDesc<T>|
                        #[trigger] old(self).strong_valid(d2) implies self.strong_valid(d2) by {
                        assert(slot_unchanged(*old(self), *self, d2.spec_index()));
                    }
                    old(self).lemma_free_in_prefix_at_least_one(
                        i as int,
                        old(self).spec_len() as int,
                    );
                }
                return Ok(d);
            }
            i += 1;
        }
        if n < self.capacity {
            let ghost snapshot = payload;
            self.payloads.push(Some(payload));
            self.refcounts.push(1);
            self.retires.push(None);
            let d = OwnedDesc { index: n, content: Ghost(snapshot) };
            proof {
                assert forall|j: int| 0 <= j < final(self).spec_len() implies #[trigger] final(self).slot_wf(j) by {
                    if j < n {
                        assert(old(self).slot_wf(j));
                        assert(slot_unchanged(*old(self), *final(self), j));
                    }
                }
                assert forall|t: TransientDesc<T>|
                    old(self).transient_valid(t) && final(self).spec_completed()
                        < t.spec_submission() implies final(self).transient_valid(t) by {
                    assert(slot_unchanged(*old(self), *final(self), t.spec_index()));
                }
                Self::lemma_free_in_prefix_same(*old(self), *self, n as int);
                assert(self.free_in_prefix(n as int + 1) == self.free_in_prefix(n as int));
                old(self).lemma_free_in_prefix_nonneg(n as int);
                assert forall|d2: SharedDesc<T>|
                    #[trigger] old(self).shared_valid(d2) implies self.shared_valid(d2) by {
                    assert(slot_unchanged(*old(self), *self, d2.spec_index()));
                }
                assert forall|d2: StrongDesc<T>|
                    #[trigger] old(self).strong_valid(d2) implies self.strong_valid(d2) by {
                    assert(slot_unchanged(*old(self), *self, d2.spec_index()));
                }
            }
            Ok(d)
        } else {
            proof {
                self.lemma_free_in_prefix_all_occupied(n as int);
            }
            Err(DescriptorTableFull)
        }
    }

    /// Adds one CPU-side share: increments the slot's refcount and hands
    /// back a second reference to the same slot.
    pub fn clone_shared(&mut self, d: &SharedDesc<T>) -> (r: SharedDesc<T>)
        requires
            old(self).wf(),
            old(self).shared_valid(*d),
            old(self).refcount_at(d.spec_index()) < u64::MAX,
        ensures
            final(self).wf(),
            final(self).spec_len() == old(self).spec_len(),
            final(self).spec_capacity() == old(self).spec_capacity(),
            final(self).spec_recording() == old(self).spec_recording(),
            final(self).spec_completed() == old(self).spec_completed(),
            final(self).spec_free_room() == old(self).spec_free_room(),
            final(self).refcount_at(d.spec_index()) == old(self).refcount_at(d.spec_index()) + 1,
            final(self).payload_at(d.spec_index()) == old(self).payload_at(d.spec_index()),
            final(self).retire_at(d.spec_index()) == old(self).retire_at(d.spec_index()),
            forall|j: int|
                0 <= j < old(self).spec_len() && j != d.spec_index() ==> #[trigger] slot_unchanged(
                    *old(self),
                    *final(self),
                    j,
                ),
            r.spec_index() == d.spec_index(),
            r.spec_content() == d.spec_content(),
            final(self).shared_valid(*d),
            final(self).shared_valid(r),
            forall|d2: SharedDesc<T>|
                #[trigger] old(self).shared_valid(d2) ==> final(self).shared_valid(d2),
            forall|d2: StrongDesc<T>|
                #[trigger] old(self).strong_valid(d2) ==> final(self).strong_valid(d2),
            transients_preserved(*old(self), *final(self)),
    {
        let i = d.index;
        let rc = self.refcounts[i];
        self.refcounts[i] = rc + 1;
        proof {
            Self::lemma_free_in_prefix_same(*old(self), *self, old(self).spec_len() as int);
            assert forall|j: int| 0 <= j < final(self).spec_len() implies #[trigger] final(self).slot_wf(j) by {
                assert(old(self).slot_wf(j));
            }
            assert forall|d2: SharedDesc<T>|
                #[trigger] old(self).shared_valid(d2) implies self.shared_valid(d2) by {
                if d2.spec_index() != i as int {
                    assert(slot_unchanged(*old(self), *self, d2.spec_index()));
                }
            }
            assert forall|d2: StrongDesc<T>|
                #[trigger] old(self).strong_valid(d2) implies self.strong_valid(d2) by {
                if d2.spec_index() != i as int {
                    assert(slot_unchanged(*old(self), *self, d2.spec_index()));
                }
            }
        }
        SharedDesc { index: d.index, content: d.content }
    }

    /// Produces a GPU-embeddable reference; it participates in the refcount
    /// so the slot survives as long as the reference may be read.
    pub fn to_strong(&mut self, d: &SharedDesc<T>) -> (r: StrongDesc<T>)
        requires
            old(self).wf(),
            old(self).shared_valid(*d),
            old(self).refcount_at(d.spec_index()) < u64::MAX,
        ensures
            final(self).wf(),
            final(self).spec_len() == old(self).spec_len(),
            final(self).spec_capacity() == old(self).spec_capacity(),
            final(self).spec_recording() == old(self).spec_recording(),
            final(self).spec_completed() == old(self).spec_completed(),
            final(self).spec_free_room() == old(self).spec_free_room(),
            final(self).refcount_at(d.spec_index()) == old(self).refcount_at(d.spec_index()) + 1,
            final(self).payload_at(d.spec_index()) == old(self).payload_at(d.spec_index()),
            final(self).retire_at(d.spec_index()) == old(self).retire_at(d.spec_index()),
            forall|j: int|
                0 <= j < old(self).spec_len() && j != d.spec_index() ==> #[trigger] slot_unchanged(
                    *old(self),
                    *final(self),
                    j,
                ),
            r.spec_index() == d.spec_index(),
            r.spec_content() == d.spec_content(),
            final(self).shared_valid(*d),
            final(self).strong_valid(r),
            forall|d2: SharedDesc<T>|
                #[trigger] old(self).shared_valid(d2) ==> final(self).shared_valid(d2),
            forall|d2: StrongDesc<T>|
                #[trigger] old(self).strong_valid(d2) ==> final(self).strong_valid(d2),
            transients_preserved(*old(self), *final(self)),
    {
        let i = d.index;
        let rc = self.refcounts[i];
        self.refcounts[i] = rc + 1;
        proof {
            Self::lemma_free_in_prefix_same(*old(self), *self, old(self).spec_len() as int);
            assert forall|j: int| 0 <= j < final(self).spec_len() implies #[trigger] final(self).slot_wf(j) by {
                assert(old(self).slot_wf(j));
            }
            assert forall|d2: SharedDesc<T>|
                #[trigger] old(self).shared_valid(d2) implies self.shared_valid(d2) by {
                if d2.spec_index() != i as int {
                    assert(slot_unchanged(*old(self), *self, d2.spec_index()));
                }
            }
            assert forall|d2: StrongDesc<T>|
                #[trigger] old(self).strong_valid(d2) implies self.strong_valid(d2) by {
                if d2.spec_index() != i as int {
                    assert(slot_unchanged(*old(self), *self, d2.spec_index()));
                }
            }
        }
        StrongDesc { index: d.index, content: d.content }
    }

    /// Releases one share. When the count reaches zero the slot is not
    /// freed but retired until the unit of work now being recorded has
    /// completed, so in-flight GPU reads can never observe reuse.
    pub fn drop_shared(&mut self, d: SharedDesc<T>)
        requires
            old(self).wf(),
            old(self).shared_valid(d),
        ensures
            final(self).wf(),
            final(self).spec_len() == old(self).spec_len(),
            final(self).spec_capacity() == old(self).spec_capacity(),
            final(self).spec_recording() == old(self).spec_recording(),
            final(self).spec_completed() == old(self).spec_completed(),
            final(self).spec_free_room() == old(self).spec_free_room(),
            final(self).refcount_at(d.spec_index()) == old(self).refcount_at(d.spec_index()) - 1,
            final(self).payload_at(d.spec_index()) == old(self).payload_at(d.spec_index()),
            final(self).retire_at(d.spec_index()) == if old(self).refcount_at(d.spec_index())
                == 1 {
                Some(old(self).spec_recording())
            } else {
                old(self).retire_at(d.spec_index())
            },
            forall|j: int|
                0 <= j < old(self).spec_len() && j != d.spec_index() ==> #[trigger] slot_unchanged(
                    *old(self),
                    *final(self),
                    j,
                ),
            transients_preserved(*old(self), *final(self)),
    {
        let i = d.index;
        let rc = self.refcounts[i];
        self.refcounts[i] = rc - 1;
        if rc == 1 {
            self.retires[i] = Some(self.recording);
        }
        proof {
            Self::lemma_free_in_prefix_same(*old(self), *self, old(self).spec_len() as int);
            assert forall|j: int| 0 <= j < final(self).spec_len() implies #[trigger] final(self).slot_wf(j) by {
                assert(old(self).slot_wf(j));
            }
            assert forall|t: TransientDesc<T>|
                old(self).transient_valid(t) && final(self).spec_completed()
                    < t.spec_submission() implies final(self).transient_valid(t) by {
                if t.spec_index() == i as int {
                    assert(t.spec_submission() <= old(self).spec_recording());
                }
            }
        }
    }

    /// Releases one GPU-embeddable reference; same retirement rule as
    /// [`Self::drop_shared`].
    pub fn drop_strong(&mut self, d: StrongDesc<T>)
        requires
            old(self).wf(),
            old(self).strong_valid(d),
        ensures
            final(self).wf(),
            final(self).spec_len() == old(self).spec_len(),
            final(self).spec_capacity() == old(self).spec_capacity(),
            final(self).spec_recording() == old(self).spec_recording(),
            final(self).spec_completed() == old(self).spec_completed(),
            final(self).spec_free_room() == old(self).spec_free_room(),
            final(self).refcount_at(d.spec_index()) == old(self).refcount_at(d.spec_index()) - 1,
            final(self).payload_at(d.spec_index()) == old(self).payload_at(d.spec_index()),
            final(self).retire_at(d.spec_index()) == if old(self).refcount_at(d.spec_index())
                == 1 {
                Some(old(self).spec_recording())
            } else {
                old(self).retire_at(d.spec_index())
            },
            forall|j: int|
                0 <= j < old(self).spec_len() && j != d.spec_index() ==> #[trigger] slot_unchanged(
                    *old(self),
                    *final(self),
                    j,
                ),
            transients_preserved(*old(self), *final(self)),
    {
        let i = d.index;
        let rc = self.refcounts[i];
        self.refcounts[i] = rc - 1;
        if rc == 1 {
            self.retires[i] = Some(self.recording);
        }
        proof {
            Self::lemma_free_in_prefix_same(*old(self), *self, old(self).spec_len() as int);
            assert forall|j: int| 0 <= j < final(self).spec_len() implies #[trigger] final(self).slot_wf(j) by {
                assert(old(self).slot_wf(j));
            }
            assert forall|t: TransientDesc<T>|
                old(self).transient_valid(t) && final(self).spec_completed()
                    < t.spec_submission() implies final(self).transient_valid(t) by {
                if t.spec_index() == i as int {
                    assert(t.spec_submission() <= old(self).spec_recording());
                }
            }
        }
    }

    /// Derives a reference valid for the unit of work currently being
    /// recorded, from a CPU-side share.
    pub fn to_transient(&self, d: &SharedDesc<T>) -> (r: TransientDesc<T>)
        requires
            self.wf(),
            self.shared_valid(*d),
        ensures
            r.spec_index() == d.spec_index(),
            r.spec_content() == d.spec_content(),
            r.spec_submission() == self.spec_recording(),
            self.transient_valid(r),
    {
        proof {
            assert(self.slot_wf(d.spec_index()));
        }
        TransientDesc { index: d.index, submission: self.recording, content: d.content }
    }

    /// Derives a reference valid for the unit of work currently being
    /// recorded, from a GPU-embeddable reference.
    pub fn strong_to_transient(&self, d: &StrongDesc<T>) -> (r: TransientDesc<T>)
        requires
            self.wf(),
            self.strong_valid(*d),
        ensures
            r.spec_index() == d.spec_index(),
            r.spec_content() == d.spec_content(),
            r.spec_submission() == self.spec_recording(),
            self.transient_valid(r),
    {
        proof {
            assert(self.slot_wf(d.spec_index()));
        }
        TransientDesc { index: d.index, submission: self.recording, content: d.content }
    }

    /// Resolves a CPU-side share against the live table.
    pub fn access_shared(&self, d: &SharedDesc<T>) -> (r: &T)
        requires
            self.wf(),
            self.shared_valid(*d),
        ensures
            *r == d.spec_content(),
    {
        self.payloads[d.index].as_ref().unwrap()
    }

    /// Resolves a GPU-embeddable reference against the live table.
    pub fn access_strong(&self, d: &StrongDesc<T>) -> (r: &T)
        requires
            self.wf(),
            self.strong_valid(*d),
        ensures
            *r == d.spec_content(),
    {
        self.payloads[d.index].as_ref().unwrap()
    }

    /// Resolves a transient reference against the live table. The caller
    /// must hold the validity guarantee: the reference's unit of work has
    /// not completed.
    pub fn access_transient(&self, d: &TransientDesc<T>) -> (r: &T)
        requires
            self.wf(),
            self.transient_valid(*d),
        ensures
            *r == d.spec_content(),
    {
        self.payloads[d.index].as_ref().unwrap()
    }

    /// Closes the unit of work being recorded and hands it to the GPU; a
    /// fresh unit is open for recording afterwards.
    pub fn submit(&mut self)
        requires
            old(self).wf(),
            old(self).spec_recording() < u64::MAX,
        ensures
            final(self).wf(),
            final(self).spec_len() == old(self).spec_len(),
            final(self).spec_capacity() == old(self).spec_capacity(),
            final(self).spec_recording() == old(self).spec_recording() + 1,
            final(self).spec_completed() == old(self).spec_completed(),
            forall|j: int|
                0 <= j < old(self).spec_len() ==> #[trigger] slot_unchanged(
                    *old(self),
                    *final(self),
                    j,
                ),
            transients_preserved(*old(self), *final(self)),
    {
        self.recording = self.recording + 1;
        proof {
            assert forall|j: int| 0 <= j < final(self).spec_len() implies #[trigger] final(self).slot_wf(j) by {
                assert(old(self).slot_wf(j));
            }
        }
    }

    /// Records that the oldest in-flight unit of work has finished
    /// executing, and frees every slot whose retirement it was gating.
    /// Only submitted units can complete, never the one still recording.
    pub fn complete_next(&mut self)
        requires
            old(self).wf(),
            old(self).spec_completed() + 1 < old(self).spec_recording(),
        ensures
            final(self).wf(),
            final(self).spec_len() == old(self).spec_len(),
            final(self).spec_capacity() == old(self).spec_capacity(),
            final(self).spec_recording() == old(self).spec_recording(),
            final(self).spec_completed() == old(self).spec_completed() + 1,
            forall|j: int|
                0 <= j < old(self).spec_len() && old(self).retired_by(
                    j,
                    (old(self).spec_completed() + 1) as u64,
                ) ==> #[trigger] final(self).slot_free(j),
            forall|j: int|
                0 <= j < old(self).spec_len() && !old(self).retired_by(
                    j,
                    (old(self).spec_completed() + 1) as u64,
                ) ==> #[trigger] slot_unchanged(*old(self), *final(self), j),
            transients_preserved(*old(self), *final(self)),
    {
        let new_completed = self.completed + 1;
        self.completed = new_completed;
        let n = self.payloads.len();
        let mut i: usize = 0;
        while i < n
            invariant
                n == self.spec_len() == old(self).spec_len(),
                self.spec_capacity() == old(self).spec_capacity(),
                self.spec_recording() == old(self).spec_recording(),
                self.spec_completed() == new_completed == old(self).spec_completed() + 1,
                old(self).wf(),
                old(self).spec_completed() + 1 < old(self).spec_recording(),
                self.internal_inv(),
                forall|j: int|
                    0 <= j < i && old(self).retired_by(j, new_completed)
                        ==> #[trigger] self.slot_free(j),
                forall|j: int|
                    0 <= j < i && !old(self).retired_by(j, new_completed)
                        ==> #[trigger] slot_unchanged(*old(self), *self, j),
                forall|j: int| i <= j < n ==> #[trigger] slot_unchanged(*old(self), *self, j),
            decreases n - i,
        {
            let ghost pre = *self;
            proof {
                assert(slot_unchanged(*old(self), pre, i as int));
            }
            let retire_now = match self.retires[i] {
                Some(s) => s <= new_completed,
                None => false,
            };
            if retire_now {
                self.payloads[i] = None;
                self.refcounts[i] = 0;
                self.retires[i] = None;
            }
            proof {
                assert forall|j: int|
                    0 <= j < i + 1 && old(self).retired_by(j, new_completed) implies #[trigger] self.slot_free(
                    j,
                ) by {
                    if j != i as int {
                        assert(pre.slot_free(j));
                        assert(self.payload_at(j) == pre.payload_at(j));
                        assert(self.refcount_at(j) == pre.refcount_at(j));
                        assert(self.retire_at(j) == pre.retire_at(j));
                    }
                }
                assert forall|j: int|
                    0 <= j < i + 1 && !old(self).retired_by(j, new_completed) implies #[trigger] slot_unchanged(
                    *old(self),
                    *self,
                    j,
                ) by {
                    if j != i as int {
                        assert(slot_unchanged(*old(self), pre, j));
                        assert(self.payload_at(j) == pre.payload_at(j));
                        assert(self.refcount_at(j) == pre.refcount_at(j));
                        assert(self.retire_at(j) == pre.retire_at(j));
                    }
                }
                assert forall|j: int| i + 1 <= j < n implies #[trigger] slot_unchanged(
                    *old(self),
                    *self,
                    j,
                ) by {
                    assert(slot_unchanged(*old(self), pre, j));
                    assert(self.payload_at(j) == pre.payload_at(j));
                    assert(self.refcount_at(j) == pre.refcount_at(j));
                    assert(self.retire_at(j) == pre.retire_at(j));
                }
            }
            i += 1;
        }
        proof {
            assert forall|j: int| 0 <= j < self.spec_len() implies #[trigger] self.slot_wf(j) by {
                assert(old(self).slot_wf(j));
                if old(self).retired_by(j, new_completed) {
                    assert(self.slot_free(j));
                } else {
                    assert(slot_unchanged(*old(self), *self, j));
                }
            }
            assert forall|t: TransientDesc<T>|
                old(self).transient_valid(t) && self.spec_completed()
                    < t.spec_submission() implies self.transient_valid(t) by {
                if old(self).retired_by(t.spec_index(), new_completed) {
                    assert(false);
                } else {
                    assert(slot_unchanged(*old(self), *self, t.spec_index()));
                }
            }
        }
    }

    /// Free slots among the first `n`.
    pub open spec fn free_in_prefix(self, n: int) -> int
        decreases n,
    {
        if n <= 0 {
            0
        } else {
            self.free_in_prefix(n - 1) + if self.payload_at(n - 1) is None {
                1int
            } else {
                0int
            }
        }
    }

    /// How many more allocations the table can take before it reports
    /// exhaustion: free slots plus never-used capacity.
    pub open spec fn spec_free_room(self) -> int {
        self.spec_capacity() - self.spec_len() + self.free_in_prefix(self.spec_len() as int)
    }

    /// The slot is empty: unoccupied, unreferenced, unstamped.
    pub open spec fn slot_free(self, i: int) -> bool {
        &&& self.payload_at(i) is None
        &&& self.refcount_at(i) == 0
        &&& self.retire_at(i) is None
    }

    /// Whether slot `i`'s retirement stamp has elapsed once every unit of
    /// work up to `c` has completed.
    pub open spec fn retired_by(self, i: int, c: u64) -> bool {
        match self.retire_at(i) {
            Some(s) => s <= c,
            None => false,
        }
    }

    /// How many more allocations the table can take right now.
    pub fn free_room(&self) -> (r: usize)
        requires
            self.wf(),
        ensures
            r == self.spec_free_room(),
    {
        let n = self.payloads.len();
        let mut count: usize = 0;
        let mut i: usize = 0;
        while i < n
            invariant
                n == self.spec_len(),
                i <= n,
                count == self.free_in_prefix(i as int),
                count <= i,
            decreases n - i,
        {
            if self.payloads[i].is_none() {
                count += 1;
            }
            i += 1;
        }
        self.capacity - n + count
    }

    proof fn lemma_free_in_prefix_nonneg(self, n: int)
        ensures
            self.free_in_prefix(n) >= 0,
        decreases n,
    {
        if n > 0 {
            self.lemma_free_in_prefix_nonneg(n - 1);
        }
    }

    /// Two states whose slots are occupied in the same places have the
    /// same free count.
    proof fn lemma_free_in_prefix_same(pre: Self, post: Self, n: int)
        requires
            forall|j: int|
                0 <= j < n ==> ((#[trigger] pre.payload_at(j)) is None <==> post.payload_at(
                    j,
                ) is None),
        ensures
            post.free_in_prefix(n) == pre.free_in_prefix(n),
        decreases n,
    {
        if n > 0 {
            Self::lemma_free_in_prefix_same(pre, post, n - 1);
        }
    }

    /// Filling exactly one free slot lowers the free count by one.
    proof fn lemma_free_in_prefix_fill(pre: Self, post: Self, i: int, n: int)
        requires
            0 <= i < n,
            pre.payload_at(i) is None,
            post.payload_at(i) is Some,
            forall|j: int|
                0 <= j < n && j != i ==> ((#[trigger] pre.payload_at(j)) is None
                    <==> post.payload_at(j) is None),
        ensures
            post.free_in_prefix(n) == pre.free_in_prefix(n) - 1,
        decreases n,
    {
        if i == n - 1 {
            Self::lemma_free_in_prefix_same(pre, post, n - 1);
        } else {
            Self::lemma_free_in_prefix_fill(pre, post, i, n - 1);
        }
    }

    proof fn lemma_free_in_prefix_all_occupied(self, n: int)
        requires
            forall|j: int| 0 <= j < n ==> (#[trigger] self.payload_at(j)) is Some,
        ensures
            self.free_in_prefix(n) == 0,
        decreases n,
    {
        if n > 0 {
            self.lemma_free_in_prefix_all_occupied(n - 1);
        }
    }

    proof fn lemma_free_in_prefix_at_least_one(self, i: int, n: int)
        requires
            0 <= i < n,
            self.payload_at(i) is None,
        ensures
            self.free_in_prefix(n) >= 1,
        decreases n,
    {
        self.lemma_free_in_prefix_nonneg(i);
        if i == n - 1 {
            self.lemma_free_in_prefix_nonneg(n - 1);
        } else {
            self.lemma_free_in_prefix_at_least_one(i, n - 1);
        }
    }
}

} // verus!
