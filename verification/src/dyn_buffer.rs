//! Dynamic buffer-type tags.
//!
//! A shading dispatch is generic over "some material buffer type" chosen per
//! draw call, not at compile time. Each concrete element type is associated
//! with a process-unique 32-bit tag when it is registered; a type-erased
//! buffer reference carries the tag of the type it was erased from, and the
//! tag is the runtime discriminant that makes the erase/recover round trip
//! safe. Tag 0 is reserved for buffers whose type was never registered;
//! such a buffer can never be recovered to a concrete type.

use crate::descriptor::{DescRef, DescriptorTable, SharedDesc, StrongDesc, TransientDesc};
use core::marker::PhantomData;
use vstd::prelude::*;

verus! {

/// Reserved tag for a buffer whose concrete element type was never
/// registered. No registered tag ever equals it.
pub const UNDEFINED_TAG: u32 = 0;

/// A dynamic buffer-type tag without generics, able to stand for any
/// element type.
#[derive(Copy, Clone, Debug, Eq, PartialEq, Hash, Structural)]
pub struct DynBufferType(u32);

impl View for DynBufferType {
    type V = u32;

    closed spec fn view(&self) -> u32 {
        self.0
    }
}

impl DynBufferType {
    /// The reserved tag of buffers that cannot be recovered to a concrete
    /// type.
    pub fn undefined() -> (r: Self)
        ensures
            r@ == UNDEFINED_TAG,
    {
        DynBufferType(UNDEFINED_TAG)
    }

    pub fn to_u32(&self) -> (r: u32)
        ensures
            r == self@,
    {
        self.0
    }
}

/// The tag of one concrete element type `T`.
///
/// The registry is the only issuer of non-zero tags, and it never issues the
/// same tag twice, so holding a `BufferType<T>` is evidence that its tag
/// stands for `T` and for no other registered type.
#[verifier::reject_recursive_types(T)]
#[derive(Debug)]
pub struct BufferType<T> {
    id: DynBufferType,
    _phantom: PhantomData<T>,
}

impl<T> View for BufferType<T> {
    type V = u32;

    closed spec fn view(&self) -> u32 {
        self.id@
    }
}

impl<T> Clone for BufferType<T> {
    fn clone(&self) -> (r: Self)
        ensures
            r@ == self@,
    {
        BufferType { id: self.id, _phantom: PhantomData }
    }
}

impl<T> Copy for BufferType<T> {

}

impl<T> BufferType<T> {
    /// Builds a tag from a raw id. The id must already be uniquely
    /// associated with `T`; the registry upholds this for every id it
    /// issues, so use the registry instead wherever possible.
    pub fn new_unchecked(id: u32) -> (r: Self)
        ensures
            r@ == id,
    {
        BufferType { id: DynBufferType(id), _phantom: PhantomData }
    }

    /// Forgets which element type this tag stands for.
    pub fn to_untyped(&self) -> (r: DynBufferType)
        ensures
            r@ == self@,
    {
        self.id
    }

    pub fn to_u32(&self) -> (r: u32)
        ensures
            r == self@,
    {
        self.id.0
    }
}

/// Issues dynamic buffer-type tags: a single monotonically increasing
/// counter, starting above the reserved undefined tag and never reused.
pub struct DynBufferTypeRegistry {
    next: u32,
}

impl DynBufferTypeRegistry {
    /// The tag the next registration will receive.
    pub closed spec fn spec_next(self) -> u32 {
        self.next
    }

    /// The counter starts past the reserved undefined tag and only grows.
    pub open spec fn wf(self) -> bool {
        self.spec_next() >= 1
    }

    /// Every tag issued so far.
    pub open spec fn issued(self) -> Set<u32> {
        Set::new(|t: u32| 1 <= t < self.spec_next())
    }

    pub fn new() -> (r: Self)
        ensures
            r.wf(),
            r.spec_next() == 1,
            r.issued() =~= Set::<u32>::empty(),
    {
        DynBufferTypeRegistry { next: 1 }
    }

    /// Registers a new dynamic buffer type and returns its fresh tag.
    ///
    /// Every returned tag differs from every previously issued one and from
    /// the reserved undefined tag. Exhausting the counter would permit tag
    /// collisions, so the final counter value is never handed out.
    pub fn register_dyn_buffer_type<T>(&mut self) -> (r: BufferType<T>)
        requires
            old(self).wf(),
            old(self).spec_next() < u32::MAX,
        ensures
            final(self).wf(),
            r@ == old(self).spec_next(),
            final(self).spec_next() == old(self).spec_next() + 1,
            !old(self).issued().contains(r@),
            r@ != UNDEFINED_TAG,
            final(self).issued() =~= old(self).issued().insert(r@),
    {
        let id = self.next;
        self.next = self.next + 1;
        proof {
            assert forall|t: u32| self.issued().contains(t) implies old(self).issued().insert(
                id,
            ).contains(t) by {}
            assert forall|t: u32| old(self).issued().insert(id).contains(t) implies self.issued()
                .contains(t) by {}
        }
        BufferType::new_unchecked(id)
    }
}

/// Tags issued in sequence are pairwise distinct: every issued tag stays
/// in the registry's issued set, and each registration returns a tag from
/// outside it, so no two registrations can ever agree.
pub proof fn lemma_registered_tags_distinct(
    pre: DynBufferTypeRegistry,
    post: DynBufferTypeRegistry,
    earlier: u32,
    fresh: u32,
)
    requires
        pre.issued().contains(earlier),
        post.issued() == pre.issued().insert(fresh),
        !pre.issued().contains(fresh),
    ensures
        fresh != earlier,
        post.issued().contains(earlier),
        post.issued().contains(fresh),
{
}

/// A buffer reference whose element type is unidentified: a descriptor
/// reference of any ownership class paired with the dynamic tag of the
/// type it was erased from. Check [`DynBuffer::can_upcast`] and recover
/// the typed reference with [`DynBuffer::upcast`].
pub struct DynBuffer<R: DescRef> {
    id: DynBufferType,
    desc: R,
}

impl<R: DescRef + Copy> Clone for DynBuffer<R> {
    fn clone(&self) -> (r: Self)
        ensures
            r == *self,
    {
        DynBuffer { id: self.id, desc: self.desc }
    }
}

impl<R: DescRef + Copy> Copy for DynBuffer<R> {

}

impl<R: DescRef> DynBuffer<R> {
    /// The tag of the element type this buffer was erased from.
    pub closed spec fn spec_id(self) -> u32 {
        self.id@
    }

    /// The underlying descriptor reference.
    pub closed spec fn spec_desc(self) -> R {
        self.desc
    }

    /// Erases a buffer reference, remembering its element type's tag.
    pub fn new<T>(type_id: BufferType<T>, desc: R) -> (r: Self)
        ensures
            r.spec_id() == type_id@,
            r.spec_desc() == desc,
    {
        DynBuffer { id: type_id.to_untyped(), desc }
    }

    /// Erases a buffer reference irrecoverably: the undefined tag matches
    /// no registered type, so the result can never be upcast.
    pub fn new_undefined(desc: R) -> (r: Self)
        ensures
            r.spec_id() == UNDEFINED_TAG,
            r.spec_desc() == desc,
    {
        DynBuffer { id: DynBufferType::undefined(), desc }
    }

    /// Whether this buffer can be recovered as the element type the given
    /// tag stands for: true exactly when the tags are equal.
    pub fn can_upcast(&self, type_id: &DynBufferType) -> (r: bool)
        ensures
            r == (self.spec_id() == type_id@),
    {
        self.id == *type_id
    }

    /// Recovers the typed reference. Calling this with a tag other than
    /// the one the buffer was erased with is a programmer error, fatal by
    /// design; check with [`Self::can_upcast`] first.
    pub fn upcast<T>(self, type_id: BufferType<T>) -> (r: R)
        requires
            self.spec_id() == type_id@,
        ensures
            r == self.spec_desc(),
    {
        self.desc
    }

    /// The erased tag, for re-wrapping a converted reference.
    pub fn type_id(&self) -> (r: DynBufferType)
        ensures
            r@ == self.spec_id(),
    {
        self.id
    }
}

impl<T> DynBuffer<SharedDesc<T>> {
    /// Produces a GPU-embeddable erased reference to the same buffer,
    /// taking one extra share of its slot.
    pub fn to_strong(&self, table: &mut DescriptorTable<T>) -> (r: DynBuffer<StrongDesc<T>>)
        requires
            old(table).wf(),
            old(table).shared_valid(self.spec_desc()),
            old(table).refcount_at(self.spec_desc().spec_index()) < u64::MAX,
        ensures
            final(table).wf(),
            r.spec_id() == self.spec_id(),
            r.spec_desc().spec_index() == self.spec_desc().spec_index(),
            r.spec_desc().spec_content() == self.spec_desc().spec_content(),
            final(table).strong_valid(r.spec_desc()),
            final(table).shared_valid(self.spec_desc()),
            final(table).spec_len() == old(table).spec_len(),
            final(table).spec_capacity() == old(table).spec_capacity(),
            final(table).spec_recording() == old(table).spec_recording(),
            final(table).spec_completed() == old(table).spec_completed(),
            final(table).spec_free_room() == old(table).spec_free_room(),
            final(table).refcount_at(self.spec_desc().spec_index()) == old(table).refcount_at(
                self.spec_desc().spec_index(),
            ) + 1,
            final(table).payload_at(self.spec_desc().spec_index()) == old(table).payload_at(
                self.spec_desc().spec_index(),
            ),
            final(table).retire_at(self.spec_desc().spec_index()) == old(table).retire_at(
                self.spec_desc().spec_index(),
            ),
            forall|j: int|
                0 <= j < old(table).spec_len() && j != self.spec_desc().spec_index()
                    ==> #[trigger] crate::descriptor::slot_unchanged(*old(table), *final(table), j),
            crate::descriptor::transients_preserved(*old(table), *final(table)),
    {
        let strong = table.to_strong(&self.desc);
        DynBuffer { id: self.id, desc: strong }
    }

    /// Produces an erased reference valid for the unit of work currently
    /// being recorded.
    pub fn to_transient(&self, table: &DescriptorTable<T>) -> (r: DynBuffer<TransientDesc<T>>)
        requires
            table.wf(),
            table.shared_valid(self.spec_desc()),
        ensures
            r.spec_id() == self.spec_id(),
            r.spec_desc().spec_index() == self.spec_desc().spec_index(),
            r.spec_desc().spec_content() == self.spec_desc().spec_content(),
            r.spec_desc().spec_submission() == table.spec_recording(),
            table.transient_valid(r.spec_desc()),
    {
        let transient = table.to_transient(&self.desc);
        DynBuffer { id: self.id, desc: transient }
    }
}

} // verus!
