//! Packed geometry identifiers.
//!
//! The raster pass writes one 32-bit word per pixel that names the triangle
//! covering it: the triangle index occupies the low `TRIANGLE_BITS` bits and
//! the instance index the next `INSTANCE_BITS` bits. The two fields tile the
//! word exactly, and the all-ones pattern is reserved as the "no geometry
//! here" sentinel that the render target is cleared to.

use vstd::prelude::*;

verus! {

/// Width in bits of the triangle field of a packed geometry id.
pub const TRIANGLE_BITS: u32 = 20;
/// Width in bits of the instance field of a packed geometry id.
pub const INSTANCE_BITS: u32 = 12;

/// Largest value a triangle id can hold: `TRIANGLE_BITS` ones.
pub const TRIANGLE_MASK: u32 = 0xF_FFFF;
/// Largest value an instance id can hold: `INSTANCE_BITS` ones.
pub const INSTANCE_MASK: u32 = 0xFFF;

/// Bit position of the triangle field inside the packed word.
pub const TRIANGLE_SHIFT: u32 = 0;
/// Bit position of the instance field inside the packed word.
pub const INSTANCE_SHIFT: u32 = TRIANGLE_SHIFT + TRIANGLE_BITS;

/// The reserved all-ones packed value meaning "no geometry at this pixel".
pub const CLEAR_VALUE: u32 = !0u32;

/// The packed word that a valid `(instance, triangle)` pair produces.
pub open spec fn spec_pack(instance: u32, triangle: u32) -> u32 {
    ((instance & INSTANCE_MASK) << INSTANCE_SHIFT) | ((triangle & TRIANGLE_MASK) << TRIANGLE_SHIFT)
}

/// The instance field recovered from a packed word.
pub open spec fn spec_unpack_instance(v: u32) -> u32 {
    (v >> INSTANCE_SHIFT) & INSTANCE_MASK
}

/// The triangle field recovered from a packed word.
pub open spec fn spec_unpack_triangle(v: u32) -> u32 {
    (v >> TRIANGLE_SHIFT) & TRIANGLE_MASK
}

/// Whether a packed word is the reserved clear sentinel.
pub open spec fn spec_is_clear(v: u32) -> bool {
    v == CLEAR_VALUE
}

/// Index of a triangle within its model, at most `TRIANGLE_MASK`.
#[derive(Copy, Clone, Debug, Eq, PartialEq, Hash, Structural)]
pub struct TriangleId(u32);

/// Range error: a triangle id value does not fit in `TRIANGLE_BITS` bits.
#[derive(Clone, Debug)]
pub struct TriangleIdOutOfRange;

impl View for TriangleId {
    type V = u32;

    closed spec fn view(&self) -> u32 {
        self.0
    }
}

impl TriangleId {
    /// A triangle id always fits its allotted bit width.
    pub open spec fn wf(self) -> bool {
        self@ & TRIANGLE_MASK == self@
    }

    /// Creates a new `TriangleId`, rejecting values too large to be
    /// represented by `TRIANGLE_BITS` bits.
    pub fn new(id: u32) -> (r: Result<Self, TriangleIdOutOfRange>)
        ensures
            r is Ok <==> id & TRIANGLE_MASK == id,
            r is Ok ==> r->Ok_0@ == id && r->Ok_0.wf(),
    {
        if id == id & TRIANGLE_MASK {
            Ok(TriangleId(id))
        } else {
            Err(TriangleIdOutOfRange)
        }
    }

    /// Creates a `TriangleId` from a value already known to fit, such as the
    /// primitive index the rasterizer hands to the fragment stage.
    pub fn new_unchecked(id: u32) -> (r: Self)
        requires
            id & TRIANGLE_MASK == id,
        ensures
            r@ == id,
            r.wf(),
    {
        TriangleId(id)
    }

    pub fn to_u32(&self) -> (r: u32)
        ensures
            r == self@,
    {
        self.0
    }

    pub fn to_usize(&self) -> (r: usize)
        ensures
            r == self@ as usize,
    {
        self.0 as usize
    }
}

/// Index of an instance within the scene, at most `INSTANCE_MASK`.
#[derive(Copy, Clone, Debug, Eq, PartialEq, Hash, Structural)]
pub struct InstanceId(u32);

/// Range error: an instance id value does not fit in `INSTANCE_BITS` bits.
#[derive(Clone, Debug)]
pub struct InstanceIdOutOfRange;

impl View for InstanceId {
    type V = u32;

    closed spec fn view(&self) -> u32 {
        self.0
    }
}

impl InstanceId {
    /// An instance id always fits its allotted bit width.
    pub open spec fn wf(self) -> bool {
        self@ & INSTANCE_MASK == self@
    }

    /// Creates a new `InstanceId`, rejecting values too large to be
    /// represented by `INSTANCE_BITS` bits.
    pub fn new(id: u32) -> (r: Result<Self, InstanceIdOutOfRange>)
        ensures
            r is Ok <==> id & INSTANCE_MASK == id,
            r is Ok ==> r->Ok_0@ == id && r->Ok_0.wf(),
    {
        if id == id & INSTANCE_MASK {
            Ok(InstanceId(id))
        } else {
            Err(InstanceIdOutOfRange)
        }
    }

    /// Creates an `InstanceId` from a value already known to fit, such as the
    /// instance index the vertex stage receives for a draw.
    pub fn new_unchecked(id: u32) -> (r: Self)
        requires
            id & INSTANCE_MASK == id,
        ensures
            r@ == id,
            r.wf(),
    {
        InstanceId(id)
    }

    pub fn to_u32(&self) -> (r: u32)
        ensures
            r == self@,
    {
        self.0
    }

    pub fn to_usize(&self) -> (r: usize)
        ensures
            r == self@ as usize,
    {
        self.0 as usize
    }
}

/// The unpacked form of a per-pixel identifier. `is_clear` is true only for
/// the reserved sentinel, whose instance and triangle fields carry no
/// meaning.
#[derive(Copy, Clone, Debug, Eq, PartialEq, Hash, Structural)]
pub struct GeometryId {
    pub instance_id: InstanceId,
    pub triangle_id: TriangleId,
    pub is_clear: bool,
}

impl GeometryId {
    pub fn pack(&self) -> (r: PackedGeometryId)
        ensures
            r@ == spec_pack(self.instance_id@, self.triangle_id@),
    {
        PackedGeometryId::new(self.instance_id, self.triangle_id)
    }
}

/// The wire form of a geometry id: one 32-bit word per pixel.
#[derive(Copy, Clone, Debug, Eq, PartialEq, Hash, Structural)]
pub struct PackedGeometryId(u32);

impl View for PackedGeometryId {
    type V = u32;

    closed spec fn view(&self) -> u32 {
        self.0
    }
}

impl PackedGeometryId {
    /// The packed value render targets are cleared to: no geometry anywhere.
    pub fn clear() -> (r: Self)
        ensures
            r@ == CLEAR_VALUE,
    {
        PackedGeometryId(CLEAR_VALUE)
    }

    pub fn new(instance_id: InstanceId, triangle_id: TriangleId) -> (r: Self)
        ensures
            r@ == spec_pack(instance_id@, triangle_id@),
    {
        let value: u32 = ((instance_id.to_u32() & INSTANCE_MASK) << INSTANCE_SHIFT) | ((
        triangle_id.to_u32() & TRIANGLE_MASK) << TRIANGLE_SHIFT);
        PackedGeometryId(value)
    }

    /// Total: recovers the exact instance and triangle fields of any
    /// non-sentinel word, and reports `is_clear` for the sentinel.
    pub fn unpack(&self) -> (r: GeometryId)
        ensures
            r.instance_id@ == spec_unpack_instance(self@),
            r.triangle_id@ == spec_unpack_triangle(self@),
            r.is_clear == spec_is_clear(self@),
            r.instance_id.wf(),
            r.triangle_id.wf(),
    {
        let v = self.0;
        proof {
            assert(((v >> INSTANCE_SHIFT) & INSTANCE_MASK) & INSTANCE_MASK == (v >> INSTANCE_SHIFT)
                & INSTANCE_MASK) by (bit_vector);
            assert(((v >> TRIANGLE_SHIFT) & TRIANGLE_MASK) & TRIANGLE_MASK == (v >> TRIANGLE_SHIFT)
                & TRIANGLE_MASK) by (bit_vector);
        }
        GeometryId {
            instance_id: InstanceId::new_unchecked((v >> INSTANCE_SHIFT) & INSTANCE_MASK),
            triangle_id: TriangleId::new_unchecked((v >> TRIANGLE_SHIFT) & TRIANGLE_MASK),
            is_clear: self.is_clear(),
        }
    }

    pub fn is_clear(&self) -> (r: bool)
        ensures
            r == spec_is_clear(self@),
    {
        self.0 == CLEAR_VALUE
    }

    /// Reinterprets a raw word, such as one fetched back from the packed-id
    /// image, as a packed geometry id. Total.
    pub fn from_u32(value: u32) -> (r: Self)
        ensures
            r@ == value,
    {
        PackedGeometryId(value)
    }

    pub fn to_u32(&self) -> (r: u32)
        ensures
            r == self@,
    {
        self.0
    }
}

/// The two bit fields tile the packed word exactly: the masks hold as many
/// ones as the field widths, the widths sum to 32, the shifted masks
/// together cover every bit, and they do not overlap.
pub proof fn lemma_bit_layout()
    ensures
        TRIANGLE_BITS + INSTANCE_BITS == 32,
        TRIANGLE_MASK + 1 == 1u32 << TRIANGLE_BITS,
        INSTANCE_MASK + 1 == 1u32 << INSTANCE_BITS,
        (TRIANGLE_MASK << TRIANGLE_SHIFT) | (INSTANCE_MASK << INSTANCE_SHIFT) == !0u32,
        (TRIANGLE_MASK << TRIANGLE_SHIFT) & (INSTANCE_MASK << INSTANCE_SHIFT) == 0,
{
    assert(TRIANGLE_MASK + 1 == 1u32 << TRIANGLE_BITS) by (bit_vector);
    assert(INSTANCE_MASK + 1 == 1u32 << INSTANCE_BITS) by (bit_vector);
    assert((TRIANGLE_MASK << TRIANGLE_SHIFT) | (INSTANCE_MASK << INSTANCE_SHIFT) == !0u32)
        by (bit_vector);
    assert((TRIANGLE_MASK << TRIANGLE_SHIFT) & (INSTANCE_MASK << INSTANCE_SHIFT) == 0)
        by (bit_vector);
}

/// Packing then unpacking recovers any in-range pair exactly, and the packed
/// word collides with the reserved sentinel for exactly one pair: both
/// fields at their maximum.
pub proof fn lemma_pack_unpack_round_trip(instance: u32, triangle: u32)
    requires
        instance & INSTANCE_MASK == instance,
        triangle & TRIANGLE_MASK == triangle,
    ensures
        spec_unpack_instance(spec_pack(instance, triangle)) == instance,
        spec_unpack_triangle(spec_pack(instance, triangle)) == triangle,
        spec_pack(instance, triangle) == CLEAR_VALUE <==> instance == INSTANCE_MASK && triangle
            == TRIANGLE_MASK,
{
    assert(spec_unpack_instance(spec_pack(instance, triangle)) == instance) by (bit_vector)
        requires
            instance & INSTANCE_MASK == instance,
    ;
    assert(spec_unpack_triangle(spec_pack(instance, triangle)) == triangle) by (bit_vector)
        requires
            triangle & TRIANGLE_MASK == triangle,
    ;
    assert(spec_pack(instance, triangle) == CLEAR_VALUE <==> instance == INSTANCE_MASK && triangle
        == TRIANGLE_MASK) by (bit_vector)
        requires
            instance & INSTANCE_MASK == instance,
            triangle & TRIANGLE_MASK == triangle,
    ;
}

/// The reserved sentinel always unpacks with `is_clear` set, however its
/// instance and triangle fields are read.
pub proof fn lemma_clear_sentinel()
    ensures
        spec_is_clear(CLEAR_VALUE),
{
}

/// Unpacking then repacking is the identity on every 32-bit word: the two
/// fields tile the word with nothing left over, so the codec is a
/// bijection between words and in-range pairs.
pub proof fn lemma_unpack_pack_identity(v: u32)
    ensures
        spec_pack(spec_unpack_instance(v), spec_unpack_triangle(v)) == v,
{
    assert(spec_pack(spec_unpack_instance(v), spec_unpack_triangle(v)) == v) by (bit_vector);
}

} // verus!
