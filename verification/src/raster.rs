//! The raster pass of the two-pass protocol.
//!
//! The vertex stage transforms positions and forwards the draw's instance
//! index as a flat varying; the rasterizer and the depth test are fixed
//! hardware that decide which fragments survive. What the core owns is the
//! fragment stage — combining the flat instance index with the
//! rasterizer's primitive index into one packed geometry id — and the
//! writes of those ids into the packed-id render target, which starts the
//! frame cleared to the reserved sentinel.

use crate::id::{
    spec_pack, InstanceId, PackedGeometryId, TriangleId, INSTANCE_MASK, TRIANGLE_MASK,
};
use crate::image::{lemma_row_major_injective, Image2d};
use vstd::prelude::*;

verus! {

/// One fragment that survived rasterization and the depth test: a pixel
/// plus the two indices the raster shaders see for it.
#[derive(Copy, Clone, Debug)]
pub struct Fragment {
    pub x: u32,
    pub y: u32,
    /// The flat instance index the vertex stage emitted for the draw.
    pub instance_id: u32,
    /// The primitive index the rasterizer provides.
    pub primitive_id: u32,
}

impl Fragment {
    /// The fragment lies inside the render target and its indices fit
    /// their bit widths.
    pub open spec fn wf(self, img: Image2d<u32>) -> bool {
        &&& img.in_bounds(self.x as int, self.y as int)
        &&& self.instance_id & INSTANCE_MASK == self.instance_id
        &&& self.primitive_id & TRIANGLE_MASK == self.primitive_id
    }

    /// The packed geometry id this fragment writes.
    pub open spec fn spec_packed(self) -> u32 {
        spec_pack(self.instance_id, self.primitive_id)
    }

    pub open spec fn covers(self, x: int, y: int) -> bool {
        self.x == x && self.y == y
    }
}

/// The fragment stage of the raster pipeline: combines the flat instance
/// id with the rasterizer-provided primitive index into a packed geometry
/// id, the sole color output of the pass.
pub fn visibility_frag(vtx_instance_id: InstanceId, primitive_id: u32) -> (r: PackedGeometryId)
    requires
        primitive_id & TRIANGLE_MASK == primitive_id,
    ensures
        r@ == spec_pack(vtx_instance_id@, primitive_id),
{
    let triangle_id = TriangleId::new_unchecked(primitive_id);
    PackedGeometryId::new(vtx_instance_id, triangle_id)
}

/// The render target's contents after a sequence of fragments has been
/// written in order, each overwriting the pixel it covers.
pub open spec fn apply_fragments(s: Seq<u32>, width: int, frags: Seq<Fragment>) -> Seq<u32>
    decreases frags.len(),
{
    if frags.len() == 0 {
        s
    } else {
        apply_fragments(
            s.update(frags[0].y * width + frags[0].x, frags[0].spec_packed()),
            width,
            frags.subrange(1, frags.len() as int),
        )
    }
}

/// Appending one fragment to a write sequence updates one pixel of the
/// result.
pub proof fn lemma_apply_fragments_push(s: Seq<u32>, width: int, frags: Seq<Fragment>, f: Fragment)
    ensures
        apply_fragments(s, width, frags.push(f)) == apply_fragments(s, width, frags).update(
            f.y * width + f.x,
            f.spec_packed(),
        ),
    decreases frags.len(),
{
    let pushed = frags.push(f);
    if frags.len() == 0 {
        let s1 = s.update(f.y * width + f.x, f.spec_packed());
        assert(pushed[0] == f);
        assert(pushed.subrange(1, pushed.len() as int) =~= Seq::<Fragment>::empty());
        assert(apply_fragments(s1, width, Seq::<Fragment>::empty()) == s1);
        assert(apply_fragments(s, width, frags) == s);
    } else {
        let s1 = s.update(frags[0].y * width + frags[0].x, frags[0].spec_packed());
        assert(pushed[0] == frags[0]);
        assert(pushed.subrange(1, pushed.len() as int) =~= frags.subrange(
            1,
            frags.len() as int,
        ).push(f));
        lemma_apply_fragments_push(s1, width, frags.subrange(1, frags.len() as int), f);
    }
}

/// A pixel that no fragment covers keeps its value.
pub proof fn lemma_apply_fragments_uncovered(
    s: Seq<u32>,
    width: int,
    frags: Seq<Fragment>,
    x: int,
    y: int,
)
    requires
        forall|k: int| 0 <= k < frags.len() ==> (#[trigger] frags[k]).x < width && frags[k].y >= 0,
        forall|k: int|
            0 <= k < frags.len() ==> 0 <= (#[trigger] frags[k]).y * width + frags[k].x < s.len(),
        forall|k: int| 0 <= k < frags.len() ==> !(#[trigger] frags[k]).covers(x, y),
        0 <= x < width,
        0 <= y,
        0 <= y * width + x < s.len(),
    ensures
        apply_fragments(s, width, frags)[y * width + x] == s[y * width + x],
    decreases frags.len(),
{
    if frags.len() > 0 {
        let f = frags[0];
        let s2 = s.update(f.y * width + f.x, f.spec_packed());
        assert(s2.len() == s.len());
        lemma_row_major_injective(width, x, y, f.x as int, f.y as int);
        lemma_apply_fragments_uncovered(s2, width, frags.subrange(1, frags.len() as int), x, y);
    }
}

/// A pixel that some fragment covers holds the packed id of the last
/// fragment covering it.
pub proof fn lemma_apply_fragments_covered(
    s: Seq<u32>,
    width: int,
    frags: Seq<Fragment>,
    x: int,
    y: int,
)
    requires
        forall|k: int| 0 <= k < frags.len() ==> (#[trigger] frags[k]).x < width && frags[k].y >= 0,
        forall|k: int|
            0 <= k < frags.len() ==> 0 <= (#[trigger] frags[k]).y * width + frags[k].x < s.len(),
        exists|k: int| 0 <= k < frags.len() && (#[trigger] frags[k]).covers(x, y),
        0 <= x < width,
        0 <= y,
        0 <= y * width + x < s.len(),
    ensures
        exists|k: int|
            0 <= k < frags.len() && (#[trigger] frags[k]).covers(x, y) && apply_fragments(
                s,
                width,
                frags,
            )[y * width + x] == frags[k].spec_packed(),
    decreases frags.len(),
{
    assert(frags.len() > 0) by {
        let k0 = choose|k: int| 0 <= k < frags.len() && (#[trigger] frags[k]).covers(x, y);
    }
    let f = frags[0];
    let rest = frags.subrange(1, frags.len() as int);
    let s2 = s.update(f.y * width + f.x, f.spec_packed());
    assert(s2.len() == s.len());
    if exists|k: int| 0 <= k < rest.len() && (#[trigger] rest[k]).covers(x, y) {
        lemma_apply_fragments_covered(s2, width, rest, x, y);
        let k = choose|k: int|
            0 <= k < rest.len() && (#[trigger] rest[k]).covers(x, y) && apply_fragments(
                s2,
                width,
                rest,
            )[y * width + x] == rest[k].spec_packed();
        assert(frags[k + 1].covers(x, y) && apply_fragments(s, width, frags)[y * width + x]
            == frags[k + 1].spec_packed());
    } else {
        assert(f.covers(x, y)) by {
            let k0 = choose|k: int| 0 <= k < frags.len() && (#[trigger] frags[k]).covers(x, y);
            if k0 > 0 {
                assert(rest[k0 - 1].covers(x, y));
            }
        }
        lemma_apply_fragments_uncovered(s2, width, rest, x, y);
        assert(apply_fragments(s, width, frags)[y * width + x] == f.spec_packed());
    }
}

/// Writes a batch of surviving fragments into the packed-id render
/// target, in order. The result is exactly [`apply_fragments`] of the
/// previous contents: every covered pixel holds the packed id of the last
/// fragment covering it, every other pixel is untouched.
pub fn raster_fragments(img: &mut Image2d<u32>, frags: &Vec<Fragment>)
    requires
        old(img).wf(),
        forall|k: int| 0 <= k < frags@.len() ==> (#[trigger] frags@[k]).wf(*old(img)),
    ensures
        final(img).wf(),
        final(img).same_dims(*old(img)),
        final(img).spec_data() == apply_fragments(
            old(img).spec_data(),
            old(img).spec_width() as int,
            frags@,
        ),
{
    let n = frags.len();
    let mut k: usize = 0;
    while k < n
        invariant
            n == frags@.len(),
            k <= n,
            img.wf(),
            img.same_dims(*old(img)),
            forall|j: int| 0 <= j < frags@.len() ==> (#[trigger] frags@[j]).wf(*old(img)),
            img.spec_data() == apply_fragments(
                old(img).spec_data(),
                old(img).spec_width() as int,
                frags@.subrange(0, k as int),
            ),
        decreases n - k,
    {
        let f = frags[k];
        let instance_id = InstanceId::new_unchecked(f.instance_id);
        let packed = visibility_frag(instance_id, f.primitive_id);
        proof {
            assert(frags@[k as int].wf(*old(img)));
            lemma_apply_fragments_push(
                old(img).spec_data(),
                old(img).spec_width() as int,
                frags@.subrange(0, k as int),
                frags@[k as int],
            );
            assert(frags@.subrange(0, k as int + 1) =~= frags@.subrange(0, k as int).push(
                frags@[k as int],
            ));
        }
        img.write(f.x, f.y, packed.to_u32());
        k += 1;
    }
    proof {
        assert(frags@.subrange(0, n as int) =~= frags@);
    }
}

} // verus!
