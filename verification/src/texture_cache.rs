//! Texture cache: maps opaque texture handles to their atlas allocations and
//! render-target handles to target metadata. Handles are indices assigned
//! monotonically and never reused within a session; resolution of an unknown
//! handle fails with the documented error and never panics.

use vstd::prelude::*;
use crate::atlas::{
    lemma_atlas_allocations_disjoint, lemma_within_disjoint, rect_pad, rect_valid, rect_within,
    rects_disjoint, Atlas, Rect,
};
use crate::types::{KelpError, KelpTargetId, KelpTextureId};

verus! {

/// Where a logical texture lives: its handle, its atlas layer, and its
/// rectangle in atlas pixel space (excluding the separation border).
#[derive(Debug, Copy, Clone, PartialEq, Eq, Structural)]
pub struct TextureAllocation {
    pub id: KelpTextureId,
    pub layer: u32,
    pub rectangle: Rect,
}

/// Metadata of an off-screen render target texture.
#[derive(Debug, Copy, Clone, PartialEq, Eq, Structural)]
pub struct TargetInfo {
    pub width: u32,
    pub height: u32,
}

/// The allocation record at slot `i` is consistent: its handle is the slot
/// index, it names an existing layer, and its rectangle is in bounds.
pub open spec fn texture_alloc_ok(a: TextureAllocation, i: int, num_layers: u32) -> bool {
    &&& a.id.id == i
    &&& a.layer < num_layers
    &&& rect_valid(a.rectangle)
}

/// Maps texture handles to atlas allocations and target handles to target
/// metadata. Nothing is ever evicted: handles stay valid for the session.
pub struct TextureCache {
    pub atlas: Atlas,
    pub textures: Vec<TextureAllocation>,
    pub targets: Vec<TargetInfo>,
}

impl TextureCache {
    /// The cache's invariant: the atlas invariant holds, every texture
    /// record is consistent with its slot, and the live atlas footprints are
    /// exactly the padded rectangles of the cached textures, in creation
    /// order.
    pub open spec fn wf(self) -> bool {
        &&& self.atlas.wf()
        &&& self.textures@.len() <= u32::MAX
        &&& forall|i: int|
            0 <= i < self.textures@.len() ==> texture_alloc_ok(
                #[trigger] self.textures@[i],
                i,
                self.atlas.num_layers,
            )
        &&& self.atlas.taken@.len() == self.textures@.len()
        &&& forall|i: int|
            0 <= i < self.textures@.len() ==> self.atlas.taken@[i] == (
                (#[trigger] self.textures@[i]).layer,
                rect_pad(self.textures@[i].rectangle),
            )
    }

    /// The texture handle is known to the cache.
    pub open spec fn has_texture(self, texture_id: KelpTextureId) -> bool {
        texture_id.id < self.textures@.len()
    }

    /// The target handle is known to the cache.
    pub open spec fn has_target(self, target_id: KelpTargetId) -> bool {
        target_id.id < self.targets@.len()
    }

    /// A fresh cache over a fresh single-layer atlas.
    pub fn new() -> (r: Self)
        ensures
            r.wf(),
            r.textures@.len() == 0,
            r.targets@.len() == 0,
            r.atlas.taken@.len() == 0,
            r.atlas.num_layers == 1,
    {
        TextureCache { atlas: Atlas::new(), textures: Vec::new(), targets: Vec::new() }
    }

    /// Allocates atlas space for a new `width` by `height` texture and hands
    /// out a fresh handle. Succeeds exactly when the atlas can still fit the
    /// allocation and handle space remains; fails with `AtlasFull` otherwise.
    pub fn new_texture_alloc(&mut self, width: u32, height: u32) -> (r: Result<
        KelpTextureId,
        KelpError,
    >)
        requires
            old(self).wf(),
        ensures
            final(self).wf(),
            r is Ok <==> (old(self).atlas.can_allocate(width, height) && old(self).textures@.len()
                < u32::MAX),
            r matches Err(e) ==> e == KelpError::AtlasFull && *final(self) == *old(self),
            r matches Ok(id) ==> {
                &&& id.id == old(self).textures@.len()
                &&& final(self).textures@.len() == old(self).textures@.len() + 1
                &&& final(self).textures@.drop_last() == old(self).textures@
                &&& final(self).textures@.last().id == id
                &&& final(self).textures@.last().rectangle.max_x
                    - final(self).textures@.last().rectangle.min_x == width
                &&& final(self).textures@.last().rectangle.max_y
                    - final(self).textures@.last().rectangle.min_y == height
                &&& final(self).atlas.taken@ == old(self).atlas.taken@.push(
                    (final(self).textures@.last().layer, rect_pad(final(self).textures@.last().rectangle)),
                )
                &&& final(self).targets@ == old(self).targets@
            },
    {
        if self.textures.len() >= u32::MAX as usize {
            return Err(KelpError::AtlasFull);
        }
        match self.atlas.allocate(width, height) {
            None => Err(KelpError::AtlasFull),
            Some((layer, rectangle)) => {
                let id = KelpTextureId { id: self.textures.len() as u32 };
                let ghost textures0 = self.textures@;
                self.textures.push(TextureAllocation { id, layer, rectangle });
                proof {
                    assert forall|i: int|
                        0 <= i < self.textures@.len() implies texture_alloc_ok(
                        #[trigger] self.textures@[i],
                        i,
                        self.atlas.num_layers,
                    ) by {
                        if i < textures0.len() {
                            assert(self.textures@[i] == textures0[i]);
                            assert(texture_alloc_ok(textures0[i], i, old(self).atlas.num_layers));
                        }
                    }
                    assert(self.textures@.drop_last() == textures0);
                }
                Ok(id)
            },
        }
    }

    /// Registers a new off-screen render target and hands out a fresh handle.
    pub fn insert_target(&mut self, width: u32, height: u32) -> (r: KelpTargetId)
        requires
            old(self).wf(),
            old(self).targets@.len() < u32::MAX,
        ensures
            final(self).wf(),
            r.id == old(self).targets@.len(),
            final(self).targets@ == old(self).targets@.push(TargetInfo { width, height }),
            final(self).textures@ == old(self).textures@,
            final(self).atlas == old(self).atlas,
    {
        let id = KelpTargetId { id: self.targets.len() as u32 };
        self.targets.push(TargetInfo { width, height });
        id
    }

    /// Resolves a texture handle to its allocation. Succeeds exactly for
    /// handles this cache handed out; an unknown handle fails with
    /// `InvalidTextureId`.
    pub fn get_texture(&self, texture_id: KelpTextureId) -> (r: Result<TextureAllocation, KelpError>)
        ensures
            r is Ok <==> self.has_texture(texture_id),
            r matches Ok(a) ==> a == self.textures@[texture_id.id as int],
            r matches Err(e) ==> e == KelpError::InvalidTextureId,
    {
        if (texture_id.id as usize) < self.textures.len() {
            Ok(self.textures[texture_id.id as usize])
        } else {
            Err(KelpError::InvalidTextureId)
        }
    }

    /// Any two distinct textures that share an atlas layer occupy disjoint
    /// rectangles: packing never overlaps live textures, and the one-pixel
    /// separation border of the padded footprints keeps even their far edges
    /// apart.
    pub proof fn lemma_texture_rects_disjoint(self, i: int, j: int)
        requires
            self.wf(),
            0 <= i < self.textures@.len(),
            0 <= j < self.textures@.len(),
            i != j,
            self.textures@[i].layer == self.textures@[j].layer,
        ensures
            rects_disjoint(self.textures@[i].rectangle, self.textures@[j].rectangle),
    {
        let a = self.textures@[i].rectangle;
        let b = self.textures@[j].rectangle;
        assert(texture_alloc_ok(self.textures@[i], i, self.atlas.num_layers));
        assert(texture_alloc_ok(self.textures@[j], j, self.atlas.num_layers));
        lemma_atlas_allocations_disjoint(self.atlas, i, j);
        assert(rect_within(a, rect_pad(a)) && rect_within(b, rect_pad(b)));
        lemma_within_disjoint(a, rect_pad(a), rect_pad(b));
        lemma_within_disjoint(b, rect_pad(b), a);
    }

    /// Resolves a render-target handle to its metadata. Succeeds exactly for
    /// handles this cache handed out; an unknown handle fails with
    /// `InvalidTargetId`.
    pub fn get_target(&self, target_id: KelpTargetId) -> (r: Result<TargetInfo, KelpError>)
        ensures
            r is Ok <==> self.has_target(target_id),
            r matches Ok(t) ==> t == self.targets@[target_id.id as int],
            r matches Err(e) ==> e == KelpError::InvalidTargetId,
    {
        if (target_id.id as usize) < self.targets.len() {
            Ok(self.targets[target_id.id as usize])
        } else {
            Err(KelpError::InvalidTargetId)
        }
    }
}

} // verus!
