//! Render list: the caller-facing builder that accumulates GPU-ready
//! instance records into one flat buffer plus an ordered list of draw
//! batches. Batches are kept in submission order — they are never merged or
//! reordered, so painter's-algorithm back-to-front compositing is preserved —
//! and the batch counts always sum to the number of accumulated instances.

use vstd::prelude::*;
use crate::INSTANCE_CAPACITY;
use crate::texture_cache::TextureCache;
use crate::types::{BlendMode, InstanceBatch, InstanceGPU, KelpError, KelpTargetId, KelpTextureId};

verus! {

/// Total number of instances the batches account for.
pub open spec fn batch_total(batches: Seq<InstanceBatch>) -> int
    decreases batches.len(),
{
    if batches.len() == 0 {
        0
    } else {
        batch_total(batches.drop_last()) + batches.last().instance_count
    }
}

/// Appending a batch adds its count to the total.
pub proof fn lemma_batch_total_push(batches: Seq<InstanceBatch>, b: InstanceBatch)
    ensures
        batch_total(batches.push(b)) == batch_total(batches) + b.instance_count,
{
    assert(batches.push(b).drop_last() =~= batches);
}

/// The total is never negative: every batch contributes a nonnegative
/// count.
pub proof fn lemma_batch_total_nonneg(batches: Seq<InstanceBatch>)
    ensures
        batch_total(batches) >= 0,
    decreases batches.len(),
{
    if batches.len() > 0 {
        lemma_batch_total_nonneg(batches.drop_last());
    }
}

/// The total also splits off at the front: the first batch's count plus the
/// rest.
pub proof fn lemma_batch_total_first(batches: Seq<InstanceBatch>)
    requires
        batches.len() > 0,
    ensures
        batch_total(batches) == batches[0].instance_count + batch_total(
            batches.subrange(1, batches.len() as int),
        ),
    decreases batches.len(),
{
    if batches.len() == 1 {
        assert(batch_total(batches) == batch_total(batches.drop_last())
            + batches.last().instance_count);
        assert(batches.drop_last().len() == 0);
        assert(batch_total(batches.drop_last()) == 0);
        assert(batches.last() == batches[0]);
        assert(batches.subrange(1, 1).len() == 0);
        assert(batch_total(batches.subrange(1, 1)) == 0);
    } else {
        let front = batches.drop_last();
        lemma_batch_total_first(front);
        assert(front[0] == batches[0]);
        assert(batch_total(batches) == batch_total(front) + batches.last().instance_count);
        assert(batches.subrange(1, batches.len() as int).drop_last() =~= front.subrange(
            1,
            front.len() as int,
        ));
        assert(batches.subrange(1, batches.len() as int).last() == batches.last());
        assert(batch_total(batches.subrange(1, batches.len() as int)) == batch_total(
            batches.subrange(1, batches.len() as int).drop_last(),
        ) + batches.last().instance_count);
    }
}

/// The data for a submitted render list: where to draw (the surface when no
/// target is named), the camera's view-projection matrix (sixteen 32-bit
/// float bit patterns, column-major), an optional clear color (four float
/// bit patterns; absent means the target's contents are preserved), the flat
/// instance buffer, and the ordered draw batches.
#[derive(Debug)]
pub struct RenderList {
    pub target: Option<KelpTargetId>,
    pub camera: [u32; 16],
    pub clear: Option<[u32; 4]>,
    pub instances: Vec<InstanceGPU>,
    pub batches: Vec<InstanceBatch>,
}

impl RenderList {
    /// Batch bookkeeping is consistent: the batch counts sum to the length
    /// of the instance buffer, which fits the per-frame instance budget.
    pub open spec fn wf(self) -> bool {
        &&& batch_total(self.batches@) == self.instances@.len()
        &&& self.instances@.len() <= INSTANCE_CAPACITY
    }

    /// Begins an empty render list.
    pub fn new(target: Option<KelpTargetId>, camera: [u32; 16], clear: Option<[u32; 4]>) -> (r:
        RenderList)
        ensures
            r.wf(),
            r.target == target,
            r.camera == camera,
            r.clear == clear,
            r.instances@.len() == 0,
            r.batches@.len() == 0,
    {
        RenderList { target, camera, clear, instances: Vec::new(), batches: Vec::new() }
    }

    /// Appends one batch descriptor and its instance records. Succeeds
    /// exactly when the texture handle is known to the cache; an unknown
    /// handle fails with `InvalidTextureId` and discards nothing. Each call
    /// appends its own batch: two calls with the same texture, smoothing
    /// and blend mode still produce two separate batches, in call order.
    pub fn add_instances(
        self,
        cache: &TextureCache,
        texture: KelpTextureId,
        smooth: bool,
        blend_mode: BlendMode,
        instance_data: &[InstanceGPU],
    ) -> (r: Result<RenderList, KelpError>)
        requires
            self.wf(),
            self.instances@.len() + instance_data@.len() <= INSTANCE_CAPACITY,
        ensures
            r is Ok <==> cache.has_texture(texture),
            r matches Err(e) ==> e == KelpError::InvalidTextureId,
            r matches Ok(l) ==> {
                &&& l.wf()
                &&& l.batches@ == self.batches@.push(
                    InstanceBatch {
                        texture,
                        smooth,
                        blend_mode,
                        instance_count: instance_data@.len() as u32,
                    },
                )
                &&& l.instances@ == self.instances@ + instance_data@
                &&& l.target == self.target
                &&& l.camera == self.camera
                &&& l.clear == self.clear
            },
    {
        match cache.get_texture(texture) {
            Err(_) => Err(KelpError::InvalidTextureId),
            Ok(_) => {
                let mut list = self;
                let ghost instances0 = list.instances@;
                let ghost batches0 = list.batches@;
                let count = instance_data.len() as u32;
                let batch = InstanceBatch { texture, smooth, blend_mode, instance_count: count };
                list.batches.push(batch);
                let n = instance_data.len();
                let mut i: usize = 0;
                while i < n
                    invariant
                        i <= n,
                        n == instance_data@.len(),
                        list.instances@ == instances0 + instance_data@.subrange(0, i as int),
                        list.batches@ == batches0.push(batch),
                        list.target == self.target,
                        list.camera == self.camera,
                        list.clear == self.clear,
                    decreases n - i,
                {
                    list.instances.push(instance_data[i]);
                    proof {
                        assert(instances0 + instance_data@.subrange(0, i + 1 as int) =~= (instances0
                            + instance_data@.subrange(0, i as int)).push(instance_data@[i as int]));
                    }
                    i = i + 1;
                }
                proof {
                    assert(list.instances@ =~= instances0 + instance_data@);
                    lemma_batch_total_push(batches0, batch);
                }
                Ok(list)
            },
        }
    }
}

} // verus!
