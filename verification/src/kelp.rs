//! Frame/pass orchestrator: owns the caches and the per-frame state machine
//! (idle, then one active frame at a time), and turns submitted render lists
//! into plans — which GPU objects to create, where to write the instance
//! buffer, and the coalesced command stream of one render pass. A backend
//! executes the plans against the real device and queue; every decision is
//! made here.

use vstd::prelude::*;
use crate::{INSTANCE_BYTES, INSTANCE_CAPACITY};
use crate::key_cache::{ensure_keys, key_index, lemma_ensure_keys_push, lemma_key_index_in_range, lemma_key_index_unique};
use crate::pipeline_cache::{pipeline_key, PipelineCache, PipelineId};
use crate::render_list::{batch_total, lemma_batch_total_first, lemma_batch_total_nonneg, RenderList};
use crate::texture_bind_group_cache::{TextureBindGroupCache, TextureBindGroupId};
use crate::atlas::rect_valid;
use crate::texture_cache::{texture_alloc_ok, TextureCache};
use crate::types::{InstanceBatch, KelpError, KelpTargetId, KelpTextureId};

verus! {

/// State that exists only while a frame is active: the running write offset
/// into the instance buffer and whether a UI overlay pass was recorded.
#[derive(Debug, Clone, Copy, PartialEq, Eq, Structural)]
pub struct PerFrame {
    pub instance_offset: u32,
    pub has_ui: bool,
}

/// One step of a render pass, in execution order. Pipeline and bind-group
/// state is only set when it differs from the previous batch; a draw covers
/// the instance-buffer rows `start..end` with one instanced quad call.
#[derive(Debug, Clone, Copy, PartialEq, Eq, Structural)]
pub enum DrawCommand {
    SetPipeline { index: usize },
    SetBindGroup { index: usize },
    Draw { start: u32, end: u32 },
}

/// The command encoders of one frame, in the order their command buffers
/// must be submitted to the queue: buffer uploads first, then the draw
/// commands that read them, then the optional UI overlay.
#[derive(Debug, Clone, Copy, PartialEq, Eq, Structural)]
pub enum EncoderKind {
    Buffer,
    Draw,
    Ui,
}

/// Where pixel bytes go in the shared atlas texture: layer, origin, extent,
/// and the row stride of the tightly packed RGBA8 data.
#[derive(Debug, Clone, Copy, PartialEq, Eq, Structural)]
pub struct TextureWrite {
    pub layer: u32,
    pub x: u32,
    pub y: u32,
    pub width: u32,
    pub height: u32,
    pub bytes_per_row: u32,
}

/// Everything a backend must do for one submitted render list: create the
/// newly cached pipelines and bind groups (in cache order, extending its
/// own object lists), write the list's instances at the given byte offset
/// of the instance buffer, then record the commands into a render pass on
/// the given target, cleared or preserved as requested.
#[derive(Debug)]
pub struct RenderPassPlan {
    pub new_pipelines: Vec<PipelineId>,
    pub new_bind_groups: Vec<TextureBindGroupId>,
    pub instance_byte_offset: u64,
    pub target: Option<KelpTargetId>,
    pub clear: Option<[u32; 4]>,
    pub camera: [u32; 16],
    pub commands: Vec<DrawCommand>,
}

/// How to finish a frame: submit the listed encoders' command buffers in
/// exactly this order, then present the surface.
#[derive(Debug)]
pub struct PresentPlan {
    pub encoders: Vec<EncoderKind>,
}

/// The pipeline key a batch resolves to: the default shader with the
/// batch's blend mode.
pub open spec fn batch_pipeline_key(b: InstanceBatch) -> PipelineId {
    pipeline_key(None, b.blend_mode)
}

/// The bind-group key a batch resolves to.
pub open spec fn batch_bind_key(b: InstanceBatch) -> TextureBindGroupId {
    TextureBindGroupId { texture_id: b.texture, smooth: b.smooth }
}

/// The pipeline keys of the batches, in batch order.
pub open spec fn pipeline_keys_of(batches: Seq<InstanceBatch>) -> Seq<PipelineId> {
    batches.map_values(|b: InstanceBatch| batch_pipeline_key(b))
}

/// The bind-group keys of the batches, in batch order.
pub open spec fn bind_keys_of(batches: Seq<InstanceBatch>) -> Seq<TextureBindGroupId> {
    batches.map_values(|b: InstanceBatch| batch_bind_key(b))
}

/// The command stream of a render pass over `batches`, starting at instance
/// slot `offset` with pipeline `prev_p` and bind group `prev_b` bound
/// (`-1`: nothing bound yet). Batches are drawn in submission order; state
/// commands are emitted only when the resolved index differs from what is
/// bound, and each batch gets exactly one draw covering its instances.
pub open spec fn plan_commands(
    batches: Seq<InstanceBatch>,
    pkeys: Seq<PipelineId>,
    bkeys: Seq<TextureBindGroupId>,
    prev_p: int,
    prev_b: int,
    offset: int,
) -> Seq<DrawCommand>
    decreases batches.len(),
{
    if batches.len() == 0 {
        Seq::empty()
    } else {
        let b = batches[0];
        let pi = key_index(pkeys, batch_pipeline_key(b));
        let bi = key_index(bkeys, batch_bind_key(b));
        let set_p: Seq<DrawCommand> = if pi == prev_p {
            Seq::empty()
        } else {
            seq![DrawCommand::SetPipeline { index: pi as usize }]
        };
        let set_b: Seq<DrawCommand> = if bi == prev_b {
            Seq::empty()
        } else {
            seq![DrawCommand::SetBindGroup { index: bi as usize }]
        };
        let draw = seq![
            DrawCommand::Draw {
                start: offset as u32,
                end: (offset + b.instance_count) as u32,
            },
        ];
        set_p + set_b + draw + plan_commands(
            batches.subrange(1, batches.len() as int),
            pkeys,
            bkeys,
            pi,
            bi,
            offset + b.instance_count,
        )
    }
}

/// The thin 2D renderer: surface configuration, texture / pipeline /
/// bind-group caches, and the per-frame state machine. The GPU itself is a
/// backend concern; this type decides, the backend executes.
pub struct Kelp {
    pub surface_width: u32,
    pub surface_height: u32,
    pub texture_cache: TextureCache,
    pub pipeline_cache: PipelineCache,
    pub bind_group_cache: TextureBindGroupCache,
    pub per_frame: Option<PerFrame>,
    pub has_imgui: bool,
}

impl Kelp {
    /// The orchestrator's invariant: all caches are consistent and the
    /// frame's write offset stays within the instance-buffer budget.
    pub open spec fn wf(self) -> bool {
        &&& self.texture_cache.wf()
        &&& self.pipeline_cache.wf()
        &&& self.bind_group_cache.wf()
        &&& (self.per_frame matches Some(f) ==> f.instance_offset <= INSTANCE_CAPACITY)
    }

    /// A frame is currently active.
    pub open spec fn frame_active(self) -> bool {
        self.per_frame is Some
    }

    /// A fresh, idle orchestrator with empty caches for a surface of the
    /// given pixel size.
    pub fn new(width: u32, height: u32, has_imgui: bool) -> (r: Kelp)
        ensures
            r.wf(),
            r.surface_width == width,
            r.surface_height == height,
            r.has_imgui == has_imgui,
            r.per_frame is None,
            r.texture_cache.textures@.len() == 0,
            r.texture_cache.targets@.len() == 0,
            r.texture_cache.atlas.taken@.len() == 0,
            r.texture_cache.atlas.num_layers == 1,
            r.pipeline_cache.keys@.len() == 0,
            r.bind_group_cache.keys@.len() == 0,
    {
        Kelp {
            surface_width: width,
            surface_height: height,
            texture_cache: TextureCache::new(),
            pipeline_cache: PipelineCache::new(),
            bind_group_cache: TextureBindGroupCache::new(),
            per_frame: None,
            has_imgui,
        }
    }

    /// Begins a frame once the backend has tried to acquire the next
    /// surface texture, reporting the outcome in `acquired`. A failed
    /// acquisition is the recoverable `SwapchainError` — the caller retries
    /// next tick — and leaves the renderer idle. May only be called while
    /// no frame is active.
    pub fn begin_frame(&mut self, acquired: bool) -> (r: Result<(), KelpError>)
        requires
            old(self).wf(),
            !old(self).frame_active(),
        ensures
            final(self).wf(),
            acquired ==> r is Ok && *final(self) == (Kelp {
                per_frame: Some(PerFrame { instance_offset: 0, has_ui: false }),
                ..*old(self)
            }),
            !acquired ==> r == Err::<(), KelpError>(KelpError::SwapchainError) && *final(self)
                == *old(self),
    {
        if acquired {
            self.per_frame = Some(PerFrame { instance_offset: 0, has_ui: false });
            Ok(())
        } else {
            Err(KelpError::SwapchainError)
        }
    }

    /// Finishes the active frame: the backend must submit the encoders'
    /// command buffers in exactly the returned order (uploads before the
    /// draws that depend on them, the UI overlay last) and then present the
    /// surface. Fails with `NoCurrentFrame` when no frame is active;
    /// otherwise the renderer returns to idle.
    pub fn present_frame(&mut self) -> (r: Result<PresentPlan, KelpError>)
        requires
            old(self).wf(),
        ensures
            final(self).wf(),
            old(self).per_frame is None ==> (r matches Err(e) && e == KelpError::NoCurrentFrame
                && *final(self) == *old(self)),
            old(self).per_frame matches Some(f) ==> {
                &&& r matches Ok(p)
                &&& (f.has_ui ==> p.encoders@ == seq![
                    EncoderKind::Buffer,
                    EncoderKind::Draw,
                    EncoderKind::Ui,
                ])
                &&& (!f.has_ui ==> p.encoders@ == seq![EncoderKind::Buffer, EncoderKind::Draw])
                &&& *final(self) == (Kelp { per_frame: None, ..*old(self) })
            },
    {
        match self.per_frame {
            None => Err(KelpError::NoCurrentFrame),
            Some(frame) => {
                self.per_frame = None;
                let mut encoders: Vec<EncoderKind> = Vec::new();
                encoders.push(EncoderKind::Buffer);
                encoders.push(EncoderKind::Draw);
                if frame.has_ui {
                    encoders.push(EncoderKind::Ui);
                    proof {
                        assert(encoders@ =~= seq![
                            EncoderKind::Buffer,
                            EncoderKind::Draw,
                            EncoderKind::Ui,
                        ]);
                    }
                } else {
                    proof {
                        assert(encoders@ =~= seq![EncoderKind::Buffer, EncoderKind::Draw]);
                    }
                }
                Ok(PresentPlan { encoders })
            },
        }
    }

    /// Records that a UI overlay pass was drawn this frame, so that its
    /// command buffer is submitted after the sprite draws. Fails with
    /// `NoImgui` when no UI renderer was configured and with
    /// `NoCurrentFrame` outside a frame.
    pub fn render_imgui(&mut self) -> (r: Result<(), KelpError>)
        requires
            old(self).wf(),
        ensures
            final(self).wf(),
            r is Ok <==> old(self).has_imgui && old(self).frame_active(),
            !old(self).has_imgui ==> (r matches Err(e) && e == KelpError::NoImgui && *final(self)
                == *old(self)),
            old(self).has_imgui && !old(self).frame_active() ==> (r matches Err(e) && e
                == KelpError::NoCurrentFrame && *final(self) == *old(self)),
            r is Ok ==> (old(self).per_frame matches Some(f) && *final(self) == (Kelp {
                per_frame: Some(PerFrame { instance_offset: f.instance_offset, has_ui: true }),
                ..*old(self)
            })),
    {
        if !self.has_imgui {
            return Err(KelpError::NoImgui);
        }
        match self.per_frame {
            None => Err(KelpError::NoCurrentFrame),
            Some(frame) => {
                self.per_frame = Some(
                    PerFrame { instance_offset: frame.instance_offset, has_ui: true },
                );
                Ok(())
            },
        }
    }

    /// Reconfigures the presentation surface size; must be called after a
    /// resize event before the next frame begins.
    pub fn set_surface_size(&mut self, width: u32, height: u32)
        requires
            old(self).wf(),
        ensures
            final(self).wf(),
            *final(self) == (Kelp { surface_width: width, surface_height: height, ..*old(self) }),
    {
        self.surface_width = width;
        self.surface_height = height;
    }

    /// Allocates atlas space for an empty texture the caller fills later
    /// via [`Kelp::update_texture`]. Succeeds exactly when the atlas can
    /// still fit the allocation and handle space remains; fails with
    /// `AtlasFull` otherwise.
    pub fn create_texture_empty(&mut self, width: u32, height: u32) -> (r: Result<
        KelpTextureId,
        KelpError,
    >)
        requires
            old(self).wf(),
        ensures
            final(self).wf(),
            r is Ok <==> (old(self).texture_cache.atlas.can_allocate(width, height) && old(self).texture_cache.textures@.len() < u32::MAX),
            r matches Err(e) ==> e == KelpError::AtlasFull && *final(self) == *old(self),
            r matches Ok(id) ==> {
                &&& id.id == old(self).texture_cache.textures@.len()
                &&& final(self).texture_cache.textures@.len() == old(self).texture_cache.textures@.len() + 1
                &&& final(self).texture_cache.textures@.drop_last() == old(self).texture_cache.textures@
                &&& final(self).texture_cache.textures@.last().id == id
                &&& final(self).texture_cache.textures@.last().rectangle.max_x - final(self).texture_cache.textures@.last().rectangle.min_x == width
                &&& final(self).texture_cache.textures@.last().rectangle.max_y - final(self).texture_cache.textures@.last().rectangle.min_y == height
                &&& final(self).texture_cache.targets@ == old(self).texture_cache.targets@
                &&& *final(self) == (Kelp { texture_cache: final(self).texture_cache, ..*old(self) })
            },
    {
        match self.texture_cache.new_texture_alloc(width, height) {
            Ok(id) => Ok(id),
            Err(e) => Err(e),
        }
    }

    /// Registers a standalone render-target texture of the given size. The
    /// backend creates it in the surface's pixel format, so target output
    /// can later be sampled like a regular texture without conversion.
    pub fn create_render_target(&mut self, width: u32, height: u32) -> (r: KelpTargetId)
        requires
            old(self).wf(),
            old(self).texture_cache.targets@.len() < u32::MAX,
        ensures
            final(self).wf(),
            r.id == old(self).texture_cache.targets@.len(),
            final(self).texture_cache.targets@ == old(self).texture_cache.targets@.push(
                crate::texture_cache::TargetInfo { width, height },
            ),
            final(self).texture_cache.textures@ == old(self).texture_cache.textures@,
            final(self).texture_cache.atlas == old(self).texture_cache.atlas,
            *final(self) == (Kelp { texture_cache: final(self).texture_cache, ..*old(self) }),
    {
        self.texture_cache.insert_target(width, height)
    }

    /// Where the pixel bytes of this texture go in the atlas: succeeds
    /// exactly when the handle is known and the data length matches the
    /// texture's RGBA8 size. An unknown handle fails with
    /// `InvalidTextureId`, a length mismatch with `InvalidDimensions`.
    pub fn update_texture(&self, texture_id: KelpTextureId, data: &[u8]) -> (r: Result<
        TextureWrite,
        KelpError,
    >)
        requires
            self.wf(),
        ensures
            r is Ok <==> (self.texture_cache.has_texture(texture_id) && data@.len()
                == texture_byte_len(self.texture_cache.textures@[texture_id.id as int])),
            !self.texture_cache.has_texture(texture_id) ==> (r matches Err(e) && e
                == KelpError::InvalidTextureId),
            self.texture_cache.has_texture(texture_id) && data@.len() != texture_byte_len(
                self.texture_cache.textures@[texture_id.id as int],
            ) ==> (r matches Err(e) && e == KelpError::InvalidDimensions),
            r matches Ok(w) ==> w == texture_write_of(
                self.texture_cache.textures@[texture_id.id as int],
            ),
    {
        let allocation = match self.texture_cache.get_texture(texture_id) {
            Ok(a) => a,
            Err(e) => {
                return Err(e);
            },
        };
        proof {
            assert(texture_alloc_ok(
                self.texture_cache.textures@[texture_id.id as int],
                texture_id.id as int,
                self.texture_cache.atlas.num_layers,
            ));
        }
        let w = allocation.rectangle.width();
        let h = allocation.rectangle.height();
        proof {
            assert(rect_valid(allocation.rectangle));
            let wv = w as int;
            let hv = h as int;
            assert(wv * hv * 4 <= 2048 * 2048 * 4 && wv * hv * 4 == 4 * wv * hv)
                by (nonlinear_arith)
                requires
                    0 <= wv <= 2048,
                    0 <= hv <= 2048,
            ;
        }
        if data.len() as u64 != (w as u64) * (h as u64) * 4 {
            return Err(KelpError::InvalidDimensions);
        }
        Ok(
            TextureWrite {
                layer: allocation.layer,
                x: allocation.rectangle.min_x,
                y: allocation.rectangle.min_y,
                width: w,
                height: h,
                bytes_per_row: 4 * w,
            },
        )
    }

    /// Allocates a texture and says where its pixel bytes go. Succeeds
    /// exactly when the data length matches the dimensions and the atlas
    /// can still fit the allocation; a length mismatch fails with
    /// `InvalidDimensions` before anything is allocated.
    pub fn create_texture_with_data(&mut self, width: u32, height: u32, data: &[u8]) -> (r: Result<
        (KelpTextureId, TextureWrite),
        KelpError,
    >)
        requires
            old(self).wf(),
        ensures
            final(self).wf(),
            r is Ok <==> (data@.len() == 4 * width * height && old(self).texture_cache.atlas.can_allocate(width, height) && old(self).texture_cache.textures@.len() < u32::MAX),
            data@.len() != 4 * width * height ==> (r matches Err(e) && e
                == KelpError::InvalidDimensions && *final(self) == *old(self)),
            r is Err ==> *final(self) == *old(self),
            r matches Err(e) ==> e == KelpError::InvalidDimensions || e == KelpError::AtlasFull,
            r matches Ok((id, w)) ==> {
                &&& id.id == old(self).texture_cache.textures@.len()
                &&& final(self).texture_cache.textures@.len() == old(self).texture_cache.textures@.len() + 1
                &&& final(self).texture_cache.textures@.drop_last() == old(self).texture_cache.textures@
                &&& final(self).texture_cache.textures@.last().id == id
                &&& w == texture_write_of(final(self).texture_cache.textures@[id.id as int])
                &&& w.width == width && w.height == height
                &&& final(self).texture_cache.targets@ == old(self).texture_cache.targets@
                &&& *final(self) == (Kelp { texture_cache: final(self).texture_cache, ..*old(self) })
            },
    {
        proof {
            let wv = width as int;
            let hv = height as int;
            assert(wv * hv * 4 <= 0xffff_ffff * 0xffff_ffff * 4 && wv * hv * 4 == 4 * wv * hv)
                by (nonlinear_arith)
                requires
                    0 <= wv <= 0xffff_ffff,
                    0 <= hv <= 0xffff_ffff,
            ;
        }
        if data.len() as u128 != (width as u128) * (height as u128) * 4 {
            return Err(KelpError::InvalidDimensions);
        }
        let id = match self.texture_cache.new_texture_alloc(width, height) {
            Ok(id) => id,
            Err(e) => {
                return Err(e);
            },
        };
        let allocation = self.texture_cache.textures[id.id as usize];
        proof {
            assert(texture_alloc_ok(
                self.texture_cache.textures@[id.id as int],
                id.id as int,
                self.texture_cache.atlas.num_layers,
            ));
        }
        let w = allocation.rectangle.width();
        let h = allocation.rectangle.height();
        Ok(
            (
                id,
                TextureWrite {
                    layer: allocation.layer,
                    x: allocation.rectangle.min_x,
                    y: allocation.rectangle.min_y,
                    width: w,
                    height: h,
                    bytes_per_row: 4 * w,
                },
            ),
        )
    }

    /// Submits one render list within the active frame and produces the
    /// plan the backend executes. A list with no batches or no instances is
    /// a no-op success and changes nothing. Otherwise the call fails with
    /// `NoCurrentFrame` outside a frame, `InvalidTargetId` for an unknown
    /// render target, and `InvalidTextureId` when any batch names an
    /// unknown texture, leaving the renderer unchanged. On success the
    /// pipeline and bind-group caches grow by exactly the missing keys in
    /// first-use order (the plan lists them for the backend to create), the
    /// frame's write offset advances by the list's instance count so that
    /// further lists append, and the command stream draws the batches in
    /// submission order, rebinding pipeline or bind-group state only where
    /// it differs from the previous batch.
    #[verifier::loop_isolation(false)]
    #[verifier::rlimit(100)]
    pub fn render_list(&mut self, list: &RenderList) -> (r: Result<RenderPassPlan, KelpError>)
        requires
            old(self).wf(),
            list.wf(),
            old(self).per_frame matches Some(f) ==> f.instance_offset + list.instances@.len()
                <= INSTANCE_CAPACITY,
        ensures
            final(self).wf(),
            (list.batches@.len() == 0 || list.instances@.len() == 0) ==> (r matches Ok(p)
                && p.commands@.len() == 0 && p.new_pipelines@.len() == 0
                && p.new_bind_groups@.len() == 0 && *final(self) == *old(self)),
            list.batches@.len() > 0 && list.instances@.len() > 0 ==> {
                &&& (r is Ok <==> (old(self).frame_active() && (list.target matches Some(t)
                    ==> old(self).texture_cache.has_target(t)) && (forall|k: int|
                    0 <= k < list.batches@.len() ==> old(self).texture_cache.has_texture(
                        (#[trigger] list.batches@[k]).texture,
                    ))))
                &&& (r is Err ==> *final(self) == *old(self))
                &&& (!old(self).frame_active() ==> (r matches Err(e) && e
                    == KelpError::NoCurrentFrame))
                &&& ((old(self).frame_active() && (list.target matches Some(t) && !old(
                    self,
                ).texture_cache.has_target(t))) ==> (r matches Err(e) && e
                    == KelpError::InvalidTargetId))
                &&& ((old(self).frame_active() && (list.target matches Some(t) ==> old(
                    self,
                ).texture_cache.has_target(t)) && (exists|k: int|
                    0 <= k < list.batches@.len() && !old(self).texture_cache.has_texture(
                        (#[trigger] list.batches@[k]).texture,
                    ))) ==> (r matches Err(e) && e == KelpError::InvalidTextureId))
                &&& (r matches Ok(p) ==> (old(self).per_frame matches Some(f) && {
                    &&& final(self).pipeline_cache.keys@ == ensure_keys(
                        old(self).pipeline_cache.keys@,
                        pipeline_keys_of(list.batches@),
                    )
                    &&& final(self).bind_group_cache.keys@ == ensure_keys(
                        old(self).bind_group_cache.keys@,
                        bind_keys_of(list.batches@),
                    )
                    &&& p.new_pipelines@ == final(self).pipeline_cache.keys@.skip(
                        old(self).pipeline_cache.keys@.len() as int,
                    )
                    &&& p.new_bind_groups@ == final(self).bind_group_cache.keys@.skip(
                        old(self).bind_group_cache.keys@.len() as int,
                    )
                    &&& final(self).texture_cache == old(self).texture_cache
                    &&& final(self).surface_width == old(self).surface_width
                    &&& final(self).surface_height == old(self).surface_height
                    &&& final(self).has_imgui == old(self).has_imgui
                    &&& final(self).per_frame == Some(
                        PerFrame {
                            instance_offset: (f.instance_offset + list.instances@.len()) as u32,
                            has_ui: f.has_ui,
                        },
                    )
                    &&& p.instance_byte_offset == f.instance_offset * INSTANCE_BYTES
                    &&& p.target == list.target
                    &&& p.clear == list.clear
                    &&& p.camera == list.camera
                    &&& p.commands@ == plan_commands(
                        list.batches@,
                        final(self).pipeline_cache.keys@,
                        final(self).bind_group_cache.keys@,
                        -1,
                        -1,
                        f.instance_offset as int,
                    )
                }))
            },
    {
        if list.batches.len() == 0 || list.instances.len() == 0 {
            return Ok(
                RenderPassPlan {
                    new_pipelines: Vec::new(),
                    new_bind_groups: Vec::new(),
                    instance_byte_offset: 0,
                    target: list.target,
                    clear: list.clear,
                    camera: list.camera,
                    commands: Vec::new(),
                },
            );
        }
        let frame = match self.per_frame {
            None => {
                return Err(KelpError::NoCurrentFrame);
            },
            Some(f) => f,
        };
        match list.target {
            None => {},
            Some(target_id) => {
                match self.texture_cache.get_target(target_id) {
                    Ok(_) => {},
                    Err(_) => {
                        return Err(KelpError::InvalidTargetId);
                    },
                }
            },
        }
        let nb = list.batches.len();

        // every batch's texture must resolve before anything is mutated
        let mut i: usize = 0;
        while i < nb
            invariant
                *self == *old(self),
                nb == list.batches@.len(),
                i <= nb,
                forall|k: int|
                    0 <= k < i ==> self.texture_cache.has_texture(
                        (#[trigger] list.batches@[k]).texture,
                    ),
            decreases nb - i,
        {
            let b = list.batches[i];
            match self.texture_cache.get_texture(b.texture) {
                Ok(_) => {},
                Err(_) => {
                    return Err(KelpError::InvalidTextureId);
                },
            }
            i = i + 1;
        }

        // make sure every pipeline and bind group the list needs is cached,
        // noting the ones the backend still has to create
        let ghost pkeys0 = self.pipeline_cache.keys@;
        let ghost bkeys0 = self.bind_group_cache.keys@;
        let mut new_pipelines: Vec<PipelineId> = Vec::new();
        let mut new_bind_groups: Vec<TextureBindGroupId> = Vec::new();
        let mut i: usize = 0;
        proof {
            assert(list.batches@.take(0) =~= Seq::<InstanceBatch>::empty());
            assert(pipeline_keys_of(list.batches@.take(0)) =~= Seq::<PipelineId>::empty());
            assert(bind_keys_of(list.batches@.take(0)) =~= Seq::<TextureBindGroupId>::empty());
            assert(pkeys0.skip(pkeys0.len() as int) =~= Seq::<PipelineId>::empty());
            assert(bkeys0.skip(bkeys0.len() as int) =~= Seq::<TextureBindGroupId>::empty());
        }
        while i < nb
            invariant
                nb == list.batches@.len(),
                i <= nb,
                pkeys0 == old(self).pipeline_cache.keys@,
                bkeys0 == old(self).bind_group_cache.keys@,
                self.texture_cache == old(self).texture_cache,
                self.per_frame == old(self).per_frame,
                self.surface_width == old(self).surface_width,
                self.surface_height == old(self).surface_height,
                self.has_imgui == old(self).has_imgui,
                self.pipeline_cache.wf(),
                self.bind_group_cache.wf(),
                self.pipeline_cache.keys@ == ensure_keys(
                    pkeys0,
                    pipeline_keys_of(list.batches@.take(i as int)),
                ),
                self.bind_group_cache.keys@ == ensure_keys(
                    bkeys0,
                    bind_keys_of(list.batches@.take(i as int)),
                ),
                self.pipeline_cache.keys@.len() >= pkeys0.len(),
                self.bind_group_cache.keys@.len() >= bkeys0.len(),
                new_pipelines@ == self.pipeline_cache.keys@.skip(pkeys0.len() as int),
                new_bind_groups@ == self.bind_group_cache.keys@.skip(bkeys0.len() as int),
            decreases nb - i,
        {
            let b = list.batches[i];
            let ghost pk = self.pipeline_cache.keys@;
            let ghost bk = self.bind_group_cache.keys@;
            match self.pipeline_cache.get_pipeline_index(None, b.blend_mode) {
                Ok(_) => {},
                Err(_) => {
                    new_pipelines.push(PipelineId { shader: 0, blend_mode: b.blend_mode });
                },
            }
            let _ensured = self.pipeline_cache.ensure_pipeline(None, b.blend_mode);
            proof {
                assert(pipeline_key(None, b.blend_mode) == batch_pipeline_key(b));
                assert(list.batches@.take(i as int + 1) =~= list.batches@.take(i as int).push(b));
                assert(pipeline_keys_of(list.batches@.take(i as int + 1)) =~= pipeline_keys_of(
                    list.batches@.take(i as int),
                ).push(batch_pipeline_key(b)));
                lemma_ensure_keys_push(
                    pkeys0,
                    pipeline_keys_of(list.batches@.take(i as int)),
                    batch_pipeline_key(b),
                );
                if !pk.contains(batch_pipeline_key(b)) {
                    assert(self.pipeline_cache.keys@ == pk.push(batch_pipeline_key(b)));
                    assert(self.pipeline_cache.keys@.skip(pkeys0.len() as int) =~= pk.skip(
                        pkeys0.len() as int,
                    ).push(batch_pipeline_key(b)));
                }
            }
            let bkey = TextureBindGroupId { texture_id: b.texture, smooth: b.smooth };
            match self.bind_group_cache.get_bind_group(&bkey) {
                Ok(_) => {},
                Err(_) => {
                    new_bind_groups.push(bkey);
                },
            }
            let _bind_id = self.bind_group_cache.get_valid_bind_group_id(b.texture, b.smooth);
            proof {
                assert(bkey == batch_bind_key(b));
                assert(bind_keys_of(list.batches@.take(i as int + 1)) =~= bind_keys_of(
                    list.batches@.take(i as int),
                ).push(batch_bind_key(b)));
                lemma_ensure_keys_push(
                    bkeys0,
                    bind_keys_of(list.batches@.take(i as int)),
                    batch_bind_key(b),
                );
                if !bk.contains(bkey) {
                    assert(self.bind_group_cache.keys@ == bk.push(bkey));
                    assert(self.bind_group_cache.keys@.skip(bkeys0.len() as int) =~= bk.skip(
                        bkeys0.len() as int,
                    ).push(bkey));
                }
            }
            i = i + 1;
        }
        proof {
            assert(list.batches@.take(nb as int) =~= list.batches@);
            assert forall|k: int| 0 <= k < nb implies self.pipeline_cache.spec_contains(
                batch_pipeline_key(#[trigger] list.batches@[k]),
            ) && self.bind_group_cache.spec_contains(batch_bind_key(list.batches@[k])) by {
                assert(pipeline_keys_of(list.batches@)[k] == batch_pipeline_key(
                    list.batches@[k],
                ));
                assert(pipeline_keys_of(list.batches@).contains(batch_pipeline_key(
                    list.batches@[k],
                )));
                crate::key_cache::lemma_ensure_keys_contains(
                    pkeys0,
                    pipeline_keys_of(list.batches@),
                    batch_pipeline_key(list.batches@[k]),
                );
                assert(bind_keys_of(list.batches@)[k] == batch_bind_key(list.batches@[k]));
                assert(bind_keys_of(list.batches@).contains(batch_bind_key(list.batches@[k])));
                crate::key_cache::lemma_ensure_keys_contains(
                    bkeys0,
                    bind_keys_of(list.batches@),
                    batch_bind_key(list.batches@[k]),
                );
            }
        }

        // record the pass: one draw per batch, state bound only when it
        // changes from the previous batch
        let ghost pkeys = self.pipeline_cache.keys@;
        let ghost bkeys = self.bind_group_cache.keys@;
        let n_pipelines = self.pipeline_cache.keys.len();
        let n_bind_groups = self.bind_group_cache.keys.len();
        proof {
            assert(pkeys.len() == n_pipelines && bkeys.len() == n_bind_groups);
        }
        let mut commands: Vec<DrawCommand> = Vec::new();
        let mut offset: u32 = frame.instance_offset;
        let mut cur_p: usize = usize::MAX;
        let mut cur_b: usize = usize::MAX;
        let mut i: usize = 0;
        proof {
            assert(list.batches@.skip(0) =~= list.batches@);
        }
        while i < nb
            invariant
                nb == list.batches@.len(),
                i <= nb,
                self.pipeline_cache.keys@ == pkeys,
                self.bind_group_cache.keys@ == bkeys,
                self.pipeline_cache.wf(),
                self.bind_group_cache.wf(),
                self.texture_cache == old(self).texture_cache,
                self.per_frame == old(self).per_frame,
                self.surface_width == old(self).surface_width,
                self.surface_height == old(self).surface_height,
                self.has_imgui == old(self).has_imgui,
                forall|k: int|
                    0 <= k < nb ==> self.pipeline_cache.spec_contains(batch_pipeline_key(
                        #[trigger] list.batches@[k],
                    )) && self.bind_group_cache.spec_contains(batch_bind_key(list.batches@[k])),
                frame.instance_offset + batch_total(list.batches@) <= INSTANCE_CAPACITY,
                offset as int + batch_total(list.batches@.skip(i as int))
                    == frame.instance_offset + batch_total(list.batches@),
                plan_commands(list.batches@, pkeys, bkeys, -1, -1, frame.instance_offset as int)
                    == commands@ + plan_commands(
                    list.batches@.skip(i as int),
                    pkeys,
                    bkeys,
                    (if cur_p == usize::MAX {
                        -1int
                    } else {
                        cur_p as int
                    }),
                    (if cur_b == usize::MAX {
                        -1int
                    } else {
                        cur_b as int
                    }),
                    offset as int,
                ),
            decreases nb - i,
        {
            let b = list.batches[i];
            let pi = match self.pipeline_cache.get_pipeline_index(None, b.blend_mode) {
                Ok(x) => x,
                Err(e) => {
                    return Err(e);
                },
            };
            let bkey = TextureBindGroupId { texture_id: b.texture, smooth: b.smooth };
            let bi = match self.bind_group_cache.get_bind_group(&bkey) {
                Ok(x) => x,
                Err(e) => {
                    return Err(e);
                },
            };
            let ghost prev_p: int = if cur_p == usize::MAX {
                -1int
            } else {
                cur_p as int
            };
            let ghost prev_b: int = if cur_b == usize::MAX {
                -1int
            } else {
                cur_b as int
            };
            let ghost cmds0 = commands@;
            let ghost off0 = offset as int;
            let ghost sk = list.batches@.skip(i as int);
            proof {
                lemma_key_index_unique(pkeys, batch_pipeline_key(b), pi as int);
                lemma_key_index_unique(bkeys, batch_bind_key(b), bi as int);
                assert(sk[0] == b);
                lemma_batch_total_first(sk);
                assert(sk.subrange(1, sk.len() as int) =~= list.batches@.skip(i as int + 1));
                lemma_batch_total_nonneg(list.batches@.skip(i as int + 1));
            }
            if cur_p != pi {
                commands.push(DrawCommand::SetPipeline { index: pi });
                cur_p = pi;
            }
            if cur_b != bi {
                commands.push(DrawCommand::SetBindGroup { index: bi });
                cur_b = bi;
            }
            let end = offset + b.instance_count;
            commands.push(DrawCommand::Draw { start: offset, end });
            offset = end;
            proof {
                let set_p: Seq<DrawCommand> = if pi as int == prev_p {
                    Seq::empty()
                } else {
                    seq![DrawCommand::SetPipeline { index: pi }]
                };
                let set_b: Seq<DrawCommand> = if bi as int == prev_b {
                    Seq::empty()
                } else {
                    seq![DrawCommand::SetBindGroup { index: bi }]
                };
                let draw: Seq<DrawCommand> = seq![
                    DrawCommand::Draw { start: off0 as u32, end: (off0 + b.instance_count) as u32 },
                ];
                assert(plan_commands(sk, pkeys, bkeys, prev_p, prev_b, off0) == set_p + set_b
                    + draw + plan_commands(
                    list.batches@.skip(i as int + 1),
                    pkeys,
                    bkeys,
                    pi as int,
                    bi as int,
                    off0 + b.instance_count,
                ));
                assert(commands@ =~= cmds0 + set_p + set_b + draw);
                assert(cmds0 + plan_commands(sk, pkeys, bkeys, prev_p, prev_b, off0) =~= commands@
                    + plan_commands(
                    list.batches@.skip(i as int + 1),
                    pkeys,
                    bkeys,
                    pi as int,
                    bi as int,
                    off0 + b.instance_count,
                ));
            }
            i = i + 1;
        }
        proof {
            assert(list.batches@.skip(nb as int).len() == 0);
            assert(plan_commands(list.batches@, pkeys, bkeys, -1, -1, frame.instance_offset as int)
                =~= commands@);
        }
        self.per_frame = Some(PerFrame { instance_offset: offset, has_ui: frame.has_ui });
        let byte_offset = (frame.instance_offset as u64) * INSTANCE_BYTES;
        Ok(
            RenderPassPlan {
                new_pipelines,
                new_bind_groups,
                instance_byte_offset: byte_offset,
                target: list.target,
                clear: list.clear,
                camera: list.camera,
                commands,
            },
        )
    }
}

/// The draw calls of a command stream, in order.
pub open spec fn draws_of(cmds: Seq<DrawCommand>) -> Seq<DrawCommand> {
    cmds.filter(|c: DrawCommand| c is Draw)
}

/// Draw calls come one per batch and in batch submission order, covering the
/// batches' instance rows back to back from the starting offset: coalescing
/// elides state changes but never drops, splits or reorders a draw, so
/// painter's-algorithm back-to-front compositing is preserved.
pub proof fn lemma_draws_in_submission_order(
    batches: Seq<InstanceBatch>,
    pkeys: Seq<PipelineId>,
    bkeys: Seq<TextureBindGroupId>,
    prev_p: int,
    prev_b: int,
    offset: int,
)
    ensures
        draws_of(plan_commands(batches, pkeys, bkeys, prev_p, prev_b, offset)).len()
            == batches.len(),
        forall|k: int|
            0 <= k < batches.len() ==> draws_of(
                plan_commands(batches, pkeys, bkeys, prev_p, prev_b, offset),
            )[k] == (DrawCommand::Draw {
                start: (offset + batch_total(batches.take(k))) as u32,
                end: (offset + batch_total(batches.take(k + 1))) as u32,
            }),
    decreases batches.len(),
{
    broadcast use vstd::seq_lib::group_seq_lib_default;

    reveal(Seq::filter);
    if batches.len() == 0 {
    } else {
        let b = batches[0];
        let pi = key_index(pkeys, batch_pipeline_key(b));
        let bi = key_index(bkeys, batch_bind_key(b));
        let set_p: Seq<DrawCommand> = if pi == prev_p {
            Seq::empty()
        } else {
            seq![DrawCommand::SetPipeline { index: pi as usize }]
        };
        let set_b: Seq<DrawCommand> = if bi == prev_b {
            Seq::empty()
        } else {
            seq![DrawCommand::SetBindGroup { index: bi as usize }]
        };
        let draw: Seq<DrawCommand> = seq![
            DrawCommand::Draw { start: offset as u32, end: (offset + b.instance_count) as u32 },
        ];
        let tail = batches.subrange(1, batches.len() as int);
        let rest = plan_commands(tail, pkeys, bkeys, pi, bi, offset + b.instance_count);
        let cmds = plan_commands(batches, pkeys, bkeys, prev_p, prev_b, offset);
        assert(cmds == set_p + set_b + draw + rest);
        assert(draws_of(set_p).len() == 0) by {
            if set_p.len() > 0 {
                assert(set_p.drop_last() =~= Seq::<DrawCommand>::empty());
            }
        }
        assert(draws_of(set_b).len() == 0) by {
            if set_b.len() > 0 {
                assert(set_b.drop_last() =~= Seq::<DrawCommand>::empty());
            }
        }
        assert(draws_of(draw) =~= draw) by {
            assert(draw.drop_last() =~= Seq::<DrawCommand>::empty());
        }
        assert(draws_of(cmds) =~= draws_of(set_p) + draws_of(set_b) + draws_of(draw) + draws_of(
            rest,
        ));
        lemma_draws_in_submission_order(tail, pkeys, bkeys, pi, bi, offset + b.instance_count);
        let draws = draws_of(cmds);
        let rest_draws = draws_of(rest);
        assert(draws =~= draw + rest_draws);
        assert forall|k: int| 0 <= k < batches.len() implies draws[k] == (DrawCommand::Draw {
            start: (offset + batch_total(batches.take(k))) as u32,
            end: (offset + batch_total(batches.take(k + 1))) as u32,
        }) by {
            if k == 0 {
                assert(batches.take(0).len() == 0);
                assert(batch_total(batches.take(0)) == 0);
                assert(batches.take(1) =~= seq![b]);
                assert(batch_total(seq![b]) == b.instance_count) by {
                    crate::render_list::lemma_batch_total_push(Seq::<InstanceBatch>::empty(), b);
                    assert(Seq::<InstanceBatch>::empty().push(b) =~= seq![b]);
                    assert(batch_total(Seq::<InstanceBatch>::empty()) == 0);
                }
                assert(draws[0] == draw[0]);
            } else {
                assert(draws[k] == rest_draws[k - 1]);
                // the head batch's count folds into the running offset
                lemma_batch_total_first(batches.take(k));
                assert(batches.take(k)[0] == b);
                assert(batches.take(k).subrange(1, k) =~= tail.take(k - 1));
                lemma_batch_total_first(batches.take(k + 1));
                assert(batches.take(k + 1)[0] == b);
                assert(batches.take(k + 1).subrange(1, k + 1) =~= tail.take(k));
            }
        }
    }
}

/// Once the right pipeline and bind group are bound, batches that resolve to
/// the bound state are pure draw calls: one per batch, nothing rebound.
pub proof fn lemma_bound_state_only_draws(
    batches: Seq<InstanceBatch>,
    pkeys: Seq<PipelineId>,
    bkeys: Seq<TextureBindGroupId>,
    prev_p: int,
    prev_b: int,
    offset: int,
)
    requires
        forall|k: int|
            0 <= k < batches.len() ==> key_index(pkeys, batch_pipeline_key(#[trigger] batches[k]))
                == prev_p && key_index(bkeys, batch_bind_key(batches[k])) == prev_b,
    ensures
        plan_commands(batches, pkeys, bkeys, prev_p, prev_b, offset).len() == batches.len(),
        forall|m: int|
            0 <= m < batches.len() ==> (#[trigger] plan_commands(
                batches,
                pkeys,
                bkeys,
                prev_p,
                prev_b,
                offset,
            )[m]) is Draw,
    decreases batches.len(),
{
    if batches.len() > 0 {
        let b = batches[0];
        let tail = batches.subrange(1, batches.len() as int);
        assert(key_index(pkeys, batch_pipeline_key(b)) == prev_p);
        let draw: Seq<DrawCommand> = seq![
            DrawCommand::Draw { start: offset as u32, end: (offset + b.instance_count) as u32 },
        ];
        let rest = plan_commands(tail, pkeys, bkeys, prev_p, prev_b, offset + b.instance_count);
        assert(forall|k: int|
            0 <= k < tail.len() ==> key_index(pkeys, batch_pipeline_key(#[trigger] tail[k]))
                == prev_p && key_index(bkeys, batch_bind_key(tail[k])) == prev_b) by {
            assert(forall|k: int| 0 <= k < tail.len() ==> tail[k] == batches[k + 1]);
        }
        lemma_bound_state_only_draws(tail, pkeys, bkeys, prev_p, prev_b, offset + b.instance_count);
        let cmds = plan_commands(batches, pkeys, bkeys, prev_p, prev_b, offset);
        assert(cmds == draw + rest);
        assert(cmds[0] == draw[0]);
        assert(forall|m: int| 1 <= m < cmds.len() ==> cmds[m] == rest[m - 1]);
    }
}

/// Coalescing in action: when every batch of a pass resolves to one and the
/// same pipeline and bind-group state, the command stream binds that state
/// exactly once, up front, and then issues one draw call per batch — even
/// though the batches were submitted separately and were never merged.
pub proof fn lemma_uniform_state_binds_once(
    batches: Seq<InstanceBatch>,
    pkeys: Seq<PipelineId>,
    bkeys: Seq<TextureBindGroupId>,
    offset: int,
)
    requires
        batches.len() > 0,
        pkeys.contains(batch_pipeline_key(batches[0])),
        bkeys.contains(batch_bind_key(batches[0])),
        forall|k: int|
            0 <= k < batches.len() ==> batch_pipeline_key(#[trigger] batches[k])
                == batch_pipeline_key(batches[0]) && batch_bind_key(batches[k]) == batch_bind_key(
                batches[0],
            ),
    ensures
        plan_commands(batches, pkeys, bkeys, -1, -1, offset).len() == batches.len() + 2,
        plan_commands(batches, pkeys, bkeys, -1, -1, offset)[0] is SetPipeline,
        plan_commands(batches, pkeys, bkeys, -1, -1, offset)[1] is SetBindGroup,
        forall|m: int|
            2 <= m < batches.len() + 2 ==> (#[trigger] plan_commands(
                batches,
                pkeys,
                bkeys,
                -1,
                -1,
                offset,
            )[m]) is Draw,
{
    let b = batches[0];
    let pi = key_index(pkeys, batch_pipeline_key(b));
    let bi = key_index(bkeys, batch_bind_key(b));
    lemma_key_index_in_range(pkeys, batch_pipeline_key(b));
    lemma_key_index_in_range(bkeys, batch_bind_key(b));
    let set_p: Seq<DrawCommand> = seq![DrawCommand::SetPipeline { index: pi as usize }];
    let set_b: Seq<DrawCommand> = seq![DrawCommand::SetBindGroup { index: bi as usize }];
    let draw: Seq<DrawCommand> = seq![
        DrawCommand::Draw { start: offset as u32, end: (offset + b.instance_count) as u32 },
    ];
    let tail = batches.subrange(1, batches.len() as int);
    let rest = plan_commands(tail, pkeys, bkeys, pi, bi, offset + b.instance_count);
    assert(forall|k: int|
        0 <= k < tail.len() ==> key_index(pkeys, batch_pipeline_key(#[trigger] tail[k])) == pi
            && key_index(bkeys, batch_bind_key(tail[k])) == bi) by {
        assert(forall|k: int| 0 <= k < tail.len() ==> tail[k] == batches[k + 1]);
    }
    lemma_bound_state_only_draws(tail, pkeys, bkeys, pi, bi, offset + b.instance_count);
    let cmds = plan_commands(batches, pkeys, bkeys, -1, -1, offset);
    assert(cmds == set_p + set_b + draw + rest);
    assert(cmds[0] == set_p[0]);
    assert(cmds[1] == set_b[0]);
    assert(cmds[2] == draw[0]);
    assert(forall|m: int| 3 <= m < cmds.len() ==> cmds[m] == rest[m - 3]);
}

/// Byte length of a texture's tightly packed RGBA8 pixel data.
pub open spec fn texture_byte_len(a: crate::texture_cache::TextureAllocation) -> int {
    4 * a.rectangle.spec_width() * a.rectangle.spec_height()
}

/// The atlas write that uploads a texture's pixel data.
pub open spec fn texture_write_of(a: crate::texture_cache::TextureAllocation) -> TextureWrite {
    TextureWrite {
        layer: a.layer,
        x: a.rectangle.min_x,
        y: a.rectangle.min_y,
        width: a.rectangle.spec_width() as u32,
        height: a.rectangle.spec_height() as u32,
        bytes_per_row: (4 * a.rectangle.spec_width()) as u32,
    }
}

} // verus!
