use kelp_2d::kelp::{DrawCommand, EncoderKind, Kelp};
use kelp_2d::pipeline_cache::PipelineId;
use kelp_2d::render_list::RenderList;
use kelp_2d::types::{BlendMode, InstanceGPU, KelpError, KelpTargetId, KelpTextureId};
use kelp_2d::INSTANCE_BYTES;

const IDENTITY_CAMERA: [u32; 16] = [0; 16];

fn instance() -> InstanceGPU {
    InstanceGPU {
        color: [0; 4],
        mode: [0; 4],
        layer_smooth: [0; 2],
        source_trans: [0; 2],
        source_scale: [0; 2],
        world_col_1: [0; 2],
        world_col_2: [0; 2],
        world_trans: [0; 2],
    }
}

fn instances(n: usize) -> Vec<InstanceGPU> {
    std::iter::repeat(instance()).take(n).collect()
}

/// A renderer with one 64 by 64 texture uploaded, as a host would set it up.
fn kelp_with_texture() -> (Kelp, KelpTextureId) {
    let mut kelp = Kelp::new(800, 600, false);
    let data = vec![255u8; 64 * 64 * 4];
    let (id, write) = kelp.create_texture_with_data(64, 64, &data).expect("texture fits");
    assert_eq!(write.width, 64);
    assert_eq!(write.height, 64);
    assert_eq!(write.bytes_per_row, 256);
    assert_eq!(write.layer, 0);
    (kelp, id)
}

#[test]
fn batch_counts_always_match_instances() {
    let (kelp, tex) = kelp_with_texture();
    let list = RenderList::new(None, IDENTITY_CAMERA, None);
    let list = list
        .add_instances(&kelp.texture_cache, tex, false, BlendMode::ALPHA, &instances(3))
        .unwrap();
    let list = list
        .add_instances(&kelp.texture_cache, tex, false, BlendMode::ALPHA, &instances(2))
        .unwrap();
    assert_eq!(list.batches.len(), 2);
    assert_eq!(list.instances.len(), 5);
    let total: u32 = list.batches.iter().map(|b| b.instance_count).sum();
    assert_eq!(total as usize, list.instances.len());
}

#[test]
fn add_instances_with_unknown_texture_fails() {
    let (kelp, _) = kelp_with_texture();
    let list = RenderList::new(None, IDENTITY_CAMERA, None);
    let err = list
        .add_instances(
            &kelp.texture_cache,
            KelpTextureId { id: 42 },
            false,
            BlendMode::ALPHA,
            &instances(1),
        )
        .unwrap_err();
    assert_eq!(err, KelpError::InvalidTextureId);
}

#[test]
fn same_key_batches_stay_separate() {
    let (kelp, tex) = kelp_with_texture();
    let list = RenderList::new(None, IDENTITY_CAMERA, None)
        .add_instances(&kelp.texture_cache, tex, true, BlendMode::ADDITIVE, &instances(1))
        .unwrap()
        .add_instances(&kelp.texture_cache, tex, true, BlendMode::ADDITIVE, &instances(1))
        .unwrap();
    assert_eq!(list.batches.len(), 2);
    assert_eq!(list.batches[0], list.batches[1]);
}

#[test]
fn empty_submission_is_a_noop_success() {
    let (mut kelp, tex) = kelp_with_texture();
    kelp.begin_frame(true).unwrap();

    let empty = RenderList::new(None, IDENTITY_CAMERA, None);
    let plan = kelp.render_list(&empty).expect("no batches: success");
    assert!(plan.commands.is_empty());
    assert!(plan.new_pipelines.is_empty());
    assert!(plan.new_bind_groups.is_empty());

    // nothing was consumed: the next real submission still starts at offset 0
    let list = RenderList::new(None, IDENTITY_CAMERA, None)
        .add_instances(&kelp.texture_cache, tex, false, BlendMode::ALPHA, &instances(1))
        .unwrap();
    let plan = kelp.render_list(&list).unwrap();
    assert_eq!(plan.instance_byte_offset, 0);
}

#[test]
fn submission_without_frame_fails() {
    let (mut kelp, tex) = kelp_with_texture();
    let list = RenderList::new(None, IDENTITY_CAMERA, None)
        .add_instances(&kelp.texture_cache, tex, false, BlendMode::ALPHA, &instances(1))
        .unwrap();
    assert_eq!(kelp.render_list(&list).unwrap_err(), KelpError::NoCurrentFrame);
}

#[test]
fn failed_surface_acquisition_is_recoverable() {
    let mut kelp = Kelp::new(320, 200, false);
    assert_eq!(kelp.begin_frame(false).unwrap_err(), KelpError::SwapchainError);
    // the renderer stays idle, so the caller can retry on the next tick
    assert!(kelp.begin_frame(true).is_ok());
}

#[test]
fn unknown_target_fails() {
    let (mut kelp, tex) = kelp_with_texture();
    kelp.begin_frame(true).unwrap();
    let list = RenderList::new(Some(KelpTargetId { id: 5 }), IDENTITY_CAMERA, None)
        .add_instances(&kelp.texture_cache, tex, false, BlendMode::ALPHA, &instances(1))
        .unwrap();
    assert_eq!(kelp.render_list(&list).unwrap_err(), KelpError::InvalidTargetId);
}

#[test]
fn unknown_batch_texture_fails() {
    let (mut kelp, _) = kelp_with_texture();
    kelp.begin_frame(true).unwrap();
    // a list whose batch names a texture this renderer never created
    let list = RenderList {
        target: None,
        camera: IDENTITY_CAMERA,
        clear: None,
        instances: instances(1),
        batches: vec![kelp_2d::types::InstanceBatch {
            texture: KelpTextureId { id: 999 },
            smooth: false,
            blend_mode: BlendMode::ALPHA,
            instance_count: 1,
        }],
    };
    assert_eq!(kelp.render_list(&list).unwrap_err(), KelpError::InvalidTextureId);
}

#[test]
fn scenario_one_batch_of_three_instances() {
    let (mut kelp, tex) = kelp_with_texture();
    kelp.begin_frame(true).unwrap();
    let list = RenderList::new(None, IDENTITY_CAMERA, Some([0; 4]))
        .add_instances(&kelp.texture_cache, tex, false, BlendMode::ALPHA, &instances(3))
        .unwrap();
    let plan = kelp.render_list(&list).expect("valid submission");

    let draws: Vec<&DrawCommand> = plan
        .commands
        .iter()
        .filter(|c| matches!(c, DrawCommand::Draw { .. }))
        .collect();
    assert_eq!(draws.len(), 1);
    assert_eq!(*draws[0], DrawCommand::Draw { start: 0, end: 3 });

    // exactly one pipeline was created, for (default shader, alpha)
    assert_eq!(
        plan.new_pipelines,
        vec![PipelineId { shader: 0, blend_mode: BlendMode::ALPHA }]
    );
    assert_eq!(kelp.pipeline_cache.get_pipeline_index(None, BlendMode::ALPHA), Ok(0));
    assert_eq!(
        kelp.pipeline_cache.get_pipeline(1),
        Err(KelpError::InvalidPipelineId)
    );

    assert!(kelp.present_frame().is_ok());
}

#[test]
fn scenario_two_batches_bind_state_once() {
    let (mut kelp, tex) = kelp_with_texture();
    kelp.begin_frame(true).unwrap();
    let list = RenderList::new(None, IDENTITY_CAMERA, None)
        .add_instances(&kelp.texture_cache, tex, false, BlendMode::ALPHA, &instances(2))
        .unwrap()
        .add_instances(&kelp.texture_cache, tex, false, BlendMode::ALPHA, &instances(2))
        .unwrap();
    assert_eq!(list.batches.len(), 2);
    let plan = kelp.render_list(&list).unwrap();
    assert_eq!(
        plan.commands,
        vec![
            DrawCommand::SetPipeline { index: 0 },
            DrawCommand::SetBindGroup { index: 0 },
            DrawCommand::Draw { start: 0, end: 2 },
            DrawCommand::Draw { start: 2, end: 4 },
        ]
    );
}

#[test]
fn blend_modes_switch_pipelines() {
    let (mut kelp, tex) = kelp_with_texture();
    kelp.begin_frame(true).unwrap();
    let list = RenderList::new(None, IDENTITY_CAMERA, None)
        .add_instances(&kelp.texture_cache, tex, false, BlendMode::ALPHA, &instances(1))
        .unwrap()
        .add_instances(&kelp.texture_cache, tex, false, BlendMode::ADDITIVE, &instances(1))
        .unwrap();
    let plan = kelp.render_list(&list).unwrap();
    assert_eq!(
        plan.commands,
        vec![
            DrawCommand::SetPipeline { index: 0 },
            DrawCommand::SetBindGroup { index: 0 },
            DrawCommand::Draw { start: 0, end: 1 },
            DrawCommand::SetPipeline { index: 1 },
            DrawCommand::Draw { start: 1, end: 2 },
        ]
    );
    assert_eq!(plan.new_pipelines.len(), 2);
}

#[test]
fn submissions_within_a_frame_append() {
    let (mut kelp, tex) = kelp_with_texture();
    kelp.begin_frame(true).unwrap();
    let list = RenderList::new(None, IDENTITY_CAMERA, None)
        .add_instances(&kelp.texture_cache, tex, false, BlendMode::ALPHA, &instances(3))
        .unwrap();
    let first = kelp.render_list(&list).unwrap();
    assert_eq!(first.instance_byte_offset, 0);

    let list = RenderList::new(None, IDENTITY_CAMERA, None)
        .add_instances(&kelp.texture_cache, tex, false, BlendMode::ALPHA, &instances(2))
        .unwrap();
    let second = kelp.render_list(&list).unwrap();
    assert_eq!(second.instance_byte_offset, 3 * INSTANCE_BYTES);
    assert_eq!(
        second.commands,
        vec![
            DrawCommand::SetPipeline { index: 0 },
            DrawCommand::SetBindGroup { index: 0 },
            DrawCommand::Draw { start: 3, end: 5 },
        ]
    );
}

#[test]
fn second_ensure_creates_no_new_objects() {
    let (mut kelp, tex) = kelp_with_texture();
    kelp.begin_frame(true).unwrap();
    let list = RenderList::new(None, IDENTITY_CAMERA, None)
        .add_instances(&kelp.texture_cache, tex, false, BlendMode::ALPHA, &instances(1))
        .unwrap();
    let first = kelp.render_list(&list).unwrap();
    assert_eq!(first.new_pipelines.len(), 1);
    assert_eq!(first.new_bind_groups.len(), 1);

    let list = RenderList::new(None, IDENTITY_CAMERA, None)
        .add_instances(&kelp.texture_cache, tex, false, BlendMode::ALPHA, &instances(1))
        .unwrap();
    let second = kelp.render_list(&list).unwrap();
    assert!(second.new_pipelines.is_empty());
    assert!(second.new_bind_groups.is_empty());
    assert_eq!(kelp.pipeline_cache.keys.len(), 1);
    assert_eq!(kelp.bind_group_cache.keys.len(), 1);
}

#[test]
fn present_without_frame_fails() {
    let mut kelp = Kelp::new(100, 100, false);
    assert_eq!(kelp.present_frame().unwrap_err(), KelpError::NoCurrentFrame);
}

#[test]
fn present_submits_uploads_before_draws() {
    let mut kelp = Kelp::new(100, 100, false);
    kelp.begin_frame(true).unwrap();
    let plan = kelp.present_frame().unwrap();
    assert_eq!(plan.encoders, vec![EncoderKind::Buffer, EncoderKind::Draw]);
    // the frame is over
    assert_eq!(kelp.present_frame().unwrap_err(), KelpError::NoCurrentFrame);
}

#[test]
fn ui_overlay_is_submitted_last() {
    let mut kelp = Kelp::new(100, 100, true);
    kelp.begin_frame(true).unwrap();
    kelp.render_imgui().unwrap();
    let plan = kelp.present_frame().unwrap();
    assert_eq!(
        plan.encoders,
        vec![EncoderKind::Buffer, EncoderKind::Draw, EncoderKind::Ui]
    );
}

#[test]
fn ui_errors_are_specific() {
    let mut kelp = Kelp::new(100, 100, false);
    kelp.begin_frame(true).unwrap();
    assert_eq!(kelp.render_imgui().unwrap_err(), KelpError::NoImgui);

    let mut kelp = Kelp::new(100, 100, true);
    assert_eq!(kelp.render_imgui().unwrap_err(), KelpError::NoCurrentFrame);
}

#[test]
fn render_targets_resolve() {
    let mut kelp = Kelp::new(100, 100, false);
    let target = kelp.create_render_target(256, 128);
    let info = kelp.texture_cache.get_target(target).unwrap();
    assert_eq!((info.width, info.height), (256, 128));
    assert_eq!(
        kelp.texture_cache.get_target(KelpTargetId { id: 7 }).unwrap_err(),
        KelpError::InvalidTargetId
    );
}

#[test]
fn set_surface_size_updates_configuration() {
    let mut kelp = Kelp::new(100, 100, false);
    kelp.set_surface_size(1920, 1080);
    assert_eq!((kelp.surface_width, kelp.surface_height), (1920, 1080));
}
