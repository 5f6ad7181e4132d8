use kelp_2d::pipeline_cache::{PipelineCache, PipelineId};
use kelp_2d::texture_bind_group_cache::{TextureBindGroupCache, TextureBindGroupId};
use kelp_2d::types::{BlendMode, KelpError, KelpTextureId};

#[test]
fn ensure_pipeline_is_idempotent() {
    let mut cache = PipelineCache::new();
    assert!(cache.ensure_pipeline(None, BlendMode::ALPHA).is_ok());
    assert!(cache.ensure_pipeline(None, BlendMode::ALPHA).is_ok());
    assert_eq!(cache.keys.len(), 1);
    assert_eq!(cache.get_pipeline_index(None, BlendMode::ALPHA), Ok(0));
}

#[test]
fn pipelines_are_indexed_in_creation_order() {
    let mut cache = PipelineCache::new();
    cache.ensure_pipeline(None, BlendMode::ALPHA).unwrap();
    cache.ensure_pipeline(None, BlendMode::ADDITIVE).unwrap();
    cache.ensure_pipeline(None, BlendMode::ALPHA).unwrap();
    assert_eq!(cache.keys.len(), 2);
    assert_eq!(cache.get_pipeline_index(None, BlendMode::ALPHA), Ok(0));
    assert_eq!(cache.get_pipeline_index(None, BlendMode::ADDITIVE), Ok(1));
    assert_eq!(
        cache.get_pipeline(0),
        Ok(PipelineId { shader: 0, blend_mode: BlendMode::ALPHA })
    );
}

#[test]
fn unknown_pipeline_lookups_fail() {
    let cache = PipelineCache::new();
    assert_eq!(
        cache.get_pipeline_index(None, BlendMode::ALPHA),
        Err(KelpError::InvalidPipelineId)
    );
    assert_eq!(cache.get_pipeline(0), Err(KelpError::InvalidPipelineId));
    let mut cache = PipelineCache::new();
    cache.ensure_pipeline(None, BlendMode::ALPHA).unwrap();
    assert_eq!(
        cache.get_pipeline_index(None, BlendMode::ADDITIVE),
        Err(KelpError::InvalidPipelineId)
    );
    assert_eq!(cache.get_pipeline(1), Err(KelpError::InvalidPipelineId));
}

#[test]
fn ensure_bind_group_is_idempotent() {
    let mut cache = TextureBindGroupCache::new();
    let tex = KelpTextureId { id: 0 };
    let id1 = cache.get_valid_bind_group_id(tex, true);
    let id2 = cache.get_valid_bind_group_id(tex, true);
    assert_eq!(id1, id2);
    assert_eq!(cache.keys.len(), 1);
    assert_eq!(cache.get_bind_group(&id1), Ok(0));
}

#[test]
fn bind_groups_distinguish_smoothing() {
    let mut cache = TextureBindGroupCache::new();
    let tex = KelpTextureId { id: 3 };
    let smooth = cache.get_valid_bind_group_id(tex, true);
    let point = cache.get_valid_bind_group_id(tex, false);
    assert_ne!(smooth, point);
    assert_eq!(cache.get_bind_group(&smooth), Ok(0));
    assert_eq!(cache.get_bind_group(&point), Ok(1));
}

#[test]
fn unknown_bind_group_lookup_fails() {
    let cache = TextureBindGroupCache::new();
    let key = TextureBindGroupId { texture_id: KelpTextureId { id: 9 }, smooth: false };
    assert_eq!(cache.get_bind_group(&key), Err(KelpError::InvalidBindGroupId));
}
