use kelp_2d::kelp::Kelp;
use kelp_2d::types::{KelpError, KelpTextureId};

#[test]
fn handles_are_monotonic_and_never_reused() {
    let mut kelp = Kelp::new(100, 100, false);
    let a = kelp.create_texture_empty(8, 8).unwrap();
    let b = kelp.create_texture_empty(8, 8).unwrap();
    let c = kelp.create_texture_empty(8, 8).unwrap();
    assert_eq!((a.id, b.id, c.id), (0, 1, 2));
}

#[test]
fn resolve_unknown_texture_fails() {
    let kelp = Kelp::new(100, 100, false);
    let err = kelp.texture_cache.get_texture(KelpTextureId { id: 0 }).unwrap_err();
    assert_eq!(err, KelpError::InvalidTextureId);
}

#[test]
fn create_with_wrong_data_length_fails() {
    let mut kelp = Kelp::new(100, 100, false);
    let data = vec![0u8; 64 * 64 * 4 - 1];
    assert_eq!(
        kelp.create_texture_with_data(64, 64, &data).unwrap_err(),
        KelpError::InvalidDimensions
    );
    // nothing was allocated
    assert_eq!(kelp.texture_cache.textures.len(), 0);
}

#[test]
fn update_validates_handle_then_length() {
    let mut kelp = Kelp::new(100, 100, false);
    let data = vec![0u8; 16 * 16 * 4];
    assert_eq!(
        kelp.update_texture(KelpTextureId { id: 3 }, &data).unwrap_err(),
        KelpError::InvalidTextureId
    );
    let id = kelp.create_texture_empty(16, 16).unwrap();
    let short = vec![0u8; 10];
    assert_eq!(kelp.update_texture(id, &short).unwrap_err(), KelpError::InvalidDimensions);
    let write = kelp.update_texture(id, &data).unwrap();
    assert_eq!((write.width, write.height), (16, 16));
    assert_eq!(write.bytes_per_row, 64);
}

#[test]
fn texture_write_points_into_the_allocated_rectangle() {
    let mut kelp = Kelp::new(100, 100, false);
    let data = vec![7u8; 32 * 8 * 4];
    let (id, write) = kelp.create_texture_with_data(32, 8, &data).unwrap();
    let allocation = kelp.texture_cache.get_texture(id).unwrap();
    assert_eq!(write.layer, allocation.layer);
    assert_eq!(write.x, allocation.rectangle.min_x);
    assert_eq!(write.y, allocation.rectangle.min_y);
    assert_eq!(write.width, allocation.rectangle.width());
    assert_eq!(write.height, allocation.rectangle.height());
}

#[test]
fn atlas_exhaustion_is_an_error() {
    let mut kelp = Kelp::new(100, 100, false);
    for _ in 0..16 {
        kelp.create_texture_empty(2047, 2047).unwrap();
    }
    assert_eq!(
        kelp.create_texture_empty(2047, 2047).unwrap_err(),
        KelpError::AtlasFull
    );
}

#[test]
fn zero_sized_texture_is_accepted() {
    let mut kelp = Kelp::new(100, 100, false);
    let (id, write) = kelp.create_texture_with_data(0, 0, &[]).unwrap();
    assert_eq!(id.id, 0);
    assert_eq!((write.width, write.height), (0, 0));
    let allocation = kelp.texture_cache.get_texture(id).unwrap();
    assert_eq!(allocation.rectangle.width(), 0);
}
