use kelp_2d::types::{FFIError, KelpError, TextureId};

#[test]
fn ffi_error_codes_are_stable() {
    assert_eq!(FFIError::Success.code(), 0);
    assert_eq!(FFIError::Null.code(), 1);
    assert_eq!(FFIError::Panic.code(), 2);
    assert_eq!(FFIError::NoCurrentFrame.code(), 100);
    assert_eq!(FFIError::SwapchainError.code(), 101);
    assert_eq!(FFIError::InvalidTextureId.code(), 102);
    assert_eq!(FFIError::InvalidTargetId.code(), 103);
    assert_eq!(FFIError::InvalidBindGroupId.code(), 104);
    assert_eq!(FFIError::InvalidPipelineId.code(), 105);
    assert_eq!(FFIError::NoAdapter.code(), 106);
    assert_eq!(FFIError::NoDevice.code(), 107);
    assert_eq!(FFIError::NoImgui.code(), 108);
    assert_eq!(FFIError::ImguiError.code(), 109);
    assert_eq!(FFIError::InvalidDimensions.code(), 110);
    assert_eq!(FFIError::AtlasFull.code(), 111);
    assert_eq!(FFIError::KelpAlreadyInitialised.code(), 200);
    assert_eq!(FFIError::KelpNotInitialised.code(), 201);
}

#[test]
fn ffi_error_default_is_success() {
    assert_eq!(FFIError::default(), FFIError::Success);
}

#[test]
fn ffi_error_from_kelp_error() {
    assert_eq!(FFIError::from(KelpError::NoCurrentFrame), FFIError::NoCurrentFrame);
    assert_eq!(FFIError::from(KelpError::SwapchainError), FFIError::SwapchainError);
    assert_eq!(FFIError::from(KelpError::InvalidTextureId), FFIError::InvalidTextureId);
    assert_eq!(FFIError::from(KelpError::InvalidTargetId), FFIError::InvalidTargetId);
    assert_eq!(FFIError::from(KelpError::InvalidBindGroupId), FFIError::InvalidBindGroupId);
    assert_eq!(FFIError::from(KelpError::InvalidPipelineId), FFIError::InvalidPipelineId);
    assert_eq!(FFIError::from(KelpError::NoAdapter), FFIError::NoAdapter);
    assert_eq!(FFIError::from(KelpError::NoDevice), FFIError::NoDevice);
    assert_eq!(FFIError::from(KelpError::NoImgui), FFIError::NoImgui);
    assert_eq!(FFIError::from(KelpError::ImguiError), FFIError::ImguiError);
    assert_eq!(FFIError::from(KelpError::InvalidDimensions), FFIError::InvalidDimensions);
    assert_eq!(FFIError::from(KelpError::AtlasFull), FFIError::AtlasFull);
}

#[test]
fn texture_id_round_trip() {
    let id = TextureId::new(7);
    assert_eq!(id.id(), 7);
    assert_eq!(TextureId::new(0).id(), 0);
}

#[test]
fn kelp_error_messages() {
    assert_eq!(KelpError::InvalidTextureId.message(), "Invalid texture id");
    assert_eq!(
        KelpError::NoCurrentFrame.message(),
        "Cannot interact with a frame before beginning one"
    );
    assert_eq!(KelpError::AtlasFull.message(), "Texture atlas is out of space");
}
