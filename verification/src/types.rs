//! Plain value types shared across the library: blend modes, handles,
//! instance records, batches, and the error enums.

use vstd::prelude::*;

verus! {

/// How a batch is blended onto its target. `ALPHA` is standard straight-alpha
/// src-over blending; `ADDITIVE` is src-alpha-scaled additive blending.
#[allow(non_camel_case_types)]
#[derive(Debug, PartialEq, Eq, Structural, Hash, Clone, Copy)]
pub enum BlendMode {
    ALPHA,
    ADDITIVE,
}

/// Per-instance shading mode selector. The GPU record turns this into a
/// one-hot selector vector.
#[derive(Debug, Clone, Copy, PartialEq, Eq, Structural)]
pub enum InstanceMode {
    Multiply,
    Wash,
    Veto,
}

/// Opaque identifier of a logical texture packed into the shared atlas.
/// Handles are assigned monotonically and never reused within a session.
#[derive(Debug, Copy, Clone, Eq, Hash, PartialEq, Structural)]
pub struct KelpTextureId {
    pub id: u32,
}

/// Opaque identifier of an off-screen render target texture.
#[derive(Debug, Copy, Clone, Eq, Hash, PartialEq, Structural)]
pub struct KelpTargetId {
    pub id: u32,
}

/// One quad's worth of GPU-ready instance data. Every field holds the raw
/// IEEE-754 bit pattern of the 32-bit float the shader reads; the library
/// moves these words around without interpreting them.
#[derive(Debug, Clone, Copy, PartialEq, Eq)]
pub struct InstanceGPU {
    /// RGBA color.
    pub color: [u32; 4],
    /// One-hot shading-mode selector.
    pub mode: [u32; 4],
    /// Atlas layer index and smoothing flag.
    pub layer_smooth: [u32; 2],
    /// Source rectangle origin in atlas-normalized UV space.
    pub source_trans: [u32; 2],
    /// Source rectangle extent in atlas-normalized UV space.
    pub source_scale: [u32; 2],
    /// First column of the 2x2 part of the world transform.
    pub world_col_1: [u32; 2],
    /// Second column of the 2x2 part of the world transform.
    pub world_col_2: [u32; 2],
    /// Translation of the world transform.
    pub world_trans: [u32; 2],
}

/// A batch of instances sharing one texture, smoothing flag and blend mode,
/// drawn with one draw call.
#[derive(Debug, Clone, Copy, PartialEq, Eq, Structural)]
pub struct InstanceBatch {
    pub texture: KelpTextureId,
    pub smooth: bool,
    pub blend_mode: BlendMode,
    pub instance_count: u32,
}

/// Everything that can go wrong inside the rendering core.
#[derive(Debug, Clone, Copy, PartialEq, Eq, Structural)]
pub enum KelpError {
    /// A frame operation was attempted before beginning a frame.
    NoCurrentFrame,
    /// The next swapchain texture could not be acquired.
    SwapchainError,
    /// Unknown texture handle.
    InvalidTextureId,
    /// Unknown render-target handle.
    InvalidTargetId,
    /// Unknown bind-group key.
    InvalidBindGroupId,
    /// Unknown pipeline key or index.
    InvalidPipelineId,
    /// No compatible GPU adapter was found.
    NoAdapter,
    /// No compatible logical device could be created.
    NoDevice,
    /// The immediate-mode UI renderer was not configured.
    NoImgui,
    /// The immediate-mode UI renderer failed.
    ImguiError,
    /// Pixel data length does not match the texture dimensions.
    InvalidDimensions,
    /// No atlas layer can fit the requested allocation and the layer count
    /// is at its maximum.
    AtlasFull,
}

impl KelpError {
    /// A short description of the error.
    pub fn message(&self) -> (r: &'static str) {
        match self {
            KelpError::NoCurrentFrame => "Cannot interact with a frame before beginning one",
            KelpError::SwapchainError => "Failed to acquire next swap chain texture",
            KelpError::InvalidTextureId => "Invalid texture id",
            KelpError::InvalidTargetId => "Invalid target id",
            KelpError::InvalidBindGroupId => "Invalid bind group id",
            KelpError::InvalidPipelineId => "Invalid pipeline id",
            KelpError::NoAdapter => "Failed to find an appropriate adapter",
            KelpError::NoDevice => "Failed to find an appropriate device",
            KelpError::NoImgui => "Imgui renderer not initialised",
            KelpError::ImguiError => "Imgui renderer error",
            KelpError::InvalidDimensions => "Pixel data does not match texture dimensions",
            KelpError::AtlasFull => "Texture atlas is out of space",
        }
    }
}

/// Which windowing system a native window handle belongs to.
#[derive(Debug, Clone, Copy, PartialEq, Eq, Structural)]
pub enum WindowType {
    Win32,
    Xlib,
    Wayland,
    AppKit,
}

/// Identifier of a texture registered with the immediate-mode UI renderer.
#[derive(Copy, Clone, Debug, Eq, PartialEq, Structural, Hash)]
pub struct TextureId(usize);

impl TextureId {
    /// The identifier this handle carries.
    pub closed spec fn spec_id(self) -> usize {
        self.0
    }

    /// Creates a new texture id with the given identifier.
    pub fn new(id: usize) -> (r: Self)
        ensures
            r.spec_id() == id,
    {
        TextureId(id)
    }

    /// Returns the id of the TextureId.
    pub fn id(self) -> (r: usize)
        ensures
            r == self.spec_id(),
    {
        self.0
    }
}

/// The font atlas texture the immediate-mode UI renderer uploads at start-up.
#[derive(Clone, Debug)]
pub struct FontTexture {
    /// Texture identifier.
    pub tex_id: Option<TextureId>,
    /// Texture width (in pixels).
    pub width: u32,
    /// Texture height (in pixels).
    pub height: u32,
    /// Raw texture data.
    pub data: Vec<u8>,
}

/// Configuration handed over when the immediate-mode UI integration is wanted.
pub struct ImGuiConfig(pub FontTexture);

/// The flat error code enum reported across the foreign-function boundary.
/// Codes are stable and additive: 0 is success, 1-2 are generic
/// foreign-call failures, the 100s mirror `KelpError`, and the 200s are
/// lifecycle errors of the foreign-function layer itself.
#[derive(Debug, Clone, Copy, PartialEq, Eq, Structural)]
pub enum FFIError {
    Success,
    Null,
    Panic,
    NoCurrentFrame,
    SwapchainError,
    InvalidTextureId,
    InvalidTargetId,
    InvalidBindGroupId,
    InvalidPipelineId,
    NoAdapter,
    NoDevice,
    NoImgui,
    ImguiError,
    InvalidDimensions,
    AtlasFull,
    KelpAlreadyInitialised,
    KelpNotInitialised,
}

impl FFIError {
    /// The stable integer code reported across the foreign-function boundary.
    pub fn code(&self) -> (r: u32)
        ensures
            r == self.spec_code(),
    {
        match self {
            FFIError::Success => 0,
            FFIError::Null => 1,
            FFIError::Panic => 2,
            FFIError::NoCurrentFrame => 100,
            FFIError::SwapchainError => 101,
            FFIError::InvalidTextureId => 102,
            FFIError::InvalidTargetId => 103,
            FFIError::InvalidBindGroupId => 104,
            FFIError::InvalidPipelineId => 105,
            FFIError::NoAdapter => 106,
            FFIError::NoDevice => 107,
            FFIError::NoImgui => 108,
            FFIError::ImguiError => 109,
            FFIError::InvalidDimensions => 110,
            FFIError::AtlasFull => 111,
            FFIError::KelpAlreadyInitialised => 200,
            FFIError::KelpNotInitialised => 201,
        }
    }

    /// The code each variant stands for.
    pub open spec fn spec_code(self) -> u32 {
        match self {
            FFIError::Success => 0,
            FFIError::Null => 1,
            FFIError::Panic => 2,
            FFIError::NoCurrentFrame => 100,
            FFIError::SwapchainError => 101,
            FFIError::InvalidTextureId => 102,
            FFIError::InvalidTargetId => 103,
            FFIError::InvalidBindGroupId => 104,
            FFIError::InvalidPipelineId => 105,
            FFIError::NoAdapter => 106,
            FFIError::NoDevice => 107,
            FFIError::NoImgui => 108,
            FFIError::ImguiError => 109,
            FFIError::InvalidDimensions => 110,
            FFIError::AtlasFull => 111,
            FFIError::KelpAlreadyInitialised => 200,
            FFIError::KelpNotInitialised => 201,
        }
    }
}

impl Default for FFIError {
    /// A fresh foreign-call status starts out successful.
    fn default() -> (r: Self)
        ensures
            r == FFIError::Success,
    {
        FFIError::Success
    }
}

/// How each library error maps onto its foreign-function code.
pub open spec fn ffi_error_of(error: KelpError) -> FFIError {
    match error {
        KelpError::NoCurrentFrame => FFIError::NoCurrentFrame,
        KelpError::SwapchainError => FFIError::SwapchainError,
        KelpError::InvalidTextureId => FFIError::InvalidTextureId,
        KelpError::InvalidTargetId => FFIError::InvalidTargetId,
        KelpError::InvalidBindGroupId => FFIError::InvalidBindGroupId,
        KelpError::InvalidPipelineId => FFIError::InvalidPipelineId,
        KelpError::NoAdapter => FFIError::NoAdapter,
        KelpError::NoDevice => FFIError::NoDevice,
        KelpError::NoImgui => FFIError::NoImgui,
        KelpError::ImguiError => FFIError::ImguiError,
        KelpError::InvalidDimensions => FFIError::InvalidDimensions,
        KelpError::AtlasFull => FFIError::AtlasFull,
    }
}

impl From<KelpError> for FFIError {
    fn from(error: KelpError) -> (r: Self) {
        match error {
            KelpError::NoCurrentFrame => FFIError::NoCurrentFrame,
            KelpError::SwapchainError => FFIError::SwapchainError,
            KelpError::InvalidTextureId => FFIError::InvalidTextureId,
            KelpError::InvalidTargetId => FFIError::InvalidTargetId,
            KelpError::InvalidBindGroupId => FFIError::InvalidBindGroupId,
            KelpError::InvalidPipelineId => FFIError::InvalidPipelineId,
            KelpError::NoAdapter => FFIError::NoAdapter,
            KelpError::NoDevice => FFIError::NoDevice,
            KelpError::NoImgui => FFIError::NoImgui,
            KelpError::ImguiError => FFIError::ImguiError,
            KelpError::InvalidDimensions => FFIError::InvalidDimensions,
            KelpError::AtlasFull => FFIError::AtlasFull,
        }
    }
}

impl vstd::std_specs::convert::FromSpecImpl<KelpError> for FFIError {
    open spec fn obeys_from_spec() -> bool {
        true
    }

    open spec fn from_spec(error: KelpError) -> Self {
        ffi_error_of(error)
    }
}

} // verus!
