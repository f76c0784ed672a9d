//! Pixel formats, attachment operations, and clear-value selection.
//!
//! Color components are carried as the raw 32 bits of the caller's channel
//! values; how those bits are read (floating point or integer) is decided by
//! the attachment's pixel-format channel type.

use vstd::prelude::*;

verus! {

/// What happens to an attachment's contents when a pass begins.
#[derive(Copy, Clone, Debug, PartialEq, Eq, Structural, Hash)]
pub enum LoadOp {
    /// Replace the contents with a clear value.
    Clear,
    /// Keep the existing contents.
    Load,
}

/// What happens to an attachment's contents when a pass ends.
#[derive(Copy, Clone, Debug, PartialEq, Eq, Structural, Hash)]
pub enum StoreOp {
    /// Write the results back to the attachment.
    Store,
}

/// How a pixel format's channels are to be interpreted.
#[derive(Copy, Clone, Debug, PartialEq, Eq, Structural)]
pub enum ChannelType {
    Unorm,
    Snorm,
    Uint,
    Sint,
    Ufloat,
    Sfloat,
    Uscaled,
    Sscaled,
    Srgb,
}

/// The pixel formats an attachment view can have.
#[derive(Copy, Clone, Debug, PartialEq, Eq, Structural)]
pub enum TextureFormat {
    R8Unorm,
    R8Snorm,
    R8Uint,
    R8Sint,
    Rg8Unorm,
    Rgba8Unorm,
    Rgba8UnormSrgb,
    Bgra8Unorm,
    Bgra8UnormSrgb,
    Rgba8Uint,
    Rgba8Sint,
    R32Float,
    Rgba16Float,
    Rgba32Float,
    D32Float,
    D32FloatS8Uint,
}

/// The channel type of each pixel format.
pub open spec fn spec_channel_type(format: TextureFormat) -> ChannelType {
    match format {
        TextureFormat::R8Unorm => ChannelType::Unorm,
        TextureFormat::R8Snorm => ChannelType::Snorm,
        TextureFormat::R8Uint => ChannelType::Uint,
        TextureFormat::R8Sint => ChannelType::Sint,
        TextureFormat::Rg8Unorm => ChannelType::Unorm,
        TextureFormat::Rgba8Unorm => ChannelType::Unorm,
        TextureFormat::Rgba8UnormSrgb => ChannelType::Srgb,
        TextureFormat::Bgra8Unorm => ChannelType::Unorm,
        TextureFormat::Bgra8UnormSrgb => ChannelType::Srgb,
        TextureFormat::Rgba8Uint => ChannelType::Uint,
        TextureFormat::Rgba8Sint => ChannelType::Sint,
        TextureFormat::R32Float => ChannelType::Sfloat,
        TextureFormat::Rgba16Float => ChannelType::Sfloat,
        TextureFormat::Rgba32Float => ChannelType::Sfloat,
        TextureFormat::D32Float => ChannelType::Sfloat,
        TextureFormat::D32FloatS8Uint => ChannelType::Sfloat,
    }
}

/// The channel type of each pixel format.
#[verifier::when_used_as_spec(spec_channel_type)]
pub fn channel_type(format: TextureFormat) -> (c: ChannelType)
    ensures
        c == spec_channel_type(format),
{
    match format {
        TextureFormat::R8Unorm => ChannelType::Unorm,
        TextureFormat::R8Snorm => ChannelType::Snorm,
        TextureFormat::R8Uint => ChannelType::Uint,
        TextureFormat::R8Sint => ChannelType::Sint,
        TextureFormat::Rg8Unorm => ChannelType::Unorm,
        TextureFormat::Rgba8Unorm => ChannelType::Unorm,
        TextureFormat::Rgba8UnormSrgb => ChannelType::Srgb,
        TextureFormat::Bgra8Unorm => ChannelType::Unorm,
        TextureFormat::Bgra8UnormSrgb => ChannelType::Srgb,
        TextureFormat::Rgba8Uint => ChannelType::Uint,
        TextureFormat::Rgba8Sint => ChannelType::Sint,
        TextureFormat::R32Float => ChannelType::Sfloat,
        TextureFormat::Rgba16Float => ChannelType::Sfloat,
        TextureFormat::Rgba32Float => ChannelType::Sfloat,
        TextureFormat::D32Float => ChannelType::Sfloat,
        TextureFormat::D32FloatS8Uint => ChannelType::Sfloat,
    }
}

/// Whether a channel type is an integer one (signed or unsigned).
pub open spec fn is_integer_channel(c: ChannelType) -> bool {
    c == ChannelType::Sint || c == ChannelType::Uint
}

/// A four-component color; each component holds the raw 32 bits of the
/// caller's channel value.
#[derive(Copy, Clone, Debug, PartialEq, Eq, Structural)]
pub struct Color {
    pub r: u32,
    pub g: u32,
    pub b: u32,
    pub a: u32,
}

/// A color clear value, tagged with how its four components are to be read.
#[derive(Copy, Clone, Debug, PartialEq, Eq, Structural)]
pub enum ClearColor {
    /// Components are floating-point channel values.
    Float(Color),
    /// Components are signed integer channel values.
    Int(Color),
    /// Components are unsigned integer channel values.
    Uint(Color),
}

/// A combined depth-stencil clear value; `depth` holds the raw 32 bits of the
/// depth value, `stencil` an unsigned integer.
#[derive(Copy, Clone, Debug, PartialEq, Eq, Structural)]
pub struct DepthStencilClear {
    pub depth: u32,
    pub stencil: u32,
}

/// One clear value handed to the backend when a pass begins.
#[derive(Copy, Clone, Debug, PartialEq, Eq, Structural)]
pub enum ClearValue {
    Color(ClearColor),
    DepthStencil(DepthStencilClear),
}

/// The clear value a color attachment contributes: none under a load
/// operation; under clear, the four components read according to the
/// format's channel type, the integer variants exactly for the integer
/// channel types.
pub open spec fn spec_color_clear_value(load_op: LoadOp, format: TextureFormat, color: Color) -> Option<ClearValue> {
    match load_op {
        LoadOp::Load => None,
        LoadOp::Clear => match spec_channel_type(format) {
            ChannelType::Sint => Some(ClearValue::Color(ClearColor::Int(color))),
            ChannelType::Uint => Some(ClearValue::Color(ClearColor::Uint(color))),
            _ => Some(ClearValue::Color(ClearColor::Float(color))),
        },
    }
}

/// Selects the clear value a color attachment contributes.
pub fn color_clear_value(load_op: LoadOp, format: TextureFormat, color: Color) -> (v: Option<ClearValue>)
    ensures
        v == spec_color_clear_value(load_op, format, color),
{
    match load_op {
        LoadOp::Load => None,
        LoadOp::Clear => match channel_type(format) {
            ChannelType::Sint => Some(ClearValue::Color(ClearColor::Int(color))),
            ChannelType::Uint => Some(ClearValue::Color(ClearColor::Uint(color))),
            _ => Some(ClearValue::Color(ClearColor::Float(color))),
        },
    }
}

/// An integer pixel format always selects the corresponding integer clear
/// variant and never the floating-point one; a non-integer format always
/// selects the floating-point variant and never an integer one.
pub proof fn lemma_clear_variant_matches_channel(format: TextureFormat, color: Color)
    ensures
        is_integer_channel(spec_channel_type(format)) ==> {
            let v = spec_color_clear_value(LoadOp::Clear, format, color);
            &&& v matches Some(ClearValue::Color(c))
            &&& !(c matches ClearColor::Float(_))
        },
        !is_integer_channel(spec_channel_type(format)) ==> spec_color_clear_value(
            LoadOp::Clear,
            format,
            color,
        ) == Some(ClearValue::Color(ClearColor::Float(color))),
{
}

/// The clear value a depth-stencil attachment contributes: none when both
/// its depth and its stencil operation load the existing contents, the
/// combined clear value as soon as either requests a clear.
pub open spec fn spec_depth_stencil_clear_value(
    depth_load_op: LoadOp,
    stencil_load_op: LoadOp,
    clear_depth: u32,
    clear_stencil: u32,
) -> Option<ClearValue> {
    if depth_load_op == LoadOp::Load && stencil_load_op == LoadOp::Load {
        None
    } else {
        Some(ClearValue::DepthStencil(DepthStencilClear { depth: clear_depth, stencil: clear_stencil }))
    }
}

/// Selects the clear value a depth-stencil attachment contributes.
pub fn depth_stencil_clear_value(
    depth_load_op: LoadOp,
    stencil_load_op: LoadOp,
    clear_depth: u32,
    clear_stencil: u32,
) -> (v: Option<ClearValue>)
    ensures
        v == spec_depth_stencil_clear_value(depth_load_op, stencil_load_op, clear_depth, clear_stencil),
{
    match (depth_load_op, stencil_load_op) {
        (LoadOp::Load, LoadOp::Load) => None,
        _ => Some(ClearValue::DepthStencil(DepthStencilClear { depth: clear_depth, stencil: clear_stencil })),
    }
}

/// A two-dimensional extent in pixels.
#[derive(Copy, Clone, Debug, PartialEq, Eq, Structural)]
pub struct Extent {
    pub width: u32,
    pub height: u32,
}

/// An axis-aligned pixel rectangle.
#[derive(Copy, Clone, Debug, PartialEq, Eq, Structural)]
pub struct Rect {
    pub x: u32,
    pub y: u32,
    pub w: u32,
    pub h: u32,
}

} // verus!
