//! Plain enumerations describing devices, pipelines, render passes, images
//! and commands: the vocabulary the rest of the crate speaks.

use vstd::prelude::*;

verus! {

/// An enum that describes the known instance extensions.
#[derive(Clone, Copy, Debug)]
pub enum InstanceExtension {
    /// The instance portability extension.
    PortabilityEnumeration,
}

impl InstanceExtension {
    /// Returns the string value of the extension.
    pub fn as_str(&self) -> &'static str {
        match self {
            InstanceExtension::PortabilityEnumeration => "VK_KHR_portability_enumeration",
        }
    }
}

/// An enum that describes the known instance layers.
#[derive(Clone, Copy, Debug)]
pub enum InstanceLayer {
    /// The Khronos validation layer.
    KhronosValidation,
}

impl InstanceLayer {
    /// Returns the string value of the layer.
    pub fn as_str(&self) -> &'static str {
        match self {
            InstanceLayer::KhronosValidation => "VK_LAYER_KHRONOS_validation",
        }
    }
}

/// Enumerates the possible device types.
#[derive(Clone, Copy, Debug, Eq, PartialEq, Structural)]
pub enum DeviceKind {
    /// A discrete GPU.
    Discrete,
    /// An integrated but dedicated GPU.
    Integrated,
    /// A virtual GPU.
    Virtual,
    /// No dedicated GPU at all, just the CPU doing GPU work.
    Cpu,
    /// A GPU type we do not know.
    Other,
}

impl DeviceKind {
    /// A device's "CPU disconnectedness" score: devices with a higher score
    /// are more discrete, and presumed more powerful.
    pub fn score(&self) -> (r: u32)
        ensures
            r == (match self {
                DeviceKind::Discrete => 4int,
                DeviceKind::Integrated => 3int,
                DeviceKind::Virtual => 2int,
                DeviceKind::Cpu => 1int,
                DeviceKind::Other => 0int,
            }),
    {
        match self {
            DeviceKind::Discrete => 4,
            DeviceKind::Integrated => 3,
            DeviceKind::Virtual => 2,
            DeviceKind::Cpu => 1,
            DeviceKind::Other => 0,
        }
    }
}

/// An enum that describes the known device extensions.
#[derive(Clone, Copy, Debug)]
pub enum DeviceExtension {
    /// The swapchain device extension.
    Swapchain,
    /// The portability subset extension.
    PortabilitySubset,
    /// The 8-bit index extension.
    SmallIndices,
}

impl DeviceExtension {
    /// Returns the string value of the extension.
    pub fn as_str(&self) -> &'static str {
        match self {
            DeviceExtension::Swapchain => "VK_KHR_swapchain",
            DeviceExtension::PortabilitySubset => "VK_KHR_portability_subset",
            DeviceExtension::SmallIndices => "VK_EXT_index_type_uint8",
        }
    }
}

/// An enum that describes the known device layers.
#[derive(Clone, Copy, Debug)]
pub enum DeviceLayer {
    /// A dummy layer as a temporary placeholder.
    Dummy,
}

impl DeviceLayer {
    /// Returns the string value of the layer.
    pub fn as_str(&self) -> &'static str {
        match self {
            DeviceLayer::Dummy => "dummy",
        }
    }
}

/// The types of queues a device schedules work on.
#[derive(Clone, Copy, Debug)]
pub enum QueueKind {
    /// The queue used for graphics operations.
    Graphics,
    /// The queue used for memory operations.
    Memory,
    /// The queue used for present operations.
    Present,
    /// The queue used for compute operations.
    Compute,
}

/// Defines the possible descriptor types.
#[derive(Clone, Copy, Debug)]
pub enum DescriptorKind {
    /// Describes a uniform buffer.
    UniformBuffer,
    /// Describes a storage buffer.
    StorageBuffer,
    /// Describes a dynamic uniform buffer.
    UniformDynamicBuffer,
    /// Describes a dynamic storage buffer.
    StorageDynamicBuffer,
    /// Describes a uniform texel buffer.
    UniformTexelBuffer,
    /// Describes a storage texel buffer.
    StorageTexelBuffer,
    /// Describes an input attachment.
    InputAttachment,
    /// Describes a single storage image.
    StorageImage,
    /// Describes a single, sampled image.
    SampledImage,
    /// Describes a texture sampler.
    Sampler,
    /// Describes a combined image sampler.
    CombindImageSampler,
}

/// Defines a load operation for attachments.
#[derive(Clone, Copy, Debug)]
pub enum AttachmentLoadOp {
    /// The attachment's value may be anything (it is left undefined).
    DontCare,
    /// Clear the attachment upon loading.
    Clear,
    /// Loads whatever values were already in the attachment.
    Load,
}

/// Defines a store operation for attachments.
#[derive(Clone, Copy, Debug)]
pub enum AttachmentStoreOp {
    /// The attachment's value may be anything (it is left undefined).
    DontCare,
    /// Stores the values of the attachment for the next subpass.
    Store,
}

/// The point where a subpass will be attached to the pipeline.
#[derive(Clone, Copy, Debug)]
pub enum BindPoint {
    /// The subpass attaches to the graphics part of the pipeline.
    Graphics,
    /// The subpass attaches to the compute part of the pipeline.
    Compute,
}

/// Defines the possible layouts for a vertex attribute.
#[derive(Clone, Copy, Debug)]
pub enum AttributeLayout {
    /// A two-dimensional vector of single-precision numbers.
    Float2,
    /// A three-dimensional vector of single-precision numbers.
    Float3,
}

/// Defines how vertices are read from the buffer: direct or instanced.
#[derive(Clone, Copy, Debug)]
pub enum VertexInputRate {
    /// Input the vertices as-is.
    Vertex,
    /// Render instance-based.
    Instance,
}

/// Defines the possible topologies for input vertices.
#[derive(Clone, Copy, Debug)]
pub enum VertexTopology {
    /// The vertices each define separate points.
    PointList,
    /// The vertices define a list of separate lines.
    LineList,
    /// The vertices define a list of consecutive lines.
    LineStrip,
    /// The vertices define separate lines with adjacent points.
    LineListAdjacency,
    /// The vertices define consecutive lines with adjacent points.
    LineStripAdjacency,
    /// The vertices define a list of separate triangles.
    TriangleList,
    /// The vertices define triangles that share edges.
    TriangleStrip,
    /// The vertices define triangles that share a common origin vertex.
    TriangleFan,
    /// The vertices define separate triangles with adjacent points.
    TriangleListAdjacency,
    /// The vertices define edge-sharing triangles with adjacent points.
    TriangleStripAdjacency,
    /// The vertices define no particular shape and feed tessellation.
    PatchList,
}

/// Defines the possible culling modes.
#[derive(Clone, Copy, Debug)]
pub enum CullMode {
    /// Cull triangles seen from both the front and the back.
    FrontAndBack,
    /// Only cull triangles facing us.
    Front,
    /// Only cull triangles facing away from us.
    Back,
    /// Do not cull any triangles.
    Disabled,
}

/// Defines which winding direction counts as "front".
#[derive(Clone, Copy, Debug)]
pub enum FrontFace {
    /// The clockwise-wound triangles are front.
    Clockwise,
    /// The counter-clockwise-wound triangles are front.
    CounterClockwise,
}

/// Defines how to draw in-between the vertices.
#[derive(Clone, Copy, Debug)]
pub enum DrawMode {
    /// Only draw the points of the primitive shape.
    Point,
    /// Only draw the contours of the primitive shape.
    Line,
    /// Fill the entire shape.
    Fill,
}

/// Defines the possible operations on stencils.
#[derive(Clone, Copy, Debug)]
pub enum StencilOp {
    /// Keeps the fragment.
    Keep,
    /// Sets the value to zero.
    Zero,
    /// Replaces the fragment with another value.
    Replace,
    /// Bitwise-inverts the value.
    Invert,
    /// Increments the value, clamping at the maximum.
    IncrementClamp,
    /// Decrements the value, clamping at zero.
    DecrementClamp,
    /// Increments the value, wrapping around.
    IncrementWrap,
    /// Decrements the value, wrapping around.
    DecrementWrap,
}

/// Defines the possible comparison operations.
#[derive(Clone, Copy, Debug)]
pub enum CompareOp {
    /// The comparison always succeeds.
    Always,
    /// The comparison never succeeds.
    Never,
    /// Succeeds when the first operand is smaller.
    Less,
    /// Succeeds when the first operand is smaller or equal.
    LessEq,
    /// Succeeds when the first operand is greater.
    Greater,
    /// Succeeds when the first operand is greater or equal.
    GreaterEq,
    /// Succeeds when the operands are equal.
    Equal,
    /// Succeeds when the operands differ.
    NotEqual,
}

/// Defines the logic operations on framebuffer bits.
#[derive(Clone, Copy, Debug)]
pub enum LogicOp {
    /// Leaves the destination as-is.
    NoOp,
    /// Sets the bits of the destination to zero.
    Clear,
    /// Sets the bits of the destination to one.
    SetAll,
    /// Copies the bits of the source to the destination.
    Copy,
    /// Copies the negated bits of the source.
    CopyInv,
    /// Negates the destination.
    Not,
    /// A bitwise AND.
    And,
    /// A bitwise AND with the source negated.
    AndInv,
    /// A bitwise AND with the destination negated.
    AndRev,
    /// A negated bitwise AND.
    NAnd,
    /// A bitwise XOR.
    Xor,
    /// A negated bitwise XOR.
    NXor,
    /// A bitwise OR.
    Or,
    /// A bitwise OR with the source negated.
    OrInv,
    /// A bitwise OR with the destination negated.
    OrRev,
    /// A negated bitwise OR.
    NOr,
}

/// Defines the factor of some value to take in a blending operation.
#[derive(Clone, Copy, Debug)]
pub enum BlendFactor {
    /// Use none of the colour.
    Zero,
    /// Use all of the colour.
    One,
    /// Scale by the source colour.
    SrcColour,
    /// Scale by one minus the source colour.
    OneMinusSrcColour,
    /// Scale by the destination colour.
    DstColour,
    /// Scale by one minus the destination colour.
    OneMinusDstColour,
    /// Scale by the source alpha.
    SrcAlpha,
    /// Scale by one minus the source alpha.
    OneMinusSrcAlpha,
    /// Scale by the destination alpha.
    DstAlpha,
    /// Scale by one minus the destination alpha.
    OneMinusDstAlpha,
    /// Scale by a constant colour.
    ConstColour,
    /// Scale by one minus a constant colour.
    OneMinusConstColour,
    /// Scale by a constant alpha.
    ConstAlpha,
    /// Scale by one minus a constant alpha.
    OneMinusConstAlpha,
    /// Scale by the second source colour.
    SrcColour2,
    /// Scale by one minus the second source colour.
    OneMinusSrcColour2,
    /// Scale by the second source alpha.
    SrcAlpha2,
    /// Scale by one minus the second source alpha.
    OneMinusSrcAlpha2,
    /// Scale by the saturated source alpha.
    SrcAlphaSaturate,
}

/// Defines how the source and destination factors are combined.
#[derive(Clone, Copy, Debug)]
pub enum BlendOp {
    /// Adds the two parts.
    Add,
    /// Subtracts the destination from the source.
    Sub,
    /// Subtracts the source from the destination.
    SubRev,
    /// Takes the smaller of the two parts.
    Min,
    /// Takes the larger of the two parts.
    Max,
}

/// The pieces of the pipeline that may change without a rebuild.
#[derive(Clone, Copy, Debug)]
pub enum DynamicState {
    /// The viewport may change.
    Viewport,
    /// The scissor may change.
    Scissor,
    /// The line width may change.
    LineWidth,
    /// The depth bias may change.
    DepthBias,
    /// The depth bounds may change.
    DepthBounds,
    /// The blend constants may change.
    BlendConstants,
    /// The stencil compare mask may change.
    StencilCompareMask,
    /// The stencil write mask may change.
    StencilWriteMask,
    /// The stencil reference may change.
    StencilReference,
}

/// The level of a command buffer.
#[derive(Clone, Copy, Debug)]
pub enum CommandBufferLevel {
    /// The command buffer is primary: it can be submitted directly.
    Primary,
    /// The command buffer is secondary: it runs from a primary one.
    Secondary,
}

/// How a resource is shared between queue families.
#[derive(Clone, Debug)]
pub enum SharingMode {
    /// The resource belongs to one queue family at a time.
    Exclusive,
    /// The resource is shared between the queue families with the given
    /// indices.
    Concurrent(Vec<u32>),
}

/// The width of the indices in an index buffer.
#[derive(Clone, Copy, Debug, Eq, PartialEq, Structural)]
pub enum IndexType {
    /// The indices are 8-bit.
    UInt8,
    /// The indices are 16-bit.
    UInt16,
    /// The indices are 32-bit.
    UInt32,
}

impl IndexType {
    /// The size of one index, in bytes.
    pub fn vk_size(&self) -> (r: usize)
        ensures
            r == (match self {
                IndexType::UInt8 => 1int,
                IndexType::UInt16 => 2int,
                IndexType::UInt32 => 4int,
            }),
    {
        match self {
            IndexType::UInt8 => 1,
            IndexType::UInt16 => 2,
            IndexType::UInt32 => 4,
        }
    }
}

/// The allocation strategies a memory pool may use.
#[derive(Clone, Copy, Debug, Eq, PartialEq, Structural)]
pub enum MemoryAllocatorKind {
    /// The free-list strategy, which reuses freed regions.
    Dense,
    /// The bump strategy, identified by a pool id.
    Linear(u64),
}

impl Default for MemoryAllocatorKind {
    /// The free-list strategy is the default.
    fn default() -> (r: Self)
        ensures
            r == MemoryAllocatorKind::Dense,
    {
        MemoryAllocatorKind::Dense
    }
}

/// How one channel of an image view is filled.
#[derive(Clone, Copy, Debug)]
pub enum ComponentSwizzle {
    /// The channel maps to itself.
    Identity,
    /// The channel is all ones.
    One,
    /// The channel is all zeroes.
    Zero,
    /// The channel maps to the red channel.
    Red,
    /// The channel maps to the green channel.
    Green,
    /// The channel maps to the blue channel.
    Blue,
    /// The channel maps to the alpha channel.
    Alpha,
}

/// The dimensionality of an image view.
#[derive(Clone, Copy, Debug)]
pub enum ImageViewKind {
    /// A one-dimensional image.
    OneD,
    /// An array of one-dimensional images.
    OneDArray,
    /// A two-dimensional image.
    TwoD,
    /// An array of two-dimensional images.
    TwoDArray,
    /// A three-dimensional image.
    ThreeD,
    /// A cube of images.
    Cube,
    /// An array of cubes of images.
    CubeArray,
}

impl Default for ImageViewKind {
    /// Two-dimensional views are the default.
    fn default() -> (r: Self)
        ensures
            r matches ImageViewKind::TwoD,
    {
        ImageViewKind::TwoD
    }
}

/// The layout an image is kept in while it is used for some purpose.
#[derive(Clone, Copy, Debug)]
pub enum ImageLayout {
    /// We do not care or know about the layout.
    Undefined,
    /// The image is preinitialized by the host.
    Preinitialized,
    /// A layout that supports all operations, though none optimally.
    General,
    /// Optimal for a colour attachment.
    ColourAttachment,
    /// Optimal for a depth/stencil attachment.
    DepthStencil,
    /// Optimal for a read-only depth/stencil attachment.
    DepthStencilReadOnly,
    /// Optimal for shader reads.
    ShaderReadOnly,
    /// Optimal for presenting.
    Present,
    /// Optimal as the source of a transfer.
    TransferSrc,
    /// Optimal as the destination of a transfer.
    TransferDst,
}

/// The aspects of an image a view may select.
#[derive(Clone, Copy, Debug)]
pub enum ImageAspect {
    /// The colour aspect.
    Colour,
    /// The depth aspect.
    Depth,
    /// The stencil aspect.
    Stencil,
    /// The metadata aspect.
    Metadata,
}

} // verus!
