use vstd::prelude::*;

verus! {

/// Why a grid could not be built or a render call was refused.
///
/// These all mark configuration mistakes by the caller: the renderer refuses
/// to proceed rather than produce partial or garbage geometry.
#[derive(Clone, Copy, PartialEq, Eq, Structural, Debug)]
pub enum ConfigError {
    /// A grid extent was zero.
    EmptyGridDimension,
    /// A grid extent was beyond what the traversal's integer arithmetic
    /// accommodates.
    GridDimensionTooLarge,
    /// The requested framebuffer width was zero.
    ZeroWidth,
    /// The requested framebuffer height was zero.
    ZeroHeight,
    /// The number of ray plans handed in does not cover the pixel grid
    /// exactly.
    PlanCountMismatch,
}

} // verus!
