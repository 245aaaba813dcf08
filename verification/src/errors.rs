//! The errors that allocation can fail with.
//!
//! The two variants are deliberately distinct: a caller that sees
//! [`MemoryPoolError::OutOfMemoryError`] may free unrelated resources and
//! retry, while [`MemoryPoolError::UnsupportedMemoryRequirements`] cannot be
//! remedied without changing the request itself.

use vstd::prelude::*;

use crate::flags::{DeviceMemoryTypeFlags, MemoryPropertyFlags};

verus! {

/// Errors for parsing extension and layer names.
#[derive(Clone, Debug)]
pub enum ExtensionError {
    /// The given string was not a valid instance extension.
    UnknownInstanceExtension { got: String },
    /// The given string was not a valid instance layer.
    UnknownInstanceLayer { got: String },
    /// The given string was not a valid device extension.
    UnknownDeviceExtension { got: String },
    /// The given string was not a valid device layer.
    UnknownDeviceLayer { got: String },
}

/// Errors for images.
#[derive(Clone, Copy, Debug)]
pub enum ImageError {
    /// A temporary placeholder error.
    Temp,
}

/// Defines errors for the memory pools.
#[derive(Clone, Copy, Debug, PartialEq, Eq, Structural)]
pub enum MemoryPoolError {
    /// No memory type exists at all with all of the required types and
    /// properties.
    UnsupportedMemoryRequirements { types: DeviceMemoryTypeFlags, props: MemoryPropertyFlags },
    /// Could not allocate a new contiguous block of memory because no
    /// candidate had enough space left.
    OutOfMemoryError { req_size: usize },
}

impl MemoryPoolError {
    /// A short human-readable rendering of the error.
    pub fn describe(&self) -> String {
        match self {
            MemoryPoolError::UnsupportedMemoryRequirements { .. } => String::from_str(
                "no memory type supports the requested types and properties",
            ),
            MemoryPoolError::OutOfMemoryError { .. } => String::from_str(
                "could not allocate a new block of the requested size",
            ),
        }
    }
}

} // verus!
