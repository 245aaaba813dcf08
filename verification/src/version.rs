//! Version numbers in the packed forms the device APIs use.

use vstd::prelude::*;

verus! {

/// Defines API-compatible version numbers: a variant, then the usual major,
/// minor and patch triple.
#[derive(Clone, Copy, Debug, Eq, PartialEq, Structural)]
pub struct ApiVersion {
    /// The variant identifier of the API.
    pub variant: u8,
    /// The major version number.
    pub major: u8,
    /// The minor version number.
    pub minor: u16,
    /// The patch version number.
    pub patch: u16,
}

impl ApiVersion {
    /// Builds a version of the default variant (zero) from the usual triple.
    pub fn new(major: u8, minor: u16, patch: u16) -> (r: Self)
        ensures
            r.variant == 0,
            r.major == major,
            r.minor == minor,
            r.patch == patch,
    {
        ApiVersion { variant: 0, major, minor, patch }
    }

    /// Builds a version with a custom variant identifier.
    pub fn new_with_variant(variant: u8, major: u8, minor: u16, patch: u16) -> (r: Self)
        ensures
            r.variant == variant,
            r.major == major,
            r.minor == minor,
            r.patch == patch,
    {
        ApiVersion { variant, major, minor, patch }
    }
}

/// Defines device driver version numbers.
///
/// The packing of these differs per vendor, so the raw number is kept as-is.
#[derive(Clone, Copy, Debug, Eq, PartialEq, Structural)]
pub struct DriverVersion(u32);

impl DriverVersion {
    /// The raw number behind the version.
    pub closed spec fn spec_raw(self) -> u32 {
        self.0
    }

    /// Wraps a raw driver version number.
    pub fn from_raw(value: u32) -> (r: Self)
        ensures
            r.spec_raw() == value,
    {
        DriverVersion(value)
    }

    /// Returns the raw number behind the version.
    pub fn as_raw(&self) -> (r: u32)
        ensures
            r == self.spec_raw(),
    {
        self.0
    }
}

} // verus!
