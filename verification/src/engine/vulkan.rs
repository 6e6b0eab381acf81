//! The packed Vulkan version number: variant, major, minor and patch fields
//! packed into one 32-bit word as the API defines it.

use vstd::prelude::*;

verus! {

/// How the four version fields are packed into one word: bits 31..29 hold
/// the variant, 28..22 the major version, 21..12 the minor version and
/// 11..0 the patch version.
pub open spec fn spec_api_version(variant: u32, major: u32, minor: u32, patch: u32) -> u32 {
    (variant << 29) | (major << 22) | (minor << 12) | patch
}

/// A Vulkan API version number in its packed 32-bit encoding.
#[derive(Clone, Copy, PartialEq, Eq, Structural, Debug)]
pub struct VulkanVersion(pub u32);

impl VulkanVersion {
    /// Pack the four version fields into the API's 32-bit encoding.
    pub fn make_api_version(variant: u32, major: u32, minor: u32, patch: u32) -> (r: Self)
        ensures
            r.0 == spec_api_version(variant, major, minor, patch),
    {
        VulkanVersion((variant << 29u32) | (major << 22u32) | (minor << 12u32) | patch)
    }
}

impl From<u32> for VulkanVersion {
    /// An already-packed word is taken as it is.
    fn from(value: u32) -> (r: Self)
        ensures
            r.0 == value,
    {
        VulkanVersion(value)
    }
}

impl vstd::std_specs::convert::FromSpecImpl<u32> for VulkanVersion {
    open spec fn obeys_from_spec() -> bool {
        true
    }

    open spec fn from_spec(value: u32) -> VulkanVersion {
        VulkanVersion(value)
    }
}

impl From<(u32, u32, u32)> for VulkanVersion {
    /// A (major, minor, patch) triple is packed with variant 0.
    fn from(value: (u32, u32, u32)) -> (r: Self)
        ensures
            r.0 == spec_api_version(0, value.0, value.1, value.2),
    {
        VulkanVersion::make_api_version(0, value.0, value.1, value.2)
    }
}

impl vstd::std_specs::convert::FromSpecImpl<(u32, u32, u32)> for VulkanVersion {
    open spec fn obeys_from_spec() -> bool {
        true
    }

    open spec fn from_spec(value: (u32, u32, u32)) -> VulkanVersion {
        VulkanVersion(spec_api_version(0, value.0, value.1, value.2))
    }
}

impl From<(u32, u32, u32, u32)> for VulkanVersion {
    /// A (variant, major, minor, patch) quadruple is packed as given.
    fn from(value: (u32, u32, u32, u32)) -> (r: Self)
        ensures
            r.0 == spec_api_version(value.0, value.1, value.2, value.3),
    {
        VulkanVersion::make_api_version(value.0, value.1, value.2, value.3)
    }
}

impl vstd::std_specs::convert::FromSpecImpl<(u32, u32, u32, u32)> for VulkanVersion {
    open spec fn obeys_from_spec() -> bool {
        true
    }

    open spec fn from_spec(value: (u32, u32, u32, u32)) -> VulkanVersion {
        VulkanVersion(spec_api_version(value.0, value.1, value.2, value.3))
    }
}

impl From<&VulkanVersion> for VulkanVersion {
    fn from(value: &VulkanVersion) -> (r: Self)
        ensures
            r.0 == value.0,
    {
        VulkanVersion(value.0)
    }
}

impl vstd::std_specs::convert::FromSpecImpl<&VulkanVersion> for VulkanVersion {
    open spec fn obeys_from_spec() -> bool {
        true
    }

    open spec fn from_spec(value: &VulkanVersion) -> VulkanVersion {
        VulkanVersion(value.0)
    }
}

} // verus!
