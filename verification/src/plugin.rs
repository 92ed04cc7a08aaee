//! Plugin driver metadata: capability masks and the host registry of
//! plugin-declared drivers.  Loading and verifying plugin artifacts is
//! outside work; the library only keeps their descriptors.

use vstd::prelude::*;
use vstd::string::StringExecFns;

verus! {

/// Commit capability bit.
pub const CAP_COMMIT: u32 = 1;

/// Rollback capability bit.
pub const CAP_ROLLBACK: u32 = 2;

/// Diff capability bit.
pub const CAP_DIFF: u32 = 4;

/// Dry-run capability bit.
pub const CAP_DRY_RUN: u32 = 8;

/// The capability bitmask a plugin exports.
#[derive(Clone, Copy, PartialEq, Eq, Structural, Debug)]
pub struct CapabilityMask {
    pub bits: u32,
}

impl CapabilityMask {
    /// A mask from raw bits.
    pub fn from_bits(bits: u32) -> (r: CapabilityMask)
        ensures
            r.bits == bits,
    {
        CapabilityMask { bits }
    }

    /// Whether every bit of `flag` is set.
    pub fn contains(&self, flag: u32) -> (r: bool)
        ensures
            r == (self.bits & flag == flag),
    {
        self.bits & flag == flag
    }

    /// The mask with all four standard capability bits set.
    pub fn all_standard() -> (r: CapabilityMask)
        ensures
            r.bits == (CAP_COMMIT | CAP_ROLLBACK | CAP_DIFF | CAP_DRY_RUN),
    {
        CapabilityMask { bits: CAP_COMMIT | CAP_ROLLBACK | CAP_DIFF | CAP_DRY_RUN }
    }
}

/// The metadata record a plugin exports.
#[derive(Clone, Copy, Debug)]
pub struct PluginMetadata {
    pub vendor: &'static str,
    pub device_type: &'static str,
    pub capabilities: CapabilityMask,
}

/// A driver contributed by a loaded plugin artifact.
#[derive(Debug)]
pub struct PluginDriverDescriptor {
    pub vendor: String,
    pub device_type: String,
    pub capabilities: CapabilityMask,
    pub artifact: String,
}

impl Clone for PluginDriverDescriptor {
    /// An exact copy.
    fn clone(&self) -> (r: Self)
        ensures
            r == *self,
    {
        PluginDriverDescriptor {
            vendor: self.vendor.clone(),
            device_type: self.device_type.clone(),
            capabilities: self.capabilities,
            artifact: self.artifact.clone(),
        }
    }
}

/// The registry of plugin drivers found at startup.
pub struct PluginHost {
    pub drivers: Vec<PluginDriverDescriptor>,
}

impl PluginHost {
    /// An empty host.
    pub fn new() -> (r: PluginHost)
        ensures
            r.drivers@.len() == 0,
    {
        PluginHost { drivers: Vec::new() }
    }

    /// Records one plugin driver.
    pub fn register_driver(&mut self, descriptor: PluginDriverDescriptor)
        ensures
            final(self).drivers@ == old(self).drivers@.push(descriptor),
    {
        self.drivers.push(descriptor);
    }
}

impl Clone for PluginHost {
    /// A copy with the same descriptors.
    fn clone(&self) -> (r: Self)
        ensures
            r.drivers@.len() == self.drivers@.len(),
    {
        let mut drivers: Vec<PluginDriverDescriptor> = Vec::new();
        let mut i: usize = 0;
        while i < self.drivers.len()
            invariant
                i <= self.drivers@.len(),
                drivers@.len() == i,
            decreases self.drivers@.len() - i,
        {
            drivers.push(self.drivers[i].clone());
            i = i + 1;
        }
        PluginHost { drivers }
    }
}

} // verus!
