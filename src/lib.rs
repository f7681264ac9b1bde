//! Decoder for the hypervisor's boot manifest: turns a flattened device tree
//! into a bounded, typed list of virtual machine descriptions.

pub mod error;
pub mod fdt;
pub mod keys;
pub mod laws;
pub mod manifest;
pub mod name;
pub mod vm_list;

pub use error::Error;
pub use manifest::{Manifest, ManifestVm};

use vstd::prelude::*;

verus! {

/// Largest number of virtual machines the manifest can describe.
pub const MAX_VMS: usize = 16;

/// The first identifier that a configured virtual machine may carry; lower
/// identifiers are reserved for the hypervisor itself.
pub const HF_VM_ID_OFFSET: u16 = 1;

/// Identifier of the primary virtual machine.
pub const HF_PRIMARY_VM_ID: u16 = 1;

} // verus!
