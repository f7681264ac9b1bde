use vstd::prelude::*;

verus! {

/// Why a manifest could not be decoded. Each variant names one cause.
#[derive(PartialEq, Eq, Structural, Debug, Clone, Copy)]
pub enum Error {
    CorruptedFdt,
    NoRootFdtNode,
    NoHypervisorFdtNode,
    ReservedVmId,
    NoPrimaryVm,
    TooManyVms,
    PropertyNotFound,
    MalformedString,
    MalformedInteger,
    IntegerOverflow,
}

/// The human-readable message for each error; `from_spec` below states it.
impl From<Error> for &'static str {
    fn from(e: Error) -> (r: &'static str) {
        match e {
            Error::CorruptedFdt => "Manifest failed FDT validation",
            Error::NoRootFdtNode => "Could not find root node of manifest",
            Error::NoHypervisorFdtNode => "Could not find \"hypervisor\" node in manifest",
            Error::ReservedVmId => "Manifest defines a VM with a reserved ID",
            Error::NoPrimaryVm => "Manifest does not contain a primary VM entry",
            Error::TooManyVms => {
                "Manifest specifies more VMs than Hafnium has statically allocated space for"
            },
            Error::PropertyNotFound => "Property not found",
            Error::MalformedString => "Malformed string property",
            Error::MalformedInteger => "Malformed integer property",
            Error::IntegerOverflow => "Integer overflow",
        }
    }
}

impl vstd::std_specs::convert::FromSpecImpl<Error> for &'static str {
    open spec fn obeys_from_spec() -> bool {
        true
    }

    open spec fn from_spec(e: Error) -> &'static str {
        match e {
            Error::CorruptedFdt => "Manifest failed FDT validation",
            Error::NoRootFdtNode => "Could not find root node of manifest",
            Error::NoHypervisorFdtNode => "Could not find \"hypervisor\" node in manifest",
            Error::ReservedVmId => "Manifest defines a VM with a reserved ID",
            Error::NoPrimaryVm => "Manifest does not contain a primary VM entry",
            Error::TooManyVms => "Manifest specifies more VMs than Hafnium has statically allocated space for",
            Error::PropertyNotFound => "Property not found",
            Error::MalformedString => "Malformed string property",
            Error::MalformedInteger => "Malformed integer property",
            Error::IntegerOverflow => "Integer overflow",
        }
    }
}

} // verus!
