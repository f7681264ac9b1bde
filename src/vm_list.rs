//! The bounded list of decoded virtual machines, kept in an `ArrayVec`.
use vstd::prelude::*;
use arrayvec::ArrayVec;
use crate::manifest::ManifestVm;
use crate::MAX_VMS;

verus! {

#[verifier::external_type_specification]
#[verifier::external_body]
#[verifier::reject_recursive_types(T)]
pub struct ExArrayVec<T, const CAP: usize>(ArrayVec<T, CAP>);

/// The virtual machines a list holds, in order.
pub uninterp spec fn vms_of(v: ArrayVec<ManifestVm, MAX_VMS>) -> Seq<ManifestVm>;

/// Relies on `ArrayVec::new`: a new vector holds nothing.
#[verifier::external_body]
pub(crate) fn new_vms() -> (r: ArrayVec<ManifestVm, MAX_VMS>)
    ensures
        vms_of(r) == Seq::<ManifestVm>::empty(),
{
    ArrayVec::new()
}

/// Relies on `ArrayVec::clear`: every element is removed.
#[verifier::external_body]
pub(crate) fn clear_vms(v: &mut ArrayVec<ManifestVm, MAX_VMS>)
    ensures
        vms_of(*final(v)) == Seq::<ManifestVm>::empty(),
{
    v.clear()
}

/// Relies on `ArrayVec::push`: the element is appended at the end; it panics
/// only on a full vector, which the precondition rules out.
#[verifier::external_body]
pub(crate) fn push_vm(v: &mut ArrayVec<ManifestVm, MAX_VMS>, vm: ManifestVm)
    requires
        vms_of(*old(v)).len() < MAX_VMS,
    ensures
        vms_of(*final(v)) == vms_of(*old(v)).push(vm),
{
    v.push(vm)
}

} // verus!
