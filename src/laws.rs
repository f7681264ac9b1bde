//! Facts about what decoding a manifest gives, stated over whole trees.
use vstd::prelude::*;
use crate::error::Error;
use crate::fdt::{FdtNode, root_of};
use crate::manifest::{ManifestVm, parse_manifest, hypervisor_node, has_reserved_vm, vms_from, vm_of};
use crate::name::vm_name;
use crate::{MAX_VMS, HF_VM_ID_OFFSET};

verus! {

/// Whether the node for the machine at position `i` (identifier
/// `HF_VM_ID_OFFSET + i`) exists under `hyp` and decodes.
pub open spec fn valid_vm_at(s: Seq<u8>, hyp: FdtNode, i: nat) -> bool {
    match hyp.child(s, vm_name((HF_VM_ID_OFFSET + i) as nat)) {
        Some(node) => vm_of(s, node, (HF_VM_ID_OFFSET + i) as u16) is Ok,
        None => false,
    }
}

/// The machine that the node at position `i` under `hyp` decodes to.
pub open spec fn vm_at(s: Seq<u8>, hyp: FdtNode, i: nat) -> ManifestVm {
    vm_of(
        s,
        hyp.child(s, vm_name((HF_VM_ID_OFFSET + i) as nat))->0,
        (HF_VM_ID_OFFSET + i) as u16,
    )->Ok_0
}

/// A tree with no "hypervisor" node under its root node is refused, by the
/// first lookup that fails: never with a later error, never accepted.
pub proof fn lemma_no_hypervisor_node(s: Seq<u8>)
    requires
        hypervisor_node(s) is None,
    ensures
        parse_manifest(s) == Err::<Seq<ManifestVm>, Error>(Error::CorruptedFdt)
            || parse_manifest(s) == Err::<Seq<ManifestVm>, Error>(
            Error::NoRootFdtNode,
        ) || parse_manifest(s) == Err::<Seq<ManifestVm>, Error>(
            Error::NoHypervisorFdtNode,
        ),
        root_of(s) matches Some(fdt) && fdt.child(s, Seq::empty()) is Some ==> parse_manifest(s)
            == Err::<Seq<ManifestVm>, Error>(Error::NoHypervisorFdtNode),
{
}

/// A "hypervisor" node with no child named after a machine identifier
/// describes no primary machine.
pub proof fn lemma_no_vms(s: Seq<u8>, hyp: FdtNode)
    requires
        hypervisor_node(s) == Some(hyp),
        forall|id: nat| (#[trigger] hyp.child(s, vm_name(id))) is None,
    ensures
        parse_manifest(s) == Err::<Seq<ManifestVm>, Error>(Error::NoPrimaryVm),
{
    assert(hyp.child(s, vm_name(HF_VM_ID_OFFSET as nat)) is None);
    assert(!has_reserved_vm(s, hyp));
}

/// A node with a reserved identifier under "hypervisor" is refused, however
/// well the other nodes decode.
pub proof fn lemma_reserved_vm_id(s: Seq<u8>, hyp: FdtNode, id: nat)
    requires
        hypervisor_node(s) == Some(hyp),
        id < HF_VM_ID_OFFSET,
        hyp.child(s, vm_name(id)) is Some,
    ensures
        parse_manifest(s) == Err::<Seq<ManifestVm>, Error>(Error::ReservedVmId),
{
    assert(has_reserved_vm(s, hyp));
}

proof fn lemma_vms_from_overflow(s: Seq<u8>, hyp: FdtNode, i: nat)
    requires
        i <= MAX_VMS,
        forall|j: nat| i <= j < MAX_VMS ==> #[trigger] valid_vm_at(s, hyp, j),
        hyp.child(s, vm_name((HF_VM_ID_OFFSET + MAX_VMS) as nat)) is Some,
    ensures
        vms_from(s, hyp, i) == Err::<Seq<ManifestVm>, Error>(Error::TooManyVms),
    decreases MAX_VMS - i,
{
    if i < MAX_VMS {
        assert(valid_vm_at(s, hyp, i));
        lemma_vms_from_overflow(s, hyp, i + 1);
    }
}

proof fn lemma_vms_from_full(s: Seq<u8>, hyp: FdtNode, i: nat)
    requires
        i <= MAX_VMS,
        forall|j: nat| i <= j < MAX_VMS ==> #[trigger] valid_vm_at(s, hyp, j),
        hyp.child(s, vm_name((HF_VM_ID_OFFSET + MAX_VMS) as nat)) is None,
    ensures
        vms_from(s, hyp, i) matches Ok(vms) && vms.len() == MAX_VMS - i && forall|k: int|
            0 <= k < vms.len() ==> #[trigger] vms[k] == vm_at(s, hyp, (i + k) as nat),
    decreases MAX_VMS - i,
{
    if i < MAX_VMS {
        assert(valid_vm_at(s, hyp, i));
        lemma_vms_from_full(s, hyp, i + 1);
        let rest = vms_from(s, hyp, i + 1)->Ok_0;
        let vms = vms_from(s, hyp, i)->Ok_0;
        assert(vms == seq![vm_at(s, hyp, i)] + rest);
        assert forall|k: int| 0 <= k < vms.len() implies #[trigger] vms[k] == vm_at(
            s,
            hyp,
            (i + k) as nat,
        ) by {
            if k > 0 {
                assert(vms[k] == rest[k - 1]);
                assert((i + 1 + (k - 1)) as nat == (i + k) as nat);
            }
        }
    }
}

/// Valid machine nodes for every position up to and including `MAX_VMS`
/// are one machine too many.
pub proof fn lemma_too_many_vms(s: Seq<u8>, hyp: FdtNode)
    requires
        hypervisor_node(s) == Some(hyp),
        !has_reserved_vm(s, hyp),
        forall|i: nat| i < MAX_VMS ==> #[trigger] valid_vm_at(s, hyp, i),
        hyp.child(s, vm_name((HF_VM_ID_OFFSET + MAX_VMS) as nat)) is Some,
    ensures
        parse_manifest(s) == Err::<Seq<ManifestVm>, Error>(Error::TooManyVms),
{
    lemma_vms_from_overflow(s, hyp, 0);
}

/// Valid machine nodes for exactly the positions below `MAX_VMS` fill the
/// manifest.
pub proof fn lemma_full_manifest(s: Seq<u8>, hyp: FdtNode)
    requires
        hypervisor_node(s) == Some(hyp),
        !has_reserved_vm(s, hyp),
        forall|i: nat| i < MAX_VMS ==> #[trigger] valid_vm_at(s, hyp, i),
        hyp.child(s, vm_name((HF_VM_ID_OFFSET + MAX_VMS) as nat)) is None,
    ensures
        parse_manifest(s) matches Ok(vms) && vms.len() == MAX_VMS && forall|k: int|
            0 <= k < MAX_VMS ==> #[trigger] vms[k] == vm_at(s, hyp, k as nat),
{
    lemma_vms_from_full(s, hyp, 0);
}

} // verus!
