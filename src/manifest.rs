//! The manifest: which virtual machines to start, read from the tree's
//! "hypervisor" node.
use vstd::prelude::*;
use vstd::slice::slice_subrange;
use arrayvec::ArrayVec;
use crate::error::Error;
use crate::fdt::{ByteRange, FdtNode, root_of, number_of, parse_number};
use crate::keys;
use crate::keys::{
    hypervisor_key,
    debug_name_key,
    kernel_filename_key,
    mem_size_key,
    vcpu_count_key,
};
use crate::name::{VM_NAME_BUF_SIZE, vm_name, generate_vm_node_name};
use crate::vm_list::{vms_of, new_vms, clear_vms, push_vm};
use crate::{MAX_VMS, HF_VM_ID_OFFSET, HF_PRIMARY_VM_ID};

verus! {

/// A property read as a string: its bytes before the terminating zero byte,
/// which must be the value's last byte.
pub open spec fn string_prop(s: Seq<u8>, node: FdtNode, name: Seq<u8>) -> Result<ByteRange, Error> {
    match node.property(s, name) {
        None => Err(Error::PropertyNotFound),
        Some(v) => if v.len >= 1 && s[v.start + v.len - 1] == 0 {
            Ok(ByteRange { start: v.start, len: (v.len - 1) as usize })
        } else {
            Err(Error::MalformedString)
        },
    }
}

/// A property read as a 64-bit number.
pub open spec fn u64_prop(s: Seq<u8>, node: FdtNode, name: Seq<u8>) -> Result<u64, Error> {
    match node.property(s, name) {
        None => Err(Error::PropertyNotFound),
        Some(v) => match number_of(v.bytes(s)) {
            Some(x) => Ok(x),
            None => Err(Error::MalformedInteger),
        },
    }
}

/// A property read as a 64-bit number that must fit in 16 bits.
pub open spec fn u16_prop(s: Seq<u8>, node: FdtNode, name: Seq<u8>) -> Result<u16, Error> {
    match u64_prop(s, node, name) {
        Err(e) => Err(e),
        Ok(x) => if x <= u16::MAX {
            Ok(x as u16)
        } else {
            Err(Error::IntegerOverflow)
        },
    }
}

/// Holds information about one of the virtual machines the manifest
/// describes. The names are ranges in the tree's buffer.
#[derive(Debug, Clone, Copy, PartialEq, Eq, Structural)]
pub struct ManifestVm {
    /// Set for every machine, the primary included.
    pub debug_name: ByteRange,
    /// Set for secondary machines; empty for the primary.
    pub kernel_filename: ByteRange,
    /// Set for secondary machines; zero for the primary.
    pub mem_size: u64,
    /// Set for secondary machines; zero for the primary.
    pub vcpu_count: u16,
}

impl ManifestVm {
    /// Whether both names lie inside the buffer `s`.
    pub open spec fn within(self, s: Seq<u8>) -> bool {
        self.debug_name.within(s) && self.kernel_filename.within(s)
    }
}

/// The machine that `node` describes, given its identifier: the primary
/// has a debug name alone, every other machine all four properties.
pub open spec fn vm_of(s: Seq<u8>, node: FdtNode, vm_id: u16) -> Result<ManifestVm, Error> {
    match string_prop(s, node, debug_name_key()) {
        Err(e) => Err(e),
        Ok(debug_name) => if vm_id == HF_PRIMARY_VM_ID {
            Ok(
                ManifestVm {
                    debug_name,
                    kernel_filename: ByteRange { start: 0, len: 0 },
                    mem_size: 0,
                    vcpu_count: 0,
                },
            )
        } else {
            match string_prop(s, node, kernel_filename_key()) {
                Err(e) => Err(e),
                Ok(kernel_filename) => match u64_prop(s, node, mem_size_key()) {
                    Err(e) => Err(e),
                    Ok(mem_size) => match u16_prop(s, node, vcpu_count_key()) {
                        Err(e) => Err(e),
                        Ok(vcpu_count) => Ok(
                            ManifestVm { debug_name, kernel_filename, mem_size, vcpu_count },
                        ),
                    },
                },
            }
        },
    }
}

/// The machines numbered `HF_VM_ID_OFFSET + i` onwards, up to the first
/// number with no node; a node at position `MAX_VMS` is one too many.
pub open spec fn vms_from(s: Seq<u8>, hyp: FdtNode, i: nat) -> Result<Seq<ManifestVm>, Error>
    decreases MAX_VMS + 1 - i,
{
    if i > MAX_VMS {
        Ok(Seq::empty())
    } else {
        match hyp.child(s, vm_name((HF_VM_ID_OFFSET + i) as nat)) {
            None => Ok(Seq::empty()),
            Some(node) => if i == MAX_VMS {
                Err(Error::TooManyVms)
            } else {
                match vm_of(s, node, (HF_VM_ID_OFFSET + i) as u16) {
                    Err(e) => Err(e),
                    Ok(vm) => match vms_from(s, hyp, i + 1) {
                        Err(e) => Err(e),
                        Ok(rest) => Ok(seq![vm] + rest),
                    },
                }
            },
        }
    }
}

/// Whether a node under `hyp` carries a reserved identifier.
pub open spec fn has_reserved_vm(s: Seq<u8>, hyp: FdtNode) -> bool {
    exists|id: nat| id < HF_VM_ID_OFFSET && (#[trigger] hyp.child(s, vm_name(id))) is Some
}

/// The tree's "hypervisor" node, under its root node.
pub open spec fn hypervisor_node(s: Seq<u8>) -> Option<FdtNode> {
    match root_of(s) {
        None => None,
        Some(fdt) => match fdt.child(s, Seq::empty()) {
            None => None,
            Some(root) => root.child(s, hypervisor_key()),
        },
    }
}

/// What decoding the tree in `s` gives: the machines in the order of their
/// identifiers, or the first reason the tree is refused.
pub open spec fn parse_manifest(s: Seq<u8>) -> Result<Seq<ManifestVm>, Error> {
    match root_of(s) {
        None => Err(Error::CorruptedFdt),
        Some(fdt) => match fdt.child(s, Seq::empty()) {
            None => Err(Error::NoRootFdtNode),
            Some(root) => match root.child(s, hypervisor_key()) {
                None => Err(Error::NoHypervisorFdtNode),
                Some(hyp) => if has_reserved_vm(s, hyp) {
                    Err(Error::ReservedVmId)
                } else {
                    match vms_from(s, hyp, 0) {
                        Err(e) => Err(e),
                        Ok(vms) => if vms.len() > HF_PRIMARY_VM_ID - HF_VM_ID_OFFSET {
                            Ok(vms)
                        } else {
                            Err(Error::NoPrimaryVm)
                        },
                    }
                },
            },
        },
    }
}

/// `done` followed by what `rest` holds, or the error of `rest`.
pub open spec fn prefixed(done: Seq<ManifestVm>, rest: Result<Seq<ManifestVm>, Error>) -> Result<
    Seq<ManifestVm>,
    Error,
> {
    match rest {
        Ok(r) => Ok(done + r),
        Err(e) => Err(e),
    }
}

impl FdtNode {
    /// Reads property `property` as a zero-terminated string.
    pub fn read_string(&self, buf: &[u8], property: &[u8]) -> (r: Result<ByteRange, Error>)
        requires
            self.wf(buf@),
        ensures
            r == string_prop(buf@, *self, property@),
            r matches Ok(v) ==> v.within(buf@),
    {
        match self.read_property(buf, property) {
            None => Err(Error::PropertyNotFound),
            Some(data) => {
                let _n = buf.len();
                if data.len == 0 || buf[data.start + data.len - 1] != 0 {
                    return Err(Error::MalformedString);
                }
                Ok(ByteRange { start: data.start, len: data.len - 1 })
            },
        }
    }

    /// Reads property `property` as a number of one or two cells.
    pub fn read_u64(&self, buf: &[u8], property: &[u8]) -> (r: Result<u64, Error>)
        requires
            self.wf(buf@),
        ensures
            r == u64_prop(buf@, *self, property@),
    {
        match self.read_property(buf, property) {
            None => Err(Error::PropertyNotFound),
            Some(data) => match parse_number(buf, data) {
                Some(x) => Ok(x),
                None => Err(Error::MalformedInteger),
            },
        }
    }

    /// Reads property `property` as a number that must fit in 16 bits.
    pub fn read_u16(&self, buf: &[u8], property: &[u8]) -> (r: Result<u16, Error>)
        requires
            self.wf(buf@),
        ensures
            r == u16_prop(buf@, *self, property@),
    {
        let value = match self.read_u64(buf, property) {
            Err(e) => return Err(e),
            Ok(v) => v,
        };
        if value <= u16::MAX as u64 {
            Ok(value as u16)
        } else {
            Err(Error::IntegerOverflow)
        }
    }
}

impl ManifestVm {
    /// Decodes the machine that `node` describes.
    pub fn new(node: &FdtNode, buf: &[u8], vm_id: u16) -> (r: Result<Self, Error>)
        requires
            node.wf(buf@),
        ensures
            r == vm_of(buf@, *node, vm_id),
            r matches Ok(vm) ==> vm.within(buf@),
    {
        let debug_name = match node.read_string(buf, keys::debug_name().as_slice()) {
            Err(e) => return Err(e),
            Ok(v) => v,
        };
        if vm_id == HF_PRIMARY_VM_ID {
            return Ok(
                ManifestVm {
                    debug_name,
                    kernel_filename: ByteRange { start: 0, len: 0 },
                    mem_size: 0,
                    vcpu_count: 0,
                },
            );
        }
        let kernel_filename = match node.read_string(buf, keys::kernel_filename().as_slice()) {
            Err(e) => return Err(e),
            Ok(v) => v,
        };
        let mem_size = match node.read_u64(buf, keys::mem_size().as_slice()) {
            Err(e) => return Err(e),
            Ok(v) => v,
        };
        let vcpu_count = match node.read_u16(buf, keys::vcpu_count().as_slice()) {
            Err(e) => return Err(e),
            Ok(v) => v,
        };
        Ok(ManifestVm { debug_name, kernel_filename, mem_size, vcpu_count })
    }
}

/// The manifest decoded from the tree: the machines to start, in the order
/// of their identifiers.
#[derive(Debug)]
pub struct Manifest {
    pub vms: ArrayVec<ManifestVm, MAX_VMS>,
}

impl Manifest {
    /// A manifest that describes no machine yet.
    pub fn new() -> (r: Manifest)
        ensures
            vms_of(r.vms) == Seq::<ManifestVm>::empty(),
    {
        Manifest { vms: new_vms() }
    }

    /// Decodes the tree in `fdt` into this manifest. Whatever it held
    /// before is dropped first; on success it holds the machines of `fdt`.
    pub fn init(&mut self, fdt: &[u8]) -> (r: Result<(), Error>)
        ensures
            match parse_manifest(fdt@) {
                Ok(vms) => r is Ok && vms_of(final(self).vms) == vms,
                Err(e) => r == Err::<(), Error>(e),
            },
            vms_of(final(self).vms).len() <= MAX_VMS,
            r is Ok ==> forall|k: int|
                0 <= k < vms_of(final(self).vms).len() ==> (#[trigger] vms_of(
                    final(self).vms,
                )[k]).within(fdt@),
    {
        let ghost s = fdt@;
        clear_vms(&mut self.vms);
        let fdt_node = match FdtNode::new_root(fdt) {
            None => return Err(Error::CorruptedFdt),
            Some(n) => n,
        };
        let no_name: [u8; 0] = [];
        assert(no_name@ =~= Seq::<u8>::empty());
        let root = match fdt_node.find_child(fdt, no_name.as_slice()) {
            None => return Err(Error::NoRootFdtNode),
            Some(n) => n,
        };
        let hyp = match root.find_child(fdt, keys::hypervisor().as_slice()) {
            None => return Err(Error::NoHypervisorFdtNode),
            Some(n) => n,
        };
        let mut name_buf: [u8; VM_NAME_BUF_SIZE] = [0u8; 8];

        // No node may carry a reserved identifier.
        let mut vm_id: u16 = 0;
        while vm_id < HF_VM_ID_OFFSET
            invariant
                hyp.wf(s),
                s == fdt@,
                vm_id <= HF_VM_ID_OFFSET,
                root_of(s) == Some(fdt_node),
                fdt_node.child(s, Seq::empty()) == Some(root),
                root.child(s, hypervisor_key()) == Some(hyp),
                forall|id: nat| id < vm_id ==> (#[trigger] hyp.child(s, vm_name(id))) is None,
                vms_of(self.vms) == Seq::<ManifestVm>::empty(),
            decreases HF_VM_ID_OFFSET - vm_id,
        {
            let n = generate_vm_node_name(&mut name_buf, vm_id);
            let name = slice_subrange(name_buf.as_slice(), 0, n - 1);
            assert(name@ =~= vm_name(vm_id as nat));
            if hyp.find_child(fdt, name).is_some() {
                assert(hyp.child(s, vm_name(vm_id as nat)) is Some);
                return Err(Error::ReservedVmId);
            }
            vm_id = vm_id + 1;
        }
        assert(!has_reserved_vm(s, hyp));

        // Take the machines in order, up to the first identifier with no node.
        let mut found_primary_vm = false;
        let mut i: u16 = 0;
        loop
            invariant
                hyp.wf(s),
                s == fdt@,
                root_of(s) == Some(fdt_node),
                fdt_node.child(s, Seq::empty()) == Some(root),
                root.child(s, hypervisor_key()) == Some(hyp),
                !has_reserved_vm(s, hyp),
                i <= MAX_VMS,
                vms_of(self.vms).len() == i,
                prefixed(vms_of(self.vms), vms_from(s, hyp, i as nat)) == vms_from(s, hyp, 0),
                found_primary_vm == (i > HF_PRIMARY_VM_ID - HF_VM_ID_OFFSET),
                forall|k: int|
                    0 <= k < vms_of(self.vms).len() ==> (#[trigger] vms_of(self.vms)[k]).within(s),
            ensures
                forall|k: int|
                    0 <= k < vms_of(self.vms).len() ==> (#[trigger] vms_of(self.vms)[k]).within(s),
                root_of(s) == Some(fdt_node),
                fdt_node.child(s, Seq::empty()) == Some(root),
                root.child(s, hypervisor_key()) == Some(hyp),
                !has_reserved_vm(s, hyp),
                vms_from(s, hyp, 0) == Ok::<Seq<ManifestVm>, Error>(vms_of(self.vms)),
                vms_of(self.vms).len() <= MAX_VMS,
                found_primary_vm == (vms_of(self.vms).len() > HF_PRIMARY_VM_ID - HF_VM_ID_OFFSET),
            decreases MAX_VMS - i,
        {
            let vm_id = HF_VM_ID_OFFSET + i;
            let n = generate_vm_node_name(&mut name_buf, vm_id);
            let name = slice_subrange(name_buf.as_slice(), 0, n - 1);
            assert(name@ =~= vm_name(vm_id as nat));
            let vm_node = match hyp.find_child(fdt, name) {
                None => {
                    assert(vms_of(self.vms) + Seq::<ManifestVm>::empty() =~= vms_of(self.vms));
                    break ;
                },
                Some(node) => node,
            };
            if i as usize == MAX_VMS {
                return Err(Error::TooManyVms);
            }
            if vm_id == HF_PRIMARY_VM_ID {
                found_primary_vm = true;
            }
            let vm = match ManifestVm::new(&vm_node, fdt, vm_id) {
                Err(e) => return Err(e),
                Ok(vm) => vm,
            };
            let ghost before = vms_of(self.vms);
            push_vm(&mut self.vms, vm);
            proof {
                assert(forall|k: int|
                    0 <= k < vms_of(self.vms).len() ==> #[trigger] vms_of(self.vms)[k] == if k
                        < before.len() {
                        before[k]
                    } else {
                        vm
                    });
                match vms_from(s, hyp, (i + 1) as nat) {
                    Ok(rest) => {
                        assert(before.push(vm) + rest =~= before + (seq![vm] + rest));
                    },
                    Err(e) => {},
                }
            }
            i = i + 1;
        }
        if !found_primary_vm {
            Err(Error::NoPrimaryVm)
        } else {
            Ok(())
        }
    }
}

} // verus!
