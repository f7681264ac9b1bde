//! The node and property names the manifest is read by, as bytes.
use vstd::prelude::*;

verus! {

/// "hypervisor"
pub open spec fn hypervisor_key() -> Seq<u8> {
    seq![104u8, 121u8, 112u8, 101u8, 114u8, 118u8, 105u8, 115u8, 111u8, 114u8]
}

/// "debug_name"
pub open spec fn debug_name_key() -> Seq<u8> {
    seq![100u8, 101u8, 98u8, 117u8, 103u8, 95u8, 110u8, 97u8, 109u8, 101u8]
}

/// "kernel_filename"
pub open spec fn kernel_filename_key() -> Seq<u8> {
    seq![107u8, 101u8, 114u8, 110u8, 101u8, 108u8, 95u8, 102u8, 105u8, 108u8, 101u8, 110u8, 97u8, 109u8, 101u8]
}

/// "mem_size"
pub open spec fn mem_size_key() -> Seq<u8> {
    seq![109u8, 101u8, 109u8, 95u8, 115u8, 105u8, 122u8, 101u8]
}

/// "vcpu_count"
pub open spec fn vcpu_count_key() -> Seq<u8> {
    seq![118u8, 99u8, 112u8, 117u8, 95u8, 99u8, 111u8, 117u8, 110u8, 116u8]
}

pub(crate) fn hypervisor() -> (r: [u8; 10])
    ensures
        r@ == hypervisor_key(),
{
    let r = [104u8, 121u8, 112u8, 101u8, 114u8, 118u8, 105u8, 115u8, 111u8, 114u8];
    assert(r@ =~= hypervisor_key());
    r
}

pub(crate) fn debug_name() -> (r: [u8; 10])
    ensures
        r@ == debug_name_key(),
{
    let r = [100u8, 101u8, 98u8, 117u8, 103u8, 95u8, 110u8, 97u8, 109u8, 101u8];
    assert(r@ =~= debug_name_key());
    r
}

pub(crate) fn kernel_filename() -> (r: [u8; 15])
    ensures
        r@ == kernel_filename_key(),
{
    let r = [107u8, 101u8, 114u8, 110u8, 101u8, 108u8, 95u8, 102u8, 105u8, 108u8, 101u8, 110u8, 97u8, 109u8, 101u8];
    assert(r@ =~= kernel_filename_key());
    r
}

pub(crate) fn mem_size() -> (r: [u8; 8])
    ensures
        r@ == mem_size_key(),
{
    let r = [109u8, 101u8, 109u8, 95u8, 115u8, 105u8, 122u8, 101u8];
    assert(r@ =~= mem_size_key());
    r
}

pub(crate) fn vcpu_count() -> (r: [u8; 10])
    ensures
        r@ == vcpu_count_key(),
{
    let r = [118u8, 99u8, 112u8, 117u8, 95u8, 99u8, 111u8, 117u8, 110u8, 116u8];
    assert(r@ =~= vcpu_count_key());
    r
}

} // verus!
