//! Names of the tree nodes that describe virtual machines: "vm" followed by
//! the identifier in decimal.
use vstd::prelude::*;

verus! {

/// Room for "vm", the largest identifier's five digits, and a terminator.
pub const VM_NAME_BUF_SIZE: usize = 8;

/// The decimal digits of `n`, most significant first, in ASCII.
pub open spec fn decimal(n: nat) -> Seq<u8>
    decreases n,
{
    if n < 10 {
        seq![(48 + n) as u8]
    } else {
        decimal(n / 10).push((48 + n % 10) as u8)
    }
}

/// The name of the node that describes the virtual machine `id`.
pub open spec fn vm_name(id: nat) -> Seq<u8> {
    seq![118u8, 109u8] + decimal(id)
}

pub open spec fn pow10(k: nat) -> nat
    decreases k,
{
    if k == 0 {
        1
    } else {
        10 * pow10((k - 1) as nat)
    }
}

proof fn lemma_decimal_len(n: nat, k: nat)
    requires
        1 <= k,
        n < pow10(k),
    ensures
        1 <= decimal(n).len() <= k,
    decreases k,
{
    if n >= 10 {
        if k == 1 {
            assert(pow10(1) == 10) by {
                assert(pow10(0) == 1);
            }
        } else {
            assert(pow10(k) == 10 * pow10((k - 1) as nat));
            lemma_decimal_len(n / 10, (k - 1) as nat);
        }
    }
}

/// Writes the name of the node for `vm_id` into `buf`, followed by a zero
/// terminator, and returns how many bytes it wrote.
pub fn generate_vm_node_name(buf: &mut [u8; VM_NAME_BUF_SIZE], vm_id: u16) -> (n: usize)
    ensures
        n == vm_name(vm_id as nat).len() + 1,
        n <= VM_NAME_BUF_SIZE,
        final(buf)@.subrange(0, n as int) == vm_name(vm_id as nat).push(0u8),
{
    let ghost id = vm_id as nat;
    proof {
        assert(pow10(5) == 100000) by {
            reveal_with_fuel(pow10, 6);
        }
        lemma_decimal_len(id, 5);
    }
    let mut d: usize = 1;
    let mut t: u16 = vm_id;
    while t >= 10
        invariant
            decimal(id).len() == decimal(t as nat).len() + d - 1,
            1 <= d,
            decimal(id).len() <= 5,
        decreases t,
    {
        t = t / 10;
        d = d + 1;
    }
    assert(decimal(id).len() == d);
    buf[0] = 118u8;
    buf[1] = 109u8;
    let mut v: u16 = vm_id;
    let mut pos: usize = 2 + d;
    loop
        invariant_except_break
            2 < pos <= 2 + d,
            decimal(v as nat).len() == pos - 2,
            decimal(id) == decimal(v as nat) + buf@.subrange(pos as int, 2 + d),
        invariant
            d == decimal(id).len(),
            d <= 5,
            buf@[0] == 118u8,
            buf@[1] == 109u8,
        ensures
            decimal(id) == buf@.subrange(2, 2 + d),
        decreases v,
    {
        let ghost old_buf = buf@;
        let ghost old_v = v as nat;
        pos = pos - 1;
        buf[pos] = 48 + (v % 10) as u8;
        proof {
            assert(buf@.subrange(pos + 1, 2 + d) =~= old_buf.subrange(pos + 1, 2 + d));
            assert(buf@.subrange(pos as int, 2 + d) =~= seq![buf@[pos as int]] + old_buf.subrange(
                pos + 1,
                2 + d,
            ));
        }
        if v < 10 {
            assert(pos == 2);
            assert(decimal(id) =~= buf@.subrange(pos as int, 2 + d));
            break ;
        }
        v = v / 10;
        proof {
            assert(decimal(old_v) == decimal(v as nat).push((48 + old_v % 10) as u8));
            assert(decimal(id) =~= decimal(v as nat) + buf@.subrange(pos as int, 2 + d));
        }
    }
    let ghost before = buf@;
    buf[2 + d] = 0;
    assert(buf@.subrange(2, 2 + d) =~= before.subrange(2, 2 + d));
    assert(buf@.subrange(0, 3 + d) =~= vm_name(id).push(0u8));
    3 + d
}

} // verus!
