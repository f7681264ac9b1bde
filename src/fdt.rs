//! A read-only navigator over a flattened device tree: the header, the
//! structure block of tokens and the strings block of property names.
//!
//! Every offset is counted from the start of the buffer. A node is a cursor
//! at the first token after its name; looking something up walks the tokens
//! again from that cursor, so nodes are cheap copies.
use vstd::prelude::*;

verus! {

pub const FDT_MAGIC: u32 = 0xd00d_feed;

/// The format version this navigator reads.
pub const FDT_VERSION: u32 = 17;

pub const FDT_BEGIN_NODE: u32 = 1;

pub const FDT_END_NODE: u32 = 2;

pub const FDT_PROP: u32 = 3;

pub const FDT_NOP: u32 = 4;

/// Size of the header that starts every tree.
pub const FDT_HEADER_SIZE: usize = 40;

/// A contiguous range of bytes inside the tree's buffer.
#[derive(Debug, Clone, Copy, PartialEq, Eq, Structural)]
pub struct ByteRange {
    pub start: usize,
    pub len: usize,
}

impl ByteRange {
    /// The bytes this range covers in `s`.
    pub open spec fn bytes(self, s: Seq<u8>) -> Seq<u8> {
        s.subrange(self.start as int, self.start + self.len)
    }

    pub open spec fn within(self, s: Seq<u8>) -> bool {
        self.start + self.len <= s.len()
    }

    /// Whether the range holds exactly the bytes of `expected` before its
    /// terminating zero byte (`expected` carries that terminator).
    pub fn iseq(&self, buf: &[u8], expected: &[u8]) -> (r: bool)
        requires
            self.within(buf@),
        ensures
            r == (expected@ == self.bytes(buf@).push(0u8)),
    {
        if expected.len() == 0 || expected.len() - 1 != self.len || expected[self.len] != 0 {
            proof {
                if expected@ == self.bytes(buf@).push(0u8) {
                    assert(expected@[self.len as int] == 0u8);
                }
            }
            return false;
        }
        let r = bytes_eq(buf, self.start, expected, self.len);
        proof {
            if r {
                assert(expected@ =~= expected@.subrange(0, self.len as int).push(0u8));
            } else if expected@ == self.bytes(buf@).push(0u8) {
                assert(expected@.subrange(0, self.len as int) =~= self.bytes(buf@));
            }
        }
        r
    }
}

/// Big-endian 32-bit word at offset `i`.
pub open spec fn be32(s: Seq<u8>, i: int) -> nat {
    (s[i] as nat) * 0x100_0000 + (s[i + 1] as nat) * 0x1_0000 + (s[i + 2] as nat) * 0x100 + (
    s[i + 3] as nat)
}

/// Offset `x` rounded up to a multiple of four, but never past `end`.
pub open spec fn align_up(x: int, end: int) -> int {
    let a = if x % 4 == 0 {
        x
    } else {
        x + 4 - x % 4
    };
    if a > end {
        end
    } else {
        a
    }
}

/// Where the next token starts once the NOP tokens at `cur` are passed over.
pub open spec fn after_nops(s: Seq<u8>, cur: int, end: int) -> int
    decreases end - cur,
{
    if 0 <= cur && cur + 4 <= end && be32(s, cur) == FDT_NOP {
        after_nops(s, cur + 4, end)
    } else {
        cur
    }
}

/// The offset just past token `tok`, if `tok` is the next token at `cur`.
pub open spec fn token_end(s: Seq<u8>, cur: int, end: int, tok: nat) -> Option<int> {
    let c = after_nops(s, cur, end);
    if c + 4 <= end && be32(s, c) == tok {
        Some(c + 4)
    } else {
        None
    }
}

/// The property record at `cur`: the offset of its name in the strings block,
/// where its value starts, how long the value is, and where the next token is.
pub open spec fn prop_at(s: Seq<u8>, cur: int, end: int) -> Option<(nat, int, nat, int)> {
    match token_end(s, cur, end, FDT_PROP as nat) {
        None => None,
        Some(c) => {
            if c + 8 <= end && be32(s, c) <= end - (c + 8) {
                let v = c + 8;
                let len = be32(s, c);
                Some((be32(s, c + 4), v, len, align_up(v + len, end)))
            } else {
                None
            }
        },
    }
}

/// The first zero byte at or after `i`, before `end`.
pub open spec fn first_nul(s: Seq<u8>, i: int, end: int) -> Option<int>
    decreases end - i,
{
    if i < 0 || i >= end {
        None
    } else if s[i] == 0 {
        Some(i)
    } else {
        first_nul(s, i + 1, end)
    }
}

/// The start of a child node at `cur`: where its name starts, where the
/// name's terminator is, and where the node's first token is.
pub open spec fn subnode_at(s: Seq<u8>, cur: int, end: int) -> Option<(int, int, int)> {
    match token_end(s, cur, end, FDT_BEGIN_NODE as nat) {
        None => None,
        Some(c) => match first_nul(s, c, end) {
            None => None,
            Some(z) => Some((c, z, align_up(z + 1, end))),
        },
    }
}

/// The offset past the run of property records that starts at `cur`.
pub open spec fn props_end(s: Seq<u8>, cur: int, end: int) -> int
    decreases end - cur,
{
    match prop_at(s, cur, end) {
        Some(p) => if cur < p.3 <= end {
            props_end(s, p.3, end)
        } else {
            cur
        },
        None => cur,
    }
}

/// The offset past the end of `depth` nested open nodes whose remaining
/// tokens start at `cur`, if they are well formed.
pub open spec fn node_end(s: Seq<u8>, cur: int, end: int, depth: nat) -> Option<int>
    decreases end - cur,
{
    let c = props_end(s, cur, end);
    match subnode_at(s, c, end) {
        Some(n) => if cur < n.2 <= end {
            node_end(s, n.2, end, depth + 1)
        } else {
            None
        },
        None => match token_end(s, c, end, FDT_END_NODE as nat) {
            Some(c2) => if depth <= 1 {
                Some(c2)
            } else if cur < c2 <= end {
                node_end(s, c2, end, (depth - 1) as nat)
            } else {
                None
            },
            None => None,
        },
    }
}

/// The first token of the child named `name` among the sibling nodes that
/// start at `cur`.
pub open spec fn child_from(s: Seq<u8>, cur: int, end: int, name: Seq<u8>) -> Option<int>
    decreases end - cur,
{
    match subnode_at(s, cur, end) {
        None => None,
        Some(n) => if s.subrange(n.0, n.1) == name {
            Some(n.2)
        } else {
            match node_end(s, n.2, end, 1) {
                None => None,
                Some(c2) => if cur < c2 <= end {
                    child_from(s, c2, end, name)
                } else {
                    None
                },
            }
        },
    }
}

/// Whether the zero-terminated string at `at`, which must end before `lim`,
/// is `name`.
pub open spec fn name_at(s: Seq<u8>, at: int, lim: int, name: Seq<u8>) -> bool {
    at + name.len() < lim && s.subrange(at, at + name.len()) == name && s[at + name.len()] == 0
}

/// The value of the first property named `name` among the records that
/// start at `cur`.
pub open spec fn prop_from(s: Seq<u8>, cur: int, end: int, strs: int, strs_end: int, name: Seq<u8>)
    -> Option<ByteRange>
    decreases end - cur,
{
    match prop_at(s, cur, end) {
        None => None,
        Some(p) => if name_at(s, strs + p.0, strs_end, name) {
            Some(ByteRange { start: p.1 as usize, len: p.2 as usize })
        } else if cur < p.3 <= end {
            prop_from(s, p.3, end, strs, strs_end, name)
        } else {
            None
        },
    }
}

/// The number a property value holds: one big-endian cell of 32 bits or
/// two cells making 64 bits; no other length is a number.
pub open spec fn number_of(v: Seq<u8>) -> Option<u64> {
    if v.len() == 4 {
        Some(be32(v, 0) as u64)
    } else if v.len() == 8 {
        Some((be32(v, 0) * 0x1_0000_0000 + be32(v, 4)) as u64)
    } else {
        None
    }
}

/// A cursor on a node of the tree.
#[derive(Debug, Clone, Copy, PartialEq, Eq, Structural)]
pub struct FdtNode {
    /// The node's first token after its name.
    pub begin: usize,
    /// The end of the structure block.
    pub end: usize,
    /// The strings block, where property names live.
    pub strs: usize,
    pub strs_end: usize,
}

/// The cursor on the tree's structure block, when `s` starts with a header
/// this navigator accepts and its blocks lie inside `s`.
pub closed spec fn root_of(s: Seq<u8>) -> Option<FdtNode> {
    if s.len() < FDT_HEADER_SIZE {
        None
    } else {
        let total = be32(s, 4);
        let off_struct = be32(s, 8);
        let off_strings = be32(s, 12);
        let version = be32(s, 20);
        let last_comp = be32(s, 24);
        let size_strings = be32(s, 32);
        let size_struct = be32(s, 36);
        if be32(s, 0) == FDT_MAGIC && total <= s.len() && version >= FDT_VERSION && last_comp
            <= FDT_VERSION && off_struct + size_struct <= total && off_strings + size_strings
            <= total {
            Some(
                FdtNode {
                    begin: off_struct as usize,
                    end: (off_struct + size_struct) as usize,
                    strs: off_strings as usize,
                    strs_end: (off_strings + size_strings) as usize,
                },
            )
        } else {
            None
        }
    }
}

impl FdtNode {
    pub open spec fn wf(self, s: Seq<u8>) -> bool {
        self.begin <= self.end <= s.len() && self.strs <= self.strs_end <= s.len()
    }

    /// The child of this node named `name`.
    pub closed spec fn child(self, s: Seq<u8>, name: Seq<u8>) -> Option<FdtNode> {
        match child_from(s, props_end(s, self.begin as int, self.end as int), self.end as int, name) {
            None => None,
            Some(b) => Some(FdtNode { begin: b as usize, ..self }),
        }
    }

    /// The value of this node's property named `name`.
    pub closed spec fn property(self, s: Seq<u8>, name: Seq<u8>) -> Option<ByteRange> {
        prop_from(s, self.begin as int, self.end as int, self.strs as int, self.strs_end as int, name)
    }

    /// Reads the header of the tree in `buf` and returns a cursor on its
    /// structure block, whose first node is the tree's root.
    pub fn new_root(buf: &[u8]) -> (r: Option<FdtNode>)
        ensures
            r == root_of(buf@),
            r matches Some(n) ==> n.wf(buf@),
    {
        let n = buf.len();
        if n < FDT_HEADER_SIZE {
            return None;
        }
        let magic = read_be32(buf, 0);
        let total = read_be32(buf, 4) as usize;
        let off_struct = read_be32(buf, 8) as usize;
        let off_strings = read_be32(buf, 12) as usize;
        let version = read_be32(buf, 20);
        let last_comp = read_be32(buf, 24);
        let size_strings = read_be32(buf, 32) as usize;
        let size_struct = read_be32(buf, 36) as usize;
        if magic == FDT_MAGIC && total <= n && version >= FDT_VERSION && last_comp <= FDT_VERSION
            && off_struct <= total && size_struct <= total - off_struct && off_strings <= total
            && size_strings <= total - off_strings {
            Some(
                FdtNode {
                    begin: off_struct,
                    end: off_struct + size_struct,
                    strs: off_strings,
                    strs_end: off_strings + size_strings,
                },
            )
        } else {
            None
        }
    }

    /// The child of this node named `name`, compared byte for byte.
    pub fn find_child(&self, buf: &[u8], name: &[u8]) -> (r: Option<FdtNode>)
        requires
            self.wf(buf@),
        ensures
            r == self.child(buf@, name@),
            r matches Some(n) ==> n.wf(buf@),
    {
        let ghost s = buf@;
        let end = self.end;
        let mut c = skip_props(buf, self.begin, end);
        let ghost c0 = c as int;
        loop
            invariant
                self.wf(s),
                s == buf@,
                end == self.end,
                c <= end,
                child_from(s, c as int, end as int, name@) == child_from(s, c0, end as int, name@),
                c0 == props_end(s, self.begin as int, end as int),
            decreases end - c,
        {
            match next_subnode(buf, c, end) {
                None => return None,
                Some((ns, nz, n)) => {
                    if nz - ns == name.len() && bytes_eq(buf, ns, name, nz - ns) {
                        assert(name@.subrange(0, name@.len() as int) =~= name@);
                        return Some(FdtNode { begin: n, ..*self });
                    }
                    assert(name@.subrange(0, name@.len() as int) =~= name@);
                    assert(s.subrange(ns as int, nz as int) != name@);
                    match skip_node(buf, n, end) {
                        None => return None,
                        Some(c2) => {
                            c = c2;
                        },
                    }
                },
            }
        }
    }

    /// The value of this node's property named `name`.
    pub fn read_property(&self, buf: &[u8], name: &[u8]) -> (r: Option<ByteRange>)
        requires
            self.wf(buf@),
        ensures
            r == self.property(buf@, name@),
            r matches Some(v) ==> v.within(buf@),
    {
        let ghost s = buf@;
        let end = self.end;
        let mut c = self.begin;
        loop
            invariant
                self.wf(s),
                s == buf@,
                end == self.end,
                c <= end,
                prop_from(s, c as int, end as int, self.strs as int, self.strs_end as int, name@)
                    == self.property(s, name@),
            decreases end - c,
        {
            match next_prop(buf, c, end) {
                None => return None,
                Some((off, start, len, next)) => {
                    if cstr_eq(buf, self.strs, off, self.strs_end, name) {
                        return Some(ByteRange { start, len });
                    }
                    c = next;
                },
            }
        }
    }
}

/// Reads the big-endian word at `i`.
pub fn read_be32(buf: &[u8], i: usize) -> (r: u32)
    requires
        i + 4 <= buf@.len(),
    ensures
        r == be32(buf@, i as int),
{
    let b0 = buf[i] as u32;
    let b1 = buf[i + 1] as u32;
    let b2 = buf[i + 2] as u32;
    let b3 = buf[i + 3] as u32;
    b0 * 0x100_0000 + b1 * 0x1_0000 + b2 * 0x100 + b3
}

/// Decodes a property value as a number of one or two big-endian cells.
pub fn parse_number(buf: &[u8], v: ByteRange) -> (r: Option<u64>)
    requires
        v.within(buf@),
    ensures
        r == number_of(v.bytes(buf@)),
{
    let ghost b = v.bytes(buf@);
    let _n = buf.len();
    if v.len == 4 {
        let x = read_be32(buf, v.start);
        assert(be32(b, 0) == be32(buf@, v.start as int));
        Some(x as u64)
    } else if v.len == 8 {
        let hi = read_be32(buf, v.start) as u64;
        let lo = read_be32(buf, v.start + 4) as u64;
        assert(be32(b, 0) == be32(buf@, v.start as int));
        assert(be32(b, 4) == be32(buf@, v.start + 4));
        Some(hi * 0x1_0000_0000 + lo)
    } else {
        None
    }
}

fn align_up_exec(x: usize, end: usize) -> (r: usize)
    requires
        x <= end,
    ensures
        r == align_up(x as int, end as int),
        x <= r <= end,
{
    let m = x % 4;
    if m == 0 {
        x
    } else if end - x < 4 - m {
        end
    } else {
        x + (4 - m)
    }
}

proof fn lemma_after_nops(s: Seq<u8>, cur: int, end: int)
    requires
        0 <= cur <= end,
    ensures
        cur <= after_nops(s, cur, end) <= end,
    decreases end - cur,
{
    if cur + 4 <= end && be32(s, cur) == FDT_NOP {
        lemma_after_nops(s, cur + 4, end);
    }
}

proof fn lemma_props_end(s: Seq<u8>, cur: int, end: int)
    requires
        0 <= cur <= end,
    ensures
        cur <= props_end(s, cur, end) <= end,
    decreases end - cur,
{
    if let Some(p) = prop_at(s, cur, end) {
        if cur < p.3 <= end {
            lemma_props_end(s, p.3, end);
        }
    }
}

proof fn lemma_node_end(s: Seq<u8>, cur: int, end: int, depth: nat)
    requires
        0 <= cur <= end,
    ensures
        node_end(s, cur, end, depth) matches Some(r) ==> cur < r <= end,
    decreases end - cur,
{
    let c = props_end(s, cur, end);
    lemma_props_end(s, cur, end);
    lemma_after_nops(s, c, end);
    match subnode_at(s, c, end) {
        Some(n) => if cur < n.2 <= end {
            lemma_node_end(s, n.2, end, depth + 1);
        },
        None => match token_end(s, c, end, FDT_END_NODE as nat) {
            Some(c2) => if depth > 1 && cur < c2 <= end {
                lemma_node_end(s, c2, end, (depth - 1) as nat);
            },
            None => {},
        },
    }
}

fn skip_nops(buf: &[u8], cur: usize, end: usize) -> (r: usize)
    requires
        cur <= end <= buf@.len(),
    ensures
        r == after_nops(buf@, cur as int, end as int),
        cur <= r <= end,
{
    let mut c = cur;
    loop
        invariant
            cur <= c <= end <= buf@.len(),
            after_nops(buf@, c as int, end as int) == after_nops(buf@, cur as int, end as int),
        decreases end - c,
    {
        if end - c < 4 || read_be32(buf, c) != FDT_NOP {
            return c;
        }
        c = c + 4;
    }
}

/// The offset past token `tok` when it is the next token at `cur`.
fn expect_token(buf: &[u8], cur: usize, end: usize, tok: u32) -> (r: Option<usize>)
    requires
        cur <= end <= buf@.len(),
    ensures
        r matches Some(x) ==> token_end(buf@, cur as int, end as int, tok as nat) == Some(x as int)
            && cur < x <= end,
        r is None ==> token_end(buf@, cur as int, end as int, tok as nat) is None,
{
    let c = skip_nops(buf, cur, end);
    if end - c >= 4 && read_be32(buf, c) == tok {
        Some(c + 4)
    } else {
        None
    }
}

fn next_prop(buf: &[u8], cur: usize, end: usize) -> (r: Option<(u32, usize, usize, usize)>)
    requires
        cur <= end <= buf@.len(),
    ensures
        r matches Some(p) ==> prop_at(buf@, cur as int, end as int) == Some(
            (p.0 as nat, p.1 as int, p.2 as nat, p.3 as int),
        ) && cur < p.3 <= end && p.1 + p.2 <= end,
        r is None ==> prop_at(buf@, cur as int, end as int) is None,
{
    match expect_token(buf, cur, end, FDT_PROP) {
        None => None,
        Some(c) => {
            if end - c >= 8 {
                let len = read_be32(buf, c) as usize;
                let off = read_be32(buf, c + 4);
                let v = c + 8;
                if len <= end - v {
                    let next = align_up_exec(v + len, end);
                    return Some((off, v, len, next));
                }
            }
            None
        },
    }
}

fn next_subnode(buf: &[u8], cur: usize, end: usize) -> (r: Option<(usize, usize, usize)>)
    requires
        cur <= end <= buf@.len(),
    ensures
        r matches Some(n) ==> subnode_at(buf@, cur as int, end as int) == Some(
            (n.0 as int, n.1 as int, n.2 as int),
        ) && cur < n.0 <= n.1 < n.2 <= end,
        r is None ==> subnode_at(buf@, cur as int, end as int) is None,
{
    match expect_token(buf, cur, end, FDT_BEGIN_NODE) {
        None => None,
        Some(c) => {
            let mut i = c;
            loop
                invariant
                    cur < c <= i <= end <= buf@.len(),
                    token_end(buf@, cur as int, end as int, FDT_BEGIN_NODE as nat) == Some(
                        c as int,
                    ),
                    first_nul(buf@, i as int, end as int) == first_nul(buf@, c as int, end as int),
                decreases end - i,
            {
                if i == end {
                    assert(first_nul(buf@, i as int, end as int) is None);
                    return None;
                }
                if buf[i] == 0 {
                    assert(first_nul(buf@, i as int, end as int) == Some(i as int));
                    let next = align_up_exec(i + 1, end);
                    return Some((c, i, next));
                }
                i = i + 1;
            }
        },
    }
}

fn skip_props(buf: &[u8], cur: usize, end: usize) -> (r: usize)
    requires
        cur <= end <= buf@.len(),
    ensures
        r == props_end(buf@, cur as int, end as int),
        cur <= r <= end,
{
    let mut c = cur;
    loop
        invariant
            cur <= c <= end <= buf@.len(),
            props_end(buf@, c as int, end as int) == props_end(buf@, cur as int, end as int),
        decreases end - c,
    {
        match next_prop(buf, c, end) {
            None => return c,
            Some((_, _, _, next)) => {
                c = next;
            },
        }
    }
}

/// The offset past the node whose remaining tokens start at `cur`.
fn skip_node(buf: &[u8], cur: usize, end: usize) -> (r: Option<usize>)
    requires
        cur <= end <= buf@.len(),
    ensures
        r matches Some(x) ==> node_end(buf@, cur as int, end as int, 1) == Some(x as int) && cur
            < x <= end,
        r is None ==> node_end(buf@, cur as int, end as int, 1) is None,
{
    let ghost s = buf@;
    let mut c = cur;
    let mut depth: usize = 1;
    loop
        invariant
            cur <= c <= end <= buf@.len(),
            s == buf@,
            1 <= depth <= 1 + (c - cur),
            node_end(s, c as int, end as int, depth as nat) == node_end(s, cur as int, end as int, 1),
        decreases end - c,
    {
        let p = skip_props(buf, c, end);
        match next_subnode(buf, p, end) {
            Some((_, _, n)) => {
                c = n;
                depth = depth + 1;
            },
            None => match expect_token(buf, p, end, FDT_END_NODE) {
                None => return None,
                Some(c2) => {
                    if depth <= 1 {
                        proof {
                            lemma_node_end(s, cur as int, end as int, 1);
                        }
                        return Some(c2);
                    }
                    c = c2;
                    depth = depth - 1;
                },
            },
        }
    }
}

/// Whether `buf[start..start + len]` equals the first `len` bytes of `name`.
fn bytes_eq(buf: &[u8], start: usize, name: &[u8], len: usize) -> (r: bool)
    requires
        start + len <= buf@.len(),
        len <= name@.len(),
    ensures
        r == (buf@.subrange(start as int, start + len) == name@.subrange(0, len as int)),
{
    let _n = buf.len();
    let mut i: usize = 0;
    while i < len
        invariant
            i <= len,
            start + len <= buf@.len() <= usize::MAX,
            len <= name@.len(),
            forall|k: int| 0 <= k < i ==> buf@[start + k] == name@[k],
        decreases len - i,
    {
        if buf[start + i] != name[i] {
            assert(buf@.subrange(start as int, start + len)[i as int] != name@.subrange(
                0,
                len as int,
            )[i as int]);
            return false;
        }
        i = i + 1;
    }
    assert(buf@.subrange(start as int, start + len) =~= name@.subrange(0, len as int));
    true
}

/// Whether the zero-terminated string at `strs + off`, inside the strings
/// block that ends at `strs_end`, is `name`.
fn cstr_eq(buf: &[u8], strs: usize, off: u32, strs_end: usize, name: &[u8]) -> (r: bool)
    requires
        strs <= strs_end <= buf@.len(),
    ensures
        r == name_at(buf@, strs + off, strs_end as int, name@),
{
    let off = off as usize;
    if off >= strs_end - strs || name.len() >= strs_end - strs - off {
        return false;
    }
    let at = strs + off;
    assert(name@.subrange(0, name@.len() as int) =~= name@);
    bytes_eq(buf, at, name, name.len()) && buf[at + name.len()] == 0
}

} // verus!
