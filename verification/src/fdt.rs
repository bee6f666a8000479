//! FDT façade: a typed surface over the flattened device tree handed over
//! by firmware.
//!
//! The low-level blob reader (node iteration, property discovery) is an
//! external collaborator; what this module owns is everything the kernel
//! decides from the data it yields: the big-endian decoding of the DTB
//! header's `totalsize` word, the `#address-cells`/`#size-cells` cache,
//! property lookup, and the strict decoding of a node's `reg` property
//! into a `(address, size)` pair.  A node is therefore a plain record of
//! its name and property bytes.

use vstd::prelude::*;

verus! {

/// Error kinds mirroring the flat-device-tree reader's negative integer
/// codes, plus the two conditions the façade adds: use before
/// initialisation, and a `reg` property whose shape is not one this
/// kernel decodes.
#[derive(Clone, Copy, PartialEq, Eq, Structural, Debug)]
pub enum FDTError {
    Unknown,
    NotFound,
    Exists,
    NoSpace,
    BadOffset,
    BadPath,
    BadPhandle,
    BadState,
    Truncated,
    BadMagic,
    BadVersion,
    BadStructure,
    BadLayout,
    Internal,
    BadNCells,
    BadValue,
    BadOverlay,
    NoPhandles,
    BadFlags,
    Alignment,
    LibfdtNotInitialized,
    UnexpectedRegFormat,
}

/// One property of a device-tree node: its name and its raw value bytes.
/// A zero-length property has an empty value.
#[derive(Debug)]
pub struct FDTProperty {
    pub name: Vec<u8>,
    pub value: Vec<u8>,
}

/// A device-tree node as the façade sees it: the node's name as the
/// reader returned it (or the error it failed with), and its properties.
#[derive(Debug)]
pub struct FDTNode {
    pub name: Result<Vec<u8>, FDTError>,
    pub properties: Vec<FDTProperty>,
}

/// The façade's cached state: where the blob sits and the root node's
/// cell counts, filled in once by `libfdt_lite_init`.
#[derive(Clone, Copy, PartialEq, Eq, Structural, Debug)]
pub struct LibFdt {
    pub dtb_start: u64,
    pub address_cells: usize,
    pub size_cells: usize,
}

/// Big-endian integer value of a byte string: the first byte is the most
/// significant.
pub open spec fn be_bytes_to_int(s: Seq<u8>) -> int
    decreases s.len(),
{
    if s.len() == 0 {
        0
    } else {
        be_bytes_to_int(s.drop_last()) * 256 + s.last()
    }
}

/// 256 to the `n`th power: the exclusive upper bound of an `n`-byte
/// big-endian value.
pub open spec fn pow256(n: nat) -> int
    decreases n,
{
    if n == 0 {
        1
    } else {
        256 * pow256((n - 1) as nat)
    }
}

/// A big-endian value is non-negative and below 256 to its length.
pub proof fn lemma_be_bytes_bound(s: Seq<u8>)
    ensures
        0 <= be_bytes_to_int(s) < pow256(s.len()),
    decreases s.len(),
{
    if s.len() > 0 {
        lemma_be_bytes_bound(s.drop_last());
        assert(pow256(s.len()) == 256 * pow256((s.len() - 1) as nat));
    }
}

/// Decode `len` bytes of `v` starting at `start` as a big-endian integer.
/// At most eight bytes fit a `u64`.
pub fn be_read(v: &Vec<u8>, start: usize, len: usize) -> (r: u64)
    requires
        start + len <= v@.len(),
        len <= 8,
    ensures
        r == be_bytes_to_int(v@.subrange(start as int, start as int + len as int)),
{
    proof {
        reveal_with_fuel(pow256, 9);
    }
    let n = v.len();
    let mut acc: u64 = 0;
    let mut i: usize = 0;
    while i < len
        invariant
            n == v@.len(),
            start + len <= v@.len(),
            len <= 8,
            0 <= i <= len,
            acc == be_bytes_to_int(v@.subrange(start as int, start as int + i as int)),
            acc < pow256(i as nat),
        decreases len - i,
    {
        proof {
            reveal_with_fuel(pow256, 9);
            let s0 = v@.subrange(start as int, start as int + i as int);
            let s1 = v@.subrange(start as int, start as int + i as int + 1);
            assert(s1.drop_last() =~= s0);
            assert(s1.last() == v@[start as int + i as int]);
            assert(pow256((i + 1) as nat) == 256 * pow256(i as nat));
            assert(pow256(8nat) == 0x1_0000_0000_0000_0000);
            lemma_pow256_mono((i + 1) as nat, 8nat);
        }
        acc = acc * 256 + (v[start + i] as u64);
        i += 1;
    }
    acc
}

/// `pow256` grows with its exponent.
proof fn lemma_pow256_mono(a: nat, b: nat)
    requires
        a <= b,
    ensures
        pow256(a) <= pow256(b),
    decreases b,
{
    if a < b {
        lemma_pow256_mono(a, (b - 1) as nat);
        assert(pow256(b) == 256 * pow256((b - 1) as nat));
        assert(pow256((b - 1) as nat) >= 1) by {
            lemma_pow256_pos((b - 1) as nat);
        }
    }
}

/// `pow256` is positive.
proof fn lemma_pow256_pos(n: nat)
    ensures
        pow256(n) >= 1,
    decreases n,
{
    if n > 0 {
        lemma_pow256_pos((n - 1) as nat);
    }
}

/// The DTB header's `totalsize` field: the big-endian 32-bit word at
/// offset 4.  Only bytes 4 to 7 are read — the magic word at offset 0 is
/// never dereferenced, so the result is the same whether or not the
/// blob's first bytes are readable (the blob may sit at physical 0).
pub fn dtb_total_size(header: &Vec<u8>) -> (r: u64)
    requires
        header@.len() >= 8,
    ensures
        r == be_bytes_to_int(header@.subrange(4, 8)),
{
    be_read(header, 4, 4)
}

/// The blob starts with the FDT magic `0xd00dfeed`, big-endian.
pub open spec fn fdt_magic_ok(h: Seq<u8>) -> bool {
    &&& h.len() >= 8
    &&& h[0] == 0xd0u8
    &&& h[1] == 0x0du8
    &&& h[2] == 0xfeu8
    &&& h[3] == 0xedu8
}

/// The first property of `props` named `name`, if any.
pub open spec fn prop_lookup(props: Seq<FDTProperty>, name: Seq<u8>) -> Option<Seq<u8>>
    decreases props.len(),
{
    if props.len() == 0 {
        None
    } else if props[0].name@ == name {
        Some(props[0].value@)
    } else {
        prop_lookup(props.skip(1), name)
    }
}

/// If the first `i` properties miss and property `i` matches, the lookup
/// returns property `i`'s value.
proof fn lemma_prop_lookup_hit(props: Seq<FDTProperty>, name: Seq<u8>, i: int)
    requires
        0 <= i < props.len(),
        forall|j: int| 0 <= j < i ==> props[j].name@ != name,
        props[i].name@ == name,
    ensures
        prop_lookup(props, name) == Some(props[i].value@),
    decreases i,
{
    if i > 0 {
        assert(props[0].name@ != name);
        assert(props.skip(1)[i - 1] == props[i]);
        assert(forall|j: int| 0 <= j < i - 1 ==> props.skip(1)[j] == props[j + 1]);
        lemma_prop_lookup_hit(props.skip(1), name, i - 1);
    }
}

/// If no property matches, the lookup misses.
proof fn lemma_prop_lookup_miss(props: Seq<FDTProperty>, name: Seq<u8>)
    requires
        forall|j: int| 0 <= j < props.len() ==> props[j].name@ != name,
    ensures
        prop_lookup(props, name) is None,
    decreases props.len(),
{
    if props.len() > 0 {
        assert(forall|j: int| 0 <= j < props.len() - 1 ==> props.skip(1)[j] == props[j + 1]);
        lemma_prop_lookup_miss(props.skip(1), name);
    }
}

/// Byte-for-byte equality of a vector and a slice.
fn bytes_eq(a: &Vec<u8>, b: &[u8]) -> (r: bool)
    ensures
        r <==> a@ == b@,
{
    if a.len() != b.len() {
        proof {
            assert(a@.len() != b@.len());
        }
        return false;
    }
    let n = a.len();
    let mut i: usize = 0;
    while i < n
        invariant
            n == a@.len(),
            n == b@.len(),
            0 <= i <= n,
            forall|j: int| 0 <= j < i ==> a@[j] == b@[j],
        decreases n - i,
    {
        if a[i] != b[i] {
            return false;
        }
        i += 1;
    }
    proof {
        assert(a@ =~= b@);
    }
    true
}

impl FDTNode {
    /// The node's name, exactly as the underlying reader produced it: its
    /// bytes, or the error the read failed with.
    pub fn get_name(&self) -> (r: Result<&Vec<u8>, FDTError>)
        ensures
            r is Ok <==> self.name is Ok,
            r is Ok ==> *r->Ok_0 == self.name->Ok_0,
            r is Err ==> r->Err_0 == self.name->Err_0,
    {
        match &self.name {
            Ok(n) => Ok(n),
            Err(e) => Err(*e),
        }
    }

    /// The raw bytes of the named property; `NotFound` when the node has
    /// no property of that name.  A zero-length property yields an empty
    /// byte vector.
    pub fn get_property(&self, property_name: &[u8]) -> (r: Result<&Vec<u8>, FDTError>)
        ensures
            match prop_lookup(self.properties@, property_name@) {
                Some(v) => r is Ok && r->Ok_0@ == v,
                None => r == Err::<&Vec<u8>, FDTError>(FDTError::NotFound),
            },
    {
        let n = self.properties.len();
        let mut i: usize = 0;
        while i < n
            invariant
                n == self.properties@.len(),
                0 <= i <= n,
                forall|j: int| 0 <= j < i ==> self.properties@[j].name@ != property_name@,
            decreases n - i,
        {
            if bytes_eq(&self.properties[i].name, property_name) {
                proof {
                    lemma_prop_lookup_hit(self.properties@, property_name@, i as int);
                }
                return Ok(&self.properties[i].value);
            }
            i += 1;
        }
        proof {
            lemma_prop_lookup_miss(self.properties@, property_name@);
        }
        Err(FDTError::NotFound)
    }

    /// Decode the node's `reg` property as
    /// (`#address-cells` x 4 bytes) ‖ (`#size-cells` x 4 bytes), both
    /// big-endian.  Only 32- and 64-bit cells are supported; a missing
    /// property is `NotFound`, and any other shape — a length that is not
    /// exactly the two fields, or a cell count other than 1 or 2 — is
    /// `UnexpectedRegFormat`.
    pub fn get_reg(&self, fdt: &LibFdt) -> (r: Result<(u64, u64), FDTError>)
        ensures
            ({
                let pl = prop_lookup(self.properties@, seq![114u8, 101u8, 103u8]);
                let ab = fdt.address_cells * 4;
                let sb = fdt.size_cells * 4;
                match pl {
                    None => r == Err::<(u64, u64), FDTError>(FDTError::NotFound),
                    Some(v) => {
                        if v.len() != ab + sb || !(fdt.address_cells == 1 || fdt.address_cells
                            == 2) || !(fdt.size_cells == 1 || fdt.size_cells == 2) {
                            r == Err::<(u64, u64), FDTError>(FDTError::UnexpectedRegFormat)
                        } else {
                            r == Ok::<(u64, u64), FDTError>(
                                (
                                    be_bytes_to_int(v.subrange(0, ab as int)) as u64,
                                    be_bytes_to_int(v.subrange(ab as int, ab + sb)) as u64,
                                ),
                            )
                        }
                    },
                }
            }),
    {
        // The property name "reg" as bytes.
        let reg_name: [u8; 3] = [114, 101, 103];
        let value = match self.get_property(reg_name.as_slice()) {
            Ok(v) => v,
            Err(e) => {
                return Err(e);
            },
        };
        let ac = fdt.address_cells;
        let sc = fdt.size_cells;
        if !(ac == 1 || ac == 2) || !(sc == 1 || sc == 2) {
            return Err(FDTError::UnexpectedRegFormat);
        }
        let address_bytes: usize = ac * 4;
        let size_bytes: usize = sc * 4;
        if value.len() != address_bytes + size_bytes {
            return Err(FDTError::UnexpectedRegFormat);
        }
        let address = be_read(value, 0, address_bytes);
        let size = be_read(value, address_bytes, size_bytes);
        proof {
            lemma_be_bytes_bound(value@.subrange(0, address_bytes as int));
            lemma_be_bytes_bound(
                value@.subrange(address_bytes as int, address_bytes as int + size_bytes as int),
            );
        }
        Ok((address, size))
    }
}

/// Check the blob's header and cache the root node's cell counts.
///
/// Mirrors the underlying reader's initialisation: the header must carry
/// the FDT magic; the root node must carry 4-byte `#size-cells` and
/// `#address-cells` properties, decoded big-endian.  A missing property
/// is `NotFound` (the reader's lookup failure); a property of the wrong
/// width is `BadNCells`.
pub fn libfdt_lite_init(kernel_dtb_start: u64, header: &Vec<u8>, root: &FDTNode) -> (r: Result<
    LibFdt,
    FDTError,
>)
    ensures
        !fdt_magic_ok(header@) ==> r == Err::<LibFdt, FDTError>(FDTError::BadMagic),
        fdt_magic_ok(header@) ==> ({
            let sc = prop_lookup(
                root.properties@,
                seq![35u8, 115u8, 105u8, 122u8, 101u8, 45u8, 99u8, 101u8, 108u8, 108u8, 115u8],
            );
            let ac = prop_lookup(
                root.properties@,
                seq![
                    35u8,
                    97u8,
                    100u8,
                    100u8,
                    114u8,
                    101u8,
                    115u8,
                    115u8,
                    45u8,
                    99u8,
                    101u8,
                    108u8,
                    108u8,
                    115u8,
                ],
            );
            match (sc, ac) {
                (None, _) => r == Err::<LibFdt, FDTError>(FDTError::NotFound),
                (Some(sv), _) if sv.len() != 4 => r == Err::<LibFdt, FDTError>(
                    FDTError::BadNCells,
                ),
                (Some(sv), None) => r == Err::<LibFdt, FDTError>(FDTError::NotFound),
                (Some(sv), Some(av)) => {
                    if av.len() != 4 {
                        r == Err::<LibFdt, FDTError>(FDTError::BadNCells)
                    } else {
                        r is Ok && r->Ok_0.dtb_start == kernel_dtb_start && r->Ok_0.size_cells
                            == be_bytes_to_int(sv) && r->Ok_0.address_cells == be_bytes_to_int(av)
                    }
                },
            }
        }),
{
    if header.len() < 8 {
        return Err(FDTError::BadMagic);
    }
    if !(header[0] == 0xd0 && header[1] == 0x0d && header[2] == 0xfe && header[3] == 0xed) {
        return Err(FDTError::BadMagic);
    }
    // "#size-cells" as bytes.
    let size_cells_name: [u8; 11] = [35, 115, 105, 122, 101, 45, 99, 101, 108, 108, 115];
    let size_value = match root.get_property(size_cells_name.as_slice()) {
        Ok(v) => v,
        Err(e) => {
            return Err(e);
        },
    };
    if size_value.len() != 4 {
        return Err(FDTError::BadNCells);
    }
    let size_cells = be_read(size_value, 0, 4);
    // "#address-cells" as bytes.
    let address_cells_name: [u8; 14] = [
        35,
        97,
        100,
        100,
        114,
        101,
        115,
        115,
        45,
        99,
        101,
        108,
        108,
        115,
    ];
    let address_value = match root.get_property(address_cells_name.as_slice()) {
        Ok(v) => v,
        Err(e) => {
            return Err(e);
        },
    };
    if address_value.len() != 4 {
        return Err(FDTError::BadNCells);
    }
    let address_cells = be_read(address_value, 0, 4);
    proof {
        reveal_with_fuel(pow256, 9);
        lemma_be_bytes_bound(size_value@.subrange(0, 4));
        lemma_be_bytes_bound(address_value@.subrange(0, 4));
        assert(size_value@.subrange(0, 4) =~= size_value@);
        assert(address_value@.subrange(0, 4) =~= address_value@);
    }
    Ok(
        LibFdt {
            dtb_start: kernel_dtb_start,
            address_cells: address_cells as usize,
            size_cells: size_cells as usize,
        },
    )
}

/// A lazy, non-restartable pass over the tree's nodes in depth-first
/// order.  The cursor begins at the root, as the underlying reader's
/// does, so the first `next` yields the node after the root; every node
/// is yielded exactly once.
pub struct FDTItr {
    pub nodes: Vec<FDTNode>,
    pub pos: usize,
}

impl FDTItr {
    /// Start an iteration.  The `LibFdt` value is the evidence that the
    /// façade was initialised, so the reader's not-initialised failure
    /// cannot arise and the result is always `Ok`.
    pub fn new(fdt: &LibFdt, nodes: Vec<FDTNode>) -> (r: Result<FDTItr, FDTError>)
        ensures
            r is Ok,
            r->Ok_0.nodes@ == nodes@,
            r->Ok_0.pos == 1usize,
    {
        Ok(FDTItr { nodes, pos: 1 })
    }

    /// The next node in depth-first order, or `None` when the pass is
    /// done.
    pub fn next(&mut self) -> (r: Option<&FDTNode>)
        ensures
            final(self).nodes@ == old(self).nodes@,
            old(self).pos < old(self).nodes@.len() ==> final(self).pos == old(self).pos + 1 && r
                is Some && *r->Some_0 == old(self).nodes@[old(self).pos as int],
            old(self).pos >= old(self).nodes@.len() ==> final(self).pos == old(self).pos && r
                is None,
    {
        if self.pos < self.nodes.len() {
            let i = self.pos;
            self.pos = i + 1;
            Some(&self.nodes[i])
        } else {
            None
        }
    }
}


/// What a node's `reg` decodes to through the cached cell counts: the
/// exact decode `FDTNode::get_reg` performs.
pub open spec fn reg_spec(node: &FDTNode, fdt: &LibFdt) -> Result<(u64, u64), FDTError> {
    let pl = prop_lookup(node.properties@, seq![114u8, 101u8, 103u8]);
    let ab = fdt.address_cells * 4;
    let sb = fdt.size_cells * 4;
    match pl {
        None => Err(FDTError::NotFound),
        Some(v) => {
            if v.len() != ab + sb || !(fdt.address_cells == 1 || fdt.address_cells == 2) || !(
            fdt.size_cells == 1 || fdt.size_cells == 2) {
                Err(FDTError::UnexpectedRegFormat)
            } else {
                Ok(
                    (
                        be_bytes_to_int(v.subrange(0, ab as int)) as u64,
                        be_bytes_to_int(v.subrange(ab as int, ab + sb)) as u64,
                    ),
                )
            }
        },
    }
}

/// The node's `reg` decodes successfully to exactly `(rs, rl)`.
pub open spec fn reg_decodes_to(node: &FDTNode, fdt: &LibFdt, rs: u64, rl: u64) -> bool {
    reg_spec(node, fdt) == Ok::<(u64, u64), FDTError>((rs, rl))
}

} // verus!
