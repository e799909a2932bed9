//! Large objects: pointers into text pages and the trees of nodes behind them.
use vstd::prelude::*;
use crate::bytes::{le_u16, le_u32, le_u64, read_u16, read_u32, read_u64, copy_range, copy_bytes};
use crate::raw_page::{PageProvider, RecordPointer, spec_get_record, spec_record_pointer};
use crate::record::{Record, RecordView};

verus! {

/// A pointer to the root node of a large object: a timestamp at offset 0 and
/// a record pointer at offset 8.
#[derive(Clone, Copy, Debug, PartialEq, Eq, Structural)]
pub struct LobPointer {
    pub timestamp: u32,
    pub ptr: RecordPointer,
}

/// The large-object pointer that the bytes `b` hold; `None` when they are
/// fewer than 16 or the record pointer is null.
pub open spec fn spec_lob_pointer(b: Seq<u8>) -> Option<LobPointer> {
    if b.len() < 16 {
        None
    } else {
        match spec_record_pointer(b, 8) {
            Some(p) => Some(LobPointer { timestamp: le_u32(b, 0), ptr: p }),
            None => None,
        }
    }
}

impl LobPointer {
    pub fn parse(data: &[u8]) -> (r: Option<LobPointer>)
        ensures
            r == spec_lob_pointer(data@),
    {
        if data.len() < 16 {
            return None;
        }
        let p = RecordPointer::parse(&data[8..16]);
        match p {
            Some(ptr) => Some(LobPointer { timestamp: read_u32(data, 0), ptr }),
            None => None,
        }
    }
}


/// Most levels a large-object walk descends; a deeper tree can only be
/// cyclic or corrupt, and its walk fails.
pub const MAX_LOB_DEPTH: u64 = 64;

/// The kind of a large-object node, from bytes 8..10 of its fixed data.
#[derive(Clone, Copy, Debug, PartialEq, Eq, Structural)]
pub enum LobType {
    SmallRoot,
    LargeRootYukon,
    Data,
    Internal,
    Null,
}

/// The node kind that a type code stands for; `None` for the codes of the
/// older root layouts and any other code.
pub open spec fn spec_lob_type(code: u16) -> Option<LobType> {
    match code {
        0 => Some(LobType::SmallRoot),
        2 => Some(LobType::Internal),
        3 => Some(LobType::Data),
        5 => Some(LobType::LargeRootYukon),
        8 => Some(LobType::Null),
        _ => None,
    }
}

impl LobType {
    /// The kind of the node stored in `record`; `None` for an unknown code or
    /// fixed data too short to hold one.
    pub fn parse(record: &Record) -> (r: Option<LobType>)
        ensures
            r == (if record@.fixed_data.len() < 10 { None } else { spec_lob_type(le_u16(record@.fixed_data, 8)) }),
    {
        let f = record.fixed_data.as_slice();
        if f.len() < 10 {
            return None;
        }
        match read_u16(f, 8) {
            0 => Some(LobType::SmallRoot),
            2 => Some(LobType::Internal),
            3 => Some(LobType::Data),
            5 => Some(LobType::LargeRootYukon),
            8 => Some(LobType::Null),
            _ => None,
        }
    }
}

/// Offset of child entry `i` of a node of kind `t`: entries of a Yukon root
/// are 12 bytes from offset 20, those of an internal node 16 bytes from 16.
pub open spec fn entry_offset(t: LobType, i: int) -> int {
    if t == LobType::LargeRootYukon { 20 + 12 * i } else { 16 * (i + 1) }
}

/// Size of a child entry of a node of kind `t`.
pub open spec fn entry_size(t: LobType) -> int {
    if t == LobType::LargeRootYukon { 12 } else { 16 }
}

/// The size (Yukon root) or offset (internal node) of child entry `i`, and
/// its record pointer.
pub open spec fn spec_link(t: LobType, f: Seq<u8>, i: int) -> (u64, Option<RecordPointer>) {
    let o = entry_offset(t, i);
    if t == LobType::LargeRootYukon {
        (le_u32(f, o) as u64, spec_record_pointer(f, o + 4))
    } else {
        (le_u64(f, o), spec_record_pointer(f, o + 8))
    }
}

/// Whether the fixed data `f` holds a well-formed node of a kind with child
/// entries: `cur_links <= max_links`, every entry inside the data, and no
/// entry with a null pointer.
pub open spec fn spec_links_ok(t: LobType, f: Seq<u8>) -> bool {
    &&& f.len() >= 16
    &&& le_u16(f, 12) <= le_u16(f, 10)
    &&& entry_offset(t, le_u16(f, 12) as int) <= f.len()
    &&& forall|i: int| 0 <= i < le_u16(f, 12) ==> (#[trigger] spec_link(t, f, i)).1 is Some
}

/// The kind of node that a record holds, when it is one that the walk
/// accepts: a small root whose data fits, a data node, or a Yukon root or
/// internal node with well-formed links. Null nodes and unknown kinds are
/// not accepted.
pub open spec fn spec_node_kind(rv: RecordView) -> Option<LobType> {
    let f = rv.fixed_data;
    if f.len() < 10 {
        None
    } else {
        match spec_lob_type(le_u16(f, 8)) {
            Some(LobType::SmallRoot) => if f.len() >= 16 && 16 + le_u16(f, 10) <= f.len() {
                Some(LobType::SmallRoot)
            } else {
                None
            },
            Some(LobType::Data) => Some(LobType::Data),
            Some(LobType::LargeRootYukon) => if spec_links_ok(LobType::LargeRootYukon, f) {
                Some(LobType::LargeRootYukon)
            } else {
                None
            },
            Some(LobType::Internal) => if spec_links_ok(LobType::Internal, f) {
                Some(LobType::Internal)
            } else {
                None
            },
            _ => None,
        }
    }
}

/// Whether a node kind carries data rather than links.
pub open spec fn is_leaf(t: LobType) -> bool {
    t == LobType::SmallRoot || t == LobType::Data
}

/// The data of a leaf node: `length` bytes from offset 16 for a small root,
/// everything from offset 10 for a data node.
pub open spec fn spec_leaf_data(rv: RecordView) -> Seq<u8> {
    let f = rv.fixed_data;
    if le_u16(f, 8) == 0 {
        f.subrange(16, 16 + le_u16(f, 10))
    } else {
        f.subrange(10, f.len() as int)
    }
}

/// One extent of a large object: a size or offset, and bytes.
pub type ExtentView = (u64, Seq<u8>);

/// What link `k` of a node adds to the walk: the child's extent for a leaf
/// child, the child itself otherwise; `None` when the child cannot be
/// fetched or is not an accepted node.
pub open spec fn spec_link_step<T: PageProvider>(prov: &T, t: LobType, f: Seq<u8>, k: int, e: Seq<ExtentView>, nx: Seq<RecordView>) -> Option<(Seq<ExtentView>, Seq<RecordView>)> {
    let (off, rp) = spec_link(t, f, k);
    match spec_get_record(prov, rp.unwrap()) {
        Some(crv) => match spec_node_kind(crv) {
            Some(ck) => if is_leaf(ck) {
                Some((e.push((off, spec_leaf_data(crv))), nx))
            } else {
                Some((e, nx.push(crv)))
            },
            None => None,
        },
        None => None,
    }
}

/// The extents and next-level nodes that the first `k` links of a node
/// give: a leaf child gives an extent at once, with the size or offset of its
/// link; another child goes to the next level. `None` when a child cannot be
/// fetched or is not an accepted node.
#[verifier::opaque]
pub open spec fn spec_expand_links<T: PageProvider>(prov: &T, t: LobType, f: Seq<u8>, k: nat) -> Option<(Seq<ExtentView>, Seq<RecordView>)>
    decreases k,
{
    if k == 0 {
        Some((Seq::empty(), Seq::empty()))
    } else {
        match spec_expand_links(prov, t, f, (k - 1) as nat) {
            Some((e, nx)) => spec_link_step(prov, t, f, k - 1, e, nx),
            None => None,
        }
    }
}

/// What one node of the walk gives: a leaf its own extent (with its data
/// length), a node with links what its links give.
pub open spec fn spec_expand_node<T: PageProvider>(prov: &T, rv: RecordView) -> Option<(Seq<ExtentView>, Seq<RecordView>)> {
    let t = spec_node_kind(rv).unwrap();
    if is_leaf(t) {
        let d = spec_leaf_data(rv);
        Some((seq![(d.len() as u64, d)], Seq::empty()))
    } else {
        spec_expand_links(prov, t, rv.fixed_data, le_u16(rv.fixed_data, 12) as nat)
    }
}

/// What the first `n` nodes of a level give, in order.
pub open spec fn spec_expand_level<T: PageProvider>(prov: &T, nodes: Seq<RecordView>, n: nat) -> Option<(Seq<ExtentView>, Seq<RecordView>)>
    decreases n,
{
    if n == 0 {
        Some((Seq::empty(), Seq::empty()))
    } else {
        match spec_expand_level(prov, nodes, (n - 1) as nat) {
            Some((e, nx)) => match spec_expand_node(prov, nodes[n - 1]) {
                Some((e2, nx2)) => Some((e + e2, nx + nx2)),
                None => None,
            },
            None => None,
        }
    }
}

/// The breadth-first walk from a level of nodes, descending at most `fuel`
/// levels: the extents in the order the walk emits them.
pub open spec fn spec_walk<T: PageProvider>(prov: &T, nodes: Seq<RecordView>, fuel: nat) -> Option<Seq<ExtentView>>
    decreases fuel,
{
    if nodes.len() == 0 {
        Some(Seq::empty())
    } else if fuel == 0 {
        None
    } else {
        match spec_expand_level(prov, nodes, nodes.len()) {
            Some((e, nx)) => match spec_walk(prov, nx, (fuel - 1) as nat) {
                Some(rest) => Some(e + rest),
                None => None,
            },
            None => None,
        }
    }
}

/// The extents of the large object that `p` points to.
pub open spec fn spec_lob_read<T: PageProvider>(prov: &T, p: LobPointer) -> Option<Seq<ExtentView>> {
    match spec_get_record(prov, p.ptr) {
        Some(rv) => if spec_node_kind(rv) is Some { spec_walk(prov, seq![rv], MAX_LOB_DEPTH as nat) } else { None },
        None => None,
    }
}

/// The extents of a large object, in the order the walk emits them: a size
/// or offset, and the bytes.
pub struct LobDataBlocks {
    pub data_blocks: Vec<(u64, Vec<u8>)>,
}

/// The views of a sequence of extents.
pub open spec fn extent_views(bs: Seq<(u64, Vec<u8>)>) -> Seq<ExtentView> {
    bs.map_values(|b: (u64, Vec<u8>)| (b.0, b.1@))
}

/// The total number of bytes of a sequence of extents.
pub open spec fn spec_total_len(bs: Seq<ExtentView>) -> nat
    decreases bs.len(),
{
    if bs.len() == 0 { 0 } else { spec_total_len(bs.drop_last()) + bs.last().1.len() }
}

impl LobDataBlocks {
    /// The total number of bytes, modulo 2^32.
    pub fn length(&self) -> (r: u32)
        ensures
            r == spec_total_len(extent_views(self.data_blocks@)) % 0x1_0000_0000,
    {
        let ghost bs = extent_views(self.data_blocks@);
        let mut len: u64 = 0;
        let mut i: usize = 0;
        while i < self.data_blocks.len()
            invariant
                bs == extent_views(self.data_blocks@),
                i <= bs.len(),
                len == spec_total_len(bs.subrange(0, i as int)) % 0x1_0000_0000,
            decreases bs.len() - i,
        {
            proof {
                assert(bs.subrange(0, i as int + 1).drop_last() =~= bs.subrange(0, i as int));
            }
            let n = self.data_blocks[i].1.len() as u64;
            len = (len + n % 0x1_0000_0000) % 0x1_0000_0000;
            i = i + 1;
        }
        proof {
            assert(bs.subrange(0, bs.len() as int) =~= bs);
        }
        len as u32
    }
}

/// A root that holds its data inline.
pub struct LobSmallRoot {
    pub blob_id: u64,
    pub ty: LobType,
    pub length: u16,
    pub data: Vec<u8>,
}

/// A link of a Yukon root: the size of the child's data and the child.
#[derive(Clone, Copy, Debug, PartialEq, Eq, Structural)]
pub struct SizedRecordPointer {
    pub size: u32,
    pub ptr: RecordPointer,
}

/// A link of an internal node: the child's offset in the object and the child.
#[derive(Clone, Copy, Debug, PartialEq, Eq, Structural)]
pub struct RecordPointerWithOffset {
    pub offset: u64,
    pub ptr: RecordPointer,
}

impl SizedRecordPointer {
    pub fn parse(data: &[u8]) -> (r: Option<SizedRecordPointer>)
        requires
            data@.len() >= 12,
        ensures
            r == (match spec_record_pointer(data@, 4) {
                Some(p) => Some(SizedRecordPointer { size: le_u32(data@, 0), ptr: p }),
                None => None,
            }),
    {
        match RecordPointer::parse(&data[4..12]) {
            Some(ptr) => Some(SizedRecordPointer { size: read_u32(data, 0), ptr }),
            None => None,
        }
    }
}

impl RecordPointerWithOffset {
    pub fn parse(data: &[u8]) -> (r: Option<RecordPointerWithOffset>)
        requires
            data@.len() >= 16,
        ensures
            r == (match spec_record_pointer(data@, 8) {
                Some(p) => Some(RecordPointerWithOffset { offset: le_u64(data@, 0), ptr: p }),
                None => None,
            }),
    {
        match RecordPointer::parse(&data[8..16]) {
            Some(ptr) => Some(RecordPointerWithOffset { offset: read_u64(data, 0), ptr }),
            None => None,
        }
    }
}

/// A Yukon-layout root: a table of sized links to the children.
pub struct LobLargeRootYukon {
    pub blob_id: u64,
    pub ty: LobType,
    pub max_links: u16,
    pub cur_links: u16,
    pub level: u16,
    pub record: Record,
}

/// A data node: its payload is the fixed data from offset 10 on.
pub struct LobData {
    pub blob_id: u64,
    pub ty: LobType,
    pub data: Vec<u8>,
}

/// An internal node: a table of links with offsets to the children.
pub struct LobInternal {
    pub blob_id: u64,
    pub ty: LobType,
    pub max_links: u16,
    pub cur_links: u16,
    pub level: u16,
    pub record: Record,
}

/// A node of a large-object tree.
pub enum LobEntry {
    SmallRoot(LobSmallRoot),
    LargeRootYukon(LobLargeRootYukon),
    Data(LobData),
    Internal(LobInternal),
}

/// Reads the link at entry `idx` of the fixed data of a node with links.
fn read_link(t: LobType, f: &[u8], idx: u16) -> (r: (u64, RecordPointer))
    requires
        t == LobType::LargeRootYukon || t == LobType::Internal,
        spec_links_ok(t, f@),
        idx < le_u16(f@, 12),
    ensures
        spec_link(t, f@, idx as int) == (r.0, Some(r.1)),
{
    let i = idx as usize;
    let ghost _l = spec_link(t, f@, idx as int);
    if t == LobType::LargeRootYukon {
        let p = SizedRecordPointer::parse(&f[20 + 12 * i..20 + 12 * (i + 1)]);
        let p = p.unwrap();
        (p.size as u64, p.ptr)
    } else {
        let p = RecordPointerWithOffset::parse(&f[16 * (i + 1)..16 * (i + 2)]);
        let p = p.unwrap();
        (p.offset, p.ptr)
    }
}

impl LobLargeRootYukon {
    /// Well-formed: the node's record holds an accepted Yukon root whose
    /// fields are these.
    pub open spec fn wf(&self) -> bool {
        &&& spec_node_kind(self.record@) == Some(LobType::LargeRootYukon)
        &&& self.ty == LobType::LargeRootYukon
        &&& self.blob_id == le_u64(self.record@.fixed_data, 0)
        &&& self.max_links == le_u16(self.record@.fixed_data, 10)
        &&& self.cur_links == le_u16(self.record@.fixed_data, 12)
        &&& self.level == le_u16(self.record@.fixed_data, 14)
    }

    /// The child pointer of link `idx`; `None` past the current link count.
    pub fn read_idx(&self, idx: u16) -> (r: Option<RecordPointer>)
        requires
            self.wf(),
        ensures
            r is Some <==> idx < self.cur_links,
            r is Some ==> r == spec_link(LobType::LargeRootYukon, self.record@.fixed_data, idx as int).1,
    {
        if idx >= self.cur_links {
            None
        } else {
            Some(read_link(LobType::LargeRootYukon, self.record.fixed_data.as_slice(), idx).1)
        }
    }
}

impl LobInternal {
    /// Well-formed: the node's record holds an accepted internal node whose
    /// fields are these.
    pub open spec fn wf(&self) -> bool {
        &&& spec_node_kind(self.record@) == Some(LobType::Internal)
        &&& self.ty == LobType::Internal
        &&& self.blob_id == le_u64(self.record@.fixed_data, 0)
        &&& self.max_links == le_u16(self.record@.fixed_data, 10)
        &&& self.cur_links == le_u16(self.record@.fixed_data, 12)
        &&& self.level == le_u16(self.record@.fixed_data, 14)
    }

    /// The child pointer of link `idx`; `None` past the current link count.
    pub fn read_idx(&self, idx: u16) -> (r: Option<RecordPointer>)
        requires
            self.wf(),
        ensures
            r is Some <==> idx < self.cur_links,
            r is Some ==> r == spec_link(LobType::Internal, self.record@.fixed_data, idx as int).1,
    {
        if idx >= self.cur_links {
            None
        } else {
            Some(read_link(LobType::Internal, self.record.fixed_data.as_slice(), idx).1)
        }
    }
}

impl LobEntry {
    /// Whether this node is the one that the record `rv` holds.
    #[verifier::opaque]
    pub open spec fn from_record(&self, rv: RecordView) -> bool {
        let f = rv.fixed_data;
        &&& spec_node_kind(rv) is Some
        &&& match self {
            LobEntry::SmallRoot(s) => spec_node_kind(rv) == Some(LobType::SmallRoot)
                && s.ty == LobType::SmallRoot && s.blob_id == le_u64(f, 0)
                && s.length == le_u16(f, 10) && s.data@ == spec_leaf_data(rv),
            LobEntry::Data(d) => spec_node_kind(rv) == Some(LobType::Data)
                && d.ty == LobType::Data && d.blob_id == le_u64(f, 0) && d.data@ == spec_leaf_data(rv),
            LobEntry::LargeRootYukon(x) => x.wf() && x.record@ == rv,
            LobEntry::Internal(x) => x.wf() && x.record@ == rv,
        }
    }

    /// Decodes the node stored in `record`; `None` for a null node, an
    /// unknown kind, a small root whose data runs past the record, or a node
    /// with links that is not well-formed.
    pub fn parse(record: Record) -> (r: Option<LobEntry>)
        ensures
            r is Some <==> spec_node_kind(record@) is Some,
            r matches Some(e) ==> e.from_record(record@),
    {
        reveal(LobEntry::from_record);
        match LobType::parse(&record) {
            Some(LobType::SmallRoot) => match LobSmallRoot::parse(record) {
                Some(x) => Some(LobEntry::SmallRoot(x)),
                None => None,
            },
            Some(LobType::Data) => match LobData::parse(record) {
                Some(x) => Some(LobEntry::Data(x)),
                None => None,
            },
            Some(LobType::LargeRootYukon) => match LobLargeRootYukon::parse(record) {
                Some(x) => Some(LobEntry::LargeRootYukon(x)),
                None => None,
            },
            Some(LobType::Internal) => match LobInternal::parse(record) {
                Some(x) => Some(LobEntry::Internal(x)),
                None => None,
            },
            _ => None,
        }
    }
}

impl LobSmallRoot {
    /// Decodes a small root: `length` at offset 10 and that many bytes of
    /// data from offset 16. `None` when the record holds another kind of node
    /// or the data runs past the record.
    pub fn parse(record: Record) -> (r: Option<LobSmallRoot>)
        ensures
            r is Some <==> spec_node_kind(record@) == Some(LobType::SmallRoot),
            r matches Some(x) ==> LobEntry::SmallRoot(x).from_record(record@),
    {
        reveal(LobEntry::from_record);
        match LobType::parse(&record) {
            Some(LobType::SmallRoot) => {},
            _ => {
                return None;
            },
        }
        let f = record.fixed_data.as_slice();
        let n = f.len();
        if n < 16 {
            return None;
        }
        let length = read_u16(f, 10);
        if 16 + length as usize > n {
            return None;
        }
        let data = copy_range(f, 16, 16 + length as usize);
        Some(LobSmallRoot { blob_id: read_u64(f, 0), ty: LobType::SmallRoot, length, data })
    }
}

impl LobData {
    /// Decodes a data node: its payload is the fixed data from offset 10.
    /// `None` when the record holds another kind of node.
    pub fn parse(record: Record) -> (r: Option<LobData>)
        ensures
            r is Some <==> spec_node_kind(record@) == Some(LobType::Data),
            r matches Some(x) ==> LobEntry::Data(x).from_record(record@),
    {
        reveal(LobEntry::from_record);
        match LobType::parse(&record) {
            Some(LobType::Data) => {},
            _ => {
                return None;
            },
        }
        let f = record.fixed_data.as_slice();
        let data = copy_range(f, 10, f.len());
        Some(LobData { blob_id: read_u64(f, 0), ty: LobType::Data, data })
    }
}

impl LobLargeRootYukon {
    /// Decodes a Yukon root. `None` when the record holds another kind of
    /// node, or its links are not well-formed (more current than maximum
    /// links, a table running past the record, a null link).
    pub fn parse(record: Record) -> (r: Option<LobLargeRootYukon>)
        ensures
            r is Some <==> spec_node_kind(record@) == Some(LobType::LargeRootYukon),
            r matches Some(x) ==> x.wf() && x.record@ == record@,
    {
        match LobType::parse(&record) {
            Some(LobType::LargeRootYukon) => {},
            _ => {
                return None;
            },
        }
        let f = record.fixed_data.as_slice();
        if !links_ok(LobType::LargeRootYukon, f) {
            return None;
        }
        let blob_id = read_u64(f, 0);
        let max_links = read_u16(f, 10);
        let cur_links = read_u16(f, 12);
        let level = read_u16(f, 14);
        Some(LobLargeRootYukon { blob_id, ty: LobType::LargeRootYukon, max_links, cur_links, level, record })
    }
}

impl LobInternal {
    /// Decodes an internal node. `None` when the record holds another kind of
    /// node, or its links are not well-formed.
    pub fn parse(record: Record) -> (r: Option<LobInternal>)
        ensures
            r is Some <==> spec_node_kind(record@) == Some(LobType::Internal),
            r matches Some(x) ==> x.wf() && x.record@ == record@,
    {
        match LobType::parse(&record) {
            Some(LobType::Internal) => {},
            _ => {
                return None;
            },
        }
        let f = record.fixed_data.as_slice();
        if !links_ok(LobType::Internal, f) {
            return None;
        }
        let blob_id = read_u64(f, 0);
        let max_links = read_u16(f, 10);
        let cur_links = read_u16(f, 12);
        let level = read_u16(f, 14);
        Some(LobInternal { blob_id, ty: LobType::Internal, max_links, cur_links, level, record })
    }
}

/// Checks that a node with links is well-formed.
fn links_ok(t: LobType, f: &[u8]) -> (r: bool)
    requires
        t == LobType::LargeRootYukon || t == LobType::Internal,
    ensures
        r == spec_links_ok(t, f@),
{
    let n = f.len();
    if n < 16 {
        return false;
    }
    let max_links = read_u16(f, 10);
    let cur_links = read_u16(f, 12);
    if cur_links > max_links {
        return false;
    }
    let c = cur_links as usize;
    let end = if t == LobType::LargeRootYukon { 20 + 12 * c } else { 16 * (c + 1) };
    if end > n {
        return false;
    }
    let mut i: usize = 0;
    while i < c
        invariant
            n == f@.len(),
            c == le_u16(f@, 12),
            f@.len() >= 16,
            entry_offset(t, c as int) <= n,
            t == LobType::LargeRootYukon || t == LobType::Internal,
            i <= c,
            forall|k: int| 0 <= k < i ==> (#[trigger] spec_link(t, f@, k)).1 is Some,
        decreases c - i,
    {
        let ghost _l = spec_link(t, f@, i as int);
        let p = if t == LobType::LargeRootYukon {
            RecordPointer::parse(&f[20 + 12 * i + 4..20 + 12 * (i + 1)])
        } else {
            RecordPointer::parse(&f[16 * (i + 1) + 8..16 * (i + 2)])
        };
        if p.is_none() {
            return false;
        }
        i = i + 1;
    }
    true
}


impl LobEntry {
    /// Whether a node with links is well-formed.
    pub open spec fn wf(&self) -> bool {
        match self {
            LobEntry::LargeRootYukon(x) => x.wf(),
            LobEntry::Internal(x) => x.wf(),
            _ => true,
        }
    }

    /// What the walk takes from this node: a leaf its own extent, a node with
    /// links what its links give.
    pub open spec fn expansion<T: PageProvider>(&self, prov: &T) -> Option<(Seq<ExtentView>, Seq<RecordView>)> {
        match self {
            LobEntry::SmallRoot(s) => Some((seq![(s.data@.len() as u64, s.data@)], Seq::empty())),
            LobEntry::Data(d) => Some((seq![(d.data@.len() as u64, d.data@)], Seq::empty())),
            LobEntry::LargeRootYukon(x) => spec_expand_links(prov, LobType::LargeRootYukon,
                x.record@.fixed_data, x.cur_links as nat),
            LobEntry::Internal(x) => spec_expand_links(prov, LobType::Internal,
                x.record@.fixed_data, x.cur_links as nat),
        }
    }

    /// The extents and next-level nodes that this node gives: a leaf its own
    /// data; a node with links, for each link in order, the child's data with
    /// the link's size or offset when the child is a leaf, else the child
    /// itself. `None` when a child cannot be fetched or decoded.
    pub fn sub_entries<T: PageProvider>(&self, prov: &T) -> (r: Option<(Vec<(u64, Vec<u8>)>, Vec<LobEntry>)>)
        requires
            self.wf(),
        ensures
            r is Some <==> self.expansion(prov) is Some,
            r matches Some((e, nx)) ==> {
                let (ev, nv) = self.expansion(prov).unwrap();
                &&& extent_views(e@) == ev
                &&& nx@.len() == nv.len()
                &&& forall|i: int| 0 <= i < nv.len() ==> (#[trigger] nx@[i]).from_record(nv[i])
            },
    {
        let (t, f, c) = match self {
            LobEntry::SmallRoot(sr) => {
                let mut e: Vec<(u64, Vec<u8>)> = Vec::new();
                e.push((sr.data.len() as u64, copy_bytes(sr.data.as_slice())));
                proof {
                    assert(extent_views(e@) =~= seq![(sr.data@.len() as u64, sr.data@)]);
                }
                return Some((e, Vec::new()));
            },
            LobEntry::Data(d) => {
                let mut e: Vec<(u64, Vec<u8>)> = Vec::new();
                e.push((d.data.len() as u64, copy_bytes(d.data.as_slice())));
                proof {
                    assert(extent_views(e@) =~= seq![(d.data@.len() as u64, d.data@)]);
                }
                return Some((e, Vec::new()));
            },
            LobEntry::LargeRootYukon(x) => (LobType::LargeRootYukon, x.record.fixed_data.as_slice(), x.cur_links),
            LobEntry::Internal(x) => (LobType::Internal, x.record.fixed_data.as_slice(), x.cur_links),
        };
        assert(spec_links_ok(t, f@));
        assert(self.expansion(prov) == spec_expand_links(prov, t, f@, c as nat));
        let mut e: Vec<(u64, Vec<u8>)> = Vec::new();
        let mut nx: Vec<LobEntry> = Vec::new();
        let ghost mut nv: Seq<RecordView> = Seq::empty();
        let mut k: u16 = 0;
        proof {
            lemma_links_step(prov, t, f@, 0);
            assert(extent_views(e@) =~= Seq::<ExtentView>::empty());
        }
        while k < c
            invariant
                t == LobType::LargeRootYukon || t == LobType::Internal,
                self.expansion(prov) == spec_expand_links(prov, t, f@, c as nat),
                spec_links_ok(t, f@),
                c == le_u16(f@, 12),
                k <= c,
                spec_expand_links(prov, t, f@, k as nat) == Some((extent_views(e@), nv)),
                nx@.len() == nv.len(),
                forall|i: int| 0 <= i < nv.len() ==> (#[trigger] nx@[i]).from_record(nv[i]),
            decreases c - k,
        {
            proof {
                lemma_links_step(prov, t, f@, k as nat);
            }
            let (off, child) = match fetch_child(prov, t, f, k) {
                Some(x) => x,
                None => {
                    proof {
                        assert(spec_expand_links(prov, t, f@, k as nat) is Some);
                        assert(spec_expand_links(prov, t, f@, (k + 1) as nat) is None);
                        lemma_links_failure_persists(prov, t, f@, (k + 1) as nat, c as nat);
                    }
                    return None;
                },
            };
            let ghost crv = spec_get_record(prov, spec_link(t, f@, k as int).1.unwrap()).unwrap();
            proof {
                lemma_leaf_of_record(child, crv);
            }
            let ghost ev = extent_views(e@);
            match child {
                LobEntry::SmallRoot(sr) => {
                    e.push((off, sr.data));
                    assert(extent_views(e@) =~= ev.push((off, spec_leaf_data(crv))));
                },
                LobEntry::Data(d) => {
                    e.push((off, d.data));
                    assert(extent_views(e@) =~= ev.push((off, spec_leaf_data(crv))));
                },
                other => {
                    nx.push(other);
                    proof {
                        nv = nv.push(crv);
                    }
                },
            }
            k = k + 1;
        }
        Some((e, nx))
    }
}

proof fn lemma_links_step<T: PageProvider>(prov: &T, t: LobType, f: Seq<u8>, k: nat)
    ensures
        spec_expand_links(prov, t, f, k + 1) == match spec_expand_links(prov, t, f, k) {
            Some((e, nx)) => spec_link_step(prov, t, f, k as int, e, nx),
            None => None,
        },
        spec_expand_links(prov, t, f, 0) == Some((Seq::<ExtentView>::empty(), Seq::<RecordView>::empty())),
{
    reveal_with_fuel(spec_expand_links, 2);
}

proof fn lemma_links_failure_persists<T: PageProvider>(prov: &T, t: LobType, f: Seq<u8>, k: nat, m: nat)
    requires
        k <= m,
        spec_expand_links(prov, t, f, k) is None,
    ensures
        spec_expand_links(prov, t, f, m) is None,
    decreases m - k,
{
    if k < m {
        lemma_links_step(prov, t, f, (m - 1) as nat);
    }
    if k < m {
        lemma_links_failure_persists(prov, t, f, k, (m - 1) as nat);
    }
}

proof fn lemma_level_failure_persists<T: PageProvider>(prov: &T, nodes: Seq<RecordView>, k: nat, m: nat)
    requires
        k <= m,
        spec_expand_level(prov, nodes, k) is None,
    ensures
        spec_expand_level(prov, nodes, m) is None,
    decreases m - k,
{
    if k < m {
        lemma_level_failure_persists(prov, nodes, k, (m - 1) as nat);
    }
}

proof fn lemma_expansion_of_record<T: PageProvider>(prov: &T, e: LobEntry, rv: RecordView)
    requires
        e.from_record(rv),
    ensures
        e.wf(),
        spec_expand_node(prov, rv) == e.expansion(prov),
{
    reveal(LobEntry::from_record);
}

/// Fetches and decodes the child of link `k` of a node with links.
fn fetch_child<T: PageProvider>(prov: &T, t: LobType, f: &[u8], k: u16) -> (r: Option<(u64, LobEntry)>)
    requires
        t == LobType::LargeRootYukon || t == LobType::Internal,
        spec_links_ok(t, f@),
        k < le_u16(f@, 12),
    ensures
        r is Some <==> (spec_get_record(prov, spec_link(t, f@, k as int).1.unwrap()) matches Some(crv)
            && spec_node_kind(crv) is Some),
        r matches Some((off, ch)) ==> off == spec_link(t, f@, k as int).0
            && ch.from_record(spec_get_record(prov, spec_link(t, f@, k as int).1.unwrap()).unwrap()),
{
    let (off, rp) = read_link(t, f, k);
    let rec = match prov.get_record(rp) {
        Some(r) => r,
        None => {
            return None;
        },
    };
    match LobEntry::parse(rec) {
        Some(ch) => Some((off, ch)),
        None => None,
    }
}

/// The kind and the data of a decoded leaf node.
proof fn lemma_leaf_of_record(e: LobEntry, rv: RecordView)
    requires
        e.from_record(rv),
    ensures
        spec_node_kind(rv) is Some,
        is_leaf(spec_node_kind(rv).unwrap()) <==> (e is SmallRoot || e is Data),
        e matches LobEntry::SmallRoot(s) ==> s.data@ == spec_leaf_data(rv),
        e matches LobEntry::Data(d) ==> d.data@ == spec_leaf_data(rv),
{
    reveal(LobEntry::from_record);
}

/// Whether `r` is what reading the large object at `p` gives: its extents
/// when the walk succeeds, nothing when it fails.
pub open spec fn read_result<T: PageProvider>(prov: &T, p: LobPointer, r: Option<LobDataBlocks>) -> bool {
    match spec_lob_read(prov, p) {
        Some(ev) => r matches Some(b) && extent_views(b.data_blocks@) == ev,
        None => r is None,
    }
}

/// Two reads of the same large object from the same pages give the same
/// extents in the same order, or both fail.
pub proof fn lemma_lob_reads_agree<T: PageProvider>(prov: &T, p: LobPointer, r1: Option<LobDataBlocks>, r2: Option<LobDataBlocks>)
    requires
        read_result(prov, p, r1),
        read_result(prov, p, r2),
    ensures
        r1 is Some <==> r2 is Some,
        r1 is Some ==> extent_views(r1.unwrap().data_blocks@) == extent_views(r2.unwrap().data_blocks@),
{
}

/// A decoded node with links never has more current links than its
/// maximum, and `read_idx` answers exactly below the current count.
pub proof fn lemma_links_bounded(e: LobEntry)
    requires
        e.wf(),
    ensures
        e matches LobEntry::LargeRootYukon(x) ==> x.cur_links <= x.max_links,
        e matches LobEntry::Internal(x) ==> x.cur_links <= x.max_links,
{
}

impl LobPointer {
    /// Reads the large object that this pointer designates by a breadth-first
    /// walk of its tree: the extents in the order the walk emits them.
    /// `None` when the root or any node below it cannot be fetched or decoded,
    /// or the tree is deeper than `MAX_LOB_DEPTH`.
    pub fn read<T: PageProvider>(&self, prov: &T) -> (r: Option<LobDataBlocks>)
        ensures
            read_result(prov, *self, r),
    {
        let rec = match prov.get_record(self.ptr) {
            Some(r) => r,
            None => {
                return None;
            },
        };
        let ghost rv = rec@;
        let root = match LobEntry::parse(rec) {
            Some(e) => e,
            None => {
                return None;
            },
        };
        let mut level: Vec<LobEntry> = Vec::new();
        level.push(root);
        let ghost mut fr: Seq<RecordView> = seq![rv];
        let mut blocks: Vec<(u64, Vec<u8>)> = Vec::new();
        let mut fuel: u64 = MAX_LOB_DEPTH;
        let ghost target = spec_lob_read(prov, *self);
        assert(level@[0].from_record(fr[0]));
        loop
            invariant
                target == spec_lob_read(prov, *self),
                level@.len() == fr.len(),
                forall|i: int| 0 <= i < fr.len() ==> (#[trigger] level@[i]).from_record(fr[i]),
                target == match spec_walk(prov, fr, fuel as nat) {
                    Some(rest) => Some(extent_views(blocks@) + rest),
                    None => None,
                },
            decreases fuel,
        {
            if level.len() == 0 {
                assert(extent_views(blocks@) + Seq::empty() =~= extent_views(blocks@));
                return Some(LobDataBlocks { data_blocks: blocks });
            }
            if fuel == 0 {
                return None;
            }
            let mut ext: Vec<(u64, Vec<u8>)> = Vec::new();
            let mut next: Vec<LobEntry> = Vec::new();
            let ghost mut nfr: Seq<RecordView> = Seq::empty();
            let mut i: usize = 0;
            while i < level.len()
                invariant
                    target == spec_lob_read(prov, *self),
                    fuel > 0,
                    fr.len() > 0,
                    target == match spec_walk(prov, fr, fuel as nat) {
                        Some(rest) => Some(extent_views(blocks@) + rest),
                        None => None,
                    },
                    level@.len() == fr.len(),
                    forall|j: int| 0 <= j < fr.len() ==> (#[trigger] level@[j]).from_record(fr[j]),
                    i <= fr.len(),
                    spec_expand_level(prov, fr, i as nat) == Some((extent_views(ext@), nfr)),
                    next@.len() == nfr.len(),
                    forall|j: int| 0 <= j < nfr.len() ==> (#[trigger] next@[j]).from_record(nfr[j]),
                decreases fr.len() - i,
            {
                proof {
                    lemma_expansion_of_record(prov, level@[i as int], fr[i as int]);
                }
                match level[i].sub_entries(prov) {
                    Some((e, nx)) => {
                        let ghost (ev, nv) = level@[i as int].expansion(prov).unwrap();
                        let ghost before = extent_views(ext@);
                        let ghost nbefore = next@;
                        let mut e = e;
                        let mut nx = nx;
                        ext.append(&mut e);
                        next.append(&mut nx);
                        proof {
                            assert(extent_views(ext@) =~= before + ev);
                            assert forall|j: int| 0 <= j < nfr.len() + nv.len() implies
                                (#[trigger] next@[j]).from_record((nfr + nv)[j]) by {
                                if j < nfr.len() {
                                    assert(next@[j] == nbefore[j]);
                                }
                            }
                            nfr = nfr + nv;
                        }
                    },
                    None => {
                        proof {
                            assert(spec_expand_level(prov, fr, (i + 1) as nat) is None);
                            lemma_level_failure_persists(prov, fr, (i + 1) as nat, fr.len());
                            assert(spec_walk(prov, fr, fuel as nat) is None);
                        }
                        return None;
                    },
                }
                i = i + 1;
            }
            proof {
                assert(extent_views(blocks@ + ext@) =~= extent_views(blocks@) + extent_views(ext@));
                assert(fr.len() as nat == fr.len());
            }
            let ghost bv = extent_views(blocks@);
            let ghost lv = extent_views(ext@);
            blocks.append(&mut ext);
            proof {
                assert(spec_expand_level(prov, fr, fr.len()) == Some((lv, nfr)));
                match spec_walk(prov, nfr, (fuel - 1) as nat) {
                    Some(rest) => {
                        assert(bv + (lv + rest) =~= extent_views(blocks@) + rest);
                    },
                    None => {},
                }
                fr = nfr;
            }
            level = next;
            fuel = fuel - 1;
        }
    }
}

} // verus!
