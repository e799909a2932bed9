//! Page pointers, the 96-byte page header and raw pages.
use vstd::prelude::*;
use crate::bytes::{le_u16, le_u32, read_u16, read_u32, copy_range};
use crate::record::{Record, RecordView, spec_record};

verus! {

/// Size in bytes of every page.
pub const PAGE_SIZE: usize = 8192;

/// Size in bytes of the page header.
pub const HEADER_SIZE: usize = 96;

/// The address of a page: a file id (zero means "no page") and a page number.
#[derive(Clone, Copy, Debug, PartialEq, Eq, Structural)]
pub struct PagePointer {
    pub page_id: u32,
    pub file_id: u16,
}

/// The address of one record: a page and the slot on it.
#[derive(Clone, Copy, Debug, PartialEq, Eq, Structural)]
pub struct RecordPointer {
    pub page_ptr: PagePointer,
    pub slot_id: u16,
}

/// The page pointer stored in the six bytes at `b[i..i + 6]`: page id first,
/// then file id; a zero file id is the null pointer.
pub open spec fn spec_page_pointer(b: Seq<u8>, i: int) -> Option<PagePointer> {
    if le_u16(b, i + 4) == 0 {
        None
    } else {
        Some(PagePointer { page_id: le_u32(b, i), file_id: le_u16(b, i + 4) })
    }
}

/// The record pointer stored in the eight bytes at `b[i..i + 8]`.
pub open spec fn spec_record_pointer(b: Seq<u8>, i: int) -> Option<RecordPointer> {
    match spec_page_pointer(b, i) {
        None => None,
        Some(p) => Some(RecordPointer { page_ptr: p, slot_id: le_u16(b, i + 6) }),
    }
}

impl PagePointer {
    /// Reads a page pointer from the first six bytes of `data`.
    pub fn parse(data: &[u8]) -> (r: Option<PagePointer>)
        requires
            data@.len() >= 6,
        ensures
            r == spec_page_pointer(data@, 0),
    {
        let file_id = read_u16(data, 4);
        if file_id == 0 {
            None
        } else {
            Some(PagePointer { page_id: read_u32(data, 0), file_id })
        }
    }
}

impl RecordPointer {
    /// Reads a record pointer from the first eight bytes of `data`.
    pub fn parse(data: &[u8]) -> (r: Option<RecordPointer>)
        requires
            data@.len() >= 8,
        ensures
            r == spec_record_pointer(data@, 0),
    {
        match PagePointer::parse(data) {
            None => None,
            Some(page_ptr) => Some(RecordPointer { page_ptr, slot_id: read_u16(data, 6) }),
        }
    }
}

/// The kind of a page, from byte 1 of its header.
#[derive(Clone, Copy, Debug, PartialEq, Eq, Structural)]
pub enum PageType {
    UnAlloc,
    Data,
    Index,
    TextMix,
    TextTree,
    Sort,
    GAM,
    SGAM,
    IAM,
    PFS,
    Boot,
    FileHeader,
    DiffMap,
    MLMap,
    CheckDBTemp,
    AlterIndexTemp,
    PreAlloc,
    Unknown(u8),
}

pub open spec fn spec_page_type(ty: u8) -> PageType {
    match ty {
        0 => PageType::UnAlloc,
        1 => PageType::Data,
        2 => PageType::Index,
        3 => PageType::TextMix,
        4 => PageType::TextTree,
        7 => PageType::Sort,
        8 => PageType::GAM,
        9 => PageType::SGAM,
        10 => PageType::IAM,
        11 => PageType::PFS,
        13 => PageType::Boot,
        15 => PageType::FileHeader,
        16 => PageType::DiffMap,
        17 => PageType::MLMap,
        18 => PageType::CheckDBTemp,
        19 => PageType::AlterIndexTemp,
        20 => PageType::PreAlloc,
        _ => PageType::Unknown(ty),
    }
}

/// The type byte that a page type is stored as.
pub open spec fn spec_page_type_code(t: PageType) -> u8 {
    match t {
        PageType::UnAlloc => 0,
        PageType::Data => 1,
        PageType::Index => 2,
        PageType::TextMix => 3,
        PageType::TextTree => 4,
        PageType::Sort => 7,
        PageType::GAM => 8,
        PageType::SGAM => 9,
        PageType::IAM => 10,
        PageType::PFS => 11,
        PageType::Boot => 13,
        PageType::FileHeader => 15,
        PageType::DiffMap => 16,
        PageType::MLMap => 17,
        PageType::CheckDBTemp => 18,
        PageType::AlterIndexTemp => 19,
        PageType::PreAlloc => 20,
        PageType::Unknown(b) => b,
    }
}

impl PageType {
    pub fn parse(ty: u8) -> (r: PageType)
        ensures
            r == spec_page_type(ty),
    {
        match ty {
            0 => PageType::UnAlloc,
            1 => PageType::Data,
            2 => PageType::Index,
            3 => PageType::TextMix,
            4 => PageType::TextTree,
            7 => PageType::Sort,
            8 => PageType::GAM,
            9 => PageType::SGAM,
            10 => PageType::IAM,
            11 => PageType::PFS,
            13 => PageType::Boot,
            15 => PageType::FileHeader,
            16 => PageType::DiffMap,
            17 => PageType::MLMap,
            18 => PageType::CheckDBTemp,
            19 => PageType::AlterIndexTemp,
            20 => PageType::PreAlloc,
            unk => PageType::Unknown(unk),
        }
    }
}

/// The fields of the page header that the reader uses.
#[derive(Clone, Copy, Debug, PartialEq, Eq, Structural)]
pub struct PageHeader {
    pub ptr: PagePointer,
    /// Number of records on this page.
    pub slot_count: u16,
    /// Level in the B-tree, zero at the leaves and on non-index pages.
    pub level: u8,
    /// Length of the fixed-data section of the records on this page.
    pub p_min_len: u16,
    pub ty: PageType,
    pub object_id: u32,
    pub index_id: u16,
    pub prev_page_ptr: Option<PagePointer>,
    pub next_page_ptr: Option<PagePointer>,
}

/// The header that the bytes `b` of a page describe, for a page whose own
/// pointer (at offset 32) is not null.
pub open spec fn spec_header(b: Seq<u8>) -> PageHeader {
    PageHeader {
        ptr: PagePointer { page_id: le_u32(b, 32), file_id: le_u16(b, 36) },
        slot_count: le_u16(b, 22),
        level: b[3],
        p_min_len: le_u16(b, 14),
        ty: spec_page_type(b[1]),
        object_id: le_u32(b, 24),
        index_id: le_u16(b, 6),
        prev_page_ptr: spec_page_pointer(b, 8),
        next_page_ptr: spec_page_pointer(b, 16),
    }
}

/// Whether the bytes `b` hold a page: a full page whose own pointer is not null.
pub open spec fn spec_is_page(b: Seq<u8>) -> bool {
    b.len() >= PAGE_SIZE && le_u16(b, 36) != 0
}

impl PageHeader {
    /// Parses the header at the start of `data`; `None` when the page's own
    /// pointer is null.
    pub fn parse(data: &[u8]) -> (r: Option<PageHeader>)
        requires
            data@.len() >= HEADER_SIZE,
        ensures
            r is Some <==> le_u16(data@, 36) != 0,
            r matches Some(h) ==> h == spec_header(data@),
    {
        let ptr = match Self::parse_ptr(data) {
            Some(p) => p,
            None => {
                return None;
            },
        };
        let ty = PageType::parse(data[1]);
        let level = data[3];
        let index_id = read_u16(data, 6);
        let p_min_len = read_u16(data, 14);
        let slot_count = read_u16(data, 22);
        let object_id = read_u32(data, 24);
        let prev_page_ptr = PagePointer::parse(&data[8..14]);
        let next_page_ptr = PagePointer::parse(&data[16..22]);
        Some(PageHeader {
            ptr,
            slot_count,
            level,
            p_min_len,
            ty,
            object_id,
            index_id,
            prev_page_ptr,
            next_page_ptr,
        })
    }

    /// Reads the page's own pointer, stored at offset 32.
    pub fn parse_ptr(data: &[u8]) -> (r: Option<PagePointer>)
        requires
            data@.len() >= 38,
        ensures
            r == spec_page_pointer(data@, 32),
    {
        PagePointer::parse(&data[32..38])
    }
}


/// The two little-endian bytes of a 16-bit value.
pub open spec fn encode_u16(v: u16) -> Seq<u8> {
    seq![(v % 256) as u8, (v / 256) as u8]
}

/// The four little-endian bytes of a 32-bit value.
pub open spec fn encode_u32(v: u32) -> Seq<u8> {
    encode_u16((v % 65536) as u16) + encode_u16((v / 65536) as u16)
}

/// The six bytes of a page pointer; the null pointer is six zero bytes.
pub open spec fn encode_page_pointer(p: Option<PagePointer>) -> Seq<u8> {
    match p {
        Some(p) => encode_u32(p.page_id) + encode_u16(p.file_id),
        None => seq![0u8, 0u8, 0u8, 0u8, 0u8, 0u8],
    }
}

proof fn lemma_u16_round_trip(b: Seq<u8>, i: int)
    requires
        0 <= i && i + 2 <= b.len(),
    ensures
        encode_u16(le_u16(b, i)) =~= b.subrange(i, i + 2),
{
}

proof fn lemma_u32_round_trip(b: Seq<u8>, i: int)
    requires
        0 <= i && i + 4 <= b.len(),
    ensures
        encode_u32(le_u32(b, i)) =~= b.subrange(i, i + 4),
{
    let lo = le_u16(b, i) as int;
    let hi = le_u16(b, i + 2) as int;
    assert(le_u32(b, i) as int == lo + 65536 * hi);
    assert((lo + 65536 * hi) % 65536 == lo && (lo + 65536 * hi) / 65536 == hi) by (nonlinear_arith)
        requires
            0 <= lo < 65536,
            0 <= hi < 65536,
    ;
    lemma_u16_round_trip(b, i);
    lemma_u16_round_trip(b, i + 2);
    assert(b.subrange(i, i + 4) =~= b.subrange(i, i + 2) + b.subrange(i + 2, i + 4));
}

proof fn lemma_pointer_round_trip(b: Seq<u8>, i: int)
    requires
        0 <= i && i + 6 <= b.len(),
        le_u16(b, i + 4) == 0 ==> b.subrange(i, i + 6) == seq![0u8, 0u8, 0u8, 0u8, 0u8, 0u8],
    ensures
        encode_page_pointer(spec_page_pointer(b, i)) =~= b.subrange(i, i + 6),
{
    if le_u16(b, i + 4) != 0 {
        lemma_u32_round_trip(b, i);
        lemma_u16_round_trip(b, i + 4);
        assert(b.subrange(i, i + 6) =~= b.subrange(i, i + 4) + b.subrange(i + 4, i + 6));
    }
}

/// Writing back the fields of a parsed header, and the offsets of its slot
/// array, gives the bytes they were read from: the type byte, the level, the
/// index id, the previous and next page pointers, the fixed-record length,
/// the slot count, the object id, the page's own pointer, and every slot
/// that lies inside the page. A null previous or next pointer is written as
/// six zero bytes, so pages whose null pointers carry a non-zero page id are
/// left out.
pub proof fn lemma_header_round_trip(b: Seq<u8>)
    requires
        spec_is_page(b),
        le_u16(b, 12) == 0 ==> b.subrange(8, 14) == seq![0u8, 0u8, 0u8, 0u8, 0u8, 0u8],
        le_u16(b, 20) == 0 ==> b.subrange(16, 22) == seq![0u8, 0u8, 0u8, 0u8, 0u8, 0u8],
    ensures
        ({
            let h = spec_header(b);
            &&& spec_page_type_code(h.ty) == b[1]
            &&& h.level == b[3]
            &&& encode_u16(h.index_id) == b.subrange(6, 8)
            &&& encode_page_pointer(h.prev_page_ptr) == b.subrange(8, 14)
            &&& encode_u16(h.p_min_len) == b.subrange(14, 16)
            &&& encode_page_pointer(h.next_page_ptr) == b.subrange(16, 22)
            &&& encode_u16(h.slot_count) == b.subrange(22, 24)
            &&& encode_u32(h.object_id) == b.subrange(24, 28)
            &&& encode_page_pointer(Some(h.ptr)) == b.subrange(32, 38)
            &&& forall|i: int| 0 <= i < h.slot_count && 2 * i + 2 <= PAGE_SIZE - HEADER_SIZE ==>
                encode_u16(#[trigger] spec_slot_offset(b, i)) == b.subrange(PAGE_SIZE - 2 * i - 2, PAGE_SIZE - 2 * i)
        }),
{
    lemma_u16_round_trip(b, 6);
    lemma_pointer_round_trip(b, 8);
    lemma_u16_round_trip(b, 14);
    lemma_pointer_round_trip(b, 16);
    lemma_u16_round_trip(b, 22);
    lemma_u32_round_trip(b, 24);
    lemma_pointer_round_trip(b, 32);
    assert forall|i: int| 0 <= i < spec_header(b).slot_count && 2 * i + 2 <= PAGE_SIZE - HEADER_SIZE implies
        encode_u16(#[trigger] spec_slot_offset(b, i)) == b.subrange(PAGE_SIZE - 2 * i - 2, PAGE_SIZE - 2 * i) by {
        lemma_u16_round_trip(b, PAGE_SIZE - 2 * i - 2);
    }
}

/// An 8 KiB page with its parsed header.
#[derive(Clone, Debug)]
pub struct RawPage {
    pub header: PageHeader,
    pub data: Vec<u8>,
}

/// The slot offset of record `idx`: slot `i` sits at `PAGE_SIZE - 2 * (i + 1)`.
pub open spec fn spec_slot_offset(b: Seq<u8>, idx: int) -> u16 {
    le_u16(b, PAGE_SIZE - 2 * idx - 2)
}

/// Record `idx` of the page bytes `b` with header `h`: `None` past the slot
/// count, for a slot outside the page, or where the record does not decode.
pub open spec fn spec_page_record(h: PageHeader, b: Seq<u8>, idx: int) -> Option<RecordView> {
    if idx < 0 || idx >= h.slot_count || 2 * idx + 2 > PAGE_SIZE - HEADER_SIZE {
        None
    } else if spec_slot_offset(b, idx) > PAGE_SIZE {
        None
    } else {
        spec_record(
            b.subrange(spec_slot_offset(b, idx) as int, PAGE_SIZE as int),
            h.ty == PageType::Index,
            h.p_min_len,
        )
    }
}

/// The views of a sequence of records.
pub open spec fn record_views(rs: Seq<Record>) -> Seq<RecordView> {
    rs.map_values(|r: Record| r@)
}

/// The records of slots `0..n` of a page that decode, in slot order.
pub open spec fn spec_local_records(h: PageHeader, b: Seq<u8>, n: int) -> Seq<RecordView>
    decreases n,
{
    if n <= 0 {
        Seq::empty()
    } else {
        let prev = spec_local_records(h, b, n - 1);
        match spec_page_record(h, b, n - 1) {
            Some(r) => prev.push(r),
            None => prev,
        }
    }
}

impl RawPage {
    /// Whether the header is the one that the bytes describe.
    pub open spec fn wf(&self) -> bool {
        &&& self.data@.len() == PAGE_SIZE
        &&& spec_is_page(self.data@)
        &&& self.header == spec_header(self.data@)
    }

    /// Wraps the first 8 KiB of `data` as a page; `None` when `data` is
    /// shorter or the page's own pointer is null.
    pub fn parse(data: &[u8]) -> (r: Option<RawPage>)
        ensures
            r is Some <==> spec_is_page(data@),
            r matches Some(p) ==> p.wf() && p.data@ == data@.subrange(0, PAGE_SIZE as int),
    {
        if data.len() < PAGE_SIZE {
            return None;
        }
        match PageHeader::parse(data) {
            Some(header) => Some(RawPage { header, data: copy_range(data, 0, PAGE_SIZE) }),
            None => None,
        }
    }

    /// Number of records on this page.
    pub fn record_count(&self) -> (r: u16)
        ensures
            r == self.header.slot_count,
    {
        self.header.slot_count
    }

    /// The offset stored in slot `idx`, when the slot lies inside the page.
    pub fn slot_offset(&self, idx: u16) -> (r: Option<u16>)
        requires
            self.wf(),
        ensures
            r is Some <==> 2 * idx + 2 <= PAGE_SIZE - HEADER_SIZE,
            r matches Some(o) ==> o == spec_slot_offset(self.data@, idx as int),
    {
        if 2 * (idx as usize) + 2 > PAGE_SIZE - HEADER_SIZE {
            None
        } else {
            Some(read_u16(self.data.as_slice(), PAGE_SIZE - 2 * (idx as usize) - 2))
        }
    }

    /// Record `idx` of this page (slot order).
    pub fn record(&self, idx: u16) -> (r: Option<Record>)
        requires
            self.wf(),
        ensures
            r is Some <==> spec_page_record(self.header, self.data@, idx as int) is Some,
            r matches Some(rec) ==> rec@ == spec_page_record(self.header, self.data@, idx as int).unwrap(),
            r is Some ==> idx < self.header.slot_count,
    {
        if idx >= self.record_count() {
            return None;
        }
        let offset = match self.slot_offset(idx) {
            Some(o) => o as usize,
            None => {
                return None;
            },
        };
        if offset > PAGE_SIZE {
            return None;
        }
        let is_index = match self.header.ty {
            PageType::Index => true,
            _ => false,
        };
        Record::parse(&self.data.as_slice()[offset..PAGE_SIZE], is_index, self.header.p_min_len)
    }

    /// The records of this page alone, in slot order, leaving out those that
    /// do not decode.
    pub fn local_records(&self) -> (r: Vec<Record>)
        requires
            self.wf(),
        ensures
            record_views(r@) == spec_local_records(self.header, self.data@, self.header.slot_count as int),
    {
        let mut out: Vec<Record> = Vec::new();
        let n = self.record_count();
        let mut i: u16 = 0;
        while i < n
            invariant
                self.wf(),
                n == self.header.slot_count,
                i <= n,
                record_views(out@) == spec_local_records(self.header, self.data@, i as int),
            decreases n - i,
        {
            let rec = self.record(i);
            proof {
                assert(record_views(out@).len() == out@.len());
            }
            match rec {
                Some(r) => {
                    out.push(r);
                    proof {
                        assert(record_views(out@) =~= spec_local_records(self.header, self.data@, i as int).push(r@));
                    }
                },
                None => {},
            }
            i = i + 1;
        }
        out
    }
}


/// A source of pages, addressed by `(file_id, page_id)`.
///
/// It answers the same request with the same page every time: `spec_page`
/// says which bytes each address holds, and `None` stands for an address out
/// of range, an unallocated page or a read error.
pub trait PageProvider: Sized {
    spec fn spec_file_ids(&self) -> Seq<u16>;

    spec fn spec_num_pages(&self, file_id: u16) -> u32;

    spec fn spec_page(&self, ptr: PagePointer) -> Option<Seq<u8>>;

    /// The ids of the data files, in order.
    fn file_ids(&self) -> (r: Vec<u16>)
        ensures
            r@ == self.spec_file_ids(),
    ;

    /// The number of addressable pages of a file.
    fn num_pages(&self, file_id: u16) -> (r: u32)
        ensures
            r == self.spec_num_pages(file_id),
    ;

    /// The page at `ptr`.
    fn get(&self, ptr: PagePointer) -> (r: Option<RawPage>)
        ensures
            r is Some <==> self.spec_page(ptr) is Some,
            r matches Some(p) ==> p.wf() && p.data@ == self.spec_page(ptr).unwrap(),
    ;

    /// The record that `ptr` designates: `None` when the page is missing, the
    /// slot is past the slot count, or the record does not decode.
    fn get_record(&self, ptr: RecordPointer) -> (r: Option<Record>)
        ensures
            r is Some <==> (self.spec_page(ptr.page_ptr) matches Some(b)
                && spec_page_record(spec_header(b), b, ptr.slot_id as int) is Some),
            r matches Some(rec) ==> rec@ == spec_page_record(spec_header(self.spec_page(ptr.page_ptr).unwrap()),
                self.spec_page(ptr.page_ptr).unwrap(), ptr.slot_id as int).unwrap(),
    {
        match self.get(ptr.page_ptr) {
            Some(page) => page.record(ptr.slot_id),
            None => None,
        }
    }
}

/// The page that a provider holds at `ptr`, as a header and its bytes.
pub open spec fn spec_fetch<T: PageProvider>(prov: &T, ptr: PagePointer) -> Option<(PageHeader, Seq<u8>)> {
    match prov.spec_page(ptr) {
        Some(b) => Some((spec_header(b), b)),
        None => None,
    }
}

/// The record that a record pointer designates.
pub open spec fn spec_get_record<T: PageProvider>(prov: &T, ptr: RecordPointer) -> Option<RecordView> {
    match spec_fetch(prov, ptr.page_ptr) {
        Some((h, b)) => spec_page_record(h, b, ptr.slot_id as int),
        None => None,
    }
}

/// Sum of the page counts of the files `ids`, capped at `u64::MAX`.
pub open spec fn spec_pages_of<T: PageProvider>(prov: &T, ids: Seq<u16>) -> u64
    decreases ids.len(),
{
    if ids.len() == 0 {
        0
    } else {
        let rest = spec_pages_of(prov, ids.drop_last());
        let n = prov.spec_num_pages(ids.last()) as u64;
        if rest > u64::MAX - n { u64::MAX } else { (rest + n) as u64 }
    }
}

/// The number of pages of the whole database, capped at `u64::MAX`. No chain
/// of linked pages without a cycle is longer.
pub open spec fn spec_total_pages<T: PageProvider>(prov: &T) -> u64 {
    spec_pages_of(prov, prov.spec_file_ids())
}

pub fn total_pages<T: PageProvider>(prov: &T) -> (r: u64)
    ensures
        r == spec_total_pages(prov),
{
    let ids = prov.file_ids();
    let mut total: u64 = 0;
    let mut i: usize = 0;
    while i < ids.len()
        invariant
            ids@ == prov.spec_file_ids(),
            i <= ids@.len(),
            total == spec_pages_of(prov, ids@.subrange(0, i as int)),
        decreases ids@.len() - i,
    {
        let n = prov.num_pages(ids[i]) as u64;
        proof {
            let s = ids@.subrange(0, i as int + 1);
            assert(s.drop_last() =~= ids@.subrange(0, i as int));
        }
        if total > u64::MAX - n {
            total = u64::MAX;
        } else {
            total = total + n;
        }
        i = i + 1;
    }
    proof {
        assert(ids@.subrange(0, ids@.len() as int) =~= ids@);
    }
    total
}

/// The records of a page followed by those of the pages linked after it,
/// following at most `fuel` next-page pointers; the chain ends at a null
/// pointer or a page that the provider does not have.
pub open spec fn spec_linked_records<T: PageProvider>(prov: &T, h: PageHeader, b: Seq<u8>, fuel: nat) -> Seq<RecordView>
    decreases fuel,
{
    let local = spec_local_records(h, b, h.slot_count as int);
    if fuel == 0 {
        local
    } else {
        match h.next_page_ptr {
            Some(ptr) => match spec_fetch(prov, ptr) {
                Some((nh, nb)) => local + spec_linked_records(prov, nh, nb, (fuel - 1) as nat),
                None => local,
            },
            None => local,
        }
    }
}

impl RawPage {
    /// The records of this page and of the pages linked after it, in chain
    /// order and slot order. A chain longer than the database (which can only
    /// be a cycle) is cut there.
    pub fn records<T: PageProvider>(&self, prov: &T) -> (r: Vec<Record>)
        requires
            self.wf(),
        ensures
            record_views(r@) == spec_linked_records(prov, self.header, self.data@, spec_total_pages(prov) as nat),
    {
        let fuel = total_pages(prov);
        self.records_with_fuel(prov, fuel)
    }

    /// As `records`, consuming the starting page.
    pub fn into_records<T: PageProvider>(self, prov: &T) -> (r: Vec<Record>)
        requires
            self.wf(),
        ensures
            record_views(r@) == spec_linked_records(prov, self.header, self.data@, spec_total_pages(prov) as nat),
    {
        let fuel = total_pages(prov);
        self.records_with_fuel(prov, fuel)
    }

    /// A copy of this page.
    pub fn copy(&self) -> (r: RawPage)
        ensures
            r.header == self.header,
            r.data@ == self.data@,
    {
        let data = copy_range(self.data.as_slice(), 0, self.data.len());
        proof {
            assert(data@ =~= self.data@);
        }
        RawPage { header: self.header, data }
    }

    fn records_with_fuel<T: PageProvider>(&self, prov: &T, fuel: u64) -> (r: Vec<Record>)
        requires
            self.wf(),
        ensures
            record_views(r@) == spec_linked_records(prov, self.header, self.data@, fuel as nat),
    {
        let mut out: Vec<Record> = Vec::new();
        let mut page = self.copy();
        let mut left: u64 = fuel;
        let ghost target = spec_linked_records(prov, self.header, self.data@, fuel as nat);
        loop
            invariant
                page.wf(),
                target == spec_linked_records(prov, self.header, self.data@, fuel as nat),
                record_views(out@) + spec_linked_records(prov, page.header, page.data@, left as nat) == target,
            decreases left,
        {
            let mut local = page.local_records();
            let ghost before = record_views(out@);
            let ghost lv = record_views(local@);
            let ghost rest = spec_linked_records(prov, page.header, page.data@, left as nat);
            proof {
                lemma_views_append(out@, local@);
            }
            out.append(&mut local);
            assert(record_views(out@) == before + lv);
            if left == 0 {
                assert(rest == lv);
                return out;
            }
            match page.header.next_page_ptr {
                Some(ptr) => match prov.get(ptr) {
                    Some(next) => {
                        let ghost tail = spec_linked_records(prov, next.header, next.data@, (left - 1) as nat);
                        assert(rest == lv + tail);
                        assert(before + lv + tail =~= before + (lv + tail));
                        page = next;
                        left = left - 1;
                    },
                    None => {
                        assert(rest == lv);
                        return out;
                    },
                },
                None => {
                    assert(rest == lv);
                    return out;
                },
            }
        }
    }
}

proof fn lemma_views_append(a: Seq<Record>, b: Seq<Record>)
    ensures
        record_views(a + b) == record_views(a) + record_views(b),
{
    assert(record_views(a + b) =~= record_views(a) + record_views(b));
}

} // verus!
