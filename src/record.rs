//! Records: the tagged rows stored in the slots of a page.
use vstd::prelude::*;
use crate::bytes::{le_u16, bit_at, read_u16, read_bit, copy_range};

verus! {

/// Tag A flag: the record carries a null bitmap.
pub const HAS_NULL_BITMAP: u8 = 1;
/// Tag A flag: the record carries a block of variable-length columns.
pub const HAS_VAR_LENGTH_COLUMNS: u8 = 2;
/// Tag A flag: the record carries a versioning tag.
pub const HAS_VERSIONING_TAG: u8 = 4;
/// Tag A flag: the second tag byte is valid.
pub const HAS_VALID_TAG_B: u8 = 8;
/// Tag B flag: the record is a forwarded ghost.
pub const IS_GHOST_FORWARDED: u8 = 1;

/// High bit of a variable-length offset: the column is stored out of row.
pub const COMPLEX_BIT: u16 = 0x8000;

#[derive(Clone, Copy, Debug, PartialEq, Eq, Structural)]
pub enum RecordType {
    Primary,
    Forwarded,
    Forwarding,
    Index,
    Blob,
    GhostIndex,
    GhostData,
    GhostVersion,
}

pub open spec fn spec_record_type(num: u8) -> RecordType {
    match num {
        0 => RecordType::Primary,
        1 => RecordType::Forwarded,
        2 => RecordType::Forwarding,
        3 => RecordType::Index,
        4 => RecordType::Blob,
        5 => RecordType::GhostIndex,
        6 => RecordType::GhostData,
        _ => RecordType::GhostVersion,
    }
}

impl RecordType {
    /// The record type with code `num` (codes 0 to 7).
    pub fn parse(num: u8) -> (r: RecordType)
        ensures
            r == spec_record_type(num),
    {
        match num {
            0 => RecordType::Primary,
            1 => RecordType::Forwarded,
            2 => RecordType::Forwarding,
            3 => RecordType::Index,
            4 => RecordType::Blob,
            5 => RecordType::GhostIndex,
            6 => RecordType::GhostData,
            _ => RecordType::GhostVersion,
        }
    }
}

/// The block of variable-length columns of a record.
///
/// `data` starts at the offset table (right after the two-byte count);
/// `base_offset` is the position of `data` from the start of the record,
/// which is what the stored end offsets are measured from.
#[derive(Clone, Debug)]
pub struct VarLengthColumns {
    pub data: Vec<u8>,
    pub count: u16,
    pub base_offset: usize,
}

pub struct VarLengthColumnsView {
    pub data: Seq<u8>,
    pub count: u16,
    pub base_offset: usize,
}

impl View for VarLengthColumns {
    type V = VarLengthColumnsView;

    open spec fn view(&self) -> VarLengthColumnsView {
        VarLengthColumnsView { data: self.data@, count: self.count, base_offset: self.base_offset }
    }
}

/// One entry of the offset table: the end of the column (from the start of
/// the record) and whether it is stored out of row.
pub struct VarLengthColumnOffset {
    pub end: u16,
    pub complex: bool,
}

impl VarLengthColumnOffset {
    pub fn parse(bytes: &[u8]) -> (r: VarLengthColumnOffset)
        requires
            bytes@.len() >= 2,
        ensures
            r.end == le_u16(bytes@, 0) % COMPLEX_BIT,
            r.complex == (le_u16(bytes@, 0) >= COMPLEX_BIT),
    {
        let value = read_u16(bytes, 0);
        VarLengthColumnOffset { end: value % COMPLEX_BIT, complex: value >= COMPLEX_BIT }
    }
}

/// The raw offset entry `idx` of a variable-length block.
pub open spec fn var_entry(v: VarLengthColumnsView, idx: int) -> u16 {
    le_u16(v.data, 2 * idx)
}

/// End of column `idx`, relative to `data`.
pub open spec fn var_end(v: VarLengthColumnsView, idx: int) -> int {
    (var_entry(v, idx) % COMPLEX_BIT) as int - v.base_offset
}

/// Start of column `idx`, relative to `data`: right after the offset table
/// for the first column, else where the previous one ended.
pub open spec fn var_start(v: VarLengthColumnsView, idx: int) -> int {
    if idx == 0 {
        2 * v.count
    } else {
        var_end(v, idx - 1)
    }
}

/// Whether entry `idx` exists and describes a slice inside `data`.
pub open spec fn var_slice_ok(v: VarLengthColumnsView, idx: int) -> bool {
    &&& 0 <= idx < v.count
    &&& 2 * v.count <= v.data.len()
    &&& 0 <= var_start(v, idx) <= var_end(v, idx) <= v.data.len()
}

/// What `get(idx)` yields: the complex bit and the bytes of column `idx`.
/// An index past the count gives an empty, non-complex slice; an entry whose
/// offsets leave the block gives an empty slice.
pub open spec fn spec_var_get(v: VarLengthColumnsView, idx: int) -> (bool, Seq<u8>) {
    if idx < 0 || idx >= v.count || 2 * idx + 2 > v.data.len() {
        (false, Seq::empty())
    } else if var_slice_ok(v, idx) {
        (var_entry(v, idx) >= COMPLEX_BIT, v.data.subrange(var_start(v, idx), var_end(v, idx)))
    } else {
        (var_entry(v, idx) >= COMPLEX_BIT, Seq::empty())
    }
}

/// Whether every entry of a variable-length block describes a slice inside
/// the block, each starting where the previous one ended.
pub open spec fn var_block_ok(v: VarLengthColumnsView) -> bool {
    &&& 2 * v.count <= v.data.len()
    &&& forall|i: int| 0 <= i < v.count ==> #[trigger] var_slice_ok(v, i)
}

/// Total length of the first `n` variable-length columns.
pub open spec fn var_payload_len(v: VarLengthColumnsView, n: nat) -> int
    decreases n,
{
    if n == 0 { 0 } else { var_payload_len(v, (n - 1) as nat) + spec_var_get(v, n - 1).1.len() }
}

proof fn lemma_end_monotone(v: VarLengthColumnsView, i: int, j: int)
    requires
        var_block_ok(v),
        0 <= i <= j < v.count,
    ensures
        var_end(v, i) <= var_end(v, j),
    decreases j - i,
{
    if i < j {
        lemma_end_monotone(v, i, j - 1);
        assert(var_slice_ok(v, j));
    }
}

proof fn lemma_payload_telescopes(v: VarLengthColumnsView, n: nat)
    requires
        var_block_ok(v),
        0 < n <= v.count,
    ensures
        var_payload_len(v, n) == var_end(v, n - 1) - 2 * v.count,
    decreases n,
{
    assert(var_slice_ok(v, n - 1));
    assert(spec_var_get(v, n - 1).1.len() == var_end(v, n - 1) - var_start(v, n - 1));
    assert(var_payload_len(v, n) == var_payload_len(v, (n - 1) as nat) + spec_var_get(v, n - 1).1.len());
    if n > 1 {
        lemma_payload_telescopes(v, (n - 1) as nat);
    } else {
        assert(var_payload_len(v, 0) == 0);
    }
}

/// In a well-formed variable-length block the stored end offsets never
/// decrease, and the slices that `get` returns follow one another without
/// overlapping: each is the stretch from the previous end to its own end.
pub proof fn lemma_var_slices_ordered(v: VarLengthColumnsView)
    requires
        var_block_ok(v),
    ensures
        forall|i: int, j: int| 0 <= i < j < v.count ==> #[trigger] var_entry(v, i) % COMPLEX_BIT <= #[trigger] var_entry(v, j) % COMPLEX_BIT,
        forall|i: int, j: int| 0 <= i < j < v.count ==> #[trigger] var_end(v, i) <= #[trigger] var_start(v, j),
        forall|i: int| 0 <= i < v.count ==> (#[trigger] spec_var_get(v, i)).1 == v.data.subrange(var_start(v, i), var_end(v, i)),
{
    assert forall|i: int, j: int| 0 <= i < j < v.count implies #[trigger] var_end(v, i) <= #[trigger] var_start(v, j) by {
        lemma_end_monotone(v, i, j - 1);
    }
    assert forall|i: int, j: int| 0 <= i < j < v.count implies #[trigger] var_entry(v, i) % COMPLEX_BIT <= #[trigger] var_entry(v, j) % COMPLEX_BIT by {
        lemma_end_monotone(v, i, j);
    }
    assert forall|i: int| 0 <= i < v.count implies (#[trigger] spec_var_get(v, i)).1 == v.data.subrange(var_start(v, i), var_end(v, i)) by {
        assert(var_slice_ok(v, i));
    }
}

/// For a record of a data page with a well-formed, non-empty
/// variable-length block, the sections add up to the record's length (the
/// end offset of its last column): the 4-byte header, the fixed data, the
/// 2-byte column count, the null bitmap, the 2-byte variable count, the
/// offset table and the variable-length payloads.
pub proof fn lemma_record_length(b: Seq<u8>, p_min_len: u16)
    requires
        spec_record(b, false, p_min_len) matches Some(r) && r.var_length_columns matches Some(v)
            && v.count > 0 && var_block_ok(v),
    ensures
        ({
            let r = spec_record(b, false, p_min_len).unwrap();
            let v = r.var_length_columns.unwrap();
            let bitmap_len = match r.null_bitmap { Some(bm) => bm.len() as int, None => 0 };
            4 + r.fixed_data.len() + 2 + bitmap_len + 2 + 2 * v.count + var_payload_len(v, v.count as nat)
                == var_entry(v, v.count - 1) % COMPLEX_BIT
        }),
{
    let r = spec_record(b, false, p_min_len).unwrap();
    let v = r.var_length_columns.unwrap();
    lemma_payload_telescopes(v, v.count as nat);
}

impl VarLengthColumns {
    /// The complex bit and the bytes of the `idx`th variable-length column.
    pub fn get(&self, idx: u16) -> (r: (bool, Vec<u8>))
        ensures
            (r.0, r.1@) == spec_var_get(self@, idx as int),
    {
        let n = self.data.len();
        if idx >= self.count || 2 * (idx as usize) + 2 > n {
            return (false, Vec::new());
        }
        let i = idx as usize;
        let end = VarLengthColumnOffset::parse(&self.data[2 * i..2 * i + 2]);
        let count = self.count as usize;
        if 2 * count > n || (end.end as usize) < self.base_offset {
            return (end.complex, Vec::new());
        }
        let end_offs = end.end as usize - self.base_offset;
        let start: usize;
        if i == 0 {
            start = 2 * count;
        } else {
            let prev = VarLengthColumnOffset::parse(&self.data[2 * (i - 1)..2 * i]);
            if (prev.end as usize) < self.base_offset {
                return (end.complex, Vec::new());
            }
            start = prev.end as usize - self.base_offset;
        }
        if start > end_offs || end_offs > n {
            return (end.complex, Vec::new());
        }
        (end.complex, copy_range(self.data.as_slice(), start, end_offs))
    }
}

/// One decoded record.
#[derive(Clone, Debug)]
pub struct Record {
    pub ty: RecordType,
    pub tag_a: u8,
    pub tag_b: u8,
    pub column_count: u16,
    pub fixed_data: Vec<u8>,
    pub null_bitmap: Option<Vec<u8>>,
    pub var_length_columns: Option<VarLengthColumns>,
}

pub struct RecordView {
    pub ty: RecordType,
    pub tag_a: u8,
    pub tag_b: u8,
    pub column_count: u16,
    pub fixed_data: Seq<u8>,
    pub null_bitmap: Option<Seq<u8>>,
    pub var_length_columns: Option<VarLengthColumnsView>,
}

impl View for Record {
    type V = RecordView;

    open spec fn view(&self) -> RecordView {
        RecordView {
            ty: self.ty,
            tag_a: self.tag_a,
            tag_b: self.tag_b,
            column_count: self.column_count,
            fixed_data: self.fixed_data@,
            null_bitmap: match self.null_bitmap {
                Some(b) => Some(b@),
                None => None,
            },
            var_length_columns: match self.var_length_columns {
                Some(v) => Some(v@),
                None => None,
            },
        }
    }
}

/// Length of the fixed data of a record, when it is plausible.
pub open spec fn spec_fixed_len(b: Seq<u8>, is_index: bool, p_min_len: u16) -> Option<int> {
    if is_index {
        if p_min_len == 0 { None } else { Some(p_min_len - 1) }
    } else if le_u16(b, 2) < 4 {
        None
    } else {
        Some(le_u16(b, 2) - 4)
    }
}

/// Offset of the column count: right after the fixed data.
pub open spec fn spec_count_offset(b: Seq<u8>, is_index: bool, p_min_len: u16) -> int {
    if is_index { p_min_len as int } else { 4 + le_u16(b, 2) - 4 }
}

/// Offset of the variable-length block count (after the null bitmap, if any).
pub open spec fn spec_var_offset(b: Seq<u8>, is_index: bool, p_min_len: u16) -> int {
    let off = spec_count_offset(b, is_index, p_min_len) + 2;
    if b[0] >> 4u8 & HAS_NULL_BITMAP != 0 {
        off + (le_u16(b, off - 2) + 7) / 8
    } else {
        off
    }
}

/// Whether the record bytes `b` decode: a supported type, a plausible fixed
/// length, and every section inside the bytes.
pub open spec fn spec_record_ok(b: Seq<u8>, is_index: bool, p_min_len: u16) -> bool {
    &&& b.len() >= 4
    &&& spec_fixed_len(b, is_index, p_min_len) is Some
    &&& spec_fixed_len(b, is_index, p_min_len).unwrap() + 4 <= b.len()
    &&& {
        let t = spec_record_type((b[0] & 0xf) >> 1u8);
        t == RecordType::Primary || t == RecordType::Index || t == RecordType::Blob
    }
    &&& spec_count_offset(b, is_index, p_min_len) + 2 <= b.len()
    &&& spec_var_offset(b, is_index, p_min_len) <= b.len()
    &&& (b[0] >> 4u8 & HAS_VAR_LENGTH_COLUMNS != 0 ==> spec_var_offset(b, is_index, p_min_len) + 2 <= b.len())
}

/// The record that the bytes `b` hold, given whether the page is an index
/// page and the page's fixed-record length.
pub open spec fn spec_record(b: Seq<u8>, is_index: bool, p_min_len: u16) -> Option<RecordView> {
    if !spec_record_ok(b, is_index, p_min_len) {
        None
    } else {
        let tag_a = b[0] >> 4u8;
        let len = spec_fixed_len(b, is_index, p_min_len).unwrap();
        let coff = spec_count_offset(b, is_index, p_min_len);
        let voff = spec_var_offset(b, is_index, p_min_len);
        Some(RecordView {
            ty: spec_record_type((b[0] & 0xf) >> 1u8),
            tag_a,
            tag_b: if is_index { 0 } else { b[1] & IS_GHOST_FORWARDED },
            column_count: le_u16(b, coff),
            fixed_data: b.subrange(4, 4 + len),
            null_bitmap: if tag_a & HAS_NULL_BITMAP != 0 {
                Some(b.subrange(coff + 2, voff))
            } else {
                None
            },
            var_length_columns: if tag_a & HAS_VAR_LENGTH_COLUMNS != 0 {
                Some(VarLengthColumnsView {
                    data: b.subrange(voff + 2, b.len() as int),
                    count: le_u16(b, voff),
                    base_offset: (voff + 2) as usize,
                })
            } else {
                None
            },
        })
    }
}

/// Whether column `idx` is null: false outside the bitmap, and false for a
/// record without one.
pub open spec fn spec_is_column_null(r: RecordView, idx: int) -> bool {
    match r.null_bitmap {
        Some(bm) => idx / 8 < bm.len() && bit_at(bm, idx),
        None => false,
    }
}

impl Record {
    pub fn has_null_bitmap(&self) -> (r: bool)
        ensures
            r == (self.tag_a & HAS_NULL_BITMAP != 0),
    {
        self.tag_a & HAS_NULL_BITMAP != 0
    }

    pub fn has_var_length_columns(&self) -> (r: bool)
        ensures
            r == (self.tag_a & HAS_VAR_LENGTH_COLUMNS != 0),
    {
        self.tag_a & HAS_VAR_LENGTH_COLUMNS != 0
    }

    pub fn is_column_null(&self, idx: u16) -> (r: bool)
        ensures
            r == spec_is_column_null(self@, idx as int),
    {
        match &self.null_bitmap {
            Some(bm) => {
                if (idx as usize) / 8 < bm.len() {
                    read_bit(bm.as_slice(), idx as usize)
                } else {
                    false
                }
            },
            None => false,
        }
    }

    /// Decodes the record that starts at `data[0]`. `None` for a record of an
    /// unsupported type, an implausible fixed length, or a section that runs
    /// past the bytes.
    pub fn parse(data: &[u8], is_index: bool, p_min_len: u16) -> (r: Option<Record>)
        ensures
            r is Some <==> spec_record(data@, is_index, p_min_len) is Some,
            r matches Some(rec) ==> rec@ == spec_record(data@, is_index, p_min_len).unwrap(),
    {
        let n = data.len();
        if n < 4 {
            return None;
        }
        let tag_a = data[0] >> 4u8;
        let tag_b = if is_index { 0 } else { data[1] & IS_GHOST_FORWARDED };
        let ty = RecordType::parse((data[0] & 0xf) >> 1u8);
        match ty {
            RecordType::Primary | RecordType::Index | RecordType::Blob => {},
            _ => {
                return None;
            },
        }
        let fixed_data_length: usize;
        let mut offset: usize;
        if is_index {
            if p_min_len == 0 {
                return None;
            }
            fixed_data_length = (p_min_len - 1) as usize;
            offset = p_min_len as usize;
        } else {
            let offs = read_u16(data, 2);
            if offs < 4 {
                return None;
            }
            fixed_data_length = (offs - 4) as usize;
            offset = 4 + fixed_data_length;
        }
        if fixed_data_length + 4 > n || offset + 2 > n {
            return None;
        }
        let column_count = read_u16(data, offset);
        offset = offset + 2;
        let null_bitmap = if tag_a & HAS_NULL_BITMAP != 0 {
            let null_bitmap_bytes = (column_count as usize + 7) / 8;
            if offset + null_bitmap_bytes > n {
                return None;
            }
            let bm = copy_range(data, offset, offset + null_bitmap_bytes);
            offset = offset + null_bitmap_bytes;
            Some(bm)
        } else {
            None
        };
        let var_length_columns = if tag_a & HAS_VAR_LENGTH_COLUMNS != 0 {
            if offset + 2 > n {
                return None;
            }
            let count = read_u16(data, offset);
            Some(VarLengthColumns {
                data: copy_range(data, offset + 2, n),
                count,
                base_offset: offset + 2,
            })
        } else {
            None
        };
        let fixed_data = copy_range(data, 4, fixed_data_length + 4);
        Some(Record { ty, tag_a, tag_b, column_count, fixed_data, null_bitmap, var_length_columns })
    }
}

} // verus!
