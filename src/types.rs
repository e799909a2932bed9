//! Column types, typed values and the decoder that projects a record onto a
//! schema.
use vstd::prelude::*;
use crate::bytes::{le_u16, le_u32, le_u64, le_u128, read_u16, read_u32, read_u64, read_u128, copy_range, copy_bytes};
use crate::lob::{LobPointer, spec_lob_pointer};
use crate::record::{Record, RecordView, spec_var_get, spec_is_column_null};
use crate::raw_page::{RawPage, spec_page_record};
use crate::text::{utf16le_text, parse_utf16_string};
use crate::system_tables::{SysColPar, SysScalarType, COLPAR_SPARSE, COLPAR_FILESTREAM, COLPAR_XML_DOCUMENT, COLPAR_NULLABLE, COLPAR_COMPUTED};

verus! {

/// The type of a column.
#[derive(Clone, Copy, Debug, PartialEq, Eq, Structural)]
pub enum SqlType {
    TinyInt,
    SmallInt,
    Int,
    BigInt,
    Binary(usize),
    Char(usize),
    NChar(usize),
    VarBinary(Option<usize>),
    VarChar(Option<usize>),
    Bit,
    SqlVariant,
    NVarChar,
    SysName,
    DateTime,
    SmallDateTime,
    UniqueIdentifier,
    Image,
    NText,
    Float,
}

/// Whether values of type `t` live in the variable-length block.
pub open spec fn spec_is_var_length(t: SqlType) -> bool {
    match t {
        SqlType::VarBinary(_) | SqlType::VarChar(_) | SqlType::SysName | SqlType::NVarChar
        | SqlType::SqlVariant | SqlType::Image | SqlType::NText => true,
        _ => false,
    }
}

/// A point in time, as milliseconds since 1900-01-01 00:00:00.
#[derive(Clone, Copy, Debug, PartialEq, Eq, Structural)]
pub struct SqlDateTime {
    pub millis: i64,
}

/// Milliseconds in a day.
pub const MILLIS_PER_DAY: i64 = 86_400_000;

/// A value that is either stored inline or out of row behind a LOB pointer.
#[derive(Clone, Debug)]
pub enum ValueOrLob<T> {
    Value(T),
    Lob(LobPointer),
}

impl<T> ValueOrLob<T> {
    /// Applies `fun` to an inline value; a LOB pointer stays as it is.
    pub fn map<V, F: Fn(T) -> V>(self, fun: F) -> (r: ValueOrLob<V>)
        requires
            self matches ValueOrLob::Value(v) ==> fun.requires((v,)),
        ensures
            match self {
                ValueOrLob::Value(v) => r matches ValueOrLob::Value(w) && fun.ensures((v,), w),
                ValueOrLob::Lob(l) => r == ValueOrLob::<V>::Lob(l),
            },
    {
        match self {
            ValueOrLob::Value(v) => ValueOrLob::Value(fun(v)),
            ValueOrLob::Lob(l) => ValueOrLob::Lob(l),
        }
    }
}

/// A Rust type that holds the values of one column type.
pub trait ToSqlType {
    spec fn spec_sql_type() -> SqlType;

    fn to_sql_type() -> (r: SqlType)
        ensures
            r == Self::spec_sql_type(),
    ;
}

impl ToSqlType for i8 {
    open spec fn spec_sql_type() -> SqlType {
        SqlType::TinyInt
    }

    fn to_sql_type() -> (r: SqlType) {
        SqlType::TinyInt
    }
}

impl ToSqlType for i16 {
    open spec fn spec_sql_type() -> SqlType {
        SqlType::SmallInt
    }

    fn to_sql_type() -> (r: SqlType) {
        SqlType::SmallInt
    }
}

impl ToSqlType for i32 {
    open spec fn spec_sql_type() -> SqlType {
        SqlType::Int
    }

    fn to_sql_type() -> (r: SqlType) {
        SqlType::Int
    }
}

impl ToSqlType for i64 {
    open spec fn spec_sql_type() -> SqlType {
        SqlType::BigInt
    }

    fn to_sql_type() -> (r: SqlType) {
        SqlType::BigInt
    }
}

impl ToSqlType for ValueOrLob<Vec<u8>> {
    open spec fn spec_sql_type() -> SqlType {
        SqlType::VarBinary(None)
    }

    fn to_sql_type() -> (r: SqlType) {
        SqlType::VarBinary(None)
    }
}

/// A decoded column value.
#[derive(Clone, Debug)]
pub enum SqlValue {
    TinyInt(i8),
    SmallInt(i16),
    Int(i32),
    BigInt(i64),
    Bit(bool),
    Binary(Vec<u8>),
    /// The stored bytes of a fixed-length character column.
    Char(Vec<u8>),
    NChar(String),
    NText(Option<LobPointer>),
    VarBinary(ValueOrLob<Vec<u8>>),
    VarChar(Vec<u8>),
    SysName(String),
    NVarChar(ValueOrLob<String>),
    SqlVariant(Vec<u8>),
    UniqueIdentifier(u128),
    DateTime(SqlDateTime),
    SmallDateTime(SqlDateTime),
    Image(Option<LobPointer>),
    /// The IEEE-754 bit pattern of an 8-byte float.
    Float(u64),
}

pub enum SqlValueView {
    TinyInt(i8),
    SmallInt(i16),
    Int(i32),
    BigInt(i64),
    Bit(bool),
    Binary(Seq<u8>),
    Char(Seq<u8>),
    NChar(Seq<char>),
    NText(Option<LobPointer>),
    VarBinary(ValueOrLob<Seq<u8>>),
    VarChar(Seq<u8>),
    SysName(Seq<char>),
    NVarChar(ValueOrLob<Seq<char>>),
    SqlVariant(Seq<u8>),
    UniqueIdentifier(u128),
    DateTime(SqlDateTime),
    SmallDateTime(SqlDateTime),
    Image(Option<LobPointer>),
    Float(u64),
}

impl View for SqlValue {
    type V = SqlValueView;

    open spec fn view(&self) -> SqlValueView {
        match self {
            SqlValue::TinyInt(v) => SqlValueView::TinyInt(*v),
            SqlValue::SmallInt(v) => SqlValueView::SmallInt(*v),
            SqlValue::Int(v) => SqlValueView::Int(*v),
            SqlValue::BigInt(v) => SqlValueView::BigInt(*v),
            SqlValue::Bit(v) => SqlValueView::Bit(*v),
            SqlValue::Binary(v) => SqlValueView::Binary(v@),
            SqlValue::Char(v) => SqlValueView::Char(v@),
            SqlValue::NChar(v) => SqlValueView::NChar(v@),
            SqlValue::NText(v) => SqlValueView::NText(*v),
            SqlValue::VarBinary(v) => SqlValueView::VarBinary(match v {
                ValueOrLob::Value(b) => ValueOrLob::Value(b@),
                ValueOrLob::Lob(l) => ValueOrLob::Lob(*l),
            }),
            SqlValue::VarChar(v) => SqlValueView::VarChar(v@),
            SqlValue::SysName(v) => SqlValueView::SysName(v@),
            SqlValue::NVarChar(v) => SqlValueView::NVarChar(match v {
                ValueOrLob::Value(s) => ValueOrLob::Value(s@),
                ValueOrLob::Lob(l) => ValueOrLob::Lob(*l),
            }),
            SqlValue::SqlVariant(v) => SqlValueView::SqlVariant(v@),
            SqlValue::UniqueIdentifier(v) => SqlValueView::UniqueIdentifier(*v),
            SqlValue::DateTime(v) => SqlValueView::DateTime(*v),
            SqlValue::SmallDateTime(v) => SqlValueView::SmallDateTime(*v),
            SqlValue::Image(v) => SqlValueView::Image(*v),
            SqlValue::Float(v) => SqlValueView::Float(*v),
        }
    }
}

impl SqlValue {
    pub fn unwrap_unique_identifier(self) -> (r: u128)
        requires
            self is UniqueIdentifier,
        ensures
            self == SqlValue::UniqueIdentifier(r),
    {
        match self {
            SqlValue::UniqueIdentifier(v) => v,
            _ => 0,
        }
    }

    pub fn unwrap_int(self) -> (r: i32)
        requires
            self is Int,
        ensures
            self == SqlValue::Int(r),
    {
        match self {
            SqlValue::Int(v) => v,
            _ => 0,
        }
    }

    /// The text of an in-row `nvarchar` value.
    pub fn unwrap_nvar_char_in_row(self) -> (r: String)
        requires
            self matches SqlValue::NVarChar(ValueOrLob::Value(_)),
        ensures
            self@ == SqlValueView::NVarChar(ValueOrLob::Value(r@)),
    {
        match self {
            SqlValue::NVarChar(ValueOrLob::Value(s)) => s,
            _ => String::new(),
        }
    }
}

/// The view of an optional value.
pub open spec fn opt_value_view(o: Option<SqlValue>) -> Option<SqlValueView> {
    match o {
        Some(v) => Some(v@),
        None => None,
    }
}

/// A time of day in 1/300-second ticks, as milliseconds (rounded toward zero).
pub open spec fn spec_ticks_to_millis(t: int) -> int {
    if t >= 0 { t * 1000 / 300 } else { -((-t) * 1000 / 300) }
}

/// A `datetime` value: `date` days after 1900-01-01 (ignored unless it is
/// between 1 and 999,999) plus `time` ticks of 1/300 second.
pub open spec fn spec_datetime(time: i32, date: i32) -> SqlDateTime {
    let days: int = if 0 < date < 1_000_000 { date as int } else { 0 };
    SqlDateTime { millis: (days * MILLIS_PER_DAY + spec_ticks_to_millis(time as int)) as i64 }
}

/// A `smalldatetime` value: `days` after 1900-01-01 plus `minutes`.
pub open spec fn spec_small_datetime(minutes: u16, days: u16) -> SqlDateTime {
    SqlDateTime { millis: (days * MILLIS_PER_DAY + minutes * 60_000) as i64 }
}

/// Reads packed bits, least significant first, fetching a new byte from the
/// cursor once all eight bits of the current one are spent.
#[derive(Clone, Copy, Debug, PartialEq, Eq, Structural)]
pub struct BitParser {
    pub current_byte: u8,
    pub read_bits: u8,
}

/// One step of the bit reader over `data` at cursor `pos`: the bit, the new
/// reader state and the new cursor; `None` when a byte is needed and none is left.
pub open spec fn spec_read_bit(bp: BitParser, data: Seq<u8>, pos: int) -> Option<(bool, BitParser, int)> {
    if bp.read_bits >= 8 {
        if pos < 0 || pos >= data.len() {
            None
        } else {
            let cur = data[pos];
            Some((cur & 1 == 1, BitParser { current_byte: cur >> 1u8, read_bits: 1 }, pos + 1))
        }
    } else {
        Some((
            bp.current_byte & 1 == 1,
            BitParser { current_byte: bp.current_byte >> 1u8, read_bits: (bp.read_bits + 1) as u8 },
            pos,
        ))
    }
}

impl BitParser {
    /// A reader with no bits left, so that the first read fetches a byte.
    pub fn new() -> (r: BitParser)
        ensures
            r == (BitParser { current_byte: 0, read_bits: 8 }),
    {
        BitParser { current_byte: 0, read_bits: 8 }
    }

    pub fn read_bit(&mut self, data: &[u8], pos: &mut usize) -> (r: Option<bool>)
        ensures
            match spec_read_bit(*old(self), data@, *old(pos) as int) {
                Some((b, bp, p)) => r == Some(b) && *final(self) == bp && *final(pos) == p,
                None => r is None,
            },
    {
        if self.read_bits >= 8 {
            if *pos >= data.len() {
                return None;
            }
            self.current_byte = data[*pos];
            *pos = *pos + 1;
            self.read_bits = 0;
        }
        let ret = self.current_byte & 1 == 1;
        self.current_byte = self.current_byte >> 1u8;
        self.read_bits = self.read_bits + 1;
        Some(ret)
    }
}

/// Decoding of a fixed-length value of type `t` from `data` at cursor `pos`:
/// the value, the new bit reader and the new cursor. `None` for a
/// variable-length type or when the value runs past the data.
pub open spec fn spec_parse_fixed(t: SqlType, bp: BitParser, data: Seq<u8>, pos: int) -> Option<(SqlValueView, BitParser, int)> {
    let width: int = match t {
        SqlType::TinyInt => 1,
        SqlType::SmallInt => 2,
        SqlType::Int => 4,
        SqlType::BigInt => 8,
        SqlType::Float => 8,
        SqlType::UniqueIdentifier => 16,
        SqlType::DateTime => 8,
        SqlType::SmallDateTime => 4,
        SqlType::Binary(n) => n as int,
        SqlType::Char(n) => n as int,
        SqlType::NChar(n) => n as int,
        _ => 0,
    };
    if spec_is_var_length(t) {
        None
    } else if t == SqlType::Bit {
        match spec_read_bit(bp, data, pos) {
            Some((b, nbp, p)) => Some((SqlValueView::Bit(b), nbp, p)),
            None => None,
        }
    } else if pos < 0 || pos + width > data.len() {
        None
    } else {
        let v = match t {
            SqlType::TinyInt => SqlValueView::TinyInt(data[pos] as i8),
            SqlType::SmallInt => SqlValueView::SmallInt(le_u16(data, pos) as i16),
            SqlType::Int => SqlValueView::Int(le_u32(data, pos) as i32),
            SqlType::BigInt => SqlValueView::BigInt(le_u64(data, pos) as i64),
            SqlType::Float => SqlValueView::Float(le_u64(data, pos)),
            SqlType::UniqueIdentifier => SqlValueView::UniqueIdentifier(le_u128(data, pos)),
            SqlType::DateTime => SqlValueView::DateTime(
                spec_datetime(le_u32(data, pos) as i32, le_u32(data, pos + 4) as i32),
            ),
            SqlType::SmallDateTime => SqlValueView::DateTime(
                spec_small_datetime(le_u16(data, pos), le_u16(data, pos + 2)),
            ),
            SqlType::Binary(n) => SqlValueView::Binary(data.subrange(pos, pos + n)),
            SqlType::Char(n) => SqlValueView::Char(data.subrange(pos, pos + n)),
            _ => SqlValueView::NChar(utf16le_text(data.subrange(pos, pos + width))),
        };
        Some((v, bp, pos + width))
    }
}

/// Decoding of a variable-length value of type `t` from its bytes and its
/// complex bit. `None` where the layout is refused: a complex value of a type
/// that is never stored out of row, a non-empty image or ntext value that is
/// not a 16-byte complex pointer, a malformed LOB pointer, or a fixed-length type.
pub open spec fn spec_parse_var(t: SqlType, complex: bool, data: Seq<u8>) -> Option<SqlValueView> {
    match t {
        SqlType::VarBinary(_) => if complex {
            match spec_lob_pointer(data) {
                Some(p) => Some(SqlValueView::VarBinary(ValueOrLob::Lob(p))),
                None => None,
            }
        } else {
            Some(SqlValueView::VarBinary(ValueOrLob::Value(data)))
        },
        SqlType::VarChar(_) => if complex { None } else { Some(SqlValueView::VarChar(data)) },
        SqlType::Image => if data.len() == 0 {
            Some(SqlValueView::Image(None))
        } else if complex && data.len() == 16 && spec_lob_pointer(data) is Some {
            Some(SqlValueView::Image(spec_lob_pointer(data)))
        } else {
            None
        },
        SqlType::NText => if data.len() == 0 {
            Some(SqlValueView::NText(None))
        } else if complex && data.len() == 16 && spec_lob_pointer(data) is Some {
            Some(SqlValueView::NText(spec_lob_pointer(data)))
        } else {
            None
        },
        SqlType::SysName => if complex { None } else { Some(SqlValueView::SysName(utf16le_text(data))) },
        SqlType::NVarChar => if complex {
            match spec_lob_pointer(data) {
                Some(p) => Some(SqlValueView::NVarChar(ValueOrLob::Lob(p))),
                None => None,
            }
        } else {
            Some(SqlValueView::NVarChar(ValueOrLob::Value(utf16le_text(data))))
        },
        SqlType::SqlVariant => if complex { None } else { Some(SqlValueView::SqlVariant(data)) },
        _ => None,
    }
}

impl SqlType {
    pub fn is_var_length(&self) -> (r: bool)
        ensures
            r == spec_is_var_length(*self),
    {
        match self {
            SqlType::TinyInt | SqlType::SmallInt | SqlType::Int | SqlType::BigInt
            | SqlType::Binary(_) | SqlType::Char(_) | SqlType::NChar(_) | SqlType::DateTime
            | SqlType::UniqueIdentifier | SqlType::Bit | SqlType::Float
            | SqlType::SmallDateTime => false,
            SqlType::VarBinary(_) | SqlType::VarChar(_) | SqlType::SysName | SqlType::NVarChar
            | SqlType::SqlVariant | SqlType::Image | SqlType::NText => true,
        }
    }

    /// Decodes a variable-length value from its bytes and complex bit.
    /// An inline value longer than the declared maximum is kept.
    pub fn parse_var_length(&self, complex: bool, data: &[u8]) -> (r: Option<SqlValue>)
        ensures
            opt_value_view(r) == spec_parse_var(*self, complex, data@),
    {
        match self {
            SqlType::VarBinary(_) => {
                if complex {
                    match LobPointer::parse(data) {
                        Some(p) => Some(SqlValue::VarBinary(ValueOrLob::Lob(p))),
                        None => None,
                    }
                } else {
                    Some(SqlValue::VarBinary(ValueOrLob::Value(copy_bytes(data))))
                }
            },
            SqlType::VarChar(_) => {
                if complex {
                    None
                } else {
                    Some(SqlValue::VarChar(copy_bytes(data)))
                }
            },
            SqlType::Image | SqlType::NText => {
                let p = if data.len() == 0 {
                    None
                } else if complex && data.len() == 16 {
                    match LobPointer::parse(data) {
                        Some(p) => Some(p),
                        None => {
                            return None;
                        },
                    }
                } else {
                    return None;
                };
                match self {
                    SqlType::Image => Some(SqlValue::Image(p)),
                    _ => Some(SqlValue::NText(p)),
                }
            },
            SqlType::SysName => {
                if complex {
                    None
                } else {
                    Some(SqlValue::SysName(parse_utf16_string(data)))
                }
            },
            SqlType::NVarChar => {
                if complex {
                    match LobPointer::parse(data) {
                        Some(p) => Some(SqlValue::NVarChar(ValueOrLob::Lob(p))),
                        None => None,
                    }
                } else {
                    Some(SqlValue::NVarChar(ValueOrLob::Value(parse_utf16_string(data))))
                }
            },
            SqlType::SqlVariant => {
                if complex {
                    None
                } else {
                    Some(SqlValue::SqlVariant(copy_bytes(data)))
                }
            },
            _ => None,
        }
    }

    /// Decodes a fixed-length value from `data` at the cursor `pos`, taking
    /// bits from `bit_parser`, and advances both.
    pub fn parse(&self, bit_parser: &mut BitParser, data: &[u8], pos: &mut usize) -> (r: Option<SqlValue>)
        ensures
            match spec_parse_fixed(*self, *old(bit_parser), data@, *old(pos) as int) {
                Some((v, bp, p)) => r is Some && r.unwrap()@ == v && *final(bit_parser) == bp
                    && *final(pos) == p,
                None => r is None,
            },
    {
        let n = data.len();
        let p = *pos;
        let width: usize = match self {
            SqlType::TinyInt => 1,
            SqlType::SmallInt => 2,
            SqlType::Int => 4,
            SqlType::BigInt => 8,
            SqlType::Float => 8,
            SqlType::UniqueIdentifier => 16,
            SqlType::DateTime => 8,
            SqlType::SmallDateTime => 4,
            SqlType::Binary(w) => *w,
            SqlType::Char(w) => *w,
            SqlType::NChar(w) => *w,
            _ => 0,
        };
        if self.is_var_length() {
            return None;
        }
        if let SqlType::Bit = self {
            return match bit_parser.read_bit(data, pos) {
                Some(b) => Some(SqlValue::Bit(b)),
                None => None,
            };
        }
        if p > n || width > n - p {
            return None;
        }
        let v = match self {
            SqlType::TinyInt => SqlValue::TinyInt(data[p] as i8),
            SqlType::SmallInt => SqlValue::SmallInt(read_u16(data, p) as i16),
            SqlType::Int => SqlValue::Int(read_u32(data, p) as i32),
            SqlType::BigInt => SqlValue::BigInt(read_u64(data, p) as i64),
            SqlType::Float => SqlValue::Float(read_u64(data, p)),
            SqlType::UniqueIdentifier => SqlValue::UniqueIdentifier(read_u128(data, p)),
            SqlType::DateTime => {
                let time = read_u32(data, p) as i32;
                let date = read_u32(data, p + 4) as i32;
                SqlValue::DateTime(datetime_from_parts(time, date))
            },
            SqlType::SmallDateTime => {
                let minutes = read_u16(data, p);
                let days = read_u16(data, p + 2);
                SqlValue::DateTime(SqlDateTime {
                    millis: days as i64 * MILLIS_PER_DAY + minutes as i64 * 60_000,
                })
            },
            SqlType::Binary(w) => SqlValue::Binary(copy_range(data, p, p + *w)),
            SqlType::Char(w) => SqlValue::Char(copy_range(data, p, p + *w)),
            _ => SqlValue::NChar(parse_utf16_string(&data[p..p + width])),
        };
        *pos = p + width;
        Some(v)
    }
}

/// A `datetime` value from its two stored halves.
pub fn datetime_from_parts(time: i32, date: i32) -> (r: SqlDateTime)
    ensures
        r == spec_datetime(time, date),
{
    let mut millis: i64 = 0;
    if date < 1_000_000 && date > 0 {
        millis = date as i64 * MILLIS_PER_DAY;
    }
    let t = time as i64;
    let tm: i64 = if t >= 0 { t * 1000 / 300 } else { -((-t) * 1000 / 300) };
    SqlDateTime { millis: millis + tm }
}


/// One column of a schema.
#[derive(Clone, Debug)]
pub struct ColumnType {
    pub idx: i32,
    pub data_type: SqlType,
    pub name: String,
    pub nullable: bool,
    pub computed: bool,
}

/// The ordered columns of a table; the order decides the row layout.
#[derive(Clone, Debug)]
pub struct Schema {
    pub columns: Vec<ColumnType>,
}

/// A decoded row: one optional value per schema column.
#[derive(Clone, Debug)]
pub struct Row {
    pub values: Vec<Option<SqlValue>>,
}

/// The views of a sequence of optional values.
pub open spec fn value_views(vs: Seq<Option<SqlValue>>) -> Seq<Option<SqlValueView>> {
    vs.map_values(|v: Option<SqlValue>| opt_value_view(v))
}

/// The decoder's state after some columns: the values so far, the bit
/// reader, the fixed-data cursor, the next variable-length column and the
/// next null-bitmap index.
pub struct RowState {
    pub values: Seq<Option<SqlValueView>>,
    pub bits: BitParser,
    pub pos: int,
    pub var_idx: int,
    pub null_idx: int,
}

/// The decoder's state before the first column.
pub open spec fn spec_row_start() -> RowState {
    RowState {
        values: Seq::empty(),
        bits: BitParser { current_byte: 0, read_bits: 8 },
        pos: 0,
        var_idx: 0,
        null_idx: 0,
    }
}

/// One column of the decoder. A computed column takes a null cell and no
/// index. Past the record's column count, or where the null bitmap says so,
/// the cell is null. A variable-length column takes the next entry of the
/// variable block (an empty, non-complex one when the record has no block);
/// a fixed-length column is read at the cursor. Every non-computed column
/// advances the null-bitmap index. `None` when a value does not decode.
pub open spec fn spec_row_step(c: (SqlType, bool), r: RecordView, s: RowState) -> Option<RowState> {
    let t = c.0;
    if c.1 {
        Some(RowState { values: s.values.push(None), ..s })
    } else if s.null_idx >= r.column_count || spec_is_column_null(r, s.null_idx) {
        Some(RowState { values: s.values.push(None), null_idx: s.null_idx + 1, ..s })
    } else if spec_is_var_length(t) {
        match r.var_length_columns {
            Some(vc) => {
                let (cx, d) = spec_var_get(vc, s.var_idx);
                match spec_parse_var(t, cx, d) {
                    Some(v) => Some(RowState {
                        values: s.values.push(Some(v)),
                        var_idx: s.var_idx + 1,
                        null_idx: s.null_idx + 1,
                        ..s
                    }),
                    None => None,
                }
            },
            None => match spec_parse_var(t, false, Seq::empty()) {
                Some(v) => Some(RowState { values: s.values.push(Some(v)), null_idx: s.null_idx + 1, ..s }),
                None => None,
            },
        }
    } else {
        match spec_parse_fixed(t, s.bits, r.fixed_data, s.pos) {
            Some((v, bp, p)) => Some(RowState {
                values: s.values.push(Some(v)),
                bits: bp,
                pos: p,
                null_idx: s.null_idx + 1,
                ..s
            }),
            None => None,
        }
    }
}

/// The type and the computed flag of each column: all that decoding reads.
pub open spec fn column_kinds(cols: Seq<ColumnType>) -> Seq<(SqlType, bool)> {
    cols.map_values(|c: ColumnType| (c.data_type, c.computed))
}

/// The decoder's state after the first `k` columns.
pub open spec fn spec_row_state(cols: Seq<(SqlType, bool)>, r: RecordView, k: nat) -> Option<RowState>
    decreases k,
{
    if k == 0 {
        Some(spec_row_start())
    } else {
        match spec_row_state(cols, r, (k - 1) as nat) {
            Some(s) => spec_row_step(cols[k - 1], r, s),
            None => None,
        }
    }
}

/// The row that a record decodes to under the columns `cols`.
pub open spec fn spec_parse_row(cols: Seq<(SqlType, bool)>, r: RecordView) -> Option<Seq<Option<SqlValueView>>> {
    match spec_row_state(cols, r, cols.len()) {
        Some(s) => Some(s.values),
        None => None,
    }
}

/// Decoding is a function of the bytes: two pages with the same bytes give
/// the same record in every slot, and each record the same row under any
/// schema.
pub proof fn lemma_reparse_same(first: RawPage, second: RawPage, idx: int, kinds: Seq<(SqlType, bool)>)
    requires
        first.wf(),
        second.wf(),
        first.data@ == second.data@,
    ensures
        spec_page_record(first.header, first.data@, idx) == spec_page_record(second.header, second.data@, idx),
        spec_page_record(first.header, first.data@, idx) matches Some(r) ==>
            spec_parse_row(kinds, r) == spec_parse_row(kinds, spec_page_record(second.header, second.data@, idx).unwrap()),
{
}

/// A decoder that failed at some column fails for the whole row.
proof fn lemma_row_failure_persists(cols: Seq<(SqlType, bool)>, r: RecordView, k: nat, m: nat)
    requires
        k <= m,
        spec_row_state(cols, r, k) is None,
    ensures
        spec_row_state(cols, r, m) is None,
    decreases m - k,
{
    if k < m {
        lemma_row_failure_persists(cols, r, k, (m - 1) as nat);
    }
}

impl Schema {
    /// Decodes a record into one optional value per column. `None` when a
    /// value runs past the fixed data or has a refused layout.
    pub fn parse(&self, record: &Record) -> (r: Option<Row>)
        ensures
            r is Some <==> spec_parse_row(column_kinds(self.columns@), record@) is Some,
            r matches Some(row) ==> value_views(row.values@) == spec_parse_row(column_kinds(self.columns@), record@).unwrap(),
    {
        let ghost cols = column_kinds(self.columns@);
        let ghost rv = record@;
        let mut values: Vec<Option<SqlValue>> = Vec::new();
        let mut bit_parser = BitParser::new();
        let mut pos: usize = 0;
        let mut var_idx: usize = 0;
        let mut null_idx: usize = 0;
        let mut i: usize = 0;
        while i < self.columns.len()
            invariant
                cols == column_kinds(self.columns@),
                rv == record@,
                i <= cols.len(),
                var_idx <= i,
                null_idx <= i,
                spec_row_state(cols, rv, i as nat) matches Some(s) && s.values == value_views(values@)
                    && s.bits == bit_parser && s.pos == pos as int && s.var_idx == var_idx as int
                    && s.null_idx == null_idx as int,
            decreases cols.len() - i,
        {
            let col = &self.columns[i];
            let ghost s = spec_row_state(cols, rv, i as nat).unwrap();
            assert(cols[i as int] == (col.data_type, col.computed));
            let ghost vv = values@;
            proof {
                assert(value_views(vv).len() == vv.len());
            }
            if col.computed {
                values.push(None);
            } else if null_idx >= record.column_count as usize || record.is_column_null(null_idx as u16) {
                values.push(None);
                null_idx = null_idx + 1;
            } else if col.data_type.is_var_length() {
                let v = match &record.var_length_columns {
                    Some(vc) => {
                        let (cx, d) = if var_idx >= vc.count as usize {
                            (false, Vec::new())
                        } else {
                            vc.get(var_idx as u16)
                        };
                        proof {
                            assert(d@ == spec_var_get(vc@, var_idx as int).1);
                        }
                        let v = col.data_type.parse_var_length(cx, d.as_slice());
                        var_idx = var_idx + 1;
                        v
                    },
                    None => {
                        let empty: Vec<u8> = Vec::new();
                        proof {
                            assert(empty@ =~= Seq::<u8>::empty());
                        }
                        col.data_type.parse_var_length(false, empty.as_slice())
                    },
                };
                match v {
                    Some(v) => {
                        values.push(Some(v));
                    },
                    None => {
                        proof {
                            lemma_row_failure_persists(cols, rv, (i + 1) as nat, cols.len());
                        }
                        return None;
                    },
                }
                null_idx = null_idx + 1;
            } else {
                let v = col.data_type.parse(&mut bit_parser, record.fixed_data.as_slice(), &mut pos);
                match v {
                    Some(v) => {
                        values.push(Some(v));
                    },
                    None => {
                        proof {
                            lemma_row_failure_persists(cols, rv, (i + 1) as nat, cols.len());
                        }
                        return None;
                    },
                }
                null_idx = null_idx + 1;
            }
            proof {
                assert(value_views(values@) =~= value_views(vv).push(opt_value_view(values@.last())));
            }
            i = i + 1;
        }
        Some(Row { values })
    }
}

/// The column type that a scalar-type name stands for, with the column's
/// declared length where the type has one; `None` for an unknown name.
pub open spec fn spec_sql_type_of(name: Seq<char>, length: i16) -> Option<SqlType> {
    if name == "tinyint"@ {
        Some(SqlType::TinyInt)
    } else if name == "smallint"@ {
        Some(SqlType::SmallInt)
    } else if name == "int"@ {
        Some(SqlType::Int)
    } else if name == "bigint"@ {
        Some(SqlType::BigInt)
    } else if name == "binary"@ {
        Some(SqlType::Binary(length as usize))
    } else if name == "char"@ {
        Some(SqlType::Char(length as usize))
    } else if name == "nchar"@ {
        Some(SqlType::NChar(length as usize))
    } else if name == "varbinary"@ {
        Some(SqlType::VarBinary(Some(length as usize)))
    } else if name == "varchar"@ {
        Some(SqlType::VarChar(Some(length as usize)))
    } else if name == "bit"@ {
        Some(SqlType::Bit)
    } else if name == "nvarchar"@ {
        Some(SqlType::NVarChar)
    } else if name == "sysname"@ {
        Some(SqlType::SysName)
    } else if name == "uniqueidentifier"@ {
        Some(SqlType::UniqueIdentifier)
    } else if name == "datetime"@ {
        Some(SqlType::DateTime)
    } else if name == "sql_variant"@ {
        Some(SqlType::SqlVariant)
    } else if name == "image"@ {
        Some(SqlType::Image)
    } else if name == "ntext"@ {
        Some(SqlType::NText)
    } else if name == "float"@ {
        Some(SqlType::Float)
    } else if name == "smalldatetime"@ {
        Some(SqlType::SmallDateTime)
    } else {
        None
    }
}

/// Whether `a` holds exactly the characters of `b`.
pub(crate) fn str_is(a: &String, b: &str) -> (r: bool)
    ensures
        r == (a@ == b@),
{
    a.eq(&String::from_str(b))
}

impl SqlType {
    /// The type of a column from its catalog row and its scalar type's row.
    pub fn from_col(col: &SysColPar, ty: &SysScalarType) -> (r: Option<SqlType>)
        ensures
            r == spec_sql_type_of(ty.name@, col.length),
    {
        let length = col.length;
        let name = &ty.name;
        if str_is(name, "tinyint") {
            Some(SqlType::TinyInt)
        } else if str_is(name, "smallint") {
            Some(SqlType::SmallInt)
        } else if str_is(name, "int") {
            Some(SqlType::Int)
        } else if str_is(name, "bigint") {
            Some(SqlType::BigInt)
        } else if str_is(name, "binary") {
            Some(SqlType::Binary(length as usize))
        } else if str_is(name, "char") {
            Some(SqlType::Char(length as usize))
        } else if str_is(name, "nchar") {
            Some(SqlType::NChar(length as usize))
        } else if str_is(name, "varbinary") {
            Some(SqlType::VarBinary(Some(length as usize)))
        } else if str_is(name, "varchar") {
            Some(SqlType::VarChar(Some(length as usize)))
        } else if str_is(name, "bit") {
            Some(SqlType::Bit)
        } else if str_is(name, "nvarchar") {
            Some(SqlType::NVarChar)
        } else if str_is(name, "sysname") {
            Some(SqlType::SysName)
        } else if str_is(name, "uniqueidentifier") {
            Some(SqlType::UniqueIdentifier)
        } else if str_is(name, "datetime") {
            Some(SqlType::DateTime)
        } else if str_is(name, "sql_variant") {
            Some(SqlType::SqlVariant)
        } else if str_is(name, "image") {
            Some(SqlType::Image)
        } else if str_is(name, "ntext") {
            Some(SqlType::NText)
        } else if str_is(name, "float") {
            Some(SqlType::Float)
        } else if str_is(name, "smalldatetime") {
            Some(SqlType::SmallDateTime)
        } else {
            None
        }
    }
}

/// The schema column for a catalog column and its scalar type; `None` for a
/// sparse, filestream or XML-document column, a column without a name, or
/// an unknown type.
pub open spec fn spec_column_of(col: SysColPar, ty: SysScalarType) -> Option<ColumnType> {
    if col.status & COLPAR_SPARSE != 0 || col.status & COLPAR_FILESTREAM != 0
        || col.status & COLPAR_XML_DOCUMENT != 0 {
        None
    } else if col.name is None || spec_sql_type_of(ty.name@, col.length) is None {
        None
    } else {
        Some(ColumnType {
            idx: col.col_id,
            data_type: spec_sql_type_of(ty.name@, col.length).unwrap(),
            name: col.name.unwrap(),
            nullable: col.status & COLPAR_NULLABLE != 0,
            computed: col.status & COLPAR_COMPUTED != 0,
        })
    }
}

/// Whether the columns are in ascending order of their ids.
pub open spec fn sorted_by_idx(cols: Seq<ColumnType>) -> bool {
    forall|i: int, j: int| 0 <= i < j < cols.len() ==> cols[i].idx <= cols[j].idx
}

/// The schema columns of a list of catalog columns with their types.
pub open spec fn spec_columns_of(info: Seq<(&SysColPar, &SysScalarType)>) -> Seq<ColumnType> {
    info.map_values(|p: (&SysColPar, &SysScalarType)| spec_column_of(*p.0, *p.1).unwrap())
}

/// Whether every catalog column of the list becomes a schema column.
pub open spec fn all_columns_ok(info: Seq<(&SysColPar, &SysScalarType)>) -> bool {
    forall|i: int| 0 <= i < info.len() ==> (#[trigger] spec_column_of(*info[i].0, *info[i].1)) is Some
}

fn column_of(col: &SysColPar, ty: &SysScalarType) -> (r: Option<ColumnType>)
    ensures
        r == spec_column_of(*col, *ty),
{
    if col.status & COLPAR_SPARSE != 0 || col.status & COLPAR_FILESTREAM != 0
        || col.status & COLPAR_XML_DOCUMENT != 0 {
        return None;
    }
    let name = match &col.name {
        Some(n) => n.clone(),
        None => {
            return None;
        },
    };
    let data_type = match SqlType::from_col(col, ty) {
        Some(t) => t,
        None => {
            return None;
        },
    };
    Some(ColumnType {
        idx: col.col_id,
        data_type,
        name,
        nullable: col.status & COLPAR_NULLABLE != 0,
        computed: col.status & COLPAR_COMPUTED != 0,
    })
}

impl Schema {
    /// Builds a schema from catalog columns and their scalar types, ordered by
    /// column id (columns with equal ids keep their order). `None` when a
    /// column is sparse, filestream or an XML document, has no name, or has
    /// an unknown type.
    pub fn from_col_par(column_info: &Vec<(&SysColPar, &SysScalarType)>) -> (r: Option<Schema>)
        ensures
            r is Some <==> all_columns_ok(column_info@),
            r matches Some(s) ==> sorted_by_idx(s.columns@)
                && s.columns@.to_multiset() == spec_columns_of(column_info@).to_multiset(),
    {
        let ghost info = column_info@;
        let mut columns: Vec<ColumnType> = Vec::new();
        let mut i: usize = 0;
        proof {
            assert(columns@ =~= spec_columns_of(info.subrange(0, 0)));
        }
        while i < column_info.len()
            invariant
                info == column_info@,
                i <= info.len(),
                forall|k: int| 0 <= k < i ==> (#[trigger] spec_column_of(*info[k].0, *info[k].1)) is Some,
                sorted_by_idx(columns@),
                columns@.to_multiset() == spec_columns_of(info.subrange(0, i as int)).to_multiset(),
            decreases info.len() - i,
        {
            let (col, ty) = column_info[i];
            let c = match column_of(col, ty) {
                Some(c) => c,
                None => {
                    return None;
                },
            };
            let mut p: usize = columns.len();
            while p > 0 && columns[p - 1].idx > c.idx
                invariant
                    p <= columns@.len(),
                    forall|k: int| p <= k < columns@.len() ==> columns@[k].idx > c.idx,
                decreases p,
            {
                p = p - 1;
            }
            let ghost before = columns@;
            columns.insert(p, c);
            proof {
                vstd::seq_lib::to_multiset_insert(before, p as int, c);
                let prev = info.subrange(0, i as int);
                let next = info.subrange(0, i as int + 1);
                assert(next =~= prev.push(info[i as int]));
                assert(spec_columns_of(next) =~= spec_columns_of(prev).push(c));
                vstd::seq_lib::to_multiset_build(spec_columns_of(prev), c);
                assert forall|a: int, b: int| 0 <= a < b < columns@.len() implies columns@[a].idx <= columns@[b].idx by {
                    if p > 0 {
                        assert(before[p - 1].idx <= c.idx);
                    }
                    if a < p as int && b > p as int {
                        assert(before[a].idx <= before[b - 1].idx);
                    }
                }
            }
            i = i + 1;
        }
        proof {
            assert(info.subrange(0, info.len() as int) =~= info);
        }
        Some(Schema { columns })
    }
}

} // verus!
