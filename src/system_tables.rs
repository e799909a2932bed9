//! Rows of the system catalog tables, each decoded through its own schema.
use vstd::prelude::*;
use crate::bytes::copy_bytes;
use crate::raw_page::{PagePointer, spec_page_pointer};
use crate::record::{Record, RecordView};
use crate::raw_page::record_views;
use crate::types::{
    ColumnType, Schema, SqlType, SqlValue, SqlValueView, SqlDateTime, ValueOrLob,
    column_kinds, spec_parse_row, value_views,
};

verus! {

/// Allocation unit id of the row-set catalog table.
pub const SYS_ROW_SET_AUID: i64 = 327680;
/// Major id of the schema-objects catalog table.
pub const SYS_SCH_OBJS_IDMAJOR: i32 = 34;
/// Major id of the column-parents catalog table.
pub const SYS_COL_PARS_IDMAJOR: i32 = 41;
/// Major id of the scalar-types catalog table.
pub const SYS_SCALAR_TYPES_IDMAJOR: i32 = 50;
/// Major id of the row-set-columns catalog table (not loaded).
pub const SYS_RS_COLS_IDMAJOR: i32 = 4;
/// Major id of the single-object-references catalog table.
pub const SYS_SINGLE_OBJECT_REFS_IDMAJOR: i32 = 74;

/// Column status flag: nullable.
pub const COLPAR_NULLABLE: i32 = 1 << 0;
/// Column status flag: ANSI padded.
pub const COLPAR_ANSI_PADDED: i32 = 1 << 1;
/// Column status flag: identity column.
pub const COLPAR_IDENTITY: i32 = 1 << 2;
/// Column status flag: row GUID column.
pub const COLPAR_ROW_GUID_COL: i32 = 1 << 3;
/// Column status flag: computed column.
pub const COLPAR_COMPUTED: i32 = 1 << 4;
/// Column status flag: filestream column.
pub const COLPAR_FILESTREAM: i32 = 1 << 5;
/// Column status flag: XML document column.
pub const COLPAR_XML_DOCUMENT: i32 = 1 << 11;
/// Column status flag: sparse column.
pub const COLPAR_SPARSE: i32 = 1 << 24;
/// Column status flag: column set.
pub const COLPAR_COLUMN_SET: i32 = 1 << 25;

#[derive(Clone, Copy, Debug, PartialEq, Eq, Structural)]
pub enum AllocUnitType {
    Dropped,
    InRowData,
    LobData,
    RowOverflowData,
}

pub open spec fn spec_alloc_unit_type(v: i8) -> Option<AllocUnitType> {
    match v {
        0 => Some(AllocUnitType::Dropped),
        1 => Some(AllocUnitType::InRowData),
        2 => Some(AllocUnitType::LobData),
        3 => Some(AllocUnitType::RowOverflowData),
        _ => None,
    }
}

impl AllocUnitType {
    /// The allocation-unit type with code `value`; `None` for an unknown code.
    pub fn parse(value: i8) -> (r: Option<AllocUnitType>)
        ensures
            r == spec_alloc_unit_type(value),
    {
        match value {
            0 => Some(AllocUnitType::Dropped),
            1 => Some(AllocUnitType::InRowData),
            2 => Some(AllocUnitType::LobData),
            3 => Some(AllocUnitType::RowOverflowData),
            _ => None,
        }
    }
}

#[derive(Clone, Copy, Debug, PartialEq, Eq, Structural)]
pub enum SchType {
    SystemTable,
    SqlScalarFunction,
    UserTable,
    ServiceQueue,
    InternalTable,
    DefaultConstraint,
    PrimaryKey,
    StoredProcedure,
    Unique,
    SqlTableFunction,
    View,
    Trigger,
}

/// The object type stored as two characters (`"U "`, `"S "`, `"PK"`, ...).
pub open spec fn spec_sch_type(b: Seq<u8>) -> Option<SchType> {
    if b.len() != 2 {
        None
    } else {
        let (x, y) = (b[0], b[1]);
        if x == 0x53 && y == 0x20 { Some(SchType::SystemTable) }
        else if x == 0x46 && y == 0x4e { Some(SchType::SqlScalarFunction) }
        else if x == 0x55 && y == 0x20 { Some(SchType::UserTable) }
        else if x == 0x53 && y == 0x51 { Some(SchType::ServiceQueue) }
        else if x == 0x49 && y == 0x54 { Some(SchType::InternalTable) }
        else if x == 0x44 && y == 0x20 { Some(SchType::DefaultConstraint) }
        else if x == 0x50 && y == 0x4b { Some(SchType::PrimaryKey) }
        else if x == 0x50 && y == 0x20 { Some(SchType::StoredProcedure) }
        else if x == 0x55 && y == 0x51 { Some(SchType::Unique) }
        else if x == 0x49 && y == 0x46 { Some(SchType::SqlTableFunction) }
        else if x == 0x56 && y == 0x20 { Some(SchType::View) }
        else if x == 0x54 && y == 0x52 { Some(SchType::Trigger) }
        else { None }
    }
}

impl SchType {
    /// The object type that the two stored characters name; `None` for any other.
    pub fn parse(ty: &[u8]) -> (r: Option<SchType>)
        ensures
            r == spec_sch_type(ty@),
    {
        if ty.len() != 2 {
            return None;
        }
        let x = ty[0];
        let y = ty[1];
        if x == 0x53 && y == 0x20 { Some(SchType::SystemTable) }
        else if x == 0x46 && y == 0x4e { Some(SchType::SqlScalarFunction) }
        else if x == 0x55 && y == 0x20 { Some(SchType::UserTable) }
        else if x == 0x53 && y == 0x51 { Some(SchType::ServiceQueue) }
        else if x == 0x49 && y == 0x54 { Some(SchType::InternalTable) }
        else if x == 0x44 && y == 0x20 { Some(SchType::DefaultConstraint) }
        else if x == 0x50 && y == 0x4b { Some(SchType::PrimaryKey) }
        else if x == 0x50 && y == 0x20 { Some(SchType::StoredProcedure) }
        else if x == 0x55 && y == 0x51 { Some(SchType::Unique) }
        else if x == 0x49 && y == 0x46 { Some(SchType::SqlTableFunction) }
        else if x == 0x56 && y == 0x20 { Some(SchType::View) }
        else if x == 0x54 && y == 0x52 { Some(SchType::Trigger) }
        else { None }
    }
}

// Cell access over decoded rows.

pub open spec fn at_tinyint(vs: Seq<Option<SqlValueView>>, i: int) -> Option<i8> {
    if 0 <= i < vs.len() {
        match vs[i] {
            Some(SqlValueView::TinyInt(v)) => Some(v),
            _ => None,
        }
    } else {
        None
    }
}

pub open spec fn at_smallint(vs: Seq<Option<SqlValueView>>, i: int) -> Option<i16> {
    if 0 <= i < vs.len() {
        match vs[i] {
            Some(SqlValueView::SmallInt(v)) => Some(v),
            _ => None,
        }
    } else {
        None
    }
}

pub open spec fn at_int(vs: Seq<Option<SqlValueView>>, i: int) -> Option<i32> {
    if 0 <= i < vs.len() {
        match vs[i] {
            Some(SqlValueView::Int(v)) => Some(v),
            _ => None,
        }
    } else {
        None
    }
}

pub open spec fn at_bigint(vs: Seq<Option<SqlValueView>>, i: int) -> Option<i64> {
    if 0 <= i < vs.len() {
        match vs[i] {
            Some(SqlValueView::BigInt(v)) => Some(v),
            _ => None,
        }
    } else {
        None
    }
}

pub open spec fn at_binary(vs: Seq<Option<SqlValueView>>, i: int) -> Option<Seq<u8>> {
    if 0 <= i < vs.len() {
        match vs[i] {
            Some(SqlValueView::Binary(v)) => Some(v),
            _ => None,
        }
    } else {
        None
    }
}

pub open spec fn at_char(vs: Seq<Option<SqlValueView>>, i: int) -> Option<Seq<u8>> {
    if 0 <= i < vs.len() {
        match vs[i] {
            Some(SqlValueView::Char(v)) => Some(v),
            _ => None,
        }
    } else {
        None
    }
}

pub open spec fn at_sysname(vs: Seq<Option<SqlValueView>>, i: int) -> Option<Seq<char>> {
    if 0 <= i < vs.len() {
        match vs[i] {
            Some(SqlValueView::SysName(v)) => Some(v),
            _ => None,
        }
    } else {
        None
    }
}

pub open spec fn at_datetime(vs: Seq<Option<SqlValueView>>, i: int) -> Option<SqlDateTime> {
    if 0 <= i < vs.len() {
        match vs[i] {
            Some(SqlValueView::DateTime(v)) => Some(v),
            _ => None,
        }
    } else {
        None
    }
}

pub open spec fn at_varbinary(vs: Seq<Option<SqlValueView>>, i: int) -> Option<ValueOrLob<Seq<u8>>> {
    if 0 <= i < vs.len() {
        match vs[i] {
            Some(SqlValueView::VarBinary(v)) => Some(v),
            _ => None,
        }
    } else {
        None
    }
}

/// The view of an optional inline-or-LOB byte value.
pub open spec fn varbinary_view(v: Option<ValueOrLob<Vec<u8>>>) -> Option<ValueOrLob<Seq<u8>>> {
    match v {
        Some(ValueOrLob::Value(b)) => Some(ValueOrLob::Value(b@)),
        Some(ValueOrLob::Lob(l)) => Some(ValueOrLob::Lob(l)),
        None => None,
    }
}

/// The page pointer in a six-byte binary cell.
pub open spec fn binary_page_pointer(b: Option<Seq<u8>>) -> Option<Option<PagePointer>> {
    match b {
        Some(b) => if b.len() >= 6 { Some(spec_page_pointer(b, 0)) } else { None },
        None => None,
    }
}

fn tinyint_at(vs: &Vec<Option<SqlValue>>, i: usize) -> (r: Option<i8>)
    ensures
        r == at_tinyint(value_views(vs@), i as int),
{
    if i < vs.len() {
        if let Some(SqlValue::TinyInt(v)) = &vs[i] {
            return Some(*v);
        }
    }
    None
}

fn smallint_at(vs: &Vec<Option<SqlValue>>, i: usize) -> (r: Option<i16>)
    ensures
        r == at_smallint(value_views(vs@), i as int),
{
    if i < vs.len() {
        if let Some(SqlValue::SmallInt(v)) = &vs[i] {
            return Some(*v);
        }
    }
    None
}

fn int_at(vs: &Vec<Option<SqlValue>>, i: usize) -> (r: Option<i32>)
    ensures
        r == at_int(value_views(vs@), i as int),
{
    if i < vs.len() {
        if let Some(SqlValue::Int(v)) = &vs[i] {
            return Some(*v);
        }
    }
    None
}

fn bigint_at(vs: &Vec<Option<SqlValue>>, i: usize) -> (r: Option<i64>)
    ensures
        r == at_bigint(value_views(vs@), i as int),
{
    if i < vs.len() {
        if let Some(SqlValue::BigInt(v)) = &vs[i] {
            return Some(*v);
        }
    }
    None
}

fn binary_at(vs: &Vec<Option<SqlValue>>, i: usize) -> (r: Option<Vec<u8>>)
    ensures
        match r {
            Some(b) => at_binary(value_views(vs@), i as int) == Some(b@),
            None => at_binary(value_views(vs@), i as int) is None,
        },
{
    if i < vs.len() {
        if let Some(SqlValue::Binary(v)) = &vs[i] {
            return Some(copy_bytes(v.as_slice()));
        }
    }
    None
}

fn char_at(vs: &Vec<Option<SqlValue>>, i: usize) -> (r: Option<Vec<u8>>)
    ensures
        match r {
            Some(b) => at_char(value_views(vs@), i as int) == Some(b@),
            None => at_char(value_views(vs@), i as int) is None,
        },
{
    if i < vs.len() {
        if let Some(SqlValue::Char(v)) = &vs[i] {
            return Some(copy_bytes(v.as_slice()));
        }
    }
    None
}

fn sysname_at(vs: &Vec<Option<SqlValue>>, i: usize) -> (r: Option<String>)
    ensures
        match r {
            Some(s) => at_sysname(value_views(vs@), i as int) == Some(s@),
            None => at_sysname(value_views(vs@), i as int) is None,
        },
{
    if i < vs.len() {
        if let Some(SqlValue::SysName(v)) = &vs[i] {
            return Some(v.clone());
        }
    }
    None
}

fn datetime_at(vs: &Vec<Option<SqlValue>>, i: usize) -> (r: Option<SqlDateTime>)
    ensures
        r == at_datetime(value_views(vs@), i as int),
{
    if i < vs.len() {
        if let Some(SqlValue::DateTime(v)) = &vs[i] {
            return Some(*v);
        }
    }
    None
}

fn varbinary_at(vs: &Vec<Option<SqlValue>>, i: usize) -> (r: Option<ValueOrLob<Vec<u8>>>)
    ensures
        varbinary_view(r) == at_varbinary(value_views(vs@), i as int),
{
    if i < vs.len() {
        if let Some(SqlValue::VarBinary(v)) = &vs[i] {
            return match v {
                ValueOrLob::Value(b) => Some(ValueOrLob::Value(copy_bytes(b.as_slice()))),
                ValueOrLob::Lob(l) => Some(ValueOrLob::Lob(*l)),
            };
        }
    }
    None
}

/// The page pointer held by a six-byte binary cell.
fn page_pointer_of(b: Option<Vec<u8>>) -> (r: Option<Option<PagePointer>>)
    ensures
        r == binary_page_pointer(match b { Some(v) => Some(v@), None => None }),
{
    match b {
        Some(v) => if v.len() >= 6 { Some(PagePointer::parse(v.as_slice())) } else { None },
        None => None,
    }
}

/// A column of a catalog schema.
fn column(name: &str, data_type: SqlType, nullable: bool) -> (r: ColumnType)
    ensures
        r.data_type == data_type,
        !r.computed,
        r.nullable == nullable,
        r.name@ == name@,
{
    ColumnType { idx: 0, data_type, name: String::from_str(name), nullable, computed: false }
}

/// A row of the allocation-unit catalog table.
#[derive(Clone, Debug)]
pub struct SysAllocUnit {
    pub au_id: i64,
    pub ty: AllocUnitType,
    pub owner_id: i64,
    pub status: i32,
    pub fgid: i16,
    pub pg_first: Option<PagePointer>,
    pub pg_root: Option<PagePointer>,
    pub pg_firstiam: Option<PagePointer>,
    pub pc_used: i64,
    pub pc_data: i64,
    pub pc_reserved: i64,
    pub db_frag_id: Option<i32>,
}

/// The column types of the `alloc_unit` catalog table, none computed.
pub open spec fn spec_alloc_unit_kinds() -> Seq<(SqlType, bool)> {
    seq![
        (SqlType::BigInt, false),
        (SqlType::TinyInt, false),
        (SqlType::BigInt, false),
        (SqlType::Int, false),
        (SqlType::SmallInt, false),
        (SqlType::Binary(6), false),
        (SqlType::Binary(6), false),
        (SqlType::Binary(6), false),
        (SqlType::BigInt, false),
        (SqlType::BigInt, false),
        (SqlType::BigInt, false),
        (SqlType::Int, false),
    ]
}

/// Whether a decoded row holds every cell that a `SysAllocUnit` needs.
pub open spec fn spec_alloc_unit_ok(vs: Seq<Option<SqlValueView>>) -> bool {
    &&& at_bigint(vs, 0) is Some
    &&& at_tinyint(vs, 1) is Some && spec_alloc_unit_type(at_tinyint(vs, 1).unwrap()) is Some
    &&& at_bigint(vs, 2) is Some
    &&& at_int(vs, 3) is Some
    &&& at_smallint(vs, 4) is Some
    &&& binary_page_pointer(at_binary(vs, 5)) is Some
    &&& binary_page_pointer(at_binary(vs, 6)) is Some
    &&& binary_page_pointer(at_binary(vs, 7)) is Some
    &&& at_bigint(vs, 8) is Some
    &&& at_bigint(vs, 9) is Some
    &&& at_bigint(vs, 10) is Some
}

impl SysAllocUnit {
    /// Whether each field is the cell of the decoded row `vs` that it stands for.
    pub open spec fn matches_values(&self, vs: Seq<Option<SqlValueView>>) -> bool {
        &&& self.au_id == at_bigint(vs, 0).unwrap()
        &&& self.ty == spec_alloc_unit_type(at_tinyint(vs, 1).unwrap()).unwrap()
        &&& self.owner_id == at_bigint(vs, 2).unwrap()
        &&& self.status == at_int(vs, 3).unwrap()
        &&& self.fgid == at_smallint(vs, 4).unwrap()
        &&& self.pg_first == binary_page_pointer(at_binary(vs, 5)).unwrap()
        &&& self.pg_root == binary_page_pointer(at_binary(vs, 6)).unwrap()
        &&& self.pg_firstiam == binary_page_pointer(at_binary(vs, 7)).unwrap()
        &&& self.pc_used == at_bigint(vs, 8).unwrap()
        &&& self.pc_data == at_bigint(vs, 9).unwrap()
        &&& self.pc_reserved == at_bigint(vs, 10).unwrap()
        &&& self.db_frag_id == at_int(vs, 11)
    }

    /// The schema that `alloc_unit` rows are stored with.
    pub fn schema() -> (r: Schema)
        ensures
            column_kinds(r.columns@) == spec_alloc_unit_kinds(),
    {
        let mut columns: Vec<ColumnType> = Vec::new();
        columns.push(column("au_id", SqlType::BigInt, false));
        columns.push(column("ty", SqlType::TinyInt, false));
        columns.push(column("owner_id", SqlType::BigInt, false));
        columns.push(column("status", SqlType::Int, false));
        columns.push(column("fgid", SqlType::SmallInt, false));
        columns.push(column("pg_first", SqlType::Binary(6), false));
        columns.push(column("pg_root", SqlType::Binary(6), false));
        columns.push(column("pg_firstiam", SqlType::Binary(6), false));
        columns.push(column("pc_used", SqlType::BigInt, false));
        columns.push(column("pc_data", SqlType::BigInt, false));
        columns.push(column("pc_reserved", SqlType::BigInt, false));
        columns.push(column("db_frag_id", SqlType::Int, true));
        proof {
            assert(column_kinds(columns@) =~= spec_alloc_unit_kinds());
        }
        Schema { columns }
    }

    /// Decodes a `alloc_unit` row; `None` when the record does not decode
    /// under the schema or a required cell is null or out of range.
    pub fn parse(record: &Record) -> (r: Option<SysAllocUnit>)
        ensures
            r is Some <==> (spec_parse_row(spec_alloc_unit_kinds(), record@) matches Some(vs) && spec_alloc_unit_ok(vs)),
            r matches Some(x) ==> x.matches_values(spec_parse_row(spec_alloc_unit_kinds(), record@).unwrap()),
    {
        let schema = Self::schema();
        let row = match schema.parse(record) {
            Some(row) => row,
            None => {
                return None;
            },
        };
        let vs = &row.values;
        let au_id = match bigint_at(vs, 0) {
            Some(v) => v,
            None => {
                return None;
            },
        };
        let ty = match tinyint_at(vs, 1) {
            Some(v) => match AllocUnitType::parse(v) {
                Some(t) => t,
                None => {
                    return None;
                },
            },
            None => {
                return None;
            },
        };
        let owner_id = match bigint_at(vs, 2) {
            Some(v) => v,
            None => {
                return None;
            },
        };
        let status = match int_at(vs, 3) {
            Some(v) => v,
            None => {
                return None;
            },
        };
        let fgid = match smallint_at(vs, 4) {
            Some(v) => v,
            None => {
                return None;
            },
        };
        let pg_first = match page_pointer_of(binary_at(vs, 5)) {
            Some(p) => p,
            None => {
                return None;
            },
        };
        let pg_root = match page_pointer_of(binary_at(vs, 6)) {
            Some(p) => p,
            None => {
                return None;
            },
        };
        let pg_firstiam = match page_pointer_of(binary_at(vs, 7)) {
            Some(p) => p,
            None => {
                return None;
            },
        };
        let pc_used = match bigint_at(vs, 8) {
            Some(v) => v,
            None => {
                return None;
            },
        };
        let pc_data = match bigint_at(vs, 9) {
            Some(v) => v,
            None => {
                return None;
            },
        };
        let pc_reserved = match bigint_at(vs, 10) {
            Some(v) => v,
            None => {
                return None;
            },
        };
        let db_frag_id = int_at(vs, 11);
        Some(SysAllocUnit { au_id, ty, owner_id, status, fgid, pg_first, pg_root, pg_firstiam, pc_used, pc_data, pc_reserved, db_frag_id })
    }
}

/// A row of the row-set (partition) catalog table.
#[derive(Clone, Debug)]
pub struct SysRowSet {
    pub row_set_id: i64,
    pub owner_type: i8,
    pub id_major: i32,
    pub id_minor: i32,
    pub num_part: i32,
    pub status: i32,
    pub fgidfs: i16,
    pub rcrows: i64,
    pub cmpr_level: Option<i8>,
    pub fill_fact: Option<i8>,
    pub max_leaf: Option<i32>,
    pub max_int: Option<i16>,
    pub min_leaf: Option<i16>,
    pub min_int: Option<i16>,
    pub rs_guid: Option<ValueOrLob<Vec<u8>>>,
    pub lock_res: Option<ValueOrLob<Vec<u8>>>,
    pub db_frag_id: Option<i32>,
}

/// The column types of the `row_set` catalog table, none computed.
pub open spec fn spec_row_set_kinds() -> Seq<(SqlType, bool)> {
    seq![
        (SqlType::BigInt, false),
        (SqlType::TinyInt, false),
        (SqlType::Int, false),
        (SqlType::Int, false),
        (SqlType::Int, false),
        (SqlType::Int, false),
        (SqlType::SmallInt, false),
        (SqlType::BigInt, false),
        (SqlType::TinyInt, false),
        (SqlType::TinyInt, false),
        (SqlType::Int, false),
        (SqlType::SmallInt, false),
        (SqlType::SmallInt, false),
        (SqlType::SmallInt, false),
        (SqlType::VarBinary(None), false),
        (SqlType::VarBinary(None), false),
        (SqlType::Int, false),
    ]
}

/// Whether a decoded row holds every cell that a `SysRowSet` needs.
pub open spec fn spec_row_set_ok(vs: Seq<Option<SqlValueView>>) -> bool {
    &&& at_bigint(vs, 0) is Some
    &&& at_tinyint(vs, 1) is Some
    &&& at_int(vs, 2) is Some
    &&& at_int(vs, 3) is Some
    &&& at_int(vs, 4) is Some
    &&& at_int(vs, 5) is Some
    &&& at_smallint(vs, 6) is Some
    &&& at_bigint(vs, 7) is Some
}

impl SysRowSet {
    /// Whether each field is the cell of the decoded row `vs` that it stands for.
    pub open spec fn matches_values(&self, vs: Seq<Option<SqlValueView>>) -> bool {
        &&& self.row_set_id == at_bigint(vs, 0).unwrap()
        &&& self.owner_type == at_tinyint(vs, 1).unwrap()
        &&& self.id_major == at_int(vs, 2).unwrap()
        &&& self.id_minor == at_int(vs, 3).unwrap()
        &&& self.num_part == at_int(vs, 4).unwrap()
        &&& self.status == at_int(vs, 5).unwrap()
        &&& self.fgidfs == at_smallint(vs, 6).unwrap()
        &&& self.rcrows == at_bigint(vs, 7).unwrap()
        &&& self.cmpr_level == at_tinyint(vs, 8)
        &&& self.fill_fact == at_tinyint(vs, 9)
        &&& self.max_leaf == at_int(vs, 10)
        &&& self.max_int == at_smallint(vs, 11)
        &&& self.min_leaf == at_smallint(vs, 12)
        &&& self.min_int == at_smallint(vs, 13)
        &&& varbinary_view(self.rs_guid) == at_varbinary(vs, 14)
        &&& varbinary_view(self.lock_res) == at_varbinary(vs, 15)
        &&& self.db_frag_id == at_int(vs, 16)
    }

    /// The schema that `row_set` rows are stored with.
    pub fn schema() -> (r: Schema)
        ensures
            column_kinds(r.columns@) == spec_row_set_kinds(),
    {
        let mut columns: Vec<ColumnType> = Vec::new();
        columns.push(column("row_set_id", SqlType::BigInt, false));
        columns.push(column("owner_type", SqlType::TinyInt, false));
        columns.push(column("id_major", SqlType::Int, false));
        columns.push(column("id_minor", SqlType::Int, false));
        columns.push(column("num_part", SqlType::Int, false));
        columns.push(column("status", SqlType::Int, false));
        columns.push(column("fgidfs", SqlType::SmallInt, false));
        columns.push(column("rcrows", SqlType::BigInt, false));
        columns.push(column("cmpr_level", SqlType::TinyInt, true));
        columns.push(column("fill_fact", SqlType::TinyInt, true));
        columns.push(column("max_leaf", SqlType::Int, true));
        columns.push(column("max_int", SqlType::SmallInt, true));
        columns.push(column("min_leaf", SqlType::SmallInt, true));
        columns.push(column("min_int", SqlType::SmallInt, true));
        columns.push(column("rs_guid", SqlType::VarBinary(None), true));
        columns.push(column("lock_res", SqlType::VarBinary(None), true));
        columns.push(column("db_frag_id", SqlType::Int, true));
        proof {
            assert(column_kinds(columns@) =~= spec_row_set_kinds());
        }
        Schema { columns }
    }

    /// Decodes a `row_set` row; `None` when the record does not decode
    /// under the schema or a required cell is null or out of range.
    pub fn parse(record: &Record) -> (r: Option<SysRowSet>)
        ensures
            r is Some <==> (spec_parse_row(spec_row_set_kinds(), record@) matches Some(vs) && spec_row_set_ok(vs)),
            r matches Some(x) ==> x.matches_values(spec_parse_row(spec_row_set_kinds(), record@).unwrap()),
    {
        let schema = Self::schema();
        let row = match schema.parse(record) {
            Some(row) => row,
            None => {
                return None;
            },
        };
        let vs = &row.values;
        let row_set_id = match bigint_at(vs, 0) {
            Some(v) => v,
            None => {
                return None;
            },
        };
        let owner_type = match tinyint_at(vs, 1) {
            Some(v) => v,
            None => {
                return None;
            },
        };
        let id_major = match int_at(vs, 2) {
            Some(v) => v,
            None => {
                return None;
            },
        };
        let id_minor = match int_at(vs, 3) {
            Some(v) => v,
            None => {
                return None;
            },
        };
        let num_part = match int_at(vs, 4) {
            Some(v) => v,
            None => {
                return None;
            },
        };
        let status = match int_at(vs, 5) {
            Some(v) => v,
            None => {
                return None;
            },
        };
        let fgidfs = match smallint_at(vs, 6) {
            Some(v) => v,
            None => {
                return None;
            },
        };
        let rcrows = match bigint_at(vs, 7) {
            Some(v) => v,
            None => {
                return None;
            },
        };
        let cmpr_level = tinyint_at(vs, 8);
        let fill_fact = tinyint_at(vs, 9);
        let max_leaf = int_at(vs, 10);
        let max_int = smallint_at(vs, 11);
        let min_leaf = smallint_at(vs, 12);
        let min_int = smallint_at(vs, 13);
        let rs_guid = varbinary_at(vs, 14);
        let lock_res = varbinary_at(vs, 15);
        let db_frag_id = int_at(vs, 16);
        Some(SysRowSet { row_set_id, owner_type, id_major, id_minor, num_part, status, fgidfs, rcrows, cmpr_level, fill_fact, max_leaf, max_int, min_leaf, min_int, rs_guid, lock_res, db_frag_id })
    }
}

/// A row of the schema-objects catalog table.
#[derive(Clone, Debug)]
pub struct SysSchObj {
    pub id: i32,
    pub name: String,
    pub ns_id: i32,
    pub ns_class: i8,
    pub status: i32,
    pub ty: SchType,
    pub pid: i32,
    pub pcall: i8,
    pub int_prop: i32,
    pub created: SqlDateTime,
    pub modified: SqlDateTime,
}

/// The column types of the `sch_obj` catalog table, none computed.
pub open spec fn spec_sch_obj_kinds() -> Seq<(SqlType, bool)> {
    seq![
        (SqlType::Int, false),
        (SqlType::SysName, false),
        (SqlType::Int, false),
        (SqlType::TinyInt, false),
        (SqlType::Int, false),
        (SqlType::Char(2), false),
        (SqlType::Int, false),
        (SqlType::TinyInt, false),
        (SqlType::Int, false),
        (SqlType::DateTime, false),
        (SqlType::DateTime, false),
    ]
}

/// Whether a decoded row holds every cell that a `SysSchObj` needs.
pub open spec fn spec_sch_obj_ok(vs: Seq<Option<SqlValueView>>) -> bool {
    &&& at_int(vs, 0) is Some
    &&& at_sysname(vs, 1) is Some
    &&& at_int(vs, 2) is Some
    &&& at_tinyint(vs, 3) is Some
    &&& at_int(vs, 4) is Some
    &&& at_char(vs, 5) is Some && spec_sch_type(at_char(vs, 5).unwrap()) is Some
    &&& at_int(vs, 6) is Some
    &&& at_tinyint(vs, 7) is Some
    &&& at_int(vs, 8) is Some
    &&& at_datetime(vs, 9) is Some
    &&& at_datetime(vs, 10) is Some
}

impl SysSchObj {
    /// Whether each field is the cell of the decoded row `vs` that it stands for.
    pub open spec fn matches_values(&self, vs: Seq<Option<SqlValueView>>) -> bool {
        &&& self.id == at_int(vs, 0).unwrap()
        &&& self.name@ == at_sysname(vs, 1).unwrap()
        &&& self.ns_id == at_int(vs, 2).unwrap()
        &&& self.ns_class == at_tinyint(vs, 3).unwrap()
        &&& self.status == at_int(vs, 4).unwrap()
        &&& self.ty == spec_sch_type(at_char(vs, 5).unwrap()).unwrap()
        &&& self.pid == at_int(vs, 6).unwrap()
        &&& self.pcall == at_tinyint(vs, 7).unwrap()
        &&& self.int_prop == at_int(vs, 8).unwrap()
        &&& self.created == at_datetime(vs, 9).unwrap()
        &&& self.modified == at_datetime(vs, 10).unwrap()
    }

    /// The schema that `sch_obj` rows are stored with.
    pub fn schema() -> (r: Schema)
        ensures
            column_kinds(r.columns@) == spec_sch_obj_kinds(),
    {
        let mut columns: Vec<ColumnType> = Vec::new();
        columns.push(column("id", SqlType::Int, false));
        columns.push(column("name", SqlType::SysName, false));
        columns.push(column("ns_id", SqlType::Int, false));
        columns.push(column("ns_class", SqlType::TinyInt, false));
        columns.push(column("status", SqlType::Int, false));
        columns.push(column("ty", SqlType::Char(2), false));
        columns.push(column("pid", SqlType::Int, false));
        columns.push(column("pcall", SqlType::TinyInt, false));
        columns.push(column("int_prop", SqlType::Int, false));
        columns.push(column("created", SqlType::DateTime, false));
        columns.push(column("modified", SqlType::DateTime, false));
        proof {
            assert(column_kinds(columns@) =~= spec_sch_obj_kinds());
        }
        Schema { columns }
    }

    /// Decodes a `sch_obj` row; `None` when the record does not decode
    /// under the schema or a required cell is null or out of range.
    pub fn parse(record: &Record) -> (r: Option<SysSchObj>)
        ensures
            r is Some <==> (spec_parse_row(spec_sch_obj_kinds(), record@) matches Some(vs) && spec_sch_obj_ok(vs)),
            r matches Some(x) ==> x.matches_values(spec_parse_row(spec_sch_obj_kinds(), record@).unwrap()),
    {
        let schema = Self::schema();
        let row = match schema.parse(record) {
            Some(row) => row,
            None => {
                return None;
            },
        };
        let vs = &row.values;
        let id = match int_at(vs, 0) {
            Some(v) => v,
            None => {
                return None;
            },
        };
        let name = match sysname_at(vs, 1) {
            Some(v) => v,
            None => {
                return None;
            },
        };
        let ns_id = match int_at(vs, 2) {
            Some(v) => v,
            None => {
                return None;
            },
        };
        let ns_class = match tinyint_at(vs, 3) {
            Some(v) => v,
            None => {
                return None;
            },
        };
        let status = match int_at(vs, 4) {
            Some(v) => v,
            None => {
                return None;
            },
        };
        let ty = match char_at(vs, 5) {
            Some(v) => match SchType::parse(v.as_slice()) {
                Some(t) => t,
                None => {
                    return None;
                },
            },
            None => {
                return None;
            },
        };
        let pid = match int_at(vs, 6) {
            Some(v) => v,
            None => {
                return None;
            },
        };
        let pcall = match tinyint_at(vs, 7) {
            Some(v) => v,
            None => {
                return None;
            },
        };
        let int_prop = match int_at(vs, 8) {
            Some(v) => v,
            None => {
                return None;
            },
        };
        let created = match datetime_at(vs, 9) {
            Some(v) => v,
            None => {
                return None;
            },
        };
        let modified = match datetime_at(vs, 10) {
            Some(v) => v,
            None => {
                return None;
            },
        };
        Some(SysSchObj { id, name, ns_id, ns_class, status, ty, pid, pcall, int_prop, created, modified })
    }
}

/// A row of the column-parents catalog table.
#[derive(Clone, Debug)]
pub struct SysColPar {
    pub id: i32,
    pub number: i16,
    pub col_id: i32,
    pub name: Option<String>,
    pub xtype: i8,
    pub utype: i32,
    pub length: i16,
    pub prec: i8,
    pub scale: i8,
    pub collation_id: i32,
    pub status: i32,
    pub max_in_row: i16,
    pub xml_ns: i32,
    pub dflt: i32,
    pub chk: i32,
    pub idt_val: Option<ValueOrLob<Vec<u8>>>,
}

/// The column types of the `col_par` catalog table, none computed.
pub open spec fn spec_col_par_kinds() -> Seq<(SqlType, bool)> {
    seq![
        (SqlType::Int, false),
        (SqlType::SmallInt, false),
        (SqlType::Int, false),
        (SqlType::SysName, false),
        (SqlType::TinyInt, false),
        (SqlType::Int, false),
        (SqlType::SmallInt, false),
        (SqlType::TinyInt, false),
        (SqlType::TinyInt, false),
        (SqlType::Int, false),
        (SqlType::Int, false),
        (SqlType::SmallInt, false),
        (SqlType::Int, false),
        (SqlType::Int, false),
        (SqlType::Int, false),
        (SqlType::VarBinary(None), false),
    ]
}

/// Whether a decoded row holds every cell that a `SysColPar` needs.
pub open spec fn spec_col_par_ok(vs: Seq<Option<SqlValueView>>) -> bool {
    &&& at_int(vs, 0) is Some
    &&& at_smallint(vs, 1) is Some
    &&& at_int(vs, 2) is Some
    &&& at_tinyint(vs, 4) is Some
    &&& at_int(vs, 5) is Some
    &&& at_smallint(vs, 6) is Some
    &&& at_tinyint(vs, 7) is Some
    &&& at_tinyint(vs, 8) is Some
    &&& at_int(vs, 9) is Some
    &&& at_int(vs, 10) is Some
    &&& at_smallint(vs, 11) is Some
    &&& at_int(vs, 12) is Some
    &&& at_int(vs, 13) is Some
    &&& at_int(vs, 14) is Some
}

impl SysColPar {
    /// Whether each field is the cell of the decoded row `vs` that it stands for.
    pub open spec fn matches_values(&self, vs: Seq<Option<SqlValueView>>) -> bool {
        &&& self.id == at_int(vs, 0).unwrap()
        &&& self.number == at_smallint(vs, 1).unwrap()
        &&& self.col_id == at_int(vs, 2).unwrap()
        &&& (match self.name { Some(s) => at_sysname(vs, 3) == Some(s@), None => at_sysname(vs, 3) is None })
        &&& self.xtype == at_tinyint(vs, 4).unwrap()
        &&& self.utype == at_int(vs, 5).unwrap()
        &&& self.length == at_smallint(vs, 6).unwrap()
        &&& self.prec == at_tinyint(vs, 7).unwrap()
        &&& self.scale == at_tinyint(vs, 8).unwrap()
        &&& self.collation_id == at_int(vs, 9).unwrap()
        &&& self.status == at_int(vs, 10).unwrap()
        &&& self.max_in_row == at_smallint(vs, 11).unwrap()
        &&& self.xml_ns == at_int(vs, 12).unwrap()
        &&& self.dflt == at_int(vs, 13).unwrap()
        &&& self.chk == at_int(vs, 14).unwrap()
        &&& varbinary_view(self.idt_val) == at_varbinary(vs, 15)
    }

    /// The schema that `col_par` rows are stored with.
    pub fn schema() -> (r: Schema)
        ensures
            column_kinds(r.columns@) == spec_col_par_kinds(),
    {
        let mut columns: Vec<ColumnType> = Vec::new();
        columns.push(column("id", SqlType::Int, false));
        columns.push(column("number", SqlType::SmallInt, false));
        columns.push(column("col_id", SqlType::Int, false));
        columns.push(column("name", SqlType::SysName, true));
        columns.push(column("xtype", SqlType::TinyInt, false));
        columns.push(column("utype", SqlType::Int, false));
        columns.push(column("length", SqlType::SmallInt, false));
        columns.push(column("prec", SqlType::TinyInt, false));
        columns.push(column("scale", SqlType::TinyInt, false));
        columns.push(column("collation_id", SqlType::Int, false));
        columns.push(column("status", SqlType::Int, false));
        columns.push(column("max_in_row", SqlType::SmallInt, false));
        columns.push(column("xml_ns", SqlType::Int, false));
        columns.push(column("dflt", SqlType::Int, false));
        columns.push(column("chk", SqlType::Int, false));
        columns.push(column("idt_val", SqlType::VarBinary(None), true));
        proof {
            assert(column_kinds(columns@) =~= spec_col_par_kinds());
        }
        Schema { columns }
    }

    /// Decodes a `col_par` row; `None` when the record does not decode
    /// under the schema or a required cell is null or out of range.
    pub fn parse(record: &Record) -> (r: Option<SysColPar>)
        ensures
            r is Some <==> (spec_parse_row(spec_col_par_kinds(), record@) matches Some(vs) && spec_col_par_ok(vs)),
            r matches Some(x) ==> x.matches_values(spec_parse_row(spec_col_par_kinds(), record@).unwrap()),
    {
        let schema = Self::schema();
        let row = match schema.parse(record) {
            Some(row) => row,
            None => {
                return None;
            },
        };
        let vs = &row.values;
        let id = match int_at(vs, 0) {
            Some(v) => v,
            None => {
                return None;
            },
        };
        let number = match smallint_at(vs, 1) {
            Some(v) => v,
            None => {
                return None;
            },
        };
        let col_id = match int_at(vs, 2) {
            Some(v) => v,
            None => {
                return None;
            },
        };
        let name = sysname_at(vs, 3);
        let xtype = match tinyint_at(vs, 4) {
            Some(v) => v,
            None => {
                return None;
            },
        };
        let utype = match int_at(vs, 5) {
            Some(v) => v,
            None => {
                return None;
            },
        };
        let length = match smallint_at(vs, 6) {
            Some(v) => v,
            None => {
                return None;
            },
        };
        let prec = match tinyint_at(vs, 7) {
            Some(v) => v,
            None => {
                return None;
            },
        };
        let scale = match tinyint_at(vs, 8) {
            Some(v) => v,
            None => {
                return None;
            },
        };
        let collation_id = match int_at(vs, 9) {
            Some(v) => v,
            None => {
                return None;
            },
        };
        let status = match int_at(vs, 10) {
            Some(v) => v,
            None => {
                return None;
            },
        };
        let max_in_row = match smallint_at(vs, 11) {
            Some(v) => v,
            None => {
                return None;
            },
        };
        let xml_ns = match int_at(vs, 12) {
            Some(v) => v,
            None => {
                return None;
            },
        };
        let dflt = match int_at(vs, 13) {
            Some(v) => v,
            None => {
                return None;
            },
        };
        let chk = match int_at(vs, 14) {
            Some(v) => v,
            None => {
                return None;
            },
        };
        let idt_val = varbinary_at(vs, 15);
        Some(SysColPar { id, number, col_id, name, xtype, utype, length, prec, scale, collation_id, status, max_in_row, xml_ns, dflt, chk, idt_val })
    }
}

/// A row of the scalar-types catalog table.
#[derive(Clone, Debug)]
pub struct SysScalarType {
    pub id: i32,
    pub sch_id: i32,
    pub name: String,
    pub xtype: i8,
    pub length: i16,
    pub prec: i8,
    pub scale: i8,
    pub collation_id: i32,
    pub status: i32,
    pub created: SqlDateTime,
    pub modified: SqlDateTime,
    pub dflt: i32,
    pub chk: i32,
}

/// The column types of the `scalar_type` catalog table, none computed.
pub open spec fn spec_scalar_type_kinds() -> Seq<(SqlType, bool)> {
    seq![
        (SqlType::Int, false),
        (SqlType::Int, false),
        (SqlType::SysName, false),
        (SqlType::TinyInt, false),
        (SqlType::SmallInt, false),
        (SqlType::TinyInt, false),
        (SqlType::TinyInt, false),
        (SqlType::Int, false),
        (SqlType::Int, false),
        (SqlType::DateTime, false),
        (SqlType::DateTime, false),
        (SqlType::Int, false),
        (SqlType::Int, false),
    ]
}

/// Whether a decoded row holds every cell that a `SysScalarType` needs.
pub open spec fn spec_scalar_type_ok(vs: Seq<Option<SqlValueView>>) -> bool {
    &&& at_int(vs, 0) is Some
    &&& at_int(vs, 1) is Some
    &&& at_sysname(vs, 2) is Some
    &&& at_tinyint(vs, 3) is Some
    &&& at_smallint(vs, 4) is Some
    &&& at_tinyint(vs, 5) is Some
    &&& at_tinyint(vs, 6) is Some
    &&& at_int(vs, 7) is Some
    &&& at_int(vs, 8) is Some
    &&& at_datetime(vs, 9) is Some
    &&& at_datetime(vs, 10) is Some
    &&& at_int(vs, 11) is Some
    &&& at_int(vs, 12) is Some
}

impl SysScalarType {
    /// Whether each field is the cell of the decoded row `vs` that it stands for.
    pub open spec fn matches_values(&self, vs: Seq<Option<SqlValueView>>) -> bool {
        &&& self.id == at_int(vs, 0).unwrap()
        &&& self.sch_id == at_int(vs, 1).unwrap()
        &&& self.name@ == at_sysname(vs, 2).unwrap()
        &&& self.xtype == at_tinyint(vs, 3).unwrap()
        &&& self.length == at_smallint(vs, 4).unwrap()
        &&& self.prec == at_tinyint(vs, 5).unwrap()
        &&& self.scale == at_tinyint(vs, 6).unwrap()
        &&& self.collation_id == at_int(vs, 7).unwrap()
        &&& self.status == at_int(vs, 8).unwrap()
        &&& self.created == at_datetime(vs, 9).unwrap()
        &&& self.modified == at_datetime(vs, 10).unwrap()
        &&& self.dflt == at_int(vs, 11).unwrap()
        &&& self.chk == at_int(vs, 12).unwrap()
    }

    /// The schema that `scalar_type` rows are stored with.
    pub fn schema() -> (r: Schema)
        ensures
            column_kinds(r.columns@) == spec_scalar_type_kinds(),
    {
        let mut columns: Vec<ColumnType> = Vec::new();
        columns.push(column("id", SqlType::Int, false));
        columns.push(column("sch_id", SqlType::Int, false));
        columns.push(column("name", SqlType::SysName, false));
        columns.push(column("xtype", SqlType::TinyInt, false));
        columns.push(column("length", SqlType::SmallInt, false));
        columns.push(column("prec", SqlType::TinyInt, false));
        columns.push(column("scale", SqlType::TinyInt, false));
        columns.push(column("collation_id", SqlType::Int, false));
        columns.push(column("status", SqlType::Int, false));
        columns.push(column("created", SqlType::DateTime, false));
        columns.push(column("modified", SqlType::DateTime, false));
        columns.push(column("dflt", SqlType::Int, false));
        columns.push(column("chk", SqlType::Int, false));
        proof {
            assert(column_kinds(columns@) =~= spec_scalar_type_kinds());
        }
        Schema { columns }
    }

    /// Decodes a `scalar_type` row; `None` when the record does not decode
    /// under the schema or a required cell is null or out of range.
    pub fn parse(record: &Record) -> (r: Option<SysScalarType>)
        ensures
            r is Some <==> (spec_parse_row(spec_scalar_type_kinds(), record@) matches Some(vs) && spec_scalar_type_ok(vs)),
            r matches Some(x) ==> x.matches_values(spec_parse_row(spec_scalar_type_kinds(), record@).unwrap()),
    {
        let schema = Self::schema();
        let row = match schema.parse(record) {
            Some(row) => row,
            None => {
                return None;
            },
        };
        let vs = &row.values;
        let id = match int_at(vs, 0) {
            Some(v) => v,
            None => {
                return None;
            },
        };
        let sch_id = match int_at(vs, 1) {
            Some(v) => v,
            None => {
                return None;
            },
        };
        let name = match sysname_at(vs, 2) {
            Some(v) => v,
            None => {
                return None;
            },
        };
        let xtype = match tinyint_at(vs, 3) {
            Some(v) => v,
            None => {
                return None;
            },
        };
        let length = match smallint_at(vs, 4) {
            Some(v) => v,
            None => {
                return None;
            },
        };
        let prec = match tinyint_at(vs, 5) {
            Some(v) => v,
            None => {
                return None;
            },
        };
        let scale = match tinyint_at(vs, 6) {
            Some(v) => v,
            None => {
                return None;
            },
        };
        let collation_id = match int_at(vs, 7) {
            Some(v) => v,
            None => {
                return None;
            },
        };
        let status = match int_at(vs, 8) {
            Some(v) => v,
            None => {
                return None;
            },
        };
        let created = match datetime_at(vs, 9) {
            Some(v) => v,
            None => {
                return None;
            },
        };
        let modified = match datetime_at(vs, 10) {
            Some(v) => v,
            None => {
                return None;
            },
        };
        let dflt = match int_at(vs, 11) {
            Some(v) => v,
            None => {
                return None;
            },
        };
        let chk = match int_at(vs, 12) {
            Some(v) => v,
            None => {
                return None;
            },
        };
        Some(SysScalarType { id, sch_id, name, xtype, length, prec, scale, collation_id, status, created, modified, dflt, chk })
    }
}

/// A row of the single-object-references catalog table.
#[derive(Clone, Debug)]
pub struct SysSingleObjRef {
    pub class: i8,
    pub dep_id: i32,
    pub dep_sub_id: i32,
    pub in_dep_id: i32,
    pub in_dep_sub_id: i32,
    pub status: i32,
}

/// The column types of the `single_obj_ref` catalog table, none computed.
pub open spec fn spec_single_obj_ref_kinds() -> Seq<(SqlType, bool)> {
    seq![
        (SqlType::TinyInt, false),
        (SqlType::Int, false),
        (SqlType::Int, false),
        (SqlType::Int, false),
        (SqlType::Int, false),
        (SqlType::Int, false),
    ]
}

/// Whether a decoded row holds every cell that a `SysSingleObjRef` needs.
pub open spec fn spec_single_obj_ref_ok(vs: Seq<Option<SqlValueView>>) -> bool {
    &&& at_tinyint(vs, 0) is Some
    &&& at_int(vs, 1) is Some
    &&& at_int(vs, 2) is Some
    &&& at_int(vs, 3) is Some
    &&& at_int(vs, 4) is Some
    &&& at_int(vs, 5) is Some
}

impl SysSingleObjRef {
    /// Whether each field is the cell of the decoded row `vs` that it stands for.
    pub open spec fn matches_values(&self, vs: Seq<Option<SqlValueView>>) -> bool {
        &&& self.class == at_tinyint(vs, 0).unwrap()
        &&& self.dep_id == at_int(vs, 1).unwrap()
        &&& self.dep_sub_id == at_int(vs, 2).unwrap()
        &&& self.in_dep_id == at_int(vs, 3).unwrap()
        &&& self.in_dep_sub_id == at_int(vs, 4).unwrap()
        &&& self.status == at_int(vs, 5).unwrap()
    }

    /// The schema that `single_obj_ref` rows are stored with.
    pub fn schema() -> (r: Schema)
        ensures
            column_kinds(r.columns@) == spec_single_obj_ref_kinds(),
    {
        let mut columns: Vec<ColumnType> = Vec::new();
        columns.push(column("class", SqlType::TinyInt, false));
        columns.push(column("dep_id", SqlType::Int, false));
        columns.push(column("dep_sub_id", SqlType::Int, false));
        columns.push(column("in_dep_id", SqlType::Int, false));
        columns.push(column("in_dep_sub_id", SqlType::Int, false));
        columns.push(column("status", SqlType::Int, false));
        proof {
            assert(column_kinds(columns@) =~= spec_single_obj_ref_kinds());
        }
        Schema { columns }
    }

    /// Decodes a `single_obj_ref` row; `None` when the record does not decode
    /// under the schema or a required cell is null or out of range.
    pub fn parse(record: &Record) -> (r: Option<SysSingleObjRef>)
        ensures
            r is Some <==> (spec_parse_row(spec_single_obj_ref_kinds(), record@) matches Some(vs) && spec_single_obj_ref_ok(vs)),
            r matches Some(x) ==> x.matches_values(spec_parse_row(spec_single_obj_ref_kinds(), record@).unwrap()),
    {
        let schema = Self::schema();
        let row = match schema.parse(record) {
            Some(row) => row,
            None => {
                return None;
            },
        };
        let vs = &row.values;
        let class = match tinyint_at(vs, 0) {
            Some(v) => v,
            None => {
                return None;
            },
        };
        let dep_id = match int_at(vs, 1) {
            Some(v) => v,
            None => {
                return None;
            },
        };
        let dep_sub_id = match int_at(vs, 2) {
            Some(v) => v,
            None => {
                return None;
            },
        };
        let in_dep_id = match int_at(vs, 3) {
            Some(v) => v,
            None => {
                return None;
            },
        };
        let in_dep_sub_id = match int_at(vs, 4) {
            Some(v) => v,
            None => {
                return None;
            },
        };
        let status = match int_at(vs, 5) {
            Some(v) => v,
            None => {
                return None;
            },
        };
        Some(SysSingleObjRef { class, dep_id, dep_sub_id, in_dep_id, in_dep_sub_id, status })
    }
}

/// The decoded rows of the records that decode under the column kinds and
/// hold what `ok` asks, in record order; the others are left out.
pub open spec fn decoded_rows(
    kinds: Seq<(SqlType, bool)>,
    ok: spec_fn(Seq<Option<SqlValueView>>) -> bool,
    recs: Seq<RecordView>,
) -> Seq<Seq<Option<SqlValueView>>>
    decreases recs.len(),
{
    if recs.len() == 0 {
        Seq::empty()
    } else {
        let prev = decoded_rows(kinds, ok, recs.drop_last());
        match spec_parse_row(kinds, recs.last()) {
            Some(vs) => if ok(vs) { prev.push(vs) } else { prev },
            None => prev,
        }
    }
}

pub(crate) proof fn lemma_decoded_rows_step(
    kinds: Seq<(SqlType, bool)>,
    ok: spec_fn(Seq<Option<SqlValueView>>) -> bool,
    recs: Seq<RecordView>,
    i: int,
)
    requires
        0 <= i < recs.len(),
    ensures
        decoded_rows(kinds, ok, recs.subrange(0, i + 1)) == match spec_parse_row(kinds, recs[i]) {
            Some(vs) => if ok(vs) {
                decoded_rows(kinds, ok, recs.subrange(0, i)).push(vs)
            } else {
                decoded_rows(kinds, ok, recs.subrange(0, i))
            },
            None => decoded_rows(kinds, ok, recs.subrange(0, i)),
        },
{
    assert(recs.subrange(0, i + 1).drop_last() =~= recs.subrange(0, i));
}

/// Whether `xs` are the `alloc_unit` rows that the records `recs` decode to.
pub open spec fn alloc_units_decoded(xs: Seq<SysAllocUnit>, recs: Seq<RecordView>) -> bool {
    let rows = decoded_rows(spec_alloc_unit_kinds(), |vs: Seq<Option<SqlValueView>>| spec_alloc_unit_ok(vs), recs);
    &&& xs.len() == rows.len()
    &&& forall|i: int| 0 <= i < xs.len() ==> (#[trigger] xs[i]).matches_values(rows[i])
}

/// Decodes every record as a `alloc_unit` row, leaving out those that do not decode.
pub fn decode_alloc_units(recs: &Vec<Record>) -> (r: Vec<SysAllocUnit>)
    ensures
        alloc_units_decoded(r@, record_views(recs@)),
{
    let ghost rv = record_views(recs@);
    let ghost ok = |vs: Seq<Option<SqlValueView>>| spec_alloc_unit_ok(vs);
    let mut out: Vec<SysAllocUnit> = Vec::new();
    let mut i: usize = 0;
    while i < recs.len()
        invariant
            rv == record_views(recs@),
            ok == (|vs: Seq<Option<SqlValueView>>| spec_alloc_unit_ok(vs)),
            i <= recs@.len(),
            alloc_units_decoded(out@, rv.subrange(0, i as int)),
        decreases recs@.len() - i,
    {
        proof {
            lemma_decoded_rows_step(spec_alloc_unit_kinds(), ok, rv, i as int);
        }
        let x = SysAllocUnit::parse(&recs[i]);
        match x {
            Some(x) => {
                out.push(x);
            },
            None => {},
        }
        i = i + 1;
    }
    proof {
        assert(rv.subrange(0, rv.len() as int) =~= rv);
    }
    out
}

/// Whether `xs` are the `row_set` rows that the records `recs` decode to.
pub open spec fn row_sets_decoded(xs: Seq<SysRowSet>, recs: Seq<RecordView>) -> bool {
    let rows = decoded_rows(spec_row_set_kinds(), |vs: Seq<Option<SqlValueView>>| spec_row_set_ok(vs), recs);
    &&& xs.len() == rows.len()
    &&& forall|i: int| 0 <= i < xs.len() ==> (#[trigger] xs[i]).matches_values(rows[i])
}

/// Decodes every record as a `row_set` row, leaving out those that do not decode.
pub fn decode_row_sets(recs: &Vec<Record>) -> (r: Vec<SysRowSet>)
    ensures
        row_sets_decoded(r@, record_views(recs@)),
{
    let ghost rv = record_views(recs@);
    let ghost ok = |vs: Seq<Option<SqlValueView>>| spec_row_set_ok(vs);
    let mut out: Vec<SysRowSet> = Vec::new();
    let mut i: usize = 0;
    while i < recs.len()
        invariant
            rv == record_views(recs@),
            ok == (|vs: Seq<Option<SqlValueView>>| spec_row_set_ok(vs)),
            i <= recs@.len(),
            row_sets_decoded(out@, rv.subrange(0, i as int)),
        decreases recs@.len() - i,
    {
        proof {
            lemma_decoded_rows_step(spec_row_set_kinds(), ok, rv, i as int);
        }
        let x = SysRowSet::parse(&recs[i]);
        match x {
            Some(x) => {
                out.push(x);
            },
            None => {},
        }
        i = i + 1;
    }
    proof {
        assert(rv.subrange(0, rv.len() as int) =~= rv);
    }
    out
}

/// Whether `xs` are the `sch_obj` rows that the records `recs` decode to.
pub open spec fn sch_objs_decoded(xs: Seq<SysSchObj>, recs: Seq<RecordView>) -> bool {
    let rows = decoded_rows(spec_sch_obj_kinds(), |vs: Seq<Option<SqlValueView>>| spec_sch_obj_ok(vs), recs);
    &&& xs.len() == rows.len()
    &&& forall|i: int| 0 <= i < xs.len() ==> (#[trigger] xs[i]).matches_values(rows[i])
}

/// Decodes every record as a `sch_obj` row, leaving out those that do not decode.
pub fn decode_sch_objs(recs: &Vec<Record>) -> (r: Vec<SysSchObj>)
    ensures
        sch_objs_decoded(r@, record_views(recs@)),
{
    let ghost rv = record_views(recs@);
    let ghost ok = |vs: Seq<Option<SqlValueView>>| spec_sch_obj_ok(vs);
    let mut out: Vec<SysSchObj> = Vec::new();
    let mut i: usize = 0;
    while i < recs.len()
        invariant
            rv == record_views(recs@),
            ok == (|vs: Seq<Option<SqlValueView>>| spec_sch_obj_ok(vs)),
            i <= recs@.len(),
            sch_objs_decoded(out@, rv.subrange(0, i as int)),
        decreases recs@.len() - i,
    {
        proof {
            lemma_decoded_rows_step(spec_sch_obj_kinds(), ok, rv, i as int);
        }
        let x = SysSchObj::parse(&recs[i]);
        match x {
            Some(x) => {
                out.push(x);
            },
            None => {},
        }
        i = i + 1;
    }
    proof {
        assert(rv.subrange(0, rv.len() as int) =~= rv);
    }
    out
}

/// Whether `xs` are the `col_par` rows that the records `recs` decode to.
pub open spec fn col_pars_decoded(xs: Seq<SysColPar>, recs: Seq<RecordView>) -> bool {
    let rows = decoded_rows(spec_col_par_kinds(), |vs: Seq<Option<SqlValueView>>| spec_col_par_ok(vs), recs);
    &&& xs.len() == rows.len()
    &&& forall|i: int| 0 <= i < xs.len() ==> (#[trigger] xs[i]).matches_values(rows[i])
}

/// Decodes every record as a `col_par` row, leaving out those that do not decode.
pub fn decode_col_pars(recs: &Vec<Record>) -> (r: Vec<SysColPar>)
    ensures
        col_pars_decoded(r@, record_views(recs@)),
{
    let ghost rv = record_views(recs@);
    let ghost ok = |vs: Seq<Option<SqlValueView>>| spec_col_par_ok(vs);
    let mut out: Vec<SysColPar> = Vec::new();
    let mut i: usize = 0;
    while i < recs.len()
        invariant
            rv == record_views(recs@),
            ok == (|vs: Seq<Option<SqlValueView>>| spec_col_par_ok(vs)),
            i <= recs@.len(),
            col_pars_decoded(out@, rv.subrange(0, i as int)),
        decreases recs@.len() - i,
    {
        proof {
            lemma_decoded_rows_step(spec_col_par_kinds(), ok, rv, i as int);
        }
        let x = SysColPar::parse(&recs[i]);
        match x {
            Some(x) => {
                out.push(x);
            },
            None => {},
        }
        i = i + 1;
    }
    proof {
        assert(rv.subrange(0, rv.len() as int) =~= rv);
    }
    out
}

/// Whether `xs` are the `scalar_type` rows that the records `recs` decode to.
pub open spec fn scalar_types_decoded(xs: Seq<SysScalarType>, recs: Seq<RecordView>) -> bool {
    let rows = decoded_rows(spec_scalar_type_kinds(), |vs: Seq<Option<SqlValueView>>| spec_scalar_type_ok(vs), recs);
    &&& xs.len() == rows.len()
    &&& forall|i: int| 0 <= i < xs.len() ==> (#[trigger] xs[i]).matches_values(rows[i])
}

/// Decodes every record as a `scalar_type` row, leaving out those that do not decode.
pub fn decode_scalar_types(recs: &Vec<Record>) -> (r: Vec<SysScalarType>)
    ensures
        scalar_types_decoded(r@, record_views(recs@)),
{
    let ghost rv = record_views(recs@);
    let ghost ok = |vs: Seq<Option<SqlValueView>>| spec_scalar_type_ok(vs);
    let mut out: Vec<SysScalarType> = Vec::new();
    let mut i: usize = 0;
    while i < recs.len()
        invariant
            rv == record_views(recs@),
            ok == (|vs: Seq<Option<SqlValueView>>| spec_scalar_type_ok(vs)),
            i <= recs@.len(),
            scalar_types_decoded(out@, rv.subrange(0, i as int)),
        decreases recs@.len() - i,
    {
        proof {
            lemma_decoded_rows_step(spec_scalar_type_kinds(), ok, rv, i as int);
        }
        let x = SysScalarType::parse(&recs[i]);
        match x {
            Some(x) => {
                out.push(x);
            },
            None => {},
        }
        i = i + 1;
    }
    proof {
        assert(rv.subrange(0, rv.len() as int) =~= rv);
    }
    out
}

/// Whether `xs` are the `single_obj_ref` rows that the records `recs` decode to.
pub open spec fn single_object_refs_decoded(xs: Seq<SysSingleObjRef>, recs: Seq<RecordView>) -> bool {
    let rows = decoded_rows(spec_single_obj_ref_kinds(), |vs: Seq<Option<SqlValueView>>| spec_single_obj_ref_ok(vs), recs);
    &&& xs.len() == rows.len()
    &&& forall|i: int| 0 <= i < xs.len() ==> (#[trigger] xs[i]).matches_values(rows[i])
}

/// Decodes every record as a `single_obj_ref` row, leaving out those that do not decode.
pub fn decode_single_object_refs(recs: &Vec<Record>) -> (r: Vec<SysSingleObjRef>)
    ensures
        single_object_refs_decoded(r@, record_views(recs@)),
{
    let ghost rv = record_views(recs@);
    let ghost ok = |vs: Seq<Option<SqlValueView>>| spec_single_obj_ref_ok(vs);
    let mut out: Vec<SysSingleObjRef> = Vec::new();
    let mut i: usize = 0;
    while i < recs.len()
        invariant
            rv == record_views(recs@),
            ok == (|vs: Seq<Option<SqlValueView>>| spec_single_obj_ref_ok(vs)),
            i <= recs@.len(),
            single_object_refs_decoded(out@, rv.subrange(0, i as int)),
        decreases recs@.len() - i,
    {
        proof {
            lemma_decoded_rows_step(spec_single_obj_ref_kinds(), ok, rv, i as int);
        }
        let x = SysSingleObjRef::parse(&recs[i]);
        match x {
            Some(x) => {
                out.push(x);
            },
            None => {},
        }
        i = i + 1;
    }
    proof {
        assert(rv.subrange(0, rv.len() as int) =~= rv);
    }
    out
}

} // verus!
