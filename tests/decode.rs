use mdf::{AllocUnitType, SchType, ToSqlType};
use mdf::system_tables::{COLPAR_COMPUTED, COLPAR_NULLABLE, COLPAR_SPARSE, COLPAR_XML_DOCUMENT};
use mdf::{
    datetime_from_parts, BitParser, ColumnType, LobPointer, PagePointer, Record, RecordPointer,
    Schema, SqlDateTime, SqlType, SqlValue, SysColPar, SysScalarType, ValueOrLob, MILLIS_PER_DAY,
};

fn column(t: SqlType) -> ColumnType {
    ColumnType { idx: 0, data_type: t, name: String::from("c"), nullable: true, computed: false }
}

fn schema(types: Vec<SqlType>) -> Schema {
    Schema { columns: types.into_iter().map(column).collect() }
}

/// A primary record: tag bits, fixed data, column count, optional null
/// bitmap, optional variable-length columns (complex flag, payload).
fn record(fixed: &[u8], column_count: u16, bitmap: Option<&[u8]>, vars: Option<Vec<(bool, Vec<u8>)>>) -> Vec<u8> {
    let mut tag = 0u8;
    if bitmap.is_some() {
        tag |= 1;
    }
    if vars.is_some() {
        tag |= 2;
    }
    let mut r = vec![tag << 4, 0];
    r.extend_from_slice(&((4 + fixed.len()) as u16).to_le_bytes());
    r.extend_from_slice(fixed);
    r.extend_from_slice(&column_count.to_le_bytes());
    if let Some(b) = bitmap {
        r.extend_from_slice(b);
    }
    if let Some(vs) = vars {
        r.extend_from_slice(&(vs.len() as u16).to_le_bytes());
        let mut end = r.len() + 2 * vs.len();
        for (complex, data) in &vs {
            end += data.len();
            let v = end as u16 | if *complex { 0x8000 } else { 0 };
            r.extend_from_slice(&v.to_le_bytes());
        }
        for (_, data) in &vs {
            r.extend_from_slice(data);
        }
    }
    r
}

fn lob_pointer_bytes(page_id: u32, file_id: u16, slot: u16) -> Vec<u8> {
    let mut b = Vec::new();
    b.extend_from_slice(&7u32.to_le_bytes());
    b.extend_from_slice(&[0, 0, 0, 0]);
    b.extend_from_slice(&page_id.to_le_bytes());
    b.extend_from_slice(&file_id.to_le_bytes());
    b.extend_from_slice(&slot.to_le_bytes());
    b
}

fn utf16(s: &str) -> Vec<u8> {
    s.encode_utf16().flat_map(|u| u.to_le_bytes()).collect()
}

#[test]
fn int_null_nvarchar_and_complex_varbinary() {
    let ptr = lob_pointer_bytes(120, 1, 3);
    let bytes = record(&1234i32.to_le_bytes(), 3, Some(&[0b010]), Some(vec![(true, ptr.clone())]));
    let rec = Record::parse(&bytes, false, 0).unwrap();
    let (complex, data) = rec.var_length_columns.as_ref().unwrap().get(0);
    assert!(complex);
    assert_eq!(data.len(), 16);
    let s = schema(vec![SqlType::Int, SqlType::NVarChar, SqlType::VarBinary(None)]);
    let row = s.parse(&rec).unwrap();
    assert_eq!(row.values.len(), 3);
    assert!(matches!(row.values[0], Some(SqlValue::Int(1234))));
    assert!(row.values[1].is_none());
    let expected = LobPointer {
        timestamp: 7,
        ptr: RecordPointer { page_ptr: PagePointer { page_id: 120, file_id: 1 }, slot_id: 3 },
    };
    match &row.values[2] {
        Some(SqlValue::VarBinary(ValueOrLob::Lob(p))) => assert_eq!(*p, expected),
        _ => panic!("expected an out-of-row varbinary"),
    }
}

#[test]
fn nine_packed_bits() {
    let bytes = record(&[0b1010_1010, 0b0000_0001], 9, None, None);
    let rec = Record::parse(&bytes, false, 0).unwrap();
    let s = schema(vec![SqlType::Bit; 9]);
    let row = s.parse(&rec).unwrap();
    let bits: Vec<bool> = row
        .values
        .iter()
        .map(|v| match v {
            Some(SqlValue::Bit(b)) => *b,
            _ => panic!("expected a bit"),
        })
        .collect();
    assert_eq!(bits, vec![false, true, false, true, false, true, false, true, true]);
}

#[test]
fn datetime_end_of_day_is_next_midnight() {
    let dt = datetime_from_parts(25_920_000, 44_927);
    assert_eq!(dt, SqlDateTime { millis: 44_928 * MILLIS_PER_DAY });
    let mut fixed = Vec::new();
    fixed.extend_from_slice(&25_920_000i32.to_le_bytes());
    fixed.extend_from_slice(&44_927i32.to_le_bytes());
    let mut bp = BitParser::new();
    let mut pos = 0usize;
    match SqlType::DateTime.parse(&mut bp, &fixed, &mut pos) {
        Some(SqlValue::DateTime(d)) => assert_eq!(d.millis, 3_881_779_200_000),
        _ => panic!("expected a datetime"),
    }
    assert_eq!(pos, 8);
}

#[test]
fn datetime_ignores_out_of_range_dates() {
    assert_eq!(datetime_from_parts(300, 0).millis, 1000);
    assert_eq!(datetime_from_parts(300, -5).millis, 1000);
    assert_eq!(datetime_from_parts(300, 1_000_000).millis, 1000);
    assert_eq!(datetime_from_parts(-300, 2).millis, 2 * MILLIS_PER_DAY - 1000);
    assert_eq!(datetime_from_parts(1, 0).millis, 3);
}

#[test]
fn smalldatetime_counts_minutes() {
    let mut fixed = Vec::new();
    fixed.extend_from_slice(&90u16.to_le_bytes());
    fixed.extend_from_slice(&2u16.to_le_bytes());
    let mut bp = BitParser::new();
    let mut pos = 0usize;
    match SqlType::SmallDateTime.parse(&mut bp, &fixed, &mut pos) {
        Some(SqlValue::DateTime(d)) => assert_eq!(d.millis, 2 * MILLIS_PER_DAY + 90 * 60_000),
        _ => panic!("expected a datetime"),
    }
}

#[test]
fn fixed_values_little_endian() {
    let mut fixed = vec![0xff];
    fixed.extend_from_slice(&(-2i16).to_le_bytes());
    fixed.extend_from_slice(&(-3i64).to_le_bytes());
    fixed.extend_from_slice(&1.5f64.to_le_bytes());
    fixed.extend_from_slice(&0x0102_0304_0506_0708_090a_0b0c_0d0e_0f10u128.to_le_bytes());
    fixed.extend_from_slice(b"ab");
    fixed.extend_from_slice(&utf16("hi"));
    fixed.extend_from_slice(&[9, 8, 7]);
    let bytes = record(&fixed, 8, None, None);
    let rec = Record::parse(&bytes, false, 0).unwrap();
    let s = schema(vec![
        SqlType::TinyInt,
        SqlType::SmallInt,
        SqlType::BigInt,
        SqlType::Float,
        SqlType::UniqueIdentifier,
        SqlType::Char(2),
        SqlType::NChar(4),
        SqlType::Binary(3),
    ]);
    let row = s.parse(&rec).unwrap();
    assert!(matches!(row.values[0], Some(SqlValue::TinyInt(-1))));
    assert!(matches!(row.values[1], Some(SqlValue::SmallInt(-2))));
    assert!(matches!(row.values[2], Some(SqlValue::BigInt(-3))));
    match &row.values[3] {
        Some(SqlValue::Float(bits)) => assert_eq!(f64::from_bits(*bits), 1.5),
        _ => panic!("expected a float"),
    }
    let uid = row.values[4].clone().unwrap().unwrap_unique_identifier();
    assert_eq!(uid, 0x0102_0304_0506_0708_090a_0b0c_0d0e_0f10);
    assert!(matches!(&row.values[5], Some(SqlValue::Char(c)) if c == b"ab"));
    assert!(matches!(&row.values[6], Some(SqlValue::NChar(n)) if n == "hi"));
    assert!(matches!(&row.values[7], Some(SqlValue::Binary(b)) if b == &vec![9, 8, 7]));
}

#[test]
fn fixed_value_past_the_data_fails_the_row() {
    let bytes = record(&[1, 2], 1, None, None);
    let rec = Record::parse(&bytes, false, 0).unwrap();
    assert!(schema(vec![SqlType::Int]).parse(&rec).is_none());
}

#[test]
fn trailing_columns_past_column_count_are_null() {
    let bytes = record(&5i32.to_le_bytes(), 1, None, None);
    let rec = Record::parse(&bytes, false, 0).unwrap();
    let row = schema(vec![SqlType::Int, SqlType::Int, SqlType::NVarChar]).parse(&rec).unwrap();
    assert_eq!(row.values[0].clone().unwrap().unwrap_int(), 5);
    assert!(row.values[1].is_none());
    assert!(row.values[2].is_none());
}

#[test]
fn computed_column_takes_no_index() {
    let bytes = record(&5i32.to_le_bytes(), 1, None, None);
    let rec = Record::parse(&bytes, false, 0).unwrap();
    let mut s = schema(vec![SqlType::Int, SqlType::Int]);
    s.columns[0].computed = true;
    let row = s.parse(&rec).unwrap();
    assert!(row.values[0].is_none());
    assert_eq!(row.values[1].clone().unwrap().unwrap_int(), 5);
}

#[test]
fn var_column_without_block_is_empty() {
    let bytes = record(&[], 1, None, None);
    let rec = Record::parse(&bytes, false, 0).unwrap();
    let row = schema(vec![SqlType::NVarChar]).parse(&rec).unwrap();
    assert_eq!(row.values[0].clone().unwrap().unwrap_nvar_char_in_row(), "");
}

#[test]
fn inline_text_and_bytes() {
    let bytes = record(&[], 3, None, Some(vec![(false, utf16("name")), (false, b"xyz".to_vec()), (false, utf16("ab"))]));
    let rec = Record::parse(&bytes, false, 0).unwrap();
    let row = schema(vec![SqlType::SysName, SqlType::VarChar(Some(2)), SqlType::NVarChar]).parse(&rec).unwrap();
    assert!(matches!(&row.values[0], Some(SqlValue::SysName(n)) if n == "name"));
    assert!(matches!(&row.values[1], Some(SqlValue::VarChar(b)) if b == b"xyz"));
    assert_eq!(row.values[2].clone().unwrap().unwrap_nvar_char_in_row(), "ab");
}

#[test]
fn var_length_layout_refusals() {
    let ptr = lob_pointer_bytes(1, 1, 0);
    assert!(SqlType::VarChar(None).parse_var_length(true, b"ab").is_none());
    assert!(SqlType::SysName.parse_var_length(true, &utf16("a")).is_none());
    assert!(SqlType::SqlVariant.parse_var_length(true, b"a").is_none());
    assert!(SqlType::Image.parse_var_length(false, &ptr).is_none());
    assert!(SqlType::Image.parse_var_length(true, &ptr[..15]).is_none());
    assert!(SqlType::Int.parse_var_length(false, b"").is_none());
    assert!(matches!(SqlType::Image.parse_var_length(false, b""), Some(SqlValue::Image(None))));
    assert!(matches!(SqlType::NText.parse_var_length(true, &ptr), Some(SqlValue::NText(Some(_)))));
    assert!(matches!(SqlType::NVarChar.parse_var_length(true, &ptr), Some(SqlValue::NVarChar(ValueOrLob::Lob(_)))));
    assert!(matches!(SqlType::VarBinary(Some(1)).parse_var_length(false, b"long"), Some(SqlValue::VarBinary(ValueOrLob::Value(v))) if v.len() == 4));
}

#[test]
fn fixed_path_refuses_var_types() {
    let mut bp = BitParser::new();
    let mut pos = 0usize;
    assert!(SqlType::NVarChar.parse(&mut bp, &[1, 2, 3], &mut pos).is_none());
    assert!(SqlType::NVarChar.is_var_length());
    assert!(!SqlType::Bit.is_var_length());
}

#[test]
fn bit_parser_fetches_bytes_lazily() {
    let data = [0b0000_0011u8, 0b0000_0001];
    let mut bp = BitParser::new();
    let mut pos = 0usize;
    assert_eq!(bp.read_bit(&data, &mut pos), Some(true));
    assert_eq!(pos, 1);
    assert_eq!(bp.read_bit(&data, &mut pos), Some(true));
    for _ in 0..6 {
        assert_eq!(bp.read_bit(&data, &mut pos), Some(false));
    }
    assert_eq!(pos, 1);
    assert_eq!(bp.read_bit(&data, &mut pos), Some(true));
    assert_eq!(pos, 2);
    let mut empty = BitParser::new();
    let mut pg_a = 0usize;
    assert_eq!(empty.read_bit(&[], &mut pg_a), None);
}

fn col_par(col_id: i32, name: Option<&str>, xtype: i8, length: i16, status: i32) -> SysColPar {
    SysColPar {
        id: 100,
        number: 0,
        col_id,
        name: name.map(String::from),
        xtype,
        utype: 0,
        length,
        prec: 0,
        scale: 0,
        collation_id: 0,
        status,
        max_in_row: 0,
        xml_ns: 0,
        dflt: 0,
        chk: 0,
        idt_val: None,
    }
}

fn scalar(name: &str, xtype: i8) -> SysScalarType {
    SysScalarType {
        id: xtype as i32,
        sch_id: 4,
        name: String::from(name),
        xtype,
        length: 0,
        prec: 0,
        scale: 0,
        collation_id: 0,
        status: 0,
        created: SqlDateTime { millis: 0 },
        modified: SqlDateTime { millis: 0 },
        dflt: 0,
        chk: 0,
    }
}

#[test]
fn column_types_from_catalog_names() {
    let c = col_par(1, Some("a"), 0, 10, 0);
    assert_eq!(SqlType::from_col(&c, &scalar("int", 56)), Some(SqlType::Int));
    assert_eq!(SqlType::from_col(&c, &scalar("varchar", 56)), Some(SqlType::VarChar(Some(10))));
    assert_eq!(SqlType::from_col(&c, &scalar("nchar", 56)), Some(SqlType::NChar(10)));
    assert_eq!(SqlType::from_col(&c, &scalar("smalldatetime", 56)), Some(SqlType::SmallDateTime));
    assert_eq!(SqlType::from_col(&c, &scalar("xml", 56)), None);
}

#[test]
fn schema_sorts_by_column_id() {
    let a = col_par(3, Some("c"), 56, 4, COLPAR_NULLABLE);
    let b = col_par(1, Some("a"), 56, 4, 0);
    let c = col_par(2, Some("b"), 56, 4, COLPAR_COMPUTED);
    let t = scalar("int", 56);
    let s = Schema::from_col_par(&vec![(&a, &t), (&b, &t), (&c, &t)]).unwrap();
    let ids: Vec<i32> = s.columns.iter().map(|c| c.idx).collect();
    assert_eq!(ids, vec![1, 2, 3]);
    assert_eq!(s.columns[0].name, "a");
    assert!(s.columns[1].computed);
    assert!(s.columns[2].nullable);
    assert!(!s.columns[0].nullable);
}

#[test]
fn schema_refuses_sparse_xml_and_unnamed_columns() {
    let t = scalar("int", 56);
    let sparse = col_par(1, Some("a"), 56, 4, COLPAR_SPARSE);
    assert!(Schema::from_col_par(&vec![(&sparse, &t)]).is_none());
    let xml = col_par(1, Some("a"), 56, 4, COLPAR_XML_DOCUMENT);
    assert!(Schema::from_col_par(&vec![(&xml, &t)]).is_none());
    let unnamed = col_par(1, None, 56, 4, 0);
    assert!(Schema::from_col_par(&vec![(&unnamed, &t)]).is_none());
    assert!(Schema::from_col_par(&vec![]).unwrap().columns.is_empty());
}

#[test]
fn value_or_lob_map_keeps_pointer() {
    let v: ValueOrLob<u8> = ValueOrLob::Value(3);
    assert!(matches!(v.map(|x| x as u32 + 1), ValueOrLob::Value(4)));
    let p = LobPointer {
        timestamp: 1,
        ptr: RecordPointer { page_ptr: PagePointer { page_id: 1, file_id: 1 }, slot_id: 0 },
    };
    let l: ValueOrLob<u8> = ValueOrLob::Lob(p);
    assert!(matches!(l.map(|x| x as u32 + 1), ValueOrLob::Lob(q) if q == p));
}

#[test]
fn lob_pointer_parse() {
    let b = lob_pointer_bytes(9, 2, 4);
    let p = LobPointer::parse(&b).unwrap();
    assert_eq!(p.timestamp, 7);
    assert_eq!(p.ptr.page_ptr, PagePointer { page_id: 9, file_id: 2 });
    assert_eq!(p.ptr.slot_id, 4);
    assert!(LobPointer::parse(&b[..15]).is_none());
    assert!(LobPointer::parse(&lob_pointer_bytes(9, 0, 4)).is_none());
}

#[test]
fn catalog_codes_parse() {
    assert_eq!(AllocUnitType::parse(1), Some(AllocUnitType::InRowData));
    assert_eq!(AllocUnitType::parse(3), Some(AllocUnitType::RowOverflowData));
    assert_eq!(AllocUnitType::parse(4), None);
    assert_eq!(SchType::parse(b"U "), Some(SchType::UserTable));
    assert_eq!(SchType::parse(b"S "), Some(SchType::SystemTable));
    assert_eq!(SchType::parse(b"TR"), Some(SchType::Trigger));
    assert_eq!(SchType::parse(b"ZZ"), None);
    assert_eq!(SchType::parse(b"U"), None);
    assert_eq!(<i16 as ToSqlType>::to_sql_type(), SqlType::SmallInt);
    assert_eq!(<ValueOrLob<Vec<u8>> as ToSqlType>::to_sql_type(), SqlType::VarBinary(None));
}

#[test]
fn reparsing_gives_equal_rows() {
    let bytes = record(&[0b0000_0101, 9, 0, 0, 0], 2, None, None);
    let s = schema(vec![SqlType::Bit, SqlType::Bit]);
    let a = s.parse(&Record::parse(&bytes, false, 0).unwrap()).unwrap();
    let b = s.parse(&Record::parse(&bytes, false, 0).unwrap()).unwrap();
    let show = |r: &mdf::Row| format!("{:?}", r.values);
    assert_eq!(show(&a), show(&b));
    assert!(matches!(a.values[0], Some(SqlValue::Bit(true))));
    assert!(matches!(a.values[1], Some(SqlValue::Bit(false))));
}
