use mdf::{
    AllocUnitType, BootPage, MemFile, MemPageProvider, PagePointer, PageProvider, SchType, Schema,
    SqlType, SqlValue, SystemTables, Table, ColumnType, DB, PAGE_SIZE, Row,
};

fn provider(files: Vec<(u16, Vec<Vec<u8>>)>) -> MemPageProvider {
    MemPageProvider {
        files: files.into_iter().map(|(file_id, pages)| MemFile { file_id, pages }).collect(),
    }
}

fn page(file_id: u16, page_id: u32, ty: u8, p_min_len: u16, records: &[Vec<u8>]) -> Vec<u8> {
    let mut b = vec![0u8; PAGE_SIZE];
    b[1] = ty;
    b[14..16].copy_from_slice(&p_min_len.to_le_bytes());
    b[22..24].copy_from_slice(&(records.len() as u16).to_le_bytes());
    b[32..36].copy_from_slice(&page_id.to_le_bytes());
    b[36..38].copy_from_slice(&file_id.to_le_bytes());
    let mut at = 96;
    for (i, r) in records.iter().enumerate() {
        b[at..at + r.len()].copy_from_slice(r);
        b[PAGE_SIZE - 2 * (i + 1)..PAGE_SIZE - 2 * i].copy_from_slice(&(at as u16).to_le_bytes());
        at += r.len();
    }
    b
}

fn record(fixed: &[u8], column_count: u16, bitmap: Option<&[u8]>, vars: Option<Vec<Vec<u8>>>) -> Vec<u8> {
    let mut tag = 0u8;
    if bitmap.is_some() {
        tag |= 1;
    }
    if vars.is_some() {
        tag |= 2;
    }
    let mut r = vec![tag << 4, 0];
    r.extend_from_slice(&((4 + fixed.len()) as u16).to_le_bytes());
    r.extend_from_slice(fixed);
    r.extend_from_slice(&column_count.to_le_bytes());
    if let Some(b) = bitmap {
        r.extend_from_slice(b);
    }
    if let Some(vs) = vars {
        r.extend_from_slice(&(vs.len() as u16).to_le_bytes());
        let mut end = r.len() + 2 * vs.len();
        for data in &vs {
            end += data.len();
            r.extend_from_slice(&(end as u16).to_le_bytes());
        }
        for data in &vs {
            r.extend_from_slice(data);
        }
    }
    r
}

fn utf16(s: &str) -> Vec<u8> {
    s.encode_utf16().flat_map(|u| u.to_le_bytes()).collect()
}

fn ptr6(page_id: u32, file_id: u16) -> Vec<u8> {
    let mut b = page_id.to_le_bytes().to_vec();
    b.extend_from_slice(&file_id.to_le_bytes());
    b
}

fn alloc_unit(au_id: i64, owner_id: i64, first: u32) -> Vec<u8> {
    let mut f = au_id.to_le_bytes().to_vec();
    f.push(1);
    f.extend_from_slice(&owner_id.to_le_bytes());
    f.extend_from_slice(&0i32.to_le_bytes());
    f.extend_from_slice(&1i16.to_le_bytes());
    f.extend_from_slice(&ptr6(first, 1));
    f.extend_from_slice(&ptr6(0, 0));
    f.extend_from_slice(&ptr6(0, 0));
    for _ in 0..3 {
        f.extend_from_slice(&0i64.to_le_bytes());
    }
    f.extend_from_slice(&0i32.to_le_bytes());
    record(&f, 12, None, None)
}

fn row_set(row_set_id: i64, id_major: i32, id_minor: i32) -> Vec<u8> {
    let mut f = row_set_id.to_le_bytes().to_vec();
    f.push(1);
    f.extend_from_slice(&id_major.to_le_bytes());
    f.extend_from_slice(&id_minor.to_le_bytes());
    f.extend_from_slice(&1i32.to_le_bytes());
    f.extend_from_slice(&0i32.to_le_bytes());
    f.extend_from_slice(&1i16.to_le_bytes());
    f.extend_from_slice(&0i64.to_le_bytes());
    record(&f, 17, Some(&[0x00, 0xff, 0x01]), None)
}

fn sch_obj(id: i32, name: &str, ty: &[u8; 2]) -> Vec<u8> {
    let mut f = id.to_le_bytes().to_vec();
    f.extend_from_slice(&1i32.to_le_bytes());
    f.push(0);
    f.extend_from_slice(&0i32.to_le_bytes());
    f.extend_from_slice(ty);
    f.extend_from_slice(&0i32.to_le_bytes());
    f.push(0);
    f.extend_from_slice(&0i32.to_le_bytes());
    f.extend_from_slice(&[0u8; 16]);
    record(&f, 11, None, Some(vec![utf16(name)]))
}

fn col_par(table: i32, col_id: i32, name: &str, xtype: i8) -> Vec<u8> {
    let mut f = table.to_le_bytes().to_vec();
    f.extend_from_slice(&0i16.to_le_bytes());
    f.extend_from_slice(&col_id.to_le_bytes());
    f.push(xtype as u8);
    f.extend_from_slice(&0i32.to_le_bytes());
    f.extend_from_slice(&4i16.to_le_bytes());
    f.push(0);
    f.push(0);
    f.extend_from_slice(&0i32.to_le_bytes());
    f.extend_from_slice(&0i32.to_le_bytes());
    f.extend_from_slice(&0i16.to_le_bytes());
    for _ in 0..3 {
        f.extend_from_slice(&0i32.to_le_bytes());
    }
    record(&f, 16, Some(&[0x00, 0x80]), Some(vec![utf16(name)]))
}

fn scalar_type(id: i32, name: &str, xtype: i8) -> Vec<u8> {
    let mut f = id.to_le_bytes().to_vec();
    f.extend_from_slice(&4i32.to_le_bytes());
    f.push(xtype as u8);
    f.extend_from_slice(&4i16.to_le_bytes());
    f.push(0);
    f.push(0);
    f.extend_from_slice(&0i32.to_le_bytes());
    f.extend_from_slice(&0i32.to_le_bytes());
    f.extend_from_slice(&[0u8; 16]);
    f.extend_from_slice(&0i32.to_le_bytes());
    f.extend_from_slice(&0i32.to_le_bytes());
    record(&f, 13, None, Some(vec![utf16(name)]))
}

fn single_obj_ref() -> Vec<u8> {
    let mut f = vec![1u8];
    for v in [10i32, 0, 11, 0, 0] {
        f.extend_from_slice(&v.to_le_bytes());
    }
    record(&f, 6, None, None)
}

fn person(id: i32, age: i32, name: &str) -> Vec<u8> {
    let mut f = id.to_le_bytes().to_vec();
    f.extend_from_slice(&age.to_le_bytes());
    record(&f, 3, None, Some(vec![utf16(name)]))
}

fn boot_record(first: u32) -> Vec<u8> {
    let mut f = vec![0u8; 518];
    f[0..2].copy_from_slice(&611u16.to_le_bytes());
    f[2..4].copy_from_slice(&539u16.to_le_bytes());
    let name = utf16("shop");
    f[48..48 + name.len()].copy_from_slice(&name);
    f[308..310].copy_from_slice(&5u16.to_le_bytes());
    f[512..518].copy_from_slice(&ptr6(first, 1));
    record(&f, 0, None, None)
}

const INT: i8 = 56;
const NVARCHAR: i8 = -25;

fn sample_database() -> MemPageProvider {
    let mut pages = vec![Vec::new(); 32];
    pages[9] = page(1, 9, 13, 0, &[boot_record(20)]);
    pages[20] = page(1, 20, 1, 0, &[
        alloc_unit(327680, 0, 21),
        alloc_unit(1034, 1034, 22),
        alloc_unit(1041, 1041, 23),
        alloc_unit(1050, 1050, 24),
        alloc_unit(1074, 1074, 25),
        alloc_unit(5000, 2001, 30),
        alloc_unit(5001, 2002, 31),
    ]);
    pages[21] = page(1, 21, 1, 0, &[
        row_set(1034, 34, 1),
        row_set(1041, 41, 1),
        row_set(1050, 50, 1),
        row_set(1074, 74, 1),
        row_set(2001, 100, 0),
        row_set(2002, 5, 1),
    ]);
    pages[22] = page(1, 22, 1, 0, &[sch_obj(100, "people", b"U "), sch_obj(5, "sysfoo", b"S "), sch_obj(300, "pk_people", b"PK")]);
    pages[23] = page(1, 23, 1, 0, &[
        col_par(100, 1, "id", INT),
        col_par(100, 2, "age", INT),
        col_par(100, 3, "name", NVARCHAR),
        col_par(5, 2, "y", INT),
        col_par(5, 1, "x", INT),
    ]);
    pages[24] = page(1, 24, 1, 0, &[scalar_type(56, "int", INT), scalar_type(231, "nvarchar", NVARCHAR)]);
    pages[25] = page(1, 25, 1, 0, &[single_obj_ref()]);
    pages[30] = page(1, 30, 1, 8, &[person(1, 30, "ann"), person(2, 41, "bob")]);
    let mut xy = 7i32.to_le_bytes().to_vec();
    xy.extend_from_slice(&8i32.to_le_bytes());
    pages[31] = page(1, 31, 1, 8, &[record(&xy, 2, None, None)]);
    provider(vec![(1, pages)])
}

#[test]
fn catalog_bootstrap_finds_tables_and_columns() {
    let db = DB::new(sample_database()).unwrap();
    assert_eq!(db.boot_page.database_name.len(), 128);
    assert_eq!(db.boot_page.database_name.trim_end_matches('\0'), "shop");
    assert_eq!(db.boot_page.version, 611);
    assert_eq!(db.boot_page.first_sys_indices, PagePointer { page_id: 20, file_id: 1 });
    let st = &db.system_tables;
    assert_eq!(st.alloc_units.len(), 7);
    assert_eq!(st.alloc_units[0].ty, AllocUnitType::InRowData);
    assert_eq!(st.row_sets.len(), 6);
    assert_eq!(st.single_object_refs.len(), 1);
    let names: Vec<String> = st.tables().iter().map(|t| t.name.clone()).collect();
    assert_eq!(names, vec!["people".to_string(), "sysfoo".to_string()]);
    assert_eq!(st.sch_objs[2].ty, SchType::PrimaryKey);
    let people = st.tables()[0];
    let catalog_order: Vec<i32> = st.columns_for_table(people).iter().map(|c| c.col_id).collect();
    assert_eq!(catalog_order, vec![1, 2, 3]);
    let table = db.table("people").unwrap();
    let ids: Vec<i32> = table.schema.columns.iter().map(|c| c.idx).collect();
    assert_eq!(ids, vec![1, 2, 3]);
    assert_eq!(table.schema.columns[2].data_type, SqlType::NVarChar);
    assert_eq!(table.partition_pointer, vec![PagePointer { page_id: 30, file_id: 1 }]);
    assert_eq!(db.tables().len(), 2);
    let sysfoo = st.tables()[1];
    let sys_order: Vec<i32> = st.columns_for_table(sysfoo).iter().map(|c| c.col_id).collect();
    assert_eq!(sys_order, vec![2, 1]);
    let sys_table = db.table("sysfoo").unwrap();
    let sys_names: Vec<String> = sys_table.schema.columns.iter().map(|c| c.name.clone()).collect();
    assert_eq!(sys_names, vec!["x".to_string(), "y".to_string()]);
    assert!(db.table("nothing").is_none());
    assert!(db.table("pk_people").is_none());
}

#[test]
fn user_table_rows_decode() {
    let db = DB::new(sample_database()).unwrap();
    let table = db.table("people").unwrap();
    let rows = table.rows();
    assert_eq!(rows.len(), 2);
    assert_eq!(rows[0].values[0].clone().unwrap().unwrap_int(), 1);
    assert_eq!(rows[0].values[1].clone().unwrap().unwrap_int(), 30);
    assert_eq!(rows[0].values[2].clone().unwrap().unwrap_nvar_char_in_row(), "ann");
    assert_eq!(rows[1].values[2].clone().unwrap().unwrap_nvar_char_in_row(), "bob");
    let sys = db.table("sysfoo").unwrap();
    let sys_rows = sys.rows();
    assert_eq!(sys_rows.len(), 1);
    assert!(matches!(sys_rows[0].values[0], Some(SqlValue::Int(7))));
    assert!(matches!(sys_rows[0].values[1], Some(SqlValue::Int(8))));
}

#[test]
fn catalog_queries() {
    let db = DB::new(sample_database()).unwrap();
    let st = &db.system_tables;
    let people = st.tables()[0];
    let parts = st.partitions_for_table(people);
    assert_eq!(parts.len(), 1);
    assert_eq!(parts[0].row_set_id, 2001);
    let au = st.allocation_unit_for_partition(parts[0]).unwrap();
    assert_eq!(au.ty, AllocUnitType::InRowData);
    assert_eq!(au.pg_first, Some(PagePointer { page_id: 30, file_id: 1 }));
    let col = st.columns_for_table(people)[2];
    assert_eq!(st.type_for_column(col).unwrap().name, "nvarchar");
    let found = SystemTables::find_alloc_unit_by_id(&st.alloc_units, 327680, AllocUnitType::InRowData).unwrap();
    assert_eq!(found.pg_first, Some(PagePointer { page_id: 21, file_id: 1 }));
    assert!(SystemTables::find_alloc_unit_by_id(&st.alloc_units, 327680, AllocUnitType::LobData).is_none());
    let sch = SystemTables::find_alloc_unit_by_rowset_ids(&st.alloc_units, &st.row_sets, 34, 1).unwrap();
    assert_eq!(sch.au_id, 1034);
    assert!(SystemTables::find_alloc_unit_by_rowset_ids(&st.alloc_units, &st.row_sets, 99, 1).is_none());
}

#[test]
fn missing_boot_page_or_anchor_fails() {
    assert!(DB::new(provider(vec![(1, vec![Vec::new(); 12])])).is_none());
    let mut prov = sample_database();
    prov.files[0].pages[24] = Vec::new();
    assert!(DB::new(prov).is_none());
    let mut prov = sample_database();
    prov.files[0].pages[9][1] = 1;
    assert!(DB::new(prov).is_none());
}

#[test]
fn boot_page_fields() {
    let prov = sample_database();
    let page = prov.get(PagePointer { page_id: 9, file_id: 1 }).unwrap();
    let boot = BootPage::parse(page).unwrap();
    assert_eq!(boot.create_version, 539);
    assert_eq!(boot.db_id, 5);
    let other = prov.get(PagePointer { page_id: 20, file_id: 1 }).unwrap();
    assert!(BootPage::parse(other).is_none());
}

fn int_schema() -> Schema {
    Schema {
        columns: vec![ColumnType { idx: 1, data_type: SqlType::Int, name: String::from("v"), nullable: false, computed: false }],
    }
}

fn int_row(v: i32) -> Vec<u8> {
    record(&v.to_le_bytes(), 1, None, None)
}

fn values(rows: &[Row]) -> Vec<i32> {
    rows.iter().map(|r| r.values[0].clone().unwrap().unwrap_int()).collect()
}

fn two_file_database() -> MemPageProvider {
    let mut f1 = vec![Vec::new(); 50];
    f1[10] = page(1, 10, 1, 12, &[int_row(100)]);
    f1[42] = page(1, 42, 1, 11, &[int_row(1), int_row(2)]);
    f1[43] = page(1, 43, 2, 11, &[int_row(200)]);
    let mut f2 = vec![Vec::new(); 10];
    f2[7] = page(2, 7, 1, 11, &[int_row(3)]);
    provider(vec![(1, f1), (2, f2)])
}

#[test]
fn degraded_scan_matches_fixed_length_across_files() {
    let prov = two_file_database();
    let table = Table {
        name: String::from("t"),
        page_provider: &prov,
        schema: int_schema(),
        partition_pointer: vec![PagePointer { page_id: 42, file_id: 1 }],
    };
    let rows = table.scan_db().unwrap();
    assert_eq!(values(&rows), vec![1, 2, 3]);
    let from = table.scan_db_from(PagePointer { page_id: 0, file_id: 2 }).unwrap();
    assert_eq!(values(&from), vec![3]);
    let from_later = table.scan_db_from(PagePointer { page_id: 43, file_id: 1 }).unwrap();
    assert!(from_later.is_empty());
}

#[test]
fn degraded_scan_interleaves_tables_sharing_fixed_length() {
    let mut f1 = vec![Vec::new(); 4];
    f1[1] = page(1, 1, 1, 11, &[int_row(1)]);
    f1[2] = page(1, 2, 1, 11, &[int_row(900)]);
    f1[3] = page(1, 3, 1, 11, &[int_row(2)]);
    let prov = provider(vec![(1, f1)]);
    let table = Table {
        name: String::from("t"),
        page_provider: &prov,
        schema: int_schema(),
        partition_pointer: vec![PagePointer { page_id: 1, file_id: 1 }],
    };
    assert_eq!(values(&table.scan_db().unwrap()), vec![1, 900, 2]);
}

#[test]
fn degraded_scan_needs_a_first_page() {
    let prov = two_file_database();
    let none = Table { name: String::from("t"), page_provider: &prov, schema: int_schema(), partition_pointer: vec![] };
    assert!(none.scan_db().is_none());
    let missing = Table {
        name: String::from("t"),
        page_provider: &prov,
        schema: int_schema(),
        partition_pointer: vec![PagePointer { page_id: 5, file_id: 1 }],
    };
    assert!(missing.scan_db().is_none());
    assert!(missing.rows().is_empty());
}

#[test]
fn provider_answers_from_memory() {
    let prov = two_file_database();
    assert_eq!(prov.file_ids(), vec![1, 2]);
    assert_eq!(prov.num_pages(1), 50);
    assert_eq!(prov.num_pages(3), 0);
    assert!(prov.get(PagePointer { page_id: 42, file_id: 1 }).is_some());
    assert!(prov.get(PagePointer { page_id: 41, file_id: 1 }).is_none());
    assert!(prov.get(PagePointer { page_id: 99, file_id: 1 }).is_none());
    assert_eq!(mdf::total_pages(&prov), 60);
}
