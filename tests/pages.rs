use mdf::{
    PageHeader, PagePointer, PageProvider, PageType, RawPage, Record, RecordPointer,
    RecordType, VarLengthColumnOffset, PAGE_SIZE, MemFile, MemPageProvider,
};

fn provider(files: Vec<(u16, Vec<Vec<u8>>)>) -> MemPageProvider {
    MemPageProvider {
        files: files.into_iter().map(|(file_id, pages)| MemFile { file_id, pages }).collect(),
    }
}

fn put_u16(b: &mut [u8], at: usize, v: u16) {
    b[at..at + 2].copy_from_slice(&v.to_le_bytes());
}

fn put_u32(b: &mut [u8], at: usize, v: u32) {
    b[at..at + 4].copy_from_slice(&v.to_le_bytes());
}

fn page(file_id: u16, page_id: u32, ty: u8, p_min_len: u16, next: Option<(u16, u32)>, records: &[Vec<u8>]) -> Vec<u8> {
    let mut b = vec![0u8; PAGE_SIZE];
    b[1] = ty;
    put_u16(&mut b, 14, p_min_len);
    if let Some((f, p)) = next {
        put_u32(&mut b, 16, p);
        put_u16(&mut b, 20, f);
    }
    put_u16(&mut b, 22, records.len() as u16);
    put_u32(&mut b, 24, 77);
    put_u32(&mut b, 32, page_id);
    put_u16(&mut b, 36, file_id);
    let mut at = 96;
    for (i, r) in records.iter().enumerate() {
        b[at..at + r.len()].copy_from_slice(r);
        put_u16(&mut b, PAGE_SIZE - 2 * (i + 1), at as u16);
        at += r.len();
    }
    b
}

fn data_record(fixed: &[u8], column_count: u16) -> Vec<u8> {
    let mut r = vec![0u8, 0u8];
    r.extend_from_slice(&((4 + fixed.len()) as u16).to_le_bytes());
    r.extend_from_slice(fixed);
    r.extend_from_slice(&column_count.to_le_bytes());
    r
}

#[test]
fn page_header_fields_are_read() {
    let mut b = page(1, 42, 1, 11, Some((1, 43)), &[data_record(&[1, 2, 3], 1)]);
    b[3] = 2;
    put_u16(&mut b, 6, 5);
    put_u32(&mut b, 8, 41);
    put_u16(&mut b, 12, 1);
    let h = PageHeader::parse(&b).unwrap();
    assert_eq!(h.ptr, PagePointer { page_id: 42, file_id: 1 });
    assert_eq!(h.ty, PageType::Data);
    assert_eq!(h.level, 2);
    assert_eq!(h.index_id, 5);
    assert_eq!(h.p_min_len, 11);
    assert_eq!(h.slot_count, 1);
    assert_eq!(h.object_id, 77);
    assert_eq!(h.prev_page_ptr, Some(PagePointer { page_id: 41, file_id: 1 }));
    assert_eq!(h.next_page_ptr, Some(PagePointer { page_id: 43, file_id: 1 }));
}

#[test]
fn page_with_null_self_pointer_is_refused() {
    let b = vec![0u8; PAGE_SIZE];
    assert!(PageHeader::parse(&b).is_none());
    assert!(RawPage::parse(&b).is_none());
    let short = vec![0u8; 100];
    assert!(RawPage::parse(&short).is_none());
}

#[test]
fn page_types_parse() {
    assert_eq!(PageType::parse(0), PageType::UnAlloc);
    assert_eq!(PageType::parse(3), PageType::TextMix);
    assert_eq!(PageType::parse(13), PageType::Boot);
    assert_eq!(PageType::parse(20), PageType::PreAlloc);
    assert_eq!(PageType::parse(5), PageType::Unknown(5));
    assert_eq!(PageType::parse(255), PageType::Unknown(255));
}

#[test]
fn pointers_parse_little_endian() {
    let b = [0x2a, 0, 0, 0, 3, 0, 7, 0];
    assert_eq!(PagePointer::parse(&b), Some(PagePointer { page_id: 42, file_id: 3 }));
    assert_eq!(
        RecordPointer::parse(&b),
        Some(RecordPointer { page_ptr: PagePointer { page_id: 42, file_id: 3 }, slot_id: 7 })
    );
    let null = [0x2a, 0, 0, 0, 0, 0, 7, 0];
    assert_eq!(PagePointer::parse(&null), None);
    assert_eq!(RecordPointer::parse(&null), None);
}

#[test]
fn record_slot_lookup_and_bounds() {
    let b = page(1, 5, 1, 8, None, &[data_record(&[1, 2], 1), data_record(&[3, 4, 5], 1)]);
    let p = RawPage::parse(&b).unwrap();
    assert_eq!(p.record_count(), 2);
    assert_eq!(p.record(0).unwrap().fixed_data, vec![1, 2]);
    assert_eq!(p.record(1).unwrap().fixed_data, vec![3, 4, 5]);
    assert!(p.record(2).is_none());
    assert_eq!(p.slot_offset(0), Some(96));
    assert_eq!(p.local_records().len(), 2);
}

#[test]
fn record_with_short_fixed_length_is_dropped() {
    let mut r = data_record(&[1, 2], 1);
    r[2] = 3;
    r[3] = 0;
    assert!(Record::parse(&r, false, 0).is_none());
}

#[test]
fn record_of_unsupported_type_is_dropped() {
    let mut r = data_record(&[1, 2], 1);
    r[0] = 1 << 1;
    assert!(Record::parse(&r, false, 0).is_none());
    r[0] = 4 << 1;
    assert_eq!(Record::parse(&r, false, 0).unwrap().ty, RecordType::Blob);
}

#[test]
fn record_running_past_the_bytes_is_dropped() {
    let r = data_record(&[1, 2, 3, 4], 1);
    assert!(Record::parse(&r[..r.len() - 1], false, 0).is_none());
}

#[test]
fn index_record_uses_page_fixed_length() {
    let r = vec![3 << 1, 9, 9, 9, 10, 11, 1, 0, 12, 13];
    let rec = Record::parse(&r, true, 6).unwrap();
    assert_eq!(rec.ty, RecordType::Index);
    assert_eq!(rec.tag_b, 0);
    assert_eq!(rec.fixed_data, vec![10, 11, 1, 0, 12]);
    assert_eq!(rec.column_count, 1);
    assert!(Record::parse(&r, true, 0).is_none());
    assert!(Record::parse(&r[..8], true, 6).is_none());
}

#[test]
fn null_bitmap_outside_is_not_null() {
    let mut r = vec![(1u8) << 4, 0];
    r.extend_from_slice(&6u16.to_le_bytes());
    r.extend_from_slice(&[0, 0]);
    r.extend_from_slice(&3u16.to_le_bytes());
    r.push(0b010);
    let rec = Record::parse(&r, false, 0).unwrap();
    assert!(rec.has_null_bitmap());
    assert!(!rec.has_var_length_columns());
    assert!(!rec.is_column_null(0));
    assert!(rec.is_column_null(1));
    assert!(!rec.is_column_null(2));
    assert!(!rec.is_column_null(8));
    assert!(!rec.is_column_null(100));
}

#[test]
fn var_length_columns_slices() {
    let mut r = vec![(2u8) << 4, 0];
    r.extend_from_slice(&4u16.to_le_bytes());
    r.extend_from_slice(&2u16.to_le_bytes());
    r.extend_from_slice(&2u16.to_le_bytes());
    // columns block starts at 8; the two offsets end at 12; payloads "ab" and "cde"
    r.extend_from_slice(&14u16.to_le_bytes());
    r.extend_from_slice(&(17u16 | 0x8000).to_le_bytes());
    r.extend_from_slice(b"abcde");
    let rec = Record::parse(&r, false, 0).unwrap();
    let vc = rec.var_length_columns.unwrap();
    assert_eq!(vc.count, 2);
    assert_eq!(vc.get(0), (false, b"ab".to_vec()));
    assert_eq!(vc.get(1), (true, b"cde".to_vec()));
    assert_eq!(vc.get(2), (false, vec![]));
    assert_eq!(vc.get(7), (false, vec![]));
}

#[test]
fn var_length_offset_splits_complex_bit() {
    let o = VarLengthColumnOffset::parse(&(0x8000u16 | 300).to_le_bytes());
    assert_eq!(o.end, 300);
    assert!(o.complex);
    let o = VarLengthColumnOffset::parse(&300u16.to_le_bytes());
    assert_eq!(o.end, 300);
    assert!(!o.complex);
}

#[test]
fn linked_records_follow_next_pointer() {
    let pg_a = page(1, 0, 1, 8, Some((1, 2)), &[data_record(&[1], 1)]);
    let pg_b = page(1, 1, 1, 8, None, &[data_record(&[9], 1)]);
    let pg_c = page(1, 2, 1, 8, None, &[data_record(&[2], 1), data_record(&[3], 1)]);
    let prov = provider(vec![(1, vec![pg_a, pg_b, pg_c])]);
    let start = prov.get(PagePointer { page_id: 0, file_id: 1 }).unwrap();
    let recs = start.records(&prov);
    let fixed: Vec<Vec<u8>> = recs.into_iter().map(|r| r.fixed_data).collect();
    assert_eq!(fixed, vec![vec![1], vec![2], vec![3]]);
    assert_eq!(start.local_records().len(), 1);
}

#[test]
fn linked_records_stop_on_a_cycle() {
    let pg_a = page(1, 0, 1, 8, Some((1, 1)), &[data_record(&[1], 1)]);
    let pg_b = page(1, 1, 1, 8, Some((1, 0)), &[data_record(&[2], 1)]);
    let prov = provider(vec![(1, vec![pg_a, pg_b])]);
    let start = prov.get(PagePointer { page_id: 0, file_id: 1 }).unwrap();
    let recs = start.into_records(&prov);
    assert_eq!(recs.len(), 3);
}

#[test]
fn get_record_checks_slot() {
    let pg_a = page(1, 0, 1, 8, None, &[data_record(&[1], 1)]);
    let prov = provider(vec![(1, vec![pg_a])]);
    let ptr = PagePointer { page_id: 0, file_id: 1 };
    assert!(prov.get_record(RecordPointer { page_ptr: ptr, slot_id: 0 }).is_some());
    assert!(prov.get_record(RecordPointer { page_ptr: ptr, slot_id: 1 }).is_none());
    let missing = PagePointer { page_id: 5, file_id: 1 };
    assert!(prov.get_record(RecordPointer { page_ptr: missing, slot_id: 0 }).is_none());
}

#[test]
fn header_fields_write_back_to_their_bytes() {
    let mut b = page(3, 1234, 2, 19, Some((3, 1235)), &[data_record(&[1], 1), data_record(&[2], 1)]);
    b[3] = 1;
    put_u16(&mut b, 6, 256);
    put_u32(&mut b, 8, 1233);
    put_u16(&mut b, 12, 3);
    let h = PageHeader::parse(&b).unwrap();
    let mut out = vec![0u8; 96];
    out[1] = 2;
    out[3] = h.level;
    put_u16(&mut out, 6, h.index_id);
    let prev = h.prev_page_ptr.unwrap();
    put_u32(&mut out, 8, prev.page_id);
    put_u16(&mut out, 12, prev.file_id);
    put_u16(&mut out, 14, h.p_min_len);
    let next = h.next_page_ptr.unwrap();
    put_u32(&mut out, 16, next.page_id);
    put_u16(&mut out, 20, next.file_id);
    put_u16(&mut out, 22, h.slot_count);
    put_u32(&mut out, 24, h.object_id);
    put_u32(&mut out, 32, h.ptr.page_id);
    put_u16(&mut out, 36, h.ptr.file_id);
    assert_eq!(h.ty, PageType::Index);
    for range in [1..2, 3..4, 6..28, 32..38] {
        assert_eq!(&out[range.clone()], &b[range]);
    }
    let p = RawPage::parse(&b).unwrap();
    for i in 0..p.record_count() {
        let off = p.slot_offset(i).unwrap();
        let at = PAGE_SIZE - 2 * (i as usize + 1);
        assert_eq!(&off.to_le_bytes()[..], &b[at..at + 2]);
    }
}

#[test]
fn record_sections_add_up_to_its_length() {
    let mut r = vec![(3u8) << 4, 0];
    r.extend_from_slice(&7u16.to_le_bytes());
    r.extend_from_slice(&[1, 2, 3]);
    r.extend_from_slice(&2u16.to_le_bytes());
    r.push(0);
    r.extend_from_slice(&2u16.to_le_bytes());
    r.extend_from_slice(&(19u16).to_le_bytes());
    r.extend_from_slice(&(21u16).to_le_bytes());
    r.extend_from_slice(b"abcde");
    let rec = Record::parse(&r, false, 0).unwrap();
    let vc = rec.var_length_columns.as_ref().unwrap();
    let payload: usize = (0..vc.count).map(|i| vc.get(i).1.len()).sum();
    let bitmap = rec.null_bitmap.as_ref().map(|b| b.len()).unwrap_or(0);
    let total = 4 + rec.fixed_data.len() + 2 + bitmap + 2 + 2 * vc.count as usize + payload;
    assert_eq!(total, r.len());
    assert_eq!(total, 21);
    assert_eq!(vc.get(0).1, b"abc".to_vec());
    assert_eq!(vc.get(1).1, b"de".to_vec());
}

#[test]
fn decreasing_offsets_give_empty_slices() {
    let mut r = vec![(2u8) << 4, 0];
    r.extend_from_slice(&4u16.to_le_bytes());
    r.extend_from_slice(&2u16.to_le_bytes());
    r.extend_from_slice(&2u16.to_le_bytes());
    r.extend_from_slice(&16u16.to_le_bytes());
    r.extend_from_slice(&14u16.to_le_bytes());
    r.extend_from_slice(b"abcd");
    let rec = Record::parse(&r, false, 0).unwrap();
    let vc = rec.var_length_columns.unwrap();
    assert_eq!(vc.get(0), (false, b"abcd".to_vec()));
    assert_eq!(vc.get(1), (false, vec![]));
}

#[test]
fn reparsing_a_page_gives_equal_records() {
    let b = page(1, 5, 1, 8, None, &[data_record(&[1, 2], 1), data_record(&[3, 4, 5], 1)]);
    let pg_b = RawPage::parse(&b).unwrap();
    let pg_c = RawPage::parse(&b.clone()).unwrap();
    assert_eq!(pg_b.header, pg_c.header);
    for i in 0..2 {
        let r1 = pg_b.record(i).unwrap();
        let r2 = pg_c.record(i).unwrap();
        assert_eq!(r1.fixed_data, r2.fixed_data);
        assert_eq!(r1.column_count, r2.column_count);
        assert_eq!(r1.ty, r2.ty);
    }
}
