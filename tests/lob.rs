use mdf::{
    LobEntry, LobPointer, LobType, MemFile, MemPageProvider, PagePointer, Record, RecordPointer,
    PAGE_SIZE,
};

fn provider(files: Vec<(u16, Vec<Vec<u8>>)>) -> MemPageProvider {
    MemPageProvider {
        files: files.into_iter().map(|(file_id, pages)| MemFile { file_id, pages }).collect(),
    }
}

fn page(file_id: u16, page_id: u32, ty: u8, records: &[Vec<u8>]) -> Vec<u8> {
    let mut b = vec![0u8; PAGE_SIZE];
    b[1] = ty;
    b[22..24].copy_from_slice(&(records.len() as u16).to_le_bytes());
    b[32..36].copy_from_slice(&page_id.to_le_bytes());
    b[36..38].copy_from_slice(&file_id.to_le_bytes());
    let mut at = 96;
    for (i, r) in records.iter().enumerate() {
        b[at..at + r.len()].copy_from_slice(r);
        b[PAGE_SIZE - 2 * (i + 1)..PAGE_SIZE - 2 * i].copy_from_slice(&(at as u16).to_le_bytes());
        at += r.len();
    }
    b
}

fn record(fixed: &[u8]) -> Vec<u8> {
    let mut r = vec![4 << 1, 0];
    r.extend_from_slice(&((4 + fixed.len()) as u16).to_le_bytes());
    r.extend_from_slice(fixed);
    r.extend_from_slice(&0u16.to_le_bytes());
    r
}

fn data_node(blob_id: u64, payload: &[u8]) -> Vec<u8> {
    let mut f = blob_id.to_le_bytes().to_vec();
    f.extend_from_slice(&3u16.to_le_bytes());
    f.extend_from_slice(payload);
    record(&f)
}

fn small_root(blob_id: u64, payload: &[u8]) -> Vec<u8> {
    let mut f = blob_id.to_le_bytes().to_vec();
    f.extend_from_slice(&0u16.to_le_bytes());
    f.extend_from_slice(&(payload.len() as u16).to_le_bytes());
    f.extend_from_slice(&[0, 0, 0, 0]);
    f.extend_from_slice(payload);
    record(&f)
}

fn link_ptr(page_id: u32, file_id: u16, slot: u16) -> Vec<u8> {
    let mut b = page_id.to_le_bytes().to_vec();
    b.extend_from_slice(&file_id.to_le_bytes());
    b.extend_from_slice(&slot.to_le_bytes());
    b
}

fn yukon_root(max_links: u16, links: &[(u32, u32, u16, u16)]) -> Vec<u8> {
    let mut f = 77u64.to_le_bytes().to_vec();
    f.extend_from_slice(&5u16.to_le_bytes());
    f.extend_from_slice(&max_links.to_le_bytes());
    f.extend_from_slice(&(links.len() as u16).to_le_bytes());
    f.extend_from_slice(&1u16.to_le_bytes());
    f.extend_from_slice(&[0, 0, 0, 0]);
    for (size, page_id, file_id, slot) in links {
        f.extend_from_slice(&size.to_le_bytes());
        f.extend_from_slice(&link_ptr(*page_id, *file_id, *slot));
    }
    record(&f)
}

fn internal(links: &[(u64, u32, u16, u16)]) -> Vec<u8> {
    let mut f = 77u64.to_le_bytes().to_vec();
    f.extend_from_slice(&2u16.to_le_bytes());
    f.extend_from_slice(&(links.len() as u16).to_le_bytes());
    f.extend_from_slice(&(links.len() as u16).to_le_bytes());
    f.extend_from_slice(&0u16.to_le_bytes());
    for (offset, page_id, file_id, slot) in links {
        f.extend_from_slice(&offset.to_le_bytes());
        f.extend_from_slice(&link_ptr(*page_id, *file_id, *slot));
    }
    record(&f)
}

fn pointer(page_id: u32, slot: u16) -> LobPointer {
    LobPointer {
        timestamp: 1,
        ptr: RecordPointer { page_ptr: PagePointer { page_id, file_id: 1 }, slot_id: slot },
    }
}

#[test]
fn yukon_root_with_two_data_leaves() {
    let b0 = vec![0xaau8; 3000];
    let b1 = vec![0x55u8; 5000];
    let prov = provider(vec![(
        1,
        vec![
            page(1, 0, 4, &[yukon_root(5, &[(3000, 1, 1, 0), (5000, 2, 1, 0)])]),
            page(1, 1, 3, &[data_node(77, &b0)]),
            page(1, 2, 3, &[data_node(77, &b1)]),
        ],
    )]);
    let blocks = pointer(0, 0).read(&prov).unwrap();
    assert_eq!(blocks.data_blocks.len(), 2);
    assert_eq!(blocks.data_blocks[0], (3000, b0));
    assert_eq!(blocks.data_blocks[1], (5000, b1));
    assert_eq!(blocks.length(), 8000);
}

#[test]
fn two_walks_give_the_same_extents() {
    let prov = provider(vec![(
        1,
        vec![
            page(1, 0, 4, &[yukon_root(2, &[(3, 1, 1, 0), (2, 1, 1, 1)])]),
            page(1, 1, 3, &[data_node(77, b"abc"), data_node(77, b"de")]),
        ],
    )]);
    let a = pointer(0, 0).read(&prov).unwrap();
    let b = pointer(0, 0).read(&prov).unwrap();
    assert_eq!(a.data_blocks, b.data_blocks);
    assert_eq!(a.data_blocks, vec![(3, b"abc".to_vec()), (2, b"de".to_vec())]);
}

#[test]
fn small_root_is_its_own_extent() {
    let prov = provider(vec![(1, vec![page(1, 0, 3, &[small_root(9, b"hello")])])]);
    let blocks = pointer(0, 0).read(&prov).unwrap();
    assert_eq!(blocks.data_blocks, vec![(5, b"hello".to_vec())]);
    assert_eq!(blocks.length(), 5);
}

#[test]
fn internal_nodes_are_walked_breadth_first() {
    let prov = provider(vec![(
        1,
        vec![
            page(1, 0, 4, &[yukon_root(4, &[(3, 0, 1, 1), (1, 1, 1, 2)]), internal(&[(0, 1, 1, 0), (1, 1, 1, 1)])]),
            page(1, 1, 3, &[data_node(77, b"a"), data_node(77, b"bb"), data_node(77, b"z")]),
        ],
    )]);
    let blocks = pointer(0, 0).read(&prov).unwrap();
    assert_eq!(blocks.data_blocks, vec![(1, b"z".to_vec()), (0, b"a".to_vec()), (1, b"bb".to_vec())]);
    assert_eq!(blocks.length(), 4);
}

#[test]
fn missing_child_aborts_the_walk() {
    let prov = provider(vec![(
        1,
        vec![page(1, 0, 4, &[yukon_root(2, &[(3, 1, 1, 0), (2, 9, 1, 0)])]), page(1, 1, 3, &[data_node(77, b"abc")])],
    )]);
    assert!(pointer(0, 0).read(&prov).is_none());
    assert!(pointer(5, 0).read(&prov).is_none());
}

#[test]
fn cyclic_tree_fails() {
    let prov = provider(vec![(1, vec![page(1, 0, 4, &[internal(&[(0, 0, 1, 0)])])])]);
    assert!(pointer(0, 0).read(&prov).is_none());
}

#[test]
fn node_kinds_and_links() {
    let rec = Record::parse(&yukon_root(5, &[(3000, 1, 1, 0), (5000, 2, 1, 3)]), false, 0).unwrap();
    assert_eq!(LobType::parse(&rec), Some(LobType::LargeRootYukon));
    match LobEntry::parse(rec) {
        Some(LobEntry::LargeRootYukon(root)) => {
            assert_eq!(root.max_links, 5);
            assert_eq!(root.cur_links, 2);
            assert_eq!(root.level, 1);
            assert_eq!(root.blob_id, 77);
            assert_eq!(
                root.read_idx(1),
                Some(RecordPointer { page_ptr: PagePointer { page_id: 2, file_id: 1 }, slot_id: 3 })
            );
            assert_eq!(root.read_idx(2), None);
        },
        _ => panic!("expected a Yukon root"),
    }
    let rec = Record::parse(&internal(&[(0, 4, 1, 0)]), false, 0).unwrap();
    match LobEntry::parse(rec) {
        Some(LobEntry::Internal(node)) => {
            assert_eq!(node.read_idx(0), Some(RecordPointer { page_ptr: PagePointer { page_id: 4, file_id: 1 }, slot_id: 0 }));
            assert_eq!(node.read_idx(1), None);
        },
        _ => panic!("expected an internal node"),
    }
}

#[test]
fn malformed_nodes_are_refused() {
    let too_many = Record::parse(&yukon_root(1, &[(1, 1, 1, 0), (1, 1, 1, 1)]), false, 0).unwrap();
    assert!(LobEntry::parse(too_many).is_none());
    let null_link = Record::parse(&yukon_root(2, &[(1, 1, 0, 0)]), false, 0).unwrap();
    assert!(LobEntry::parse(null_link).is_none());
    let mut f = 1u64.to_le_bytes().to_vec();
    f.extend_from_slice(&8u16.to_le_bytes());
    let null_node = Record::parse(&record(&f), false, 0).unwrap();
    assert_eq!(LobType::parse(&null_node), Some(LobType::Null));
    assert!(LobEntry::parse(null_node).is_none());
    let mut g = 1u64.to_le_bytes().to_vec();
    g.extend_from_slice(&4u16.to_le_bytes());
    let old_root = Record::parse(&record(&g), false, 0).unwrap();
    assert_eq!(LobType::parse(&old_root), None);
    let mut h = 1u64.to_le_bytes().to_vec();
    h.extend_from_slice(&0u16.to_le_bytes());
    h.extend_from_slice(&50u16.to_le_bytes());
    h.extend_from_slice(&[0, 0, 0, 0, 1, 2]);
    assert!(LobEntry::parse(Record::parse(&record(&h), false, 0).unwrap()).is_none());
}
