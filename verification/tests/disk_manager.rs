use pagestore::disk_manager::DiskManager;
use pagestore::disk_manager::IoError;
use pagestore::disk_manager::PageAllocator;
use pagestore::disk_manager::PageID;
use pagestore::disk_manager::initial_page_count;
use pagestore::disk_manager::page_offset;
use pagestore::disk_manager::PAGE_SIZE;

/// A full page: `prefix` followed by zero padding up to `PAGE_SIZE`.
fn page(prefix: &[u8]) -> Vec<u8> {
    let mut data = Vec::with_capacity(PAGE_SIZE);
    data.extend_from_slice(prefix);
    data.resize(PAGE_SIZE, 0);
    data
}

#[test]
fn test() {
    let mut disk = DiskManager::new(Vec::new());

    let test_page_id = disk.allocate_page();

    let mut data = Vec::with_capacity(PAGE_SIZE);
    data.extend_from_slice(b"test");
    data.resize(PAGE_SIZE, 0);

    disk.write(test_page_id, &data).unwrap();

    let second_test_page_id = disk.allocate_page();
    let mut data2 = Vec::with_capacity(PAGE_SIZE);
    data2.extend_from_slice(b"second_test");
    data2.resize(PAGE_SIZE, 0);

    disk.write(second_test_page_id, &data2).unwrap();

    let storage = disk.into_storage();

    let mut disk2 = DiskManager::new(storage);

    let mut buffer = vec![0u8; PAGE_SIZE];
    let _ = disk2.read(test_page_id, &mut buffer);
    assert_eq!(data, buffer);
    let _ = disk2.read(second_test_page_id, &mut buffer);
    assert_eq!(data2, buffer);
}

#[test]
fn fresh_store_scenario() {
    let mut disk = DiskManager::new(Vec::new());

    let page_a = disk.allocate_page();
    assert_eq!(page_a.to_u64(), 0);
    let data_a = page(b"test");
    disk.write(page_a, &data_a).unwrap();

    let page_b = disk.allocate_page();
    assert_eq!(page_b.to_u64(), 1);
    let data_b = page(b"second_test");
    disk.write(page_b, &data_b).unwrap();

    let mut reopened = DiskManager::new(disk.into_storage());

    let mut buffer = vec![0u8; PAGE_SIZE];
    reopened.read(page_a, &mut buffer).unwrap();
    assert_eq!(buffer, data_a);
    reopened.read(page_b, &mut buffer).unwrap();
    assert_eq!(buffer, data_b);

    assert_eq!(reopened.allocate_page().to_u64(), 2);
}

#[test]
fn allocation_is_monotonic_and_dense() {
    let mut disk = DiskManager::new(Vec::new());
    for expected in 0u64..8 {
        assert_eq!(disk.allocate_page().to_u64(), expected);
    }
}

#[test]
fn allocator_continues_from_initial_value() {
    let mut allocator = PageAllocator::new(5);
    assert_eq!(allocator.allocate().to_u64(), 5);
    assert_eq!(allocator.allocate().to_u64(), 6);
}

#[test]
fn counter_recovered_from_storage_length() {
    // An exact multiple of PAGE_SIZE.
    let mut disk = DiskManager::new(vec![0u8; 2 * PAGE_SIZE]);
    assert_eq!(disk.allocate_page().to_u64(), 2);

    // A partial trailing page is truncated out of the addressable range.
    let mut disk = DiskManager::new(vec![0u8; 3 * PAGE_SIZE + 5]);
    assert_eq!(disk.allocate_page().to_u64(), 3);

    // Shorter than one page: nothing is addressable yet.
    let mut disk = DiskManager::new(vec![0u8; PAGE_SIZE - 1]);
    assert_eq!(disk.allocate_page().to_u64(), 0);
}

#[test]
fn initial_page_count_formula() {
    assert_eq!(initial_page_count(0), 0);
    assert_eq!(initial_page_count(PAGE_SIZE as u64 - 1), 0);
    assert_eq!(initial_page_count(PAGE_SIZE as u64), 1);
    assert_eq!(initial_page_count(2 * PAGE_SIZE as u64), 2);
    assert_eq!(initial_page_count(2 * PAGE_SIZE as u64 + 17), 2);
}

#[test]
fn page_offset_formula() {
    assert_eq!(page_offset(PageID(0)), Some(0));
    assert_eq!(page_offset(PageID(1)), Some(PAGE_SIZE as u64));
    assert_eq!(page_offset(PageID(3)), Some(3 * PAGE_SIZE as u64));

    let largest = u64::MAX / PAGE_SIZE as u64;
    assert_eq!(page_offset(PageID(largest)), Some(largest * PAGE_SIZE as u64));
    assert_eq!(page_offset(PageID(largest + 1)), None);
}

#[test]
fn page_id_to_u64() {
    assert_eq!(PageID(7).to_u64(), 7);
}

#[test]
fn short_read_fails_and_leaves_buffer_alone() {
    let mut disk = DiskManager::new(Vec::new());
    let id = disk.allocate_page();

    // Allocation alone reserves no bytes, so the read falls past the end.
    let mut buffer = vec![7u8; PAGE_SIZE];
    assert_eq!(disk.read(id, &mut buffer), Err(IoError));
    assert_eq!(buffer, vec![7u8; PAGE_SIZE]);

    // A store holding a partial trailing page cannot serve that page either.
    let mut disk = DiskManager::new(vec![1u8; PAGE_SIZE + 1]);
    assert_eq!(disk.read(PageID(1), &mut buffer), Err(IoError));
    assert_eq!(buffer, vec![7u8; PAGE_SIZE]);
    disk.read(PageID(0), &mut buffer).unwrap();
    assert_eq!(buffer, vec![1u8; PAGE_SIZE]);
}

#[test]
fn write_round_trips_same_and_reopened_store() {
    let mut disk = DiskManager::new(Vec::new());
    let id = disk.allocate_page();
    let data = page(b"round trip contents");

    disk.write(id, &data).unwrap();
    let mut buffer = vec![0u8; PAGE_SIZE];
    disk.read(id, &mut buffer).unwrap();
    assert_eq!(buffer, data);

    let mut reopened = DiskManager::new(disk.into_storage());
    let mut buffer2 = vec![0u8; PAGE_SIZE];
    reopened.read(id, &mut buffer2).unwrap();
    assert_eq!(buffer2, data);
}

#[test]
fn write_disturbs_no_other_page() {
    let mut disk = DiskManager::new(Vec::new());
    let pages: Vec<PageID> = (0..4).map(|_| disk.allocate_page()).collect();
    let contents: Vec<Vec<u8>> = (0..4u8).map(|n| page(&[n + 1; 16])).collect();
    for (id, data) in pages.iter().zip(contents.iter()) {
        disk.write(*id, data).unwrap();
    }

    // Overwrite page 2 and check pages 0, 1 and 3 read back unchanged.
    let replacement = page(b"replacement");
    disk.write(pages[2], &replacement).unwrap();

    let mut buffer = vec![0u8; PAGE_SIZE];
    for i in [0usize, 1, 3] {
        disk.read(pages[i], &mut buffer).unwrap();
        assert_eq!(buffer, contents[i]);
    }
    disk.read(pages[2], &mut buffer).unwrap();
    assert_eq!(buffer, replacement);
}

#[test]
fn write_past_end_zero_fills_the_gap() {
    let mut disk = DiskManager::new(Vec::new());
    let data = page(b"far page");
    disk.write(PageID(2), &data).unwrap();

    // Pages 0 and 1 now exist and read back as zeros.
    let mut buffer = vec![9u8; PAGE_SIZE];
    disk.read(PageID(0), &mut buffer).unwrap();
    assert_eq!(buffer, vec![0u8; PAGE_SIZE]);
    let mut buffer = vec![9u8; PAGE_SIZE];
    disk.read(PageID(1), &mut buffer).unwrap();
    assert_eq!(buffer, vec![0u8; PAGE_SIZE]);

    let storage = disk.into_storage();
    assert_eq!(storage.len(), 3 * PAGE_SIZE);
    assert_eq!(&storage[2 * PAGE_SIZE..2 * PAGE_SIZE + 8], b"far page");

    // Reopening sees all three pages as allocated.
    let mut reopened = DiskManager::new(storage);
    assert_eq!(reopened.allocate_page().to_u64(), 3);
}
