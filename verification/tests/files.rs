use stable_vfs::allocator::RegionAllocator;
use stable_vfs::error::StorageError;
use stable_vfs::file_table::LockLevel;
use stable_vfs::file_table::VirtualFileTable;
use stable_vfs::file_table::Whence;
use stable_vfs::file_table::HEADER_BYTES;
use stable_vfs::page_store::PageStore;

const PAGE: u64 = 65536;

fn table(page_limit: u64) -> VirtualFileTable {
    VirtualFileTable::new(RegionAllocator::new(PageStore::new(page_limit).unwrap()))
}

#[test]
fn remounted_file_keeps_its_bytes_across_restart() {
    let mut files = table(64);
    assert!(files.mount("db.db3", 20));
    let handle = files.open("db.db3").unwrap();
    let data = vec![0xABu8; 16384];
    assert_eq!(files.write(handle, &data), Ok(()));

    let mut files = files.restart();
    assert_eq!(files.resolve("db.db3"), Err(StorageError::FileNotMounted));
    assert_eq!(files.size(handle), Err(StorageError::FileNotMounted));
    assert!(files.mount("db.db3", 20));
    let handle = files.open("db.db3").unwrap();
    assert_eq!(files.size(handle), Ok(16384));
    let back = files.read(handle, 16384).unwrap();
    assert_eq!(back.len(), 16384);
    assert!(back.iter().all(|b| *b == 0xAB));
    assert_eq!(files.read(handle, 1), Ok(vec![]));
}

#[test]
fn write_past_start_of_fresh_file_leaves_zeros_before_it() {
    let mut files = table(64);
    assert!(files.mount("fresh", 3));
    let handle = files.open("fresh").unwrap();
    assert_eq!(files.size(handle), Ok(0));
    assert_eq!(files.seek(handle, 5, Whence::Start), Ok(5));
    assert_eq!(files.write(handle, &[7u8; 10]), Ok(()));
    assert_eq!(files.size(handle), Ok(15));
    assert_eq!(files.seek(handle, 0, Whence::Start), Ok(0));
    assert_eq!(files.read(handle, 5), Ok(vec![0u8; 5]));
    assert_eq!(files.read(handle, 100), Ok(vec![7u8; 10]));
    assert_eq!(files.read(handle, 100), Ok(vec![]));
}

#[test]
fn restart_keeps_bytes_at_any_offset_under_another_path_too() {
    let mut files = table(64);
    assert!(files.mount("first", 9));
    let handle = files.open("first").unwrap();
    assert_eq!(files.seek(handle, 70000, Whence::Start), Ok(70000));
    assert_eq!(files.write(handle, b"left behind"), Ok(()));
    let mut files = files.restart().restart();
    assert!(files.mount("second", 9));
    let handle = files.open("second").unwrap();
    assert_eq!(files.size(handle), Ok(70011));
    assert_eq!(files.seek(handle, 70000, Whence::Start), Ok(70000));
    assert_eq!(files.read(handle, 11), Ok(b"left behind".to_vec()));
    assert_eq!(files.seek(handle, 69998, Whence::Start), Ok(69998));
    assert_eq!(files.read(handle, 3), Ok(vec![0, 0, b'l']));
}

#[test]
fn open_fails_for_a_path_that_is_not_mounted() {
    let mut files = table(4);
    assert_eq!(files.open("nowhere"), Err(StorageError::FileNotMounted));
    assert!(files.mount("somewhere", 1));
    assert_eq!(files.open("nowhere"), Err(StorageError::FileNotMounted));
    assert!(files.open("somewhere").is_ok());
    assert!(files.unmount("somewhere"));
    assert_eq!(files.open("somewhere"), Err(StorageError::FileNotMounted));
}

#[test]
fn write_then_read_returns_the_written_bytes() {
    let mut files = table(16);
    assert!(files.mount("f", 2));
    let handle = files.open("f").unwrap();
    let data: Vec<u8> = (0..200u8).collect();
    for offset in [0i64, 1, 199, 200, 65528, 65536, 131071] {
        assert_eq!(files.seek(handle, offset, Whence::Start), Ok(offset as u64));
        assert_eq!(files.write(handle, &data), Ok(()));
        assert_eq!(files.position(handle), Ok(offset as u64 + 200));
        assert_eq!(files.seek(handle, offset, Whence::Start), Ok(offset as u64));
        assert_eq!(files.read(handle, 200), Ok(data.clone()));
        assert_eq!(files.position(handle), Ok(offset as u64 + 200));
    }
    assert_eq!(files.size(handle), Ok(131271));
}

#[test]
fn read_is_short_only_at_the_end_of_the_file() {
    let mut files = table(4);
    assert!(files.mount("f", 2));
    let handle = files.open("f").unwrap();
    assert_eq!(files.read(handle, 10), Ok(vec![]));
    assert_eq!(files.write(handle, &[1, 2, 3, 4, 5]), Ok(()));
    assert_eq!(files.seek(handle, 0, Whence::Start), Ok(0));
    assert_eq!(files.read(handle, 2), Ok(vec![1, 2]));
    assert_eq!(files.read(handle, 0), Ok(vec![]));
    assert_eq!(files.position(handle), Ok(2));
    assert_eq!(files.read(handle, 10), Ok(vec![3, 4, 5]));
    assert_eq!(files.position(handle), Ok(5));
    assert_eq!(files.read(handle, 10), Ok(vec![]));
    assert_eq!(files.seek(handle, 100, Whence::Start), Ok(100));
    assert_eq!(files.read(handle, 10), Ok(vec![]));
    assert_eq!(files.position(handle), Ok(100));
}

#[test]
fn write_inside_the_file_overwrites_and_keeps_the_length() {
    let mut files = table(4);
    assert!(files.mount("f", 2));
    let handle = files.open("f").unwrap();
    assert_eq!(files.write(handle, &[1, 2, 3, 4, 5, 6]), Ok(()));
    assert_eq!(files.seek(handle, 2, Whence::Start), Ok(2));
    assert_eq!(files.write(handle, &[9, 9]), Ok(()));
    assert_eq!(files.size(handle), Ok(6));
    assert_eq!(files.write(handle, &[8, 8, 8]), Ok(()));
    assert_eq!(files.size(handle), Ok(7));
    assert_eq!(files.seek(handle, 0, Whence::Start), Ok(0));
    assert_eq!(files.read(handle, 100), Ok(vec![1, 2, 9, 9, 8, 8, 8]));
}

#[test]
fn empty_write_changes_nothing() {
    let mut files = table(1);
    assert!(files.mount("f", 2));
    let handle = files.open("f").unwrap();
    assert_eq!(files.write(handle, &[1, 2]), Ok(()));
    assert_eq!(files.seek(handle, 50, Whence::Start), Ok(50));
    assert_eq!(files.write(handle, &[]), Ok(()));
    assert_eq!(files.size(handle), Ok(2));
    assert_eq!(files.position(handle), Ok(50));
    assert_eq!(files.seek(handle, 1 << 40, Whence::Start), Ok(1 << 40));
    assert_eq!(files.write(handle, &[]), Ok(()));
    assert_eq!(files.size(handle), Ok(2));
}

#[test]
fn seek_counts_from_start_cursor_and_end() {
    let mut files = table(4);
    assert!(files.mount("f", 2));
    let handle = files.open("f").unwrap();
    assert_eq!(files.write(handle, &[0; 100]), Ok(()));
    assert_eq!(files.seek(handle, 10, Whence::Start), Ok(10));
    assert_eq!(files.seek(handle, 5, Whence::Current), Ok(15));
    assert_eq!(files.seek(handle, -15, Whence::Current), Ok(0));
    assert_eq!(files.seek(handle, 0, Whence::End), Ok(100));
    assert_eq!(files.seek(handle, -30, Whence::End), Ok(70));
    assert_eq!(files.seek(handle, 30, Whence::End), Ok(130));
    assert_eq!(files.seek(handle, 0, Whence::Current), Ok(130));
    assert_eq!(files.seek(handle, i64::MAX, Whence::Start), Ok(i64::MAX as u64));
    assert_eq!(files.seek(handle, i64::MAX, Whence::Current), Ok(u64::MAX - 1));
    assert_eq!(files.seek(handle, 1, Whence::Current), Ok(u64::MAX));
}

#[test]
fn seek_before_the_start_is_refused_and_leaves_the_cursor() {
    let mut files = table(4);
    assert!(files.mount("f", 2));
    let handle = files.open("f").unwrap();
    assert_eq!(files.write(handle, &[0; 10]), Ok(()));
    assert_eq!(files.seek(handle, 4, Whence::Start), Ok(4));
    assert_eq!(files.seek(handle, -1, Whence::Start), Err(StorageError::InvalidSeek));
    assert_eq!(files.seek(handle, i64::MIN, Whence::Start), Err(StorageError::InvalidSeek));
    assert_eq!(files.seek(handle, -5, Whence::Current), Err(StorageError::InvalidSeek));
    assert_eq!(files.seek(handle, -11, Whence::End), Err(StorageError::InvalidSeek));
    assert_eq!(files.position(handle), Ok(4));
    assert_eq!(files.seek(handle, -4, Whence::Current), Ok(0));
    assert_eq!(files.seek(handle, -10, Whence::End), Ok(0));
}

#[test]
fn seek_beyond_what_a_cursor_holds_is_refused() {
    let mut files = table(4);
    assert!(files.mount("f", 2));
    let handle = files.open("f").unwrap();
    assert_eq!(files.seek(handle, i64::MAX, Whence::Start), Ok(i64::MAX as u64));
    assert_eq!(files.seek(handle, i64::MAX, Whence::Current), Ok(u64::MAX - 1));
    assert_eq!(files.seek(handle, 2, Whence::Current), Err(StorageError::InvalidSeek));
    assert_eq!(files.position(handle), Ok(u64::MAX - 1));
}

#[test]
fn truncate_cuts_the_file_and_reads_end_there() {
    let mut files = table(4);
    assert!(files.mount("f", 2));
    let handle = files.open("f").unwrap();
    assert_eq!(files.write(handle, &[1, 2, 3, 4, 5, 6, 7, 8]), Ok(()));
    assert_eq!(files.truncate(handle, 3), Ok(()));
    assert_eq!(files.size(handle), Ok(3));
    assert_eq!(files.position(handle), Ok(8));
    assert_eq!(files.read(handle, 4), Ok(vec![]));
    assert_eq!(files.seek(handle, 3, Whence::Start), Ok(3));
    assert_eq!(files.read(handle, 4), Ok(vec![]));
    assert_eq!(files.seek(handle, 0, Whence::Start), Ok(0));
    assert_eq!(files.read(handle, 9), Ok(vec![1, 2, 3]));
}

#[test]
fn bytes_cut_off_do_not_come_back_when_the_file_grows_again() {
    let mut files = table(4);
    assert!(files.mount("f", 2));
    let handle = files.open("f").unwrap();
    assert_eq!(files.write(handle, &[9; 12]), Ok(()));
    assert_eq!(files.truncate(handle, 4), Ok(()));
    assert_eq!(files.seek(handle, 10, Whence::Start), Ok(10));
    assert_eq!(files.write(handle, &[5, 5]), Ok(()));
    assert_eq!(files.seek(handle, 0, Whence::Start), Ok(0));
    assert_eq!(files.read(handle, 100), Ok(vec![9, 9, 9, 9, 0, 0, 0, 0, 0, 0, 5, 5]));

    assert_eq!(files.truncate(handle, 2), Ok(()));
    assert_eq!(files.truncate(handle, 6), Ok(()));
    assert_eq!(files.seek(handle, 0, Whence::Start), Ok(0));
    assert_eq!(files.read(handle, 100), Ok(vec![9, 9, 0, 0, 0, 0]));

    assert_eq!(files.truncate(handle, 0), Ok(()));
    assert_eq!(files.truncate(handle, 12), Ok(()));
    assert_eq!(files.seek(handle, 0, Whence::Start), Ok(0));
    assert_eq!(files.read(handle, 100), Ok(vec![0; 12]));
}

#[test]
fn truncate_never_shrinks_the_region() {
    let mut files = table(4);
    assert!(files.mount("f", 2));
    let handle = files.open("f").unwrap();
    assert_eq!(files.seek(handle, (2 * PAGE) as i64, Whence::Start), Ok(2 * PAGE));
    assert_eq!(files.write(handle, &[1]), Ok(()));
    assert_eq!(files.truncate(handle, 0), Ok(()));
    assert_eq!(files.size(handle), Ok(0));
    let allocator = files.into_allocator();
    let store = allocator.into_store();
    let mut regions = RegionAllocator::new(store);
    let region = regions.get_or_create(2);
    assert_eq!(regions.capacity_pages(&region), 3);
}

#[test]
fn truncate_to_the_same_length_changes_nothing() {
    let mut files = table(0);
    assert!(files.mount("f", 2));
    let handle = files.open("f").unwrap();
    assert_eq!(files.truncate(handle, 0), Ok(()));
    assert_eq!(files.size(handle), Ok(0));
    assert_eq!(files.truncate(handle, 1), Err(StorageError::RegionCapacityExceeded));
    assert_eq!(files.write(handle, &[1]), Err(StorageError::RegionCapacityExceeded));
    assert_eq!(files.write(handle, &[]), Ok(()));
}

#[test]
fn the_hard_bound_counts_the_header_too() {
    let mut files = table(1);
    assert!(files.mount("f", 2));
    let handle = files.open("f").unwrap();
    let room = PAGE - HEADER_BYTES;
    assert_eq!(HEADER_BYTES, 8);
    assert_eq!(files.truncate(handle, room + 1), Err(StorageError::RegionCapacityExceeded));
    assert_eq!(files.size(handle), Ok(0));
    assert_eq!(files.truncate(handle, room), Ok(()));
    assert_eq!(files.size(handle), Ok(room));
    assert_eq!(files.seek(handle, 0, Whence::End), Ok(room));
    assert_eq!(files.write(handle, &[1]), Err(StorageError::RegionCapacityExceeded));
    assert_eq!(files.position(handle), Ok(room));
    assert_eq!(files.size(handle), Ok(room));
    assert_eq!(files.seek(handle, -1, Whence::End), Ok(room - 1));
    assert_eq!(files.write(handle, &[1, 2]), Err(StorageError::RegionCapacityExceeded));
    assert_eq!(files.write(handle, &[1]), Ok(()));
    assert_eq!(files.seek(handle, -2, Whence::End), Ok(room - 2));
    assert_eq!(files.read(handle, 5), Ok(vec![0, 1]));
    assert_eq!(files.seek(handle, -1, Whence::Current), Ok(room - 1));
    assert_eq!(files.seek(handle, i64::MAX, Whence::Current), Ok(room - 1 + i64::MAX as u64));
    assert_eq!(files.write(handle, &[1]), Err(StorageError::RegionCapacityExceeded));
}

#[test]
fn a_refused_write_leaves_the_file_as_it_was() {
    let mut files = table(1);
    assert!(files.mount("f", 2));
    let handle = files.open("f").unwrap();
    assert_eq!(files.write(handle, &[4, 5, 6]), Ok(()));
    assert_eq!(files.seek(handle, 1, Whence::Start), Ok(1));
    let too_long = vec![1u8; PAGE as usize];
    assert_eq!(files.write(handle, &too_long), Err(StorageError::RegionCapacityExceeded));
    assert_eq!(files.position(handle), Ok(1));
    assert_eq!(files.size(handle), Ok(3));
    assert_eq!(files.seek(handle, 0, Whence::Start), Ok(0));
    assert_eq!(files.read(handle, 10), Ok(vec![4, 5, 6]));
}

#[test]
fn handles_on_one_file_have_their_own_cursors() {
    let mut files = table(4);
    assert!(files.mount("f", 2));
    let writer = files.open("f").unwrap();
    let reader = files.open("f").unwrap();
    assert_ne!(writer, reader);
    assert_eq!(files.write(writer, &[1, 2, 3]), Ok(()));
    assert_eq!(files.position(writer), Ok(3));
    assert_eq!(files.position(reader), Ok(0));
    assert_eq!(files.read(reader, 2), Ok(vec![1, 2]));
    assert_eq!(files.write(writer, &[4]), Ok(()));
    assert_eq!(files.read(reader, 5), Ok(vec![3, 4]));
}

#[test]
fn files_on_different_regions_do_not_touch_each_other() {
    let mut files = table(4);
    assert!(files.mount("a", 1));
    assert!(files.mount("b", 2));
    let a = files.open("a").unwrap();
    let b = files.open("b").unwrap();
    assert_eq!(files.write(a, &[1; 30]), Ok(()));
    assert_eq!(files.write(b, &[2; 5]), Ok(()));
    assert_eq!(files.truncate(a, 10), Ok(()));
    assert_eq!(files.size(a), Ok(10));
    assert_eq!(files.size(b), Ok(5));
    assert_eq!(files.seek(b, 0, Whence::Start), Ok(0));
    assert_eq!(files.read(b, 10), Ok(vec![2; 5]));
}

#[test]
fn a_closed_handle_answers_no_call() {
    let mut files = table(4);
    assert!(files.mount("f", 2));
    let handle = files.open("f").unwrap();
    assert_eq!(files.write(handle, &[1, 2, 3]), Ok(()));
    assert_eq!(files.close(handle), Ok(()));
    assert_eq!(files.close(handle), Err(StorageError::FileNotMounted));
    assert_eq!(files.read(handle, 1), Err(StorageError::FileNotMounted));
    assert_eq!(files.write(handle, &[1]), Err(StorageError::FileNotMounted));
    assert_eq!(files.write(handle, &[]), Err(StorageError::FileNotMounted));
    assert_eq!(files.seek(handle, 0, Whence::Start), Err(StorageError::FileNotMounted));
    assert_eq!(files.seek(handle, -1, Whence::Start), Err(StorageError::FileNotMounted));
    assert_eq!(files.truncate(handle, 0), Err(StorageError::FileNotMounted));
    assert_eq!(files.size(handle), Err(StorageError::FileNotMounted));
    assert_eq!(files.position(handle), Err(StorageError::FileNotMounted));
    assert_eq!(files.lock(handle, LockLevel::Shared), Err(StorageError::FileNotMounted));
    assert_eq!(files.unlock(handle, LockLevel::Unlocked), Err(StorageError::FileNotMounted));
    assert_eq!(files.lock_level(handle), Err(StorageError::FileNotMounted));
    files.flush(handle);
    let again = files.open("f").unwrap();
    assert_eq!(files.read(again, 5), Ok(vec![1, 2, 3]));
}

#[test]
fn unmount_closes_the_handles_on_its_region_only() {
    let mut files = table(4);
    assert!(files.mount("a", 1));
    assert!(files.mount("b", 2));
    let a1 = files.open("a").unwrap();
    let b = files.open("b").unwrap();
    let a2 = files.open("a").unwrap();
    assert_eq!(files.write(a1, &[7; 4]), Ok(()));
    assert!(files.unmount("a"));
    assert!(!files.unmount("a"));
    assert_eq!(files.size(a1), Err(StorageError::FileNotMounted));
    assert_eq!(files.size(a2), Err(StorageError::FileNotMounted));
    assert_eq!(files.size(b), Ok(0));
    assert!(files.mount("c", 1));
    assert_eq!(files.size(a1), Err(StorageError::FileNotMounted));
    let c = files.open("c").unwrap();
    assert_eq!(files.read(c, 10), Ok(vec![7; 4]));
}

#[test]
fn mount_conflicts_are_refused_by_the_file_table() {
    let mut files = table(4);
    assert!(files.mount("a", 1));
    assert!(files.mount("a", 1));
    assert!(!files.mount("a", 2));
    assert!(!files.mount("b", 1));
    assert_eq!(files.resolve("a"), Ok(1));
    assert_eq!(files.resolve("b"), Err(StorageError::FileNotMounted));
}

#[test]
fn locks_rise_and_fall_and_are_never_refused() {
    let mut files = table(4);
    assert!(files.mount("f", 2));
    let first = files.open("f").unwrap();
    let second = files.open("f").unwrap();
    assert_eq!(files.lock_level(first), Ok(LockLevel::Unlocked));
    assert_eq!(files.lock(first, LockLevel::Shared), Ok(()));
    assert_eq!(files.lock(first, LockLevel::Exclusive), Ok(()));
    assert_eq!(files.lock(first, LockLevel::Reserved), Ok(()));
    assert_eq!(files.lock_level(first), Ok(LockLevel::Exclusive));
    assert_eq!(files.lock(second, LockLevel::Exclusive), Ok(()));
    assert_eq!(files.lock_level(second), Ok(LockLevel::Exclusive));
    assert_eq!(files.unlock(first, LockLevel::Shared), Ok(()));
    assert_eq!(files.lock_level(first), Ok(LockLevel::Shared));
    assert_eq!(files.unlock(first, LockLevel::Pending), Ok(()));
    assert_eq!(files.lock_level(first), Ok(LockLevel::Shared));
    assert_eq!(files.lock(first, LockLevel::Pending), Ok(()));
    assert_eq!(files.lock_level(first), Ok(LockLevel::Pending));
    assert_eq!(files.unlock(first, LockLevel::Unlocked), Ok(()));
    assert_eq!(files.lock_level(first), Ok(LockLevel::Unlocked));
    assert_eq!(files.write(first, &[1]), Ok(()));
    assert_eq!(files.lock_level(second), Ok(LockLevel::Exclusive));
    assert_eq!(files.close(second), Ok(()));
    assert_eq!(files.lock_level(second), Err(StorageError::FileNotMounted));
}

#[test]
fn reading_and_seeking_keep_the_lock() {
    let mut files = table(4);
    assert!(files.mount("f", 2));
    let handle = files.open("f").unwrap();
    assert_eq!(files.lock(handle, LockLevel::Reserved), Ok(()));
    assert_eq!(files.write(handle, &[1, 2]), Ok(()));
    assert_eq!(files.seek(handle, 0, Whence::Start), Ok(0));
    assert_eq!(files.read(handle, 2), Ok(vec![1, 2]));
    assert_eq!(files.truncate(handle, 1), Ok(()));
    assert_eq!(files.lock_level(handle), Ok(LockLevel::Reserved));
}

#[test]
fn grow_region_leaves_a_files_bytes_alone() {
    let mut files = table(8);
    assert!(files.mount("f", 2));
    let handle = files.open("f").unwrap();
    assert_eq!(files.write(handle, &[3; 20]), Ok(()));
    assert_eq!(files.grow_region(2, 4), Ok(1));
    assert_eq!(files.grow_region(2, 4), Err(StorageError::RegionCapacityExceeded));
    assert_eq!(files.grow_region(5, 8), Ok(0));
    assert_eq!(files.limit_pages(2), 8);
    assert_eq!(files.size(handle), Ok(20));
    assert_eq!(files.seek(handle, 0, Whence::Start), Ok(0));
    assert_eq!(files.read(handle, 30), Ok(vec![3; 20]));
}

#[test]
fn a_header_that_claims_too_much_is_held_to_the_region() {
    let mut regions = RegionAllocator::new(PageStore::new(2).unwrap());
    let region = regions.get_or_create(6);
    assert_eq!(regions.write(&region, 0, &u64::MAX.to_le_bytes()), Ok(()));
    assert_eq!(regions.write(&region, 8, &[1, 2, 3]), Ok(()));
    let mut files = VirtualFileTable::new(regions);
    assert!(files.mount("odd", 6));
    let handle = files.open("odd").unwrap();
    assert_eq!(files.size(handle), Ok(PAGE - 8));
    assert_eq!(files.read(handle, 4), Ok(vec![1, 2, 3, 0]));
    assert_eq!(files.truncate(handle, 2), Ok(()));
    assert_eq!(files.size(handle), Ok(2));
}

#[test]
fn the_length_is_kept_in_the_first_bytes_of_the_region() {
    let mut files = table(2);
    assert!(files.mount("f", 6));
    let handle = files.open("f").unwrap();
    assert_eq!(files.write(handle, &[0xEE; 300]), Ok(()));
    let mut regions = RegionAllocator::new(files.into_allocator().into_store());
    let region = regions.get_or_create(6);
    assert_eq!(regions.read(&region, 0, 10), Ok(vec![44, 1, 0, 0, 0, 0, 0, 0, 0xEE, 0xEE]));
    assert_eq!(regions.read(&region, 306, 4), Ok(vec![0xEE, 0xEE, 0, 0]));
}

#[test]
fn a_file_is_held_to_the_bound_of_its_own_region() {
    let mut files = table(1);
    assert!(files.mount("small", 1));
    assert!(files.mount("large", 2));
    assert_eq!(files.set_limit(2, 3), Ok(()));
    assert_eq!(files.limit_pages(1), 1);
    assert_eq!(files.limit_pages(2), 3);
    let small = files.open("small").unwrap();
    let large = files.open("large").unwrap();
    let two_pages = vec![4u8; 2 * PAGE as usize];
    assert_eq!(files.write(small, &two_pages), Err(StorageError::RegionCapacityExceeded));
    assert_eq!(files.write(large, &two_pages), Ok(()));
    assert_eq!(files.truncate(small, PAGE), Err(StorageError::RegionCapacityExceeded));
    assert_eq!(files.truncate(large, 3 * PAGE - 8), Ok(()));
    assert_eq!(files.truncate(large, 3 * PAGE - 7), Err(StorageError::RegionCapacityExceeded));
    assert_eq!(files.set_limit(2, 2), Err(StorageError::RegionCapacityExceeded));
    assert_eq!(files.set_limit(2, 16385), Err(StorageError::RegionCapacityExceeded));
    assert_eq!(files.set_limit(2, 16384), Ok(()));
    assert_eq!(files.set_limit(1, 0), Ok(()));
    assert_eq!(files.write(small, &[1]), Err(StorageError::RegionCapacityExceeded));
    assert_eq!(files.size(large), Ok(3 * PAGE - 8));
    let files = files.restart();
    assert_eq!(files.limit_pages(1), 0);
    assert_eq!(files.limit_pages(2), 16384);
}

#[test]
fn a_reserved_lock_is_seen_from_every_handle_on_the_file() {
    let mut files = table(4);
    assert!(files.mount("a", 1));
    assert!(files.mount("b", 2));
    let first = files.open("a").unwrap();
    let second = files.open("a").unwrap();
    let other = files.open("b").unwrap();
    assert_eq!(files.check_reserved_lock(first), Ok(false));
    assert_eq!(files.lock(second, LockLevel::Shared), Ok(()));
    assert_eq!(files.check_reserved_lock(first), Ok(false));
    assert_eq!(files.lock(second, LockLevel::Exclusive), Ok(()));
    assert_eq!(files.check_reserved_lock(first), Ok(true));
    assert_eq!(files.check_reserved_lock(second), Ok(true));
    assert_eq!(files.check_reserved_lock(other), Ok(false));
    assert_eq!(files.close(second), Ok(()));
    assert_eq!(files.check_reserved_lock(first), Ok(false));
    assert_eq!(files.check_reserved_lock(second), Err(StorageError::FileNotMounted));
    assert_eq!(files.lock(other, LockLevel::Pending), Ok(()));
    assert_eq!(files.check_reserved_lock(other), Ok(true));
    assert_eq!(files.check_reserved_lock(first), Ok(false));
    assert_eq!(files.region(first), Ok(1));
    assert_eq!(files.region(other), Ok(2));
    assert_eq!(files.region(second), Err(StorageError::FileNotMounted));
}
