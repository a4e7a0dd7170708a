use stable_vfs::error::StorageError;
use stable_vfs::mount::MountTable;

#[test]
fn resolve_returns_the_mounted_region() {
    let mut table = MountTable::new();
    assert_eq!(table.resolve("db.db3"), Err(StorageError::FileNotMounted));
    assert!(table.mount("db.db3", 20));
    assert!(table.mount("db.db3-journal", 21));
    assert_eq!(table.resolve("db.db3"), Ok(20));
    assert_eq!(table.resolve("db.db3-journal"), Ok(21));
    assert_eq!(table.resolve("db.db"), Err(StorageError::FileNotMounted));
    assert_eq!(table.resolve(""), Err(StorageError::FileNotMounted));
}

#[test]
fn mounting_the_same_pair_again_is_accepted() {
    let mut table = MountTable::new();
    assert!(table.mount("a", 1));
    assert!(table.mount("a", 1));
    assert_eq!(table.resolve("a"), Ok(1));
    assert!(table.unmount("a"));
    assert_eq!(table.resolve("a"), Err(StorageError::FileNotMounted));
    assert!(!table.unmount("a"));
}

#[test]
fn a_path_cannot_move_to_another_region() {
    let mut table = MountTable::new();
    assert!(table.mount("a", 1));
    assert!(!table.mount("a", 2));
    assert_eq!(table.resolve("a"), Ok(1));
    assert!(table.mount("b", 2));
}

#[test]
fn two_paths_cannot_share_a_region() {
    let mut table = MountTable::new();
    assert!(table.mount("a", 1));
    assert!(!table.mount("b", 1));
    assert_eq!(table.resolve("b"), Err(StorageError::FileNotMounted));
    assert_eq!(table.resolve("a"), Ok(1));
    assert!(table.unmount("a"));
    assert!(table.mount("b", 1));
    assert_eq!(table.resolve("b"), Ok(1));
}

#[test]
fn unmount_removes_only_the_named_path() {
    let mut table = MountTable::new();
    assert!(table.mount("a", 1));
    assert!(table.mount("b", 2));
    assert!(table.mount("c", 3));
    assert!(!table.unmount("d"));
    assert!(table.unmount("b"));
    assert_eq!(table.resolve("a"), Ok(1));
    assert_eq!(table.resolve("b"), Err(StorageError::FileNotMounted));
    assert_eq!(table.resolve("c"), Ok(3));
    assert!(table.mount("d", 2));
    assert_eq!(table.resolve("d"), Ok(2));
}

#[test]
fn the_empty_path_and_the_last_region_can_be_mounted() {
    let mut table = MountTable::new();
    assert!(table.mount("", 254));
    assert_eq!(table.resolve(""), Ok(254));
    assert!(table.mount("caf\u{e9}", 0));
    assert_eq!(table.resolve("caf\u{e9}"), Ok(0));
    assert_eq!(table.resolve("cafe"), Err(StorageError::FileNotMounted));
}
