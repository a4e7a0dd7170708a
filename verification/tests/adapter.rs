use stable_vfs::adapter::set_pragmas;
use stable_vfs::adapter::EngineTuning;
use stable_vfs::adapter::Pragma;
use stable_vfs::adapter::PragmaValue;
use stable_vfs::adapter::SqlAdapter;
use stable_vfs::allocator::RegionAllocator;
use stable_vfs::error::StorageError;
use stable_vfs::file_table::LockLevel;
use stable_vfs::file_table::VirtualFileTable;
use stable_vfs::page_store::PageStore;

fn adapter(page_limit: u64) -> SqlAdapter {
    let files = VirtualFileTable::new(RegionAllocator::new(PageStore::new(page_limit).unwrap()));
    SqlAdapter::new(files, EngineTuning::standard())
}

fn shown(pragmas: &[Pragma]) -> Vec<(String, String)> {
    pragmas
        .iter()
        .map(|p| {
            let value = match &p.value {
                PragmaValue::Text(word) => format!("text {}", word),
                PragmaValue::Integer(number) => format!("integer {}", number),
            };
            (p.name.clone(), value)
        })
        .collect()
}

#[test]
fn standard_tuning_has_the_settings_for_a_mounted_memory_file() {
    let tuning = EngineTuning::standard();
    assert_eq!(tuning.journal_mode, "TRUNCATE");
    assert_eq!(tuning.synchronous, 0);
    assert_eq!(tuning.page_size, 16384);
    assert_eq!(tuning.locking_mode, "EXCLUSIVE");
    assert_eq!(tuning.temp_store, 2);
}

#[test]
fn set_pragmas_lists_the_standard_settings_in_order() {
    let pragmas = set_pragmas(&EngineTuning::standard());
    assert_eq!(
        shown(&pragmas),
        vec![
            ("journal_mode".to_string(), "text TRUNCATE".to_string()),
            ("synchronous".to_string(), "integer 0".to_string()),
            ("page_size".to_string(), "integer 16384".to_string()),
            ("locking_mode".to_string(), "text EXCLUSIVE".to_string()),
            ("temp_store".to_string(), "integer 2".to_string()),
        ]
    );
}

#[test]
fn set_pragmas_hands_every_setting_through_as_given() {
    let tuning = EngineTuning {
        journal_mode: "wal".to_string(),
        synchronous: -3,
        page_size: 65536,
        locking_mode: String::new(),
        temp_store: i64::MAX,
    };
    assert_eq!(
        shown(&set_pragmas(&tuning)),
        vec![
            ("journal_mode".to_string(), "text wal".to_string()),
            ("synchronous".to_string(), "integer -3".to_string()),
            ("page_size".to_string(), "integer 65536".to_string()),
            ("locking_mode".to_string(), "text ".to_string()),
            ("temp_store".to_string(), format!("integer {}", i64::MAX)),
        ]
    );
}

#[test]
fn adapter_hands_its_own_tuning_to_the_engine() {
    let mut engine = adapter(1);
    engine.tuning.page_size = 4096;
    let pragmas = engine.pragmas();
    assert_eq!(shown(&pragmas)[2], ("page_size".to_string(), "integer 4096".to_string()));
    assert_eq!(shown(&pragmas).len(), 5);
}

#[test]
fn positional_write_and_read_go_through_the_file() {
    let mut engine = adapter(8);
    assert!(engine.files.mount("db.db3", 20));
    let handle = engine.files.open("db.db3").unwrap();
    let page = vec![0x5Au8; 16384];
    assert_eq!(engine.write_at(handle, 16384, &page), Ok(()));
    assert_eq!(engine.file_size(handle), Ok(32768));
    assert_eq!(engine.files.position(handle), Ok(32768));
    assert_eq!(engine.read_at(handle, 0, 16384), Ok(vec![0u8; 16384]));
    assert_eq!(engine.files.position(handle), Ok(16384));
    assert_eq!(engine.read_at(handle, 16384, 16384), Ok(page));
    assert_eq!(engine.read_at(handle, 32760, 100), Ok(vec![0x5A; 8]));
    assert_eq!(engine.files.position(handle), Ok(32768));
    assert_eq!(engine.read_at(handle, 40000, 100), Ok(vec![]));
    assert_eq!(engine.files.position(handle), Ok(40000));
    engine.sync(handle);
    assert_eq!(engine.file_size(handle), Ok(32768));
}

#[test]
fn positional_calls_refuse_what_the_file_refuses() {
    let mut engine = adapter(1);
    assert!(engine.files.mount("db.db3", 20));
    let handle = engine.files.open("db.db3").unwrap();
    assert_eq!(engine.write_at(handle, 3, &[1, 2]), Ok(()));
    let far = i64::MAX as u64 + 1;
    assert_eq!(engine.read_at(handle, far, 1), Err(StorageError::InvalidSeek));
    assert_eq!(engine.write_at(handle, far, &[1]), Err(StorageError::InvalidSeek));
    assert_eq!(engine.write_at(handle, far, &[]), Err(StorageError::InvalidSeek));
    assert_eq!(engine.write_at(handle, 65536 - 8, &[1]), Err(StorageError::RegionCapacityExceeded));
    assert_eq!(engine.write_at(handle, 1 << 40, &[1]), Err(StorageError::RegionCapacityExceeded));
    assert_eq!(engine.files.position(handle), Ok(5));
    assert_eq!(engine.file_size(handle), Ok(5));
    assert_eq!(engine.write_at(handle, 65536 - 9, &[1]), Ok(()));
    assert_eq!(engine.write_at(handle, 1 << 40, &[]), Ok(()));
    assert_eq!(engine.files.position(handle), Ok(1 << 40));
    assert_eq!(engine.files.close(handle), Ok(()));
    assert_eq!(engine.read_at(handle, 0, 1), Err(StorageError::FileNotMounted));
    assert_eq!(engine.read_at(handle, far, 1), Err(StorageError::FileNotMounted));
    assert_eq!(engine.write_at(handle, 0, &[1]), Err(StorageError::FileNotMounted));
    assert_eq!(engine.write_at(handle, far, &[1]), Err(StorageError::FileNotMounted));
    assert_eq!(engine.file_size(handle), Err(StorageError::FileNotMounted));
    engine.sync(handle);
}

#[test]
fn the_engine_opens_locks_cuts_and_closes_through_the_adapter() {
    let mut engine = adapter(4);
    assert_eq!(engine.open("db.db3"), Err(StorageError::FileNotMounted));
    assert!(engine.files.mount("db.db3", 20));
    let handle = engine.open("db.db3").unwrap();
    assert_eq!(engine.check_reserved_lock(handle), Ok(false));
    assert_eq!(engine.lock(handle, LockLevel::Shared), Ok(()));
    assert_eq!(engine.check_reserved_lock(handle), Ok(false));
    assert_eq!(engine.lock(handle, LockLevel::Reserved), Ok(()));
    assert_eq!(engine.check_reserved_lock(handle), Ok(true));
    assert_eq!(engine.write_at(handle, 0, &[1, 2, 3, 4]), Ok(()));
    assert_eq!(engine.truncate(handle, 2), Ok(()));
    assert_eq!(engine.file_size(handle), Ok(2));
    assert_eq!(engine.truncate(handle, 4 * 65536), Err(StorageError::RegionCapacityExceeded));
    assert_eq!(engine.truncate(handle, u64::MAX), Err(StorageError::RegionCapacityExceeded));
    assert_eq!(engine.file_size(handle), Ok(2));
    assert_eq!(engine.unlock(handle, LockLevel::Shared), Ok(()));
    assert_eq!(engine.files.lock_level(handle), Ok(LockLevel::Shared));
    assert_eq!(engine.check_reserved_lock(handle), Ok(false));
    assert_eq!(engine.close(handle), Ok(()));
    assert_eq!(engine.close(handle), Err(StorageError::FileNotMounted));
    assert_eq!(engine.lock(handle, LockLevel::Shared), Err(StorageError::FileNotMounted));
    assert_eq!(engine.unlock(handle, LockLevel::Unlocked), Err(StorageError::FileNotMounted));
    assert_eq!(engine.truncate(handle, 0), Err(StorageError::FileNotMounted));
    assert_eq!(engine.check_reserved_lock(handle), Err(StorageError::FileNotMounted));
}
