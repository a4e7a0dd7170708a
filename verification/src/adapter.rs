//! What the SQL engine sees: the file calls it makes, answered by the file
//! table, and the tuning it is started with, handed through as given.

use crate::error::StorageError;
use crate::file_table::content_after_truncate;
use crate::file_table::content_after_write;
use crate::file_table::higher_lock;
use crate::file_table::lower_lock;
use crate::file_table::LockLevel;
use crate::file_table::OpenFile;
use crate::file_table::read_at;
use crate::file_table::FileHandle;
use crate::file_table::VirtualFileTable;
use crate::file_table::Whence;
use crate::file_table::HEADER_BYTES;
use vstd::prelude::*;

verus! {

/// The settings that the SQL engine is tuned with. They decide how often and
/// by how much the engine writes, so they are the caller's to choose.
pub struct EngineTuning {
    /// How the engine disposes of its journal after a transaction.
    pub journal_mode: String,
    /// How eagerly the engine asks for its writes to be made durable.
    pub synchronous: i64,
    /// The size in bytes of one page of the database.
    pub page_size: i64,
    /// Whether the engine gives up its locks between transactions.
    pub locking_mode: String,
    /// Where the engine keeps temporary tables.
    pub temp_store: i64,
}

/// The value of one setting.
pub enum PragmaValue {
    /// A word, such as the name of a mode.
    Text(String),
    /// A number.
    Integer(i64),
}

/// One setting to hand to the engine: its name and its value.
pub struct Pragma {
    /// The name of the setting.
    pub name: String,
    /// The value to give it.
    pub value: PragmaValue,
}

/// The value of one setting, as plain data.
pub enum PragmaModel {
    /// A word.
    Text(Seq<char>),
    /// A number.
    Integer(int),
}

impl View for PragmaValue {
    type V = PragmaModel;

    open spec fn view(&self) -> PragmaModel {
        match self {
            PragmaValue::Text(word) => PragmaModel::Text(word@),
            PragmaValue::Integer(number) => PragmaModel::Integer(*number as int),
        }
    }
}

impl View for Pragma {
    type V = (Seq<char>, PragmaModel);

    open spec fn view(&self) -> (Seq<char>, PragmaModel) {
        (self.name@, self.value@)
    }
}

/// The settings that a tuning stands for, in the order in which the engine is
/// given them.
pub open spec fn tuning_pragmas(tuning: EngineTuning) -> Seq<(Seq<char>, PragmaModel)> {
    seq![
        ("journal_mode"@, PragmaModel::Text(tuning.journal_mode@)),
        ("synchronous"@, PragmaModel::Integer(tuning.synchronous as int)),
        ("page_size"@, PragmaModel::Integer(tuning.page_size as int)),
        ("locking_mode"@, PragmaModel::Text(tuning.locking_mode@)),
        ("temp_store"@, PragmaModel::Integer(tuning.temp_store as int)),
    ]
}

impl EngineTuning {
    /// The tuning for a database on a mounted memory file: the journal is cut
    /// to nothing instead of deleted, nothing is synchronised, pages are 16 KiB,
    /// locks are kept, and temporary tables stay in memory.
    pub fn standard() -> (tuning: EngineTuning)
        ensures
            tuning.journal_mode@ == "TRUNCATE"@,
            tuning.synchronous == 0,
            tuning.page_size == 16384,
            tuning.locking_mode@ == "EXCLUSIVE"@,
            tuning.temp_store == 2,
    {
        EngineTuning {
            journal_mode: "TRUNCATE".to_owned(),
            synchronous: 0,
            page_size: 16384,
            locking_mode: "EXCLUSIVE".to_owned(),
            temp_store: 2,
        }
    }
}

/// The settings to hand to the engine for a tuning, each as it was given.
pub fn set_pragmas(tuning: &EngineTuning) -> (pragmas: Vec<Pragma>)
    ensures
        pragmas@.map_values(|p: Pragma| p@) == tuning_pragmas(*tuning),
{
    let mut pragmas: Vec<Pragma> = Vec::new();
    pragmas.push(
        Pragma {
            name: "journal_mode".to_owned(),
            value: PragmaValue::Text(tuning.journal_mode.clone()),
        },
    );
    pragmas.push(
        Pragma { name: "synchronous".to_owned(), value: PragmaValue::Integer(tuning.synchronous) },
    );
    pragmas.push(
        Pragma { name: "page_size".to_owned(), value: PragmaValue::Integer(tuning.page_size) },
    );
    pragmas.push(
        Pragma {
            name: "locking_mode".to_owned(),
            value: PragmaValue::Text(tuning.locking_mode.clone()),
        },
    );
    pragmas.push(
        Pragma { name: "temp_store".to_owned(), value: PragmaValue::Integer(tuning.temp_store) },
    );
    assert(pragmas@.map_values(|p: Pragma| p@) =~= tuning_pragmas(*tuning));
    pragmas
}

/// The engine's side of the storage: the files it works on and the tuning it
/// runs with.
pub struct SqlAdapter {
    /// The mounted files.
    pub files: VirtualFileTable,
    /// The tuning that the engine is started with.
    pub tuning: EngineTuning,
}

impl SqlAdapter {
    /// The files are well formed.
    pub open spec fn well_formed(&self) -> bool {
        self.files.well_formed()
    }

    /// An adapter over a file table, with the tuning to hand to the engine.
    pub fn new(files: VirtualFileTable, tuning: EngineTuning) -> (adapter: SqlAdapter)
        requires
            files.well_formed(),
        ensures
            adapter.well_formed(),
            adapter.files == files,
            adapter.tuning == tuning,
    {
        SqlAdapter { files, tuning }
    }

    /// The settings to hand to the engine, from the adapter's tuning.
    pub fn pragmas(&self) -> (pragmas: Vec<Pragma>)
        ensures
            pragmas@.map_values(|p: Pragma| p@) == tuning_pragmas(self.tuning),
    {
        set_pragmas(&self.tuning)
    }

    /// Opens the file that `path` is mounted to, as the file table does.
    pub fn open(&mut self, path: &str) -> (r: Result<FileHandle, StorageError>)
        requires
            old(self).well_formed(),
        ensures
            final(self).well_formed(),
            final(self).tuning == old(self).tuning,
            final(self).files.allocator() == old(self).files.allocator(),
            final(self).files.mounts() == old(self).files.mounts(),
            match r {
                Ok(handle) => {
                    &&& old(self).files.mounts().contains_key(path@)
                    &&& handle.index() == old(self).files.handles().len()
                    &&& final(self).files.handles() == old(self).files.handles().push(
                        OpenFile {
                            region: old(self).files.mounts()[path@],
                            cursor: 0,
                            open: true,
                            lock: LockLevel::Unlocked,
                        },
                    )
                },
                Err(e) => {
                    &&& !old(self).files.mounts().contains_key(path@)
                    &&& e == StorageError::FileNotMounted
                    &&& final(self).files.handles() == old(self).files.handles()
                },
            },
    {
        self.files.open(path)
    }

    /// Closes a handle, giving up its lock.
    pub fn close(&mut self, handle: FileHandle) -> (r: Result<(), StorageError>)
        requires
            old(self).well_formed(),
        ensures
            final(self).well_formed(),
            final(self).tuning == old(self).tuning,
            final(self).files.allocator() == old(self).files.allocator(),
            final(self).files.mounts() == old(self).files.mounts(),
            match r {
                Ok(()) => {
                    &&& old(self).files.is_open(handle)
                    &&& final(self).files.handles() == old(self).files.handles().update(
                        handle.index(),
                        OpenFile {
                            region: old(self).files.region_of(handle),
                            cursor: old(self).files.cursor(handle),
                            open: false,
                            lock: LockLevel::Unlocked,
                        },
                    )
                },
                Err(e) => {
                    &&& !old(self).files.is_open(handle)
                    &&& e == StorageError::FileNotMounted
                    &&& final(self).files.handles() == old(self).files.handles()
                },
            },
    {
        self.files.close(handle)
    }

    /// Sets the length of a file, as the file table does.
    pub fn truncate(&mut self, handle: FileHandle, size: u64) -> (r: Result<(), StorageError>)
        requires
            old(self).well_formed(),
        ensures
            final(self).well_formed(),
            final(self).tuning == old(self).tuning,
            final(self).files.mounts() == old(self).files.mounts(),
            final(self).files.handles() == old(self).files.handles(),
            final(self).files.limits() == old(self).files.limits(),
            match r {
                Ok(()) => {
                    &&& old(self).files.is_open(handle)
                    &&& final(self).files.content(handle) == content_after_truncate(
                        old(self).files.content(handle),
                        size as nat,
                    )
                    &&& forall|id: u8|
                        id != old(self).files.region_of(handle) ==> final(self).files.regions()[id]
                            == old(self).files.regions()[id]
                },
                Err(e) => {
                    &&& final(self).files.allocator() == old(self).files.allocator()
                    &&& if old(self).files.is_open(handle) {
                        &&& e == StorageError::RegionCapacityExceeded
                        &&& size > old(self).files.content(handle).len()
                        &&& HEADER_BYTES + size > old(self).files.limit_bytes(
                            old(self).files.region_of(handle),
                        )
                    } else {
                        e == StorageError::FileNotMounted
                    }
                },
            },
    {
        self.files.truncate(handle, size)
    }

    /// Raises the lock of a handle to `level`. No lock is ever refused to an
    /// open handle: one process with one thread is the only user of the files.
    pub fn lock(&mut self, handle: FileHandle, level: LockLevel) -> (r: Result<(), StorageError>)
        requires
            old(self).well_formed(),
        ensures
            final(self).well_formed(),
            final(self).tuning == old(self).tuning,
            final(self).files.allocator() == old(self).files.allocator(),
            final(self).files.mounts() == old(self).files.mounts(),
            match r {
                Ok(()) => {
                    &&& old(self).files.is_open(handle)
                    &&& final(self).files.handles() == old(self).files.handles_with_lock(
                        handle,
                        higher_lock(old(self).files.lock_of(handle), level),
                    )
                },
                Err(e) => {
                    &&& !old(self).files.is_open(handle)
                    &&& e == StorageError::FileNotMounted
                    &&& final(self).files.handles() == old(self).files.handles()
                },
            },
    {
        self.files.lock(handle, level)
    }

    /// Lowers the lock of a handle to `level`.
    pub fn unlock(&mut self, handle: FileHandle, level: LockLevel) -> (r: Result<
        (),
        StorageError,
    >)
        requires
            old(self).well_formed(),
        ensures
            final(self).well_formed(),
            final(self).tuning == old(self).tuning,
            final(self).files.allocator() == old(self).files.allocator(),
            final(self).files.mounts() == old(self).files.mounts(),
            match r {
                Ok(()) => {
                    &&& old(self).files.is_open(handle)
                    &&& final(self).files.handles() == old(self).files.handles_with_lock(
                        handle,
                        lower_lock(old(self).files.lock_of(handle), level),
                    )
                },
                Err(e) => {
                    &&& !old(self).files.is_open(handle)
                    &&& e == StorageError::FileNotMounted
                    &&& final(self).files.handles() == old(self).files.handles()
                },
            },
    {
        self.files.unlock(handle, level)
    }

    /// Whether some open handle on the same file holds a lock of at least the
    /// reserved level.
    pub fn check_reserved_lock(&self, handle: FileHandle) -> (r: Result<bool, StorageError>)
        requires
            self.well_formed(),
        ensures
            match r {
                Ok(reserved) => self.files.is_open(handle) && reserved == self.files.reserved_on(
                    handle,
                ),
                Err(e) => !self.files.is_open(handle) && e == StorageError::FileNotMounted,
            },
    {
        self.files.check_reserved_lock(handle)
    }

    /// Reads up to `amount` bytes at `offset` of a file, leaving the cursor
    /// behind them. Fewer bytes come back only where the file ends.
    pub fn read_at(&mut self, handle: FileHandle, offset: u64, amount: usize) -> (r: Result<
        Vec<u8>,
        StorageError,
    >)
        requires
            old(self).well_formed(),
        ensures
            final(self).well_formed(),
            final(self).tuning == old(self).tuning,
            final(self).files.allocator() == old(self).files.allocator(),
            final(self).files.mounts() == old(self).files.mounts(),
            match r {
                Ok(bytes) => {
                    &&& old(self).files.is_open(handle)
                    &&& offset <= i64::MAX
                    &&& bytes@ == read_at(
                        old(self).files.content(handle),
                        offset as nat,
                        amount as nat,
                    )
                    &&& final(self).files.handles() == old(self).files.handles_with_cursor(
                        handle,
                        (offset + bytes@.len()) as u64,
                    )
                },
                Err(e) => {
                    &&& final(self).files.handles() == old(self).files.handles()
                    &&& if old(self).files.is_open(handle) {
                        e == StorageError::InvalidSeek && offset > i64::MAX
                    } else {
                        e == StorageError::FileNotMounted
                    }
                },
            },
    {
        if self.files.position(handle).is_err() {
            return Err(StorageError::FileNotMounted);
        }
        if offset > i64::MAX as u64 {
            return Err(StorageError::InvalidSeek);
        }
        let ghost before = self.files;
        let moved = self.files.seek(handle, offset as i64, Whence::Start);
        assert(moved is Ok);
        match self.files.read(handle, amount) {
            Ok(bytes) => {
                assert(self.files.handles() =~= before.handles_with_cursor(
                    handle,
                    (offset + bytes@.len()) as u64,
                ));
                Ok(bytes)
            },
            Err(e) => Err(e),
        }
    }

    /// Writes `data` at `offset` of a file, leaving the cursor behind it. A
    /// write that the hard upper bound of the region does not admit is refused
    /// before anything changes, the cursor included.
    pub fn write_at(&mut self, handle: FileHandle, offset: u64, data: &[u8]) -> (r: Result<
        (),
        StorageError,
    >)
        requires
            old(self).well_formed(),
        ensures
            final(self).well_formed(),
            final(self).tuning == old(self).tuning,
            final(self).files.mounts() == old(self).files.mounts(),
            final(self).files.limits() == old(self).files.limits(),
            match r {
                Ok(()) => {
                    &&& old(self).files.is_open(handle)
                    &&& offset <= i64::MAX
                    &&& final(self).files.content(handle) == content_after_write(
                        old(self).files.content(handle),
                        offset as nat,
                        data@,
                    )
                    &&& final(self).files.handles() == old(self).files.handles_with_cursor(
                        handle,
                        (offset + data@.len()) as u64,
                    )
                    &&& forall|id: u8|
                        id != old(self).files.region_of(handle) ==> final(self).files.regions()[id]
                            == old(self).files.regions()[id]
                },
                Err(e) => {
                    &&& final(self).files.allocator() == old(self).files.allocator()
                    &&& final(self).files.handles() == old(self).files.handles()
                    &&& if !old(self).files.is_open(handle) {
                        e == StorageError::FileNotMounted
                    } else if offset > i64::MAX {
                        e == StorageError::InvalidSeek
                    } else {
                        &&& e == StorageError::RegionCapacityExceeded
                        &&& data@.len() > 0
                        &&& HEADER_BYTES + offset + data@.len() > old(self).files.limit_bytes(
                            old(self).files.region_of(handle),
                        )
                    }
                },
            },
    {
        let region = match self.files.region(handle) {
            Ok(region) => region,
            Err(_) => {
                return Err(StorageError::FileNotMounted);
            },
        };
        if offset > i64::MAX as u64 {
            return Err(StorageError::InvalidSeek);
        }
        let limit: u64 = self.files.limit_pages(region) * crate::memory::PAGE_BYTES;
        if data.len() > 0 && (limit < HEADER_BYTES || offset > limit - HEADER_BYTES || data.len() as u64
            > limit - HEADER_BYTES - offset) {
            return Err(StorageError::RegionCapacityExceeded);
        }
        let ghost before = self.files;
        let moved = self.files.seek(handle, offset as i64, Whence::Start);
        assert(moved is Ok);
        let put = self.files.write(handle, data);
        assert(put is Ok);
        assert(self.files.handles() =~= before.handles_with_cursor(
            handle,
            (offset + data@.len()) as u64,
        ));
        Ok(())
    }

    /// Makes the writes to a file durable. They already are.
    pub fn sync(&self, handle: FileHandle) {
        self.files.flush(handle)
    }

    /// The length of a file.
    pub fn file_size(&self, handle: FileHandle) -> (r: Result<u64, StorageError>)
        requires
            self.well_formed(),
        ensures
            match r {
                Ok(length) => self.files.is_open(handle) && length == self.files.content(
                    handle,
                ).len(),
                Err(e) => !self.files.is_open(handle) && e == StorageError::FileNotMounted,
            },
    {
        self.files.size(handle)
    }
}

} // verus!
