//! The storage context: the one object that owns the backing memory, the files
//! over it and the engine's tuning. It is made at start and made again, on the
//! same memory, at restart.

use crate::adapter::set_pragmas;
use crate::adapter::tuning_pragmas;
use crate::adapter::EngineTuning;
use crate::adapter::Pragma;
use crate::adapter::SqlAdapter;
use crate::allocator::RegionAllocator;
use crate::error::StorageError;
use crate::file_table::OpenFile;
use crate::file_table::VirtualFileTable;
use crate::memory::grown;
use crate::memory::PAGE_BYTES;
use crate::mount::mount_allowed;
use crate::mount::region_in_use;
use crate::page_store::empty_regions;
use crate::page_store::uniform_limits;
use crate::page_store::PageStore;
use crate::page_store::MAX_REGION_PAGES;
use vstd::prelude::*;
use vstd::string::StringExecFns;

verus! {

/// The region set aside for profiling data.
pub const PROFILING_REGION: u8 = 100;

/// Pages that the profiling region is grown by at start.
pub const PROFILING_PAGES: u64 = 4096;

/// The region that holds the database file. The journal's region follows it.
pub const MOUNTED_MEMORY_ID: u8 = 20;

/// The path of the database file.
pub open spec fn database_path() -> Seq<char> {
    "db.db3"@
}

/// The path of the journal that the engine keeps beside the database.
pub open spec fn journal_path() -> Seq<char> {
    "db.db3-journal1"@
}

/// The mounts that every start and restart sets up, on top of `mounts`: the
/// database file, then its journal, each where the table admits it.
pub open spec fn with_memory_files(mounts: Map<Seq<char>, u8>) -> Map<Seq<char>, u8> {
    let first = if mount_allowed(mounts, database_path(), MOUNTED_MEMORY_ID) {
        mounts.insert(database_path(), MOUNTED_MEMORY_ID)
    } else {
        mounts
    };
    if mount_allowed(first, journal_path(), (MOUNTED_MEMORY_ID + 1) as u8) {
        first.insert(journal_path(), (MOUNTED_MEMORY_ID + 1) as u8)
    } else {
        first
    }
}

/// Whether the table admits both mounts that a start sets up.
pub open spec fn memory_files_allowed(mounts: Map<Seq<char>, u8>) -> bool {
    &&& mount_allowed(mounts, database_path(), MOUNTED_MEMORY_ID)
    &&& mount_allowed(
        mounts.insert(database_path(), MOUNTED_MEMORY_ID),
        journal_path(),
        (MOUNTED_MEMORY_ID + 1) as u8,
    )
}

/// Everything that lives as long as the process.
pub struct StorageContext {
    /// The files, and the tuning of the engine that works on them.
    pub adapter: SqlAdapter,
}

impl StorageContext {
    /// The context's parts are well formed.
    pub open spec fn well_formed(&self) -> bool {
        self.adapter.well_formed()
    }

    /// The bytes of every region, by region identifier.
    pub open spec fn regions(&self) -> Map<u8, Seq<u8>> {
        self.adapter.files.regions()
    }

    /// The mounted paths, as a map from path to region identifier.
    pub open spec fn mounts(&self) -> Map<Seq<char>, u8> {
        self.adapter.files.mounts()
    }

    /// A context over a fresh memory: every region empty and bounded by
    /// `page_limit` pages, nothing mounted, no handle open. A bound above
    /// `MAX_REGION_PAGES` is refused.
    pub fn new(page_limit: u64, tuning: EngineTuning) -> (r: Result<StorageContext, StorageError>)
        ensures
            match r {
                Ok(context) => {
                    &&& page_limit <= MAX_REGION_PAGES
                    &&& context.well_formed()
                    &&& context.adapter.tuning == tuning
                    &&& context.adapter.files.limits() == uniform_limits(page_limit)
                    &&& context.mounts() == Map::<Seq<char>, u8>::empty()
                    &&& context.adapter.files.handles() == Seq::<OpenFile>::empty()
                    &&& context.regions() == empty_regions()
                },
                Err(e) => {
                    &&& page_limit > MAX_REGION_PAGES
                    &&& e == StorageError::RegionCapacityExceeded
                },
            },
    {
        match PageStore::new(page_limit) {
            Ok(store) => {
                let files = VirtualFileTable::new(RegionAllocator::new(store));
                Ok(StorageContext { adapter: SqlAdapter::new(files, tuning) })
            },
            Err(_) => Err(StorageError::RegionCapacityExceeded),
        }
    }

    /// The context as it is after a restart: every region holds what it held
    /// and the tuning is kept; nothing is mounted and no handle is open.
    pub fn restart(self) -> (context: StorageContext)
        requires
            self.well_formed(),
        ensures
            context.well_formed(),
            context.regions() == self.regions(),
            context.adapter.tuning == self.adapter.tuning,
            context.adapter.files.limits() == self.adapter.files.limits(),
            context.mounts() == Map::<Seq<char>, u8>::empty(),
            context.adapter.files.handles() == Seq::<OpenFile>::empty(),
    {
        let files = self.adapter.files.restart();
        StorageContext { adapter: SqlAdapter::new(files, self.adapter.tuning) }
    }
}

/// Grows the profiling region by `PROFILING_PAGES` zeroed pages. Where the
/// hard upper bound of the region does not admit that, nothing changes.
pub fn profiling_init(context: &mut StorageContext)
    requires
        old(context).well_formed(),
    ensures
        final(context).well_formed(),
        final(context).adapter.tuning == old(context).adapter.tuning,
        final(context).mounts() == old(context).mounts(),
        final(context).adapter.files.handles() == old(context).adapter.files.handles(),
        final(context).adapter.files.limits() == old(context).adapter.files.limits(),
        final(context).regions() == if old(context).regions()[PROFILING_REGION].len()
            + PROFILING_PAGES * PAGE_BYTES <= old(context).adapter.files.limit_bytes(
            PROFILING_REGION,
        ) {
            grown(old(context).regions(), PROFILING_REGION, PROFILING_PAGES as nat)
        } else {
            old(context).regions()
        },
{
    let _ = context.adapter.files.grow_region(PROFILING_REGION, PROFILING_PAGES);
}

/// Mounts the database file and its journal to their regions, and says
/// whether both mounts were admitted. No byte of any region changes.
pub fn mount_memory_files(context: &mut StorageContext) -> (mounted: bool)
    requires
        old(context).well_formed(),
    ensures
        final(context).well_formed(),
        final(context).adapter.tuning == old(context).adapter.tuning,
        final(context).regions() == old(context).regions(),
        final(context).adapter.files.handles() == old(context).adapter.files.handles(),
        final(context).adapter.files.limits() == old(context).adapter.files.limits(),
        final(context).mounts() == with_memory_files(old(context).mounts()),
        mounted == memory_files_allowed(old(context).mounts()),
{
    let database = context.adapter.files.mount("db.db3", MOUNTED_MEMORY_ID);
    let journal = context.adapter.files.mount("db.db3-journal1", MOUNTED_MEMORY_ID + 1);
    database && journal
}

/// On a table with nothing mounted, both mounts of a start are admitted, and
/// afterwards exactly they are mounted.
pub proof fn lemma_fresh_memory_files()
    ensures
        memory_files_allowed(Map::<Seq<char>, u8>::empty()),
        with_memory_files(Map::<Seq<char>, u8>::empty()) == Map::<Seq<char>, u8>::empty().insert(
            database_path(),
            MOUNTED_MEMORY_ID,
        ).insert(journal_path(), (MOUNTED_MEMORY_ID + 1) as u8),
{
    reveal_strlit("db.db3");
    reveal_strlit("db.db3-journal1");
    let empty = Map::<Seq<char>, u8>::empty();
    let first = empty.insert(database_path(), MOUNTED_MEMORY_ID);
    assert(database_path().len() != journal_path().len());
    assert(!region_in_use(empty, MOUNTED_MEMORY_ID));
    assert(!region_in_use(first, (MOUNTED_MEMORY_ID + 1) as u8)) by {
        if region_in_use(first, (MOUNTED_MEMORY_ID + 1) as u8) {
            let p = choose|p: Seq<char>| #[trigger]
                first.contains_key(p) && first[p] == (MOUNTED_MEMORY_ID + 1) as u8;
            assert(p == database_path());
        }
    }
}

/// The path to open the database connection on. There is one only while the
/// database file is mounted.
pub fn open_database(context: &StorageContext) -> (r: Result<String, StorageError>)
    requires
        context.well_formed(),
    ensures
        match r {
            Ok(path) => context.mounts().contains_key(database_path()) && path@ == database_path(),
            Err(e) => !context.mounts().contains_key(database_path()) && e
                == StorageError::FileNotMounted,
        },
{
    match context.adapter.files.resolve("db.db3") {
        Ok(_) => Ok(String::from_str("db.db3")),
        Err(_) => Err(StorageError::FileNotMounted),
    }
}

/// The tables that a database is given when it is first set up.
#[derive(Debug, Clone, Copy, PartialEq, Eq, Structural)]
pub enum Schema {
    /// Persons with a note and an age.
    Demonstration,
    /// Persons with an age and a gender.
    Benchmark,
}

/// The statement that creates the table of a schema unless it is there.
pub open spec fn schema_sql(schema: Schema) -> Seq<char> {
    match schema {
        Schema::Demonstration => "CREATE TABLE IF NOT EXISTS person (id INTEGER PRIMARY KEY, name TEXT NOT NULL, data TEXT, age INTEGER)"@,
        Schema::Benchmark => "CREATE TABLE IF NOT EXISTS person (id INTEGER not null primary key, name VARCHAR(20), age INTEGER not null, gender INTEGER not null)"@,
    }
}

/// The statement that creates the table of a schema unless it is there.
pub fn create_tables(schema: Schema) -> (sql: String)
    ensures
        sql@ == schema_sql(schema),
{
    match schema {
        Schema::Demonstration => String::from_str(
            "CREATE TABLE IF NOT EXISTS person (id INTEGER PRIMARY KEY, name TEXT NOT NULL, data TEXT, age INTEGER)",
        ),
        Schema::Benchmark => String::from_str(
            "CREATE TABLE IF NOT EXISTS person (id INTEGER not null primary key, name VARCHAR(20), age INTEGER not null, gender INTEGER not null)",
        ),
    }
}

/// One mount that a start sets up.
pub struct MountStep {
    /// The path to mount.
    pub path: String,
    /// The region to mount it to.
    pub region: u8,
}

impl View for MountStep {
    type V = (Seq<char>, u8);

    open spec fn view(&self) -> (Seq<char>, u8) {
        (self.path@, self.region)
    }
}

/// The mounts that every start and restart sets up, in order.
pub open spec fn memory_file_steps() -> Seq<(Seq<char>, u8)> {
    seq![
        (database_path(), MOUNTED_MEMORY_ID),
        (journal_path(), (MOUNTED_MEMORY_ID + 1) as u8),
    ]
}

/// The mounts that every start and restart sets up, in order.
pub fn memory_files() -> (steps: Vec<MountStep>)
    ensures
        steps@.map_values(|step: MountStep| step@) == memory_file_steps(),
{
    let mut steps: Vec<MountStep> = Vec::new();
    steps.push(MountStep { path: String::from_str("db.db3"), region: MOUNTED_MEMORY_ID });
    steps.push(
        MountStep { path: String::from_str("db.db3-journal1"), region: MOUNTED_MEMORY_ID + 1 },
    );
    assert(steps@.map_values(|step: MountStep| step@) =~= memory_file_steps());
    steps
}

/// What is left to do around the storage once it stands: mirror the mounts
/// where the engine's files live, open the database, hand over the settings,
/// and run the statements that set up the schema.
pub struct StartPlan {
    /// The mounts that were set up, in order.
    pub mounts: Vec<MountStep>,
    /// The path to open the database connection on.
    pub database: String,
    /// The settings to hand to the engine, in order.
    pub pragmas: Vec<Pragma>,
    /// The statements that set up the schema; none where it is already there.
    pub schema: Vec<String>,
}

/// The regions of a context just started with regions bounded by `page_limit`
/// pages: the profiling region holds its zeroed pages where the bound admits
/// them, and every other region is empty.
pub open spec fn started_regions(page_limit: nat) -> Map<u8, Seq<u8>> {
    if PROFILING_PAGES <= page_limit {
        grown(empty_regions(), PROFILING_REGION, PROFILING_PAGES as nat)
    } else {
        empty_regions()
    }
}

/// Sets the storage up at first start: a fresh memory with regions bounded by
/// `page_limit` pages, the profiling region grown, the database file and its
/// journal mounted. A bound above `MAX_REGION_PAGES` is refused.
pub fn init(page_limit: u64, tuning: EngineTuning, schema: Schema) -> (r: Result<
    (StorageContext, StartPlan),
    StorageError,
>)
    ensures
        match r {
            Ok((context, plan)) => {
                &&& page_limit <= MAX_REGION_PAGES
                &&& context.well_formed()
                &&& context.adapter.tuning == tuning
                &&& context.adapter.files.limits() == uniform_limits(page_limit)
                &&& context.adapter.files.handles() == Seq::<OpenFile>::empty()
                &&& context.mounts() == with_memory_files(Map::<Seq<char>, u8>::empty())
                &&& context.regions() == started_regions(page_limit as nat)
                &&& plan.mounts@.map_values(|step: MountStep| step@) == memory_file_steps()
                &&& plan.database@ == database_path()
                &&& plan.pragmas@.map_values(|p: Pragma| p@) == tuning_pragmas(tuning)
                &&& plan.schema@.len() == 1
                &&& plan.schema@[0]@ == schema_sql(schema)
            },
            Err(e) => {
                &&& page_limit > MAX_REGION_PAGES
                &&& e == StorageError::RegionCapacityExceeded
            },
        },
{
    let mut context = match StorageContext::new(page_limit, tuning) {
        Ok(context) => context,
        Err(_) => {
            return Err(StorageError::RegionCapacityExceeded);
        },
    };
    profiling_init(&mut context);
    mount_memory_files(&mut context);
    let mut statements: Vec<String> = Vec::new();
    statements.push(create_tables(schema));
    let plan = StartPlan {
        mounts: memory_files(),
        database: String::from_str("db.db3"),
        pragmas: set_pragmas(&context.adapter.tuning),
        schema: statements,
    };
    proof {
        if PROFILING_PAGES <= page_limit {
            assert(PROFILING_PAGES * PAGE_BYTES <= page_limit * PAGE_BYTES) by (nonlinear_arith)
                requires
                    PROFILING_PAGES <= page_limit,
            ;
        } else {
            assert(PROFILING_PAGES * PAGE_BYTES > page_limit * PAGE_BYTES) by (nonlinear_arith)
                requires
                    PROFILING_PAGES > page_limit,
            ;
        }
    }
    Ok((context, plan))
}

/// Sets the storage up again after a restart: the regions are found as they
/// were left, the database file and its journal are mounted anew, and the
/// schema is taken to be there.
pub fn post_upgrade(context: StorageContext) -> (r: (StorageContext, StartPlan))
    requires
        context.well_formed(),
    ensures
        r.0.well_formed(),
        r.0.adapter.tuning == context.adapter.tuning,
        r.0.adapter.files.limits() == context.adapter.files.limits(),
        r.0.adapter.files.handles() == Seq::<OpenFile>::empty(),
        r.0.regions() == context.regions(),
        r.0.mounts() == with_memory_files(Map::<Seq<char>, u8>::empty()),
        r.1.mounts@.map_values(|step: MountStep| step@) == memory_file_steps(),
        r.1.database@ == database_path(),
        r.1.pragmas@.map_values(|p: Pragma| p@) == tuning_pragmas(context.adapter.tuning),
        r.1.schema@.len() == 0,
{
    let mut restarted = context.restart();
    mount_memory_files(&mut restarted);
    let plan = StartPlan {
        mounts: memory_files(),
        database: String::from_str("db.db3"),
        pragmas: set_pragmas(&restarted.adapter.tuning),
        schema: Vec::new(),
    };
    (restarted, plan)
}

} // verus!
