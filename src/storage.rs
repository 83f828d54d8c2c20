//! Atomic publication of named records: the steps a save takes, and what a reader can
//! observe between them.
use vstd::prelude::*;

verus! {

/// The records on disk: file path to contents.
pub type Disk = Map<Seq<char>, Seq<u8>>;

/// One file-system operation of a save.
#[derive(Clone, Debug)]
pub enum StorageStep {
    /// Create or overwrite `path` with `bytes`.
    Write { path: String, bytes: Vec<u8> },
    /// Replace `to` with `from` in one atomic rename.
    Rename { from: String, to: String },
}

/// Where the records of a run live.
#[derive(Clone, Debug)]
pub struct AsyncStorageManager {
    /// The storage directory, without a trailing separator.
    pub base_dir: String,
}

/// The path of the record `name` under `dir`.
pub open spec fn record_path_of(dir: Seq<char>, name: Seq<char>) -> Seq<char> {
    dir + "/"@ + name + ".json"@
}

/// The path that the record `name` under `dir` is written to before it is renamed.
pub open spec fn temp_path_of(dir: Seq<char>, name: Seq<char>) -> Seq<char> {
    record_path_of(dir, name) + ".tmp"@
}

/// The disk after one step.
pub open spec fn apply_step(disk: Disk, step: StorageStep) -> Disk {
    match step {
        StorageStep::Write { path, bytes } => disk.insert(path@, bytes@),
        StorageStep::Rename { from, to } => if disk.contains_key(from@) {
            disk.remove(from@).insert(to@, disk[from@])
        } else {
            disk
        },
    }
}

/// The disk after the first `k` steps of `steps`: what a crash after them leaves.
pub open spec fn apply_steps(disk: Disk, steps: Seq<StorageStep>, k: int) -> Disk
    decreases k,
{
    if k <= 0 || k > steps.len() {
        disk
    } else {
        apply_step(apply_steps(disk, steps, k - 1), steps[k - 1])
    }
}

/// The steps that publish `bytes` as the record at `record` by way of `temp`.
pub open spec fn is_save_plan(steps: Seq<StorageStep>, temp: Seq<char>, record: Seq<char>, bytes: Seq<u8>) -> bool {
    &&& steps.len() == 2
    &&& steps[0] matches StorageStep::Write { path, bytes: b } && path@ == temp && b@ == bytes
    &&& steps[1] matches StorageStep::Rename { from, to } && from@ == temp && to@ == record
}

impl AsyncStorageManager {
    /// A manager over the directory `base_dir`.
    pub fn new(base_dir: String) -> (s: Self)
        ensures
            s.base_dir@ == base_dir@,
    {
        AsyncStorageManager { base_dir }
    }

    /// The path of the record `name`.
    pub fn record_path(&self, name: &str) -> (p: String)
        ensures
            p@ == record_path_of(self.base_dir@, name@),
    {
        let mut p = self.base_dir.clone();
        p.append("/");
        p.append(name);
        p.append(".json");
        p
    }

    /// The path the record `name` is written to before it replaces the record.
    pub fn temp_path(&self, name: &str) -> (p: String)
        ensures
            p@ == temp_path_of(self.base_dir@, name@),
    {
        let mut p = self.record_path(name);
        p.append(".tmp");
        p
    }

    /// The steps that publish `bytes` as the record `name`: write a temporary file in
    /// full, then rename it over the record.
    pub fn save_plan(&self, name: &str, bytes: Vec<u8>) -> (steps: Vec<StorageStep>)
        ensures
            is_save_plan(steps@, temp_path_of(self.base_dir@, name@), record_path_of(self.base_dir@, name@), bytes@),
    {
        let temp = self.temp_path(name);
        let record = self.record_path(name);
        let mut steps: Vec<StorageStep> = Vec::new();
        steps.push(StorageStep::Write { path: temp.clone(), bytes });
        steps.push(StorageStep::Rename { from: temp, to: record });
        steps
    }
}

proof fn lemma_temp_differs(dir: Seq<char>, name: Seq<char>)
    ensures
        temp_path_of(dir, name) != record_path_of(dir, name),
{
    assert(temp_path_of(dir, name).len() == record_path_of(dir, name).len() + 4) by {
        reveal_strlit(".tmp");
    }
}

/// A save interrupted at any point leaves the record as it was: present with the same
/// contents, or absent as before. Only the completed save replaces it.
pub proof fn lemma_interrupted_save_keeps_record(
    disk: Disk,
    steps: Seq<StorageStep>,
    dir: Seq<char>,
    name: Seq<char>,
    bytes: Seq<u8>,
    k: int,
)
    requires
        is_save_plan(steps, temp_path_of(dir, name), record_path_of(dir, name), bytes),
        0 <= k < steps.len(),
    ensures
        apply_steps(disk, steps, k).contains_key(record_path_of(dir, name)) == disk.contains_key(record_path_of(dir, name)),
        disk.contains_key(record_path_of(dir, name)) ==> apply_steps(disk, steps, k)[record_path_of(dir, name)]
            == disk[record_path_of(dir, name)],
{
    lemma_temp_differs(dir, name);
    if k == 1 {
        assert(apply_steps(disk, steps, 0) == disk);
    }
}

/// Loading the record after a completed save gives back exactly the bytes saved, and
/// no temporary file is left behind.
pub proof fn lemma_save_then_load(disk: Disk, steps: Seq<StorageStep>, dir: Seq<char>, name: Seq<char>, bytes: Seq<u8>)
    requires
        is_save_plan(steps, temp_path_of(dir, name), record_path_of(dir, name), bytes),
    ensures
        apply_steps(disk, steps, 2).contains_key(record_path_of(dir, name)),
        apply_steps(disk, steps, 2)[record_path_of(dir, name)] == bytes,
        !apply_steps(disk, steps, 2).contains_key(temp_path_of(dir, name)),
{
    lemma_temp_differs(dir, name);
    assert(apply_steps(disk, steps, 0) == disk);
    let d1 = apply_steps(disk, steps, 1);
    assert(d1 == disk.insert(temp_path_of(dir, name), bytes));
}

} // verus!
