use vstd::prelude::*;

verus! {

/// The extension of relation files: `ak<file_id>.record`.
pub const EXTENSION: &'static str = "record";

/// The directory that holds one relation file per table.
#[derive(Debug)]
pub struct FileSystemManager {
    pub home_dir: String,
}

impl FileSystemManager {
    pub fn new(home_dir: String) -> (r: FileSystemManager)
        ensures
            r.home_dir@ == home_dir@,
    {
        FileSystemManager { home_dir }
    }
}

} // verus!
