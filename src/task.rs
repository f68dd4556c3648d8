use crate::backend::{level_in_domain, Backend};
use crate::error::ArchiveError;
use vstd::prelude::*;

verus! {

/// Whether an archive holds one file or a directory tree.
#[derive(Debug, Clone, Copy, PartialEq, Eq, Structural)]
pub enum ArchiveKind {
    SingleFile,
    Tree,
}

/// One compression or extraction request, fixed once built.
#[derive(Debug)]
pub struct ArchiveTask {
    input_path: String,
    output_path: String,
    kind: ArchiveKind,
    compression_level: i32,
    worker_threads: Option<u32>,
}

impl ArchiveTask {
    /// The level lies in the zstd codec's domain.
    pub open spec fn wf(&self) -> bool {
        level_in_domain(Backend::TarZstd, self.spec_level() as int)
    }

    pub closed spec fn spec_input(&self) -> Seq<char> {
        self.input_path@
    }

    pub closed spec fn spec_output(&self) -> Seq<char> {
        self.output_path@
    }

    pub closed spec fn spec_kind(&self) -> ArchiveKind {
        self.kind
    }

    pub closed spec fn spec_level(&self) -> i32 {
        self.compression_level
    }

    pub closed spec fn spec_workers(&self) -> Option<u32> {
        self.worker_threads
    }

    /// Builds a task; a level outside 1..=22 is refused here, before any
    /// file is touched.
    pub fn new(
        input_path: String,
        output_path: String,
        kind: ArchiveKind,
        compression_level: i32,
        worker_threads: Option<u32>,
    ) -> (r: Result<ArchiveTask, ArchiveError>)
        ensures
            !level_in_domain(Backend::TarZstd, compression_level as int) ==> r == Err::<ArchiveTask, ArchiveError>(ArchiveError::LevelOutOfRange),
            level_in_domain(Backend::TarZstd, compression_level as int) ==> (r matches Ok(t) && t.wf()
                && t.spec_input() == input_path@ && t.spec_output() == output_path@ && t.spec_kind() == kind
                && t.spec_level() == compression_level && t.spec_workers() == worker_threads),
    {
        let level = Backend::TarZstd.validate_level(compression_level)?;
        Ok(ArchiveTask { input_path, output_path, kind, compression_level: level, worker_threads })
    }

    pub fn input_path(&self) -> (r: &str)
        ensures
            r@ == self.spec_input(),
    {
        self.input_path.as_str()
    }

    pub fn output_path(&self) -> (r: &str)
        ensures
            r@ == self.spec_output(),
    {
        self.output_path.as_str()
    }

    pub fn kind(&self) -> (r: ArchiveKind)
        ensures
            r == self.spec_kind(),
    {
        self.kind
    }

    pub fn compression_level(&self) -> (r: i32)
        ensures
            r == self.spec_level(),
    {
        self.compression_level
    }

    pub fn worker_threads(&self) -> (r: Option<u32>)
        ensures
            r == self.spec_workers(),
    {
        self.worker_threads
    }

    /// The encoder's worker count: the one asked for, else every core there is.
    pub fn effective_workers(&self, available_cores: u32) -> (r: u32)
        ensures
            r == match self.spec_workers() {
                Some(n) => n,
                None => available_cores,
            },
    {
        match self.worker_threads {
            Some(n) => n,
            None => available_cores,
        }
    }
}

} // verus!
