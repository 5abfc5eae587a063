//! Sinks that record to an archive and can be started and stopped.

use crate::domain::acmi::AcmiRepository;
use vstd::prelude::*;

verus! {

/// Why a recording could not be started.
#[derive(Clone, Copy, Debug, PartialEq, Eq, Structural)]
pub enum StartError {
    /// The system clock reads a time before 1970, so the recording cannot
    /// be named.
    ClockBeforeEpoch,
}

/// The step of building an archive.
#[derive(Clone, Copy, Debug, PartialEq, Eq, Structural)]
pub enum ArchiveStage {
    /// Opening the member.
    StartMember,
    /// Writing the member's content.
    WriteContent,
    /// Closing the archive.
    Finalize,
}

/// Why a recording could not be turned into an archive.
#[derive(Debug)]
pub struct StopError {
    /// The step that failed.
    pub stage: ArchiveStage,
    /// What the archive writer reported.
    pub detail: String,
}

/// A finished recording, ready to be put on disk.
#[derive(Debug)]
pub struct SavedArchive {
    /// The name of the archive file.
    pub file_name: String,
    /// The name of the archive's only member.
    pub member_name: String,
    /// The text of that member: the header and the records.
    pub content: String,
    /// The archive itself.
    pub bytes: Vec<u8>,
}

/// A sink that records what it is given between a start and a stop.
/// The recorder of this crate says in its own contracts what each of
/// these does; the trait asks nothing of other recorders.
pub trait AcmiFileRepository: AcmiRepository {
    /// Starts a recording, dropping one that is under way. `taken` holds
    /// the file names that the new recording must not use.
    fn start(&mut self, taken: &Vec<String>) -> Result<(), StartError>;

    /// Ends the recording and hands out its archive; does nothing when no
    /// recording is under way.
    fn stop(&mut self) -> Result<Option<SavedArchive>, StopError>;

    /// Whether a recording is under way.
    fn is_recording(&self) -> bool;
}

} // verus!
