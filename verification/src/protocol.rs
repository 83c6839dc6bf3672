//! The order in which the backing file is touched.
//!
//! Loading and saving are each a fixed run of file operations. The caller
//! performs them one at a time and reports how each went; what follows is
//! decided here. A save builds the new content in a temporary file beside
//! the target and replaces the target only as its last operation, so a save
//! that fails anywhere leaves the target as it was.

use crate::error::StoreError;
use vstd::prelude::*;

verus! {

/// Permission bits of the file that a save leaves behind, on platforms that
/// have them: read and write for the owner, nothing for anyone else.
pub const OWNER_ONLY: u32 = 0o600;

/// The two runs.
#[derive(Debug, Clone, Copy, PartialEq, Eq, Structural)]
pub enum Protocol {
    Load,
    Save,
}

/// One file operation.
#[derive(Debug, Clone, Copy, PartialEq, Eq, Structural)]
pub enum Operation {
    /// Open the backing file for reading.
    OpenSource,
    /// Take a shared lock on it; waits while a writer holds the file.
    LockShared,
    /// Read the whole file. The lock goes when the handle is closed.
    ReadSource,
    /// Create the target's parent directory, with its ancestors, if missing.
    EnsureDirectory,
    /// Open the target, creating it if necessary.
    OpenTarget,
    /// Take an exclusive lock on the target; waits for every other holder.
    LockExclusive,
    /// Unlock and close the target, so that it can be renamed over.
    ReleaseTarget,
    /// Create a temporary file in the target's directory.
    CreateTemp,
    /// Write the whole document to the temporary file.
    WriteContent,
    /// Flush what the application has buffered.
    Flush,
    /// Force the temporary file's content to stable storage.
    Sync,
    /// Set the temporary file's permission bits to `OWNER_ONLY`.
    RestrictPermissions,
    /// Rename the temporary file over the target.
    Replace,
}

/// Where a run stands after an operation.
#[derive(Debug)]
pub enum Progress {
    /// The operation succeeded; this one is next.
    Continue(Operation),
    /// The operation succeeded and was the last.
    Finished,
    /// The operation failed; the run is over.
    Failed(StoreError),
}

impl Protocol {
    /// The operations of the run, in order.
    pub open spec fn operations(self) -> Seq<Operation> {
        match self {
            Protocol::Load => seq![
                Operation::OpenSource,
                Operation::LockShared,
                Operation::ReadSource,
            ],
            Protocol::Save => seq![
                Operation::EnsureDirectory,
                Operation::OpenTarget,
                Operation::LockExclusive,
                Operation::ReleaseTarget,
                Operation::CreateTemp,
                Operation::WriteContent,
                Operation::Flush,
                Operation::Sync,
                Operation::RestrictPermissions,
                Operation::Replace,
            ],
        }
    }

    /// The operation that the run begins with.
    pub fn first(self) -> (op: Operation)
        ensures
            op == self.operations()[0],
            op.protocol() == self,
            op.position() == 0,
    {
        match self {
            Protocol::Load => Operation::OpenSource,
            Protocol::Save => Operation::EnsureDirectory,
        }
    }
}

impl Operation {
    /// The run that the operation belongs to.
    pub open spec fn protocol(self) -> Protocol {
        match self {
            Operation::OpenSource | Operation::LockShared | Operation::ReadSource => Protocol::Load,
            _ => Protocol::Save,
        }
    }

    /// The operation's place in its run, counted from 0.
    pub open spec fn position(self) -> int {
        match self {
            Operation::OpenSource => 0,
            Operation::LockShared => 1,
            Operation::ReadSource => 2,
            Operation::EnsureDirectory => 0,
            Operation::OpenTarget => 1,
            Operation::LockExclusive => 2,
            Operation::ReleaseTarget => 3,
            Operation::CreateTemp => 4,
            Operation::WriteContent => 5,
            Operation::Flush => 6,
            Operation::Sync => 7,
            Operation::RestrictPermissions => 8,
            Operation::Replace => 9,
        }
    }

    /// The operation that follows in the run, if one does.
    pub open spec fn successor(self) -> Option<Operation> {
        let run = self.protocol().operations();
        if self.position() + 1 < run.len() {
            Some(run[self.position() + 1])
        } else {
            None
        }
    }

    /// Whether the operation takes a lock.
    pub open spec fn is_lock(self) -> bool {
        self == Operation::LockShared || self == Operation::LockExclusive
    }

    /// The operation that follows in the run, if one does.
    pub fn next(self) -> (n: Option<Operation>)
        ensures
            n == self.successor(),
    {
        match self {
            Operation::OpenSource => Some(Operation::LockShared),
            Operation::LockShared => Some(Operation::ReadSource),
            Operation::ReadSource => None,
            Operation::EnsureDirectory => Some(Operation::OpenTarget),
            Operation::OpenTarget => Some(Operation::LockExclusive),
            Operation::LockExclusive => Some(Operation::ReleaseTarget),
            Operation::ReleaseTarget => Some(Operation::CreateTemp),
            Operation::CreateTemp => Some(Operation::WriteContent),
            Operation::WriteContent => Some(Operation::Flush),
            Operation::Flush => Some(Operation::Sync),
            Operation::Sync => Some(Operation::RestrictPermissions),
            Operation::RestrictPermissions => Some(Operation::Replace),
            Operation::Replace => None,
        }
    }

    /// What the operation does, in words.
    pub open spec fn description(self) -> Seq<char> {
        match self {
            Operation::OpenSource => "opening data file"@,
            Operation::LockShared => "acquiring shared lock for read"@,
            Operation::ReadSource => "reading data file"@,
            Operation::EnsureDirectory => "creating parent dir"@,
            Operation::OpenTarget => "opening/creating target file"@,
            Operation::LockExclusive => "acquiring exclusive lock for write"@,
            Operation::ReleaseTarget => "releasing target file"@,
            Operation::CreateTemp => "creating secure temporary file for atomic write"@,
            Operation::WriteContent => "writing JSON to temp file"@,
            Operation::Flush => "flushing temp file"@,
            Operation::Sync => "syncing temp file to disk"@,
            Operation::RestrictPermissions => "setting secure permissions on temp file"@,
            Operation::Replace => "replacing target file with temp file"@,
        }
    }

    /// What the operation does, in words.
    pub fn describe(self) -> (d: &'static str)
        ensures
            d@ == self.description(),
    {
        match self {
            Operation::OpenSource => "opening data file",
            Operation::LockShared => "acquiring shared lock for read",
            Operation::ReadSource => "reading data file",
            Operation::EnsureDirectory => "creating parent dir",
            Operation::OpenTarget => "opening/creating target file",
            Operation::LockExclusive => "acquiring exclusive lock for write",
            Operation::ReleaseTarget => "releasing target file",
            Operation::CreateTemp => "creating secure temporary file for atomic write",
            Operation::WriteContent => "writing JSON to temp file",
            Operation::Flush => "flushing temp file",
            Operation::Sync => "syncing temp file to disk",
            Operation::RestrictPermissions => "setting secure permissions on temp file",
            Operation::Replace => "replacing target file with temp file",
        }
    }
}

/// The error that a failed operation amounts to: a lock error where a lock
/// was not granted, a persist error where the finished temporary file could
/// not replace the target, an input/output error otherwise.
pub open spec fn failure_of(operation: Operation, detail: String) -> StoreError {
    if operation.is_lock() {
        StoreError::Lock { operation, detail }
    } else if operation == Operation::Replace {
        StoreError::Persist { detail }
    } else {
        StoreError::Io { operation, detail }
    }
}

/// The error that a failed operation amounts to.
pub fn failure(operation: Operation, detail: String) -> (e: StoreError)
    ensures
        e == failure_of(operation, detail),
{
    match operation {
        Operation::LockShared | Operation::LockExclusive => StoreError::Lock { operation, detail },
        Operation::Replace => StoreError::Persist { detail },
        _ => StoreError::Io { operation, detail },
    }
}

/// Where the run stands once `operation` has been tried. On success the run
/// goes on with the next operation or is finished; on failure it is over
/// and nothing more is to be done. Nothing is tried again.
pub fn advance(operation: Operation, outcome: Result<(), String>) -> (p: Progress)
    ensures
        match outcome {
            Ok(_) => match operation.successor() {
                Some(n) => p == Progress::Continue(n),
                None => p == Progress::Finished,
            },
            Err(detail) => p == Progress::Failed(failure_of(operation, detail)),
        },
{
    match outcome {
        Ok(_) => match operation.next() {
            Some(n) => Progress::Continue(n),
            None => Progress::Finished,
        },
        Err(detail) => Progress::Failed(failure(operation, detail)),
    }
}

/// The operations tried in a run that starts with `from`, where `succeeded`
/// tells of each attempt in turn whether it went well. The run stops after
/// its first failure, after its last operation, or when `succeeded` ends.
pub open spec fn attempted(from: Operation, succeeded: Seq<bool>) -> Seq<Operation>
    decreases succeeded.len(),
{
    if succeeded.len() == 0 {
        Seq::empty()
    } else if !succeeded[0] {
        seq![from]
    } else {
        match from.successor() {
            Some(n) => seq![from] + attempted(n, succeeded.drop_first()),
            None => seq![from],
        }
    }
}

/// Each operation stands at its position in its run, and its successor one
/// place further on.
pub proof fn lemma_positions(operation: Operation)
    ensures
        0 <= operation.position() < operation.protocol().operations().len(),
        operation.protocol().operations()[operation.position()] == operation,
        operation.successor() matches Some(n) ==> n.protocol() == operation.protocol()
            && n.position() == operation.position() + 1,
{
}

/// A run tries the operations of its protocol in order and without gaps:
/// the `i`-th attempt is the operation `i` places after the first, and all
/// attempts before it succeeded.
pub proof fn lemma_attempts_in_order(from: Operation, succeeded: Seq<bool>, i: int)
    requires
        0 <= i < attempted(from, succeeded).len(),
    ensures
        i < succeeded.len(),
        attempted(from, succeeded)[i].protocol() == from.protocol(),
        attempted(from, succeeded)[i].position() == from.position() + i,
        forall|j: int| 0 <= j < i ==> #[trigger] succeeded[j],
    decreases succeeded.len(),
{
    lemma_positions(from);
    if i > 0 {
        let n = from.successor()->0;
        let rest = succeeded.drop_first();
        assert(attempted(from, succeeded) =~= seq![from] + attempted(n, rest));
        lemma_attempts_in_order(n, rest, i - 1);
        assert forall|j: int| 0 <= j < i implies #[trigger] succeeded[j] by {
            if j > 0 {
                assert(rest[j - 1]);
            }
        }
    }
}

/// In a save, the target is replaced last and only after every other
/// operation has succeeded: the content has reached stable storage and the
/// permission bits are set before the new file appears under the target's
/// name. A save in which anything fails before that never replaces the
/// target.
pub proof fn lemma_replace_comes_last(succeeded: Seq<bool>, i: int)
    requires
        0 <= i < attempted(Operation::EnsureDirectory, succeeded).len(),
        attempted(Operation::EnsureDirectory, succeeded)[i] == Operation::Replace,
    ensures
        i == 9,
        forall|j: int| 0 <= j < 9 ==> #[trigger] succeeded[j],
        forall|j: int|
            0 <= j < 9 ==> #[trigger] attempted(Operation::EnsureDirectory, succeeded)[j]
                == Protocol::Save.operations()[j],
{
    let run = attempted(Operation::EnsureDirectory, succeeded);
    lemma_attempts_in_order(Operation::EnsureDirectory, succeeded, i);
    assert forall|j: int| 0 <= j < 9 implies #[trigger] run[j] == Protocol::Save.operations()[j] by {
        lemma_attempts_in_order(Operation::EnsureDirectory, succeeded, j);
        lemma_positions(run[j]);
    }
}

/// A run in which every operation succeeds tries them all; one with a
/// failure stops right there.
pub proof fn lemma_run_length(from: Operation, succeeded: Seq<bool>)
    ensures
        attempted(from, succeeded).len() <= succeeded.len(),
        attempted(from, succeeded).len() <= from.protocol().operations().len() - from.position(),
        forall|k: int|
            0 <= k < succeeded.len() && !#[trigger] succeeded[k] ==> attempted(
                from,
                succeeded,
            ).len() <= k + 1,
    decreases succeeded.len(),
{
    lemma_positions(from);
    if succeeded.len() > 0 && succeeded[0] && from.successor() is Some {
        let n = from.successor()->0;
        let rest = succeeded.drop_first();
        lemma_run_length(n, rest);
        assert forall|k: int| 0 <= k < succeeded.len() && !#[trigger] succeeded[k] implies attempted(
            from,
            succeeded,
        ).len() <= k + 1 by {
            assert(!rest[k - 1]);
        }
    }
}

} // verus!
