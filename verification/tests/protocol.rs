use contacts::protocol::{advance, failure, Operation, Progress, Protocol, OWNER_ONLY};
use contacts::StoreError;

const SAVE: [Operation; 10] = [
    Operation::EnsureDirectory,
    Operation::OpenTarget,
    Operation::LockExclusive,
    Operation::ReleaseTarget,
    Operation::CreateTemp,
    Operation::WriteContent,
    Operation::Flush,
    Operation::Sync,
    Operation::RestrictPermissions,
    Operation::Replace,
];

const LOAD: [Operation; 3] =
    [Operation::OpenSource, Operation::LockShared, Operation::ReadSource];

/// Runs a protocol, the attempt at position `fail_at` failing, and returns
/// what was attempted and how the run ended.
fn run(protocol: Protocol, fail_at: Option<usize>) -> (Vec<Operation>, Progress) {
    let mut attempted = Vec::new();
    let mut operation = protocol.first();
    loop {
        let outcome =
            if fail_at == Some(attempted.len()) { Err("refused".to_string()) } else { Ok(()) };
        attempted.push(operation);
        match advance(operation, outcome) {
            Progress::Continue(next) => operation = next,
            end => return (attempted, end),
        }
    }
}

#[test]
fn save_restricts_permissions_before_it_replaces_the_target() {
    let (attempted, end) = run(Protocol::Save, None);
    assert!(matches!(end, Progress::Finished));
    let restrict = attempted.iter().position(|o| *o == Operation::RestrictPermissions).unwrap();
    let replace = attempted.iter().position(|o| *o == Operation::Replace).unwrap();
    assert!(restrict < replace);
    assert_eq!(replace, attempted.len() - 1);
    let mode = OWNER_ONLY;
    assert_eq!(mode & 0o777, 0o600);
}

#[test]
fn save_runs_its_operations_in_order() {
    let (attempted, end) = run(Protocol::Save, None);
    assert_eq!(attempted, SAVE);
    assert!(matches!(end, Progress::Finished));
}

#[test]
fn load_runs_its_operations_in_order() {
    let (attempted, end) = run(Protocol::Load, None);
    assert_eq!(attempted, LOAD);
    assert!(matches!(end, Progress::Finished));
}

#[test]
fn protocols_begin_with_their_first_operation() {
    assert_eq!(Protocol::Save.first(), Operation::EnsureDirectory);
    assert_eq!(Protocol::Load.first(), Operation::OpenSource);
}

#[test]
fn next_follows_the_order_and_ends_each_run() {
    for pair in SAVE.windows(2) {
        assert_eq!(pair[0].next(), Some(pair[1]));
    }
    for pair in LOAD.windows(2) {
        assert_eq!(pair[0].next(), Some(pair[1]));
    }
    assert_eq!(Operation::Replace.next(), None);
    assert_eq!(Operation::ReadSource.next(), None);
}

#[test]
fn lock_is_released_before_the_temporary_file_is_made() {
    let at = |op: Operation| SAVE.iter().position(|o| *o == op).unwrap();
    let (attempted, _) = run(Protocol::Save, None);
    assert_eq!(attempted, SAVE);
    assert!(at(Operation::EnsureDirectory) < at(Operation::OpenTarget));
    assert!(at(Operation::OpenTarget) < at(Operation::LockExclusive));
    assert!(at(Operation::LockExclusive) < at(Operation::ReleaseTarget));
    assert!(at(Operation::ReleaseTarget) < at(Operation::CreateTemp));
    assert!(at(Operation::CreateTemp) < at(Operation::WriteContent));
    assert!(at(Operation::WriteContent) < at(Operation::Flush));
    assert!(at(Operation::Flush) < at(Operation::Sync));
    assert!(at(Operation::Sync) < at(Operation::RestrictPermissions));
}

#[test]
fn failed_save_never_replaces_the_target() {
    for fail_at in 0..9 {
        let (attempted, end) = run(Protocol::Save, Some(fail_at));
        assert_eq!(attempted, SAVE[..=fail_at]);
        assert!(!attempted.contains(&Operation::Replace));
        assert!(matches!(end, Progress::Failed(_)));
    }
}

#[test]
fn failed_replace_is_a_persist_error() {
    let (attempted, end) = run(Protocol::Save, Some(9));
    assert_eq!(attempted, SAVE);
    match end {
        Progress::Failed(StoreError::Persist { detail }) => assert_eq!(detail, "refused"),
        other => panic!("unexpected {other:?}"),
    }
}

#[test]
fn failed_load_stops_at_the_failure() {
    for fail_at in 0..3 {
        let (attempted, end) = run(Protocol::Load, Some(fail_at));
        assert_eq!(attempted, LOAD[..=fail_at]);
        assert!(matches!(end, Progress::Failed(_)));
    }
}

#[test]
fn lock_failures_are_lock_errors() {
    for operation in [Operation::LockShared, Operation::LockExclusive] {
        match failure(operation, "busy".to_string()) {
            StoreError::Lock { operation: at, detail } => {
                assert_eq!(at, operation);
                assert_eq!(detail, "busy");
            }
            other => panic!("unexpected {other:?}"),
        }
    }
}

#[test]
fn other_failures_are_io_errors() {
    for operation in SAVE.iter().chain(LOAD.iter()).copied() {
        if operation == Operation::LockShared
            || operation == Operation::LockExclusive
            || operation == Operation::Replace
        {
            continue;
        }
        match failure(operation, "disk full".to_string()) {
            StoreError::Io { operation: at, detail } => {
                assert_eq!(at, operation);
                assert_eq!(detail, "disk full");
            }
            other => panic!("unexpected {other:?}"),
        }
    }
}

#[test]
fn advance_reports_the_failure_of_the_operation_tried() {
    match advance(Operation::Sync, Err("no space".to_string())) {
        Progress::Failed(StoreError::Io { operation, detail }) => {
            assert_eq!(operation, Operation::Sync);
            assert_eq!(detail, "no space");
        }
        other => panic!("unexpected {other:?}"),
    }
    assert!(matches!(
        advance(Operation::Sync, Ok(())),
        Progress::Continue(Operation::RestrictPermissions)
    ));
    assert!(matches!(advance(Operation::Replace, Ok(())), Progress::Finished));
    assert!(matches!(advance(Operation::ReadSource, Ok(())), Progress::Finished));
}

#[test]
fn operations_are_described_in_words() {
    assert_eq!(Operation::OpenSource.describe(), "opening data file");
    assert_eq!(Operation::LockShared.describe(), "acquiring shared lock for read");
    assert_eq!(Operation::ReadSource.describe(), "reading data file");
    assert_eq!(Operation::EnsureDirectory.describe(), "creating parent dir");
    assert_eq!(Operation::OpenTarget.describe(), "opening/creating target file");
    assert_eq!(Operation::LockExclusive.describe(), "acquiring exclusive lock for write");
    assert_eq!(Operation::ReleaseTarget.describe(), "releasing target file");
    assert_eq!(
        Operation::CreateTemp.describe(),
        "creating secure temporary file for atomic write"
    );
    assert_eq!(Operation::Flush.describe(), "flushing temp file");
    assert_eq!(Operation::Sync.describe(), "syncing temp file to disk");
    assert_eq!(
        Operation::RestrictPermissions.describe(),
        "setting secure permissions on temp file"
    );
    assert_eq!(Operation::Replace.describe(), "replacing target file with temp file");
}
