//! Starting a daemon shared by several processes (the embedding server, the
//! search server): whoever finds it down starts it, under a lock file so
//! that two processes never both start it.
//!
//! The protocol is a state machine. The caller performs each action (a health
//! probe, taking the lock, spawning the process) and hands back what came of
//! it; `daemon_step` decides what to do next.
use vstd::prelude::*;

verus! {

/// Where the start-up protocol stands.
pub enum DaemonPhase {
    /// The first health probe is under way.
    Probing,
    /// The lock is being taken.
    Locking,
    /// The lock was not free; after a pause the service is probed again.
    Contended,
    /// The lock is held and the service is probed once more.
    Rechecking,
    /// The lock is held and the process is being spawned.
    Spawning,
    /// The lock is held and the spawned process is given time to come up.
    Starting,
    /// The protocol has ended.
    Finished,
}

/// What came of the last action.
pub enum DaemonEvent {
    /// The service did (true) or did not answer the health probe.
    Healthy(bool),
    /// The lock was taken (true), or was busy or could not be taken.
    LockTaken(bool),
    /// The lock file's folder could not be created.
    DirFailed(String),
    /// The lock file could not be opened.
    OpenFailed(String),
    /// The process was spawned.
    Spawned,
    /// The process could not be spawned.
    SpawnFailed(String),
}

/// How the protocol ended.
pub enum DaemonOutcome {
    /// The service was already answering; nothing was started.
    AlreadyRunning,
    /// This process started the service (its pid is to be recorded).
    Started,
    /// The service could not be started.
    Failed(String),
}

/// What to do next.
pub enum DaemonAction {
    /// Create the lock file's folder, open the lock file and try the lock.
    OpenLockAndTry,
    /// Try the lock again.
    TryLock,
    /// Probe the service's health once.
    ProbeHealth,
    /// Pause briefly, then probe the service's health once.
    PauseAndProbe,
    /// Spawn the process.
    Spawn,
    /// Probe the service's health for the full start-up allowance.
    AwaitStartup,
    /// End: release the lock, then report the outcome (recording the pid of a
    /// started process first, killing a spawned one that failed).
    Release(DaemonOutcome),
    /// End without the lock: report the outcome.
    Return(DaemonOutcome),
}

/// The phases in which this process holds the lock.
pub open spec fn holds_lock(p: DaemonPhase) -> bool {
    p is Rechecking || p is Spawning || p is Starting
}

/// The events that can follow each phase's action.
pub open spec fn event_fits(p: DaemonPhase, e: DaemonEvent) -> bool {
    match p {
        DaemonPhase::Probing => e is Healthy,
        DaemonPhase::Locking => e is LockTaken || e is DirFailed || e is OpenFailed,
        DaemonPhase::Contended => e is Healthy,
        DaemonPhase::Rechecking => e is Healthy,
        DaemonPhase::Spawning => e is Spawned || e is SpawnFailed,
        DaemonPhase::Starting => e is Healthy,
        DaemonPhase::Finished => false,
    }
}

/// The message of a process that could not be spawned.
pub open spec fn spawn_failed_text(lock: Seq<char>, e: Seq<char>) -> Seq<char> {
    lock + ": 起動コマンドの実行に失敗: "@ + e
}

/// The message of a spawned process that never answered.
pub open spec fn startup_timeout_text(lock: Seq<char>) -> Seq<char> {
    lock + ": 起動を試みましたがヘルスチェックがタイムアウトしました"@
}

/// The message of a lock folder that could not be created.
pub open spec fn dir_failed_text(e: Seq<char>) -> Seq<char> {
    "dataディレクトリの作成に失敗: "@ + e
}

/// The message of a lock file that could not be opened.
pub open spec fn open_failed_text(lock: Seq<char>, e: Seq<char>) -> Seq<char> {
    "ロックファイル("@ + lock + ")を開けません: "@ + e
}

fn concat2(a: &str, b: &str) -> (s: String)
    ensures
        s@ == a@ + b@,
{
    let mut s = String::from_str(a);
    s.append(b);
    s
}

fn concat3(a: &str, b: &str, c: &str) -> (s: String)
    ensures
        s@ == a@ + b@ + c@,
{
    let mut s = String::from_str(a);
    s.append(b);
    s.append(c);
    s
}

/// One step of the start-up protocol of the daemon whose lock file is
/// `lock_file_name`.
///
/// A healthy service ends it at once; a service found down leads to the lock;
/// a busy lock to a pause and a new probe; with the lock held the service is
/// probed once more, and only if it is still down is the process spawned.
/// Every end reached while holding the lock releases it.
pub fn daemon_step(phase: &DaemonPhase, event: DaemonEvent, lock_file_name: &str) -> (r: (
    DaemonPhase,
    DaemonAction,
))
    requires
        event_fits(*phase, event),
    ensures
        *phase is Probing && event == DaemonEvent::Healthy(true) ==> r.0 is Finished && r.1
            == DaemonAction::Return(DaemonOutcome::AlreadyRunning),
        *phase is Probing && event == DaemonEvent::Healthy(false) ==> r.0 is Locking && r.1 is OpenLockAndTry,
        *phase is Locking && event == DaemonEvent::LockTaken(true) ==> r.0 is Rechecking && r.1 is ProbeHealth,
        *phase is Locking && event == DaemonEvent::LockTaken(false) ==> r.0 is Contended && r.1 is PauseAndProbe,
        *phase is Locking ==> (event matches DaemonEvent::DirFailed(e) ==> r.0 is Finished && (r.1 matches DaemonAction::Return(
            DaemonOutcome::Failed(m),
        ) && m@ == dir_failed_text(e@))),
        *phase is Locking ==> (event matches DaemonEvent::OpenFailed(e) ==> r.0 is Finished && (r.1 matches DaemonAction::Return(
            DaemonOutcome::Failed(m),
        ) && m@ == open_failed_text(lock_file_name@, e@))),
        *phase is Contended && event == DaemonEvent::Healthy(true) ==> r.0 is Finished && r.1
            == DaemonAction::Return(DaemonOutcome::AlreadyRunning),
        *phase is Contended && event == DaemonEvent::Healthy(false) ==> r.0 is Locking && r.1 is TryLock,
        *phase is Rechecking && event == DaemonEvent::Healthy(true) ==> r.0 is Finished && r.1
            == DaemonAction::Release(DaemonOutcome::AlreadyRunning),
        *phase is Rechecking && event == DaemonEvent::Healthy(false) ==> r.0 is Spawning && r.1 is Spawn,
        *phase is Spawning && event is Spawned ==> r.0 is Starting && r.1 is AwaitStartup,
        *phase is Spawning ==> (event matches DaemonEvent::SpawnFailed(e) ==> r.0 is Finished && (r.1 matches DaemonAction::Release(
            DaemonOutcome::Failed(m),
        ) && m@ == spawn_failed_text(lock_file_name@, e@))),
        *phase is Starting && event == DaemonEvent::Healthy(true) ==> r.0 is Finished && r.1
            == DaemonAction::Release(DaemonOutcome::Started),
        *phase is Starting && event == DaemonEvent::Healthy(false) ==> r.0 is Finished && (r.1 matches DaemonAction::Release(
            DaemonOutcome::Failed(m),
        ) && m@ == startup_timeout_text(lock_file_name@)),
        // The process is spawned only with the lock held, after the service
        // was found down under the lock.
        r.1 is Spawn ==> *phase is Rechecking && event == DaemonEvent::Healthy(false),
        // The lock is released on every end reached while holding it, and
        // only there.
        r.1 is Release ==> holds_lock(*phase),
        r.1 is Return ==> !holds_lock(*phase),
        (r.1 is Release || r.1 is Return) <==> r.0 is Finished,
{
    match (phase, event) {
        (DaemonPhase::Probing, DaemonEvent::Healthy(true)) => (
            DaemonPhase::Finished,
            DaemonAction::Return(DaemonOutcome::AlreadyRunning),
        ),
        (DaemonPhase::Probing, _) => (DaemonPhase::Locking, DaemonAction::OpenLockAndTry),
        (DaemonPhase::Locking, DaemonEvent::LockTaken(true)) => (
            DaemonPhase::Rechecking,
            DaemonAction::ProbeHealth,
        ),
        (DaemonPhase::Locking, DaemonEvent::DirFailed(e)) => {
            let m = concat2("dataディレクトリの作成に失敗: ", e.as_str());
            (DaemonPhase::Finished, DaemonAction::Return(DaemonOutcome::Failed(m)))
        },
        (DaemonPhase::Locking, DaemonEvent::OpenFailed(e)) => {
            let mut m = concat3("ロックファイル(", lock_file_name, ")を開けません: ");
            m.append(e.as_str());
            (DaemonPhase::Finished, DaemonAction::Return(DaemonOutcome::Failed(m)))
        },
        (DaemonPhase::Locking, _) => (DaemonPhase::Contended, DaemonAction::PauseAndProbe),
        (DaemonPhase::Contended, DaemonEvent::Healthy(true)) => (
            DaemonPhase::Finished,
            DaemonAction::Return(DaemonOutcome::AlreadyRunning),
        ),
        (DaemonPhase::Contended, _) => (DaemonPhase::Locking, DaemonAction::TryLock),
        (DaemonPhase::Rechecking, DaemonEvent::Healthy(true)) => (
            DaemonPhase::Finished,
            DaemonAction::Release(DaemonOutcome::AlreadyRunning),
        ),
        (DaemonPhase::Rechecking, _) => (DaemonPhase::Spawning, DaemonAction::Spawn),
        (DaemonPhase::Spawning, DaemonEvent::SpawnFailed(e)) => {
            let m = concat3(lock_file_name, ": 起動コマンドの実行に失敗: ", e.as_str());
            (DaemonPhase::Finished, DaemonAction::Release(DaemonOutcome::Failed(m)))
        },
        (DaemonPhase::Spawning, _) => (DaemonPhase::Starting, DaemonAction::AwaitStartup),
        (DaemonPhase::Starting, DaemonEvent::Healthy(true)) => (
            DaemonPhase::Finished,
            DaemonAction::Release(DaemonOutcome::Started),
        ),
        (DaemonPhase::Starting, _) => {
            let m = concat2(lock_file_name, ": 起動を試みましたがヘルスチェックがタイムアウトしました");
            (DaemonPhase::Finished, DaemonAction::Release(DaemonOutcome::Failed(m)))
        },
        (DaemonPhase::Finished, _) => {
            // No event follows the end: `event_fits` admits none.
            proof {
                assert(false);
            }
            (DaemonPhase::Finished, DaemonAction::Return(DaemonOutcome::AlreadyRunning))
        },
    }
}

} // verus!
