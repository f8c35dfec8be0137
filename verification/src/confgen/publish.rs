//! The steps of a generation run as a state machine: the caller carries out
//! each file-system action and reports what came of it, and the machine
//! decides the next step. A run writes into its own staging directory,
//! recovers what an interrupted run left, moves the old output aside, moves
//! the new one in, and puts the old output back when that fails.
use crate::text::push_str;
use vstd::prelude::*;

verus! {

/// The directories of a run: the output, the staging directory the new
/// modules are written to, and the previous output kept aside while the new
/// one moves in.
#[derive(Clone, Copy, Debug, PartialEq, Eq, Structural)]
pub enum Dir {
    Output,
    Staging,
    Previous,
}

/// What the run asks of the file system next.
#[derive(Clone, Copy, Debug, PartialEq, Eq, Structural)]
pub enum FsAction {
    /// Create the staging directory; this fails when it exists.
    CreateStaging,
    /// Write every generated module into the staging directory.
    WriteModules,
    /// Report whether the output and the previous directory exist.
    Probe,
    /// Rename a directory.
    Rename { from: Dir, to: Dir },
    /// Remove a directory with its contents.
    Remove { dir: Dir },
    /// Nothing: the run is over.
    Finish,
}

/// What came of an action.
#[derive(Debug)]
pub enum FsEvent {
    /// It succeeded.
    Done,
    /// It failed; `not_found` when the directory to remove did not exist.
    Failed { message: String, not_found: bool },
    /// The answer to [`FsAction::Probe`].
    Probed { output: bool, previous: bool },
}

/// Why a run failed.
#[derive(Debug)]
pub enum PublishFailure {
    /// The staging directory could not be created: another run owns it.
    CreateStaging { message: String },
    /// A generated module could not be written.
    Write { message: String },
    /// At startup, the previous output could not be moved back into place.
    RestoreBackup { message: String },
    /// At startup, a stale previous output could not be removed.
    RemoveStaleBackup { message: String },
    /// Moving the output aside, or the new modules in, failed.
    Rename { message: String },
    /// Moving the new modules in failed, and so did moving the old output
    /// back (`publish` is the first failure).
    RestoreAfterPublish { message: String, publish: String },
}

/// A failed run: its failure, and the error of removing its staging
/// directory when that failed too.
#[derive(Debug)]
pub struct GenerateError {
    pub failure: PublishFailure,
    pub cleanup: Option<String>,
}

/// Where a run stands. Each state names one action (see
/// [`PublishState::next_action`]); the retried steps remember their first
/// error, which is the one reported should the retry fail too.
#[derive(Debug)]
pub enum PublishState {
    Creating,
    Writing,
    Probing,
    Restoring { first: Option<String> },
    DroppingStale { first: Option<String> },
    Reprobing,
    Installing,
    MovingAside,
    Replacing,
    RollingBack { publish: String, first: Option<String> },
    DroppingBackup { retried: bool },
    Cleaning { failure: PublishFailure, first: Option<String> },
    Done { result: Result<(), GenerateError> },
}

/// The action of each state.
pub open spec fn action_of(st: PublishState) -> FsAction {
    match st {
        PublishState::Creating => FsAction::CreateStaging,
        PublishState::Writing => FsAction::WriteModules,
        PublishState::Probing => FsAction::Probe,
        PublishState::Reprobing => FsAction::Probe,
        PublishState::Restoring { .. } => FsAction::Rename { from: Dir::Previous, to: Dir::Output },
        PublishState::DroppingStale { .. } => FsAction::Remove { dir: Dir::Previous },
        PublishState::Installing => FsAction::Rename { from: Dir::Staging, to: Dir::Output },
        PublishState::MovingAside => FsAction::Rename { from: Dir::Output, to: Dir::Previous },
        PublishState::Replacing => FsAction::Rename { from: Dir::Staging, to: Dir::Output },
        PublishState::RollingBack { .. } => FsAction::Rename {
            from: Dir::Previous,
            to: Dir::Output,
        },
        PublishState::DroppingBackup { .. } => FsAction::Remove { dir: Dir::Previous },
        PublishState::Cleaning { .. } => FsAction::Remove { dir: Dir::Staging },
        PublishState::Done { .. } => FsAction::Finish,
    }
}

/// A finished run.
pub open spec fn finished(result: Result<(), GenerateError>) -> PublishState {
    PublishState::Done { result }
}

/// A run that failed with `failure`, after its staging directory was
/// removed (or, with `cleanup`, could not be).
pub open spec fn failed(failure: PublishFailure, cleanup: Option<String>) -> PublishState {
    PublishState::Done { result: Err(GenerateError { failure, cleanup }) }
}

/// The state after an event. Creating the staging directory that another
/// run owns ends the run at once; every later failure first removes the
/// staging directory. At startup a leftover previous output is moved back
/// when there is no output, and dropped as stale when there is one. Then
/// the new modules move in directly, or, over an existing output, after it
/// is moved aside; should that last rename fail, the old output is moved
/// back. Removing a directory that does not exist counts as done; renames
/// and removals are tried twice, reporting the first error.
pub open spec fn advance_spec(st: PublishState, ev: FsEvent) -> PublishState {
    match st {
        PublishState::Creating => match ev {
            FsEvent::Failed { message, .. } => failed(
                PublishFailure::CreateStaging { message },
                None,
            ),
            _ => PublishState::Writing,
        },
        PublishState::Writing => match ev {
            FsEvent::Failed { message, .. } => PublishState::Cleaning {
                failure: PublishFailure::Write { message },
                first: None,
            },
            _ => PublishState::Probing,
        },
        PublishState::Probing => match ev {
            FsEvent::Probed { output, previous } => if !output && previous {
                PublishState::Restoring { first: None }
            } else if output && previous {
                PublishState::DroppingStale { first: None }
            } else {
                PublishState::Reprobing
            },
            _ => PublishState::Reprobing,
        },
        PublishState::Restoring { first } => match ev {
            FsEvent::Failed { message, .. } => match first {
                None => PublishState::Restoring { first: Some(message) },
                Some(m) => PublishState::Cleaning {
                    failure: PublishFailure::RestoreBackup { message: m },
                    first: None,
                },
            },
            _ => PublishState::Reprobing,
        },
        PublishState::DroppingStale { first } => match ev {
            FsEvent::Failed { message, not_found } => if not_found {
                PublishState::Reprobing
            } else {
                match first {
                    None => PublishState::DroppingStale { first: Some(message) },
                    Some(m) => PublishState::Cleaning {
                        failure: PublishFailure::RemoveStaleBackup { message: m },
                        first: None,
                    },
                }
            },
            _ => PublishState::Reprobing,
        },
        PublishState::Reprobing => match ev {
            FsEvent::Probed { output, .. } => if output {
                PublishState::MovingAside
            } else {
                PublishState::Installing
            },
            _ => PublishState::Installing,
        },
        PublishState::Installing => match ev {
            FsEvent::Failed { message, .. } => PublishState::Cleaning {
                failure: PublishFailure::Rename { message },
                first: None,
            },
            _ => finished(Ok(())),
        },
        PublishState::MovingAside => match ev {
            FsEvent::Failed { message, .. } => PublishState::Cleaning {
                failure: PublishFailure::Rename { message },
                first: None,
            },
            _ => PublishState::Replacing,
        },
        PublishState::Replacing => match ev {
            FsEvent::Failed { message, .. } => PublishState::RollingBack {
                publish: message,
                first: None,
            },
            _ => PublishState::DroppingBackup { retried: false },
        },
        PublishState::RollingBack { publish, first } => match ev {
            FsEvent::Failed { message, .. } => match first {
                None => PublishState::RollingBack { publish, first: Some(message) },
                Some(m) => PublishState::Cleaning {
                    failure: PublishFailure::RestoreAfterPublish { message: m, publish },
                    first: None,
                },
            },
            _ => PublishState::Cleaning {
                failure: PublishFailure::Rename { message: publish },
                first: None,
            },
        },
        PublishState::DroppingBackup { retried } => match ev {
            FsEvent::Failed { not_found, .. } => if not_found || retried {
                finished(Ok(()))
            } else {
                PublishState::DroppingBackup { retried: true }
            },
            _ => finished(Ok(())),
        },
        PublishState::Cleaning { failure, first } => match ev {
            FsEvent::Failed { message, not_found } => if not_found {
                failed(failure, None)
            } else {
                match first {
                    None => PublishState::Cleaning { failure, first: Some(message) },
                    Some(m) => failed(failure, Some(m)),
                }
            },
            _ => failed(failure, None),
        },
        PublishState::Done { result } => PublishState::Done { result },
    }
}

impl PublishState {
    /// The state a run starts in.
    pub fn start() -> (s: Self)
        ensures
            s is Creating,
    {
        PublishState::Creating
    }

    /// The action the run asks for next.
    pub fn next_action(&self) -> (a: FsAction)
        ensures
            a == action_of(*self),
    {
        match self {
            PublishState::Creating => FsAction::CreateStaging,
            PublishState::Writing => FsAction::WriteModules,
            PublishState::Probing => FsAction::Probe,
            PublishState::Reprobing => FsAction::Probe,
            PublishState::Restoring { .. } => FsAction::Rename {
                from: Dir::Previous,
                to: Dir::Output,
            },
            PublishState::DroppingStale { .. } => FsAction::Remove { dir: Dir::Previous },
            PublishState::Installing => FsAction::Rename { from: Dir::Staging, to: Dir::Output },
            PublishState::MovingAside => FsAction::Rename { from: Dir::Output, to: Dir::Previous },
            PublishState::Replacing => FsAction::Rename { from: Dir::Staging, to: Dir::Output },
            PublishState::RollingBack { .. } => FsAction::Rename {
                from: Dir::Previous,
                to: Dir::Output,
            },
            PublishState::DroppingBackup { .. } => FsAction::Remove { dir: Dir::Previous },
            PublishState::Cleaning { .. } => FsAction::Remove { dir: Dir::Staging },
            PublishState::Done { .. } => FsAction::Finish,
        }
    }

    /// The state after `event`, what came of the last action.
    pub fn advance(self, event: FsEvent) -> (s: PublishState)
        ensures
            s == advance_spec(self, event),
    {
        match self {
            PublishState::Creating => match event {
                FsEvent::Failed { message, .. } => PublishState::Done {
                    result: Err(
                        GenerateError {
                            failure: PublishFailure::CreateStaging { message },
                            cleanup: None,
                        },
                    ),
                },
                _ => PublishState::Writing,
            },
            PublishState::Writing => match event {
                FsEvent::Failed { message, .. } => PublishState::Cleaning {
                    failure: PublishFailure::Write { message },
                    first: None,
                },
                _ => PublishState::Probing,
            },
            PublishState::Probing => match event {
                FsEvent::Probed { output, previous } => if !output && previous {
                    PublishState::Restoring { first: None }
                } else if output && previous {
                    PublishState::DroppingStale { first: None }
                } else {
                    PublishState::Reprobing
                },
                _ => PublishState::Reprobing,
            },
            PublishState::Restoring { first } => match event {
                FsEvent::Failed { message, .. } => match first {
                    None => PublishState::Restoring { first: Some(message) },
                    Some(m) => PublishState::Cleaning {
                        failure: PublishFailure::RestoreBackup { message: m },
                        first: None,
                    },
                },
                _ => PublishState::Reprobing,
            },
            PublishState::DroppingStale { first } => match event {
                FsEvent::Failed { message, not_found } => if not_found {
                    PublishState::Reprobing
                } else {
                    match first {
                        None => PublishState::DroppingStale { first: Some(message) },
                        Some(m) => PublishState::Cleaning {
                            failure: PublishFailure::RemoveStaleBackup { message: m },
                            first: None,
                        },
                    }
                },
                _ => PublishState::Reprobing,
            },
            PublishState::Reprobing => match event {
                FsEvent::Probed { output, .. } => if output {
                    PublishState::MovingAside
                } else {
                    PublishState::Installing
                },
                _ => PublishState::Installing,
            },
            PublishState::Installing => match event {
                FsEvent::Failed { message, .. } => PublishState::Cleaning {
                    failure: PublishFailure::Rename { message },
                    first: None,
                },
                _ => PublishState::Done { result: Ok(()) },
            },
            PublishState::MovingAside => match event {
                FsEvent::Failed { message, .. } => PublishState::Cleaning {
                    failure: PublishFailure::Rename { message },
                    first: None,
                },
                _ => PublishState::Replacing,
            },
            PublishState::Replacing => match event {
                FsEvent::Failed { message, .. } => PublishState::RollingBack {
                    publish: message,
                    first: None,
                },
                _ => PublishState::DroppingBackup { retried: false },
            },
            PublishState::RollingBack { publish, first } => match event {
                FsEvent::Failed { message, .. } => match first {
                    None => PublishState::RollingBack { publish, first: Some(message) },
                    Some(m) => PublishState::Cleaning {
                        failure: PublishFailure::RestoreAfterPublish { message: m, publish },
                        first: None,
                    },
                },
                _ => PublishState::Cleaning {
                    failure: PublishFailure::Rename { message: publish },
                    first: None,
                },
            },
            PublishState::DroppingBackup { retried } => match event {
                FsEvent::Failed { not_found, .. } => if not_found || retried {
                    PublishState::Done { result: Ok(()) }
                } else {
                    PublishState::DroppingBackup { retried: true }
                },
                _ => PublishState::Done { result: Ok(()) },
            },
            PublishState::Cleaning { failure, first } => match event {
                FsEvent::Failed { message, not_found } => if not_found {
                    PublishState::Done { result: Err(GenerateError { failure, cleanup: None }) }
                } else {
                    match first {
                        None => PublishState::Cleaning { failure, first: Some(message) },
                        Some(m) => PublishState::Done {
                            result: Err(GenerateError { failure, cleanup: Some(m) }),
                        },
                    }
                },
                _ => PublishState::Done { result: Err(GenerateError { failure, cleanup: None }) },
            },
            PublishState::Done { result } => PublishState::Done { result },
        }
    }

    /// The result of a finished run; `None` while it runs.
    pub fn into_result(self) -> (r: Option<Result<(), GenerateError>>)
        ensures
            match self {
                PublishState::Done { result } => r == Some(result),
                _ => r is None,
            },
    {
        match self {
            PublishState::Done { result } => Some(result),
            _ => None,
        }
    }
}

// ---------------------------------------------------------------------------
// The directories a run works on, and what a run does to them
// ---------------------------------------------------------------------------

/// The three directories as a run finds them: what each holds, when it
/// exists (contents are told apart by a label).
#[derive(Clone, Copy, Debug, PartialEq, Eq, Structural)]
pub struct Dirs {
    pub output: Option<u64>,
    pub staging: Option<u64>,
    pub previous: Option<u64>,
}

/// What directory `dir` holds.
pub open spec fn slot(d: Dirs, dir: Dir) -> Option<u64> {
    match dir {
        Dir::Output => d.output,
        Dir::Staging => d.staging,
        Dir::Previous => d.previous,
    }
}

/// The directories with `dir` holding `v`.
pub open spec fn with_slot(d: Dirs, dir: Dir, v: Option<u64>) -> Dirs {
    match dir {
        Dir::Output => Dirs { output: v, staging: d.staging, previous: d.previous },
        Dir::Staging => Dirs { output: d.output, staging: v, previous: d.previous },
        Dir::Previous => Dirs { output: d.output, staging: d.staging, previous: v },
    }
}

/// Carrying out an action: where it can succeed, `ok` says whether it
/// does, and a failure (reported with `message`) changes nothing. The
/// staging directory is created only where none exists, holding the new
/// modules `fresh`; a rename moves an existing directory onto a name that is
/// free; removing a directory that does not exist reports it as not found;
/// a probe answers truthfully.
pub open spec fn perform(d: Dirs, a: FsAction, fresh: u64, ok: bool, message: String) -> (
    Dirs,
    FsEvent,
) {
    match a {
        FsAction::CreateStaging => if ok && d.staging is None {
            (with_slot(d, Dir::Staging, Some(fresh)), FsEvent::Done)
        } else {
            (d, FsEvent::Failed { message, not_found: false })
        },
        FsAction::WriteModules => if ok {
            (d, FsEvent::Done)
        } else {
            (d, FsEvent::Failed { message, not_found: false })
        },
        FsAction::Probe => (
            d,
            FsEvent::Probed { output: d.output is Some, previous: d.previous is Some },
        ),
        FsAction::Rename { from, to } => if ok && slot(d, from) is Some && slot(d, to) is None {
            (with_slot(with_slot(d, to, slot(d, from)), from, None), FsEvent::Done)
        } else {
            (d, FsEvent::Failed { message, not_found: false })
        },
        FsAction::Remove { dir } => if slot(d, dir) is None {
            (d, FsEvent::Failed { message, not_found: true })
        } else if ok {
            (with_slot(d, dir, None), FsEvent::Done)
        } else {
            (d, FsEvent::Failed { message, not_found: false })
        },
        FsAction::Finish => (d, FsEvent::Done),
    }
}

/// A run from `st` on the directories `d`, the file system letting the
/// successive actions succeed as `outcomes` says, until the run is over or
/// the outcomes are spent: the state it reaches and the directories then.
pub open spec fn run(st: PublishState, d: Dirs, fresh: u64, message: String, outcomes: Seq<bool>) -> (
    PublishState,
    Dirs,
)
    decreases outcomes.len(),
{
    if st is Done || outcomes.len() == 0 {
        (st, d)
    } else {
        let (d2, ev) = perform(d, action_of(st), fresh, outcomes[0], message);
        run(advance_spec(st, ev), d2, fresh, message, outcomes.drop_first())
    }
}

/// The old output, when there was one, is in place, or, after a failed
/// restore, kept as the previous output.
pub open spec fn old_output_kept(failure: PublishFailure, d: Dirs, d0: Dirs) -> bool {
    d0.output matches Some(k) ==> (d.output == Some(k) || (failure is RestoreAfterPublish
        && d.previous == Some(k)))
}

/// What holds in each state of a run that started on `d0` with no staging
/// directory.
spec fn inv(st: PublishState, d: Dirs, d0: Dirs, fresh: u64) -> bool {
    let staged = d.staging == Some(fresh);
    match st {
        PublishState::Creating => d == d0,
        PublishState::Writing => staged && d.output == d0.output && d.previous == d0.previous,
        PublishState::Probing => staged && d.output == d0.output && d.previous == d0.previous,
        PublishState::Restoring { .. } => staged && d0.output is None && d.output is None,
        PublishState::DroppingStale { .. } => staged && d0.output is Some && d.output == d0.output,
        PublishState::Reprobing => staged && (d0.output is Some ==> d.output == d0.output),
        PublishState::Installing => staged && d0.output is None && d.output is None,
        PublishState::MovingAside => staged && d.output is Some && (d0.output is Some ==> d.output
            == d0.output),
        PublishState::Replacing => staged && d.output is None && (d0.output is Some ==> d.previous
            == d0.output),
        PublishState::RollingBack { .. } => staged && d.output is None && (d0.output is Some
            ==> d.previous == d0.output),
        PublishState::DroppingBackup { .. } => d.output == Some(fresh) && d.staging is None,
        PublishState::Cleaning { failure, .. } => (staged || d.staging is None) && old_output_kept(
            failure,
            d,
            d0,
        ),
        PublishState::Done { result } => match result {
            Ok(()) => d.output == Some(fresh) && d.staging is None,
            Err(e) => (e.cleanup is None ==> d.staging is None) && old_output_kept(e.failure, d, d0),
        },
    }
}

proof fn lemma_step_keeps_inv(
    st: PublishState,
    d: Dirs,
    d0: Dirs,
    fresh: u64,
    ok: bool,
    message: String,
)
    requires
        d0.staging is None,
        inv(st, d, d0, fresh),
    ensures
        ({
            let (d2, ev) = perform(d, action_of(st), fresh, ok, message);
            inv(advance_spec(st, ev), d2, d0, fresh)
        }),
{
}

proof fn lemma_run_keeps_inv(
    st: PublishState,
    d: Dirs,
    d0: Dirs,
    fresh: u64,
    message: String,
    outcomes: Seq<bool>,
)
    requires
        d0.staging is None,
        inv(st, d, d0, fresh),
    ensures
        ({
            let (st2, d2) = run(st, d, fresh, message, outcomes);
            inv(st2, d2, d0, fresh)
        }),
    decreases outcomes.len(),
{
    if !(st is Done) && outcomes.len() > 0 {
        let (d2, ev) = perform(d, action_of(st), fresh, outcomes[0], message);
        lemma_step_keeps_inv(st, d, d0, fresh, outcomes[0], message);
        lemma_run_keeps_inv(advance_spec(st, ev), d2, d0, fresh, message, outcomes.drop_first());
    }
}

/// What holds of the previous output in each state of a run that started
/// on `d0` with no staging directory and no previous output.
spec fn inv_prev(st: PublishState, d: Dirs, d0: Dirs) -> bool {
    match st {
        PublishState::Creating | PublishState::Writing | PublishState::Probing
        | PublishState::Reprobing | PublishState::Installing | PublishState::MovingAside => d.previous
            is None && d.output == d0.output,
        PublishState::Restoring { .. } | PublishState::DroppingStale { .. } => false,
        PublishState::Replacing | PublishState::RollingBack { .. } => d.output is None
            && d.previous == d0.output,
        PublishState::DroppingBackup { .. } => true,
        PublishState::Cleaning { failure, .. } => !(failure is RestoreAfterPublish) ==> d.previous
            is None && d.output == d0.output,
        PublishState::Done { result } => match result {
            Ok(()) => true,
            Err(e) => !(e.failure is RestoreAfterPublish) ==> d.previous is None && d.output
                == d0.output,
        },
    }
}

proof fn lemma_run_keeps_inv_prev(
    st: PublishState,
    d: Dirs,
    d0: Dirs,
    fresh: u64,
    message: String,
    outcomes: Seq<bool>,
)
    requires
        d0.staging is None,
        d0.previous is None,
        inv(st, d, d0, fresh),
        inv_prev(st, d, d0),
    ensures
        ({
            let (st2, d2) = run(st, d, fresh, message, outcomes);
            inv_prev(st2, d2, d0)
        }),
    decreases outcomes.len(),
{
    if !(st is Done) && outcomes.len() > 0 {
        let (d2, ev) = perform(d, action_of(st), fresh, outcomes[0], message);
        lemma_step_keeps_inv(st, d, d0, fresh, outcomes[0], message);
        lemma_run_keeps_inv_prev(advance_spec(st, ev), d2, d0, fresh, message, outcomes.drop_first());
    }
}

/// A run that finds no previous output and fails leaves the output as it
/// found it and no previous output behind, unless moving the old output
/// back after a failed publish failed too (then the old output is kept as
/// the previous output, as `failed_run_keeps_the_old_output` says).
pub proof fn failed_run_restores_output_and_previous(
    d0: Dirs,
    fresh: u64,
    message: String,
    outcomes: Seq<bool>,
)
    requires
        d0.staging is None,
        d0.previous is None,
    ensures
        ({
            let (st, d) = run(PublishState::Creating, d0, fresh, message, outcomes);
            st matches PublishState::Done { result: Err(e) } && !(e.failure is RestoreAfterPublish)
                ==> d.output == d0.output && d.previous is None
        }),
{
    lemma_run_keeps_inv_prev(PublishState::Creating, d0, d0, fresh, message, outcomes);
}

/// A run that succeeds leaves the new modules as the output and no staging
/// directory behind, whatever it found at startup (an output, a previous
/// output left by an interrupted run, both or neither).
pub proof fn successful_run_installs_the_new_modules(
    d0: Dirs,
    fresh: u64,
    message: String,
    outcomes: Seq<bool>,
)
    requires
        d0.staging is None,
    ensures
        ({
            let (st, d) = run(PublishState::Creating, d0, fresh, message, outcomes);
            st matches PublishState::Done { result: Ok(()) } ==> d.output == Some(fresh)
                && d.staging is None
        }),
{
    lemma_run_keeps_inv(PublishState::Creating, d0, d0, fresh, message, outcomes);
}

/// A run that fails never loses the output it found: the output is back in
/// place, or, only when moving it back failed too, it is kept as the
/// previous output. Its staging directory is gone unless removing it failed.
pub proof fn failed_run_keeps_the_old_output(d0: Dirs, fresh: u64, message: String, outcomes: Seq<bool>)
    requires
        d0.staging is None,
    ensures
        ({
            let (st, d) = run(PublishState::Creating, d0, fresh, message, outcomes);
            st matches PublishState::Done { result: Err(e) } ==> old_output_kept(e.failure, d, d0)
                && (e.cleanup is None ==> d.staging is None)
        }),
{
    lemma_run_keeps_inv(PublishState::Creating, d0, d0, fresh, message, outcomes);
}

/// A run that finds a staging directory, which another run owns, fails at
/// once and changes nothing.
pub proof fn occupied_staging_is_left_alone(d0: Dirs, fresh: u64, message: String, outcomes: Seq<bool>)
    requires
        d0.staging is Some,
        outcomes.len() > 0,
    ensures
        ({
            let (st, d) = run(PublishState::Creating, d0, fresh, message, outcomes);
            &&& st matches PublishState::Done { result: Err(e) }
            &&& e.failure is CreateStaging && e.cleanup is None
            &&& d == d0
        }),
{
    let (d1, ev) = perform(d0, FsAction::CreateStaging, fresh, outcomes[0], message);
    let st1 = advance_spec(PublishState::Creating, ev);
    assert(run(st1, d1, fresh, message, outcomes.drop_first()) == (st1, d1));
}

/// How many more actions a run takes at most from `st`.
pub open spec fn steps_left(st: PublishState) -> nat {
    match st {
        PublishState::Creating => 12,
        PublishState::Writing => 11,
        PublishState::Probing => 10,
        PublishState::Restoring { first } => if first is None {
            9
        } else {
            8
        },
        PublishState::DroppingStale { first } => if first is None {
            9
        } else {
            8
        },
        PublishState::Reprobing => 7,
        PublishState::MovingAside => 6,
        PublishState::Replacing => 5,
        PublishState::RollingBack { first, .. } => if first is None {
            4
        } else {
            3
        },
        PublishState::Installing => 3,
        PublishState::DroppingBackup { retried } => if retried {
            1
        } else {
            2
        },
        PublishState::Cleaning { first, .. } => if first is None {
            2
        } else {
            1
        },
        PublishState::Done { .. } => 0,
    }
}

proof fn lemma_run_ends(st: PublishState, d: Dirs, fresh: u64, message: String, outcomes: Seq<bool>)
    requires
        outcomes.len() >= steps_left(st),
    ensures
        run(st, d, fresh, message, outcomes).0 is Done,
    decreases outcomes.len(),
{
    if !(st is Done) {
        let (d2, ev) = perform(d, action_of(st), fresh, outcomes[0], message);
        assert(steps_left(advance_spec(st, ev)) < steps_left(st));
        lemma_run_ends(advance_spec(st, ev), d2, fresh, message, outcomes.drop_first());
    }
}

/// Every run is over after a bounded number of actions, whatever the file
/// system lets succeed: retries are bounded and no step repeats.
pub proof fn every_run_finishes(d0: Dirs, fresh: u64, message: String, outcomes: Seq<bool>)
    requires
        outcomes.len() >= steps_left(PublishState::Creating),
    ensures
        run(PublishState::Creating, d0, fresh, message, outcomes).0 is Done,
{
    lemma_run_ends(PublishState::Creating, d0, fresh, message, outcomes);
}

// ---------------------------------------------------------------------------
// Directory names
// ---------------------------------------------------------------------------

/// What the staging directory's name adds to the output's.
pub const STAGING_SUFFIX: &'static str = ".staging";

/// What the previous output's name adds to the output's.
pub const PREVIOUS_SUFFIX: &'static str = ".previous";

/// The name of a directory beside the output: the output's name followed
/// by `suffix`.
pub fn peer_name(file_name: &str, suffix: &str) -> (n: String)
    ensures
        n@ == file_name@ + suffix@,
{
    let mut n = String::from_str(file_name);
    push_str(&mut n, suffix);
    n
}

// ---------------------------------------------------------------------------
// Messages
// ---------------------------------------------------------------------------

/// The message of a failure, each cause after its context and `: `;
/// `staging` and `backup` name the staging and previous directories.
pub open spec fn failure_text(f: PublishFailure, staging: Seq<char>, backup: Seq<char>) -> Seq<char> {
    match f {
        PublishFailure::CreateStaging { message } => "failed to exclusively create generated staging directory "@
            + staging + ": "@ + message@,
        PublishFailure::Write { message } => message@,
        PublishFailure::RestoreBackup { message } => "failed to restore generated output from "@
            + backup + ": "@ + message@,
        PublishFailure::RemoveStaleBackup { message } => "failed to remove stale generated output backup "@
            + backup + ": "@ + message@,
        PublishFailure::Rename { message } => message@,
        PublishFailure::RestoreAfterPublish { message, publish } => "failed to restore generated output after publish error: "@
            + publish@ + ": "@ + message@,
    }
}

/// The message of a failed run: its failure, wrapped in the cleanup error
/// when removing the staging directory failed too.
pub open spec fn error_text(e: GenerateError, staging: Seq<char>, backup: Seq<char>) -> Seq<char> {
    match e.cleanup {
        None => failure_text(e.failure, staging, backup),
        Some(m) => "failed to clean generated staging after publish error: "@ + failure_text(
            e.failure,
            staging,
            backup,
        ) + ": failed to remove owned staging "@ + staging + ": "@ + m@,
    }
}

impl PublishFailure {
    /// The message of the failure.
    pub fn message(&self, staging: &str, backup: &str) -> (m: String)
        ensures
            m@ == failure_text(*self, staging@, backup@),
    {
        match self {
            PublishFailure::CreateStaging { message } => {
                let mut m = String::from_str(
                    "failed to exclusively create generated staging directory ",
                );
                push_str(&mut m, staging);
                push_str(&mut m, ": ");
                push_str(&mut m, message.as_str());
                m
            },
            PublishFailure::Write { message } => message.clone(),
            PublishFailure::RestoreBackup { message } => {
                let mut m = String::from_str("failed to restore generated output from ");
                push_str(&mut m, backup);
                push_str(&mut m, ": ");
                push_str(&mut m, message.as_str());
                m
            },
            PublishFailure::RemoveStaleBackup { message } => {
                let mut m = String::from_str("failed to remove stale generated output backup ");
                push_str(&mut m, backup);
                push_str(&mut m, ": ");
                push_str(&mut m, message.as_str());
                m
            },
            PublishFailure::Rename { message } => message.clone(),
            PublishFailure::RestoreAfterPublish { message, publish } => {
                let mut m = String::from_str(
                    "failed to restore generated output after publish error: ",
                );
                push_str(&mut m, publish.as_str());
                push_str(&mut m, ": ");
                push_str(&mut m, message.as_str());
                m
            },
        }
    }
}

impl GenerateError {
    /// The message of the failed run.
    pub fn message(&self, staging: &str, backup: &str) -> (m: String)
        ensures
            m@ == error_text(*self, staging@, backup@),
    {
        let inner = self.failure.message(staging, backup);
        match &self.cleanup {
            None => inner,
            Some(c) => {
                let mut m = String::from_str(
                    "failed to clean generated staging after publish error: ",
                );
                push_str(&mut m, inner.as_str());
                push_str(&mut m, ": failed to remove owned staging ");
                push_str(&mut m, staging);
                push_str(&mut m, ": ");
                push_str(&mut m, c.as_str());
                m
            },
        }
    }
}

} // verus!
