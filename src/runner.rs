use vstd::prelude::*;

use crate::error::{ConnectionError, FileError, MigrationError};
use crate::order::{lex_lt, names, select_names, select_ordered, strictly_sorted};

verus! {

/// Whether a run applies outstanding migrations or reverts applied ones.
#[derive(Debug, Clone, Copy, PartialEq, Eq, Structural)]
pub enum RunMode {
    Migrate,
    Rollback,
}

/// Which of a migration's two scripts is meant.
#[derive(Debug, Clone, Copy, PartialEq, Eq, Structural)]
pub enum ScriptKind {
    Up,
    Down,
}

impl ScriptKind {
    pub open spec fn file_name_spec(self) -> Seq<char> {
        match self {
            ScriptKind::Up => "up.sql"@,
            ScriptKind::Down => "down.sql"@,
        }
    }

    /// The script's file name inside the migration's directory.
    pub fn file_name(&self) -> (r: &'static str)
        ensures
            r@ == self.file_name_spec(),
    {
        match self {
            ScriptKind::Up => "up.sql",
            ScriptKind::Down => "down.sql",
        }
    }
}

/// The script a run executes for each migration.
pub open spec fn script_of(mode: RunMode) -> ScriptKind {
    match mode {
        RunMode::Migrate => ScriptKind::Up,
        RunMode::Rollback => ScriptKind::Down,
    }
}

/// Where a run stands: each phase but the last waits for the answer to one action.
#[derive(Debug, Clone, Copy, PartialEq, Eq, Structural)]
pub enum Phase {
    CheckTable,
    CreateTable,
    ReadLedger,
    ScanDirectory,
    ReadScript,
    ExecuteScript,
    UpdateLedger,
    Finished,
}

/// Work that a run asks of its caller, who performs it and reports an [`Event`].
#[derive(Debug)]
pub enum Action {
    /// Ask the backend whether the ledger table exists.
    CheckLedgerTable,
    /// Create the ledger table.
    CreateLedgerTable,
    /// Read the names recorded in the ledger.
    ReadLedger,
    /// List the migration directories under the migrations root.
    ScanDirectory,
    /// Read one script of the named migration.
    ReadScript(String, ScriptKind),
    /// Execute the named migration's script, as one transaction.
    ExecuteScript(String, String),
    /// Insert a ledger record for the migration, with the current time.
    RecordMigration(String),
    /// Delete the migration's ledger record.
    RemoveMigration(String),
    /// Nothing is left to do; the run has its outcome.
    Finished,
}

/// What came of the last action.
#[derive(Debug)]
pub enum Event {
    LedgerTableChecked(bool),
    LedgerTableCreated,
    LedgerRead(Vec<String>),
    DirectoryScanned(Vec<String>),
    ScriptRead(String),
    ScriptExecuted,
    LedgerUpdated,
    ConnectionFailed(ConnectionError),
    FileFailed(FileError),
}

/// The mathematical state of a run.
pub struct RunView {
    pub mode: RunMode,
    pub phase: Phase,
    /// The ledger snapshot taken at the start of the run.
    pub ledger: Seq<Seq<char>>,
    /// The migrations the run works through, in order.
    pub plan: Seq<Seq<char>>,
    /// How many of them are done.
    pub next: int,
    /// The script read for `plan[next]`.
    pub script: Seq<char>,
    pub error: Option<MigrationError>,
}

impl RunView {
    /// The migrations that this run has applied or reverted, in order.
    pub open spec fn completed(self) -> Seq<Seq<char>> {
        self.plan.take(self.next)
    }

    pub open spec fn wf(self) -> bool {
        &&& 0 <= self.next <= self.plan.len()
        &&& strictly_sorted(self.plan)
        &&& (self.phase == Phase::ReadScript || self.phase == Phase::ExecuteScript || self.phase
            == Phase::UpdateLedger) ==> self.next < self.plan.len()
        &&& (self.phase == Phase::CheckTable || self.phase == Phase::CreateTable || self.phase
            == Phase::ReadLedger || self.phase == Phase::ScanDirectory) ==> self.plan.len() == 0
        &&& self.phase != Phase::Finished ==> self.error is None
        &&& (self.phase == Phase::Finished && self.error is None) ==> self.next == self.plan.len()
        &&& self.mode == RunMode::Rollback ==> self.phase != Phase::CreateTable
    }

    pub open spec fn with_phase(self, phase: Phase) -> RunView {
        RunView { phase, ..self }
    }

    pub open spec fn finished(self, error: Option<MigrationError>) -> RunView {
        RunView { phase: Phase::Finished, error, ..self }
    }
}

/// The state of a fresh run.
pub open spec fn initial(mode: RunMode) -> RunView {
    RunView {
        mode,
        phase: Phase::CheckTable,
        ledger: Seq::empty(),
        plan: Seq::empty(),
        next: 0,
        script: Seq::empty(),
        error: None,
    }
}

/// The migrations a run in `mode` works through, given the disk listing and the ledger.
pub open spec fn plan_of(mode: RunMode, on_disk: Seq<Seq<char>>, ledger: Seq<Seq<char>>) -> Seq<
    Seq<char>,
> {
    select_ordered(on_disk, ledger, mode == RunMode::Rollback)
}

/// The state after the directory scan: the plan fixed, and the run done if it is empty.
pub open spec fn planned(s: RunView, plan: Seq<Seq<char>>) -> RunView {
    let u = RunView { plan, next: 0, ..s };
    if plan.len() == 0 {
        u.finished(None)
    } else {
        u.with_phase(Phase::ReadScript)
    }
}

/// The state after a migration is done: the next one, or the end of the run.
pub open spec fn moved_on(s: RunView) -> RunView {
    let u = RunView { next: s.next + 1, ..s };
    if s.next + 1 == s.plan.len() {
        u.finished(None)
    } else {
        u.with_phase(Phase::ReadScript)
    }
}

/// A run in state `s` that receives `e` goes to state `t`.
///
/// Each phase reacts to the answer to its own action and to that action's
/// failure; any other event leaves the state as it is. A failure ends the run.
pub open spec fn advances(s: RunView, e: Event, t: RunView) -> bool {
    match s.phase {
        Phase::CheckTable => match e {
            Event::LedgerTableChecked(exists) => t == if exists {
                s.with_phase(Phase::ReadLedger)
            } else if s.mode == RunMode::Migrate {
                s.with_phase(Phase::CreateTable)
            } else {
                s.finished(None)
            },
            Event::ConnectionFailed(c) => t == s.finished(Some(MigrationError::ConnectionError(c))),
            _ => t == s,
        },
        Phase::CreateTable => match e {
            Event::LedgerTableCreated => t == s.with_phase(Phase::ReadLedger),
            Event::ConnectionFailed(c) => t == s.finished(Some(MigrationError::ConnectionError(c))),
            _ => t == s,
        },
        Phase::ReadLedger => match e {
            Event::LedgerRead(rows) => t == RunView {
                phase: Phase::ScanDirectory,
                ledger: names(rows@),
                ..s
            },
            Event::ConnectionFailed(c) => t == s.finished(Some(MigrationError::ConnectionError(c))),
            _ => t == s,
        },
        Phase::ScanDirectory => match e {
            Event::DirectoryScanned(dirs) => t == planned(s, plan_of(s.mode, names(dirs@), s.ledger)),
            Event::FileFailed(f) => t == s.finished(Some(MigrationError::FileError(f))),
            _ => t == s,
        },
        Phase::ReadScript => match e {
            Event::ScriptRead(text) => t == RunView {
                phase: Phase::ExecuteScript,
                script: text@,
                ..s
            },
            Event::FileFailed(f) => t == s.finished(Some(MigrationError::FileError(f))),
            _ => t == s,
        },
        Phase::ExecuteScript => match e {
            Event::ScriptExecuted => t == s.with_phase(Phase::UpdateLedger),
            Event::ConnectionFailed(c) => {
                &&& t == s.finished(t.error)
                &&& t.error matches Some(MigrationError::ScriptFailed(name, cause))
                &&& name@ == s.plan[s.next]
                &&& cause == c
            },
            _ => t == s,
        },
        Phase::UpdateLedger => match e {
            Event::LedgerUpdated => t == moved_on(s),
            Event::ConnectionFailed(c) => t == s.finished(Some(MigrationError::ConnectionError(c))),
            _ => t == s,
        },
        Phase::Finished => t == s,
    }
}

/// The action that a run in state `s` asks for.
pub open spec fn requests(s: RunView, a: Action) -> bool {
    match s.phase {
        Phase::CheckTable => a is CheckLedgerTable,
        Phase::CreateTable => a is CreateLedgerTable,
        Phase::ReadLedger => a is ReadLedger,
        Phase::ScanDirectory => a is ScanDirectory,
        Phase::ReadScript => a matches Action::ReadScript(name, kind) && name@ == s.plan[s.next]
            && kind == script_of(s.mode),
        Phase::ExecuteScript => a matches Action::ExecuteScript(name, sql) && name@ == s.plan[s.next]
            && sql@ == s.script,
        Phase::UpdateLedger => match s.mode {
            RunMode::Migrate => a matches Action::RecordMigration(name) && name@ == s.plan[s.next],
            RunMode::Rollback => a matches Action::RemoveMigration(name) && name@ == s.plan[s.next],
        },
        Phase::Finished => a is Finished,
    }
}

/// An action that changes the ledger.
pub open spec fn is_write(a: Action) -> bool {
    a is CreateLedgerTable || a is RecordMigration || a is RemoveMigration
}

/// What a run that ended well did.
#[derive(Debug)]
pub struct RunReport {
    pub mode: RunMode,
    /// The migrations applied, or reverted, in the order this happened.
    pub completed: Vec<String>,
}

impl RunReport {
    /// The run was a rollback that found nothing to revert.
    pub fn nothing_to_roll_back(&self) -> (r: bool)
        ensures
            r == (self.mode == RunMode::Rollback && self.completed@.len() == 0),
    {
        self.mode == RunMode::Rollback && self.completed.len() == 0
    }

    /// The informational line for a rollback that reverted nothing.
    pub fn nothing_to_roll_back_message() -> (r: &'static str)
        ensures
            r@ == "No migrations have yet been run. Thus, none can be rolled back."@,
    {
        "No migrations have yet been run. Thus, none can be rolled back."
    }
}

/// A migrate or rollback run, as decisions between the caller's actions.
///
/// The caller asks [`MigrationRun::next_action`] what to do, does it against
/// the backend or the migrations directory, and hands the result to
/// [`MigrationRun::advance`], until the action is [`Action::Finished`].
pub struct MigrationRun {
    mode: RunMode,
    phase: Phase,
    ledger: Vec<String>,
    plan: Vec<String>,
    next: usize,
    script: String,
    error: Option<MigrationError>,
}

impl View for MigrationRun {
    type V = RunView;

    closed spec fn view(&self) -> RunView {
        RunView {
            mode: self.mode,
            phase: self.phase,
            ledger: names(self.ledger@),
            plan: names(self.plan@),
            next: self.next as int,
            script: self.script@,
            error: self.error,
        }
    }
}

impl MigrationRun {
    #[verifier::type_invariant]
    spec fn inv(self) -> bool {
        self@.wf()
    }

    /// A run that applies the outstanding migrations.
    pub fn migrate() -> (r: MigrationRun)
        ensures
            r@ == initial(RunMode::Migrate),
    {
        MigrationRun::start(RunMode::Migrate)
    }

    /// A run that reverts the applied migrations found on disk.
    pub fn rollback() -> (r: MigrationRun)
        ensures
            r@ == initial(RunMode::Rollback),
    {
        MigrationRun::start(RunMode::Rollback)
    }

    fn start(mode: RunMode) -> (r: MigrationRun)
        ensures
            r@ == initial(mode),
    {
        let r = MigrationRun {
            mode,
            phase: Phase::CheckTable,
            ledger: Vec::new(),
            plan: Vec::new(),
            next: 0,
            script: String::new(),
            error: None,
        };
        proof {
            assert(names(r.ledger@) =~= Seq::<Seq<char>>::empty());
            assert(names(r.plan@) =~= Seq::<Seq<char>>::empty());
        }
        r
    }

    pub fn mode(&self) -> (r: RunMode)
        ensures
            r == self@.mode,
    {
        self.mode
    }

    pub fn is_finished(&self) -> (r: bool)
        ensures
            r == (self@.phase == Phase::Finished),
    {
        self.phase == Phase::Finished
    }

    /// What the caller is to do now.
    pub fn next_action(&self) -> (r: Action)
        ensures
            requests(self@, r),
    {
        proof {
            use_type_invariant(self);
        }
        match self.phase {
            Phase::CheckTable => Action::CheckLedgerTable,
            Phase::CreateTable => Action::CreateLedgerTable,
            Phase::ReadLedger => Action::ReadLedger,
            Phase::ScanDirectory => Action::ScanDirectory,
            Phase::ReadScript => {
                let kind = match self.mode {
                    RunMode::Migrate => ScriptKind::Up,
                    RunMode::Rollback => ScriptKind::Down,
                };
                Action::ReadScript(self.plan[self.next].clone(), kind)
            },
            Phase::ExecuteScript => Action::ExecuteScript(
                self.plan[self.next].clone(),
                self.script.clone(),
            ),
            Phase::UpdateLedger => match self.mode {
                RunMode::Migrate => Action::RecordMigration(self.plan[self.next].clone()),
                RunMode::Rollback => Action::RemoveMigration(self.plan[self.next].clone()),
            },
            Phase::Finished => Action::Finished,
        }
    }

    /// Takes in what came of the last action.
    pub fn advance(self, event: Event) -> (r: MigrationRun)
        ensures
            advances(self@, event, r@),
    {
        proof {
            use_type_invariant(&self);
        }
        let ghost s = self@;
        let MigrationRun { mode, phase, ledger, plan, next, script, error } = self;
        match phase {
            Phase::CheckTable => match event {
                Event::LedgerTableChecked(exists) => {
                    let phase = if exists {
                        Phase::ReadLedger
                    } else if mode == RunMode::Migrate {
                        Phase::CreateTable
                    } else {
                        Phase::Finished
                    };
                    MigrationRun { mode, phase, ledger, plan, next, script, error }
                },
                Event::ConnectionFailed(c) => MigrationRun {
                    mode,
                    phase: Phase::Finished,
                    ledger,
                    plan,
                    next,
                    script,
                    error: Some(MigrationError::ConnectionError(c)),
                },
                _ => MigrationRun { mode, phase, ledger, plan, next, script, error },
            },
            Phase::CreateTable => match event {
                Event::LedgerTableCreated => MigrationRun {
                    mode,
                    phase: Phase::ReadLedger,
                    ledger,
                    plan,
                    next,
                    script,
                    error,
                },
                Event::ConnectionFailed(c) => MigrationRun {
                    mode,
                    phase: Phase::Finished,
                    ledger,
                    plan,
                    next,
                    script,
                    error: Some(MigrationError::ConnectionError(c)),
                },
                _ => MigrationRun { mode, phase, ledger, plan, next, script, error },
            },
            Phase::ReadLedger => match event {
                Event::LedgerRead(rows) => MigrationRun {
                    mode,
                    phase: Phase::ScanDirectory,
                    ledger: rows,
                    plan,
                    next,
                    script,
                    error,
                },
                Event::ConnectionFailed(c) => MigrationRun {
                    mode,
                    phase: Phase::Finished,
                    ledger,
                    plan,
                    next,
                    script,
                    error: Some(MigrationError::ConnectionError(c)),
                },
                _ => MigrationRun { mode, phase, ledger, plan, next, script, error },
            },
            Phase::ScanDirectory => match event {
                Event::DirectoryScanned(dirs) => {
                    let plan = select_names(&dirs, &ledger, mode == RunMode::Rollback);
                    proof {
                        crate::order::lemma_select_members(
                            names(dirs@),
                            names(ledger@),
                            mode == RunMode::Rollback,
                        );
                    }
                    let phase = if plan.len() == 0 {
                        Phase::Finished
                    } else {
                        Phase::ReadScript
                    };
                    MigrationRun { mode, phase, ledger, plan, next: 0, script, error }
                },
                Event::FileFailed(f) => MigrationRun {
                    mode,
                    phase: Phase::Finished,
                    ledger,
                    plan,
                    next,
                    script,
                    error: Some(MigrationError::FileError(f)),
                },
                _ => MigrationRun { mode, phase, ledger, plan, next, script, error },
            },
            Phase::ReadScript => match event {
                Event::ScriptRead(text) => MigrationRun {
                    mode,
                    phase: Phase::ExecuteScript,
                    ledger,
                    plan,
                    next,
                    script: text,
                    error,
                },
                Event::FileFailed(f) => MigrationRun {
                    mode,
                    phase: Phase::Finished,
                    ledger,
                    plan,
                    next,
                    script,
                    error: Some(MigrationError::FileError(f)),
                },
                _ => MigrationRun { mode, phase, ledger, plan, next, script, error },
            },
            Phase::ExecuteScript => match event {
                Event::ScriptExecuted => MigrationRun {
                    mode,
                    phase: Phase::UpdateLedger,
                    ledger,
                    plan,
                    next,
                    script,
                    error,
                },
                Event::ConnectionFailed(c) => {
                    let name = plan[next].clone();
                    MigrationRun {
                        mode,
                        phase: Phase::Finished,
                        ledger,
                        plan,
                        next,
                        script,
                        error: Some(MigrationError::ScriptFailed(name, c)),
                    }
                },
                _ => MigrationRun { mode, phase, ledger, plan, next, script, error },
            },
            Phase::UpdateLedger => match event {
                Event::LedgerUpdated => {
                    proof {
                        assert(s.next == next as int);
                        assert(s.phase == Phase::UpdateLedger);
                        assert(s.next < s.plan.len());
                        assert(names(plan@).len() == plan@.len());
                        assert(next < plan.len());
                    }
                    let phase = if next + 1 == plan.len() {
                        Phase::Finished
                    } else {
                        Phase::ReadScript
                    };
                    MigrationRun { mode, phase, ledger, plan, next: next + 1, script, error }
                },
                Event::ConnectionFailed(c) => MigrationRun {
                    mode,
                    phase: Phase::Finished,
                    ledger,
                    plan,
                    next,
                    script,
                    error: Some(MigrationError::ConnectionError(c)),
                },
                _ => MigrationRun { mode, phase, ledger, plan, next, script, error },
            },
            Phase::Finished => MigrationRun { mode, phase, ledger, plan, next, script, error },
        }
    }

    /// The outcome of a finished run: a report of what was done, or the error
    /// that stopped it. `None` while the run is not finished.
    pub fn outcome(self) -> (r: Option<Result<RunReport, MigrationError>>)
        ensures
            self@.phase != Phase::Finished ==> r is None,
            self@.phase == Phase::Finished ==> match self@.error {
                Some(e) => r == Some(Err::<RunReport, MigrationError>(e)),
                None => r matches Some(Ok(report)) && report.mode == self@.mode && names(
                    report.completed@,
                ) == self@.completed(),
            },
    {
        proof {
            use_type_invariant(&self);
        }
        let ghost s = self@;
        let MigrationRun { mode, phase, ledger, plan, next, script, error } = self;
        if phase != Phase::Finished {
            return None;
        }
        match error {
            Some(e) => Some(Err(e)),
            None => {
                let mut completed = plan;
                completed.truncate(next);
                proof {
                    assert(names(completed@) =~= s.plan.take(s.next));
                }
                Some(Ok(RunReport { mode, completed }))
            },
        }
    }
}

/// `states` is what a run goes through as it receives `events`, one by one.
pub open spec fn is_run(states: Seq<RunView>, events: Seq<Event>) -> bool {
    &&& states.len() == events.len() + 1
    &&& forall|i: int|
        0 <= i < events.len() ==> advances(states[i], #[trigger] events[i], states[i + 1])
}

/// Plan fixed: the run is past its directory scan.
pub open spec fn past_scan(s: RunView) -> bool {
    s.phase == Phase::ReadScript || s.phase == Phase::ExecuteScript || s.phase
        == Phase::UpdateLedger || s.phase == Phase::Finished
}

/// Every step keeps a run well formed.
pub proof fn lemma_step_wf(s: RunView, e: Event, t: RunView)
    requires
        s.wf(),
        advances(s, e, t),
    ensures
        t.wf(),
{
    if s.phase == Phase::ScanDirectory {
        if let Event::DirectoryScanned(dirs) = e {
            crate::order::lemma_select_members(names(dirs@), s.ledger, s.mode == RunMode::Rollback);
        }
    }
}

/// Every state of a run that starts fresh is well formed.
pub proof fn lemma_run_wf(states: Seq<RunView>, events: Seq<Event>, j: int)
    requires
        is_run(states, events),
        states[0].wf(),
        0 <= j < states.len(),
    ensures
        states[j].wf(),
    decreases j,
{
    if j > 0 {
        lemma_run_wf(states, events, j - 1);
        assert(advances(states[j - 1], events[j - 1], states[j]));
        lemma_step_wf(states[j - 1], events[j - 1], states[j]);
    }
}

/// A finished run stays as it is, whatever it is told.
pub proof fn lemma_finished_stays(states: Seq<RunView>, events: Seq<Event>, i: int, j: int)
    requires
        is_run(states, events),
        0 <= i <= j < states.len(),
        states[i].phase == Phase::Finished,
    ensures
        states[j] == states[i],
    decreases j - i,
{
    if j > i {
        lemma_finished_stays(states, events, i, j - 1);
        assert(advances(states[j - 1], events[j - 1], states[j]));
    }
}

/// Once the directory is scanned, a run keeps its plan and never goes back
/// to an earlier migration.
pub proof fn lemma_plan_kept(states: Seq<RunView>, events: Seq<Event>, i: int, j: int)
    requires
        is_run(states, events),
        0 <= i <= j < states.len(),
        past_scan(states[i]),
    ensures
        past_scan(states[j]),
        states[j].plan == states[i].plan,
        states[i].next <= states[j].next,
    decreases j - i,
{
    if j > i {
        lemma_plan_kept(states, events, i, j - 1);
        assert(advances(states[j - 1], events[j - 1], states[j]));
    }
}

/// Migrations are applied, or reverted, in ascending identifier order: of two
/// scripts a run asks for at two points of the run, the earlier request is for
/// the same migration or for one that sorts before the later one.
pub proof fn lemma_ascending_order(
    states: Seq<RunView>,
    events: Seq<Event>,
    mode: RunMode,
    i: int,
    j: int,
    a: Action,
    b: Action,
)
    requires
        is_run(states, events),
        states[0] == initial(mode),
        0 <= i < j < states.len(),
        requests(states[i], a),
        requests(states[j], b),
        a is ReadScript,
        b is ReadScript,
    ensures
        a->ReadScript_0@ == b->ReadScript_0@ || lex_lt(a->ReadScript_0@, b->ReadScript_0@),
{
    lemma_run_wf(states, events, i);
    lemma_run_wf(states, events, j);
    lemma_plan_kept(states, events, i, j);
    let p = states[i].plan;
    if states[i].next < states[j].next {
        assert(strictly_sorted(p));
        assert(lex_lt(p[states[i].next], p[states[j].next]));
    }
}

/// A run stops at the first script that fails: the error names that migration,
/// which is not counted as done, and from then on the run asks for nothing, so
/// the migrations after it are never attempted.
pub proof fn lemma_fail_fast(states: Seq<RunView>, events: Seq<Event>, mode: RunMode, k: int)
    requires
        is_run(states, events),
        states[0] == initial(mode),
        0 <= k < events.len(),
        states[k].phase == Phase::ExecuteScript,
        events[k] is ConnectionFailed,
    ensures
        states[k + 1].phase == Phase::Finished,
        states[k + 1].error matches Some(MigrationError::ScriptFailed(name, cause)) && name@
            == states[k].plan[states[k].next] && cause == events[k]->ConnectionFailed_0,
        states[k + 1].completed() == states[k].completed(),
        !states[k + 1].completed().contains(states[k].plan[states[k].next]),
        forall|j: int| k < j < states.len() ==> #[trigger] states[j] == states[k + 1],
        forall|j: int, a: Action|
            k < j < states.len() && #[trigger] requests(states[j], a) ==> a is Finished,
{
    lemma_run_wf(states, events, k);
    assert(advances(states[k], events[k], states[k + 1]));
    let s = states[k];
    lemma_not_done_yet(s);
    assert forall|j: int| k < j < states.len() implies #[trigger] states[j] == states[k + 1] by {
        lemma_finished_stays(states, events, k + 1, j);
    }
    assert forall|j: int, a: Action|
        k < j < states.len() && #[trigger] requests(states[j], a) implies a is Finished by {
        lemma_finished_stays(states, events, k + 1, j);
    }
}

/// The migration a run is working on is not among those it has done.
proof fn lemma_not_done_yet(s: RunView)
    requires
        s.wf(),
        s.next < s.plan.len(),
    ensures
        !s.completed().contains(s.plan[s.next]),
{
    let done = s.completed();
    if done.contains(s.plan[s.next]) {
        let m = choose|m: int| 0 <= m < done.len() && done[m] == s.plan[s.next];
        assert(lex_lt(s.plan[m], s.plan[s.next]));
        crate::order::lemma_lex_irreflexive(s.plan[s.next]);
    }
}

/// A migrate run whose ledger already holds every migration on disk writes
/// nothing and succeeds: it checks the table, reads the ledger, scans the
/// directory, and is done with nothing applied.
pub proof fn lemma_migrate_idempotent(
    states: Seq<RunView>,
    ledger: Vec<String>,
    dirs: Vec<String>,
)
    requires
        forall|n: Seq<char>| #[trigger] names(dirs@).contains(n) ==> names(ledger@).contains(n),
        states[0] == initial(RunMode::Migrate),
        is_run(
            states,
            seq![
                Event::LedgerTableChecked(true),
                Event::LedgerRead(ledger),
                Event::DirectoryScanned(dirs),
            ],
        ),
    ensures
        states[3].phase == Phase::Finished,
        states[3].error is None,
        states[3].completed().len() == 0,
        forall|j: int, a: Action| 0 <= j < 4 && #[trigger] requests(states[j], a) ==> !is_write(a),
{
    let events = seq![
        Event::LedgerTableChecked(true),
        Event::LedgerRead(ledger),
        Event::DirectoryScanned(dirs),
    ];
    assert(advances(states[0], events[0], states[1]));
    assert(advances(states[1], events[1], states[2]));
    assert(advances(states[2], events[2], states[3]));
    let plan = plan_of(RunMode::Migrate, names(dirs@), names(ledger@));
    crate::order::lemma_select_members(names(dirs@), names(ledger@), false);
    if plan.len() > 0 {
        assert(plan.contains(plan[0]));
    }
}

/// After a migrate run has applied everything outstanding, nothing is
/// outstanding any more: disk listing `on_disk` against the ledger extended by
/// what the run recorded gives an empty list.
pub proof fn lemma_nothing_left_after_migrate(on_disk: Seq<Seq<char>>, ledger: Seq<Seq<char>>)
    ensures
        crate::order::outstanding(on_disk, ledger + crate::order::outstanding(on_disk, ledger)).len()
            == 0,
{
    let first = crate::order::outstanding(on_disk, ledger);
    let after = ledger + first;
    crate::order::lemma_outstanding_is_difference(on_disk, ledger);
    crate::order::lemma_outstanding_is_difference(on_disk, after);
    let second = crate::order::outstanding(on_disk, after);
    if second.len() > 0 {
        let n = second[0];
        assert(second.contains(n));
        if ledger.contains(n) {
            let k = choose|k: int| 0 <= k < ledger.len() && ledger[k] == n;
            assert(after[k] == n);
        } else {
            assert(first.contains(n));
            let k = choose|k: int| 0 <= k < first.len() && first[k] == n;
            assert(after[ledger.len() + k] == n);
        }
    }
}

/// A rollback against a database without a ledger table succeeds at once,
/// having reverted nothing and written nothing.
pub proof fn lemma_rollback_without_ledger(states: Seq<RunView>)
    requires
        states[0] == initial(RunMode::Rollback),
        is_run(states, seq![Event::LedgerTableChecked(false)]),
    ensures
        states[1].phase == Phase::Finished,
        states[1].error is None,
        states[1].completed().len() == 0,
        forall|j: int, a: Action| 0 <= j < 2 && #[trigger] requests(states[j], a) ==> !is_write(a),
{
    assert(advances(states[0], seq![Event::LedgerTableChecked(false)][0], states[1]));
}

/// The run has a migration in hand.
pub open spec fn working(s: RunView) -> bool {
    s.phase == Phase::ReadScript || s.phase == Phase::ExecuteScript || s.phase
        == Phase::UpdateLedger
}

/// The migration a ledger write is about.
pub open spec fn written_name(a: Action) -> Seq<char> {
    match a {
        Action::RecordMigration(n) => n@,
        Action::RemoveMigration(n) => n@,
        _ => Seq::empty(),
    }
}

/// A run keeps its mode.
pub proof fn lemma_mode_kept(states: Seq<RunView>, events: Seq<Event>, j: int)
    requires
        is_run(states, events),
        0 <= j < states.len(),
    ensures
        states[j].mode == states[0].mode,
    decreases j,
{
    if j > 0 {
        lemma_mode_kept(states, events, j - 1);
        assert(advances(states[j - 1], events[j - 1], states[j]));
    }
}

/// While a run has a migration in hand, its plan is what one directory scan
/// of the run found, checked against the run's ledger snapshot.
pub proof fn lemma_plan_from_scan(states: Seq<RunView>, events: Seq<Event>, mode: RunMode, j: int)
    requires
        is_run(states, events),
        states[0] == initial(mode),
        0 <= j < states.len(),
        working(states[j]),
    ensures
        exists|k: int|
            0 <= k < j && (#[trigger] events[k] matches Event::DirectoryScanned(dirs) && states[j].plan
                == plan_of(mode, names(dirs@), states[j].ledger)),
    decreases j,
{
    lemma_mode_kept(states, events, j);
    if j > 0 {
        let s = states[j - 1];
        assert(advances(s, events[j - 1], states[j]));
        lemma_mode_kept(states, events, j - 1);
        if working(s) {
            lemma_plan_from_scan(states, events, mode, j - 1);
            let k = choose|k: int|
                0 <= k < j - 1 && (#[trigger] events[k] matches Event::DirectoryScanned(dirs)
                    && s.plan == plan_of(mode, names(dirs@), s.ledger));
            assert(events[k] matches Event::DirectoryScanned(dirs) && states[j].plan == plan_of(
                mode,
                names(dirs@),
                states[j].ledger,
            ));
        } else {
            assert(s.phase == Phase::ScanDirectory);
            assert(events[j - 1] is DirectoryScanned);
        }
    }
}

/// The ledger is written only as the run's snapshot allows: a migrate run
/// records only a migration that its directory scan found and its ledger
/// snapshot lacked, and a rollback removes only one that the scan found and
/// the snapshot held.
pub proof fn lemma_writes_follow_snapshot(
    states: Seq<RunView>,
    events: Seq<Event>,
    mode: RunMode,
    j: int,
    a: Action,
)
    requires
        is_run(states, events),
        states[0] == initial(mode),
        0 <= j < states.len(),
        requests(states[j], a),
        a is RecordMigration || a is RemoveMigration,
    ensures
        a is RecordMigration <==> mode == RunMode::Migrate,
        exists|k: int|
            0 <= k < j && (#[trigger] events[k] matches Event::DirectoryScanned(dirs) && names(
                dirs@,
            ).contains(written_name(a))),
        states[j].ledger.contains(written_name(a)) == (mode == RunMode::Rollback),
{
    lemma_mode_kept(states, events, j);
    lemma_run_wf(states, events, j);
    lemma_plan_from_scan(states, events, mode, j);
    let s = states[j];
    let k = choose|k: int|
        0 <= k < j && (#[trigger] events[k] matches Event::DirectoryScanned(dirs) && s.plan
            == plan_of(mode, names(dirs@), s.ledger));
    if let Event::DirectoryScanned(dirs) = events[k] {
        crate::order::lemma_select_members(names(dirs@), s.ledger, mode == RunMode::Rollback);
        assert(s.plan.contains(s.plan[s.next]));
        assert(written_name(a) == s.plan[s.next]);
    }
}

/// A run that ends well has done its whole plan: a migrate run has applied
/// every outstanding migration, a rollback has reverted every migration on
/// disk that the ledger held, each in ascending order.
pub proof fn lemma_success_completes_plan(
    states: Seq<RunView>,
    events: Seq<Event>,
    mode: RunMode,
    k: int,
    j: int,
)
    requires
        is_run(states, events),
        states[0] == initial(mode),
        0 <= k < j < states.len(),
        states[k].phase == Phase::ScanDirectory,
        events[k] is DirectoryScanned,
        states[j].phase == Phase::Finished,
        states[j].error is None,
    ensures
        states[j].completed() == plan_of(
            mode,
            names(events[k]->DirectoryScanned_0@),
            states[k].ledger,
        ),
{
    lemma_mode_kept(states, events, k);
    assert(advances(states[k], events[k], states[k + 1]));
    lemma_plan_kept(states, events, k + 1, j);
    lemma_run_wf(states, events, j);
    assert(states[j].plan.take(states[j].plan.len() as int) =~= states[j].plan);
}

} // verus!
