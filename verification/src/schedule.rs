//! Schedules of a server: their triggers, the conditions that gate a run,
//! and the run of their actions.

use vstd::prelude::*;
use std::collections::HashMap;
use vstd::std_specs::cmp::PartialEqSpecImpl;

verus! {

broadcast use vstd::std_specs::hash::group_hash_axioms;

/// The power state of a server.
#[derive(Clone, Copy, Debug, PartialEq, Eq, Structural)]
pub enum ServerState {
    Offline,
    Starting,
    Stopping,
    Running,
}

/// A power action that can be sent to a server.
#[derive(Clone, Copy, Debug, PartialEq, Eq, Structural)]
pub enum ServerPowerAction {
    Start,
    Stop,
    Restart,
    Kill,
}

/// What starts a schedule. A cron trigger holds the text of its cron
/// expression, by which two cron triggers are told apart.
#[derive(Clone, Debug)]
pub enum ScheduleTrigger {
    Cron { schedule: String },
    PowerAction { action: ServerPowerAction },
    ServerState { state: ServerState },
    Crash,
}

/// The triggers of `triggers` that are not cron triggers, in order.
pub open spec fn event_triggers(triggers: Seq<ScheduleTrigger>) -> Seq<ScheduleTrigger>
    decreases triggers.len(),
{
    if triggers.len() == 0 {
        triggers
    } else if triggers.last() is Cron {
        event_triggers(triggers.drop_last())
    } else {
        event_triggers(triggers.drop_last()).push(triggers.last())
    }
}

/// The expressions of the cron triggers of `triggers`, in order.
pub open spec fn cron_expressions(triggers: Seq<ScheduleTrigger>) -> Seq<Seq<char>>
    decreases triggers.len(),
{
    if triggers.len() == 0 {
        Seq::empty()
    } else {
        match triggers.last() {
            ScheduleTrigger::Cron { schedule } => cron_expressions(triggers.drop_last()).push(
                schedule@,
            ),
            _ => cron_expressions(triggers.drop_last()),
        }
    }
}

/// Splits the triggers of a schedule into those that wait for an event,
/// which the schedule keeps, and the cron expressions, each of which gets a
/// timer of its own.
pub fn split_triggers(triggers: Vec<ScheduleTrigger>) -> (r: (Vec<ScheduleTrigger>, Vec<String>))
    ensures
        r.0@ == event_triggers(triggers@),
        r.1@.map_values(|s: String| s@) == cron_expressions(triggers@),
{
    let ghost all = triggers@;
    let n = triggers.len();
    let mut rest = triggers;
    let mut events: Vec<ScheduleTrigger> = Vec::new();
    let mut crons: Vec<String> = Vec::new();
    let mut i: usize = 0;
    assert(all.skip(0) =~= all);
    while rest.len() > 0
        invariant
            i <= all.len(),
            n == all.len(),
            rest@ == all.skip(i as int),
            events@ == event_triggers(all.take(i as int)),
            crons@.map_values(|s: String| s@) == cron_expressions(all.take(i as int)),
        decreases rest@.len(),
    {
        let t = rest.remove(0);
        let ghost next = all.take(i + 1);
        assert(next.drop_last() =~= all.take(i as int));
        assert(next.last() == t);
        assert(rest@ =~= all.skip(i + 1));
        match t {
            ScheduleTrigger::Cron { schedule } => {
                let ghost before = crons@;
                crons.push(schedule);
                assert(crons@.map_values(|s: String| s@) =~= before.map_values(|s: String| s@).push(
                    crons@.last()@,
                ));
            },
            other => {
                events.push(other);
            },
        }
        i += 1;
    }
    assert(all.take(i as int) =~= all);
    (events, crons)
}

/// What the timer of a cron trigger does after it looked up the next time
/// the expression fires.
#[derive(Clone, Copy, Debug, PartialEq, Eq, Structural)]
pub enum CronWait {
    /// The expression never fires again: the timer ends.
    Stop,
    /// The next time is not in the future: look again after a second.
    Retry { seconds: u64 },
    /// Sleep this many seconds, then trigger the schedule.
    Fire { seconds: u64 },
}

/// The timer's decision, from the next firing time and the current time,
/// both in seconds since the epoch.
pub open spec fn cron_wait_spec(next_fire: Option<i64>, now: i64) -> CronWait {
    match next_fire {
        None => CronWait::Stop,
        Some(target) => if target - now <= 0 {
            CronWait::Retry { seconds: 1 }
        } else {
            CronWait::Fire { seconds: (target - now) as u64 }
        },
    }
}

/// Decides how long the timer of a cron trigger waits.
pub fn cron_wait(next_fire: Option<i64>, now: i64) -> (r: CronWait)
    requires
        next_fire matches Some(target) ==> i64::MIN <= target - now <= i64::MAX,
    ensures
        r == cron_wait_spec(next_fire, now),
{
    match next_fire {
        None => CronWait::Stop,
        Some(target) => {
            let diff = target - now;
            if diff <= 0 {
                CronWait::Retry { seconds: 1 }
            } else {
                CronWait::Fire { seconds: diff as u64 }
            }
        },
    }
}

/// Splitting the triggers keeps each trigger exactly once: on one side or
/// the other.
pub proof fn lemma_split_keeps_every_trigger(triggers: Seq<ScheduleTrigger>)
    ensures
        event_triggers(triggers).len() + cron_expressions(triggers).len() == triggers.len(),
    decreases triggers.len(),
{
    if triggers.len() > 0 {
        lemma_split_keeps_every_trigger(triggers.drop_last());
    }
}

/// When two triggers are the same trigger: cron triggers with the same
/// expression text, power-action and state triggers with the same value,
/// and two crash triggers.
pub open spec fn same_trigger(a: ScheduleTrigger, b: ScheduleTrigger) -> bool {
    match (a, b) {
        (ScheduleTrigger::Cron { schedule: s1 }, ScheduleTrigger::Cron { schedule: s2 }) => s1@
            == s2@,
        (
            ScheduleTrigger::PowerAction { action: a1 },
            ScheduleTrigger::PowerAction { action: a2 },
        ) => a1 == a2,
        (
            ScheduleTrigger::ServerState { state: s1 },
            ScheduleTrigger::ServerState { state: s2 },
        ) => s1 == s2,
        (ScheduleTrigger::Crash, ScheduleTrigger::Crash) => true,
        _ => false,
    }
}

/// Trigger equality is reflexive and symmetric.
pub proof fn lemma_same_trigger_equivalence(a: ScheduleTrigger, b: ScheduleTrigger)
    ensures
        same_trigger(a, a),
        same_trigger(a, b) == same_trigger(b, a),
{
}

impl PartialEq for ScheduleTrigger {
    fn eq(&self, other: &Self) -> (r: bool) {
        match (self, other) {
            (ScheduleTrigger::Cron { schedule: s1 }, ScheduleTrigger::Cron { schedule: s2 }) => {
                s1.eq(s2)
            },
            (
                ScheduleTrigger::PowerAction { action: a1 },
                ScheduleTrigger::PowerAction { action: a2 },
            ) => *a1 == *a2,
            (
                ScheduleTrigger::ServerState { state: s1 },
                ScheduleTrigger::ServerState { state: s2 },
            ) => *s1 == *s2,
            (ScheduleTrigger::Crash, ScheduleTrigger::Crash) => true,
            _ => false,
        }
    }
}

impl PartialEqSpecImpl for ScheduleTrigger {
    open spec fn obeys_eq_spec() -> bool {
        true
    }

    open spec fn eq_spec(&self, other: &ScheduleTrigger) -> bool {
        same_trigger(*self, *other)
    }
}


/// How a measured value is compared with the value in a condition.
#[derive(Clone, Copy, Debug)]
pub enum ScheduleComparator {
    SmallerThan,
    SmallerThanOrEquals,
    Equal,
    GreaterThan,
    GreaterThanOrEquals,
}

impl ScheduleComparator {
    /// Whether `actual` stands in this relation to `value`.
    pub open spec fn relates(self, actual: int, value: int) -> bool {
        match self {
            ScheduleComparator::SmallerThan => actual < value,
            ScheduleComparator::SmallerThanOrEquals => actual <= value,
            ScheduleComparator::Equal => actual == value,
            ScheduleComparator::GreaterThan => actual > value,
            ScheduleComparator::GreaterThanOrEquals => actual >= value,
        }
    }

    /// Compares `actual` with `value`.
    pub fn compare(&self, actual: u64, value: u64) -> (r: bool)
        ensures
            r == self.relates(actual as int, value as int),
    {
        match self {
            ScheduleComparator::SmallerThan => actual < value,
            ScheduleComparator::SmallerThanOrEquals => actual <= value,
            ScheduleComparator::Equal => actual == value,
            ScheduleComparator::GreaterThan => actual > value,
            ScheduleComparator::GreaterThanOrEquals => actual >= value,
        }
    }

    /// Compares two CPU readings; a reading that is not a number stands in no
    /// relation to anything, as with floating-point comparison.
    pub fn compare_cpu(&self, actual: CpuValue, value: CpuValue) -> (r: bool)
        ensures
            r == cpu_relates(*self, actual, value),
    {
        match (actual, value) {
            (CpuValue::Number { key: a }, CpuValue::Number { key: b }) => self.compare(a, b),
            _ => false,
        }
    }
}

/// A CPU reading (a percentage that the daemon measures as a float), held by
/// an integer key that orders as the reading does: equal readings have
/// equal keys and a smaller reading a smaller key. A reading that is not a
/// number has no key.
#[derive(Clone, Copy, Debug, PartialEq, Eq, Structural)]
pub enum CpuValue {
    Number { key: u64 },
    NotANumber,
}

/// Whether the CPU reading `actual` stands in relation `comparator` to `value`.
pub open spec fn cpu_relates(comparator: ScheduleComparator, actual: CpuValue, value: CpuValue) -> bool {
    match (actual, value) {
        (CpuValue::Number { key: a }, CpuValue::Number { key: b }) => comparator.relates(
            a as int,
            b as int,
        ),
        _ => false,
    }
}

/// Whether one of `files` is `file`.
pub open spec fn lists_file(files: Seq<String>, file: Seq<char>) -> bool {
    exists|i: int| 0 <= i < files.len() && #[trigger] files[i]@ == file
}

/// A condition that must hold for a schedule to run its actions.
#[derive(Debug)]
#[allow(inconsistent_fields)]
pub enum ScheduleCondition {
    NoCondition,
    And { conditions: Vec<ScheduleCondition> },
    Or { conditions: Vec<ScheduleCondition> },
    ServerState { state: ServerState },
    Uptime { comparator: ScheduleComparator, value: u64 },
    CpuUsage { comparator: ScheduleComparator, value: CpuValue },
    MemoryUsage { comparator: ScheduleComparator, value: u64 },
    DiskUsage { comparator: ScheduleComparator, value: u64 },
    FileExists { file: String },
}

/// What is known of a server when a condition is evaluated: its state, its
/// resource usage, and which of the files that the condition names exist.
pub struct ServerFacts {
    pub state: ServerState,
    pub uptime: u64,
    pub cpu_absolute: CpuValue,
    pub memory_bytes: u64,
    pub disk_bytes: u64,
    pub existing_files: Vec<String>,
}

impl ServerFacts {
    /// Whether `file` is one of the files known to exist.
    pub open spec fn file_exists(self, file: Seq<char>) -> bool {
        exists|i: int| 0 <= i < self.existing_files@.len() && #[trigger] self.existing_files@[i]@ == file
    }

    /// Tells whether `file` is one of the files known to exist.
    pub fn has_file(&self, file: &String) -> (r: bool)
        ensures
            r == self.file_exists(file@),
    {
        let mut i: usize = 0;
        while i < self.existing_files.len()
            invariant
                i <= self.existing_files@.len(),
                forall|j: int| 0 <= j < i ==> #[trigger] self.existing_files@[j]@ != file@,
            decreases self.existing_files@.len() - i,
        {
            if self.existing_files[i].eq(file) {
                return true;
            }
            i += 1;
        }
        false
    }
}

impl ScheduleCondition {
    /// Whether the condition holds of a server described by `facts`: `And`
    /// when all of its conditions hold, `Or` when one of them does.
    pub open spec fn holds(self, facts: ServerFacts) -> bool
        decreases self,
    {
        match self {
            ScheduleCondition::NoCondition => true,
            ScheduleCondition::And { conditions } => forall|i: int|
                0 <= i < conditions@.len() ==> (#[trigger] conditions@[i]).holds(facts),
            ScheduleCondition::Or { conditions } => exists|i: int|
                0 <= i < conditions@.len() && (#[trigger] conditions@[i]).holds(facts),
            ScheduleCondition::ServerState { state } => facts.state == state,
            ScheduleCondition::Uptime { comparator, value } => comparator.relates(
                facts.uptime as int,
                value as int,
            ),
            ScheduleCondition::CpuUsage { comparator, value } => cpu_relates(
                comparator,
                facts.cpu_absolute,
                value,
            ),
            ScheduleCondition::MemoryUsage { comparator, value } => comparator.relates(
                facts.memory_bytes as int,
                value as int,
            ),
            ScheduleCondition::DiskUsage { comparator, value } => comparator.relates(
                facts.disk_bytes as int,
                value as int,
            ),
            ScheduleCondition::FileExists { file } => facts.file_exists(file@),
        }
    }

    /// Whether the condition, or one nested in it, asks whether `file` exists.
    pub open spec fn mentions_file(self, file: Seq<char>) -> bool
        decreases self,
    {
        match self {
            ScheduleCondition::And { conditions } => exists|i: int|
                0 <= i < conditions@.len() && (#[trigger] conditions@[i]).mentions_file(file),
            ScheduleCondition::Or { conditions } => exists|i: int|
                0 <= i < conditions@.len() && (#[trigger] conditions@[i]).mentions_file(file),
            ScheduleCondition::FileExists { file: f } => f@ == file,
            _ => false,
        }
    }

    /// Appends to `files` every file whose existence the condition asks about.
    #[verifier::loop_isolation(false)]
    pub fn collect_files(&self, files: &mut Vec<String>)
        ensures
            forall|f: Seq<char>| #[trigger] lists_file(final(files)@, f) <==> (lists_file(old(files)@, f)
                || self.mentions_file(f)),
        decreases self,
    {
        match self {
            ScheduleCondition::And { conditions } | ScheduleCondition::Or { conditions } => {
                let ghost start = files@;
                let mut i: usize = 0;
                while i < conditions.len()
                    invariant
                        i <= conditions@.len(),
                        forall|f: Seq<char>| #[trigger] lists_file(files@, f) <==> (lists_file(start, f)
                            || exists|j: int| 0 <= j < i && (#[trigger] conditions@[j]).mentions_file(f)),
                    decreases conditions@.len() - i,
                {
                    proof {
                        assert(decreases_to!(*self => *conditions));
                        assert(decreases_to!(*conditions => conditions@));
                        assert(decreases_to!(conditions@ => conditions@[i as int]));
                    }
                    let ghost before = files@;
                    conditions[i].collect_files(files);
                    assert forall|f: Seq<char>| #[trigger] lists_file(files@, f) <==> (lists_file(start, f)
                        || exists|j: int| 0 <= j < i + 1 && (#[trigger] conditions@[j]).mentions_file(f)) by {
                        if conditions@[i as int].mentions_file(f) {
                            assert(exists|j: int| 0 <= j < i + 1 && (#[trigger] conditions@[j]).mentions_file(f));
                        }
                        if exists|j: int| 0 <= j < i + 1 && (#[trigger] conditions@[j]).mentions_file(f) {
                            let j = choose|j: int| 0 <= j < i + 1 && (#[trigger] conditions@[j]).mentions_file(f);
                            if j < i {
                                assert(lists_file(before, f));
                            }
                        }
                    }
                    i += 1;
                }
            },
            ScheduleCondition::FileExists { file } => {
                let ghost before = files@;
                files.push(file.clone());
                assert forall|f: Seq<char>| #[trigger] lists_file(files@, f) <==> (lists_file(before, f)
                    || self.mentions_file(f)) by {
                    if lists_file(files@, f) {
                        let j = choose|j: int| 0 <= j < files@.len() && #[trigger] files@[j]@ == f;
                        if j < before.len() {
                            assert(before[j] == files@[j]);
                        }
                    }
                    if lists_file(before, f) {
                        let j = choose|j: int| 0 <= j < before.len() && #[trigger] before[j]@ == f;
                        assert(files@[j] == before[j]);
                    }
                    if self.mentions_file(f) {
                        assert(files@[before.len() as int]@ == f);
                    }
                }
            },
            _ => {},
        }
    }

    /// Every file whose existence the condition asks about.
    pub fn referenced_files(&self) -> (r: Vec<String>)
        ensures
            forall|f: Seq<char>| #[trigger] lists_file(r@, f) <==> self.mentions_file(f),
    {
        let mut files: Vec<String> = Vec::new();
        self.collect_files(&mut files);
        files
    }

    /// Evaluates the condition against `facts`. `And` stops at the first
    /// condition that fails and `Or` at the first that holds.
    #[verifier::loop_isolation(false)]
    pub fn evaluate(&self, facts: &ServerFacts) -> (r: bool)
        ensures
            r == self.holds(*facts),
        decreases self,
    {
        match self {
            ScheduleCondition::NoCondition => true,
            ScheduleCondition::And { conditions } => {
                let mut i: usize = 0;
                while i < conditions.len()
                    invariant
                        i <= conditions@.len(),
                        forall|j: int| 0 <= j < i ==> (#[trigger] conditions@[j]).holds(*facts),
                    decreases conditions@.len() - i,
                {
                    proof {
                        assert(decreases_to!(*self => *conditions));
                        assert(decreases_to!(*conditions => conditions@));
                        assert(decreases_to!(conditions@ => conditions@[i as int]));
                    }
                    if !conditions[i].evaluate(facts) {
                        return false;
                    }
                    i += 1;
                }
                true
            },
            ScheduleCondition::Or { conditions } => {
                let mut i: usize = 0;
                while i < conditions.len()
                    invariant
                        i <= conditions@.len(),
                        forall|j: int| 0 <= j < i ==> !(#[trigger] conditions@[j]).holds(*facts),
                    decreases conditions@.len() - i,
                {
                    proof {
                        assert(decreases_to!(*self => *conditions));
                        assert(decreases_to!(*conditions => conditions@));
                        assert(decreases_to!(conditions@ => conditions@[i as int]));
                    }
                    if conditions[i].evaluate(facts) {
                        return true;
                    }
                    i += 1;
                }
                false
            },
            ScheduleCondition::ServerState { state } => facts.state == *state,
            ScheduleCondition::Uptime { comparator, value } => comparator.compare(
                facts.uptime,
                *value,
            ),
            ScheduleCondition::CpuUsage { comparator, value } => comparator.compare_cpu(
                facts.cpu_absolute,
                *value,
            ),
            ScheduleCondition::MemoryUsage { comparator, value } => comparator.compare(
                facts.memory_bytes,
                *value,
            ),
            ScheduleCondition::DiskUsage { comparator, value } => comparator.compare(
                facts.disk_bytes,
                *value,
            ),
            ScheduleCondition::FileExists { file } => facts.has_file(file),
        }
    }
}


/// Whether a schedule that was triggered runs its actions: always when the
/// trigger skips the condition, otherwise only when the condition holds.
pub fn run_requested(skip_condition: bool, condition_met: bool) -> (r: bool)
    ensures
        r == (skip_condition || condition_met),
{
    skip_condition || condition_met
}

/// One action of a schedule, as its run sees it: the action's id and whether
/// a failure of the action lets the run go on.
#[derive(Clone, Copy, Debug, PartialEq, Eq, Structural)]
pub struct ActionStep {
    pub uuid: u128,
    pub ignore_failure: bool,
}

/// How the execution of an action ended.
#[derive(Debug)]
pub enum ActionOutcome {
    Succeeded,
    Failed { error: String },
}

/// Whether `outcome` of `step` ends the run: a failure of an action that
/// does not ignore failures.
pub open spec fn aborts(step: ActionStep, outcome: ActionOutcome) -> bool {
    outcome is Failed && !step.ignore_failure
}

/// The errors that a run collected after `outcomes` of the first steps: the
/// error of each failed action under the action's id, a later failure of the
/// same id replacing an earlier one.
pub open spec fn errors_of(steps: Seq<ActionStep>, outcomes: Seq<ActionOutcome>) -> Map<u128, String>
    decreases outcomes.len(),
{
    if outcomes.len() == 0 {
        Map::empty()
    } else {
        let earlier = errors_of(steps, outcomes.drop_last());
        match outcomes.last() {
            ActionOutcome::Failed { error } => earlier.insert(steps[outcomes.len() - 1].uuid, error),
            ActionOutcome::Succeeded => earlier,
        }
    }
}

/// A history that a run can reach: no more outcomes than steps, and no
/// step but possibly the last one ended the run.
pub open spec fn valid_history(steps: Seq<ActionStep>, outcomes: Seq<ActionOutcome>) -> bool {
    &&& outcomes.len() <= steps.len()
    &&& forall|k: int| 0 <= k < outcomes.len() - 1 ==> !aborts(steps[k], #[trigger] outcomes[k])
}

/// Whether the last recorded outcome ended the run.
pub open spec fn stopped(steps: Seq<ActionStep>, outcomes: Seq<ActionOutcome>) -> bool {
    outcomes.len() > 0 && aborts(steps[outcomes.len() - 1], outcomes.last())
}

/// Whether the run has nothing left to execute.
pub open spec fn run_done(steps: Seq<ActionStep>, outcomes: Seq<ActionOutcome>) -> bool {
    outcomes.len() == steps.len() || stopped(steps, outcomes)
}

/// What a schedule reports when a run is over.
pub struct ScheduleCompletion {
    pub uuid: u128,
    pub successful: bool,
    pub errors: HashMap<u128, String>,
}

/// What the executor of a schedule does next.
#[derive(Clone, Copy, Debug, PartialEq, Eq, Structural)]
pub enum RunAction {
    /// Execute the action at `index`, whose id is `uuid`.
    Execute { index: usize, uuid: u128 },
    /// Report the end of the run.
    Finish,
}

/// What a run does next after `outcomes` of `steps`: finish once it is
/// over, else execute the next action in order.
pub open spec fn run_next(steps: Seq<ActionStep>, outcomes: Seq<ActionOutcome>) -> RunAction {
    if run_done(steps, outcomes) {
        RunAction::Finish
    } else {
        RunAction::Execute { index: outcomes.len() as usize, uuid: steps[outcomes.len() as int].uuid }
    }
}

/// The progress shown while a schedule runs: whether it runs and which
/// action it is executing.
#[derive(Clone, Copy, Debug, PartialEq, Eq, Structural)]
pub struct ScheduleStatus {
    pub running: bool,
    pub step: Option<u128>,
}

/// One run of the actions of a schedule: the actions execute in order until
/// all have executed or one fails that does not ignore failures.
pub struct ScheduleRun {
    schedule: u128,
    steps: Vec<ActionStep>,
    executed: usize,
    successful: bool,
    errors: HashMap<u128, String>,
    history: Ghost<Seq<ActionOutcome>>,
}

impl ScheduleRun {
    /// The schedule the run belongs to.
    pub closed spec fn schedule(&self) -> u128 {
        self.schedule
    }

    /// The actions of the run, in order.
    pub closed spec fn steps(&self) -> Seq<ActionStep> {
        self.steps@
    }

    /// The outcomes recorded so far, one for each executed action.
    pub closed spec fn history(&self) -> Seq<ActionOutcome> {
        self.history@
    }

    /// The internal state agrees with the history.
    pub closed spec fn wf(&self) -> bool {
        &&& valid_history(self.steps@, self.history@)
        &&& self.executed == self.history@.len()
        &&& self.successful == !stopped(self.steps@, self.history@)
        &&& self.errors@ == errors_of(self.steps@, self.history@)
    }

    /// A run of `steps` for `schedule` that has executed nothing yet.
    pub fn new(schedule: u128, steps: Vec<ActionStep>) -> (r: ScheduleRun)
        ensures
            r.wf(),
            r.schedule() == schedule,
            r.steps() == steps@,
            r.history() == Seq::<ActionOutcome>::empty(),
    {
        ScheduleRun {
            schedule,
            steps,
            executed: 0,
            successful: true,
            errors: HashMap::new(),
            history: Ghost(Seq::empty()),
        }
    }

    /// What comes next: the next action in order, or the end of the run once
    /// every action has executed or one has failed that does not ignore
    /// failures.
    pub fn next_action(&self) -> (r: RunAction)
        requires
            self.wf(),
        ensures
            r == run_next(self.steps(), self.history()),
    {
        if !self.successful || self.executed >= self.steps.len() {
            RunAction::Finish
        } else {
            RunAction::Execute { index: self.executed, uuid: self.steps[self.executed].uuid }
        }
    }

    /// The status shown after `action` was decided.
    pub open spec fn status_spec(action: RunAction) -> ScheduleStatus {
        match action {
            RunAction::Execute { index, uuid } => ScheduleStatus { running: true, step: Some(uuid) },
            RunAction::Finish => ScheduleStatus { running: false, step: None },
        }
    }

    /// The status to show after `action` was decided: running a step while
    /// an action executes, idle once the run is over.
    pub fn status(action: RunAction) -> (r: ScheduleStatus)
        ensures
            r == Self::status_spec(action),
    {
        match action {
            RunAction::Execute { index, uuid } => ScheduleStatus { running: true, step: Some(uuid) },
            RunAction::Finish => ScheduleStatus { running: false, step: None },
        }
    }

    /// Records how the action that executed last ended.
    pub fn record(&mut self, outcome: ActionOutcome)
        requires
            old(self).wf(),
            !run_done(old(self).steps(), old(self).history()),
        ensures
            final(self).wf(),
            final(self).schedule() == old(self).schedule(),
            final(self).steps() == old(self).steps(),
            final(self).history() == old(self).history().push(outcome),
    {
        let ghost old_history = self.history@;
        assert(self.executed < self.steps.len());
        let step = self.steps[self.executed];
        match &outcome {
            ActionOutcome::Failed { error } => {
                self.errors.insert(step.uuid, error.clone());
                if !step.ignore_failure {
                    self.successful = false;
                }
            },
            ActionOutcome::Succeeded => {},
        }
        self.executed = self.executed + 1;
        self.history = Ghost(old_history.push(outcome));
        proof {
            let h = self.history@;
            assert(h.drop_last() =~= old_history);
            assert forall|k: int| 0 <= k < h.len() - 1 implies !aborts(self.steps@[k], #[trigger] h[k]) by {
                assert(h[k] == old_history[k]);
            }
        }
    }

    /// The report of a run that is over: whether no action ended it, and
    /// the errors of the actions that failed.
    pub fn complete(self) -> (r: ScheduleCompletion)
        requires
            self.wf(),
            run_done(self.steps(), self.history()),
        ensures
            r.uuid == self.schedule(),
            r.successful == !stopped(self.steps(), self.history()),
            r.errors@ == errors_of(self.steps(), self.history()),
    {
        ScheduleCompletion { uuid: self.schedule, successful: self.successful, errors: self.errors }
    }
}


/// Which wake-up a manual trigger sends to the executor of a schedule.
#[derive(Clone, Copy, Debug, PartialEq, Eq, Structural)]
pub enum Wakeup {
    /// Run the actions without looking at the condition.
    SkipCondition,
    /// Run the actions if the condition holds.
    CheckCondition,
}

/// A schedule of a server: the triggers that wait for an event (its cron
/// triggers run as timers of their own), the condition and the actions of a
/// run, the progress of the current run and the report of the last one.
pub struct Schedule {
    pub uuid: u128,
    pub triggers: Vec<ScheduleTrigger>,
    pub condition: ScheduleCondition,
    pub actions: Vec<ActionStep>,
    pub status: ScheduleStatus,
    pub completion_status: Option<ScheduleCompletion>,
}

impl Schedule {
    /// A schedule with the given configuration, idle and with no run
    /// reported yet; also returns the cron expressions that need timers.
    pub fn new(
        uuid: u128,
        triggers: Vec<ScheduleTrigger>,
        condition: ScheduleCondition,
        actions: Vec<ActionStep>,
    ) -> (r: (Schedule, Vec<String>))
        ensures
            r.0.uuid == uuid,
            r.0.triggers@ == event_triggers(triggers@),
            r.1@.map_values(|s: String| s@) == cron_expressions(triggers@),
            r.0.condition == condition,
            r.0.actions@ == actions@,
            r.0.status == (ScheduleStatus { running: false, step: None }),
            r.0.completion_status is None,
    {
        let (events, crons) = split_triggers(triggers);
        (
            Schedule {
                uuid,
                triggers: events,
                condition,
                actions,
                status: ScheduleStatus { running: false, step: None },
                completion_status: None,
            },
            crons,
        )
    }

    /// The wake-up that a manual trigger sends.
    pub fn trigger(skip_condition: bool) -> (r: Wakeup)
        ensures
            r == (if skip_condition {
                Wakeup::SkipCondition
            } else {
                Wakeup::CheckCondition
            }),
    {
        if skip_condition {
            Wakeup::SkipCondition
        } else {
            Wakeup::CheckCondition
        }
    }

    /// Takes the condition and actions of a new configuration; runs that
    /// start later use them.
    pub fn update(&mut self, condition: ScheduleCondition, actions: Vec<ActionStep>)
        ensures
            final(self).condition == condition,
            final(self).actions@ == actions@,
            final(self).uuid == old(self).uuid,
            final(self).triggers@ == old(self).triggers@,
            final(self).status == old(self).status,
            final(self).completion_status == old(self).completion_status,
    {
        self.condition = condition;
        self.actions = actions;
    }

    /// Replaces the triggers; returns the cron expressions that need new
    /// timers (the old timers are stopped by the caller).
    pub fn recreate_triggers(&mut self, triggers: Vec<ScheduleTrigger>) -> (r: Vec<String>)
        ensures
            final(self).triggers@ == event_triggers(triggers@),
            r@.map_values(|s: String| s@) == cron_expressions(triggers@),
            final(self).uuid == old(self).uuid,
            final(self).condition == old(self).condition,
            final(self).actions@ == old(self).actions@,
            final(self).status == old(self).status,
            final(self).completion_status == old(self).completion_status,
    {
        let (events, crons) = split_triggers(triggers);
        self.triggers = events;
        crons
    }

    /// Shows the progress that `action` stands for.
    pub fn show_progress(&mut self, action: RunAction)
        ensures
            final(self).status == ScheduleRun::status_spec(action),
            final(self).uuid == old(self).uuid,
            final(self).triggers@ == old(self).triggers@,
            final(self).condition == old(self).condition,
            final(self).actions@ == old(self).actions@,
            final(self).completion_status == old(self).completion_status,
    {
        self.status = ScheduleRun::status(action);
    }

    /// Keeps the report of the run that just ended.
    pub fn complete_run(&mut self, completion: ScheduleCompletion)
        ensures
            final(self).completion_status == Some(completion),
            final(self).uuid == old(self).uuid,
            final(self).triggers@ == old(self).triggers@,
            final(self).condition == old(self).condition,
            final(self).actions@ == old(self).actions@,
            final(self).status == old(self).status,
    {
        self.completion_status = Some(completion);
    }
}

/// Each comparator is the integer ordering its name says, for every pair
/// of readings; `>=` holds exactly when `>` or `==` does, and `<=` exactly
/// when `<` or `==` does.
pub proof fn lemma_comparator_meaning(actual: u64, value: u64)
    ensures
        ScheduleComparator::SmallerThan.relates(actual as int, value as int) <==> actual < value,
        ScheduleComparator::SmallerThanOrEquals.relates(actual as int, value as int) <==> actual <= value,
        ScheduleComparator::Equal.relates(actual as int, value as int) <==> actual == value,
        ScheduleComparator::GreaterThan.relates(actual as int, value as int) <==> actual > value,
        ScheduleComparator::GreaterThanOrEquals.relates(actual as int, value as int) <==> actual >= value,
        ScheduleComparator::GreaterThanOrEquals.relates(actual as int, value as int) <==> (
        ScheduleComparator::GreaterThan.relates(actual as int, value as int)
            || ScheduleComparator::Equal.relates(actual as int, value as int)),
        ScheduleComparator::SmallerThanOrEquals.relates(actual as int, value as int) <==> (
        ScheduleComparator::SmallerThan.relates(actual as int, value as int)
            || ScheduleComparator::Equal.relates(actual as int, value as int)),
{
}

/// A CPU reading compares as its key does under every comparator, and a
/// reading that is not a number stands in no relation to anything.
pub proof fn lemma_cpu_comparison_meaning(comparator: ScheduleComparator, actual: u64, value: u64, other: CpuValue)
    ensures
        cpu_relates(comparator, CpuValue::Number { key: actual }, CpuValue::Number { key: value })
            <==> comparator.relates(actual as int, value as int),
        cpu_relates(comparator, CpuValue::Number { key: actual }, CpuValue::Number { key: value }) <==> (
        match comparator {
            ScheduleComparator::SmallerThan => actual < value,
            ScheduleComparator::SmallerThanOrEquals => actual <= value,
            ScheduleComparator::Equal => actual == value,
            ScheduleComparator::GreaterThan => actual > value,
            ScheduleComparator::GreaterThanOrEquals => actual >= value,
        }),
        !cpu_relates(comparator, CpuValue::NotANumber, other),
        !cpu_relates(comparator, other, CpuValue::NotANumber),
{
}

/// A run executes its actions in order: while it is under way, the action
/// it executes next is the one at the position given by the number of
/// outcomes recorded so far, and it executes nothing else. (The actions of
/// a run are held in a `Vec`, so their number fits in `usize`.)
pub proof fn lemma_run_executes_in_order(steps: Seq<ActionStep>, outcomes: Seq<ActionOutcome>)
    requires
        valid_history(steps, outcomes),
        steps.len() <= usize::MAX,
    ensures
        !run_done(steps, outcomes) ==> run_next(steps, outcomes) is Execute,
        run_done(steps, outcomes) ==> run_next(steps, outcomes) is Finish,
        forall|index: usize, uuid: u128|
            run_next(steps, outcomes) == (RunAction::Execute { index, uuid }) ==> index as int
                == outcomes.len() && outcomes.len() < steps.len() && uuid == steps[index as int].uuid,
        outcomes.len() == 0 && steps.len() > 0 ==> run_next(steps, outcomes) == (RunAction::Execute {
            index: 0,
            uuid: steps[0].uuid,
        }),
{
}

/// The status shown over a run: while the run is under way it is running
/// and names the action that executes next; once the run is over it is not
/// running and names no action, as before the run began.
pub proof fn lemma_status_over_run(steps: Seq<ActionStep>, outcomes: Seq<ActionOutcome>)
    requires
        valid_history(steps, outcomes),
    ensures
        !run_done(steps, outcomes) ==> ScheduleRun::status_spec(run_next(steps, outcomes)) == (
        ScheduleStatus { running: true, step: Some(steps[outcomes.len() as int].uuid) }),
        run_done(steps, outcomes) ==> ScheduleRun::status_spec(run_next(steps, outcomes)) == (
        ScheduleStatus { running: false, step: None }),
        outcomes.len() == 0 && steps.len() > 0 ==> ScheduleRun::status_spec(run_next(steps, outcomes))
            == (ScheduleStatus { running: true, step: Some(steps[0].uuid) }),
{
}

/// A run whose recorded history is valid is successful exactly when none of
/// the executed actions failed without ignoring failures.
pub proof fn lemma_successful_iff_no_abort(steps: Seq<ActionStep>, outcomes: Seq<ActionOutcome>)
    requires
        valid_history(steps, outcomes),
    ensures
        !stopped(steps, outcomes) <==> forall|k: int|
            0 <= k < outcomes.len() ==> !aborts(steps[k], #[trigger] outcomes[k]),
{
    if stopped(steps, outcomes) {
        assert(aborts(steps[outcomes.len() - 1], outcomes[outcomes.len() - 1]));
    }
}

/// When every action succeeds, the run executes all of them, in order, and
/// completes successfully with no errors.
pub proof fn lemma_all_succeed(steps: Seq<ActionStep>, outcomes: Seq<ActionOutcome>)
    requires
        outcomes.len() == steps.len(),
        forall|k: int| 0 <= k < outcomes.len() ==> #[trigger] outcomes[k] is Succeeded,
    ensures
        valid_history(steps, outcomes),
        run_done(steps, outcomes),
        !stopped(steps, outcomes),
        errors_of(steps, outcomes) == Map::<u128, String>::empty(),
    decreases outcomes.len(),
{
    if outcomes.len() > 0 {
        let shorter = outcomes.drop_last();
        lemma_errors_without_failures(steps, outcomes);
    }
}

proof fn lemma_errors_without_failures(steps: Seq<ActionStep>, outcomes: Seq<ActionOutcome>)
    requires
        forall|k: int| 0 <= k < outcomes.len() ==> #[trigger] outcomes[k] is Succeeded,
    ensures
        errors_of(steps, outcomes) == Map::<u128, String>::empty(),
    decreases outcomes.len(),
{
    if outcomes.len() > 0 {
        let shorter = outcomes.drop_last();
        assert forall|k: int| 0 <= k < shorter.len() implies #[trigger] shorter[k] is Succeeded by {
            assert(shorter[k] == outcomes[k]);
        }
        lemma_errors_without_failures(steps, shorter);
        assert(outcomes.last() == outcomes[outcomes.len() - 1]);
    }
}

/// The errors a run reports are keyed by exactly the ids of the executed
/// actions that failed.
pub proof fn lemma_error_keys(steps: Seq<ActionStep>, outcomes: Seq<ActionOutcome>, id: u128)
    requires
        outcomes.len() <= steps.len(),
    ensures
        errors_of(steps, outcomes).dom().contains(id) <==> exists|k: int|
            0 <= k < outcomes.len() && #[trigger] outcomes[k] is Failed && steps[k].uuid == id,
    decreases outcomes.len(),
{
    if outcomes.len() > 0 {
        let shorter = outcomes.drop_last();
        lemma_error_keys(steps, shorter, id);
        let last = outcomes.len() - 1;
        if exists|k: int| 0 <= k < shorter.len() && #[trigger] shorter[k] is Failed && steps[k].uuid == id {
            let k = choose|k: int| 0 <= k < shorter.len() && #[trigger] shorter[k] is Failed && steps[k].uuid == id;
            assert(outcomes[k] == shorter[k]);
        }
        if exists|k: int| 0 <= k < outcomes.len() && #[trigger] outcomes[k] is Failed && steps[k].uuid == id {
            let k = choose|k: int| 0 <= k < outcomes.len() && #[trigger] outcomes[k] is Failed && steps[k].uuid == id;
            if k < last {
                assert(shorter[k] == outcomes[k]);
            }
        }
    }
}

/// A failure of an action that ignores failures does not end the run: after
/// it the run goes on with the next action, if there is one.
pub proof fn lemma_ignored_failure_continues(
    steps: Seq<ActionStep>,
    outcomes: Seq<ActionOutcome>,
    error: String,
)
    requires
        valid_history(steps, outcomes),
        !run_done(steps, outcomes),
        steps[outcomes.len() as int].ignore_failure,
    ensures
        valid_history(steps, outcomes.push(ActionOutcome::Failed { error })),
        !stopped(steps, outcomes.push(ActionOutcome::Failed { error })),
        outcomes.len() + 1 < steps.len() ==> !run_done(
            steps,
            outcomes.push(ActionOutcome::Failed { error }),
        ),
{
    let h = outcomes.push(ActionOutcome::Failed { error });
    assert forall|k: int| 0 <= k < h.len() - 1 implies !aborts(steps[k], #[trigger] h[k]) by {
        assert(h[k] == outcomes[k]);
    }
}

/// A failure of an action that does not ignore failures ends the run, which
/// then reports failure.
pub proof fn lemma_failure_ends_run(
    steps: Seq<ActionStep>,
    outcomes: Seq<ActionOutcome>,
    error: String,
)
    requires
        valid_history(steps, outcomes),
        !run_done(steps, outcomes),
        !steps[outcomes.len() as int].ignore_failure,
    ensures
        valid_history(steps, outcomes.push(ActionOutcome::Failed { error })),
        run_done(steps, outcomes.push(ActionOutcome::Failed { error })),
        stopped(steps, outcomes.push(ActionOutcome::Failed { error })),
{
    let h = outcomes.push(ActionOutcome::Failed { error });
    assert forall|k: int| 0 <= k < h.len() - 1 implies !aborts(steps[k], #[trigger] h[k]) by {
        assert(h[k] == outcomes[k]);
    }
}

/// Facts that differ only in which files exist agree on every condition,
/// provided they agree on each file that the condition mentions.
pub proof fn lemma_condition_depends_on_mentioned_files(
    condition: ScheduleCondition,
    a: ServerFacts,
    b: ServerFacts,
)
    requires
        a.state == b.state,
        a.uptime == b.uptime,
        a.cpu_absolute == b.cpu_absolute,
        a.memory_bytes == b.memory_bytes,
        a.disk_bytes == b.disk_bytes,
        forall|f: Seq<char>| #[trigger] condition.mentions_file(f) ==> (a.file_exists(f)
            <==> b.file_exists(f)),
    ensures
        condition.holds(a) == condition.holds(b),
    decreases condition,
{
    match condition {
        ScheduleCondition::And { conditions } => {
            assert forall|i: int| 0 <= i < conditions@.len() implies (#[trigger] conditions@[i]).holds(a)
                == conditions@[i].holds(b) by {
                assert forall|f: Seq<char>| #[trigger] conditions@[i].mentions_file(f) implies (
                a.file_exists(f) <==> b.file_exists(f)) by {
                    assert(condition.mentions_file(f));
                }
                lemma_condition_depends_on_mentioned_files(conditions@[i], a, b);
            }
        },
        ScheduleCondition::Or { conditions } => {
            assert forall|i: int| 0 <= i < conditions@.len() implies (#[trigger] conditions@[i]).holds(a)
                == conditions@[i].holds(b) by {
                assert forall|f: Seq<char>| #[trigger] conditions@[i].mentions_file(f) implies (
                a.file_exists(f) <==> b.file_exists(f)) by {
                    assert(condition.mentions_file(f));
                }
                lemma_condition_depends_on_mentioned_files(conditions@[i], a, b);
            }
        },
        ScheduleCondition::FileExists { file } => {
            assert(condition.mentions_file(file@));
        },
        _ => {},
    }
}

} // verus!
