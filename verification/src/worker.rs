//! How an accepted proof is worked on.
//!
//! A run alternates with the outside: tasks are taken from the stage and sent to
//! provers, results come back, rows are updated, files are read. Each state below
//! names what is to be done outside; its `answer` takes what came of it and gives
//! the next state, until the run is done.
use crate::protocol::{GenerateTask, StageTask, Status, Step};
use vstd::prelude::*;
use vstd::utf8::{decode_utf8, valid_utf8};

verus! {

/// How often, in seconds, the row of a proof is touched at least, so that other
/// workers see that it is held.
pub const CHECK_INTERVAL: u64 = 10;

/// What a run reads of the stage that it drives.
#[derive(Clone, Copy)]
pub struct StageSnapshot {
    pub step: Step,
    pub success: bool,
    pub error: bool,
    /// Have all tasks been generated?
    pub tasks_gen_done: bool,
    /// How many prove tasks are being worked on.
    pub processing_prove: usize,
    /// How many prove tasks are not finished.
    pub unfinished_prove: usize,
}

/// The kinds of tasks that provers work on.
#[derive(Clone, Copy, PartialEq, Eq, Structural, Debug)]
pub enum TaskKind {
    Split,
    Prove,
    Agg,
    Snark,
}

/// How a task stands.
#[derive(Clone, Copy, PartialEq, Eq, Structural, Debug)]
pub enum TaskState {
    Failed,
    Success,
    Other,
}

/// A task that came back from a prover.
pub struct TaskReport {
    pub kind: TaskKind,
    pub task_id: String,
    pub proof_id: String,
    pub state: TaskState,
    pub node_info: String,
    pub duration: u64,
}

/// A row of the table of tasks.
pub struct ProveTaskRow {
    pub id: String,
    pub kind: TaskKind,
    pub proof_id: String,
    pub state: TaskState,
    pub node_info: String,
    pub time_cost: i64,
}

/// What a [`ProveTaskRow`] says.
pub struct RowView {
    pub id: Seq<char>,
    pub kind: TaskKind,
    pub proof_id: Seq<char>,
    pub state: TaskState,
    pub node_info: Seq<char>,
    pub time_cost: i64,
}

impl View for ProveTaskRow {
    type V = RowView;

    open spec fn view(&self) -> RowView {
        RowView {
            id: self.id@,
            kind: self.kind,
            proof_id: self.proof_id@,
            state: self.state,
            node_info: self.node_info@,
            time_cost: self.time_cost,
        }
    }
}

/// A change to the row of a proof.
pub enum RowUpdate {
    /// Move the check time from `old` to `new`, if it still is `old`, and set the
    /// step.
    CheckAt { id: String, old: u64, new: u64, step: Step },
    /// Set the status and the result.
    Finish { id: String, status: Status, result: String },
}

/// What a [`RowUpdate`] says.
pub enum UpdateView {
    CheckAt { id: Seq<char>, old: u64, new: u64, step: Step },
    Finish { id: Seq<char>, status: Status, result: Seq<char> },
}

impl View for RowUpdate {
    type V = UpdateView;

    open spec fn view(&self) -> UpdateView {
        match self {
            RowUpdate::CheckAt { id, old, new, step } => UpdateView::CheckAt {
                id: id@,
                old: *old,
                new: *new,
                step: *step,
            },
            RowUpdate::Finish { id, status, result } => UpdateView::Finish {
                id: id@,
                status: *status,
                result: result@,
            },
        }
    }
}

/// What a list of [`RowUpdate`]s says.
pub open spec fn update_views(updates: Seq<RowUpdate>) -> Seq<UpdateView> {
    updates.map_values(|u: RowUpdate| u@)
}

/// What a run keeps.
pub struct Run {
    /// The proof.
    pub id: String,
    /// The check time in its row, as far as this run knows.
    pub recorded_at: i64,
    /// When the row was last touched.
    pub check_at: u64,
    pub max_prover_num: u32,
    pub target_step: Step,
    pub snark_path: String,
}

/// What a [`Run`] says.
pub struct RunView {
    pub id: Seq<char>,
    pub recorded_at: i64,
    pub check_at: u64,
    pub max_prover_num: u32,
    pub target_step: Step,
    pub snark_path: Seq<char>,
}

impl View for Run {
    type V = RunView;

    open spec fn view(&self) -> RunView {
        RunView {
            id: self.id@,
            recorded_at: self.recorded_at,
            check_at: self.check_at,
            max_prover_num: self.max_prover_num,
            target_step: self.target_step,
            snark_path: self.snark_path@,
        }
    }
}

/// The clock is to be read and then the stage to be dispatched.
pub struct StartWork {
    pub run: Run,
}

/// `update` is to be made, whatever comes of it, and then the clock to be read.
pub struct StartRecord {
    pub run: Run,
    pub update: RowUpdate,
    pub snapshot: StageSnapshot,
}

/// The next task of this kind is to be taken from the stage and, if there is
/// one, sent to a prover.
pub struct FetchWork {
    pub run: Run,
    pub current: Step,
    pub kind: TaskKind,
}

/// A task is to come back, or some time to pass; what came back is to be handed to
/// the stage.
pub struct AwaitWork {
    pub run: Run,
    pub current: Step,
}

/// `row` is to be added, whatever comes of it.
pub struct SaveWork {
    pub run: Run,
    pub current: Step,
    pub snapshot: StageSnapshot,
    pub row: ProveTaskRow,
}

/// The stage is to be dispatched and then the clock to be read.
pub struct AdvanceWork {
    pub run: Run,
    pub current: Step,
}

/// `update` is to be made.
pub struct ProgressRecord {
    pub run: Run,
    pub update: RowUpdate,
    pub snapshot: StageSnapshot,
}

/// The file of the finished proof is to be read.
pub struct ResultWork {
    pub run: Run,
    pub snapshot: StageSnapshot,
}

/// How long the run took, in milliseconds, is to be measured.
pub struct ConcludeWork {
    pub run: Run,
    pub snapshot: StageSnapshot,
    pub result: Vec<u8>,
}

/// The whole proof is to be made by one prover, on account of the row with this
/// check time.
pub struct SingleNodeWork {
    pub run: Run,
    pub task_id: String,
    pub old_check_at: u64,
}

/// `row`, with this many steps, is to be added, whatever comes of it.
pub struct SaveSingleWork {
    pub run: Run,
    pub snapshot: StageSnapshot,
    pub result: Vec<u8>,
    pub row: ProveTaskRow,
    pub total_steps: u64,
}

/// How far a run has come.
pub enum StageStep {
    Start(StartWork),
    RecordStart(StartRecord),
    Fetch(FetchWork),
    Await(AwaitWork),
    Save(SaveWork),
    Advance(AdvanceWork),
    RecordProgress(ProgressRecord),
    ReadResult(ResultWork),
    SingleNode(SingleNodeWork),
    SaveSingle(SaveSingleWork),
    Conclude(ConcludeWork),
    /// The run is over once these changes are made, in order.
    Done(Vec<RowUpdate>),
    /// The run breaks off with a panic and this message once this change is made, because
    /// the bytes of its proof are no text.
    BreakOff { update: RowUpdate, message: String },
}

/// What a [`StageStep`] says.
pub enum StageView {
    Start { run: RunView },
    RecordStart { run: RunView, update: UpdateView, snapshot: StageSnapshot },
    Fetch { run: RunView, current: Step, kind: TaskKind },
    Await { run: RunView, current: Step },
    Save { run: RunView, current: Step, snapshot: StageSnapshot, row: RowView },
    Advance { run: RunView, current: Step },
    RecordProgress { run: RunView, update: UpdateView, snapshot: StageSnapshot },
    ReadResult { run: RunView, snapshot: StageSnapshot },
    SingleNode { run: RunView, task_id: Seq<char>, old_check_at: u64 },
    SaveSingle {
        run: RunView,
        snapshot: StageSnapshot,
        result: Seq<u8>,
        row: RowView,
        total_steps: u64,
    },
    Conclude { run: RunView, snapshot: StageSnapshot, result: Seq<u8> },
    Done(Seq<UpdateView>),
    BreakOff { update: UpdateView, message: Seq<char> },
}

impl View for StageStep {
    type V = StageView;

    open spec fn view(&self) -> StageView {
        match self {
            StageStep::Start(w) => StageView::Start { run: w.run@ },
            StageStep::RecordStart(w) => StageView::RecordStart {
                run: w.run@,
                update: w.update@,
                snapshot: w.snapshot,
            },
            StageStep::Fetch(w) => StageView::Fetch {
                run: w.run@,
                current: w.current,
                kind: w.kind,
            },
            StageStep::Await(w) => StageView::Await { run: w.run@, current: w.current },
            StageStep::Save(w) => StageView::Save {
                run: w.run@,
                current: w.current,
                snapshot: w.snapshot,
                row: w.row@,
            },
            StageStep::Advance(w) => StageView::Advance { run: w.run@, current: w.current },
            StageStep::RecordProgress(w) => StageView::RecordProgress {
                run: w.run@,
                update: w.update@,
                snapshot: w.snapshot,
            },
            StageStep::ReadResult(w) => StageView::ReadResult {
                run: w.run@,
                snapshot: w.snapshot,
            },
            StageStep::SingleNode(w) => StageView::SingleNode {
                run: w.run@,
                task_id: w.task_id@,
                old_check_at: w.old_check_at,
            },
            StageStep::SaveSingle(w) => StageView::SaveSingle {
                run: w.run@,
                snapshot: w.snapshot,
                result: w.result@,
                row: w.row@,
                total_steps: w.total_steps,
            },
            StageStep::Conclude(w) => StageView::Conclude {
                run: w.run@,
                snapshot: w.snapshot,
                result: w.result@,
            },
            StageStep::Done(updates) => StageView::Done(update_views(updates@)),
            StageStep::BreakOff { update, message } => StageView::BreakOff {
                update: update@,
                message: message@,
            },
        }
    }
}

// ---------------------------------------------------------------------------
// The decisions
// ---------------------------------------------------------------------------

/// The run of a task.
pub open spec fn run_of(task: StageTask, context: GenerateTask) -> RunView {
    RunView {
        id: task.id@,
        recorded_at: task.check_at,
        check_at: 0,
        max_prover_num: context.max_prover_num,
        target_step: context.target_step,
        snark_path: context.snark_path@,
    }
}

/// Nothing is left to do.
pub open spec fn nothing_left() -> StageView {
    StageView::Done(Seq::empty())
}

/// The first state of a task, given a fresh name for the task of a single node:
/// one without a context is left alone; one whose context cannot be read has
/// failed inside; one for a single node is made there, unless that was begun
/// before; every other is run on all provers.
pub open spec fn run_begun(
    task: StageTask,
    context: Option<GenerateTask>,
    fresh_id: Seq<char>,
) -> StageView {
    if task.context is None {
        nothing_left()
    } else {
        match context {
            None => StageView::Done(
                seq![
                    UpdateView::Finish {
                        id: task.id@,
                        status: Status::InternalError,
                        result: Seq::empty(),
                    },
                ],
            ),
            Some(context) => if !context.single_node {
                StageView::Start { run: run_of(task, context) }
            } else if task.step.meaning != Step::Init {
                nothing_left()
            } else {
                StageView::SingleNode {
                    run: run_of(task, context),
                    task_id: fresh_id,
                    old_check_at: task.check_at as u64,
                }
            },
        }
    }
}

/// The state after the stage was dispatched for the first time.
pub open spec fn start_answered(run: RunView, now: u64, snapshot: StageSnapshot) -> StageView {
    StageView::RecordStart {
        run: RunView { recorded_at: now as i64, ..run },
        update: UpdateView::CheckAt {
            id: run.id,
            old: run.recorded_at as u64,
            new: now,
            step: snapshot.step,
        },
        snapshot,
    }
}

/// The state after the start was recorded, once the clock was read.
pub open spec fn start_recorded(run: RunView, snapshot: StageSnapshot, now: u64) -> StageView {
    round_begun(RunView { check_at: now, ..run }, snapshot)
}

/// The state after the file of the finished proof was read.
pub open spec fn result_answered(
    run: RunView,
    snapshot: StageSnapshot,
    content: Seq<u8>,
) -> StageView {
    StageView::Conclude { run, snapshot, result: content }
}

/// The state after the row of a single node was added.
pub open spec fn single_saved(run: RunView, snapshot: StageSnapshot, result: Seq<u8>) -> StageView {
    StageView::Conclude { run, snapshot, result }
}

/// The state at the head of a round: what is taken first depends on the step.
pub open spec fn round_begun(run: RunView, snapshot: StageSnapshot) -> StageView {
    let current = snapshot.step;
    if current == Step::Prove {
        StageView::Fetch { run, current, kind: TaskKind::Split }
    } else if current == Step::Snark {
        StageView::Fetch { run, current, kind: TaskKind::Snark }
    } else {
        StageView::Await { run, current }
    }
}

/// May another prove task be taken? As long as fewer are being worked on than
/// there may be provers.
pub open spec fn may_prove(run: RunView, snapshot: StageSnapshot) -> bool {
    snapshot.processing_prove < run.max_prover_num
}

/// May another aggregation be taken? Only once all tasks are generated, and so
/// few prove tasks are unfinished that they leave provers free.
pub open spec fn may_aggregate(run: RunView, snapshot: StageSnapshot) -> bool {
    snapshot.tasks_gen_done && snapshot.unfinished_prove < run.max_prover_num
}

/// The state in which aggregations are taken.
pub open spec fn aggregating(run: RunView, current: Step, snapshot: StageSnapshot) -> StageView {
    if may_aggregate(run, snapshot) {
        StageView::Fetch { run, current, kind: TaskKind::Agg }
    } else {
        StageView::Await { run, current }
    }
}

/// The state in which prove tasks are taken.
pub open spec fn proving(run: RunView, current: Step, snapshot: StageSnapshot) -> StageView {
    if may_prove(run, snapshot) {
        StageView::Fetch { run, current, kind: TaskKind::Prove }
    } else {
        aggregating(run, current, snapshot)
    }
}

/// The state after a task was looked for.
pub open spec fn fetch_answered(
    run: RunView,
    current: Step,
    kind: TaskKind,
    found: bool,
    snapshot: StageSnapshot,
) -> StageView {
    match kind {
        TaskKind::Split => proving(run, current, snapshot),
        TaskKind::Prove => if found {
            proving(run, current, snapshot)
        } else {
            aggregating(run, current, snapshot)
        },
        TaskKind::Agg => if found {
            aggregating(run, current, snapshot)
        } else {
            StageView::Await { run, current }
        },
        TaskKind::Snark => StageView::Await { run, current },
    }
}

/// Is the row of a returned task kept? Those of splits and SNARKs are, once they
/// failed or succeeded.
pub open spec fn kept(report: TaskReport) -> bool {
    &&& report.kind == TaskKind::Split || report.kind == TaskKind::Snark
    &&& report.state != TaskState::Other
}

/// The row of a returned task.
pub open spec fn row_of(report: TaskReport) -> RowView {
    RowView {
        id: report.task_id@,
        kind: report.kind,
        proof_id: report.proof_id@,
        state: report.state,
        node_info: report.node_info@,
        time_cost: report.duration as i64,
    }
}

/// The state once everything that came back was taken note of.
pub open spec fn settled(run: RunView, current: Step, snapshot: StageSnapshot) -> StageView {
    if snapshot.success || snapshot.error {
        if snapshot.success && run.target_step == Step::Snark {
            StageView::ReadResult { run, snapshot }
        } else {
            StageView::Conclude { run, snapshot, result: Seq::empty() }
        }
    } else {
        StageView::Advance { run, current }
    }
}

/// The state after a task came back, or some time passed.
pub open spec fn await_answered(
    run: RunView,
    current: Step,
    report: Option<TaskReport>,
    snapshot: StageSnapshot,
) -> StageView {
    if report is Some && kept(report->0) {
        StageView::Save { run, current, snapshot, row: row_of(report->0) }
    } else {
        settled(run, current, snapshot)
    }
}

/// Is the row of the proof to be touched: was it not for too long, or has the
/// step changed?
pub open spec fn touch_due(run: RunView, current: Step, now: u64, step: Step) -> bool {
    run.check_at + CHECK_INTERVAL < now || current != step
}

/// The state after the stage was dispatched again.
pub open spec fn advance_answered(
    run: RunView,
    current: Step,
    now: u64,
    snapshot: StageSnapshot,
) -> StageView {
    if touch_due(run, current, now, snapshot.step) {
        StageView::RecordProgress {
            run: RunView { check_at: now, ..run },
            update: UpdateView::CheckAt {
                id: run.id,
                old: run.recorded_at as u64,
                new: now,
                step: snapshot.step,
            },
            snapshot,
        }
    } else {
        round_begun(run, snapshot)
    }
}

/// The state after the row of the proof was touched; only if one row changed has
/// its check time moved.
pub open spec fn progress_answered(
    run: RunView,
    snapshot: StageSnapshot,
    rows_affected: Option<u64>,
) -> StageView {
    round_begun(
        RunView {
            recorded_at: if rows_affected == Some(1u64) {
                run.check_at as i64
            } else {
                run.recorded_at
            },
            ..run
        },
        snapshot,
    )
}

/// The status of a proof that failed at `step`.
pub open spec fn error_status(step: Step) -> Status {
    match step {
        Step::Split => Status::SplitError,
        Step::Prove => Status::ProveError,
        Step::Agg => Status::AggError,
        Step::Snark => Status::SnarkError,
        _ => Status::InternalError,
    }
}

/// The change that puts the duration of a proof that succeeded in place of its check
/// time.
pub open spec fn timing(run: RunView, snapshot: StageSnapshot, duration: u64) -> UpdateView {
    UpdateView::CheckAt {
        id: run.id,
        old: run.recorded_at as u64,
        new: duration,
        step: snapshot.step,
    }
}

/// Does a run break off at its end: did it succeed, with bytes that are no text?
pub open spec fn breaks_off(snapshot: StageSnapshot, result: Seq<u8>) -> bool {
    snapshot.success && !snapshot.error && !valid_utf8(result)
}

/// The last changes to the row of a proof. A failed one gets the status of the
/// step that it failed at and no result. One that succeeded gets its duration in
/// place of the check time, and then its result, which must be text.
pub open spec fn finalization(
    run: RunView,
    snapshot: StageSnapshot,
    duration: u64,
    result: Seq<u8>,
) -> Seq<UpdateView> {
    if snapshot.error {
        seq![
            UpdateView::Finish {
                id: run.id,
                status: error_status(snapshot.step),
                result: Seq::empty(),
            },
        ]
    } else if snapshot.success {
        seq![
            timing(run, snapshot, duration),
            UpdateView::Finish {
                id: run.id,
                status: Status::Success,
                result: decode_utf8(result),
            },
        ]
    } else {
        Seq::empty()
    }
}

/// The last state of a run. One that breaks off has its duration recorded, but neither a
/// status nor a result.
pub open spec fn concluded(
    run: RunView,
    snapshot: StageSnapshot,
    duration: u64,
    result: Seq<u8>,
) -> StageView {
    if breaks_off(snapshot, result) {
        StageView::BreakOff {
            update: timing(run, snapshot, duration),
            message: "Invalid UTF-8 bytes in proof result"@,
        }
    } else {
        StageView::Done(finalization(run, snapshot, duration, result))
    }
}

/// What one prover made of a whole proof.
pub struct SingleNodeReply {
    pub output: Vec<u8>,
    pub total_cycles: u64,
}

/// The state after one prover worked on the whole proof. Its work is kept as one
/// split task. Only a SNARK has a result, and a prover that failed fails the
/// proof.
pub open spec fn single_node_answered(
    run: RunView,
    task_id: Seq<char>,
    proof_id: Seq<char>,
    reply: Option<SingleNodeReply>,
    snapshot: StageSnapshot,
    duration: u64,
) -> StageView {
    StageView::SaveSingle {
        run,
        snapshot: if reply is Some {
            snapshot
        } else {
            StageSnapshot { error: true, ..snapshot }
        },
        result: if reply is Some && run.target_step == Step::Snark {
            reply->0.output@
        } else {
            Seq::empty()
        },
        row: RowView {
            id: task_id,
            kind: TaskKind::Split,
            proof_id,
            state: if reply is Some {
                TaskState::Success
            } else {
                TaskState::Failed
            },
            node_info: Seq::empty(),
            time_cost: duration as i64,
        },
        total_steps: if reply is Some {
            reply->0.total_cycles
        } else {
            0
        },
    }
}

// ---------------------------------------------------------------------------
// The steps
// ---------------------------------------------------------------------------

/// Is `s` the text of a random UUID: lower-case hexadecimal digits in groups of
/// eight, four, four, four and twelve with `-` between, of version four and the
/// usual variant?
pub open spec fn is_random_uuid(s: Seq<char>) -> bool {
    &&& s.len() == 36
    &&& forall|i: int|
        0 <= i < 36 ==> if i == 8 || i == 13 || i == 18 || i == 23 {
            #[trigger] s[i] == '-'
        } else {
            '0' <= s[i] <= '9' || 'a' <= s[i] <= 'f'
        }
    &&& s[14] == '4'
    &&& s[19] == '8' || s[19] == '9' || s[19] == 'a' || s[19] == 'b'
}

/// Makes a fresh name with `Uuid::new_v4` of `uuid` and its `Display` format.
///
/// Claimed of it: the text is that of a random UUID. Which one is left open, since
/// it is drawn at random.
#[verifier::external_body]
pub(crate) fn fresh_task_id() -> (r: String)
    ensures
        is_random_uuid(r@),
{
    uuid::Uuid::new_v4().to_string()
}

/// Takes bytes as text with `String::from_utf8` of the standard library.
///
/// Claimed of it: it succeeds exactly on valid UTF-8 and gives the characters that
/// the bytes encode.
#[verifier::external_body]
pub(crate) fn utf8_text(bytes: Vec<u8>) -> (r: Option<String>)
    ensures
        match r {
            Some(text) => valid_utf8(bytes@) && text@ == decode_utf8(bytes@),
            None => !valid_utf8(bytes@),
        },
{
    String::from_utf8(bytes).ok()
}

fn start_run(task: &StageTask, context: &GenerateTask) -> (r: Run)
    ensures
        r@ == run_of(*task, *context),
{
    Run {
        id: task.id.clone(),
        recorded_at: task.check_at,
        check_at: 0,
        max_prover_num: context.max_prover_num,
        target_step: context.target_step,
        snark_path: context.snark_path.clone(),
    }
}

fn no_updates() -> (r: StageStep)
    ensures
        r@ == nothing_left(),
{
    let updates: Vec<RowUpdate> = Vec::new();
    assert(update_views(updates@) =~= Seq::<UpdateView>::empty());
    StageStep::Done(updates)
}

fn finish_only(id: String, status: Status) -> (r: Vec<RowUpdate>)
    ensures
        update_views(r@) == seq![UpdateView::Finish { id: id@, status, result: Seq::empty() }],
{
    let mut updates: Vec<RowUpdate> = Vec::new();
    updates.push(RowUpdate::Finish { id, status, result: String::new() });
    assert(update_views(updates@) =~= seq![
        UpdateView::Finish { id: id@, status, result: Seq::empty() },
    ]);
    updates
}

/// The context behind a reference.
pub open spec fn readable(context: Option<&GenerateTask>) -> Option<GenerateTask> {
    match context {
        Some(context) => Some(*context),
        None => None,
    }
}

/// Begins the run of a task, with `fresh_id` as the name of the task of a single
/// node. `context` is its context, where that can be read.
pub fn begin_run(task: &StageTask, context: Option<&GenerateTask>, fresh_id: String) -> (r:
    StageStep)
    ensures
        r@ == run_begun(*task, readable(context), fresh_id@),
{
    if task.context.is_none() {
        return no_updates();
    }
    match context {
        None => StageStep::Done(finish_only(task.id.clone(), Status::InternalError)),
        Some(context) => {
            if !context.single_node {
                StageStep::Start(StartWork { run: start_run(task, context) })
            } else {
                run_single_node_task(task, context, fresh_id)
            }
        },
    }
}

/// Begins the run of a task for a single node, unless it was begun before.
fn run_single_node_task(task: &StageTask, context: &GenerateTask, fresh_id: String) -> (r: StageStep)
    ensures
        r@ == if task.step.meaning != Step::Init {
            nothing_left()
        } else {
            StageView::SingleNode {
                run: run_of(*task, *context),
                task_id: fresh_id@,
                old_check_at: task.check_at as u64,
            }
        },
{
    if task.step.meaning != Step::Init {
        return no_updates();
    }
    StageStep::SingleNode(
        SingleNodeWork {
            run: start_run(task, context),
            task_id: fresh_id,
            old_check_at: #[verifier::truncate]
            (task.check_at as u64),
        },
    )
}

/// Begins the run of a task. `context` is its context, where that can be read. The
/// task of a single node gets a fresh random name.
pub fn run_stage_task(task: &StageTask, context: Option<&GenerateTask>) -> (r: StageStep)
    ensures
        exists|fresh_id: Seq<char>|
            {
                &&& r@ == #[trigger] run_begun(*task, readable(context), fresh_id)
                &&& r@ is SingleNode ==> is_random_uuid(fresh_id)
            },
{
    let alone: bool = match context {
        Some(context) => context.single_node,
        None => false,
    };
    let fresh_id: String = if alone {
        fresh_task_id()
    } else {
        String::new()
    };
    begin_run(task, context, fresh_id)
}

fn touch(run: &Run, now: u64, step: Step) -> (r: RowUpdate)
    ensures
        r@ == (UpdateView::CheckAt {
            id: run.id@,
            old: run.recorded_at as u64,
            new: now,
            step,
        }),
{
    RowUpdate::CheckAt {
        id: run.id.clone(),
        old: #[verifier::truncate]
        (run.recorded_at as u64),
        new: now,
        step,
    }
}

impl StartWork {
    /// Goes on with the time that was read, and the stage after its dispatch.
    pub fn answer(self, now: u64, snapshot: StageSnapshot) -> (r: StageStep)
        ensures
            r@ == start_answered(self.run@, now, snapshot),
    {
        let mut run: Run = self.run;
        let update: RowUpdate = touch(&run, now, snapshot.step);
        run.recorded_at = #[verifier::truncate]
        (now as i64);
        StageStep::RecordStart(StartRecord { run, update, snapshot })
    }
}

impl StartRecord {
    /// Goes on with the time that was read.
    pub fn answer(self, now: u64) -> (r: StageStep)
        ensures
            r@ == start_recorded(self.run@, self.snapshot, now),
    {
        let mut run: Run = self.run;
        run.check_at = now;
        begin_round(run, self.snapshot)
    }
}

fn begin_round(run: Run, snapshot: StageSnapshot) -> (r: StageStep)
    ensures
        r@ == round_begun(run@, snapshot),
{
    let current: Step = snapshot.step;
    match current {
        Step::Prove => StageStep::Fetch(FetchWork { run, current, kind: TaskKind::Split }),
        Step::Snark => StageStep::Fetch(FetchWork { run, current, kind: TaskKind::Snark }),
        _ => StageStep::Await(AwaitWork { run, current }),
    }
}

fn aggregate_next(run: Run, current: Step, snapshot: StageSnapshot) -> (r: StageStep)
    ensures
        r@ == aggregating(run@, current, snapshot),
{
    if snapshot.tasks_gen_done && snapshot.unfinished_prove < run.max_prover_num as usize {
        StageStep::Fetch(FetchWork { run, current, kind: TaskKind::Agg })
    } else {
        StageStep::Await(AwaitWork { run, current })
    }
}

fn prove_next(run: Run, current: Step, snapshot: StageSnapshot) -> (r: StageStep)
    ensures
        r@ == proving(run@, current, snapshot),
{
    if snapshot.processing_prove < run.max_prover_num as usize {
        StageStep::Fetch(FetchWork { run, current, kind: TaskKind::Prove })
    } else {
        aggregate_next(run, current, snapshot)
    }
}

impl FetchWork {
    /// Goes on, knowing whether there was a task to send, and with the stage after
    /// it was taken.
    pub fn answer(self, found: bool, snapshot: StageSnapshot) -> (r: StageStep)
        ensures
            r@ == fetch_answered(self.run@, self.current, self.kind, found, snapshot),
    {
        match self.kind {
            TaskKind::Split => prove_next(self.run, self.current, snapshot),
            TaskKind::Prove => {
                if found {
                    prove_next(self.run, self.current, snapshot)
                } else {
                    aggregate_next(self.run, self.current, snapshot)
                }
            },
            TaskKind::Agg => {
                if found {
                    aggregate_next(self.run, self.current, snapshot)
                } else {
                    StageStep::Await(AwaitWork { run: self.run, current: self.current })
                }
            },
            TaskKind::Snark => StageStep::Await(
                AwaitWork { run: self.run, current: self.current },
            ),
        }
    }
}

fn settle(run: Run, current: Step, snapshot: StageSnapshot) -> (r: StageStep)
    ensures
        r@ == settled(run@, current, snapshot),
{
    if snapshot.success || snapshot.error {
        if snapshot.success && run.target_step == Step::Snark {
            StageStep::ReadResult(ResultWork { run, snapshot })
        } else {
            let result: Vec<u8> = Vec::new();
            assert(result@ =~= Seq::<u8>::empty());
            StageStep::Conclude(ConcludeWork { run, snapshot, result })
        }
    } else {
        StageStep::Advance(AdvanceWork { run, current })
    }
}

impl AwaitWork {
    /// Goes on with the task that came back, if one did, and the stage after it was
    /// handed that task.
    pub fn answer(self, report: Option<TaskReport>, snapshot: StageSnapshot) -> (r: StageStep)
        ensures
            r@ == await_answered(self.run@, self.current, report, snapshot),
    {
        if let Some(report) = report {
            let logged: bool = match report.kind {
                TaskKind::Split => true,
                TaskKind::Snark => true,
                _ => false,
            };
            if logged && report.state != TaskState::Other {
                let row = ProveTaskRow {
                    id: report.task_id,
                    kind: report.kind,
                    proof_id: report.proof_id,
                    state: report.state,
                    node_info: report.node_info,
                    time_cost: #[verifier::truncate]
                    (report.duration as i64),
                };
                return StageStep::Save(
                    SaveWork { run: self.run, current: self.current, snapshot, row },
                );
            }
        }
        settle(self.run, self.current, snapshot)
    }
}

impl SaveWork {
    /// Goes on.
    pub fn answer(self) -> (r: StageStep)
        ensures
            r@ == settled(self.run@, self.current, self.snapshot),
    {
        settle(self.run, self.current, self.snapshot)
    }
}

impl AdvanceWork {
    /// Goes on with the time that was read, and the stage after its dispatch.
    pub fn answer(self, now: u64, snapshot: StageSnapshot) -> (r: StageStep)
        ensures
            r@ == advance_answered(self.run@, self.current, now, snapshot),
    {
        let mut run: Run = self.run;
        let late: bool = now >= CHECK_INTERVAL && run.check_at < now - CHECK_INTERVAL;
        if late || self.current != snapshot.step {
            let update: RowUpdate = touch(&run, now, snapshot.step);
            run.check_at = now;
            StageStep::RecordProgress(ProgressRecord { run, update, snapshot })
        } else {
            begin_round(run, snapshot)
        }
    }
}

impl ProgressRecord {
    /// Goes on, knowing how many rows were changed, where the change went well.
    pub fn answer(self, rows_affected: Option<u64>) -> (r: StageStep)
        ensures
            r@ == progress_answered(self.run@, self.snapshot, rows_affected),
    {
        let mut run: Run = self.run;
        if let Some(rows) = rows_affected {
            if rows == 1 {
                run.recorded_at = #[verifier::truncate]
                (run.check_at as i64);
            }
        }
        begin_round(run, self.snapshot)
    }
}

impl ResultWork {
    /// Goes on with the bytes of the proof; none if they could not be read.
    pub fn answer(self, content: Vec<u8>) -> (r: StageStep)
        ensures
            r@ == result_answered(self.run@, self.snapshot, content@),
    {
        StageStep::Conclude(
            ConcludeWork { run: self.run, snapshot: self.snapshot, result: content },
        )
    }
}

impl SingleNodeWork {
    /// Goes on with the proof that the prover worked on, what it made of it, the
    /// stage after it was told, and how long the task was traced.
    pub fn answer(
        self,
        proof_id: String,
        reply: Option<SingleNodeReply>,
        snapshot: StageSnapshot,
        duration: u64,
    ) -> (r: StageStep)
        ensures
            r@ == single_node_answered(
                self.run@,
                self.task_id@,
                proof_id@,
                reply,
                snapshot,
                duration,
            ),
    {
        let run: Run = self.run;
        let mut row = ProveTaskRow {
            id: self.task_id,
            kind: TaskKind::Split,
            proof_id,
            state: TaskState::Failed,
            node_info: String::new(),
            time_cost: #[verifier::truncate]
            (duration as i64),
        };
        let mut snapshot: StageSnapshot = snapshot;
        let mut result: Vec<u8> = Vec::new();
        let mut total_steps: u64 = 0;
        assert(result@ =~= Seq::<u8>::empty());
        match reply {
            Some(reply) => {
                total_steps = reply.total_cycles;
                row.state = TaskState::Success;
                if run.target_step == Step::Snark {
                    result = reply.output;
                }
            },
            None => {
                snapshot.error = true;
            },
        }
        StageStep::SaveSingle(SaveSingleWork { run, snapshot, result, row, total_steps })
    }
}

impl SaveSingleWork {
    /// Goes on.
    pub fn answer(self) -> (r: StageStep)
        ensures
            r@ == single_saved(self.run@, self.snapshot, self.result@),
    {
        StageStep::Conclude(
            ConcludeWork { run: self.run, snapshot: self.snapshot, result: self.result },
        )
    }
}

/// The last changes to the row of a proof. Where it succeeded, its bytes must be text.
pub fn finalize_stage_task(
    run: &Run,
    snapshot: StageSnapshot,
    duration: u64,
    result: Vec<u8>,
) -> (r: Vec<RowUpdate>)
    requires
        !breaks_off(snapshot, result@),
    ensures
        update_views(r@) == finalization(run@, snapshot, duration, result@),
{
    if snapshot.error {
        let status: Status = match snapshot.step {
            Step::Split => Status::SplitError,
            Step::Prove => Status::ProveError,
            Step::Agg => Status::AggError,
            Step::Snark => Status::SnarkError,
            _ => Status::InternalError,
        };
        return finish_only(run.id.clone(), status);
    }
    let mut updates: Vec<RowUpdate> = Vec::new();
    if snapshot.success {
        updates.push(touch(run, duration, snapshot.step));
        if let Some(text) = utf8_text(result) {
            updates.push(
                RowUpdate::Finish { id: run.id.clone(), status: Status::Success, result: text },
            );
        }
    }
    assert(update_views(updates@) =~= finalization(run@, snapshot, duration, result@));
    updates
}

impl ConcludeWork {
    /// Ends with how long the run took, in milliseconds.
    pub fn answer(self, duration: u64) -> (r: StageStep)
        ensures
            r@ == concluded(self.run@, self.snapshot, duration, self.result@),
    {
        if self.snapshot.success && !self.snapshot.error {
            let copy: Vec<u8> = self.result.clone();
            assert(copy@ =~= self.result@);
            if utf8_text(copy).is_none() {
                return StageStep::BreakOff {
                    update: touch(&self.run, duration, self.snapshot.step),
                    message: "Invalid UTF-8 bytes in proof result".to_string(),
                };
            }
        }
        StageStep::Done(finalize_stage_task(&self.run, self.snapshot, duration, self.result))
    }
}

} // verus!
