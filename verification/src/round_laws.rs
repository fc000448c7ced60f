//! What a run does at each step, in terms of the numbers and flags that its stage shows.
use crate::protocol::{GenerateTask, StageTask, Status, Step};
use crate::worker::{
    advance_answered, await_answered, concluded, fetch_answered, progress_answered, readable,
    result_answered, round_begun, run_begun, settled, single_node_answered, single_saved,
    start_answered, start_recorded, update_views, RowUpdate, RunView, SingleNodeReply,
    StageSnapshot, StageView, TaskKind, TaskReport, TaskState, UpdateView,
};
use crate::worker_laws::{looks_for, run_in};
use vstd::prelude::*;
use vstd::utf8::{decode_utf8, valid_utf8};

verus! {

/// After a split task was looked for, or a prove task was found, another prove task is
/// looked for exactly while fewer are being worked on than there may be provers.
pub proof fn law_prove_tasks_up_to_the_limit(
    run: RunView,
    current: Step,
    found: bool,
    snapshot: StageSnapshot,
)
    ensures
        looks_for(
            fetch_answered(run, current, TaskKind::Split, found, snapshot),
            TaskKind::Prove,
        ) <==> (snapshot.processing_prove as int) < run.max_prover_num as int,
        looks_for(
            fetch_answered(run, current, TaskKind::Prove, true, snapshot),
            TaskKind::Prove,
        ) <==> (snapshot.processing_prove as int) < run.max_prover_num as int,
        !looks_for(
            fetch_answered(run, current, TaskKind::Prove, false, snapshot),
            TaskKind::Prove,
        ),
        !looks_for(
            fetch_answered(run, current, TaskKind::Agg, found, snapshot),
            TaskKind::Prove,
        ),
        !looks_for(
            fetch_answered(run, current, TaskKind::Snark, found, snapshot),
            TaskKind::Prove,
        ),
{
}

/// Once no prove task is to be taken, an aggregation is looked for exactly if all tasks are
/// generated and fewer prove tasks are unfinished than there may be provers; another one
/// only if one was found and that still holds.
pub proof fn law_aggregations_once_provers_are_free(
    run: RunView,
    current: Step,
    found: bool,
    snapshot: StageSnapshot,
)
    ensures
        ({
            let free = snapshot.tasks_gen_done && (snapshot.unfinished_prove as int)
                < run.max_prover_num as int;
            let full = snapshot.processing_prove as int >= run.max_prover_num as int;
            &&& looks_for(
                fetch_answered(run, current, TaskKind::Split, found, snapshot),
                TaskKind::Agg,
            ) <==> full && free
            &&& looks_for(
                fetch_answered(run, current, TaskKind::Prove, true, snapshot),
                TaskKind::Agg,
            ) <==> full && free
            &&& looks_for(
                fetch_answered(run, current, TaskKind::Prove, false, snapshot),
                TaskKind::Agg,
            ) <==> free
            &&& looks_for(
                fetch_answered(run, current, TaskKind::Agg, true, snapshot),
                TaskKind::Agg,
            ) <==> free
            &&& !looks_for(
                fetch_answered(run, current, TaskKind::Agg, false, snapshot),
                TaskKind::Agg,
            )
        }),
{
}

/// Looking for a task changes neither the run nor its step; where nothing more is looked
/// for, the run waits for tasks to come back.
pub proof fn law_looking_changes_nothing(
    run: RunView,
    current: Step,
    kind: TaskKind,
    found: bool,
    snapshot: StageSnapshot,
)
    ensures
        ({
            let state = fetch_answered(run, current, kind, found, snapshot);
            &&& run_in(state) == Some(run)
            &&& state is Fetch || state is Await
            &&& state is Fetch ==> state->Fetch_current == current && (state->Fetch_kind
                == TaskKind::Prove || state->Fetch_kind == TaskKind::Agg)
            &&& state is Await ==> state->Await_current == current
            &&& kind == TaskKind::Snark ==> state is Await
        }),
{
}

/// A round at the step of proving begins with a split task, one at the SNARK with the SNARK
/// task, and every other waits at once; the run is what it was, at the step of the stage.
pub proof fn law_what_a_round_begins_with(run: RunView, snapshot: StageSnapshot, now: u64)
    ensures
        ({
            let state = round_begun(run, snapshot);
            &&& looks_for(state, TaskKind::Split) <==> snapshot.step == Step::Prove
            &&& looks_for(state, TaskKind::Snark) <==> snapshot.step == Step::Snark
            &&& state is Await <==> snapshot.step != Step::Prove && snapshot.step != Step::Snark
            &&& state is Fetch ==> state->Fetch_current == snapshot.step
            &&& state is Await ==> state->Await_current == snapshot.step
            &&& run_in(state) == Some(run)
        }),
        start_recorded(run, snapshot, now) == round_begun(
            RunView { check_at: now, ..run },
            snapshot,
        ),
{
}

/// The row of a task that came back is kept exactly if it is a split or a SNARK that failed
/// or succeeded, and says what the task says; everything else leaves no row.
pub proof fn law_which_rows_are_kept(
    run: RunView,
    current: Step,
    report: TaskReport,
    snapshot: StageSnapshot,
)
    ensures
        ({
            let state = await_answered(run, current, Some(report), snapshot);
            &&& state is Save <==> (report.kind == TaskKind::Split || report.kind
                == TaskKind::Snark) && (report.state == TaskState::Failed || report.state
                == TaskState::Success)
            &&& state matches StageView::Save { run: at, current: step, snapshot: shown, row } ==> {
                &&& at == run && step == current && shown == snapshot
                &&& row.id == report.task_id@
                &&& row.kind == report.kind
                &&& row.proof_id == report.proof_id@
                &&& row.state == report.state
                &&& row.node_info == report.node_info@
                &&& row.time_cost == report.duration as i64
            }
            &&& !(state is Save) ==> state == await_answered(run, current, None, snapshot)
            &&& await_answered(run, current, None, snapshot) == settled(run, current, snapshot)
        }),
{
}

/// A run goes on exactly while its stage has neither succeeded nor failed. At its end the
/// file of the proof is read exactly if a SNARK succeeded; every other ends without bytes.
pub proof fn law_when_a_run_ends(run: RunView, current: Step, snapshot: StageSnapshot)
    ensures
        ({
            let state = settled(run, current, snapshot);
            &&& state == (StageView::Advance { run, current }) <==> !snapshot.success
                && !snapshot.error
            &&& state == (StageView::ReadResult { run, snapshot }) <==> snapshot.success
                && run.target_step == Step::Snark
            &&& state == (StageView::Conclude { run, snapshot, result: Seq::empty() }) <==> (
            snapshot.success || snapshot.error) && !(snapshot.success && run.target_step
                == Step::Snark)
        }),
{
    assert(settled(run, current, snapshot) is Conclude ==> settled(run, current, snapshot) == (
    StageView::Conclude { run, snapshot, result: Seq::empty() }));
}

/// The row is touched exactly if more than ten seconds have passed since it last was, or the
/// step has changed; the change is of the row of the proof, from the time that is known to
/// now, and shows the step of the stage.
pub proof fn law_when_the_row_is_touched(
    run: RunView,
    current: Step,
    now: u64,
    snapshot: StageSnapshot,
)
    ensures
        ({
            let state = advance_answered(run, current, now, snapshot);
            let due = now as int > run.check_at as int + 10 || current != snapshot.step;
            &&& due ==> state == (StageView::RecordProgress {
                run: RunView { check_at: now, ..run },
                update: UpdateView::CheckAt {
                    id: run.id,
                    old: run.recorded_at as u64,
                    new: now,
                    step: snapshot.step,
                },
                snapshot,
            })
            &&& !due ==> state == round_begun(run, snapshot)
        }),
{
}

/// The time of a change is taken for stored exactly if the change went well and changed one
/// row; the run goes on either way, and is otherwise what it was.
pub proof fn law_when_a_change_is_taken_for_made(
    run: RunView,
    snapshot: StageSnapshot,
    rows: Option<u64>,
)
    ensures
        rows == Some(1u64) ==> progress_answered(run, snapshot, rows) == round_begun(
            RunView { recorded_at: run.check_at as i64, ..run },
            snapshot,
        ),
        rows != Some(1u64) ==> progress_answered(run, snapshot, rows) == round_begun(
            run,
            snapshot,
        ),
{
}

/// A run begins with its row moved to now, from the time that the row had.
pub proof fn law_how_a_run_starts(run: RunView, now: u64, snapshot: StageSnapshot)
    ensures
        start_answered(run, now, snapshot) matches StageView::RecordStart {
            run: at,
            update,
            snapshot: shown,
        } && {
            &&& at == (RunView { recorded_at: now as i64, ..run })
            &&& update == (UpdateView::CheckAt {
                id: run.id,
                old: run.recorded_at as u64,
                new: now,
                step: snapshot.step,
            })
            &&& shown == snapshot
        },
{
}

/// A task without a context is left alone; one whose context cannot be read is an internal
/// error; one for a single node is begun exactly at the first step; every other is run on
/// all provers. A run is about its task, under the terms of its context.
pub proof fn law_how_a_task_is_begun(
    task: StageTask,
    context: Option<GenerateTask>,
    fresh_id: Seq<char>,
)
    ensures
        ({
            let state = run_begun(task, context, fresh_id);
            let readable = task.context is Some && context is Some;
            let alone = context is Some && context->0.single_node;
            let first = task.step.meaning == Step::Init;
            &&& task.context is None || (readable && alone && !first) ==> state
                == StageView::Done(Seq::empty())
            &&& task.context is Some && context is None ==> state == StageView::Done(
                seq![
                    UpdateView::Finish {
                        id: task.id@,
                        status: Status::InternalError,
                        result: Seq::empty(),
                    },
                ],
            )
            &&& state is Start <==> readable && !alone
            &&& state is SingleNode <==> readable && alone && first
            &&& state matches StageView::SingleNode { run, task_id, old_check_at } ==> task_id
                == fresh_id && old_check_at == task.check_at as u64
            &&& run_in(state) matches Some(run) ==> {
                &&& run.id == task.id@
                &&& run.recorded_at == task.check_at
                &&& run.check_at == 0
                &&& run.max_prover_num == context->0.max_prover_num
                &&& run.target_step == context->0.target_step
                &&& run.snark_path == context->0.snark_path@
            }
        }),
{
}

/// A context behind a reference is that context.
pub proof fn law_context_is_read(context: GenerateTask)
    ensures
        readable(Some(&context)) == Some(context),
        readable(None) is None,
{
}

/// The last word on a proof that failed: the error of the step that it failed at, whatever
/// else the stage says, and no result.
pub proof fn law_error_of_each_step(
    run: RunView,
    snapshot: StageSnapshot,
    duration: u64,
    result: Seq<u8>,
)
    requires
        snapshot.error,
    ensures
        concluded(run, snapshot, duration, result) matches StageView::Done(updates) && {
            &&& updates.len() == 1
            &&& updates[0] matches UpdateView::Finish { id, status, result: text } && {
                &&& id == run.id
                &&& text.len() == 0
                &&& status == Status::SplitError <==> snapshot.step == Step::Split
                &&& status == Status::ProveError <==> snapshot.step == Step::Prove
                &&& status == Status::AggError <==> snapshot.step == Step::Agg
                &&& status == Status::SnarkError <==> snapshot.step == Step::Snark
                &&& status == Status::InternalError <==> snapshot.step == Step::Init
                    || snapshot.step is Other
            }
        },
{
}

/// The last words on a proof that succeeded: how long it took, in place of its time, and then
/// the text that its bytes are. Bytes that are no text break the run off in between. A stage
/// that neither succeeded nor failed leaves nothing to say.
pub proof fn law_success_is_recorded(
    run: RunView,
    snapshot: StageSnapshot,
    duration: u64,
    result: Seq<u8>,
)
    requires
        !snapshot.error,
    ensures
        ({
            let state = concluded(run, snapshot, duration, result);
            let time = UpdateView::CheckAt {
                id: run.id,
                old: run.recorded_at as u64,
                new: duration,
                step: snapshot.step,
            };
            &&& !snapshot.success ==> state == StageView::Done(Seq::empty())
            &&& snapshot.success && valid_utf8(result) ==> state == StageView::Done(
                seq![
                    time,
                    UpdateView::Finish {
                        id: run.id,
                        status: Status::Success,
                        result: decode_utf8(result),
                    },
                ],
            )
            &&& snapshot.success && !valid_utf8(result) ==> state == (StageView::BreakOff {
                update: time,
                message: "Invalid UTF-8 bytes in proof result"@,
            })
        }),
{
}

/// What was read from the file of a proof, or put out by one prover, is what its run ends
/// with.
pub proof fn law_bytes_are_handed_on(run: RunView, snapshot: StageSnapshot, bytes: Seq<u8>)
    ensures
        result_answered(run, snapshot, bytes) == (StageView::Conclude {
            run,
            snapshot,
            result: bytes,
        }),
        single_saved(run, snapshot, bytes) == (StageView::Conclude {
            run,
            snapshot,
            result: bytes,
        }),
{
}

/// One prover's work on a whole proof is kept as a split task of that proof: a success with
/// the steps that it counted, and with its output where that is a SNARK; a failure with
/// neither, which fails the proof.
pub proof fn law_work_of_a_single_node(
    run: RunView,
    task_id: Seq<char>,
    proof_id: Seq<char>,
    reply: Option<SingleNodeReply>,
    snapshot: StageSnapshot,
    duration: u64,
)
    ensures
        single_node_answered(
            run,
            task_id,
            proof_id,
            reply,
            snapshot,
            duration,
        ) matches StageView::SaveSingle { run: at, snapshot: shown, result, row, total_steps } && {
            &&& at == run
            &&& row.id == task_id
            &&& row.kind == TaskKind::Split
            &&& row.proof_id == proof_id
            &&& row.node_info.len() == 0
            &&& row.time_cost == duration as i64
            &&& reply matches Some(made) ==> {
                &&& row.state == TaskState::Success
                &&& shown == snapshot
                &&& total_steps == made.total_cycles
                &&& run.target_step == Step::Snark ==> result == made.output@
                &&& run.target_step != Step::Snark ==> result.len() == 0
            }
            &&& reply is None ==> {
                &&& row.state == TaskState::Failed
                &&& shown == (StageSnapshot { error: true, ..snapshot })
                &&& total_steps == 0
                &&& result.len() == 0
            }
        },
{
}

/// A list of changes says each of them, in order.
pub proof fn law_list_of_changes_says_each(updates: Seq<RowUpdate>, i: int)
    requires
        0 <= i < updates.len(),
    ensures
        update_views(updates).len() == updates.len(),
        update_views(updates)[i] == updates[i]@,
{
}

} // verus!
