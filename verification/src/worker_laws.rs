//! What holds of every run, whatever the outside answers.
use crate::protocol::{Status, Step};
use crate::worker::{
    advance_answered, await_answered, concluded, error_status, fetch_answered, may_aggregate,
    may_prove, progress_answered, result_answered, settled, single_node_answered, single_saved,
    start_answered, start_recorded, timing, RunView, SingleNodeReply, StageSnapshot, StageView, TaskKind, TaskReport,
    UpdateView, CHECK_INTERVAL,
};
use vstd::prelude::*;
use vstd::utf8::{decode_utf8, valid_utf8};

verus! {

/// What the outside may answer to a run.
pub enum WorkerEvent {
    /// The time, and the stage after a dispatch.
    Dispatched { now: u64, snapshot: StageSnapshot },
    /// The time.
    Clock { now: u64 },
    /// Whether there was a task, and the stage after it was taken.
    Fetched { found: bool, snapshot: StageSnapshot },
    /// A task that came back, if one did, and the stage after it.
    Returned { report: Option<TaskReport>, snapshot: StageSnapshot },
    /// A row was added, or not.
    Saved,
    /// How many rows were changed.
    Rows { rows: Option<u64> },
    /// The bytes of the proof.
    Content { content: Seq<u8> },
    /// What a single node made of the proof.
    Single {
        proof_id: Seq<char>,
        reply: Option<SingleNodeReply>,
        snapshot: StageSnapshot,
        duration: u64,
    },
    /// How long the run took.
    Elapsed { duration: u64 },
}

/// The state after an answer. An answer to something that was not asked changes
/// nothing.
pub open spec fn next(state: StageView, event: WorkerEvent) -> StageView {
    match (state, event) {
        (
            StageView::Start { run },
            WorkerEvent::Dispatched { now, snapshot },
        ) => start_answered(run, now, snapshot),
        (StageView::RecordStart { run, update, snapshot }, WorkerEvent::Clock { now }) => {
            start_recorded(run, snapshot, now)
        },
        (
            StageView::Fetch { run, current, kind },
            WorkerEvent::Fetched { found, snapshot },
        ) => fetch_answered(run, current, kind, found, snapshot),
        (
            StageView::Await { run, current },
            WorkerEvent::Returned { report, snapshot },
        ) => await_answered(run, current, report, snapshot),
        (StageView::Save { run, current, snapshot, row }, WorkerEvent::Saved) => settled(
            run,
            current,
            snapshot,
        ),
        (
            StageView::Advance { run, current },
            WorkerEvent::Dispatched { now, snapshot },
        ) => advance_answered(run, current, now, snapshot),
        (
            StageView::RecordProgress { run, update, snapshot },
            WorkerEvent::Rows { rows },
        ) => progress_answered(run, snapshot, rows),
        (StageView::ReadResult { run, snapshot }, WorkerEvent::Content { content }) => {
            result_answered(run, snapshot, content)
        },
        (
            StageView::SingleNode { run, task_id, old_check_at },
            WorkerEvent::Single { proof_id, reply, snapshot, duration },
        ) => single_node_answered(run, task_id, proof_id, reply, snapshot, duration),
        (
            StageView::SaveSingle { run, snapshot, result, row, total_steps },
            WorkerEvent::Saved,
        ) => single_saved(run, snapshot, result),
        (StageView::Conclude { run, snapshot, result }, WorkerEvent::Elapsed { duration }) => {
            concluded(run, snapshot, duration, result)
        },
        _ => state,
    }
}

/// Is `event` an answer to what `state` asks for?
pub open spec fn fits(state: StageView, event: WorkerEvent) -> bool {
    match state {
        StageView::Start { .. } => event is Dispatched,
        StageView::RecordStart { .. } => event is Clock,
        StageView::Fetch { .. } => event is Fetched,
        StageView::Await { .. } => event is Returned,
        StageView::Save { .. } => event is Saved,
        StageView::Advance { .. } => event is Dispatched,
        StageView::RecordProgress { .. } => event is Rows,
        StageView::ReadResult { .. } => event is Content,
        StageView::SingleNode { .. } => event is Single,
        StageView::SaveSingle { .. } => event is Saved,
        StageView::Conclude { .. } => event is Elapsed,
        StageView::Done(_) => false,
        StageView::BreakOff { .. } => false,
    }
}

/// The state after several answers.
pub open spec fn after(state: StageView, events: Seq<WorkerEvent>) -> StageView
    decreases events.len(),
{
    if events.len() == 0 {
        state
    } else {
        next(after(state, events.drop_last()), events.last())
    }
}

/// What a run that is not over keeps.
pub open spec fn run_in(state: StageView) -> Option<RunView> {
    match state {
        StageView::Start { run } => Some(run),
        StageView::RecordStart { run, update, snapshot } => Some(run),
        StageView::Fetch { run, current, kind } => Some(run),
        StageView::Await { run, current } => Some(run),
        StageView::Save { run, current, snapshot, row } => Some(run),
        StageView::Advance { run, current } => Some(run),
        StageView::RecordProgress { run, update, snapshot } => Some(run),
        StageView::ReadResult { run, snapshot } => Some(run),
        StageView::SingleNode { run, task_id, old_check_at } => Some(run),
        StageView::SaveSingle { run, snapshot, result, row, total_steps } => Some(run),
        StageView::Conclude { run, snapshot, result } => Some(run),
        StageView::Done(_) => None,
        StageView::BreakOff { update, message } => None,
    }
}

/// Are two runs about the same proof, under the same terms?
pub open spec fn same_terms(a: RunView, b: RunView) -> bool {
    &&& a.id == b.id
    &&& a.max_prover_num == b.max_prover_num
    &&& a.target_step == b.target_step
    &&& a.snark_path == b.snark_path
}

/// Through all its answers a run stays with its proof, its target and its limit
/// of provers.
pub proof fn law_run_keeps_its_terms(state: StageView, events: Seq<WorkerEvent>)
    ensures
        run_in(state) is Some && run_in(after(state, events)) is Some ==> same_terms(
            run_in(state)->0,
            run_in(after(state, events))->0,
        ),
        run_in(state) is None ==> after(state, events) == state,
    decreases events.len(),
{
    if events.len() > 0 {
        law_run_keeps_its_terms(state, events.drop_last());
        let before = after(state, events.drop_last());
        let last = events.last();
        assert(run_in(before) is Some && run_in(next(before, last)) is Some ==> same_terms(
            run_in(before)->0,
            run_in(next(before, last))->0,
        ));
    }
}

/// Is a task of this kind looked for?
pub open spec fn looks_for(state: StageView, kind: TaskKind) -> bool {
    state is Fetch && state->Fetch_kind == kind
}

/// A prove task is looked for only while fewer are being worked on than there may
/// be provers, as the stage stood at that moment.
pub proof fn law_prove_tasks_are_limited(state: StageView, event: WorkerEvent)
    requires
        fits(state, event),
    ensures
        looks_for(next(state, event), TaskKind::Prove) ==> {
            &&& event is Fetched
            &&& may_prove(run_in(next(state, event))->0, event->Fetched_snapshot)
        },
{
}

/// An aggregation is looked for only once all tasks are generated, and while fewer
/// prove tasks are unfinished than there may be provers.
pub proof fn law_aggregations_wait(state: StageView, event: WorkerEvent)
    requires
        fits(state, event),
    ensures
        looks_for(next(state, event), TaskKind::Agg) ==> {
            &&& event is Fetched
            &&& may_aggregate(run_in(next(state, event))->0, event->Fetched_snapshot)
        },
{
}

/// The place of a kind of task in a round.
pub open spec fn place(kind: TaskKind) -> int {
    match kind {
        TaskKind::Split => 0,
        TaskKind::Prove => 1,
        TaskKind::Agg => 2,
        TaskKind::Snark => 3,
    }
}

/// Within a round, splits come first, then prove tasks, then aggregations.
pub proof fn law_order_of_a_round(state: StageView, event: WorkerEvent)
    requires
        fits(state, event),
    ensures
        state matches StageView::Fetch { run, current, kind } ==> match next(state, event) {
            StageView::Fetch { run: run2, current: current2, kind: kind2 } => {
                &&& place(kind) <= place(kind2)
                &&& current2 == current
            },
            StageView::Await { run: run2, current: current2 } => current2 == current,
            _ => false,
        },
{
}

/// A run on all provers is wound up only when the stage says that it succeeded or
/// failed, and then it is wound up at once.
pub proof fn law_run_ends_with_its_stage(
    run: RunView,
    current: Step,
    report: Option<TaskReport>,
    snapshot: StageSnapshot,
)
    ensures
        ({
            let first = await_answered(run, current, report, snapshot);
            let last = if first is Save {
                next(first, WorkerEvent::Saved)
            } else {
                first
            };
            (last is ReadResult || last is Conclude) <==> (snapshot.success || snapshot.error)
        }),
{
}

/// The bytes that were read from the file of the proof, once they were.
pub open spec fn proof_read(first: StageView, events: Seq<WorkerEvent>) -> Option<Seq<u8>>
    decreases events.len(),
{
    if events.len() == 0 {
        None
    } else {
        match (after(first, events.drop_last()), events.last()) {
            (StageView::ReadResult { run, snapshot }, WorkerEvent::Content { content }) => Some(
                content,
            ),
            _ => proof_read(first, events.drop_last()),
        }
    }
}

/// The bytes that a run ends with: what was read, or none.
pub open spec fn made(read: Option<Seq<u8>>) -> Seq<u8> {
    match read {
        Some(content) => content,
        None => Seq::empty(),
    }
}

/// Is the file of the proof read where a stage has ended so? It is where a SNARK succeeded.
pub open spec fn is_to_be_read(run: RunView, snapshot: StageSnapshot) -> bool {
    snapshot.success && run.target_step == Step::Snark
}

/// Is this the last state of a run under such terms, whose stage succeeded or failed, with
/// the bytes that were read from the file of its proof, where they were to be read?
pub open spec fn winds_up(last: StageView, run: RunView, read: Option<Seq<u8>>) -> bool {
    exists|at: RunView, snapshot: StageSnapshot, duration: u64|
        {
            &&& last == #[trigger] concluded(at, snapshot, duration, made(read))
            &&& same_terms(at, run)
            &&& snapshot.success || snapshot.error
            &&& read is Some <==> is_to_be_read(run, snapshot)
        }
}

/// What holds of every state of a run on all provers, given what was read.
pub open spec fn in_order(state: StageView, run: RunView, read: Option<Seq<u8>>) -> bool {
    match state {
        StageView::ReadResult { run: at, snapshot } => {
            &&& same_terms(at, run)
            &&& is_to_be_read(run, snapshot)
            &&& read is None
        },
        StageView::Conclude { run: at, snapshot, result } => {
            &&& same_terms(at, run)
            &&& snapshot.success || snapshot.error
            &&& result == made(read)
            &&& read is Some <==> is_to_be_read(run, snapshot)
        },
        StageView::SingleNode { .. } => false,
        StageView::SaveSingle { .. } => false,
        StageView::Done(_) => winds_up(state, run, read),
        StageView::BreakOff { .. } => winds_up(state, run, read),
        _ => same_terms(run_in(state)->0, run) && read is None,
    }
}

/// What was read once an answer is in.
spec fn read_next(state: StageView, event: WorkerEvent, read: Option<Seq<u8>>) -> Option<Seq<u8>> {
    match (state, event) {
        (StageView::ReadResult { run, snapshot }, WorkerEvent::Content { content }) => Some(
            content,
        ),
        _ => read,
    }
}

proof fn lemma_in_order(
    state: StageView,
    event: WorkerEvent,
    run: RunView,
    read: Option<Seq<u8>>,
)
    requires
        in_order(state, run, read),
    ensures
        in_order(next(state, event), run, read_next(state, event, read)),
{
    match (state, event) {
        (
            StageView::Conclude { run: at, snapshot, result },
            WorkerEvent::Elapsed { duration },
        ) => {
            let last = concluded(at, snapshot, duration, made(read));
            assert(winds_up(last, run, read));
        },
        _ => {},
    }
}

proof fn lemma_run_in_order(run: RunView, events: Seq<WorkerEvent>)
    ensures
        in_order(
            after(StageView::Start { run }, events),
            run,
            proof_read(StageView::Start { run }, events),
        ),
    decreases events.len(),
{
    if events.len() > 0 {
        let first = StageView::Start { run };
        lemma_run_in_order(run, events.drop_last());
        lemma_in_order(
            after(first, events.drop_last()),
            events.last(),
            run,
            proof_read(first, events.drop_last()),
        );
    }
}

/// A run on all provers ends only with its stage, and never silently: its row gets a last
/// word, or, where the proof that was made is no text, the run breaks off.
pub proof fn law_run_never_ends_silently(run: RunView, events: Seq<WorkerEvent>)
    ensures
        ({
            let first = StageView::Start { run };
            let end = after(first, events);
            &&& run_in(end) is None ==> winds_up(end, run, proof_read(first, events))
            &&& end matches StageView::Done(updates) ==> updates.len() > 0 && is_last_word(
                updates.last(),
            )
        }),
{
    lemma_run_in_order(run, events);
    let first = StageView::Start { run };
    let end = after(first, events);
    let read = proof_read(first, events);
    if end is Done {
        let (at, snapshot, duration) = choose|
            at: RunView,
            snapshot: StageSnapshot,
            duration: u64,
        |
            {
                &&& end == #[trigger] concluded(at, snapshot, duration, made(read))
                &&& same_terms(at, run)
                &&& snapshot.success || snapshot.error
                &&& read is Some <==> is_to_be_read(run, snapshot)
            };
        assert(end == concluded(at, snapshot, duration, made(read)));
    }
}

/// The result that a last state stores with a success, if it does.
pub open spec fn success_stored(state: StageView) -> Option<Seq<char>> {
    match state {
        StageView::Done(updates) => if updates.len() > 0 {
            match updates.last() {
                UpdateView::Finish { id, status, result } => if status == Status::Success {
                    Some(result)
                } else {
                    None
                },
                _ => None,
            }
        } else {
            None
        },
        _ => None,
    }
}

/// A run on all provers that succeeds stores the text that was read from the file of its
/// proof, where that is a SNARK, and the empty text otherwise.
pub proof fn law_success_stores_what_was_read(run: RunView, events: Seq<WorkerEvent>)
    ensures
        ({
            let first = StageView::Start { run };
            let read = proof_read(first, events);
            success_stored(after(first, events)) matches Some(text) ==> {
                &&& run.target_step == Step::Snark ==> read is Some && valid_utf8(read->0) && text
                    == decode_utf8(read->0)
                &&& run.target_step != Step::Snark ==> read is None && text == Seq::<
                    char,
                >::empty()
            }
        }),
{
    lemma_run_in_order(run, events);
    let first = StageView::Start { run };
    let end = after(first, events);
    let read = proof_read(first, events);
    if success_stored(end) is Some {
        let (at, snapshot, duration) = choose|
            at: RunView,
            snapshot: StageSnapshot,
            duration: u64,
        |
            {
                &&& end == #[trigger] concluded(at, snapshot, duration, made(read))
                &&& same_terms(at, run)
                &&& snapshot.success || snapshot.error
                &&& read is Some <==> is_to_be_read(run, snapshot)
            };
        assert(end == concluded(at, snapshot, duration, made(read)));
        assert(decode_utf8(Seq::<u8>::empty()) =~= Seq::<char>::empty());
    }
}

/// One prover's success on a whole proof stores the text that it put out, where the proof
/// is a SNARK, and the empty text otherwise.
pub proof fn law_single_node_stores_its_output(
    run: RunView,
    task_id: Seq<char>,
    proof_id: Seq<char>,
    reply: SingleNodeReply,
    snapshot: StageSnapshot,
    traced: u64,
    duration: u64,
)
    requires
        snapshot.success && !snapshot.error,
        run.target_step == Step::Snark ==> valid_utf8(reply.output@),
    ensures
        ({
            let saved = single_node_answered(
                run,
                task_id,
                proof_id,
                Some(reply),
                snapshot,
                traced,
            );
            let measured = next(saved, WorkerEvent::Saved);
            success_stored(next(measured, WorkerEvent::Elapsed { duration }))
        }) == Some(
            if run.target_step == Step::Snark {
                decode_utf8(reply.output@)
            } else {
                Seq::empty()
            },
        ),
{
    assert(decode_utf8(Seq::<u8>::empty()) =~= Seq::<char>::empty());
    assert(valid_utf8(Seq::<u8>::empty()));
}

/// Does every change of the check time in `state` ask for the value that the run
/// last knew, and set the one that it will know if the change is made?
pub open spec fn change_is_guarded(state: StageView) -> bool {
    state matches StageView::RecordProgress { run, update, snapshot } ==> update
        == (UpdateView::CheckAt {
        id: run.id,
        old: run.recorded_at as u64,
        new: run.check_at,
        step: snapshot.step,
    })
}

/// The row of a proof is only touched under the check time that the run last knew;
/// and the run takes the new time for known only if exactly one row was changed.
pub proof fn law_row_changes_are_guarded(state: StageView, event: WorkerEvent)
    requires
        change_is_guarded(state),
    ensures
        change_is_guarded(next(state, event)),
        state is RecordProgress && event is Rows ==> {
            let later = run_in(next(state, event));
            let run = run_in(state)->0;
            &&& later is Some
            &&& event->rows == Some(1u64) ==> later->0.recorded_at == run.check_at as i64
            &&& event->rows != Some(1u64) ==> later->0.recorded_at == run.recorded_at
        },
{
}

/// A change of the check time: the time that it asks for, and the one that it sets.
pub struct CheckChange {
    pub old: u64,
    pub new: u64,
}

/// The change of the check time that a state makes, if it makes one.
pub open spec fn check_change(state: StageView) -> Option<CheckChange> {
    let update = match state {
        StageView::RecordStart { run, update, snapshot } => Some(update),
        StageView::RecordProgress { run, update, snapshot } => Some(update),
        StageView::Done(updates) => if updates.len() > 0 {
            Some(updates[0])
        } else {
            None
        },
        StageView::BreakOff { update, message } => Some(update),
        _ => None,
    };
    match update {
        Some(UpdateView::CheckAt { id, old, new, step }) => Some(CheckChange { old, new }),
        _ => None,
    }
}

/// The check time that is known to be stored after an answer, where `known` was known
/// before. The first change is taken for made; every later one only if it changed exactly
/// one row.
pub open spec fn known_next(state: StageView, event: WorkerEvent, known: i64) -> i64 {
    let made = match (state, event) {
        (StageView::RecordStart { run, update, snapshot }, WorkerEvent::Clock { now }) => true,
        (
            StageView::RecordProgress { run, update, snapshot },
            WorkerEvent::Rows { rows },
        ) => rows == Some(1u64),
        _ => false,
    };
    match check_change(state) {
        Some(change) => if made {
            change.new as i64
        } else {
            known
        },
        None => known,
    }
}

/// The check time that is known to be stored after `events`: the one that the run began
/// with, until a change is made.
pub open spec fn known_time(first: StageView, events: Seq<WorkerEvent>) -> i64
    decreases events.len(),
{
    if events.len() == 0 {
        run_in(first)->0.recorded_at
    } else {
        known_next(
            after(first, events.drop_last()),
            events.last(),
            known_time(first, events.drop_last()),
        )
    }
}

/// Does the run of a state know the check time `known`, and does its change ask for it?
pub open spec fn knows(state: StageView, known: i64) -> bool {
    match state {
        StageView::RecordStart { run, update, snapshot } => {
            &&& check_change(state) matches Some(CheckChange { old, new })
            &&& old == known as u64
            &&& run.recorded_at == new as i64
        },
        StageView::RecordProgress { run, update, snapshot } => {
            &&& check_change(state) matches Some(CheckChange { old, new })
            &&& old == known as u64
            &&& new == run.check_at
            &&& run.recorded_at == known
        },
        StageView::Done(_) => check_change(state) matches Some(CheckChange { old, new }) ==> old == known
            as u64,
        StageView::BreakOff { update, message } => check_change(state) matches Some(CheckChange { old, new })
            && old == known as u64,
        _ => run_in(state)->0.recorded_at == known,
    }
}

proof fn lemma_knows_conclusion(
    run: RunView,
    snapshot: StageSnapshot,
    duration: u64,
    result: Seq<u8>,
)
    ensures
        knows(concluded(run, snapshot, duration, result), run.recorded_at),
{
}

proof fn lemma_knows_next(state: StageView, event: WorkerEvent, known: i64)
    requires
        knows(state, known),
    ensures
        knows(next(state, event), known_next(state, event, known)),
{
    match (state, event) {
        (StageView::Conclude { run, snapshot, result }, WorkerEvent::Elapsed { duration }) => {
            lemma_knows_conclusion(run, snapshot, duration, result);
        },
        (StageView::Await { run, current }, WorkerEvent::Returned { report, snapshot }) => {
            assert(run_in(next(state, event))->0 == run);
        },
        (StageView::Fetch { run, current, kind }, WorkerEvent::Fetched { found, snapshot }) => {
            assert(run_in(next(state, event))->0 == run);
        },
        _ => {},
    }
}

proof fn lemma_knows(first: StageView, events: Seq<WorkerEvent>)
    requires
        first is Start || first is SingleNode,
    ensures
        knows(after(first, events), known_time(first, events)),
    decreases events.len(),
{
    if events.len() > 0 {
        lemma_knows(first, events.drop_last());
        lemma_knows_next(
            after(first, events.drop_last()),
            events.last(),
            known_time(first, events.drop_last()),
        );
    }
}

/// Through a whole run, every change of the check time of its row asks for the last time
/// that is known to be stored.
pub proof fn law_every_change_asks_for_the_known_time(first: StageView, events: Seq<WorkerEvent>)
    requires
        first is Start || first is SingleNode,
    ensures
        check_change(after(first, events)) matches Some(CheckChange { old, new }) ==> old == known_time(
            first,
            events,
        ) as u64,
{
    lemma_knows(first, events);
}

/// The row of a proof is touched whenever the step has changed, and whenever more
/// than the interval has passed; and then the clock of the run starts again.
pub proof fn law_row_is_touched_in_time(
    run: RunView,
    current: Step,
    now: u64,
    snapshot: StageSnapshot,
)
    ensures
        ({
            let state = advance_answered(run, current, now, snapshot);
            &&& (state is RecordProgress) <==> (now > run.check_at + CHECK_INTERVAL || current
                != snapshot.step)
            &&& state is RecordProgress ==> run_in(state)->0.check_at == now
            &&& !(state is RecordProgress) ==> run_in(state)->0 == run
        }),
{
}

/// Is `update` the last word on a proof?
pub open spec fn is_last_word(update: UpdateView) -> bool {
    update is Finish
}

/// A proof that failed is recorded with the error of its step and without a
/// result, even if it also counts as successful, and whatever its bytes are.
pub proof fn law_failure_wins(
    run: RunView,
    snapshot: StageSnapshot,
    duration: u64,
    result: Seq<u8>,
)
    requires
        snapshot.error,
    ensures
        concluded(run, snapshot, duration, result) == StageView::Done(
            seq![
                UpdateView::Finish {
                    id: run.id,
                    status: error_status(snapshot.step),
                    result: Seq::empty(),
                },
            ],
        ),
        error_status(snapshot.step) != Status::Success,
        error_status(snapshot.step) != Status::Computing,
{
}

/// The changes that a last state makes.
pub open spec fn last_changes(state: StageView) -> Seq<UpdateView> {
    match state {
        StageView::Done(updates) => updates,
        StageView::BreakOff { update, message } => seq![update],
        _ => Seq::empty(),
    }
}

/// The last word on a proof comes last and at most once, is about that proof, and
/// calls it a success exactly if the stage succeeded without an error and its
/// proof is text.
pub proof fn law_last_word(
    run: RunView,
    snapshot: StageSnapshot,
    duration: u64,
    result: Seq<u8>,
)
    ensures
        ({
            let updates = last_changes(concluded(run, snapshot, duration, result));
            &&& forall|i: int|
                0 <= i < updates.len() - 1 ==> !is_last_word(#[trigger] updates[i])
            &&& forall|i: int|
                0 <= i < updates.len() ==> match #[trigger] updates[i] {
                    UpdateView::CheckAt { id, old, new, step } => id == run.id,
                    UpdateView::Finish { id, status, result } => id == run.id,
                }
            &&& (updates.len() > 0 && updates.last() is Finish && updates.last()->status
                == Status::Success) <==> (snapshot.success && !snapshot.error
                && valid_utf8(result))
        }),
{
}

/// A run that succeeded with bytes that are no text breaks off: its duration is recorded,
/// its status and result are not.
pub proof fn law_proof_that_is_no_text(
    run: RunView,
    snapshot: StageSnapshot,
    duration: u64,
    result: Seq<u8>,
)
    requires
        !valid_utf8(result),
    ensures
        (concluded(run, snapshot, duration, result) is BreakOff) <==> (snapshot.success
            && !snapshot.error),
        concluded(run, snapshot, duration, result) is BreakOff ==> last_changes(
            concluded(run, snapshot, duration, result),
        ) == seq![timing(run, snapshot, duration)],
{
}

/// A prover that fails on a whole proof fails the proof: whatever the stage says,
/// its row ends with the error of its step.
pub proof fn law_single_node_failure(
    run: RunView,
    task_id: Seq<char>,
    proof_id: Seq<char>,
    snapshot: StageSnapshot,
    traced: u64,
    duration: u64,
)
    ensures
        ({
            let saved = single_node_answered(run, task_id, proof_id, None, snapshot, traced);
            let measured = next(saved, WorkerEvent::Saved);
            next(measured, WorkerEvent::Elapsed { duration })
        }) == StageView::Done(
            seq![
                UpdateView::Finish {
                    id: run.id,
                    status: error_status(snapshot.step),
                    result: Seq::empty(),
                },
            ],
        ),
{
}

} // verus!
