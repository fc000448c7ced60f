use proof_service::protocol::{Coded, GenerateTask, ProverVersion, StageTask, Status, Step};
use proof_service::worker::{
    begin_run, finalize_stage_task, run_stage_task, ConcludeWork, RowUpdate, Run, SingleNodeReply,
    StageSnapshot, StageStep, TaskKind, TaskReport, TaskState, CHECK_INTERVAL,
};

fn context() -> GenerateTask {
    GenerateTask {
        prover_version: ProverVersion::Zkm2,
        elf_id: "id".to_string(),
        proof_id: "p1".to_string(),
        base_dir: "/data/proof/p1".to_string(),
        elf_path: "/data/elf/id".to_string(),
        seg_path: String::new(),
        prove_path: String::new(),
        agg_path: String::new(),
        snark_path: "/data/proof/p1/snark/proof.json".to_string(),
        public_input_path: String::new(),
        private_input_path: String::new(),
        output_stream_path: String::new(),
        block_no: Some(0),
        seg_size: 2048,
        max_prover_num: 2,
        from_step: Step::Init,
        target_step: Step::Snark,
        single_node: false,
        composite_proof: false,
        receipt_inputs_path: String::new(),
        receipts_path: String::new(),
    }
}

fn task() -> StageTask {
    StageTask {
        id: "p1".to_string(),
        status: Coded { number: 1, meaning: Status::Computing },
        step: Coded { number: 0, meaning: Step::Init },
        check_at: 50,
        context: Some("text".to_string()),
        result: None,
    }
}

fn snapshot(step: Step) -> StageSnapshot {
    StageSnapshot {
        step,
        success: false,
        error: false,
        tasks_gen_done: false,
        processing_prove: 0,
        unfinished_prove: 0,
    }
}

fn run() -> Run {
    Run {
        id: "p1".to_string(),
        recorded_at: 100,
        check_at: 100,
        max_prover_num: 2,
        target_step: Step::Snark,
        snark_path: "/data/proof/p1/snark/proof.json".to_string(),
    }
}

fn report(kind: TaskKind, state: TaskState) -> TaskReport {
    TaskReport {
        kind,
        task_id: "t1".to_string(),
        proof_id: "p1".to_string(),
        state,
        node_info: "node".to_string(),
        duration: 12,
    }
}

/// A run that is at the head of a round.
fn round(snapshot: StageSnapshot) -> StageStep {
    let step = begin_run(&task(), Some(&context()), String::new());
    let step = match step {
        StageStep::Start(work) => work.answer(100, snapshot),
        _ => panic!("no start"),
    };
    match step {
        StageStep::RecordStart(work) => work.answer(101),
        _ => panic!("no record"),
    }
}

fn fetched(step: &StageStep) -> Option<TaskKind> {
    match step {
        StageStep::Fetch(work) => Some(work.kind),
        _ => None,
    }
}

fn fetch(step: StageStep, found: bool, snapshot: StageSnapshot) -> StageStep {
    match step {
        StageStep::Fetch(work) => work.answer(found, snapshot),
        _ => panic!("no fetch"),
    }
}

fn finishes_with(last: Vec<RowUpdate>, expected: Status) {
    assert_eq!(last.len(), 1);
    match &last[0] {
        RowUpdate::Finish { id, status, result } => {
            assert_eq!(id, "p1");
            assert_eq!(*status, expected);
            assert_eq!(result, "");
        }
        _ => panic!("no finish"),
    }
}

#[test]
fn task_without_context_is_left_alone() {
    let mut bare = task();
    bare.context = None;
    match run_stage_task(&bare, None) {
        StageStep::Done(last) => assert!(last.is_empty()),
        _ => panic!("not done"),
    }
}

#[test]
fn unreadable_context_is_an_internal_error() {
    match run_stage_task(&task(), None) {
        StageStep::Done(last) => finishes_with(last, Status::InternalError),
        _ => panic!("not done"),
    }
}

#[test]
fn start_is_recorded() {
    let step = match run_stage_task(&task(), Some(&context())) {
        StageStep::Start(work) => work.answer(100, snapshot(Step::Split)),
        _ => panic!("no start"),
    };
    match step {
        StageStep::RecordStart(work) => {
            match &work.update {
                RowUpdate::CheckAt { id, old, new, step } => {
                    assert_eq!(id, "p1");
                    assert_eq!((*old, *new), (50, 100));
                    assert_eq!(*step, Step::Split);
                }
                _ => panic!("no touch"),
            }
            assert_eq!(work.run.recorded_at, 100);
            match work.answer(101) {
                StageStep::Await(work) => assert_eq!(work.run.check_at, 101),
                _ => panic!("no wait"),
            }
        }
        _ => panic!("no record"),
    }
}

#[test]
fn what_is_taken_first() {
    assert_eq!(fetched(&round(snapshot(Step::Prove))), Some(TaskKind::Split));
    assert_eq!(fetched(&round(snapshot(Step::Snark))), Some(TaskKind::Snark));
    for step in [Step::Init, Step::Split, Step::Agg, Step::Other(9)] {
        assert!(matches!(round(snapshot(step)), StageStep::Await(_)));
    }
}

#[test]
fn prove_tasks_are_limited() {
    let mut now = snapshot(Step::Prove);
    let mut step = fetch(round(now), true, now);
    assert_eq!(fetched(&step), Some(TaskKind::Prove));
    now.processing_prove = 1;
    step = fetch(step, true, now);
    assert_eq!(fetched(&step), Some(TaskKind::Prove));
    now.processing_prove = 2;
    step = fetch(step, true, now);
    assert!(matches!(step, StageStep::Await(_)));
}

#[test]
fn aggregations_wait() {
    let mut now = snapshot(Step::Prove);
    now.unfinished_prove = 2;
    now.tasks_gen_done = true;
    let step = fetch(fetch(round(now), false, now), false, now);
    assert!(matches!(step, StageStep::Await(_)));
    now.unfinished_prove = 1;
    let step = fetch(fetch(round(now), false, now), false, now);
    assert_eq!(fetched(&step), Some(TaskKind::Agg));
    let step = fetch(step, true, now);
    assert_eq!(fetched(&step), Some(TaskKind::Agg));
    let step = fetch(step, false, now);
    assert!(matches!(step, StageStep::Await(_)));
    now.tasks_gen_done = false;
    let step = fetch(fetch(round(now), false, now), false, now);
    assert!(matches!(step, StageStep::Await(_)));
}

#[test]
fn one_snark_task_a_round() {
    let now = snapshot(Step::Snark);
    assert!(matches!(fetch(round(now), true, now), StageStep::Await(_)));
    assert!(matches!(fetch(round(now), false, now), StageStep::Await(_)));
}

fn awaiting(step: Step) -> proof_service::worker::AwaitWork {
    proof_service::worker::AwaitWork { run: run(), current: step }
}

#[test]
fn rows_of_splits_and_snarks_are_kept() {
    let now = snapshot(Step::Prove);
    for kind in [TaskKind::Split, TaskKind::Snark] {
        for state in [TaskState::Failed, TaskState::Success] {
            match awaiting(Step::Prove).answer(Some(report(kind, state)), now) {
                StageStep::Save(work) => {
                    assert_eq!(work.row.id, "t1");
                    assert_eq!(work.row.kind, kind);
                    assert_eq!(work.row.proof_id, "p1");
                    assert_eq!(work.row.state, state);
                    assert_eq!(work.row.node_info, "node");
                    assert_eq!(work.row.time_cost, 12);
                    assert!(matches!(work.answer(), StageStep::Advance(_)));
                }
                _ => panic!("not kept"),
            }
        }
        let step = awaiting(Step::Prove).answer(Some(report(kind, TaskState::Other)), now);
        assert!(matches!(step, StageStep::Advance(_)));
    }
    for kind in [TaskKind::Prove, TaskKind::Agg] {
        let step = awaiting(Step::Prove).answer(Some(report(kind, TaskState::Success)), now);
        assert!(matches!(step, StageStep::Advance(_)));
    }
    assert!(matches!(awaiting(Step::Prove).answer(None, now), StageStep::Advance(_)));
}

#[test]
fn run_ends_with_its_stage() {
    let mut now = snapshot(Step::Snark);
    now.error = true;
    assert!(matches!(awaiting(Step::Snark).answer(None, now), StageStep::Conclude(_)));
    now.error = false;
    now.success = true;
    match awaiting(Step::Snark).answer(None, now) {
        StageStep::ReadResult(work) => match work.answer(b"proof".to_vec()) {
            StageStep::Conclude(work) => assert_eq!(work.result, b"proof"),
            _ => panic!("no conclusion"),
        },
        _ => panic!("no result"),
    }
    let mut other = awaiting(Step::Agg);
    other.run.target_step = Step::Agg;
    match other.answer(None, now) {
        StageStep::Conclude(work) => assert!(work.result.is_empty()),
        _ => panic!("no conclusion"),
    }
}

fn advancing(current: Step) -> proof_service::worker::AdvanceWork {
    proof_service::worker::AdvanceWork { run: run(), current }
}

#[test]
fn row_is_touched_in_time() {
    assert_eq!(CHECK_INTERVAL, 10);
    let now = snapshot(Step::Split);
    assert!(matches!(advancing(Step::Split).answer(100, now), StageStep::Await(_)));
    assert!(matches!(advancing(Step::Split).answer(110, now), StageStep::Await(_)));
    assert!(matches!(advancing(Step::Split).answer(5, now), StageStep::Await(_)));
    match advancing(Step::Split).answer(111, now) {
        StageStep::RecordProgress(work) => {
            assert_eq!(work.run.check_at, 111);
            assert_eq!(work.run.recorded_at, 100);
            match &work.update {
                RowUpdate::CheckAt { id, old, new, step } => {
                    assert_eq!(id, "p1");
                    assert_eq!((*old, *new), (100, 111));
                    assert_eq!(*step, Step::Split);
                }
                _ => panic!("no touch"),
            }
        }
        _ => panic!("not touched"),
    }
    assert!(matches!(
        advancing(Step::Init).answer(101, now),
        StageStep::RecordProgress(_)
    ));
}

#[test]
fn row_changes_are_guarded() {
    let now = snapshot(Step::Split);
    for (rows, expected) in [(Some(1), 111), (Some(0), 100), (Some(2), 100), (None, 100)] {
        match advancing(Step::Split).answer(111, now) {
            StageStep::RecordProgress(work) => match work.answer(rows) {
                StageStep::Await(work) => {
                    assert_eq!(work.run.recorded_at, expected);
                    assert_eq!(work.run.check_at, 111);
                }
                _ => panic!("no wait"),
            },
            _ => panic!("not touched"),
        }
    }
}

#[test]
fn failure_has_the_status_of_its_step() {
    for (step, status) in [
        (Step::Split, Status::SplitError),
        (Step::Prove, Status::ProveError),
        (Step::Agg, Status::AggError),
        (Step::Snark, Status::SnarkError),
        (Step::Init, Status::InternalError),
        (Step::Other(3), Status::InternalError),
    ] {
        let mut now = snapshot(step);
        now.error = true;
        finishes_with(finalize_stage_task(&run(), now, 9, b"proof".to_vec()), status);
        now.success = true;
        finishes_with(finalize_stage_task(&run(), now, 9, b"proof".to_vec()), status);
    }
}

#[test]
fn success_is_the_last_word() {
    let mut now = snapshot(Step::Snark);
    now.success = true;
    let last = finalize_stage_task(&run(), now, 9000, "pr\u{f6}of".as_bytes().to_vec());
    assert_eq!(last.len(), 2);
    match &last[0] {
        RowUpdate::CheckAt { id, old, new, step } => {
            assert_eq!(id, "p1");
            assert_eq!((*old, *new), (100, 9000));
            assert_eq!(*step, Step::Snark);
        }
        _ => panic!("no timing"),
    }
    match &last[1] {
        RowUpdate::Finish { id, status, result } => {
            assert_eq!(id, "p1");
            assert_eq!(*status, Status::Success);
            assert_eq!(result, "pr\u{f6}of");
        }
        _ => panic!("no finish"),
    }
}

#[test]
fn proof_that_is_no_text() {
    let mut now = snapshot(Step::Snark);
    now.success = true;
    let work = ConcludeWork { run: run(), snapshot: now, result: vec![0xff] };
    match work.answer(9000) {
        StageStep::BreakOff { update, message } => {
            assert_eq!(message, "Invalid UTF-8 bytes in proof result");
            match update {
                RowUpdate::CheckAt { id, old, new, step } => {
                    assert_eq!(id, "p1");
                    assert_eq!((old, new), (100, 9000));
                    assert_eq!(step, Step::Snark);
                }
                _ => panic!("no timing"),
            }
        }
        _ => panic!("not broken off"),
    }
    now.error = true;
    let work = ConcludeWork { run: run(), snapshot: now, result: vec![0xff] };
    match work.answer(9000) {
        StageStep::Done(last) => finishes_with(last, Status::SnarkError),
        _ => panic!("not done"),
    }
}

#[test]
fn neither_failed_nor_succeeded() {
    let last = finalize_stage_task(&run(), snapshot(Step::Snark), 9, vec![1]);
    assert!(last.is_empty());
}

fn alone() -> GenerateTask {
    let mut details = context();
    details.single_node = true;
    details
}

#[test]
fn single_node_is_begun_once() {
    match begin_run(&task(), Some(&alone()), "fresh".to_string()) {
        StageStep::SingleNode(work) => {
            assert_eq!(work.task_id, "fresh");
            assert_eq!(work.old_check_at, 50);
        }
        _ => panic!("not begun"),
    }
    let mut begun = task();
    begun.step = Coded { number: 3, meaning: Step::Prove };
    match begin_run(&begun, Some(&alone()), "fresh".to_string()) {
        StageStep::Done(last) => assert!(last.is_empty()),
        _ => panic!("begun again"),
    }
}

fn fresh_name() -> String {
    match run_stage_task(&task(), Some(&alone())) {
        StageStep::SingleNode(work) => work.task_id,
        _ => panic!("not begun"),
    }
}

#[test]
fn fresh_names_are_random_uuids() {
    let name = fresh_name();
    assert_eq!(name.len(), 36);
    for (i, c) in name.chars().enumerate() {
        match i {
            8 | 13 | 18 | 23 => assert_eq!(c, '-'),
            14 => assert_eq!(c, '4'),
            19 => assert!("89ab".contains(c)),
            _ => assert!("0123456789abcdef".contains(c)),
        }
    }
    assert_ne!(name, fresh_name());
}

fn single(reply: Option<SingleNodeReply>, target_step: Step) -> StageStep {
    let mut details = alone();
    details.target_step = target_step;
    let mut now = snapshot(Step::Snark);
    now.success = true;
    match begin_run(&task(), Some(&details), "fresh".to_string()) {
        StageStep::SingleNode(work) => work.answer("p1".to_string(), reply, now, 7),
        _ => panic!("not begun"),
    }
}

#[test]
fn single_node_success() {
    let reply = || Some(SingleNodeReply { output: b"proof".to_vec(), total_cycles: 99 });
    match single(reply(), Step::Snark) {
        StageStep::SaveSingle(work) => {
            assert_eq!(work.row.id, "fresh");
            assert_eq!(work.row.kind, TaskKind::Split);
            assert_eq!(work.row.proof_id, "p1");
            assert_eq!(work.row.state, TaskState::Success);
            assert_eq!(work.row.node_info, "");
            assert_eq!(work.row.time_cost, 7);
            assert_eq!(work.total_steps, 99);
            assert_eq!(work.result, b"proof");
            match work.answer() {
                StageStep::Conclude(work) => match work.answer(5) {
                    StageStep::Done(last) => assert_eq!(last.len(), 2),
                    _ => panic!("not done"),
                },
                _ => panic!("no conclusion"),
            }
        }
        _ => panic!("not saved"),
    }
    match single(reply(), Step::Agg) {
        StageStep::SaveSingle(work) => assert!(work.result.is_empty()),
        _ => panic!("not saved"),
    }
}

#[test]
fn single_node_failure() {
    match single(None, Step::Snark) {
        StageStep::SaveSingle(work) => {
            assert_eq!(work.row.state, TaskState::Failed);
            assert_eq!(work.total_steps, 0);
            match work.answer() {
                StageStep::Conclude(work) => match work.answer(5) {
                    StageStep::Done(last) => finishes_with(last, Status::SnarkError),
                    _ => panic!("not done"),
                },
                _ => panic!("no conclusion"),
            }
        }
        _ => panic!("not saved"),
    }
}

#[test]
fn every_change_asks_for_the_known_time() {
    let now = snapshot(Step::Split);
    let mut known = 50u64;
    let mut step = match begin_run(&task(), Some(&context()), String::new()) {
        StageStep::Start(work) => work.answer(100, now),
        _ => panic!("no start"),
    };
    let mut clock = 100;
    let answers = [Some(1), Some(0), None, Some(1), Some(2)];
    let mut changes = 0;
    while changes < answers.len() {
        step = match step {
            StageStep::RecordStart(work) => {
                if let RowUpdate::CheckAt { old, new, .. } = work.update {
                    assert_eq!(old, known);
                    known = new;
                }
                work.answer(clock)
            }
            StageStep::Await(work) => work.answer(None, now),
            StageStep::Advance(work) => {
                clock += 11;
                work.answer(clock, now)
            }
            StageStep::RecordProgress(work) => {
                let rows = answers[changes];
                changes += 1;
                if let RowUpdate::CheckAt { old, new, .. } = work.update {
                    assert_eq!(old, known);
                    if rows == Some(1) {
                        known = new;
                    }
                }
                work.answer(rows)
            }
            _ => panic!("unexpected"),
        };
    }
}

fn stored_by(target_step: Step) -> String {
    let mut now = snapshot(Step::Snark);
    now.success = true;
    let mut work = awaiting(Step::Snark);
    work.run.target_step = target_step;
    let mut step = work.answer(None, now);
    loop {
        step = match step {
            StageStep::ReadResult(work) => {
                assert_eq!(work.run.snark_path, "/data/proof/p1/snark/proof.json");
                work.answer(b"from the file".to_vec())
            }
            StageStep::Conclude(work) => work.answer(9),
            StageStep::Done(updates) => match updates.into_iter().last() {
                Some(RowUpdate::Finish { result, .. }) => return result,
                _ => panic!("no finish"),
            },
            _ => panic!("unexpected"),
        };
    }
}

#[test]
fn success_stores_what_was_read() {
    assert_eq!(stored_by(Step::Snark), "from the file");
    assert_eq!(stored_by(Step::Agg), "");
    assert_eq!(stored_by(Step::Split), "");
}
