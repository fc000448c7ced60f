//! What becomes of a request, whatever the outside answers.
use crate::codec::{chunk_views, law_list_round_trip, law_vectors_storable, read_list};
use crate::digest::elf_identity;
use crate::generate::{
    acceptance, admitted, all_ops, asked_from, asked_target, can_start_from, can_stop_at,
    context_answered, elf_answered, enqueue_answered, file_answered, input_ops, insert_answered,
    is_queued_for, job_dir, job_signer, new_row, output_ops, receipts_missing, refusal, seg_size_message,
    seg_size_refused, task_of, user_answered, write_block, write_list, write_nonempty,
    AcceptedView, FileOpView, GenerateView, Job, NewRowView, SegSizeRule,
};
use crate::layout::{
    block_dir, elf_dir, lemma_joined_stays_under, lemma_joined_under, public_values_file,
    under,
};
use crate::protocol::{GenerateTaskView, StageTask, Status, Step};
use crate::text::{joined, without_0x};
use vstd::prelude::*;

verus! {

/// Everything that the outside may answer while a request is taken in.
pub struct Outside {
    /// The addresses of the users that are found.
    pub users: Seq<Seq<char>>,
    /// Is the file of the program there?
    pub elf_present: bool,
    /// How each file operation goes, by how many are left to do, itself counted.
    pub file: spec_fn(nat) -> Result<(), Seq<char>>,
    /// The task as text.
    pub context: spec_fn(GenerateTaskView) -> Result<Seq<char>, Seq<char>>,
    /// How adding the row goes.
    pub insert: Result<(), Seq<char>>,
    /// How queueing the task goes.
    pub enqueue: Result<(), Seq<char>>,
}

/// The state after the outside answered once. A reply or a failure is final.
pub open spec fn answered<'a>(state: GenerateView<'a>, outside: Outside) -> GenerateView<'a> {
    match state {
        GenerateView::LookupUser { job, address } => user_answered(job, outside.users),
        GenerateView::ProbeElf { accepted, elf_id, elf_path, provided } => elf_answered(
            accepted,
            elf_id,
            elf_path,
            provided,
            outside.elf_present,
        ),
        GenerateView::Perform { accepted, elf_id, elf_path, ops } => file_answered(
            accepted,
            elf_id,
            elf_path,
            ops,
            (outside.file)(ops.len()),
        ),
        GenerateView::SerializeContext { accepted, task } => context_answered(
            accepted,
            (outside.context)(task),
        ),
        GenerateView::InsertTask { accepted, context } => insert_answered(
            accepted,
            context,
            outside.insert,
        ),
        GenerateView::Enqueue { accepted, context } => enqueue_answered(accepted, outside.enqueue),
        GenerateView::Reply(reply) => state,
        GenerateView::Fail(message) => state,
    }
}

/// The state after the outside answered `n` times.
pub open spec fn driven<'a>(state: GenerateView<'a>, outside: Outside, n: nat) -> GenerateView<'a>
    decreases n,
{
    if n == 0 {
        state
    } else {
        driven(answered(state, outside), outside, (n - 1) as nat)
    }
}

/// The first state of a request.
pub open spec fn begun<'a>(job: Job<'a>, rule: SegSizeRule) -> GenerateView<'a> {
    admitted(job, rule, job_signer(job))
}

/// Why a request is turned down before anything is written, if it is: the first
/// of the checks that fails.
pub open spec fn early_refusal(job: Job, rule: SegSizeRule, outside: Outside) -> Option<Seq<char>> {
    let request = job.request;
    if seg_size_refused(job, rule) {
        Some(seg_size_message(rule))
    } else if job_signer(job) is Err {
        Some("invalid signature"@)
    } else if outside.users.len() == 0 {
        Some("permission denied"@)
    } else if !can_start_from(asked_from(*request)) {
        Some("invalid FromStep, only Support Init and Agg"@)
    } else if !can_stop_at(asked_target(*request)) {
        Some("invalid TargetStep, only Support Split, Agg and Snark"@)
    } else if asked_from(*request) == Step::Init && request.elf_data@.len() == 0 {
        if request.elf_id is None {
            Some("elf_data or elf_id should not be empty"@)
        } else if !outside.elf_present {
            Some("elf_id not found"@)
        } else {
            None
        }
    } else {
        None
    }
}

/// The request, once it passed those checks.
pub open spec fn accepted_of<'a>(job: Job<'a>, outside: Outside) -> AcceptedView<'a> {
    AcceptedView {
        job,
        user_address: outside.users[0],
        from_step: asked_from(*job.request),
        target_step: asked_target(*job.request),
    }
}

/// The identity of the program of a request; none from the aggregation on.
pub open spec fn program_id(job: Job) -> Seq<char> {
    if asked_from(*job.request) != Step::Init {
        Seq::empty()
    } else if job.request.elf_data@.len() > 0 {
        elf_identity(job.request.elf_data@)
    } else {
        without_0x(job.request.elf_id->0@)
    }
}

/// The file of the program of a request; none from the aggregation on.
pub open spec fn program_path(job: Job) -> Seq<char> {
    if asked_from(*job.request) != Step::Init {
        Seq::empty()
    } else {
        joined(elf_dir(job.config.base_dir@), program_id(job))
    }
}

/// Everything that is written of a request that passed those checks: its
/// program, if it came along and is not kept yet, and the files of the proof.
pub open spec fn request_ops(job: Job, outside: Outside) -> Seq<FileOpView> {
    all_ops(
        accepted_of(job, outside),
        if asked_from(*job.request) == Step::Init && job.request.elf_data@.len() > 0
            && !outside.elf_present {
            seq![
                FileOpView::Write { path: program_path(job), content: job.request.elf_data@ },
            ]
        } else {
            Seq::empty()
        },
    )
}

/// The message of the first file operation that fails, when `left` are left.
pub open spec fn first_failure(file: spec_fn(nat) -> Result<(), Seq<char>>, left: nat) -> Option<
    Seq<char>,
>
    decreases left,
{
    if left == 0 {
        None
    } else {
        match file(left) {
            Err(message) => Some(message),
            Ok(_) => first_failure(file, (left - 1) as nat),
        }
    }
}

/// What a request comes to once its files are written. Without any generation of provers
/// it fails.
pub open spec fn recorded<'a>(
    accepted: AcceptedView<'a>,
    task: GenerateTaskView,
    outside: Outside,
) -> GenerateView<'a> {
    if !accepted.job.build.any() {
        GenerateView::Fail("ProverVersion error"@)
    } else {
        match (outside.context)(task) {
            Err(message) => GenerateView::Fail(
                "Failed to serialize GenerateTask context: "@ + message,
            ),
            Ok(_) => match outside.insert {
                Err(message) => GenerateView::Fail(
                    "Failed to insert task into database: "@ + message,
                ),
                Ok(_) => match outside.enqueue {
                    Err(message) => GenerateView::Fail(
                        "Failed to send task to queue: "@ + message,
                    ),
                    Ok(_) => GenerateView::Reply(acceptance(accepted)),
                },
            },
        }
    }
}

/// What a request comes to.
pub open spec fn outcome<'a>(job: Job<'a>, rule: SegSizeRule, outside: Outside) -> GenerateView<
    'a,
> {
    let id = job.request.proof_id@;
    let accepted = accepted_of(job, outside);
    match early_refusal(job, rule, outside) {
        Some(message) => GenerateView::Reply(refusal(id, message)),
        None => match first_failure(outside.file, request_ops(job, outside).len()) {
            Some(message) => GenerateView::Fail(message),
            None => if receipts_missing(job, accepted.from_step) {
                GenerateView::Reply(refusal(id, "receipt_inputs should not empty"@))
            } else {
                recorded(accepted, task_of(accepted, program_id(job), program_path(job)), outside)
            },
        },
    }
}

/// Is there nothing left to ask?
pub open spec fn is_final(state: GenerateView) -> bool {
    state is Reply || state is Fail
}

proof fn lemma_final_stays(state: GenerateView, outside: Outside, n: nat)
    requires
        is_final(state),
    ensures
        driven(state, outside, n) == state,
    decreases n,
{
    if n > 0 {
        lemma_final_stays(state, outside, (n - 1) as nat);
    }
}

/// What comes of the files, and of what follows them.
proof fn lemma_files_driven<'a>(
    accepted: AcceptedView<'a>,
    elf_id: Seq<char>,
    elf_path: Seq<char>,
    ops: Seq<FileOpView>,
    outside: Outside,
    n: nat,
)
    requires
        ops.len() > 0,
        n >= ops.len() + 3,
    ensures
        driven(GenerateView::Perform { accepted, elf_id, elf_path, ops }, outside, n) == (
        match first_failure(outside.file, ops.len()) {
            Some(message) => GenerateView::Fail(message),
            None => if receipts_missing(accepted.job, accepted.from_step) {
                GenerateView::Reply(
                    refusal(accepted.job.request.proof_id@, "receipt_inputs should not empty"@),
                )
            } else {
                recorded(accepted, task_of(accepted, elf_id, elf_path), outside)
            },
        }),
    decreases ops.len(),
{
    let state = GenerateView::Perform { accepted, elf_id, elf_path, ops };
    let next = answered(state, outside);
    let m = (n - 1) as nat;
    assert(driven(state, outside, n) == driven(next, outside, m));
    match (outside.file)(ops.len()) {
        Err(message) => {
            lemma_final_stays(next, outside, m);
        },
        Ok(_) => {
            if ops.len() > 1 {
                lemma_files_driven(accepted, elf_id, elf_path, ops.skip(1), outside, m);
            } else {
                assert(first_failure(outside.file, 0) is None);
                if receipts_missing(accepted.job, accepted.from_step)
                    || !accepted.job.build.any() {
                    lemma_final_stays(next, outside, m);
                } else {
                    let second = answered(next, outside);
                    let third = answered(second, outside);
                    let fourth = answered(third, outside);
                    let k = (m - 3) as nat;
                    assert(driven(next, outside, m) == driven(second, outside, (m - 1) as nat));
                    assert(driven(second, outside, (m - 1) as nat) == driven(
                        third,
                        outside,
                        (m - 2) as nat,
                    ));
                    assert(driven(third, outside, (m - 2) as nat) == driven(fourth, outside, k));
                    assert(is_final(fourth));
                    lemma_final_stays(fourth, outside, k);
                }
            }
        },
    }
}

/// A request that passed the first checks has files to write.
proof fn lemma_ops_nonempty(job: Job, outside: Outside)
    ensures
        request_ops(job, outside).len() > 0,
{
}

/// Every request is answered, and how is settled by the first check that fails:
/// a refused request is told so with an invalid parameter and that check's
/// message, a file operation, a row or a queue that fails fails the request with
/// its message, and every other request is accepted.
pub proof fn law_every_request_is_answered(job: Job, rule: SegSizeRule, outside: Outside, n: nat)
    requires
        n >= request_ops(job, outside).len() + 5,
    ensures
        is_final(outcome(job, rule, outside)),
        driven(begun(job, rule), outside, n) == outcome(job, rule, outside),
{
    lemma_ops_nonempty(job, outside);
    let first = begun(job, rule);
    if is_final(first) {
        lemma_final_stays(first, outside, n);
    } else {
        let second = answered(first, outside);
        let m = (n - 1) as nat;
        assert(driven(first, outside, n) == driven(second, outside, m));
        if is_final(second) {
            lemma_final_stays(second, outside, m);
        } else if second is Perform {
            lemma_files_driven(
                accepted_of(job, outside),
                program_id(job),
                program_path(job),
                request_ops(job, outside),
                outside,
                m,
            );
        } else {
            assert(second is ProbeElf);
            let third = answered(second, outside);
            let k = (m - 1) as nat;
            assert(driven(second, outside, m) == driven(third, outside, k));
            if is_final(third) {
                lemma_final_stays(third, outside, k);
            } else {
                lemma_files_driven(
                    accepted_of(job, outside),
                    program_id(job),
                    program_path(job),
                    request_ops(job, outside),
                    outside,
                    k,
                );
            }
        }
    }
}

/// A request that is turned down by the first checks touches nothing: no file is
/// written, no row added and nothing queued on its account.
pub proof fn law_early_refusal_touches_nothing(
    job: Job,
    rule: SegSizeRule,
    outside: Outside,
    n: nat,
)
    requires
        early_refusal(job, rule, outside) is Some,
    ensures
        ({
            let state = driven(begun(job, rule), outside, n);
            state is LookupUser || state is ProbeElf || state is Reply
        }),
{
    let first = begun(job, rule);
    if is_final(first) {
        lemma_final_stays(first, outside, n);
    } else if n > 0 {
        let second = answered(first, outside);
        let m = (n - 1) as nat;
        if is_final(second) {
            lemma_final_stays(second, outside, m);
        } else if m > 0 {
            let third = answered(second, outside);
            lemma_final_stays(third, outside, (m - 1) as nat);
        }
    }
}

/// Is a row added or a task queued in this state, or is either prepared?
pub open spec fn records(state: GenerateView) -> bool {
    state is SerializeContext || state is InsertTask || state is Enqueue
}

/// A request without the receipts to aggregate, or one that no generation of provers can
/// work on, is never recorded.
proof fn lemma_unrecorded_driven<'a>(
    accepted: AcceptedView<'a>,
    elf_id: Seq<char>,
    elf_path: Seq<char>,
    ops: Seq<FileOpView>,
    outside: Outside,
    n: nat,
)
    requires
        receipts_missing(accepted.job, accepted.from_step) || !accepted.job.build.any(),
    ensures
        !records(driven(GenerateView::Perform { accepted, elf_id, elf_path, ops }, outside, n)),
    decreases n,
{
    if n > 0 {
        let state = GenerateView::Perform { accepted, elf_id, elf_path, ops };
        let next = answered(state, outside);
        let m = (n - 1) as nat;
        if next is Perform {
            lemma_unrecorded_driven(accepted, elf_id, elf_path, ops.skip(1), outside, m);
        } else {
            lemma_final_stays(next, outside, m);
        }
    }
}

/// A request that is turned down, whether by the first checks or because its receipts
/// are missing, is never recorded: no row is added and nothing is queued on its account.
pub proof fn law_refused_request_is_not_recorded(
    job: Job,
    rule: SegSizeRule,
    outside: Outside,
    n: nat,
)
    requires
        outcome(job, rule, outside) matches GenerateView::Reply(reply) && reply.status
            == Status::InvalidParameter,
    ensures
        !records(driven(begun(job, rule), outside, n)),
{
    if early_refusal(job, rule, outside) is Some {
        law_early_refusal_touches_nothing(job, rule, outside, n);
    } else if n > 0 {
        let accepted = accepted_of(job, outside);
        let first = begun(job, rule);
        let second = answered(first, outside);
        let m = (n - 1) as nat;
        assert(driven(first, outside, n) == driven(second, outside, m));
        assert(receipts_missing(job, accepted.from_step));
        lemma_unrecorded_driven(
            accepted,
            program_id(job),
            program_path(job),
            request_ops(job, outside),
            outside,
            m,
        );
    }
}

/// A service without any generation of provers fails every request that passes all checks
/// and whose files are written, and never records one.
pub proof fn law_no_provers_no_task(job: Job, rule: SegSizeRule, outside: Outside, n: nat)
    requires
        !job.build.any(),
    ensures
        !records(driven(begun(job, rule), outside, n)),
        early_refusal(job, rule, outside) is None && first_failure(
            outside.file,
            request_ops(job, outside).len(),
        ) is None && !receipts_missing(job, asked_from(*job.request)) ==> outcome(
            job,
            rule,
            outside,
        ) == GenerateView::Fail("ProverVersion error"@),
{
    let first = begun(job, rule);
    if early_refusal(job, rule, outside) is Some {
        law_early_refusal_touches_nothing(job, rule, outside, n);
    } else if n > 0 {
        let second = answered(first, outside);
        let m = (n - 1) as nat;
        let accepted = accepted_of(job, outside);
        assert(driven(first, outside, n) == driven(second, outside, m));
        if second is Perform {
            lemma_unrecorded_driven(
                accepted,
                program_id(job),
                program_path(job),
                request_ops(job, outside),
                outside,
                m,
            );
        } else if m > 0 {
            assert(driven(second, outside, m) == driven(
                answered(second, outside),
                outside,
                (m - 1) as nat,
            ));
            lemma_unrecorded_driven(
                accepted,
                program_id(job),
                program_path(job),
                request_ops(job, outside),
                outside,
                (m - 1) as nat,
            );
        }
    }
}

/// The states after the files are written, where all goes well.
proof fn lemma_recording<'a>(
    accepted: AcceptedView<'a>,
    elf_id: Seq<char>,
    elf_path: Seq<char>,
    ops: Seq<FileOpView>,
    outside: Outside,
)
    requires
        ops.len() > 0,
        first_failure(outside.file, ops.len()) is None,
        !receipts_missing(accepted.job, accepted.from_step),
        accepted.job.build.any(),
    ensures
        driven(GenerateView::Perform { accepted, elf_id, elf_path, ops }, outside, ops.len())
            == (GenerateView::SerializeContext {
            accepted,
            task: task_of(accepted, elf_id, elf_path),
        }),
    decreases ops.len(),
{
    let state = GenerateView::Perform { accepted, elf_id, elf_path, ops };
    let next = answered(state, outside);
    let m = (ops.len() - 1) as nat;
    assert(driven(state, outside, ops.len()) == driven(next, outside, m));
    assert((outside.file)(ops.len()) is Ok);
    if ops.len() > 1 {
        lemma_recording(accepted, elf_id, elf_path, ops.skip(1), outside);
    } else {
        assert(driven(next, outside, 0) == next);
    }
}

proof fn lemma_driven_in_two<'a>(state: GenerateView<'a>, outside: Outside, a: nat, b: nat)
    ensures
        driven(state, outside, a + b) == driven(driven(state, outside, a), outside, b),
    decreases a,
{
    if a > 0 {
        lemma_driven_in_two(answered(state, outside), outside, (a - 1) as nat, b);
    }
}

/// How many answers it takes until the row of a request is to be added.
pub open spec fn until_insert(job: Job, outside: Outside) -> nat {
    request_ops(job, outside).len() + if asked_from(*job.request) == Step::Init {
        3nat
    } else {
        2nat
    }
}

/// An accepted request is recorded before it is answered: the row that is added and the
/// task that is queued are about its proof, computing, under the first user found, and
/// both hold the same text of its task.
pub proof fn law_accepted_request_is_recorded(
    job: Job,
    rule: SegSizeRule,
    outside: Outside,
    computing: i32,
    zero_step: Step,
    queued: StageTask,
)
    requires
        outcome(job, rule, outside) matches GenerateView::Reply(reply) && reply.status
            == Status::Computing,
    ensures
        ({
            let accepted = accepted_of(job, outside);
            let task = task_of(accepted, program_id(job), program_path(job));
            let context = (outside.context)(task)->Ok_0;
            let k = until_insert(job, outside);
            let first = begun(job, rule);
            &&& (outside.context)(task) is Ok
            &&& driven(first, outside, k) == (GenerateView::InsertTask { accepted, context })
            &&& driven(first, outside, k + 1) == (GenerateView::Enqueue { accepted, context })
            &&& driven(first, outside, k + 2) == outcome(job, rule, outside)
            &&& new_row(accepted, context) == (NewRowView {
                proof_id: job.request.proof_id@,
                user_address: outside.users[0],
                status: Status::Computing,
                context,
            })
            &&& is_queued_for(queued, accepted, context, computing, zero_step) ==> {
                &&& queued.id@ == job.request.proof_id@
                &&& queued.status.meaning == Status::Computing
                &&& queued.context->0@ == context
            }
        }),
{
    let accepted = accepted_of(job, outside);
    let ops = request_ops(job, outside);
    let task = task_of(accepted, program_id(job), program_path(job));
    let context = (outside.context)(task)->Ok_0;
    let perform = GenerateView::Perform {
        accepted,
        elf_id: program_id(job),
        elf_path: program_path(job),
        ops,
    };
    lemma_ops_nonempty(job, outside);
    let first = begun(job, rule);
    let before = if asked_from(*job.request) == Step::Init {
        2nat
    } else {
        1nat
    };
    reveal_with_fuel(driven, 3);
    assert(driven(first, outside, before) == perform);
    lemma_recording(accepted, program_id(job), program_path(job), ops, outside);
    lemma_driven_in_two(first, outside, before, ops.len());
    let written = before + ops.len();
    let insert = GenerateView::InsertTask { accepted, context };
    let enqueue = GenerateView::Enqueue { accepted, context };
    assert(driven(first, outside, written) == (GenerateView::SerializeContext { accepted, task }));
    lemma_driven_in_two(first, outside, written, 1);
    assert(driven(first, outside, written + 1) == insert);
    lemma_driven_in_two(first, outside, written + 1, 1);
    assert(driven(first, outside, written + 2) == enqueue);
    lemma_driven_in_two(first, outside, written + 2, 1);
}

/// Every reply is about the proof that was asked for, and says either that it is
/// being computed or that a parameter is invalid. It is being computed exactly
/// if no check failed and everything outside went well.
pub proof fn law_reply_status(job: Job, rule: SegSizeRule, outside: Outside)
    ensures
        outcome(job, rule, outside) matches GenerateView::Reply(reply) ==> {
            &&& reply.proof_id == job.request.proof_id@
            &&& reply.status == Status::Computing || reply.status == Status::InvalidParameter
        },
        (outcome(job, rule, outside) matches GenerateView::Reply(reply) && reply.status
            == Status::Computing) <==> {
            let accepted = accepted_of(job, outside);
            let task = task_of(accepted, program_id(job), program_path(job));
            &&& early_refusal(job, rule, outside) is None
            &&& first_failure(outside.file, request_ops(job, outside).len()) is None
            &&& !receipts_missing(job, accepted.from_step)
            &&& job.build.any()
            &&& (outside.context)(task) is Ok
            &&& outside.insert is Ok
            &&& outside.enqueue is Ok
        },
{
}

/// Writes inside a directory inside `base`.
proof fn lemma_write_block_under(base: Seq<char>, dir: Seq<char>, job: Job)
    requires
        under(base, dir),
    ensures
        forall|i: int|
            0 <= i < write_block(dir, job.request.block_data@).len() ==> under(
                base,
                (#[trigger] write_block(dir, job.request.block_data@)[i]).path(),
            ),
{
    let ops = write_block(dir, job.request.block_data@);
    assert forall|i: int| 0 <= i < ops.len() implies under(base, (#[trigger] ops[i]).path()) by {
        lemma_joined_stays_under(base, dir, job.request.block_data@[i].file_name@);
    }
}

/// Are all paths of `ops` inside `base`?
pub open spec fn all_under(base: Seq<char>, ops: Seq<FileOpView>) -> bool {
    forall|i: int| 0 <= i < ops.len() ==> under(base, (#[trigger] ops[i]).path())
}

proof fn lemma_all_under_concat(base: Seq<char>, a: Seq<FileOpView>, b: Seq<FileOpView>)
    requires
        all_under(base, a),
        all_under(base, b),
    ensures
        all_under(base, a + b),
{
    let ops = a + b;
    assert forall|i: int| 0 <= i < ops.len() implies under(base, (#[trigger] ops[i]).path()) by {
        if i < a.len() {
            assert(ops[i] == a[i]);
        } else {
            assert(ops[i] == b[i - a.len()]);
        }
    }
}

proof fn lemma_inputs_under(job: Job)
    ensures
        all_under(job.config.base_dir@, input_ops(job)),
{
    let base = job.config.base_dir@;
    let request = job.request;
    let dir = job_dir(job);
    lemma_joined_under(base, "proof"@);
    lemma_joined_stays_under(base, joined(base, "proof"@), request.proof_id@);
    let block_no = crate::generate::asked_block(*request);
    let block = block_dir(dir, block_no);
    lemma_joined_stays_under(base, dir, "0_"@ + crate::text::decimal(block_no as nat));
    let inputs = joined(dir, "input_stream"@);
    lemma_joined_stays_under(base, dir, "input_stream"@);
    lemma_joined_stays_under(base, inputs, "public_input"@);
    lemma_joined_stays_under(base, inputs, "private_input"@);
    lemma_write_block_under(base, block, job);
    let a = seq![FileOpView::CreateDir { path: dir }, FileOpView::CreateDir { path: block }];
    let b = write_block(block, request.block_data@);
    let c = seq![FileOpView::CreateDir { path: inputs }];
    let d = write_nonempty(joined(inputs, "public_input"@), request.public_input_stream@);
    let e = write_nonempty(joined(inputs, "private_input"@), request.private_input_stream@);
    lemma_all_under_concat(base, a, b);
    lemma_all_under_concat(base, a + b, c);
    lemma_all_under_concat(base, a + b + c, d);
    lemma_all_under_concat(base, a + b + c + d, e);
}

proof fn lemma_outputs_under(job: Job, from_step: Step)
    ensures
        all_under(job.config.base_dir@, output_ops(job, from_step)),
{
    let base = job.config.base_dir@;
    let request = job.request;
    let dir = job_dir(job);
    lemma_joined_under(base, "proof"@);
    lemma_joined_stays_under(base, joined(base, "proof"@), request.proof_id@);
    let inputs = joined(dir, "input_stream"@);
    let wrap = joined(dir, "wrap"@);
    lemma_joined_stays_under(base, dir, "input_stream"@);
    lemma_joined_stays_under(base, inputs, "receipt_inputs"@);
    lemma_joined_stays_under(base, inputs, "receipts"@);
    lemma_joined_stays_under(base, dir, "output_stream"@);
    lemma_joined_stays_under(base, dir, "segment"@);
    lemma_joined_stays_under(base, dir, "prove"@);
    lemma_joined_stays_under(base, joined(dir, "prove"@), "receipt"@);
    lemma_joined_stays_under(base, dir, "wrap"@);
    lemma_joined_stays_under(base, wrap, "public_values."@ + job.build.ending());
    lemma_joined_stays_under(base, dir, "snark"@);
    let a = write_list(joined(inputs, "receipt_inputs"@), request.receipt_inputs@);
    let b = write_list(joined(inputs, "receipts"@), request.receipts@);
    let c = seq![
        FileOpView::CreateDir { path: joined(dir, "output_stream"@) },
        FileOpView::CreateDir { path: joined(dir, "segment"@) },
        FileOpView::CreateDir { path: joined(joined(dir, "prove"@), "receipt"@) },
        FileOpView::CreateDir { path: wrap },
    ];
    let d = if from_step == Step::Agg && job.build.any() {
        seq![
            FileOpView::Write {
                path: public_values_file(wrap, job.build),
                content: Seq::<u8>::empty(),
            },
        ]
    } else {
        Seq::empty()
    };
    let e = seq![FileOpView::CreateDir { path: joined(dir, "snark"@) }];
    lemma_all_under_concat(base, a, b);
    lemma_all_under_concat(base, a + b, c);
    lemma_all_under_concat(base, a + b + c, d);
    lemma_all_under_concat(base, a + b + c + d, e);
}

/// Whatever a request writes, the text of its path begins with the base
/// directory of the service.
pub proof fn law_writes_stay_under_base(job: Job, outside: Outside)
    ensures
        all_under(job.config.base_dir@, request_ops(job, outside)),
{
    let base = job.config.base_dir@;
    let program_ops = if asked_from(*job.request) == Step::Init && job.request.elf_data@.len() > 0
        && !outside.elf_present {
        seq![FileOpView::Write { path: program_path(job), content: job.request.elf_data@ }]
    } else {
        Seq::empty()
    };
    lemma_joined_under(base, "elf"@);
    lemma_joined_stays_under(base, elf_dir(base), program_id(job));
    assert(all_under(base, program_ops));
    lemma_inputs_under(job);
    lemma_outputs_under(job, asked_from(*job.request));
    lemma_all_under_concat(base, program_ops, input_ops(job));
    let tail = if receipts_missing(job, asked_from(*job.request)) {
        Seq::<FileOpView>::empty()
    } else {
        output_ops(job, asked_from(*job.request))
    };
    lemma_all_under_concat(base, program_ops + input_ops(job), tail);
}

/// The workers find what was sent: the files that the task of a request names
/// for its receipts were written, and hold exactly those receipts.
pub proof fn law_receipts_reach_the_workers(job: Job, outside: Outside)
    requires
        !receipts_missing(job, asked_from(*job.request)),
    ensures
        ({
            let task = task_of(
                accepted_of(job, outside),
                program_id(job),
                program_path(job),
            );
            let ops = request_ops(job, outside);
            &&& job.request.receipt_inputs@.len() > 0 ==> exists|i: int|
                0 <= i < ops.len() && holds_list(
                    #[trigger] ops[i],
                    task.receipt_inputs_path,
                    job.request.receipt_inputs@,
                )
            &&& job.request.receipts@.len() > 0 ==> exists|i: int|
                0 <= i < ops.len() && holds_list(
                    #[trigger] ops[i],
                    task.receipts_path,
                    job.request.receipts@,
                )
        }),
{
    let request = job.request;
    let from_step = asked_from(*request);
    let dir = job_dir(job);
    let inputs = joined(dir, "input_stream"@);
    let ops = request_ops(job, outside);
    let tail = output_ops(job, from_step);
    let start = ops.len() - tail.len();
    let a = write_list(joined(inputs, "receipt_inputs"@), request.receipt_inputs@);
    let b = write_list(joined(inputs, "receipts"@), request.receipts@);
    assert(ops.skip(start) =~= tail);
    if request.receipt_inputs@.len() > 0 {
        assert(request.receipt_inputs.len() <= usize::MAX);
        law_vectors_storable(request.receipt_inputs@);
        law_list_round_trip(chunk_views(request.receipt_inputs@), Seq::empty());
        assert(tail[0] == a[0]);
        assert(ops[start] == a[0]);
        assert(holds_list(
            ops[start],
            joined(inputs, "receipt_inputs"@),
            request.receipt_inputs@,
        ));
    }
    if request.receipts@.len() > 0 {
        assert(request.receipts.len() <= usize::MAX);
        law_vectors_storable(request.receipts@);
        law_list_round_trip(chunk_views(request.receipts@), Seq::empty());
        let k = start + a.len();
        assert(tail[a.len() as int] == b[0]);
        assert(ops[k] == ops.skip(start)[a.len() as int]);
        assert(holds_list(ops[k], joined(inputs, "receipts"@), request.receipts@));
    }
}

/// Does `op` write a file at `path` from which `chunks` are read back?
pub open spec fn holds_list(op: FileOpView, path: Seq<char>, chunks: Seq<Vec<u8>>) -> bool {
    &&& op is Write
    &&& op->Write_path == path
    &&& read_list(op->content) == Some(chunk_views(chunks))
}

/// A program that was sent once can be asked for by its identity, with or
/// without `0x` in front: the same file is looked for.
pub proof fn law_program_found_by_identity<'a>(sent: Job<'a>, asked: Job<'a>)
    requires
        asked_from(*sent.request) == Step::Init,
        sent.request.elf_data@.len() > 0,
        asked_from(*asked.request) == Step::Init,
        asked.request.elf_data@.len() == 0,
        asked.request.elf_id is Some,
        asked.config.base_dir@ == sent.config.base_dir@,
        asked.request.elf_id->0@ == program_id(sent) || asked.request.elf_id->0@ == "0x"@
            + program_id(sent),
    ensures
        program_path(asked) == program_path(sent),
{
    let id = program_id(sent);
    let digest = crate::digest::sha256(sent.request.elf_data@);
    let given = asked.request.elf_id->0@;
    reveal_strlit("0x");
    if given == id {
        if id.len() >= 2 {
            let d = (digest[0] % 16) as nat;
            assert(id[1] == crate::text::hex_digit(d));
            assert(id[1] != 'x');
        }
        assert(without_0x(given) == id);
    } else {
        assert(given[0] == '0' && given[1] == 'x');
        assert(given.skip(2) =~= id);
    }
}

} // verus!
