//! What holds between a request, the run of its task and what is said about it later.
use crate::generate::{acceptance, is_queued_for, prover_limit, task_of, AcceptedView};
use crate::protocol::{GenerateProofRequest, GenerateTask, StageTask, Status, Step};
use crate::service::{known_reply, FoundTask, StageServiceSVC, StatusContents};
use crate::worker::{
    finalization, run_begun, run_of, RunView, StageSnapshot, StageView, UpdateView,
};
use vstd::prelude::*;
use vstd::utf8::{decode_utf8_encode_utf8, valid_utf8};

verus! {

/// Where the results of an accepted proof will be is told alike by the reply
/// that accepts it and by every later reply about it, unless it is a composite
/// proof.
pub proof fn law_addresses_agree<'a>(
    service: &'a StageServiceSVC,
    request: &'a GenerateProofRequest,
    accepted: AcceptedView<'a>,
    elf_id: Seq<char>,
    elf_path: Seq<char>,
    found: FoundTask,
    contents: StatusContents,
)
    requires
        accepted.job == service.job(request),
        !request.composite_proof,
        found.context is Some,
        found.context->0@ == task_of(accepted, elf_id, elf_path),
    ensures
        ({
            let later = known_reply(*service, request.proof_id@, found, contents);
            let first = acceptance(accepted);
            &&& later.snark_proof_url == first.snark_proof_url
            &&& later.stark_proof_url == first.stark_proof_url
            &&& later.public_values_url == first.public_values_url
        }),
{
}

/// The run of an accepted request is about its proof, stops at its target, uses as many
/// provers as it may, and reads the proof from the file of its task. It is made by one
/// prover exactly if the request says so.
pub proof fn law_run_follows_its_request(
    accepted: AcceptedView,
    elf_id: Seq<char>,
    elf_path: Seq<char>,
    task: StageTask,
    context: GenerateTask,
    fresh_id: Seq<char>,
)
    requires
        context@ == task_of(accepted, elf_id, elf_path),
        task.id@ == accepted.job.request.proof_id@,
        task.context is Some,
    ensures
        ({
            let run = run_of(task, context);
            let first = run_begun(task, Some(context), fresh_id);
            &&& run.id == accepted.job.request.proof_id@
            &&& run.target_step == accepted.target_step
            &&& run.max_prover_num == prover_limit(accepted.job)
            &&& run.snark_path == task_of(accepted, elf_id, elf_path).snark_path
            &&& (first == StageView::Start { run }) <==> !accepted.job.request.single_node
            &&& first is SingleNode ==> accepted.job.request.single_node
        }),
{
}

/// What is queued for an accepted request is begun: on all provers, or, where the step
/// with the number zero is the first, on the one that the request asks for. Its row is
/// taken for untouched.
pub proof fn law_queued_request_is_begun(
    accepted: AcceptedView,
    elf_id: Seq<char>,
    elf_path: Seq<char>,
    text: Seq<char>,
    computing: i32,
    zero_step: Step,
    queued: StageTask,
    context: GenerateTask,
    fresh_id: Seq<char>,
)
    requires
        is_queued_for(queued, accepted, text, computing, zero_step),
        context@ == task_of(accepted, elf_id, elf_path),
    ensures
        ({
            let run = run_of(queued, context);
            let first = run_begun(queued, Some(context), fresh_id);
            &&& run.id == accepted.job.request.proof_id@
            &&& run.recorded_at == 0
            &&& !accepted.job.request.single_node ==> first == StageView::Start { run }
            &&& accepted.job.request.single_node && zero_step == Step::Init ==> first == (
            StageView::SingleNode { run, task_id: fresh_id, old_check_at: 0 })
        }),
{
}

/// A proof is handed out as it was made: the bytes that a successful run ends with are
/// what the reply about it holds, where it holds the result of its row.
pub proof fn law_proof_is_handed_out_as_made(
    run: RunView,
    snapshot: StageSnapshot,
    duration: u64,
    made: Seq<u8>,
    service: StageServiceSVC,
    found: FoundTask,
    contents: StatusContents,
)
    requires
        snapshot.success && !snapshot.error,
        valid_utf8(made),
        found.published(),
        !found.proof_in_file(),
        found.task.result is Some,
        finalization(run, snapshot, duration, made).last() == (UpdateView::Finish {
            id: run.id,
            status: Status::Success,
            result: found.task.result->0@,
        }),
    ensures
        known_reply(service, run.id, found, contents).proof_with_public_inputs == made,
{
    decode_utf8_encode_utf8(made);
}

} // verus!
