//! What a request is answered, what is written of it and what its task says, each in terms
//! of what was asked.
use crate::codec::{chunk_views, stored_list};
use crate::digest::elf_identity;
use crate::generate::{
    admitted, asked_block, asked_from, context_answered, elf_answered, enqueue_answered,
    file_answered, insert_answered, is_queued_for, job_dir, job_signer, new_row, op_views, task_of,
    user_answered, write_block, write_list, write_nonempty, AcceptedView, FileOp, FileOpView,
    GenerateView, Job, SegSizeRule,
};
use crate::intake_laws::{accepted_of, program_id, program_path, request_ops, Outside};
use crate::layout::{
    block_dir, law_addresses_of_results, law_places_on_disk, public_values_file,
};
use crate::protocol::{
    law_generations, Build, GenerateProofRequest, GenerateTaskView, ProverVersion, StageTask,
    Status, Step,
};
use crate::signature::{signed_chars, signer_of, SignatureFault};
use crate::text::{decimal, joined, law_one_0x_is_stripped, law_path_holds_its_parts};
use vstd::prelude::*;

verus! {

// ---------------------------------------------------------------------------
// The checks
// ---------------------------------------------------------------------------

/// Is the request told that a parameter is invalid, with this message and nothing else?
pub open spec fn told(state: GenerateView, request: &GenerateProofRequest, message: Seq<char>) -> bool {
    state matches GenerateView::Reply(reply) && {
        &&& reply.proof_id == request.proof_id@
        &&& reply.status == Status::InvalidParameter
        &&& reply.error_message == message
        &&& reply.snark_proof_url.len() == 0
        &&& reply.stark_proof_url.len() == 0
        &&& reply.public_values_url.len() == 0
    }
}

/// A segment size that the provers refuse turns a request down exactly where the first
/// generation is built in and the proof is no composite one; a missing signer turns every
/// other request down; and then the user who signed is looked up.
pub proof fn law_first_checks(
    job: Job,
    rule: SegSizeRule,
    signer: Result<Seq<char>, SignatureFault>,
)
    ensures
        ({
            let state = admitted(job, rule, signer);
            let minds = job.build == Build::Prover || job.build == Build::Both;
            let refused = minds && !job.request.composite_proof && !rule.valid;
            &&& refused ==> told(
                state,
                job.request,
                "invalid seg_size support ["@ + decimal(rule.min as nat) + "-"@ + decimal(
                    rule.max as nat,
                ) + "]"@,
            )
            &&& !refused && signer is Err ==> told(state, job.request, "invalid signature"@)
            &&& !refused && signer is Ok ==> state == (GenerateView::LookupUser {
                job,
                address: signer->Ok_0,
            })
        }),
{
}

/// The signer of a request is who signed its proof, its block and its segment size with its
/// signature.
pub proof fn law_signer_of_a_request(job: Job)
    ensures
        job_signer(job) == signer_of(
            job.request.signature@,
            signed_chars(job.request.proof_id@, job.request.block_no, job.request.seg_size),
        ),
{
}

/// A request of an unknown user is turned down; so is one that starts at another step than
/// the first and the aggregation, or stops at another than the split, the aggregation and
/// the SNARK; so is one from the first step on that neither brings a program nor names one.
/// Every other goes on: from the first step on to the file of its program, from the
/// aggregation on to its files.
pub proof fn law_checks_on_user_and_steps<'a>(job: Job<'a>, users: Seq<Seq<char>>)
    ensures
        ({
            let state = user_answered(job, users);
            let request = job.request;
            let from = request.from_step;
            let target = request.target_step;
            let starts = from is None || from == Some(Step::Init) || from == Some(Step::Agg);
            let stops = target is None || target == Some(Step::Split) || target == Some(Step::Agg)
                || target == Some(Step::Snark);
            let nameless = request.elf_data@.len() == 0 && request.elf_id is None;
            &&& users.len() == 0 ==> told(state, request, "permission denied"@)
            &&& users.len() > 0 && !starts ==> told(
                state,
                request,
                "invalid FromStep, only Support Init and Agg"@,
            )
            &&& users.len() > 0 && starts && !stops ==> told(
                state,
                request,
                "invalid TargetStep, only Support Split, Agg and Snark"@,
            )
            &&& users.len() > 0 && starts && stops && from != Some(Step::Agg) && nameless ==> told(
                state,
                request,
                "elf_data or elf_id should not be empty"@,
            )
            &&& users.len() > 0 && starts && stops && from != Some(Step::Agg) && !nameless ==> {
                &&& state is ProbeElf
                &&& is_accepted_for(state->ProbeElf_accepted, job, users[0])
                &&& state->ProbeElf_provided <==> request.elf_data@.len() > 0
            }
            &&& users.len() > 0 && starts && stops && from == Some(Step::Agg) ==> {
                &&& state is Perform
                &&& is_accepted_for(state->Perform_accepted, job, users[0])
                &&& state->Perform_elf_id.len() == 0
                &&& state->Perform_elf_path.len() == 0
            }
        }),
{
}

/// Is this the request of a job, accepted for a user, with the steps that it asks for?
pub open spec fn is_accepted_for(accepted: AcceptedView, job: Job, user: Seq<char>) -> bool {
    let request = job.request;
    &&& accepted.job == job
    &&& accepted.user_address == user
    &&& request.from_step matches Some(step) ==> accepted.from_step == step
    &&& request.from_step is None ==> accepted.from_step == Step::Init
    &&& request.target_step matches Some(step) ==> accepted.target_step == step
    &&& request.target_step is None ==> accepted.target_step == Step::Snark
}

/// The file of a program is looked for in the directory of programs: one that was brought
/// under its identity, one that was only named under its name, without a `0x` in front.
pub proof fn law_file_of_a_program<'a>(job: Job<'a>, users: Seq<Seq<char>>, name: Seq<char>)
    ensures
        user_answered(job, users) matches GenerateView::ProbeElf {
            accepted,
            elf_id,
            elf_path,
            provided,
        } ==> {
            &&& elf_path == job.config.base_dir@ + "/elf/"@ + elf_id
            &&& job.request.elf_data@.len() > 0 ==> elf_id == elf_identity(job.request.elf_data@)
            &&& job.request.elf_data@.len() == 0 && job.request.elf_id->0@ == seq!['0', 'x']
                + name ==> elf_id == name
            &&& job.request.elf_data@.len() == 0 && !(job.request.elf_id->0@.len() >= 2
                && job.request.elf_id->0@[0] == '0' && job.request.elf_id->0@[1] == 'x')
                ==> elf_id == job.request.elf_id->0@
        },
{
    let base = job.config.base_dir@;
    law_one_0x_is_stripped(name);
    if job.request.elf_id is Some {
        law_one_0x_is_stripped(job.request.elf_id->0@);
    }
    reveal_strlit("/");
    reveal_strlit("elf");
    reveal_strlit("/elf/");
    assert(forall|id: Seq<char>| #[trigger] (base + "/"@ + "elf"@ + "/"@ + id) =~= base + "/elf/"@
        + id);
}

/// A program that is there is not written again; one that was brought and is not there is
/// written, as it is, before anything else; one that was only named and is not there turns
/// the request down.
pub proof fn law_program_is_written_once(
    accepted: AcceptedView,
    elf_id: Seq<char>,
    elf_path: Seq<char>,
    provided: bool,
)
    ensures
        ({
            let there = elf_answered(accepted, elf_id, elf_path, provided, true);
            let absent = elf_answered(accepted, elf_id, elf_path, provided, false);
            &&& there is Perform
            &&& there->Perform_accepted == accepted
            &&& there->Perform_elf_id == elf_id
            &&& there->Perform_elf_path == elf_path
            &&& !provided ==> told(absent, accepted.job.request, "elf_id not found"@)
            &&& provided ==> {
                &&& absent is Perform
                &&& absent->Perform_accepted == accepted
                &&& absent->Perform_elf_id == elf_id
                &&& absent->Perform_elf_path == elf_path
                &&& absent->ops == seq![
                    FileOpView::Write { path: elf_path, content: accepted.job.request.elf_data@ },
                ] + there->ops
            }
        }),
{
    let there = elf_answered(accepted, elf_id, elf_path, provided, true);
    let absent = elf_answered(accepted, elf_id, elf_path, provided, false);
    if provided {
        assert(absent->ops =~= seq![
            FileOpView::Write { path: elf_path, content: accepted.job.request.elf_data@ },
        ] + there->ops);
    }
}

/// The files are written one after the other, until one fails, which fails the request with
/// its message. After the last, a request from the aggregation on without receipts to
/// aggregate, or for a single node, is turned down; one that no provers can work on fails;
/// the task of every other is made.
pub proof fn law_files_are_done_in_turn(
    accepted: AcceptedView,
    elf_id: Seq<char>,
    elf_path: Seq<char>,
    ops: Seq<FileOpView>,
    message: Seq<char>,
)
    requires
        ops.len() > 0,
    ensures
        ({
            let request = accepted.job.request;
            let failed = file_answered(accepted, elf_id, elf_path, ops, Err(message));
            let done = file_answered(accepted, elf_id, elf_path, ops, Ok(()));
            let lacking = accepted.from_step == Step::Agg && (request.receipt_inputs@.len() == 0
                || request.single_node);
            &&& failed == GenerateView::Fail(message)
            &&& ops.len() > 1 ==> {
                &&& done is Perform
                &&& done->Perform_accepted == accepted
                &&& done->Perform_elf_id == elf_id
                &&& done->Perform_elf_path == elf_path
                &&& seq![ops[0]] + done->ops == ops
            }
            &&& ops.len() == 1 && lacking ==> told(
                done,
                request,
                "receipt_inputs should not empty"@,
            )
            &&& ops.len() == 1 && !lacking && accepted.job.build == Build::Neither ==> done
                == GenerateView::Fail("ProverVersion error"@)
            &&& ops.len() == 1 && !lacking && accepted.job.build != Build::Neither ==> done is SerializeContext
                && done->SerializeContext_accepted == accepted && done->task == task_of(
                accepted,
                elf_id,
                elf_path,
            )
        }),
{
    let done = file_answered(accepted, elf_id, elf_path, ops, Ok(()));
    if ops.len() > 1 {
        assert(seq![ops[0]] + done->ops =~= ops);
    }
}

/// The text of the task is what is recorded, and what is recorded is what is queued; a
/// failure on the way fails the request and says where.
pub proof fn law_same_text_is_recorded_and_queued(
    accepted: AcceptedView,
    context: Seq<char>,
    message: Seq<char>,
)
    ensures
        context_answered(accepted, Ok(context)) == (GenerateView::InsertTask {
            accepted,
            context,
        }),
        insert_answered(accepted, context, Ok(())) == (GenerateView::Enqueue {
            accepted,
            context,
        }),
        enqueue_answered(accepted, Ok(())) is Reply,
        context_answered(accepted, Err(message)) == GenerateView::Fail(
            "Failed to serialize GenerateTask context: "@ + message,
        ),
        insert_answered(accepted, context, Err(message)) == GenerateView::Fail(
            "Failed to insert task into database: "@ + message,
        ),
        enqueue_answered(accepted, Err(message)) == GenerateView::Fail(
            "Failed to send task to queue: "@ + message,
        ),
{
}

/// The row that is recorded and the task that is queued are of the request, computing and
/// with the same text, and the task is one that nobody has worked on.
pub proof fn law_row_and_queued_task(
    accepted: AcceptedView,
    context: Seq<char>,
    computing: i32,
    zero_step: Step,
    task: StageTask,
)
    ensures
        new_row(accepted, context).proof_id == accepted.job.request.proof_id@,
        new_row(accepted, context).user_address == accepted.user_address,
        new_row(accepted, context).status == Status::Computing,
        new_row(accepted, context).context == context,
        is_queued_for(task, accepted, context, computing, zero_step) <==> {
            &&& task.id@ == accepted.job.request.proof_id@
            &&& task.status.number == computing && task.status.meaning == Status::Computing
            &&& task.step.number == 0 && task.step.meaning == zero_step
            &&& task.check_at == 0
            &&& task.context is Some && task.context->0@ == context
            &&& task.result is None
        },
{
}

/// A list of things to do says each of them, in order.
pub proof fn law_list_says_each(ops: Seq<FileOp>, i: int)
    requires
        0 <= i < ops.len(),
    ensures
        op_views(ops).len() == ops.len(),
        op_views(ops)[i] == ops[i]@,
        op_views(ops)[i].path() == (match ops[i]@ {
            FileOpView::CreateDir { path } => path,
            FileOpView::Write { path, content } => path,
        }),
{
}

/// An accepted request is told that its proof is computing and where the results will be:
/// nowhere without a file server or for a split; the public values for every other target,
/// as long as there are provers; the proofs only of a SNARK, and only by the first
/// generation.
pub proof fn law_what_an_accepted_request_is_told(accepted: AcceptedView)
    ensures
        enqueue_answered(accepted, Ok(())) matches GenerateView::Reply(reply) && {
            let job = accepted.job;
            let id = job.request.proof_id@;
            let url = job.config.fileserver_url;
            let first = job.build == Build::Prover || job.build == Build::Both;
            let snark = url is Some && accepted.target_step == Step::Snark && first;
            let values = url is Some && accepted.target_step != Step::Split && job.build
                != Build::Neither;
            &&& reply.proof_id == id
            &&& reply.status == Status::Computing
            &&& reply.error_message.len() == 0
            &&& snark ==> reply.snark_proof_url == url->0@ + "/"@ + id
                + "/snark/proof_with_public_inputs.json"@
            &&& snark ==> reply.stark_proof_url == url->0@ + "/"@ + id
                + "/wrap/proof_with_public_inputs.json"@
            &&& !snark ==> reply.snark_proof_url.len() == 0 && reply.stark_proof_url.len() == 0
            &&& values && job.build == Build::Prover ==> reply.public_values_url == url->0@ + "/"@
                + id + "/wrap/public_values.json"@
            &&& values && job.build != Build::Prover ==> reply.public_values_url == url->0@ + "/"@
                + id + "/wrap/public_values.bin"@
            &&& !values ==> reply.public_values_url.len() == 0
        },
{
    let job = accepted.job;
    if job.config.fileserver_url is Some {
        law_addresses_of_results(
            job.config.fileserver_url->0@,
            job.request.proof_id@,
            job.build,
        );
    }
}

// ---------------------------------------------------------------------------
// The files
// ---------------------------------------------------------------------------

/// The directory of a proof, written out.
pub open spec fn home(job: Job) -> Seq<char> {
    job.config.base_dir@ + "/proof/"@ + job.request.proof_id@
}

/// The directory of the block of a proof, written out. A proof without a block has the block
/// zero.
pub open spec fn block_home(job: Job) -> Seq<char> {
    home(job) + "/0_"@ + decimal(
        match job.request.block_no {
            Some(block_no) => block_no as nat,
            None => 0,
        },
    )
}

/// Are the files behind the inputs written, too? They are, unless a request from the
/// aggregation on has no receipts to aggregate or is for a single node.
pub open spec fn goes_on(job: Job) -> bool {
    !(job.request.from_step == Some(Step::Agg) && (job.request.receipt_inputs@.len() == 0
        || job.request.single_node))
}

/// Is the program of a request written?
pub open spec fn brings_program(job: Job, outside: Outside) -> bool {
    &&& job.request.from_step is None || job.request.from_step == Some(Step::Init)
    &&& job.request.elf_data@.len() > 0
    &&& !outside.elf_present
}

/// Is this directory one of those that are made for a request?
pub open spec fn is_made(job: Job, path: Seq<char>) -> bool {
    ||| path == home(job)
    ||| path == block_home(job)
    ||| path == home(job) + "/input_stream"@
    ||| goes_on(job) && {
        ||| path == home(job) + "/output_stream"@
        ||| path == home(job) + "/segment"@
        ||| path == home(job) + "/prove/receipt"@
        ||| path == home(job) + "/wrap"@
        ||| path == home(job) + "/snark"@
    }
}

/// Is this one of the files of the block?
pub open spec fn is_block_file(job: Job, path: Seq<char>, content: Seq<u8>, i: int) -> bool {
    &&& 0 <= i < job.request.block_data@.len()
    &&& path == block_home(job) + "/"@ + job.request.block_data@[i].file_name@
    &&& content == job.request.block_data@[i].file_content@
}

/// Is this file, with this content, one of those that are written for a request?
pub open spec fn is_written(job: Job, outside: Outside, path: Seq<char>, content: Seq<u8>) -> bool {
    let request = job.request;
    ||| {
        &&& brings_program(job, outside)
        &&& path == job.config.base_dir@ + "/elf/"@ + elf_identity(request.elf_data@)
        &&& content == request.elf_data@
    }
    ||| exists|i: int| #[trigger] is_block_file(job, path, content, i)
    ||| {
        &&& request.public_input_stream@.len() > 0
        &&& path == home(job) + "/input_stream/public_input"@
        &&& content == request.public_input_stream@
    }
    ||| {
        &&& request.private_input_stream@.len() > 0
        &&& path == home(job) + "/input_stream/private_input"@
        &&& content == request.private_input_stream@
    }
    ||| {
        &&& goes_on(job)
        &&& request.receipt_inputs@.len() > 0
        &&& path == home(job) + "/input_stream/receipt_inputs"@
        &&& content == stored_list(chunk_views(request.receipt_inputs@))
    }
    ||| {
        &&& goes_on(job)
        &&& request.receipts@.len() > 0
        &&& path == home(job) + "/input_stream/receipts"@
        &&& content == stored_list(chunk_views(request.receipts@))
    }
    ||| {
        &&& goes_on(job)
        &&& request.from_step == Some(Step::Agg)
        &&& job.build == Build::Prover && path == home(job) + "/wrap/public_values.json"@ || (
        job.build == Build::ProverV2 || job.build == Build::Both) && path == home(job)
            + "/wrap/public_values.bin"@
        &&& content.len() == 0
    }
}

/// Is this done to the file system for a request?
pub open spec fn is_done(job: Job, outside: Outside, op: FileOpView) -> bool {
    match op {
        FileOpView::CreateDir { path } => is_made(job, path),
        FileOpView::Write { path, content } => is_written(job, outside, path, content),
    }
}

/// The paths below the directory of a proof, as they are joined.
proof fn lemma_homes(job: Job)
    ensures
        ({
            let dir = job_dir(job);
            let inputs = joined(dir, "input_stream"@);
            let wrap = joined(dir, "wrap"@);
            &&& dir == home(job)
            &&& block_dir(dir, asked_block(*job.request))
                == block_home(job)
            &&& inputs == home(job) + "/input_stream"@
            &&& joined(inputs, "public_input"@) == home(job) + "/input_stream/public_input"@
            &&& joined(inputs, "private_input"@) == home(job) + "/input_stream/private_input"@
            &&& joined(inputs, "receipt_inputs"@) == home(job) + "/input_stream/receipt_inputs"@
            &&& joined(inputs, "receipts"@) == home(job) + "/input_stream/receipts"@
            &&& joined(dir, "output_stream"@) == home(job) + "/output_stream"@
            &&& joined(joined(dir, "output_stream"@), "output_stream"@) == home(job)
                + "/output_stream/output_stream"@
            &&& joined(dir, "segment"@) == home(job) + "/segment"@
            &&& joined(dir, "prove"@) == home(job) + "/prove"@
            &&& joined(joined(dir, "prove"@), "receipt"@) == home(job) + "/prove/receipt"@
            &&& joined(dir, "aggregate"@) == home(job) + "/aggregate"@
            &&& wrap == home(job) + "/wrap"@
            &&& joined(dir, "snark"@) == home(job) + "/snark"@
            &&& joined(joined(dir, "snark"@), "proof_with_public_inputs.json"@) == home(job)
                + "/snark/proof_with_public_inputs.json"@
            &&& job.build == Build::Prover ==> public_values_file(wrap, job.build)
                == home(job) + "/wrap/public_values.json"@
            &&& job.build == Build::ProverV2 || job.build == Build::Both
                ==> public_values_file(wrap, job.build) == home(job)
                + "/wrap/public_values.bin"@
        }),
{
    let dir = job_dir(job);
    let block_no = asked_block(*job.request);
    law_places_on_disk(job.config.base_dir@, job.request.proof_id@, dir, block_no, job.build);
    law_places_on_disk(
        job.config.base_dir@,
        job.request.proof_id@,
        joined(dir, "wrap"@),
        block_no,
        job.build,
    );
    lemma_flat(dir);
}

proof fn lemma_flat(dir: Seq<char>)
    ensures
        joined(dir, "input_stream"@) == dir + "/input_stream"@,
        joined(joined(dir, "input_stream"@), "public_input"@) == dir
            + "/input_stream/public_input"@,
        joined(joined(dir, "input_stream"@), "private_input"@) == dir
            + "/input_stream/private_input"@,
        joined(joined(dir, "input_stream"@), "receipt_inputs"@) == dir
            + "/input_stream/receipt_inputs"@,
        joined(joined(dir, "input_stream"@), "receipts"@) == dir + "/input_stream/receipts"@,
        joined(dir, "output_stream"@) == dir + "/output_stream"@,
        joined(joined(dir, "output_stream"@), "output_stream"@) == dir
            + "/output_stream/output_stream"@,
        joined(dir, "segment"@) == dir + "/segment"@,
        joined(dir, "prove"@) == dir + "/prove"@,
        joined(joined(dir, "prove"@), "receipt"@) == dir + "/prove/receipt"@,
        joined(dir, "aggregate"@) == dir + "/aggregate"@,
        joined(dir, "wrap"@) == dir + "/wrap"@,
        joined(dir, "wrap"@) + "/public_values.json"@ == dir + "/wrap/public_values.json"@,
        joined(dir, "wrap"@) + "/public_values.bin"@ == dir + "/wrap/public_values.bin"@,
        joined(dir, "snark"@) == dir + "/snark"@,
        joined(joined(dir, "snark"@), "proof_with_public_inputs.json"@) == dir
            + "/snark/proof_with_public_inputs.json"@,
{
    reveal_strlit("/");
    assert(joined(dir, "input_stream"@) =~= dir + "/input_stream"@) by {
        reveal_strlit("input_stream");
        reveal_strlit("/input_stream");
    }
    assert(joined(joined(dir, "input_stream"@), "public_input"@) =~= dir
        + "/input_stream/public_input"@) by {
        reveal_strlit("input_stream");
        reveal_strlit("public_input");
        reveal_strlit("/input_stream/public_input");
    }
    assert(joined(joined(dir, "input_stream"@), "private_input"@) =~= dir
        + "/input_stream/private_input"@) by {
        reveal_strlit("input_stream");
        reveal_strlit("private_input");
        reveal_strlit("/input_stream/private_input");
    }
    assert(joined(joined(dir, "input_stream"@), "receipt_inputs"@) =~= dir
        + "/input_stream/receipt_inputs"@) by {
        reveal_strlit("input_stream");
        reveal_strlit("receipt_inputs");
        reveal_strlit("/input_stream/receipt_inputs");
    }
    assert(joined(joined(dir, "input_stream"@), "receipts"@) =~= dir + "/input_stream/receipts"@)
        by {
        reveal_strlit("input_stream");
        reveal_strlit("receipts");
        reveal_strlit("/input_stream/receipts");
    }
    assert(joined(dir, "output_stream"@) =~= dir + "/output_stream"@) by {
        reveal_strlit("output_stream");
        reveal_strlit("/output_stream");
    }
    assert(joined(joined(dir, "output_stream"@), "output_stream"@) =~= dir
        + "/output_stream/output_stream"@) by {
        reveal_strlit("output_stream");
        reveal_strlit("/output_stream/output_stream");
    }
    assert(joined(dir, "segment"@) =~= dir + "/segment"@) by {
        reveal_strlit("segment");
        reveal_strlit("/segment");
    }
    assert(joined(dir, "prove"@) =~= dir + "/prove"@) by {
        reveal_strlit("prove");
        reveal_strlit("/prove");
    }
    assert(joined(joined(dir, "prove"@), "receipt"@) =~= dir + "/prove/receipt"@) by {
        reveal_strlit("prove");
        reveal_strlit("receipt");
        reveal_strlit("/prove/receipt");
    }
    assert(joined(dir, "aggregate"@) =~= dir + "/aggregate"@) by {
        reveal_strlit("aggregate");
        reveal_strlit("/aggregate");
    }
    assert(joined(dir, "wrap"@) =~= dir + "/wrap"@) by {
        reveal_strlit("wrap");
        reveal_strlit("/wrap");
    }
    assert(joined(dir, "wrap"@) + "/public_values.json"@ =~= dir + "/wrap/public_values.json"@) by {
        reveal_strlit("wrap");
        reveal_strlit("/public_values.json");
        reveal_strlit("/wrap/public_values.json");
    }
    assert(joined(dir, "wrap"@) + "/public_values.bin"@ =~= dir + "/wrap/public_values.bin"@) by {
        reveal_strlit("wrap");
        reveal_strlit("/public_values.bin");
        reveal_strlit("/wrap/public_values.bin");
    }
    assert(joined(dir, "snark"@) =~= dir + "/snark"@) by {
        reveal_strlit("snark");
        reveal_strlit("/snark");
    }
    assert(joined(joined(dir, "snark"@), "proof_with_public_inputs.json"@) =~= dir
        + "/snark/proof_with_public_inputs.json"@) by {
        reveal_strlit("snark");
        reveal_strlit("proof_with_public_inputs.json");
        reveal_strlit("/snark/proof_with_public_inputs.json");
    }
}

proof fn lemma_contains_concat(a: Seq<FileOpView>, b: Seq<FileOpView>, op: FileOpView)
    ensures
        (a + b).contains(op) <==> a.contains(op) || b.contains(op),
{
    if a.contains(op) {
        let i = choose|i: int| 0 <= i < a.len() && a[i] == op;
        assert((a + b)[i] == op);
    }
    if b.contains(op) {
        let i = choose|i: int| 0 <= i < b.len() && b[i] == op;
        assert((a + b)[a.len() + i] == op);
    }
    if (a + b).contains(op) {
        let i = choose|i: int| 0 <= i < (a + b).len() && (a + b)[i] == op;
        if i >= a.len() {
            assert(b[i - a.len()] == op);
        } else {
            assert(a[i] == op);
        }
    }
}

proof fn lemma_contains_one(one: FileOpView, op: FileOpView)
    ensures
        seq![one].contains(op) <==> op == one,
        !Seq::<FileOpView>::empty().contains(op),
{
    assert(seq![one][0] == one);
}

proof fn lemma_contains_two(x: FileOpView, y: FileOpView, op: FileOpView)
    ensures
        seq![x, y].contains(op) <==> op == x || op == y,
{
    assert(seq![x, y][0] == x);
    assert(seq![x, y][1] == y);
}

proof fn lemma_contains_four(
    w: FileOpView,
    x: FileOpView,
    y: FileOpView,
    z: FileOpView,
    op: FileOpView,
)
    ensures
        seq![w, x, y, z].contains(op) <==> op == w || op == x || op == y || op == z,
{
    let s = seq![w, x, y, z];
    assert(s[0] == w && s[1] == x && s[2] == y && s[3] == z);
}

proof fn lemma_contains_block(job: Job, dir: Seq<char>, op: FileOpView)
    requires
        dir == block_home(job),
    ensures
        write_block(dir, job.request.block_data@).contains(op) <==> match op {
            FileOpView::CreateDir { path } => false,
            FileOpView::Write { path, content } => exists|i: int| #[trigger]
                is_block_file(job, path, content, i),
        },
{
    let items = job.request.block_data@;
    let ops = write_block(dir, items);
    if ops.contains(op) {
        let i = choose|i: int| 0 <= i < ops.len() && ops[i] == op;
        law_path_holds_its_parts(dir, items[i].file_name@);
        match op {
            FileOpView::Write { path, content } => {
                assert(is_block_file(job, path, content, i));
            },
            _ => {},
        }
    }
    match op {
        FileOpView::Write { path, content } => {
            if exists|i: int| #[trigger] is_block_file(job, path, content, i) {
                let i = choose|i: int| #[trigger] is_block_file(job, path, content, i);
                assert(ops[i] == op);
            }
        },
        _ => {},
    }
}

/// Everything that is done to the file system for a request, and nothing else: its program,
/// the files of its block, its inputs and receipts, where it has them, and the directories
/// that its proof needs, all at the places that are theirs and with the bytes that were
/// sent.
pub proof fn law_files_of_a_request(job: Job, outside: Outside, op: FileOpView)
    ensures
        request_ops(job, outside).contains(op) <==> is_done(job, outside, op),
{
    let request = job.request;
    let from_step = asked_from(*request);
    let dir = job_dir(job);
    let block = block_dir(dir, asked_block(*request));
    let inputs = joined(dir, "input_stream"@);
    let wrap = joined(dir, "wrap"@);
    lemma_homes(job);
    let program: Seq<FileOpView> = if brings_program(job, outside) {
        seq![FileOpView::Write { path: program_path(job), content: request.elf_data@ }]
    } else {
        Seq::empty()
    };
    if brings_program(job, outside) {
        lemma_program_place(job);
    }
    let a = seq![FileOpView::CreateDir { path: dir }, FileOpView::CreateDir { path: block }];
    let b = write_block(block, request.block_data@);
    let c = seq![FileOpView::CreateDir { path: inputs }];
    let d = write_nonempty(joined(inputs, "public_input"@), request.public_input_stream@);
    let e = write_nonempty(joined(inputs, "private_input"@), request.private_input_stream@);
    let f = write_list(joined(inputs, "receipt_inputs"@), request.receipt_inputs@);
    let g = write_list(joined(inputs, "receipts"@), request.receipts@);
    let h = seq![
        FileOpView::CreateDir { path: joined(dir, "output_stream"@) },
        FileOpView::CreateDir { path: joined(dir, "segment"@) },
        FileOpView::CreateDir { path: joined(joined(dir, "prove"@), "receipt"@) },
        FileOpView::CreateDir { path: wrap },
    ];
    let values = FileOpView::Write {
        path: public_values_file(wrap, job.build),
        content: Seq::<u8>::empty(),
    };
    let k: Seq<FileOpView> = if from_step == Step::Agg && job.build.any() {
        seq![values]
    } else {
        Seq::empty()
    };
    let l = seq![FileOpView::CreateDir { path: joined(dir, "snark"@) }];
    let head = program + (a + b + c + d + e);
    let tail: Seq<FileOpView> = if goes_on(job) {
        f + g + h + k + l
    } else {
        Seq::empty()
    };
    assert(request_ops(job, outside) =~= head + tail);
    lemma_contains_concat(head, tail, op);
    lemma_contains_concat(program, a + b + c + d + e, op);
    lemma_contains_concat(a + b + c + d, e, op);
    lemma_contains_concat(a + b + c, d, op);
    lemma_contains_concat(a + b, c, op);
    lemma_contains_concat(a, b, op);
    lemma_contains_concat(f + g + h + k, l, op);
    lemma_contains_concat(f + g + h, k, op);
    lemma_contains_concat(f + g, h, op);
    lemma_contains_concat(f, g, op);
    lemma_contains_two(
        FileOpView::CreateDir { path: dir },
        FileOpView::CreateDir { path: block },
        op,
    );
    lemma_contains_block(job, block, op);
    lemma_contains_one(FileOpView::CreateDir { path: inputs }, op);
    lemma_contains_one(
        FileOpView::Write {
            path: joined(inputs, "public_input"@),
            content: request.public_input_stream@,
        },
        op,
    );
    lemma_contains_one(
        FileOpView::Write {
            path: joined(inputs, "private_input"@),
            content: request.private_input_stream@,
        },
        op,
    );
    lemma_contains_one(
        FileOpView::Write {
            path: joined(inputs, "receipt_inputs"@),
            content: stored_list(chunk_views(request.receipt_inputs@)),
        },
        op,
    );
    lemma_contains_one(
        FileOpView::Write {
            path: joined(inputs, "receipts"@),
            content: stored_list(chunk_views(request.receipts@)),
        },
        op,
    );
    lemma_contains_four(h[0], h[1], h[2], h[3], op);
    assert(h =~= seq![h[0], h[1], h[2], h[3]]);
    lemma_contains_one(values, op);
    lemma_contains_one(FileOpView::CreateDir { path: joined(dir, "snark"@) }, op);
    lemma_contains_one(
        FileOpView::Write { path: program_path(job), content: request.elf_data@ },
        op,
    );
    match op {
        FileOpView::Write { path, content } => {
            if content.len() == 0 {
                assert(content =~= Seq::<u8>::empty());
            }
        },
        _ => {},
    }
    assert(program.contains(op) <==> {
        &&& brings_program(job, outside)
        &&& op == FileOpView::Write { path: program_path(job), content: request.elf_data@ }
    });
    assert(b.contains(op) ==> op is Write);
}

/// The file of a program that was brought, written out.
proof fn lemma_program_place(job: Job)
    requires
        job.request.from_step is None || job.request.from_step == Some(Step::Init),
        job.request.elf_data@.len() > 0,
    ensures
        program_path(job) == job.config.base_dir@ + "/elf/"@ + elf_identity(
            job.request.elf_data@,
        ),
{
    let base = job.config.base_dir@;
    let id = elf_identity(job.request.elf_data@);
    reveal_strlit("/");
    reveal_strlit("elf");
    reveal_strlit("/elf/");
    assert(program_path(job) =~= base + "/elf/"@ + id);
}

/// How many things are done to the file system for a request: one for each file and each
/// directory, none twice over.
pub proof fn law_nothing_is_done_twice(job: Job, outside: Outside)
    ensures
        request_ops(job, outside).len() == (if brings_program(job, outside) {
            1int
        } else {
            0
        }) + 3 + job.request.block_data@.len() + (if job.request.public_input_stream@.len() > 0 {
            1int
        } else {
            0
        }) + (if job.request.private_input_stream@.len() > 0 {
            1int
        } else {
            0
        }) + (if !goes_on(job) {
            0int
        } else {
            5 + (if job.request.receipt_inputs@.len() > 0 {
                1int
            } else {
                0
            }) + (if job.request.receipts@.len() > 0 {
                1int
            } else {
                0
            }) + (if job.request.from_step == Some(Step::Agg) && job.build != Build::Neither {
                1int
            } else {
                0
            })
        }),
{
}

/// A program is written first of all; then the directories of the proof and of its block are
/// made, the files of the block written in their order, and the directory of the inputs
/// made, before anything else.
pub proof fn law_order_of_the_first_files(job: Job, outside: Outside, i: int)
    requires
        0 <= i < job.request.block_data@.len(),
    ensures
        ({
            let ops = request_ops(job, outside);
            let p: int = if brings_program(job, outside) {
                1
            } else {
                0
            };
            let n = job.request.block_data@.len() as int;
            &&& brings_program(job, outside) ==> ops[0] == (FileOpView::Write {
                path: job.config.base_dir@ + "/elf/"@ + elf_identity(job.request.elf_data@),
                content: job.request.elf_data@,
            })
            &&& ops[p] == (FileOpView::CreateDir { path: home(job) })
            &&& ops[p + 1] == (FileOpView::CreateDir { path: block_home(job) })
            &&& ops[p + 2 + i] is Write
            &&& is_block_file(job, ops[p + 2 + i]->Write_path, ops[p + 2 + i]->content, i)
            &&& ops[p + 2 + n] == (FileOpView::CreateDir { path: home(job) + "/input_stream"@ })
        }),
{
    lemma_homes(job);
    if brings_program(job, outside) {
        lemma_program_place(job);
    }
    law_path_holds_its_parts(block_home(job), job.request.block_data@[i].file_name@);
}

// ---------------------------------------------------------------------------
// The task
// ---------------------------------------------------------------------------

/// The task that the workers get of a request.
pub open spec fn task_for(job: Job, outside: Outside) -> GenerateTaskView {
    task_of(accepted_of(job, outside), program_id(job), program_path(job))
}

/// The workers find the inputs that were sent, each on its own: the file that the task names
/// for the public input is written with exactly those bytes where there are any, and none is
/// named where there are none; and so it is for the private input.
pub proof fn law_inputs_reach_the_workers(job: Job, outside: Outside)
    ensures
        ({
            let request = job.request;
            let task = task_for(job, outside);
            let ops = request_ops(job, outside);
            &&& request.private_input_stream@.len() > 0 ==> task.private_input_path.len() > 0
                && ops.contains(
                FileOpView::Write {
                    path: task.private_input_path,
                    content: request.private_input_stream@,
                },
            )
            &&& request.private_input_stream@.len() == 0 ==> task.private_input_path.len() == 0
            &&& request.public_input_stream@.len() > 0 ==> task.public_input_path.len() > 0
                && ops.contains(
                FileOpView::Write {
                    path: task.public_input_path,
                    content: request.public_input_stream@,
                },
            )
            &&& request.public_input_stream@.len() == 0 ==> task.public_input_path.len() == 0
            &&& task.private_input_path.len() > 0 ==> task.private_input_path
                != task.public_input_path
        }),
{
    let request = job.request;
    let task = task_for(job, outside);
    lemma_homes(job);
    law_files_of_a_request(
        job,
        outside,
        FileOpView::Write {
            path: task.private_input_path,
            content: request.private_input_stream@,
        },
    );
    law_files_of_a_request(
        job,
        outside,
        FileOpView::Write {
            path: task.public_input_path,
            content: request.public_input_stream@,
        },
    );
    reveal_strlit("/input_stream/private_input");
    reveal_strlit("/input_stream/public_input");
    let a = home(job) + "/input_stream/private_input"@;
    let b = home(job) + "/input_stream/public_input"@;
    assert(a.len() != b.len());
}

/// The workers find the receipts that were sent, each list on its own: its file is named
/// exactly where there are any, and is then written with that list.
pub proof fn law_receipt_files_are_named(job: Job, outside: Outside)
    requires
        goes_on(job),
    ensures
        ({
            let request = job.request;
            let task = task_for(job, outside);
            let ops = request_ops(job, outside);
            &&& request.receipt_inputs@.len() == 0 ==> task.receipt_inputs_path.len() == 0
            &&& request.receipts@.len() == 0 ==> task.receipts_path.len() == 0
            &&& request.receipt_inputs@.len() > 0 ==> task.receipt_inputs_path.len() > 0
                && ops.contains(
                FileOpView::Write {
                    path: task.receipt_inputs_path,
                    content: stored_list(chunk_views(request.receipt_inputs@)),
                },
            )
            &&& request.receipts@.len() > 0 ==> task.receipts_path.len() > 0 && ops.contains(
                FileOpView::Write {
                    path: task.receipts_path,
                    content: stored_list(chunk_views(request.receipts@)),
                },
            )
        }),
{
    let request = job.request;
    let task = task_for(job, outside);
    lemma_homes(job);
    reveal_strlit("/input_stream/receipt_inputs");
    reveal_strlit("/input_stream/receipts");
    law_files_of_a_request(
        job,
        outside,
        FileOpView::Write {
            path: task.receipt_inputs_path,
            content: stored_list(chunk_views(request.receipt_inputs@)),
        },
    );
    law_files_of_a_request(
        job,
        outside,
        FileOpView::Write {
            path: task.receipts_path,
            content: stored_list(chunk_views(request.receipts@)),
        },
    );
}

/// The directories that a task names for the segments and the SNARK of its proof are made.
pub proof fn law_directories_are_made(job: Job, outside: Outside)
    requires
        goes_on(job),
    ensures
        ({
            let task = task_for(job, outside);
            let ops = request_ops(job, outside);
            &&& ops.contains(FileOpView::CreateDir { path: task.base_dir })
            &&& ops.contains(FileOpView::CreateDir { path: task.seg_path })
            &&& ops.contains(FileOpView::CreateDir { path: task.prove_path + "/receipt"@ })
            &&& exists|dir: Seq<char>|
                ops.contains(#[trigger] made_dir(dir)) && task.snark_path == dir
                    + "/proof_with_public_inputs.json"@
            &&& task.output_stream_path.len() > 0 ==> exists|dir: Seq<char>|
                ops.contains(#[trigger] made_dir(dir)) && task.output_stream_path == dir
                    + "/output_stream"@
        }),
{
    let task = task_for(job, outside);
    let dir = home(job);
    lemma_homes(job);
    law_files_of_a_request(job, outside, FileOpView::CreateDir { path: task.base_dir });
    law_files_of_a_request(job, outside, FileOpView::CreateDir { path: task.seg_path });
    assert(task.prove_path + "/receipt"@ =~= dir + "/prove/receipt"@) by {
        reveal_strlit("/prove");
        reveal_strlit("/receipt");
        reveal_strlit("/prove/receipt");
    }
    law_files_of_a_request(
        job,
        outside,
        FileOpView::CreateDir { path: task.prove_path + "/receipt"@ },
    );
    let snark = dir + "/snark"@;
    law_files_of_a_request(job, outside, made_dir(snark));
    assert(task.snark_path =~= snark + "/proof_with_public_inputs.json"@) by {
        reveal_strlit("/snark");
        reveal_strlit("/proof_with_public_inputs.json");
        reveal_strlit("/snark/proof_with_public_inputs.json");
    }
    let output = dir + "/output_stream"@;
    law_files_of_a_request(job, outside, made_dir(output));
    if task.output_stream_path.len() > 0 {
        assert(task.output_stream_path =~= output + "/output_stream"@) by {
            reveal_strlit("/output_stream");
            reveal_strlit("/output_stream/output_stream");
        }
    }
}

/// A directory that is made.
pub open spec fn made_dir(path: Seq<char>) -> FileOpView {
    FileOpView::CreateDir { path }
}

/// A task says what was asked: the proof, the segment size, the block or else zero, the
/// steps or else the first and a SNARK, and whether it is a composite proof or one for a
/// single node. It is for as many provers as were asked for, or else for all that are
/// configured.
pub proof fn law_task_says_what_was_asked(job: Job, outside: Outside)
    ensures
        ({
            let request = job.request;
            let task = task_for(job, outside);
            &&& task.proof_id == request.proof_id@
            &&& task.seg_size == request.seg_size
            &&& request.block_no is Some ==> task.block_no == request.block_no
            &&& request.block_no is None ==> task.block_no == Some(0u64)
            &&& request.from_step matches Some(step) ==> task.from_step == step
            &&& request.from_step is None ==> task.from_step == Step::Init
            &&& request.target_step matches Some(step) ==> task.target_step == step
            &&& request.target_step is None ==> task.target_step == Step::Snark
            &&& task.single_node == request.single_node
            &&& task.composite_proof == request.composite_proof
            &&& request.max_prover_num > 0 ==> task.max_prover_num == request.max_prover_num
            &&& request.max_prover_num == 0 ==> task.max_prover_num
                == job.config.prover_addrs@.len() as u32
        }),
{
}

/// A task says where things are, below the directory of its proof, and which generation of
/// provers it is for; only the first has an output stream.
pub proof fn law_task_says_where_things_are(job: Job, outside: Outside)
    ensures
        ({
            let request = job.request;
            let task = task_for(job, outside);
            let first = job.build == Build::Prover || job.build == Build::Both;
            &&& task.base_dir == home(job)
            &&& task.seg_path == home(job) + "/segment"@
            &&& task.prove_path == home(job) + "/prove"@
            &&& task.agg_path == home(job) + "/aggregate"@
            &&& task.snark_path == home(job) + "/snark/proof_with_public_inputs.json"@
            &&& first ==> task.output_stream_path == home(job) + "/output_stream/output_stream"@
            &&& !first ==> task.output_stream_path.len() == 0
            &&& first ==> task.prover_version == ProverVersion::Zkm
            &&& job.build == Build::ProverV2 ==> task.prover_version == ProverVersion::Zkm2
            &&& task.elf_path.len() > 0 ==> task.elf_path == job.config.base_dir@ + "/elf/"@
                + task.elf_id
            &&& request.from_step == Some(Step::Agg) ==> task.elf_id.len() == 0
                && task.elf_path.len() == 0
            &&& (request.from_step is None || request.from_step == Some(Step::Init))
                && request.elf_data@.len() > 0 ==> task.elf_id == elf_identity(request.elf_data@)
                && task.elf_path.len() > 0
        }),
{
    lemma_homes(job);
    law_generations(job.build);
    let base = job.config.base_dir@;
    reveal_strlit("/");
    reveal_strlit("elf");
    reveal_strlit("/elf/");
    if program_path(job).len() > 0 {
        assert(program_path(job) =~= base + "/elf/"@ + program_id(job));
    }
}

/// What a task says does not depend on what is not its own: two requests that agree but for
/// their receipts, their signatures and their programs get the same task but for the files
/// of the receipts and of the program.
pub proof fn law_task_depends_on_its_own<'a>(
    a: Job<'a>,
    b: Job<'a>,
    outside: Outside,
)
    requires
        a.config == b.config,
        a.build == b.build,
        a.request.proof_id@ == b.request.proof_id@,
        a.request.block_no == b.request.block_no,
        a.request.seg_size == b.request.seg_size,
        a.request.public_input_stream@ == b.request.public_input_stream@,
        a.request.private_input_stream@ == b.request.private_input_stream@,
        a.request.from_step == b.request.from_step,
        a.request.target_step == b.request.target_step,
        a.request.composite_proof == b.request.composite_proof,
        a.request.single_node == b.request.single_node,
        a.request.max_prover_num == b.request.max_prover_num,
    ensures
        ({
            let x = task_for(a, outside);
            let y = task_for(b, outside);
            y == (GenerateTaskView {
                elf_id: y.elf_id,
                elf_path: y.elf_path,
                receipt_inputs_path: y.receipt_inputs_path,
                receipts_path: y.receipts_path,
                ..x
            })
        }),
{
}

} // verus!
