//! How a request to make a proof is taken in.
//!
//! The work alternates with the outside: a user is looked up, a file is probed,
//! directories and files are written, the task is recorded and queued. Each
//! state below names what is to be done outside; its `answer` takes what came of
//! it and gives the next state, until there is a reply or a failure.
use crate::codec::{chunk_views, encode_chunks, stored_list};
use crate::digest::{elf_id, elf_identity};
use crate::layout::{
    block_dir, block_dir_path, elf_dir, elf_dir_path, proof_dir, proof_dir_path,
    public_values_address, public_values_file, public_values_path, public_values_url,
    snark_proof_address, snark_proof_url, stark_proof_address, stark_proof_url,
};
use crate::outcome::{done_view, text_view};
use crate::protocol::{
    Build, Coded, FileItem, GenerateProofRequest, GenerateProofResponse, GenerateReplyView,
    GenerateTask, GenerateTaskView, RuntimeConfig, StageTask, Status, Step,
};
use crate::signature::{signed_chars, signer_of, SignatureFault};
use crate::text::{cat, decimal, decimal_text, join_path, joined, strip_0x, without_0x};
use vstd::prelude::*;

verus! {

/// A request and what it is handled under.
#[derive(Clone, Copy)]
pub struct Job<'a> {
    pub config: &'a RuntimeConfig,
    pub build: Build,
    pub request: &'a GenerateProofRequest,
}

/// What the provers of the first generation say about a segment size: whether
/// they take it, and the smallest and largest that they take.
#[derive(Clone, Copy)]
pub struct SegSizeRule {
    pub valid: bool,
    pub min: usize,
    pub max: usize,
}

/// A request that passed the checks on its user and its steps.
pub struct Accepted<'a> {
    pub job: Job<'a>,
    pub user_address: String,
    pub from_step: Step,
    pub target_step: Step,
}

/// What an [`Accepted`] says.
pub struct AcceptedView<'a> {
    pub job: Job<'a>,
    pub user_address: Seq<char>,
    pub from_step: Step,
    pub target_step: Step,
}

impl<'a> View for Accepted<'a> {
    type V = AcceptedView<'a>;

    open spec fn view(&self) -> AcceptedView<'a> {
        AcceptedView {
            job: self.job,
            user_address: self.user_address@,
            from_step: self.from_step,
            target_step: self.target_step,
        }
    }
}

/// Something to do to the file system.
pub enum FileOp {
    /// Create a directory and those above it.
    CreateDir { path: String },
    /// Write a file.
    Write { path: String, content: Vec<u8> },
}

/// What a [`FileOp`] says.
pub enum FileOpView {
    CreateDir { path: Seq<char> },
    Write { path: Seq<char>, content: Seq<u8> },
}

impl View for FileOp {
    type V = FileOpView;

    open spec fn view(&self) -> FileOpView {
        match self {
            FileOp::CreateDir { path } => FileOpView::CreateDir { path: path@ },
            FileOp::Write { path, content } => FileOpView::Write { path: path@, content: content@ },
        }
    }
}

impl FileOpView {
    /// The path that is created or written.
    pub open spec fn path(self) -> Seq<char> {
        match self {
            FileOpView::CreateDir { path } => path,
            FileOpView::Write { path, content } => path,
        }
    }
}

/// What a list of [`FileOp`]s says.
pub open spec fn op_views(ops: Seq<FileOp>) -> Seq<FileOpView> {
    ops.map_values(|op: FileOp| op@)
}

/// The users with this address are to be looked up.
pub struct UserLookup<'a> {
    pub job: Job<'a>,
    pub address: String,
}

/// Whether this file exists is to be found out.
pub struct ElfProbe<'a> {
    pub accepted: Accepted<'a>,
    pub elf_id: String,
    pub elf_path: String,
    /// Did the request bring the file along?
    pub provided: bool,
}

/// `op` is to be done, and `later` after it.
pub struct FileWork<'a> {
    pub accepted: Accepted<'a>,
    pub elf_id: String,
    pub elf_path: String,
    pub op: FileOp,
    pub later: Vec<FileOp>,
}

/// The task is to be written as text.
pub struct ContextWork<'a> {
    pub accepted: Accepted<'a>,
    pub task: GenerateTask,
}

/// The row that [`row`](InsertWork::row) gives is to be added.
pub struct InsertWork<'a> {
    pub accepted: Accepted<'a>,
    pub context: String,
}

/// The task that [`task`](EnqueueWork::task) gives is to be queued.
pub struct EnqueueWork<'a> {
    pub accepted: Accepted<'a>,
    pub context: String,
}

/// A row that is to be added to the table of proofs.
pub struct NewRow {
    pub proof_id: String,
    pub user_address: String,
    pub status: Status,
    pub context: String,
}

/// What a [`NewRow`] says.
#[verifier::ext_equal]
pub struct NewRowView {
    pub proof_id: Seq<char>,
    pub user_address: Seq<char>,
    pub status: Status,
    pub context: Seq<char>,
}

impl View for NewRow {
    type V = NewRowView;

    open spec fn view(&self) -> NewRowView {
        NewRowView {
            proof_id: self.proof_id@,
            user_address: self.user_address@,
            status: self.status,
            context: self.context@,
        }
    }
}

/// The row of an accepted request: its proof and its user, computing, with its task as
/// text.
pub open spec fn new_row(accepted: AcceptedView, context: Seq<char>) -> NewRowView {
    NewRowView {
        proof_id: accepted.job.request.proof_id@,
        user_address: accepted.user_address,
        status: Status::Computing,
        context,
    }
}

/// Is `task` the one that is queued for an accepted request: its proof, computing, at
/// the step with the number zero, never touched, with its task as text and no result?
/// The protocol numbers computing `computing`, and the step zero is `zero_step`.
pub open spec fn is_queued_for(
    task: StageTask,
    accepted: AcceptedView,
    context: Seq<char>,
    computing: i32,
    zero_step: Step,
) -> bool {
    &&& task.id@ == accepted.job.request.proof_id@
    &&& task.status.number == computing
    &&& task.status.meaning == Status::Computing
    &&& task.step.number == 0
    &&& task.step.meaning == zero_step
    &&& task.check_at == 0
    &&& task.context is Some
    &&& task.context->0@ == context
    &&& task.result is None
}

/// How far a request has come.
pub enum GenerateStep<'a> {
    LookupUser(UserLookup<'a>),
    ProbeElf(ElfProbe<'a>),
    Perform(FileWork<'a>),
    SerializeContext(ContextWork<'a>),
    InsertTask(InsertWork<'a>),
    Enqueue(EnqueueWork<'a>),
    /// The reply to the request.
    Reply(GenerateProofResponse),
    /// The request failed inside the service, with this message.
    Fail(String),
}

/// What a [`GenerateStep`] says.
pub enum GenerateView<'a> {
    LookupUser { job: Job<'a>, address: Seq<char> },
    ProbeElf {
        accepted: AcceptedView<'a>,
        elf_id: Seq<char>,
        elf_path: Seq<char>,
        provided: bool,
    },
    Perform {
        accepted: AcceptedView<'a>,
        elf_id: Seq<char>,
        elf_path: Seq<char>,
        /// What is left to do, in order.
        ops: Seq<FileOpView>,
    },
    SerializeContext { accepted: AcceptedView<'a>, task: GenerateTaskView },
    InsertTask { accepted: AcceptedView<'a>, context: Seq<char> },
    Enqueue { accepted: AcceptedView<'a>, context: Seq<char> },
    Reply(GenerateReplyView),
    Fail(Seq<char>),
}

impl<'a> View for FileWork<'a> {
    type V = GenerateView<'a>;

    open spec fn view(&self) -> GenerateView<'a> {
        GenerateView::Perform {
            accepted: self.accepted@,
            elf_id: self.elf_id@,
            elf_path: self.elf_path@,
            ops: seq![self.op@] + op_views(self.later@),
        }
    }
}

impl<'a> View for GenerateStep<'a> {
    type V = GenerateView<'a>;

    open spec fn view(&self) -> GenerateView<'a> {
        match self {
            GenerateStep::LookupUser(w) => GenerateView::LookupUser {
                job: w.job,
                address: w.address@,
            },
            GenerateStep::ProbeElf(w) => GenerateView::ProbeElf {
                accepted: w.accepted@,
                elf_id: w.elf_id@,
                elf_path: w.elf_path@,
                provided: w.provided,
            },
            GenerateStep::Perform(w) => w@,
            GenerateStep::SerializeContext(w) => GenerateView::SerializeContext {
                accepted: w.accepted@,
                task: w.task@,
            },
            GenerateStep::InsertTask(w) => GenerateView::InsertTask {
                accepted: w.accepted@,
                context: w.context@,
            },
            GenerateStep::Enqueue(w) => GenerateView::Enqueue {
                accepted: w.accepted@,
                context: w.context@,
            },
            GenerateStep::Reply(reply) => GenerateView::Reply(reply@),
            GenerateStep::Fail(message) => GenerateView::Fail(message@),
        }
    }
}

// ---------------------------------------------------------------------------
// Replies
// ---------------------------------------------------------------------------

/// The reply to a request that is turned down: an invalid parameter, and why.
pub open spec fn refusal(proof_id: Seq<char>, message: Seq<char>) -> GenerateReplyView {
    GenerateReplyView {
        proof_id,
        status: Status::InvalidParameter,
        error_message: message,
        snark_proof_url: Seq::empty(),
        stark_proof_url: Seq::empty(),
        public_values_url: Seq::empty(),
    }
}

/// The reply to a request that was queued: it is being computed, and here its
/// results will be. A split alone has no results to fetch, and only the first
/// generation tells where a SNARK's proofs will be.
pub open spec fn acceptance(accepted: AcceptedView) -> GenerateReplyView {
    let job = accepted.job;
    let id = job.request.proof_id@;
    let snark = accepted.target_step == Step::Snark && job.build.first();
    match job.config.fileserver_url {
        Some(url) => GenerateReplyView {
            proof_id: id,
            status: Status::Computing,
            error_message: Seq::empty(),
            snark_proof_url: if snark {
                snark_proof_address(url@, id)
            } else {
                Seq::empty()
            },
            stark_proof_url: if snark {
                stark_proof_address(url@, id)
            } else {
                Seq::empty()
            },
            public_values_url: if accepted.target_step == Step::Split || !job.build.any() {
                Seq::empty()
            } else {
                public_values_address(url@, id, job.build)
            },
        },
        None => GenerateReplyView {
            proof_id: id,
            status: Status::Computing,
            error_message: Seq::empty(),
            snark_proof_url: Seq::empty(),
            stark_proof_url: Seq::empty(),
            public_values_url: Seq::empty(),
        },
    }
}

fn refuse<'a>(proof_id: &str, message: &str) -> (r: GenerateStep<'a>)
    ensures
        r@ == GenerateView::Reply(refusal(proof_id@, message@)),
{
    GenerateStep::Reply(
        GenerateProofResponse {
            proof_id: proof_id.to_string(),
            status: Status::InvalidParameter,
            error_message: message.to_string(),
            snark_proof_url: String::new(),
            stark_proof_url: String::new(),
            public_values_url: String::new(),
        },
    )
}

fn accept(accepted: &Accepted) -> (r: GenerateProofResponse)
    ensures
        r@ == acceptance(accepted@),
{
    let job = accepted.job;
    let id: &str = job.request.proof_id.as_str();
    let mut reply = GenerateProofResponse {
        proof_id: id.to_string(),
        status: Status::Computing,
        error_message: String::new(),
        snark_proof_url: String::new(),
        stark_proof_url: String::new(),
        public_values_url: String::new(),
    };
    if let Some(url) = &job.config.fileserver_url {
        if job.build.has_prover() && accepted.target_step == Step::Snark {
            reply.snark_proof_url = snark_proof_url(url.as_str(), id);
            reply.stark_proof_url = stark_proof_url(url.as_str(), id);
        }
        if accepted.target_step != Step::Split && job.build.can_prove() {
            reply.public_values_url = public_values_url(url.as_str(), id, job.build);
        }
    }
    reply
}

// ---------------------------------------------------------------------------
// The checks on a request
// ---------------------------------------------------------------------------

/// Is the segment size turned down? Only the first generation minds it, and not
/// for a composite proof.
pub open spec fn seg_size_refused(job: Job, rule: SegSizeRule) -> bool {
    job.build.first() && !job.request.composite_proof && !rule.valid
}

/// What is said about a segment size that is turned down.
pub open spec fn seg_size_message(rule: SegSizeRule) -> Seq<char> {
    "invalid seg_size support ["@ + decimal(rule.min as nat) + "-"@ + decimal(rule.max as nat)
        + "]"@
}

/// The text that the signature of a request is made on.
pub open spec fn job_message(job: Job) -> Seq<char> {
    signed_chars(job.request.proof_id@, job.request.block_no, job.request.seg_size)
}

/// Who signed the request.
pub open spec fn job_signer(job: Job) -> Result<Seq<char>, SignatureFault> {
    signer_of(job.request.signature@, job_message(job))
}

/// The first state of a request, given who signed it.
pub open spec fn admitted<'a>(
    job: Job<'a>,
    rule: SegSizeRule,
    signer: Result<Seq<char>, SignatureFault>,
) -> GenerateView<'a> {
    if seg_size_refused(job, rule) {
        GenerateView::Reply(refusal(job.request.proof_id@, seg_size_message(rule)))
    } else {
        match signer {
            Ok(address) => GenerateView::LookupUser { job, address },
            Err(_) => GenerateView::Reply(
                refusal(job.request.proof_id@, "invalid signature"@),
            ),
        }
    }
}

/// The step to start from that a request asks for.
pub open spec fn asked_from(request: GenerateProofRequest) -> Step {
    match request.from_step {
        Some(step) => step,
        None => Step::Init,
    }
}

/// The step to stop at that a request asks for.
pub open spec fn asked_target(request: GenerateProofRequest) -> Step {
    match request.target_step {
        Some(step) => step,
        None => Step::Snark,
    }
}

/// Can a proof be started from `step`?
pub open spec fn can_start_from(step: Step) -> bool {
    step == Step::Init || step == Step::Agg
}

/// Can a proof be stopped at `step`?
pub open spec fn can_stop_at(step: Step) -> bool {
    step == Step::Split || step == Step::Agg || step == Step::Snark
}

/// The state after the users with the signer's address were looked up.
pub open spec fn user_answered<'a>(job: Job<'a>, users: Seq<Seq<char>>) -> GenerateView<'a> {
    let id = job.request.proof_id@;
    let from_step = asked_from(*job.request);
    let target_step = asked_target(*job.request);
    if users.len() == 0 {
        GenerateView::Reply(refusal(id, "permission denied"@))
    } else if !can_start_from(from_step) {
        GenerateView::Reply(refusal(id, "invalid FromStep, only Support Init and Agg"@))
    } else if !can_stop_at(target_step) {
        GenerateView::Reply(
            refusal(id, "invalid TargetStep, only Support Split, Agg and Snark"@),
        )
    } else {
        program_wanted(
            AcceptedView { job, user_address: users[0], from_step, target_step },
        )
    }
}

/// The state in which the program of an accepted request is looked for. A
/// request that starts at the aggregation has none.
pub open spec fn program_wanted(accepted: AcceptedView) -> GenerateView {
    let request = accepted.job.request;
    if accepted.from_step != Step::Init {
        files_wanted(accepted, Seq::empty(), Seq::empty(), Seq::empty())
    } else if request.elf_data@.len() > 0 {
        elf_probed(accepted, elf_identity(request.elf_data@), true)
    } else {
        match request.elf_id {
            Some(elf_id) => elf_probed(accepted, without_0x(elf_id@), false),
            None => GenerateView::Reply(
                refusal(request.proof_id@, "elf_data or elf_id should not be empty"@),
            ),
        }
    }
}

/// The state in which the file of a program is probed.
pub open spec fn elf_probed(
    accepted: AcceptedView,
    elf_id: Seq<char>,
    provided: bool,
) -> GenerateView {
    GenerateView::ProbeElf {
        accepted,
        elf_id,
        elf_path: joined(elf_dir(accepted.job.config.base_dir@), elf_id),
        provided,
    }
}

/// The state after the file of a program was probed: one that came along and is
/// not there yet is to be written; one that neither came along nor is there is
/// missing.
pub open spec fn elf_answered(
    accepted: AcceptedView,
    elf_id: Seq<char>,
    elf_path: Seq<char>,
    provided: bool,
    present: bool,
) -> GenerateView {
    if present {
        files_wanted(accepted, elf_id, elf_path, Seq::empty())
    } else if provided {
        files_wanted(
            accepted,
            elf_id,
            elf_path,
            seq![
                FileOpView::Write { path: elf_path, content: accepted.job.request.elf_data@ },
            ],
        )
    } else {
        GenerateView::Reply(refusal(accepted.job.request.proof_id@, "elf_id not found"@))
    }
}

// ---------------------------------------------------------------------------
// The files of a request
// ---------------------------------------------------------------------------

/// The directory of the proof of a job.
pub open spec fn job_dir(job: Job) -> Seq<char> {
    proof_dir(job.config.base_dir@, job.request.proof_id@)
}

/// Write `content`, if there is any.
pub open spec fn write_nonempty(path: Seq<char>, content: Seq<u8>) -> Seq<FileOpView> {
    if content.len() == 0 {
        Seq::empty()
    } else {
        seq![FileOpView::Write { path, content }]
    }
}

/// The path of what is written by [`write_nonempty`]; empty if nothing is.
pub open spec fn path_nonempty(path: Seq<char>, len: nat) -> Seq<char> {
    if len == 0 {
        Seq::empty()
    } else {
        path
    }
}

/// Write a list of byte strings, if there are any.
pub open spec fn write_list(path: Seq<char>, chunks: Seq<Vec<u8>>) -> Seq<FileOpView> {
    if chunks.len() == 0 {
        Seq::empty()
    } else {
        seq![FileOpView::Write { path, content: stored_list(chunk_views(chunks)) }]
    }
}

/// Write every file of the block.
pub open spec fn write_block(dir: Seq<char>, items: Seq<FileItem>) -> Seq<FileOpView> {
    items.map_values(
        |item: FileItem|
            FileOpView::Write {
                path: joined(dir, item.file_name@),
                content: item.file_content@,
            },
    )
}

/// The block that a request is about.
pub open spec fn asked_block(request: GenerateProofRequest) -> u64 {
    match request.block_no {
        Some(block_no) => block_no,
        None => 0,
    }
}

/// What is written of every accepted request, before its receipts are looked at:
/// the block and the input streams.
pub open spec fn input_ops(job: Job) -> Seq<FileOpView> {
    let request = job.request;
    let dir = job_dir(job);
    let block = block_dir(dir, asked_block(*request));
    let inputs = joined(dir, "input_stream"@);
    seq![FileOpView::CreateDir { path: dir }, FileOpView::CreateDir { path: block }]
        + write_block(block, request.block_data@)
        + seq![FileOpView::CreateDir { path: inputs }]
        + write_nonempty(joined(inputs, "public_input"@), request.public_input_stream@)
        + write_nonempty(joined(inputs, "private_input"@), request.private_input_stream@)
}

/// What is written after that: the receipts, and the directories that the
/// workers will fill. A request that starts at the aggregation gets an empty
/// file of public values, since no split will write one. Without any generation of
/// provers there are no public values.
pub open spec fn output_ops(job: Job, from_step: Step) -> Seq<FileOpView> {
    let request = job.request;
    let dir = job_dir(job);
    let inputs = joined(dir, "input_stream"@);
    let wrap = joined(dir, "wrap"@);
    write_list(joined(inputs, "receipt_inputs"@), request.receipt_inputs@)
        + write_list(joined(inputs, "receipts"@), request.receipts@)
        + seq![
            FileOpView::CreateDir { path: joined(dir, "output_stream"@) },
            FileOpView::CreateDir { path: joined(dir, "segment"@) },
            FileOpView::CreateDir { path: joined(joined(dir, "prove"@), "receipt"@) },
            FileOpView::CreateDir { path: wrap },
        ]
        + if from_step == Step::Agg && job.build.any() {
            seq![
                FileOpView::Write {
                    path: public_values_file(wrap, job.build),
                    content: Seq::empty(),
                },
            ]
        } else {
            Seq::empty()
        }
        + seq![FileOpView::CreateDir { path: joined(dir, "snark"@) }]
}

/// Is a request that starts at the aggregation without the receipts to
/// aggregate, or meant for a single node?
pub open spec fn receipts_missing(job: Job, from_step: Step) -> bool {
    from_step == Step::Agg && (job.request.receipt_inputs@.len() == 0 || job.request.single_node)
}

/// Everything that is written of an accepted request, in order, after
/// `program_ops`. The rest of a request without receipts is not written.
pub open spec fn all_ops(accepted: AcceptedView, program_ops: Seq<FileOpView>) -> Seq<FileOpView> {
    let job = accepted.job;
    program_ops + input_ops(job) + if receipts_missing(job, accepted.from_step) {
        Seq::empty()
    } else {
        output_ops(job, accepted.from_step)
    }
}

/// The state in which the files of a request are to be written.
pub open spec fn files_wanted(
    accepted: AcceptedView,
    elf_id: Seq<char>,
    elf_path: Seq<char>,
    program_ops: Seq<FileOpView>,
) -> GenerateView {
    GenerateView::Perform { accepted, elf_id, elf_path, ops: all_ops(accepted, program_ops) }
}

/// How many provers a request may use: as many as it says, or all there are.
pub open spec fn prover_limit(job: Job) -> u32 {
    if job.request.max_prover_num == 0 {
        job.config.prover_addrs@.len() as u32
    } else {
        job.request.max_prover_num
    }
}

/// The task of an accepted request.
pub open spec fn task_of(
    accepted: AcceptedView,
    elf_id: Seq<char>,
    elf_path: Seq<char>,
) -> GenerateTaskView {
    let job = accepted.job;
    let request = job.request;
    let dir = job_dir(job);
    let inputs = joined(dir, "input_stream"@);
    GenerateTaskView {
        prover_version: job.build.generation(),
        elf_id,
        proof_id: request.proof_id@,
        base_dir: dir,
        elf_path,
        seg_path: joined(dir, "segment"@),
        prove_path: joined(dir, "prove"@),
        agg_path: joined(dir, "aggregate"@),
        snark_path: joined(joined(dir, "snark"@), "proof_with_public_inputs.json"@),
        public_input_path: path_nonempty(
            joined(inputs, "public_input"@),
            request.public_input_stream@.len(),
        ),
        private_input_path: path_nonempty(
            joined(inputs, "private_input"@),
            request.private_input_stream@.len(),
        ),
        output_stream_path: if job.build.first() {
            joined(joined(dir, "output_stream"@), "output_stream"@)
        } else {
            Seq::empty()
        },
        block_no: Some(asked_block(*request)),
        seg_size: request.seg_size,
        max_prover_num: prover_limit(job),
        from_step: accepted.from_step,
        target_step: accepted.target_step,
        single_node: request.single_node,
        composite_proof: request.composite_proof,
        receipt_inputs_path: path_nonempty(
            joined(inputs, "receipt_inputs"@),
            request.receipt_inputs@.len(),
        ),
        receipts_path: path_nonempty(joined(inputs, "receipts"@), request.receipts@.len()),
    }
}

/// The state after one thing was done to the file system.
pub open spec fn file_answered(
    accepted: AcceptedView,
    elf_id: Seq<char>,
    elf_path: Seq<char>,
    ops: Seq<FileOpView>,
    outcome: Result<(), Seq<char>>,
) -> GenerateView {
    match outcome {
        Err(message) => GenerateView::Fail(message),
        Ok(_) => if ops.len() > 1 {
            GenerateView::Perform { accepted, elf_id, elf_path, ops: ops.skip(1) }
        } else if receipts_missing(accepted.job, accepted.from_step) {
            GenerateView::Reply(
                refusal(accepted.job.request.proof_id@, "receipt_inputs should not empty"@),
            )
        } else if !accepted.job.build.any() {
            GenerateView::Fail("ProverVersion error"@)
        } else {
            GenerateView::SerializeContext { accepted, task: task_of(accepted, elf_id, elf_path) }
        },
    }
}

/// The state after the task was written as text.
pub open spec fn context_answered(
    accepted: AcceptedView,
    outcome: Result<Seq<char>, Seq<char>>,
) -> GenerateView {
    match outcome {
        Ok(context) => GenerateView::InsertTask { accepted, context },
        Err(message) => GenerateView::Fail(
            "Failed to serialize GenerateTask context: "@ + message,
        ),
    }
}

/// The state after the row was added.
pub open spec fn insert_answered(
    accepted: AcceptedView,
    context: Seq<char>,
    outcome: Result<(), Seq<char>>,
) -> GenerateView {
    match outcome {
        Ok(_) => GenerateView::Enqueue { accepted, context },
        Err(message) => GenerateView::Fail("Failed to insert task into database: "@ + message),
    }
}

/// The state after the task was queued.
pub open spec fn enqueue_answered(
    accepted: AcceptedView,
    outcome: Result<(), Seq<char>>,
) -> GenerateView {
    match outcome {
        Ok(_) => GenerateView::Reply(acceptance(accepted)),
        Err(message) => GenerateView::Fail("Failed to send task to queue: "@ + message),
    }
}

// ---------------------------------------------------------------------------
// The steps
// ---------------------------------------------------------------------------

/// What is said about a segment size that is turned down.
fn seg_size_text(rule: SegSizeRule) -> (r: String)
    ensures
        r@ == seg_size_message(rule),
{
    let mut out: String = cat(
        "invalid seg_size support [",
        decimal_text(rule.min as u64).as_str(),
    );
    out.append("-");
    out.append(decimal_text(rule.max as u64).as_str());
    out.append("]");
    out
}

/// Takes a request in, given who signed it.
pub fn take_in<'a>(
    job: Job<'a>,
    rule: SegSizeRule,
    signer: Result<String, SignatureFault>,
) -> (r: GenerateStep<'a>)
    ensures
        r@ == admitted(
            job,
            rule,
            match signer {
                Ok(address) => Ok(address@),
                Err(fault) => Err(fault),
            },
        ),
{
    let id: &str = job.request.proof_id.as_str();
    if job.build.has_prover() && !job.request.composite_proof && !rule.valid {
        return refuse(id, seg_size_text(rule).as_str());
    }
    match signer {
        Ok(address) => GenerateStep::LookupUser(UserLookup { job, address }),
        Err(_) => refuse(id, "invalid signature"),
    }
}

impl<'a> UserLookup<'a> {
    /// Goes on with the addresses of the users that were found.
    pub fn answer(self, users: &Vec<String>) -> (r: GenerateStep<'a>)
        ensures
            r@ == user_answered(self.job, users@.map_values(|u: String| u@)),
    {
        let job = self.job;
        let id: &str = job.request.proof_id.as_str();
        if users.len() == 0 {
            return refuse(id, "permission denied");
        }
        let from_step: Step = match job.request.from_step {
            Some(step) => step,
            None => Step::Init,
        };
        if !(from_step == Step::Init || from_step == Step::Agg) {
            return refuse(id, "invalid FromStep, only Support Init and Agg");
        }
        let target_step: Step = match job.request.target_step {
            Some(step) => step,
            None => Step::Snark,
        };
        if !(target_step == Step::Split || target_step == Step::Agg || target_step == Step::Snark) {
            return refuse(id, "invalid TargetStep, only Support Split, Agg and Snark");
        }
        want_program(Accepted { job, user_address: users[0].clone(), from_step, target_step })
    }
}

/// Looks for the program of an accepted request.
fn want_program<'a>(accepted: Accepted<'a>) -> (r: GenerateStep<'a>)
    ensures
        r@ == program_wanted(accepted@),
{
    let request = accepted.job.request;
    if accepted.from_step != Step::Init {
        return want_files(accepted, String::new(), String::new(), false);
    }
    if request.elf_data.len() > 0 {
        let id: String = elf_id(request.elf_data.as_slice());
        return probe_elf(accepted, id, true);
    }
    match &request.elf_id {
        Some(id) => {
            let id: String = strip_0x(id.as_str()).to_string();
            probe_elf(accepted, id, false)
        },
        None => refuse(request.proof_id.as_str(), "elf_data or elf_id should not be empty"),
    }
}

/// Asks whether the program with this identity is kept already.
pub fn probe_elf<'a>(accepted: Accepted<'a>, elf_id: String, provided: bool) -> (r: GenerateStep<
    'a,
>)
    ensures
        r@ == elf_probed(accepted@, elf_id@, provided),
{
    let dir: String = elf_dir_path(accepted.job.config.base_dir.as_str());
    let elf_path: String = join_path(dir.as_str(), elf_id.as_str());
    GenerateStep::ProbeElf(ElfProbe { accepted, elf_id, elf_path, provided })
}

impl<'a> ElfProbe<'a> {
    /// Goes on, knowing whether the file exists.
    pub fn answer(self, present: bool) -> (r: GenerateStep<'a>)
        ensures
            r@ == elf_answered(
                self.accepted@,
                self.elf_id@,
                self.elf_path@,
                self.provided,
                present,
            ),
    {
        if present {
            want_files(self.accepted, self.elf_id, self.elf_path, false)
        } else if self.provided {
            want_files(self.accepted, self.elf_id, self.elf_path, true)
        } else {
            refuse(self.accepted.job.request.proof_id.as_str(), "elf_id not found")
        }
    }
}

fn push_dir(ops: &mut Vec<FileOp>, path: String)
    ensures
        op_views(final(ops)@) == op_views(old(ops)@) + seq![
            FileOpView::CreateDir { path: path@ },
        ],
{
    let op = FileOp::CreateDir { path };
    let ghost before = ops@;
    ops.push(op);
    assert(op_views(ops@) =~= op_views(before) + seq![op@]);
}

fn push_write(ops: &mut Vec<FileOp>, path: String, content: Vec<u8>)
    ensures
        op_views(final(ops)@) == op_views(old(ops)@) + seq![
            FileOpView::Write { path: path@, content: content@ },
        ],
{
    let op = FileOp::Write { path, content };
    let ghost before = ops@;
    ops.push(op);
    assert(op_views(ops@) =~= op_views(before) + seq![op@]);
}

fn push_nonempty(ops: &mut Vec<FileOp>, path: String, content: &Vec<u8>)
    ensures
        op_views(final(ops)@) == op_views(old(ops)@) + write_nonempty(path@, content@),
{
    if content.len() > 0 {
        let copy: Vec<u8> = content.clone();
        assert(copy@ =~= content@);
        push_write(ops, path, copy);
    } else {
        assert(op_views(ops@) =~= op_views(ops@) + Seq::<FileOpView>::empty());
    }
}

fn push_list(ops: &mut Vec<FileOp>, path: String, chunks: &Vec<Vec<u8>>)
    ensures
        op_views(final(ops)@) == op_views(old(ops)@) + write_list(path@, chunks@),
{
    if chunks.len() > 0 {
        push_write(ops, path, encode_chunks(chunks));
    } else {
        assert(op_views(ops@) =~= op_views(ops@) + Seq::<FileOpView>::empty());
    }
}

fn push_block(ops: &mut Vec<FileOp>, dir: &str, items: &Vec<FileItem>)
    ensures
        op_views(final(ops)@) == op_views(old(ops)@) + write_block(dir@, items@),
{
    let ghost before = op_views(ops@);
    assert(before =~= before + write_block(dir@, items@.take(0)));
    let mut i: usize = 0;
    while i < items.len()
        invariant
            i <= items.len(),
            op_views(ops@) == before + write_block(dir@, items@.take(i as int)),
        decreases items.len() - i,
    {
        let item: &FileItem = &items[i];
        let copy: Vec<u8> = item.file_content.clone();
        assert(copy@ =~= item.file_content@);
        push_write(ops, join_path(dir, item.file_name.as_str()), copy);
        i = i + 1;
        proof {
            assert(op_views(ops@) =~= before + write_block(dir@, items@.take(i as int)));
        }
    }
    assert(items@.take(items@.len() as int) =~= items@);
}

/// Adds what is written of every accepted request.
fn push_inputs(ops: &mut Vec<FileOp>, job: Job)
    ensures
        op_views(final(ops)@) == op_views(old(ops)@) + input_ops(job),
{
    let ghost before = op_views(ops@);
    let request = job.request;
    let dir: String = proof_dir_path(job.config.base_dir.as_str(), request.proof_id.as_str());
    let block_no: u64 = match request.block_no {
        Some(block_no) => block_no,
        None => 0,
    };
    let block: String = block_dir_path(dir.as_str(), block_no);
    let inputs: String = join_path(dir.as_str(), "input_stream");
    push_dir(ops, dir);
    push_dir(ops, block.clone());
    push_block(ops, block.as_str(), &request.block_data);
    push_dir(ops, inputs.clone());
    push_nonempty(
        ops,
        join_path(inputs.as_str(), "public_input"),
        &request.public_input_stream,
    );
    push_nonempty(
        ops,
        join_path(inputs.as_str(), "private_input"),
        &request.private_input_stream,
    );
    assert(op_views(ops@) =~= before + input_ops(job));
}

/// Adds what is written after the receipts were looked at.
fn push_outputs(ops: &mut Vec<FileOp>, job: Job, from_step: Step)
    ensures
        op_views(final(ops)@) == op_views(old(ops)@) + output_ops(job, from_step),
{
    let ghost before = op_views(ops@);
    let request = job.request;
    let dir: String = proof_dir_path(job.config.base_dir.as_str(), request.proof_id.as_str());
    let inputs: String = join_path(dir.as_str(), "input_stream");
    let wrap: String = join_path(dir.as_str(), "wrap");
    push_list(ops, join_path(inputs.as_str(), "receipt_inputs"), &request.receipt_inputs);
    push_list(ops, join_path(inputs.as_str(), "receipts"), &request.receipts);
    push_dir(ops, join_path(dir.as_str(), "output_stream"));
    push_dir(ops, join_path(dir.as_str(), "segment"));
    push_dir(ops, join_path(join_path(dir.as_str(), "prove").as_str(), "receipt"));
    push_dir(ops, wrap.clone());
    if from_step == Step::Agg && job.build.can_prove() {
        let empty: Vec<u8> = Vec::new();
        assert(empty@ =~= Seq::<u8>::empty());
        push_write(ops, public_values_path(wrap.as_str(), job.build), empty);
    }
    push_dir(ops, join_path(dir.as_str(), "snark"));
    assert(op_views(ops@) =~= before + output_ops(job, from_step));
}

/// Lists what is to be written of an accepted request, its program first if
/// `store_program`.
fn want_files<'a>(
    accepted: Accepted<'a>,
    elf_id: String,
    elf_path: String,
    store_program: bool,
) -> (r: GenerateStep<'a>)
    ensures
        r@ == files_wanted(
            accepted@,
            elf_id@,
            elf_path@,
            if store_program {
                seq![
                    FileOpView::Write {
                        path: elf_path@,
                        content: accepted.job.request.elf_data@,
                    },
                ]
            } else {
                Seq::empty()
            },
        ),
{
    let mut ops: Vec<FileOp> = Vec::new();
    assert(op_views(ops@) =~= Seq::<FileOpView>::empty());
    let job = accepted.job;
    if store_program {
        let copy: Vec<u8> = job.request.elf_data.clone();
        assert(copy@ =~= job.request.elf_data@);
        push_write(&mut ops, elf_path.clone(), copy);
    }
    let ghost program_ops = op_views(ops@);
    push_inputs(&mut ops, job);
    if !(accepted.from_step == Step::Agg && (job.request.receipt_inputs.len() == 0
        || job.request.single_node)) {
        push_outputs(&mut ops, job, accepted.from_step);
    }
    assert(op_views(ops@) =~= all_ops(accepted@, program_ops));
    let ghost every = ops@;
    assert(op_views(every).len() == every.len());
    let op: FileOp = ops.remove(0);
    assert(seq![op@] + op_views(ops@) =~= op_views(every));
    GenerateStep::Perform(FileWork { accepted, elf_id, elf_path, op, later: ops })
}

/// The path of a file that is written only if there is something to write.
fn path_if(dir: &str, name: &str, len: usize) -> (r: String)
    ensures
        r@ == path_nonempty(joined(dir@, name@), len as nat),
{
    if len == 0 {
        String::new()
    } else {
        join_path(dir, name)
    }
}

/// The task of an accepted request.
fn make_task(accepted: &Accepted, elf_id: String, elf_path: String) -> (r: GenerateTask)
    requires
        accepted.job.build.any(),
    ensures
        r@ == task_of(accepted@, elf_id@, elf_path@),
{
    let job = accepted.job;
    let request = job.request;
    let dir: String = proof_dir_path(job.config.base_dir.as_str(), request.proof_id.as_str());
    let inputs: String = join_path(dir.as_str(), "input_stream");
    let output_stream_path: String = if job.build.has_prover() {
        join_path(join_path(dir.as_str(), "output_stream").as_str(), "output_stream")
    } else {
        String::new()
    };
    let max_prover_num: u32 = if request.max_prover_num == 0 {
        #[verifier::truncate]
        (job.config.prover_addrs.len() as u32)
    } else {
        request.max_prover_num
    };
    let block_no: u64 = match request.block_no {
        Some(block_no) => block_no,
        None => 0,
    };
    GenerateTask {
        prover_version: job.build.prover_version(),
        elf_id,
        proof_id: request.proof_id.clone(),
        elf_path,
        seg_path: join_path(dir.as_str(), "segment"),
        prove_path: join_path(dir.as_str(), "prove"),
        agg_path: join_path(dir.as_str(), "aggregate"),
        snark_path: join_path(
            join_path(dir.as_str(), "snark").as_str(),
            "proof_with_public_inputs.json",
        ),
        public_input_path: path_if(
            inputs.as_str(),
            "public_input",
            request.public_input_stream.len(),
        ),
        private_input_path: path_if(
            inputs.as_str(),
            "private_input",
            request.private_input_stream.len(),
        ),
        output_stream_path,
        block_no: Some(block_no),
        seg_size: request.seg_size,
        max_prover_num,
        from_step: accepted.from_step,
        target_step: accepted.target_step,
        single_node: request.single_node,
        composite_proof: request.composite_proof,
        receipt_inputs_path: path_if(
            inputs.as_str(),
            "receipt_inputs",
            request.receipt_inputs.len(),
        ),
        receipts_path: path_if(inputs.as_str(), "receipts", request.receipts.len()),
        base_dir: dir,
    }
}

impl<'a> FileWork<'a> {
    /// Goes on, knowing how `op` went.
    pub fn answer(self, outcome: Result<(), String>) -> (r: GenerateStep<'a>)
        ensures
            r@ == file_answered(
                self.accepted@,
                self.elf_id@,
                self.elf_path@,
                seq![self.op@] + op_views(self.later@),
                done_view(outcome),
            ),
    {
        if let Err(message) = outcome {
            return GenerateStep::Fail(message);
        }
        let ghost ops = seq![self.op@] + op_views(self.later@);
        let accepted = self.accepted;
        let mut later: Vec<FileOp> = self.later;
        if later.len() > 0 {
            let ghost rest = later@;
            let op: FileOp = later.remove(0);
            assert(seq![op@] + op_views(later@) =~= ops.skip(1));
            return GenerateStep::Perform(
                FileWork { accepted, elf_id: self.elf_id, elf_path: self.elf_path, op, later },
            );
        }
        let job = accepted.job;
        if accepted.from_step == Step::Agg && (job.request.receipt_inputs.len() == 0
            || job.request.single_node) {
            return refuse(job.request.proof_id.as_str(), "receipt_inputs should not empty");
        }
        if !job.build.can_prove() {
            return GenerateStep::Fail("ProverVersion error".to_string());
        }
        let task: GenerateTask = make_task(&accepted, self.elf_id, self.elf_path);
        GenerateStep::SerializeContext(ContextWork { accepted, task })
    }
}

impl<'a> ContextWork<'a> {
    /// Goes on with the task as text.
    pub fn answer(self, outcome: Result<String, String>) -> (r: GenerateStep<'a>)
        ensures
            r@ == context_answered(self.accepted@, text_view(outcome)),
    {
        match outcome {
            Ok(context) => GenerateStep::InsertTask(
                InsertWork { accepted: self.accepted, context },
            ),
            Err(message) => GenerateStep::Fail(
                cat("Failed to serialize GenerateTask context: ", message.as_str()),
            ),
        }
    }
}

impl<'a> InsertWork<'a> {
    /// The row to add.
    pub fn row(&self) -> (r: NewRow)
        ensures
            r@ == new_row(self.accepted@, self.context@),
            r.proof_id@ == self.accepted.job.request.proof_id@,
            r.user_address@ == self.accepted.user_address@,
            r.status == Status::Computing,
            r.context@ == self.context@,
    {
        NewRow {
            proof_id: self.accepted.job.request.proof_id.clone(),
            user_address: self.accepted.user_address.clone(),
            status: Status::Computing,
            context: self.context.clone(),
        }
    }

    /// Goes on, knowing whether the row was added.
    pub fn answer(self, outcome: Result<(), String>) -> (r: GenerateStep<'a>)
        ensures
            r@ == insert_answered(self.accepted@, self.context@, done_view(outcome)),
    {
        match outcome {
            Ok(_) => GenerateStep::Enqueue(
                EnqueueWork { accepted: self.accepted, context: self.context },
            ),
            Err(message) => GenerateStep::Fail(
                cat("Failed to insert task into database: ", message.as_str()),
            ),
        }
    }
}

impl<'a> EnqueueWork<'a> {
    /// The task to queue, where the protocol numbers computing `computing` and the step
    /// with the number zero is `zero_step`.
    pub fn task(&self, computing: i32, zero_step: Step) -> (r: StageTask)
        ensures
            is_queued_for(r, self.accepted@, self.context@, computing, zero_step),
    {
        StageTask {
            id: self.accepted.job.request.proof_id.clone(),
            status: Coded { number: computing, meaning: Status::Computing },
            step: Coded { number: 0, meaning: zero_step },
            check_at: 0,
            context: Some(self.context.clone()),
            result: None,
        }
    }

    /// Ends, knowing whether the task was queued.
    pub fn answer(self, outcome: Result<(), String>) -> (r: GenerateStep<'a>)
        ensures
            r@ == enqueue_answered(self.accepted@, done_view(outcome)),
    {
        match outcome {
            Ok(_) => GenerateStep::Reply(accept(&self.accepted)),
            Err(message) => GenerateStep::Fail(
                cat("Failed to send task to queue: ", message.as_str()),
            ),
        }
    }
}

} // verus!
