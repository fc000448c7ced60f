//! What is said of a value is what it holds.
//!
//! Contracts speak of values by their views. Here each view is tied to the value's own
//! parts, one by one.

use crate::codec::chunk_views;
use crate::generate::{
    op_views, Accepted, FileOp, FileOpView, GenerateStep, GenerateView, NewRow,
};
use crate::manager::{LoadStep, LoadView};
use crate::protocol::{GenerateProofResponse, GenerateTask, GetStatusResponse};
use crate::root_prover::{
    ProveContext, Proving, ProvingView, RootStep, RootView, Tracing, TracingView,
};
use crate::service::StatusFiles;
use crate::signature::SignatureParts;
use crate::single_node_prover::{NodeStep, NodeView};
use crate::startup::{StartupStep, StartupView, TlsPaths};
use crate::worker::{
    update_views, ProveTaskRow, RowUpdate, Run, StageStep, StageView, UpdateView,
};
use vstd::prelude::*;

verus! {

/// A task says what it holds, each part in its place.
pub proof fn law_task_says_what_it_holds(task: GenerateTask)
    ensures
        task@.prover_version == task.prover_version,
        task@.elf_id == task.elf_id@,
        task@.proof_id == task.proof_id@,
        task@.base_dir == task.base_dir@,
        task@.elf_path == task.elf_path@,
        task@.seg_path == task.seg_path@,
        task@.prove_path == task.prove_path@,
        task@.agg_path == task.agg_path@,
        task@.snark_path == task.snark_path@,
        task@.public_input_path == task.public_input_path@,
        task@.private_input_path == task.private_input_path@,
        task@.output_stream_path == task.output_stream_path@,
        task@.block_no == task.block_no,
        task@.seg_size == task.seg_size,
        task@.max_prover_num == task.max_prover_num,
        task@.from_step == task.from_step,
        task@.target_step == task.target_step,
        task@.single_node == task.single_node,
        task@.composite_proof == task.composite_proof,
        task@.receipt_inputs_path == task.receipt_inputs_path@,
        task@.receipts_path == task.receipts_path@,
{
}

/// The reply to a request says what it holds.
pub proof fn law_reply_says_what_it_holds(reply: GenerateProofResponse)
    ensures
        reply@.proof_id == reply.proof_id@,
        reply@.status == reply.status,
        reply@.error_message == reply.error_message@,
        reply@.snark_proof_url == reply.snark_proof_url@,
        reply@.stark_proof_url == reply.stark_proof_url@,
        reply@.public_values_url == reply.public_values_url@,
{
}

/// The reply to a question says what it holds.
pub proof fn law_status_says_what_it_holds(reply: GetStatusResponse)
    ensures
        reply@.proof_id == reply.proof_id@,
        reply@.status == reply.status,
        reply@.step == reply.step,
        reply@.proving_time == reply.proving_time,
        reply@.total_steps == reply.total_steps,
        reply@.output_stream == reply.output_stream@,
        reply@.receipt == reply.receipt@,
        reply@.proof_with_public_inputs == reply.proof_with_public_inputs@,
        reply@.snark_proof_url == reply.snark_proof_url@,
        reply@.stark_proof_url == reply.stark_proof_url@,
        reply@.public_values_url == reply.public_values_url@,
{
}

/// A row that is added says what it holds.
pub proof fn law_new_row_says_what_it_holds(row: NewRow)
    ensures
        row@.proof_id == row.proof_id@,
        row@.user_address == row.user_address@,
        row@.status == row.status,
        row@.context == row.context@,
{
}

/// An accepted request says what it holds.
pub proof fn law_accepted_says_what_it_holds(accepted: Accepted)
    ensures
        accepted@.job == accepted.job,
        accepted@.user_address == accepted.user_address@,
        accepted@.from_step == accepted.from_step,
        accepted@.target_step == accepted.target_step,
{
}

/// The row of a task says what it holds.
pub proof fn law_task_row_says_what_it_holds(row: ProveTaskRow)
    ensures
        row@.id == row.id@,
        row@.kind == row.kind,
        row@.proof_id == row.proof_id@,
        row@.state == row.state,
        row@.node_info == row.node_info@,
        row@.time_cost == row.time_cost,
{
}

/// A run says what it keeps.
pub proof fn law_run_says_what_it_keeps(run: Run)
    ensures
        run@.id == run.id@,
        run@.recorded_at == run.recorded_at,
        run@.check_at == run.check_at,
        run@.max_prover_num == run.max_prover_num,
        run@.target_step == run.target_step,
        run@.snark_path == run.snark_path@,
{
}

/// What is to be proved says what it holds.
pub proof fn law_context_says_what_it_holds(ctx: ProveContext)
    ensures
        ctx@.program_id == ctx.program_id@,
        ctx@.elf_path == ctx.elf_path@,
        ctx@.segment == ctx.segment@,
        ctx@.seg_size == ctx.seg_size,
{
}

/// A signature taken apart says what it holds.
pub proof fn law_parts_say_what_they_hold(parts: SignatureParts)
    ensures
        parts@.r == parts.r@,
        parts@.s == parts.s@,
        parts@.v == parts.v,
{
}

/// The files for TLS are said as they are held.
pub proof fn law_paths_say_what_they_hold(paths: TlsPaths)
    ensures
        paths@.ca_cert == paths.ca_cert@,
        paths@.cert == paths.cert@,
        paths@.key == paths.key@,
{
}

/// A file is read for a reply under the path that is held.
pub proof fn law_files_say_what_they_hold(files: StatusFiles)
    ensures
        files.output_stream matches Some(path) ==> files@.output_stream == Some(path@),
        files.output_stream is None ==> files@.output_stream is None,
        files.receipt matches Some(path) ==> files@.receipt == Some(path@),
        files.receipt is None ==> files@.receipt is None,
        files.proof matches Some(path) ==> files@.proof == Some(path@),
        files.proof is None ==> files@.proof is None,
{
}

/// Something to do to the file system says what it is and what it holds.
pub proof fn law_op_says_what_it_holds(op: FileOp)
    ensures
        op matches FileOp::CreateDir { path } ==> op@ == (FileOpView::CreateDir { path: path@ }),
        op matches FileOp::Write { path, content } ==> op@ == (FileOpView::Write {
            path: path@,
            content: content@,
        }),
{
}

/// A change to a row says what it is and what it holds.
pub proof fn law_change_says_what_it_holds(update: RowUpdate)
    ensures
        update matches RowUpdate::CheckAt { id, old: from, new: to, step } ==> update@ == (
        UpdateView::CheckAt { id: id@, old: from, new: to, step }),
        update matches RowUpdate::Finish { id, status, result } ==> update@ == (UpdateView::Finish {
            id: id@,
            status,
            result: result@,
        }),
{
}

/// An execution that is to be traced says what it holds.
pub proof fn law_tracing_says_what_it_holds<S, P>(job: Tracing<S, P>)
    ensures
        job@.ctx == job.ctx@,
        job@.state == job.state,
        job@.public_values == job.public_values,
{
}

/// A record that is to be proved says what it holds.
pub proof fn law_proving_says_what_it_holds<P, R>(record: Proving<P, R>)
    ensures
        record@.ctx == record.ctx@,
        record@.record == record.record,
        record@.public_values == record.public_values,
{
}

/// The state of a request says which one it is and what it holds; what is left to do is what
/// comes next and then the rest.
pub proof fn law_state_of_a_request_says_what_it_holds(step: GenerateStep)
    ensures
        step matches GenerateStep::LookupUser(w) ==> step@ == (GenerateView::LookupUser {
            job: w.job,
            address: w.address@,
        }),
        step matches GenerateStep::ProbeElf(w) ==> step@ == (GenerateView::ProbeElf {
            accepted: w.accepted@,
            elf_id: w.elf_id@,
            elf_path: w.elf_path@,
            provided: w.provided,
        }),
        step matches GenerateStep::Perform(w) ==> step@ == (GenerateView::Perform {
            accepted: w.accepted@,
            elf_id: w.elf_id@,
            elf_path: w.elf_path@,
            ops: seq![w.op@] + op_views(w.later@),
        }),
        step matches GenerateStep::SerializeContext(w) ==> step@ == (GenerateView::SerializeContext {
            accepted: w.accepted@,
            task: w.task@,
        }),
        step matches GenerateStep::InsertTask(w) ==> step@ == (GenerateView::InsertTask {
            accepted: w.accepted@,
            context: w.context@,
        }),
        step matches GenerateStep::Enqueue(w) ==> step@ == (GenerateView::Enqueue {
            accepted: w.accepted@,
            context: w.context@,
        }),
        step matches GenerateStep::Reply(reply) ==> step@ == GenerateView::Reply(reply@),
        step matches GenerateStep::Fail(message) ==> step@ == GenerateView::Fail(message@),
{
}

/// The state of a run says which one it is and what it holds.
pub proof fn law_state_of_a_run_says_what_it_holds(step: StageStep)
    ensures
        step matches StageStep::Start(w) ==> step@ == (StageView::Start {
            run: w.run@,
        }),
        step matches StageStep::RecordStart(w) ==> step@ == (StageView::RecordStart {
            run: w.run@,
            update: w.update@,
            snapshot: w.snapshot,
        }),
        step matches StageStep::Fetch(w) ==> step@ == (StageView::Fetch {
            run: w.run@,
            current: w.current,
            kind: w.kind,
        }),
        step matches StageStep::Await(w) ==> step@ == (StageView::Await {
            run: w.run@,
            current: w.current,
        }),
        step matches StageStep::Save(w) ==> step@ == (StageView::Save {
            run: w.run@,
            current: w.current,
            snapshot: w.snapshot,
            row: w.row@,
        }),
        step matches StageStep::Advance(w) ==> step@ == (StageView::Advance {
            run: w.run@,
            current: w.current,
        }),
        step matches StageStep::RecordProgress(w) ==> step@ == (StageView::RecordProgress {
            run: w.run@,
            update: w.update@,
            snapshot: w.snapshot,
        }),
        step matches StageStep::ReadResult(w) ==> step@ == (StageView::ReadResult {
            run: w.run@,
            snapshot: w.snapshot,
        }),
        step matches StageStep::SingleNode(w) ==> step@ == (StageView::SingleNode {
            run: w.run@,
            task_id: w.task_id@,
            old_check_at: w.old_check_at,
        }),
        step matches StageStep::SaveSingle(w) ==> step@ == (StageView::SaveSingle {
            run: w.run@,
            snapshot: w.snapshot,
            result: w.result@,
            row: w.row@,
            total_steps: w.total_steps,
        }),
        step matches StageStep::Conclude(w) ==> step@ == (StageView::Conclude {
            run: w.run@,
            snapshot: w.snapshot,
            result: w.result@,
        }),
        step matches StageStep::Done(updates) ==> step@ == StageView::Done(update_views(updates@)),
        step matches StageStep::BreakOff { update, message } ==> step@ == (StageView::BreakOff {
            update: update@,
            message: message@,
        }),
{
}

/// The state of the proof of a segment says which one it is and what it holds.
pub proof fn law_state_of_a_segment_says_what_it_holds<S, P, R>(step: RootStep<S, P, R>)
    ensures
        step matches RootStep::Read(w) ==> step@ == (RootView::<S, P, R>::Read {
            ctx: w.ctx@,
            retries: w.retries as nat,
        }),
        step matches RootStep::Decode(w) ==> step@ == (RootView::<S, P, R>::Decode {
            ctx: w.ctx@,
            retries: w.retries as nat,
            bytes: w.bytes@,
        }),
        step matches RootStep::Pause(w) ==> step@ == (RootView::<S, P, R>::Pause {
            ctx: w.ctx@,
            retries: w.retries as nat,
            complaint: w.complaint@,
        }),
        step matches RootStep::AskProgram(w) ==> step@ == (RootView::<S, P, R>::AskProgram {
            job: w.job@,
        }),
        step matches RootStep::LookProgram(w) ==> step@ == (RootView::<S, P, R>::LookProgram {
            job: w.job@,
            slot: w.slot,
            let_go: w.let_go,
        }),
        step matches RootStep::ReadElf(w) ==> step@ == (RootView::<S, P, R>::ReadElf {
            job: w.job@,
            slot: w.slot,
        }),
        step matches RootStep::BuildProgram(w) ==> step@ == (RootView::<S, P, R>::BuildProgram {
            job: w.job@,
            slot: w.slot,
            elf: w.elf@,
        }),
        step matches RootStep::KeepProgram(w) ==> step@ == (RootView::<S, P, R>::KeepProgram {
            job: w.job@,
            slot: w.slot,
        }),
        step matches RootStep::Trace { state, trace } ==> step@ == (RootView::<S, P, R>::Trace {
            job: TracingView {
                ctx: trace.ctx@,
                state,
                public_values: trace.public_values,
            },
            slot: trace.slot,
        }),
        step matches RootStep::AskKeys(w) ==> step@ == (RootView::<S, P, R>::AskKeys {
            record: w.job@,
        }),
        step matches RootStep::LookKeys(w) ==> step@ == (RootView::<S, P, R>::LookKeys {
            record: w.job@,
            slot: w.slot,
            let_go: w.let_go,
        }),
        step matches RootStep::KeepKeys(w) ==> step@ == (RootView::<S, P, R>::KeepKeys {
            record: w.job@,
            slot: w.slot,
        }),
        step matches RootStep::Prove { record, public_values, proof } ==> step@ == (RootView::<S, P, R>::Prove {
            record: ProvingView { ctx: proof.ctx@, record, public_values },
            slot: proof.slot,
        }),
        step matches RootStep::Done(proof) ==> step@ == RootView::<S, P, R>::Done(proof@),
        step matches RootStep::Fail(message) ==> step@ == RootView::<S, P, R>::Fail(message@),
{
}

/// The state of a whole proof says which one it is and what it holds.
pub proof fn law_state_of_a_whole_proof_says_what_it_holds(step: NodeStep)
    ensures
        step matches NodeStep::ReadElf(w) ==> step@ == (NodeView::ReadElf {
            job: w.job,
        }),
        step matches NodeStep::ReadInput(w) ==> step@ == (NodeView::ReadInput {
            job: w.job,
            elf: w.elf@,
        }),
        step matches NodeStep::ReadReceipts(w) ==> step@ == (NodeView::ReadReceipts {
            job: w.job,
            elf: w.elf@,
            inputs: chunk_views(w.inputs@),
        }),
        step matches NodeStep::Feed(w) ==> step@ == (NodeView::Feed {
            job: w.job,
            elf: w.elf@,
            inputs: chunk_views(w.inputs@),
            receipts: chunk_views(w.receipts@),
        }),
        step matches NodeStep::AskProgram(w) ==> step@ == (NodeView::AskProgram {
            job: w.job,
            elf: w.elf@,
        }),
        step matches NodeStep::LookProgram(w) ==> step@ == (NodeView::LookProgram {
            job: w.job,
            elf: w.elf@,
            slot: w.slot,
            let_go: w.let_go,
        }),
        step matches NodeStep::BuildProgram(w) ==> step@ == (NodeView::BuildProgram {
            job: w.job,
            elf: w.elf@,
            slot: w.slot,
        }),
        step matches NodeStep::KeepProgram(w) ==> step@ == (NodeView::KeepProgram {
            job: w.job,
            slot: w.slot,
        }),
        step matches NodeStep::AskKeys(w) ==> step@ == (NodeView::AskKeys {
            job: w.job,
            program: w.program,
        }),
        step matches NodeStep::LookKeys(w) ==> step@ == (NodeView::LookKeys {
            job: w.job,
            program: w.program,
            slot: w.slot,
            let_go: w.let_go,
        }),
        step matches NodeStep::KeepKeys(w) ==> step@ == (NodeView::KeepKeys {
            job: w.job,
            program: w.program,
            slot: w.slot,
        }),
        step matches NodeStep::EncodeKey(w) ==> step@ == (NodeView::EncodeKey {
            job: w.job,
            slots: w.slots,
        }),
        step matches NodeStep::StoreKey(w) ==> step@ == (NodeView::StoreKey {
            job: w.job,
            slots: w.slots,
            path: w.path@,
            content: w.content@,
        }),
        step matches NodeStep::ProveCore(w) ==> step@ == (NodeView::ProveCore {
            job: w.job,
            slots: w.slots,
        }),
        step matches NodeStep::Compress(w) ==> step@ == (NodeView::Compress {
            job: w.job,
            slots: w.slots,
            cycles: w.cycles,
            public_values: w.public_values@,
        }),
        step matches NodeStep::Form(w) ==> step@ == (NodeView::Form {
            job: w.job,
            cycles: w.cycles,
            public_values: w.public_values@,
            form: w.form,
        }),
        step matches NodeStep::StoreValues(w) ==> step@ == (NodeView::StoreValues {
            cycles: w.cycles,
            path: w.path@,
            content: w.content@,
        }),
        step matches NodeStep::Encode(w) ==> step@ == (NodeView::Encode {
            cycles: w.cycles,
        }),
        step matches NodeStep::Done(cycles, proof) ==> step@ == (NodeView::Done {
            cycles: cycles,
            proof: proof@,
        }),
        step matches NodeStep::Fail(message) ==> step@ == NodeView::Fail(message@),
{
}

/// The state of a start says which one it is and what it holds.
pub proof fn law_state_of_a_start_says_what_it_holds(step: StartupStep)
    ensures
        step matches StartupStep::SetUpTls(w) ==> step@ == (StartupView::SetUpTls {
            service: w.service,
            paths: w.paths@,
        }),
        step matches StartupStep::Migrate(w) ==> step@ == (StartupView::Migrate {
            service: w.service,
            tls: w.tls,
        }),
        step matches StartupStep::LoadBacklog(w) ==> step@ == (StartupView::LoadBacklog {
            service: w.service,
            manager: w.manager,
            tls: w.tls,
        }),
        step matches StartupStep::StartWorkers(w) ==> step@ == (StartupView::StartWorkers {
            service: w.service,
            manager: w.manager,
            tls: w.tls,
        }),
        step matches StartupStep::Ready(service) ==> step@ == (StartupView::Ready {
            service: service,
        }),
        step matches StartupStep::Fail(message) ==> step@ == StartupView::Fail(message@),
{
}

/// The state of the loading says which one it is and what it holds.
pub proof fn law_state_of_the_loading_says_what_it_holds(step: LoadStep)
    ensures
        step matches LoadStep::Send(w) ==> step@ == w@,
        step matches LoadStep::Done(loaded) ==> step@ == (LoadView::Done {
            loaded: loaded as nat,
        }),
        step matches LoadStep::Fail { message, cause } ==> step@ == (LoadView::Fail {
            message: message@,
            cause: cause@,
        }),
{
}

} // verus!
