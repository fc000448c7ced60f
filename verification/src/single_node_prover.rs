//! How one machine makes a whole proof.
//!
//! The files of the program and of its inputs are read, the program and its keys are had
//! from the caches or made where their slots are empty, the program is proved and the proof
//! compressed and, for a SNARK, wrapped. Each state below names what is to be done
//! outside; its `answer` takes what came of it and gives the next state. A failure ends
//! the work with its message.
use crate::cache::{ProgramCache, StarkKeyCache};
use crate::codec::{
    bincode_complaint, chunk_views, decode_chunks, law_list_round_trip, read_list, storable,
    stored_list,
};
use crate::layout::{lemma_joined_stays_under, lemma_joined_under, under};
use crate::memory::{law_asking_keeps, law_slot_is_filled_if_kept, Memory, Shelf};
use crate::outcome::{bytes_view, done_view};
use crate::text::{join_path, joined};
use vstd::prelude::*;

verus! {

/// What a proof on one machine stops at. `Other` is any step at which none can stop.
#[derive(Clone, Copy, PartialEq, Eq, Structural, Debug)]
pub enum NodeTarget {
    InAgg,
    InSnark,
    Other(i32),
}

/// What is to be proved.
pub struct SingleNodeContext {
    pub program_id: String,
    /// The file of the program.
    pub elf_path: String,
    /// The file of the inputs.
    pub private_input_path: String,
    /// The file of the receipts that the program verifies; empty if there are none.
    pub receipt_inputs_path: String,
    /// The directory of the proof.
    pub base_dir: String,
    pub seg_size: u32,
    pub target_step: NodeTarget,
}

/// The prover of whole proofs.
pub struct SingleNodeProver {
    proving_key_paths: String,
}

/// What is to be proved, and where the keys of the SNARK are.
#[derive(Clone, Copy)]
pub struct NodeJob<'a> {
    pub ctx: &'a SingleNodeContext,
    pub proving_key_paths: &'a str,
}

/// What a proof is made into.
#[derive(Clone, Copy, PartialEq, Eq, Structural, Debug)]
pub enum ProofForm {
    /// The compressed proof as it is.
    Compressed,
    /// A Groth16 proof, made of it with the keys of the SNARK.
    Groth16,
}

/// The file of the program is to be read.
pub struct ElfRead<'a> {
    pub job: NodeJob<'a>,
}

/// The file of the inputs is to be read.
pub struct InputRead<'a> {
    pub job: NodeJob<'a>,
    pub elf: Vec<u8>,
}

/// The file of the receipts is to be read.
pub struct ReceiptRead<'a> {
    pub job: NodeJob<'a>,
    pub elf: Vec<u8>,
    pub inputs: Vec<Vec<u8>>,
}

/// The program is to be given these inputs and then, decoded, these receipts.
pub struct FeedWork<'a> {
    pub job: NodeJob<'a>,
    pub elf: Vec<u8>,
    pub inputs: Vec<Vec<u8>>,
    pub receipts: Vec<Vec<u8>>,
}

/// The cache of programs is to be asked for the slot of the program.
pub struct NodeProgramAsk<'a> {
    pub job: NodeJob<'a>,
    pub elf: Vec<u8>,
}

/// The slot `let_go` is to be dropped, and whether `slot` is filled to be found out. No
/// other proof may fill it until this one has gone on to the keys or failed.
pub struct NodeProgramLook<'a> {
    pub job: NodeJob<'a>,
    pub elf: Vec<u8>,
    pub slot: u64,
    pub let_go: Option<u64>,
}

/// The program is to be made from its file.
pub struct NodeBuild<'a> {
    pub job: NodeJob<'a>,
    pub elf: Vec<u8>,
    pub slot: u64,
}

/// The slot is to be filled with the program that was made.
pub struct NodeProgramKeep<'a> {
    pub job: NodeJob<'a>,
    pub slot: u64,
}

/// The slots of a program and of its keys.
#[derive(Clone, Copy, PartialEq, Eq, Structural, Debug)]
pub struct NodeSlots {
    pub program: u64,
    pub keys: u64,
}

/// The cache of keys is to be asked for the slot of the keys of the program in `program`.
pub struct NodeKeysAsk<'a> {
    pub job: NodeJob<'a>,
    pub program: u64,
}

/// The slot `let_go` is to be dropped, and whether `slot` is filled to be found out. No
/// other proof may fill it until this one has gone on to the verifying key.
pub struct NodeKeysLook<'a> {
    pub job: NodeJob<'a>,
    pub program: u64,
    pub slot: u64,
    pub let_go: Option<u64>,
}

/// The keys are to be made from the program in `program`, and `slot` filled with them.
pub struct NodeKeysKeep<'a> {
    pub job: NodeJob<'a>,
    pub program: u64,
    pub slot: u64,
}

/// The verifying key of those in the slot of the keys is to be turned into bytes.
pub struct KeyEncode<'a> {
    pub job: NodeJob<'a>,
    pub slots: NodeSlots,
}

/// The verifying key is to be written.
pub struct KeyStore<'a> {
    pub job: NodeJob<'a>,
    pub slots: NodeSlots,
    pub path: String,
    pub content: Vec<u8>,
}

/// The program in its slot is to be proved with the keys in theirs.
pub struct CoreWork<'a> {
    pub job: NodeJob<'a>,
    pub slots: NodeSlots,
}

/// The proof is to be compressed, with the verifying key in the slot of the keys.
pub struct CompressWork<'a> {
    pub job: NodeJob<'a>,
    pub slots: NodeSlots,
    pub cycles: u64,
    pub public_values: Vec<u8>,
}

/// The compressed proof is to be made into this form.
pub struct FormWork<'a> {
    pub job: NodeJob<'a>,
    pub cycles: u64,
    pub public_values: Vec<u8>,
    pub form: ProofForm,
}

/// The public values are to be written.
pub struct ValuesStore {
    pub cycles: u64,
    pub path: String,
    pub content: Vec<u8>,
}

/// The proof is to be written as JSON.
pub struct EncodeWork {
    pub cycles: u64,
}

/// How far a proof has come.
pub enum NodeStep<'a> {
    ReadElf(ElfRead<'a>),
    ReadInput(InputRead<'a>),
    ReadReceipts(ReceiptRead<'a>),
    Feed(FeedWork<'a>),
    AskProgram(NodeProgramAsk<'a>),
    LookProgram(NodeProgramLook<'a>),
    BuildProgram(NodeBuild<'a>),
    KeepProgram(NodeProgramKeep<'a>),
    AskKeys(NodeKeysAsk<'a>),
    LookKeys(NodeKeysLook<'a>),
    KeepKeys(NodeKeysKeep<'a>),
    EncodeKey(KeyEncode<'a>),
    StoreKey(KeyStore<'a>),
    ProveCore(CoreWork<'a>),
    Compress(CompressWork<'a>),
    Form(FormWork<'a>),
    StoreValues(ValuesStore),
    Encode(EncodeWork),
    /// How many cycles the program ran, and its proof.
    Done(u64, Vec<u8>),
    /// There is no proof, for this reason.
    Fail(String),
}

/// What a [`NodeStep`] says.
pub enum NodeView<'a> {
    ReadElf { job: NodeJob<'a> },
    ReadInput { job: NodeJob<'a>, elf: Seq<u8> },
    ReadReceipts { job: NodeJob<'a>, elf: Seq<u8>, inputs: Seq<Seq<u8>> },
    Feed { job: NodeJob<'a>, elf: Seq<u8>, inputs: Seq<Seq<u8>>, receipts: Seq<Seq<u8>> },
    AskProgram { job: NodeJob<'a>, elf: Seq<u8> },
    LookProgram { job: NodeJob<'a>, elf: Seq<u8>, slot: u64, let_go: Option<u64> },
    BuildProgram { job: NodeJob<'a>, elf: Seq<u8>, slot: u64 },
    KeepProgram { job: NodeJob<'a>, slot: u64 },
    AskKeys { job: NodeJob<'a>, program: u64 },
    LookKeys { job: NodeJob<'a>, program: u64, slot: u64, let_go: Option<u64> },
    KeepKeys { job: NodeJob<'a>, program: u64, slot: u64 },
    EncodeKey { job: NodeJob<'a>, slots: NodeSlots },
    StoreKey { job: NodeJob<'a>, slots: NodeSlots, path: Seq<char>, content: Seq<u8> },
    ProveCore { job: NodeJob<'a>, slots: NodeSlots },
    Compress { job: NodeJob<'a>, slots: NodeSlots, cycles: u64, public_values: Seq<u8> },
    Form { job: NodeJob<'a>, cycles: u64, public_values: Seq<u8>, form: ProofForm },
    StoreValues { cycles: u64, path: Seq<char>, content: Seq<u8> },
    Encode { cycles: u64 },
    Done { cycles: u64, proof: Seq<u8> },
    Fail(Seq<char>),
}

impl<'a> View for NodeStep<'a> {
    type V = NodeView<'a>;

    open spec fn view(&self) -> NodeView<'a> {
        match self {
            NodeStep::ReadElf(w) => NodeView::ReadElf { job: w.job },
            NodeStep::ReadInput(w) => NodeView::ReadInput { job: w.job, elf: w.elf@ },
            NodeStep::ReadReceipts(w) => NodeView::ReadReceipts {
                job: w.job,
                elf: w.elf@,
                inputs: chunk_views(w.inputs@),
            },
            NodeStep::Feed(w) => NodeView::Feed {
                job: w.job,
                elf: w.elf@,
                inputs: chunk_views(w.inputs@),
                receipts: chunk_views(w.receipts@),
            },
            NodeStep::AskProgram(w) => NodeView::AskProgram { job: w.job, elf: w.elf@ },
            NodeStep::LookProgram(w) => NodeView::LookProgram {
                job: w.job,
                elf: w.elf@,
                slot: w.slot,
                let_go: w.let_go,
            },
            NodeStep::BuildProgram(w) => NodeView::BuildProgram {
                job: w.job,
                elf: w.elf@,
                slot: w.slot,
            },
            NodeStep::KeepProgram(w) => NodeView::KeepProgram { job: w.job, slot: w.slot },
            NodeStep::AskKeys(w) => NodeView::AskKeys { job: w.job, program: w.program },
            NodeStep::LookKeys(w) => NodeView::LookKeys {
                job: w.job,
                program: w.program,
                slot: w.slot,
                let_go: w.let_go,
            },
            NodeStep::KeepKeys(w) => NodeView::KeepKeys {
                job: w.job,
                program: w.program,
                slot: w.slot,
            },
            NodeStep::EncodeKey(w) => NodeView::EncodeKey { job: w.job, slots: w.slots },
            NodeStep::StoreKey(w) => NodeView::StoreKey {
                job: w.job,
                slots: w.slots,
                path: w.path@,
                content: w.content@,
            },
            NodeStep::ProveCore(w) => NodeView::ProveCore { job: w.job, slots: w.slots },
            NodeStep::Compress(w) => NodeView::Compress {
                job: w.job,
                slots: w.slots,
                cycles: w.cycles,
                public_values: w.public_values@,
            },
            NodeStep::Form(w) => NodeView::Form {
                job: w.job,
                cycles: w.cycles,
                public_values: w.public_values@,
                form: w.form,
            },
            NodeStep::StoreValues(w) => NodeView::StoreValues {
                cycles: w.cycles,
                path: w.path@,
                content: w.content@,
            },
            NodeStep::Encode(w) => NodeView::Encode { cycles: w.cycles },
            NodeStep::Done(cycles, proof) => NodeView::Done { cycles: *cycles, proof: proof@ },
            NodeStep::Fail(message) => NodeView::Fail(message@),
        }
    }
}

// ---------------------------------------------------------------------------
// The decisions
// ---------------------------------------------------------------------------

/// The state after the file of the program was read.
pub open spec fn elf_read<'a>(
    job: NodeJob<'a>,
    outcome: Result<Seq<u8>, Seq<char>>,
) -> NodeView<'a> {
    match outcome {
        Ok(elf) => NodeView::ReadInput { job, elf },
        Err(message) => NodeView::Fail(message),
    }
}

/// The state after the file of the inputs was read: receipts are read only where a file
/// of receipts is named.
pub open spec fn input_read<'a>(
    job: NodeJob<'a>,
    elf: Seq<u8>,
    outcome: Result<Seq<u8>, Seq<char>>,
) -> NodeView<'a> {
    match outcome {
        Ok(bytes) => match read_list(bytes) {
            Some(inputs) => if job.ctx.receipt_inputs_path@.len() == 0 {
                NodeView::Feed { job, elf, inputs, receipts: Seq::empty() }
            } else {
                NodeView::ReadReceipts { job, elf, inputs }
            },
            None => NodeView::Fail(bincode_complaint(bytes)),
        },
        Err(message) => NodeView::Fail(message),
    }
}

/// The state after the file of the receipts was read.
pub open spec fn receipts_read<'a>(
    job: NodeJob<'a>,
    elf: Seq<u8>,
    inputs: Seq<Seq<u8>>,
    outcome: Result<Seq<u8>, Seq<char>>,
) -> NodeView<'a> {
    match outcome {
        Ok(bytes) => match read_list(bytes) {
            Some(receipts) => NodeView::Feed { job, elf, inputs, receipts },
            None => NodeView::Fail(bincode_complaint(bytes)),
        },
        Err(message) => NodeView::Fail(message),
    }
}

/// The state after the program was given its inputs.
pub open spec fn fed<'a>(
    job: NodeJob<'a>,
    elf: Seq<u8>,
    outcome: Result<(), Seq<char>>,
) -> NodeView<'a> {
    match outcome {
        Ok(_) => NodeView::AskProgram { job, elf },
        Err(message) => NodeView::Fail(message),
    }
}

/// The state once it is known whether the slot of the program is filled.
pub open spec fn node_program_looked<'a>(
    job: NodeJob<'a>,
    elf: Seq<u8>,
    slot: u64,
    filled: bool,
) -> NodeView<'a> {
    if filled {
        NodeView::AskKeys { job, program: slot }
    } else {
        NodeView::BuildProgram { job, elf, slot }
    }
}

/// The state after the program was made, or not.
pub open spec fn node_built<'a>(
    job: NodeJob<'a>,
    slot: u64,
    outcome: Result<(), Seq<char>>,
) -> NodeView<'a> {
    match outcome {
        Ok(_) => NodeView::KeepProgram { job, slot },
        Err(message) => NodeView::Fail(message),
    }
}

/// The state after the slot of the program was filled.
pub open spec fn node_program_kept<'a>(job: NodeJob<'a>, slot: u64) -> NodeView<'a> {
    NodeView::AskKeys { job, program: slot }
}

/// The state after the slot of the keys was filled.
pub open spec fn node_keys_made<'a>(job: NodeJob<'a>, program: u64, slot: u64) -> NodeView<'a> {
    NodeView::EncodeKey { job, slots: NodeSlots { program, keys: slot } }
}

/// The state once it is known whether the slot of the keys is filled.
pub open spec fn node_keys_looked<'a>(
    job: NodeJob<'a>,
    program: u64,
    slot: u64,
    filled: bool,
) -> NodeView<'a> {
    if filled {
        NodeView::EncodeKey { job, slots: NodeSlots { program, keys: slot } }
    } else {
        NodeView::KeepKeys { job, program, slot }
    }
}

/// The file of the verifying key.
pub open spec fn key_file(job: NodeJob) -> Seq<char> {
    joined(job.ctx.base_dir@, "vk.bin"@)
}

/// The file of the public values.
pub open spec fn values_file(job: NodeJob) -> Seq<char> {
    joined(joined(job.ctx.base_dir@, "wrap"@), "public_values.bin"@)
}

/// The state after the verifying key was turned into bytes.
pub open spec fn key_encoded<'a>(
    job: NodeJob<'a>,
    slots: NodeSlots,
    outcome: Result<Seq<u8>, Seq<char>>,
) -> NodeView<'a> {
    match outcome {
        Ok(content) => NodeView::StoreKey { job, slots, path: key_file(job), content },
        Err(message) => NodeView::Fail(message),
    }
}

/// The state after the verifying key was written.
pub open spec fn key_stored<'a>(
    job: NodeJob<'a>,
    slots: NodeSlots,
    outcome: Result<(), Seq<char>>,
) -> NodeView<'a> {
    match outcome {
        Ok(_) => NodeView::ProveCore { job, slots },
        Err(message) => NodeView::Fail(message),
    }
}

/// The state after the program was proved.
pub open spec fn core_proved<'a>(
    job: NodeJob<'a>,
    slots: NodeSlots,
    outcome: Result<(u64, Seq<u8>), Seq<char>>,
) -> NodeView<'a> {
    match outcome {
        Ok((cycles, public_values)) => NodeView::Compress { job, slots, cycles, public_values },
        Err(message) => NodeView::Fail(message),
    }
}

/// The form that a proof is made into.
pub open spec fn form_for(target: NodeTarget) -> ProofForm {
    if target == NodeTarget::InAgg {
        ProofForm::Compressed
    } else {
        ProofForm::Groth16
    }
}

/// The state after the proof was compressed.
pub open spec fn compressed<'a>(
    job: NodeJob<'a>,
    cycles: u64,
    public_values: Seq<u8>,
    outcome: Result<(), Seq<char>>,
) -> NodeView<'a> {
    match outcome {
        Ok(_) => NodeView::Form {
            job,
            cycles,
            public_values,
            form: form_for(job.ctx.target_step),
        },
        Err(message) => NodeView::Fail(message),
    }
}

/// The state after the proof was made into its form.
pub open spec fn formed<'a>(
    job: NodeJob<'a>,
    cycles: u64,
    public_values: Seq<u8>,
    outcome: Result<(), Seq<char>>,
) -> NodeView<'a> {
    match outcome {
        Ok(_) => NodeView::StoreValues { cycles, path: values_file(job), content: public_values },
        Err(message) => NodeView::Fail(message),
    }
}

/// The state after the public values were written.
pub open spec fn values_stored<'a>(cycles: u64, outcome: Result<(), Seq<char>>) -> NodeView<'a> {
    match outcome {
        Ok(_) => NodeView::Encode { cycles },
        Err(message) => NodeView::Fail(message),
    }
}

/// The state after the proof was written as JSON.
pub open spec fn encoded<'a>(
    cycles: u64,
    outcome: Result<Seq<u8>, Seq<char>>,
) -> NodeView<'a> {
    match outcome {
        Ok(proof) => NodeView::Done { cycles, proof },
        Err(message) => NodeView::Fail(message),
    }
}

// ---------------------------------------------------------------------------
// The steps
// ---------------------------------------------------------------------------

impl Default for SingleNodeProver {
    fn default() -> (r: Self)
        ensures
            r.keys() == Seq::<char>::empty(),
    {
        let none: String = String::new();
        assert(none@ =~= Seq::<char>::empty());
        SingleNodeProver { proving_key_paths: none }
    }
}

impl SingleNodeProver {
    /// Where the keys of the SNARK are.
    pub closed spec fn keys(self) -> Seq<char> {
        self.proving_key_paths@
    }

    /// A prover with the keys of the SNARK in this directory.
    pub fn new(proving_key_paths: &str) -> (r: Self)
        ensures
            r.keys() == proving_key_paths@,
    {
        SingleNodeProver { proving_key_paths: proving_key_paths.to_string() }
    }

    /// Begins a proof.
    pub fn prove<'a>(&'a self, ctx: &'a SingleNodeContext) -> (r: NodeStep<'a>)
        ensures
            r@ is ReadElf,
            r@->ReadElf_job.ctx == ctx,
            r@->ReadElf_job.proving_key_paths@ == self.keys(),
    {
        NodeStep::ReadElf(
            ElfRead { job: NodeJob { ctx, proving_key_paths: self.proving_key_paths.as_str() } },
        )
    }
}

impl<'a> ElfRead<'a> {
    /// Goes on with what the file holds, or the message in its place.
    pub fn answer(self, outcome: Result<Vec<u8>, String>) -> (r: NodeStep<'a>)
        ensures
            r@ == elf_read(self.job, bytes_view(outcome)),
    {
        match outcome {
            Ok(elf) => NodeStep::ReadInput(InputRead { job: self.job, elf }),
            Err(message) => NodeStep::Fail(message),
        }
    }
}

impl<'a> InputRead<'a> {
    /// Goes on with what the file holds, or the message in its place.
    pub fn answer(self, outcome: Result<Vec<u8>, String>) -> (r: NodeStep<'a>)
        ensures
            r@ == input_read(self.job, self.elf@, bytes_view(outcome)),
    {
        let bytes: Vec<u8> = match outcome {
            Ok(bytes) => bytes,
            Err(message) => {
                return NodeStep::Fail(message);
            },
        };
        match decode_chunks(bytes.as_slice()) {
            Ok(inputs) => {
                if self.job.ctx.receipt_inputs_path.as_str().is_empty() {
                    let receipts: Vec<Vec<u8>> = Vec::new();
                    assert(chunk_views(receipts@) =~= Seq::<Seq<u8>>::empty());
                    NodeStep::Feed(FeedWork { job: self.job, elf: self.elf, inputs, receipts })
                } else {
                    NodeStep::ReadReceipts(ReceiptRead { job: self.job, elf: self.elf, inputs })
                }
            },
            Err(message) => NodeStep::Fail(message),
        }
    }
}

impl<'a> ReceiptRead<'a> {
    /// Goes on with what the file holds, or the message in its place.
    pub fn answer(self, outcome: Result<Vec<u8>, String>) -> (r: NodeStep<'a>)
        ensures
            r@ == receipts_read(
                self.job,
                self.elf@,
                chunk_views(self.inputs@),
                bytes_view(outcome),
            ),
    {
        let bytes: Vec<u8> = match outcome {
            Ok(bytes) => bytes,
            Err(message) => {
                return NodeStep::Fail(message);
            },
        };
        match decode_chunks(bytes.as_slice()) {
            Ok(receipts) => NodeStep::Feed(
                FeedWork { job: self.job, elf: self.elf, inputs: self.inputs, receipts },
            ),
            Err(message) => NodeStep::Fail(message),
        }
    }
}

impl<'a> FeedWork<'a> {
    /// Goes on, unless a receipt could not be decoded.
    pub fn answer(self, outcome: Result<(), String>) -> (r: NodeStep<'a>)
        ensures
            r@ == fed(self.job, self.elf@, done_view(outcome)),
    {
        match outcome {
            Ok(_) => NodeStep::AskProgram(NodeProgramAsk { job: self.job, elf: self.elf }),
            Err(message) => NodeStep::Fail(message),
        }
    }
}

impl<'a> NodeProgramAsk<'a> {
    /// Asks the cache for the slot of the program.
    pub fn ask(self, programs: &mut ProgramCache) -> (r: NodeProgramLook<'a>)
        requires
            old(programs)@.wf(),
            old(programs)@.made < u64::MAX,
        ensures
            final(programs)@ == old(programs)@.asked(self.job.ctx.program_id@),
            final(programs)@.wf(),
            r.job == self.job,
            r.elf == self.elf,
            r.slot == old(programs)@.slot_for(self.job.ctx.program_id@),
            r.let_go == old(programs)@.let_go(self.job.ctx.program_id@),
    {
        let grant = programs.get_or_init_slot(self.job.ctx.program_id.as_str());
        NodeProgramLook {
            job: self.job,
            elf: self.elf,
            slot: grant.slot,
            let_go: grant.let_go,
        }
    }
}

impl<'a> NodeProgramLook<'a> {
    /// Goes on, knowing whether the slot is filled: the program is made only if it is not.
    pub fn answer(self, filled: bool) -> (r: NodeStep<'a>)
        ensures
            r@ == node_program_looked(self.job, self.elf@, self.slot, filled),
    {
        if filled {
            NodeStep::AskKeys(NodeKeysAsk { job: self.job, program: self.slot })
        } else {
            NodeStep::BuildProgram(NodeBuild { job: self.job, elf: self.elf, slot: self.slot })
        }
    }
}

impl<'a> NodeBuild<'a> {
    /// Goes on, unless the program could not be made. A slot is not filled with a failure.
    pub fn answer(self, outcome: Result<(), String>) -> (r: NodeStep<'a>)
        ensures
            r@ == node_built(self.job, self.slot, done_view(outcome)),
    {
        match outcome {
            Ok(_) => NodeStep::KeepProgram(NodeProgramKeep { job: self.job, slot: self.slot }),
            Err(message) => NodeStep::Fail(message),
        }
    }
}

impl<'a> NodeProgramKeep<'a> {
    /// Goes on, the slot being filled.
    pub fn answer(self) -> (r: NodeStep<'a>)
        ensures
            r@ == node_program_kept(self.job, self.slot),
    {
        NodeStep::AskKeys(NodeKeysAsk { job: self.job, program: self.slot })
    }
}

impl<'a> NodeKeysAsk<'a> {
    /// Asks the cache for the slot of the keys.
    pub fn ask(self, keys: &mut StarkKeyCache) -> (r: NodeKeysLook<'a>)
        requires
            old(keys)@.wf(),
            old(keys)@.made < u64::MAX,
        ensures
            final(keys)@ == old(keys)@.asked(self.job.ctx.program_id@),
            final(keys)@.wf(),
            r.job == self.job,
            r.program == self.program,
            r.slot == old(keys)@.slot_for(self.job.ctx.program_id@),
            r.let_go == old(keys)@.let_go(self.job.ctx.program_id@),
    {
        let grant = keys.get_or_init_slot(self.job.ctx.program_id.as_str());
        NodeKeysLook {
            job: self.job,
            program: self.program,
            slot: grant.slot,
            let_go: grant.let_go,
        }
    }
}

impl<'a> NodeKeysLook<'a> {
    /// Goes on, knowing whether the slot is filled: keys are made only if it is not.
    pub fn answer(self, filled: bool) -> (r: NodeStep<'a>)
        ensures
            r@ == node_keys_looked(self.job, self.program, self.slot, filled),
    {
        if filled {
            NodeStep::EncodeKey(
                KeyEncode {
                    job: self.job,
                    slots: NodeSlots { program: self.program, keys: self.slot },
                },
            )
        } else {
            NodeStep::KeepKeys(
                NodeKeysKeep { job: self.job, program: self.program, slot: self.slot },
            )
        }
    }
}

impl<'a> NodeKeysKeep<'a> {
    /// Goes on, the slot being filled.
    pub fn answer(self) -> (r: NodeStep<'a>)
        ensures
            r@ == node_keys_made(self.job, self.program, self.slot),
    {
        NodeStep::EncodeKey(
            KeyEncode {
                job: self.job,
                slots: NodeSlots { program: self.program, keys: self.slot },
            },
        )
    }
}

impl<'a> KeyEncode<'a> {
    /// Goes on with the verifying key as bytes, or the message in its place.
    pub fn answer(self, outcome: Result<Vec<u8>, String>) -> (r: NodeStep<'a>)
        ensures
            r@ == key_encoded(self.job, self.slots, bytes_view(outcome)),
    {
        match outcome {
            Ok(content) => NodeStep::StoreKey(
                KeyStore {
                    job: self.job,
                    slots: self.slots,
                    path: join_path(self.job.ctx.base_dir.as_str(), "vk.bin"),
                    content,
                },
            ),
            Err(message) => NodeStep::Fail(message),
        }
    }
}

impl<'a> KeyStore<'a> {
    /// Goes on, unless the key could not be written.
    pub fn answer(self, outcome: Result<(), String>) -> (r: NodeStep<'a>)
        ensures
            r@ == key_stored(self.job, self.slots, done_view(outcome)),
    {
        match outcome {
            Ok(_) => NodeStep::ProveCore(CoreWork { job: self.job, slots: self.slots }),
            Err(message) => NodeStep::Fail(message),
        }
    }
}

impl<'a> CoreWork<'a> {
    /// Goes on with the cycles that the program ran and its public values, or the
    /// message in their place.
    pub fn answer(self, outcome: Result<(u64, Vec<u8>), String>) -> (r: NodeStep<'a>)
        ensures
            r@ == core_proved(
                self.job,
                self.slots,
                match outcome {
                    Ok(run) => Ok((run.0, run.1@)),
                    Err(message) => Err(message@),
                },
            ),
    {
        match outcome {
            Ok(run) => NodeStep::Compress(
                CompressWork {
                    job: self.job,
                    slots: self.slots,
                    cycles: run.0,
                    public_values: run.1,
                },
            ),
            Err(message) => NodeStep::Fail(message),
        }
    }
}

impl<'a> CompressWork<'a> {
    /// Goes on, unless the proof could not be compressed. It must be one that stops at
    /// an aggregation or a SNARK.
    pub fn answer(self, outcome: Result<(), String>) -> (r: NodeStep<'a>)
        requires
            outcome is Ok ==> self.job.ctx.target_step == NodeTarget::InAgg
                || self.job.ctx.target_step == NodeTarget::InSnark,
        ensures
            r@ == compressed(self.job, self.cycles, self.public_values@, done_view(outcome)),
    {
        match outcome {
            Ok(_) => {
                let form: ProofForm = match self.job.ctx.target_step {
                    NodeTarget::InAgg => ProofForm::Compressed,
                    _ => ProofForm::Groth16,
                };
                NodeStep::Form(
                    FormWork {
                        job: self.job,
                        cycles: self.cycles,
                        public_values: self.public_values,
                        form,
                    },
                )
            },
            Err(message) => NodeStep::Fail(message),
        }
    }
}

impl<'a> FormWork<'a> {
    /// Goes on, unless the proof could not be made into its form.
    pub fn answer(self, outcome: Result<(), String>) -> (r: NodeStep<'a>)
        ensures
            r@ == formed(self.job, self.cycles, self.public_values@, done_view(outcome)),
    {
        match outcome {
            Ok(_) => NodeStep::StoreValues(
                ValuesStore {
                    cycles: self.cycles,
                    path: join_path(
                        join_path(self.job.ctx.base_dir.as_str(), "wrap").as_str(),
                        "public_values.bin",
                    ),
                    content: self.public_values,
                },
            ),
            Err(message) => NodeStep::Fail(message),
        }
    }
}

impl ValuesStore {
    /// Goes on, unless the public values could not be written.
    pub fn answer<'a>(self, outcome: Result<(), String>) -> (r: NodeStep<'a>)
        ensures
            r@ == values_stored(self.cycles, done_view(outcome)),
    {
        match outcome {
            Ok(_) => NodeStep::Encode(EncodeWork { cycles: self.cycles }),
            Err(message) => NodeStep::Fail(message),
        }
    }
}

impl EncodeWork {
    /// Ends with the proof, or the message in its place.
    pub fn answer<'a>(self, outcome: Result<Vec<u8>, String>) -> (r: NodeStep<'a>)
        ensures
            r@ == encoded(self.cycles, bytes_view(outcome)),
    {
        match outcome {
            Ok(proof) => NodeStep::Done(self.cycles, proof),
            Err(message) => NodeStep::Fail(message),
        }
    }
}

// ---------------------------------------------------------------------------
// What holds of a whole proof
// ---------------------------------------------------------------------------

/// What comes of everything that a proof asks for outside.
pub struct NodeWorld {
    pub elf: Result<Seq<u8>, Seq<char>>,
    pub input: Result<Seq<u8>, Seq<char>>,
    pub receipts: Result<Seq<u8>, Seq<char>>,
    pub feed: Result<(), Seq<char>>,
    pub build: Result<(), Seq<char>>,
    pub key: Result<Seq<u8>, Seq<char>>,
    pub key_written: Result<(), Seq<char>>,
    pub core: Result<(u64, Seq<u8>), Seq<char>>,
    pub compress: Result<(), Seq<char>>,
    pub form: Result<(), Seq<char>>,
    pub values_written: Result<(), Seq<char>>,
    pub proof: Result<Seq<u8>, Seq<char>>,
}

/// A state, and what is kept between proofs at that point.
#[verifier::ext_equal]
pub struct NodeAt<'a> {
    pub state: NodeView<'a>,
    pub memory: Memory,
}

/// The next state of those that have to do with programs and keys, and what is kept.
/// Whether a slot is filled is told as it is, and only the states that say so fill one.
pub open spec fn node_next_kept<'a>(at: NodeAt<'a>, world: NodeWorld) -> NodeAt<'a> {
    let memory = at.memory;
    match at.state {
        NodeView::AskProgram { job, elf } => NodeAt {
            state: NodeView::LookProgram {
                job,
                elf,
                slot: memory.programs.cache.slot_for(job.ctx.program_id@),
                let_go: memory.programs.cache.let_go(job.ctx.program_id@),
            },
            memory: Memory { programs: memory.programs.asked(job.ctx.program_id@), ..memory },
        },
        NodeView::LookProgram { job, elf, slot, let_go } => NodeAt {
            state: node_program_looked(job, elf, slot, memory.programs.filled.contains(slot)),
            memory,
        },
        NodeView::BuildProgram { job, elf, slot } => NodeAt {
            state: node_built(job, slot, world.build),
            memory,
        },
        NodeView::KeepProgram { job, slot } => NodeAt {
            state: node_program_kept(job, slot),
            memory: Memory { programs: memory.programs.with(slot), ..memory },
        },
        NodeView::AskKeys { job, program } => NodeAt {
            state: NodeView::LookKeys {
                job,
                program,
                slot: memory.keys.cache.slot_for(job.ctx.program_id@),
                let_go: memory.keys.cache.let_go(job.ctx.program_id@),
            },
            memory: Memory { keys: memory.keys.asked(job.ctx.program_id@), ..memory },
        },
        NodeView::LookKeys { job, program, slot, let_go } => NodeAt {
            state: node_keys_looked(job, program, slot, memory.keys.filled.contains(slot)),
            memory,
        },
        NodeView::KeepKeys { job, program, slot } => NodeAt {
            state: node_keys_made(job, program, slot),
            memory: Memory { keys: memory.keys.with(slot), ..memory },
        },
        _ => at,
    }
}

/// The next state of the others. What is kept does not change there.
pub open spec fn node_next_plain<'a>(state: NodeView<'a>, world: NodeWorld) -> NodeView<'a> {
    match state {
        NodeView::ReadElf { job } => elf_read(job, world.elf),
        NodeView::ReadInput { job, elf } => input_read(job, elf, world.input),
        NodeView::ReadReceipts { job, elf, inputs } => receipts_read(
            job,
            elf,
            inputs,
            world.receipts,
        ),
        NodeView::Feed { job, elf, inputs, receipts } => fed(job, elf, world.feed),
        NodeView::EncodeKey { job, slots } => key_encoded(job, slots, world.key),
        NodeView::StoreKey { job, slots, path, content } => key_stored(
            job,
            slots,
            world.key_written,
        ),
        NodeView::ProveCore { job, slots } => core_proved(job, slots, world.core),
        NodeView::Compress { job, slots, cycles, public_values } => compressed(
            job,
            cycles,
            public_values,
            world.compress,
        ),
        NodeView::Form { job, cycles, public_values, form } => formed(
            job,
            cycles,
            public_values,
            world.form,
        ),
        NodeView::StoreValues { cycles, path, content } => values_stored(
            cycles,
            world.values_written,
        ),
        NodeView::Encode { cycles } => encoded(cycles, world.proof),
        other => other,
    }
}

/// Has a state to do with programs and keys?
pub open spec fn is_about_slots(state: NodeView) -> bool {
    state is AskProgram || state is LookProgram || state is BuildProgram || state is KeepProgram
        || state is AskKeys || state is LookKeys || state is KeepKeys
}

/// The next state, in such a world.
pub open spec fn node_next<'a>(at: NodeAt<'a>, world: NodeWorld) -> NodeAt<'a> {
    if is_about_slots(at.state) {
        node_next_kept(at, world)
    } else {
        NodeAt { state: node_next_plain(at.state, world), memory: at.memory }
    }
}

/// The state after so many steps.
pub open spec fn node_after<'a>(at: NodeAt<'a>, world: NodeWorld, steps: nat) -> NodeAt<'a>
    decreases steps,
{
    if steps == 0 {
        at
    } else {
        node_after(node_next(at, world), world, (steps - 1) as nat)
    }
}

/// The complaint about bytes that should hold a list.
pub open spec fn list_complaint(outcome: Result<Seq<u8>, Seq<char>>) -> Option<Seq<char>> {
    match outcome {
        Ok(bytes) => if read_list(bytes) is Some {
            None
        } else {
            Some(bincode_complaint(bytes))
        },
        Err(message) => Some(message),
    }
}

/// The message of the first thing that does not go well before the program is wanted.
pub open spec fn input_complaint(job: NodeJob, world: NodeWorld) -> Option<Seq<char>> {
    if world.elf is Err {
        Some(world.elf->Err_0)
    } else if list_complaint(world.input) is Some {
        list_complaint(world.input)
    } else if job.ctx.receipt_inputs_path@.len() > 0 && list_complaint(world.receipts) is Some {
        list_complaint(world.receipts)
    } else if world.feed is Err {
        Some(world.feed->Err_0)
    } else {
        None
    }
}

/// The message of the first thing that does not go well once the keys are there.
pub open spec fn proof_complaint(world: NodeWorld) -> Option<Seq<char>> {
    if world.key is Err {
        Some(world.key->Err_0)
    } else if world.key_written is Err {
        Some(world.key_written->Err_0)
    } else if world.core is Err {
        Some(world.core->Err_0)
    } else if world.compress is Err {
        Some(world.compress->Err_0)
    } else if world.form is Err {
        Some(world.form->Err_0)
    } else if world.values_written is Err {
        Some(world.values_written->Err_0)
    } else if world.proof is Err {
        Some(world.proof->Err_0)
    } else {
        None
    }
}

/// The message of the first thing that does not go well, if any does not. A program is made
/// only where it is not kept.
pub open spec fn first_complaint(job: NodeJob, memory: Memory, world: NodeWorld) -> Option<
    Seq<char>,
> {
    if input_complaint(job, world) is Some {
        input_complaint(job, world)
    } else if !memory.programs.keeps(job.ctx.program_id@) && world.build is Err {
        Some(world.build->Err_0)
    } else {
        proof_complaint(world)
    }
}

/// How a proof ends.
pub open spec fn node_end<'a>(complaint: Option<Seq<char>>, world: NodeWorld) -> NodeView<'a> {
    match complaint {
        Some(message) => NodeView::Fail(message),
        None => NodeView::Done { cycles: world.core->Ok_0.0, proof: world.proof->Ok_0 },
    }
}

/// What is kept after a proof: a program that was made, and keys, both only where the
/// proof came that far.
pub open spec fn kept_after(job: NodeJob, memory: Memory, world: NodeWorld) -> Memory {
    let id = job.ctx.program_id@;
    let asked = memory.programs.asked(id);
    if input_complaint(job, world) is Some {
        memory
    } else if memory.programs.keeps(id) {
        Memory { programs: asked, keys: keys_kept(memory, id) }
    } else if world.build is Err {
        Memory { programs: asked, ..memory }
    } else {
        Memory {
            programs: asked.with(memory.programs.cache.slot_for(id)),
            keys: keys_kept(memory, id),
        }
    }
}

/// The keys that are kept once those of a program were asked for, and made if need be.
pub open spec fn keys_kept(memory: Memory, id: Seq<char>) -> Shelf {
    if memory.keys.keeps(id) {
        memory.keys.asked(id)
    } else {
        memory.keys.asked(id).with(memory.keys.cache.slot_for(id))
    }
}

proof fn lemma_end_stays(at: NodeAt, world: NodeWorld, steps: nat)
    requires
        at.state is Done || at.state is Fail,
    ensures
        node_after(at, world, steps) == at,
    decreases steps,
{
    if steps > 0 {
        lemma_end_stays(at, world, (steps - 1) as nat);
    }
}

proof fn lemma_after_in_two(at: NodeAt, world: NodeWorld, first: nat, second: nat)
    ensures
        node_after(at, world, first + second) == node_after(
            node_after(at, world, first),
            world,
            second,
        ),
    decreases first,
{
    if first > 0 {
        lemma_after_in_two(node_next(at, world), world, (first - 1) as nat, second);
    }
}

/// How many steps it takes until the program is wanted.
spec fn until_program(job: NodeJob) -> nat {
    if job.ctx.receipt_inputs_path@.len() == 0 {
        3
    } else {
        4
    }
}

proof fn lemma_inputs(job: NodeJob, memory: Memory, world: NodeWorld)
    ensures
        ({
            let at = node_after(
                NodeAt { state: NodeView::ReadElf { job }, memory },
                world,
                until_program(job),
            );
            &&& at.memory == memory
            &&& at.state == (match input_complaint(job, world) {
                Some(message) => NodeView::Fail(message),
                None => NodeView::AskProgram { job, elf: world.elf->Ok_0 },
            })
        }),
{
    reveal_with_fuel(node_after, 5);
}

proof fn lemma_program(job: NodeJob, elf: Seq<u8>, memory: Memory, world: NodeWorld)
    requires
        memory.programs.wf(),
    ensures
        ({
            let id = job.ctx.program_id@;
            let asked = memory.programs.asked(id);
            let first = NodeAt { state: NodeView::AskProgram { job, elf }, memory };
            if memory.programs.keeps(id) {
                node_after(first, world, 2) == (NodeAt {
                    state: NodeView::AskKeys { job, program: memory.programs.cache.slot_for(id) },
                    memory: Memory { programs: asked, ..memory },
                })
            } else if world.build is Err {
                node_after(first, world, 3) == (NodeAt {
                    state: NodeView::Fail(world.build->Err_0),
                    memory: Memory { programs: asked, ..memory },
                })
            } else {
                node_after(first, world, 4) == (NodeAt {
                    state: NodeView::AskKeys { job, program: memory.programs.cache.slot_for(id) },
                    memory: Memory {
                        programs: asked.with(memory.programs.cache.slot_for(id)),
                        ..memory
                    },
                })
            }
        }),
{
    reveal_with_fuel(node_after, 5);
    law_slot_is_filled_if_kept(memory.programs, job.ctx.program_id@);
}

proof fn lemma_keys(job: NodeJob, program: u64, memory: Memory, world: NodeWorld)
    requires
        memory.keys.wf(),
    ensures
        node_after(
            NodeAt { state: NodeView::AskKeys { job, program }, memory },
            world,
            if memory.keys.keeps(job.ctx.program_id@) {
                2
            } else {
                3
            },
        ) == (NodeAt {
            state: NodeView::EncodeKey {
                job,
                slots: NodeSlots {
                    program,
                    keys: memory.keys.cache.slot_for(job.ctx.program_id@),
                },
            },
            memory: Memory { keys: keys_kept(memory, job.ctx.program_id@), ..memory },
        }),
{
    reveal_with_fuel(node_after, 4);
    law_slot_is_filled_if_kept(memory.keys, job.ctx.program_id@);
}

proof fn lemma_proof(job: NodeJob, slots: NodeSlots, memory: Memory, world: NodeWorld)
    ensures
        node_after(NodeAt { state: NodeView::EncodeKey { job, slots }, memory }, world, 7) == (
        NodeAt { state: node_end(proof_complaint(world), world), memory }),
{
    reveal_with_fuel(node_after, 8);
}

/// A proof ends after at most eighteen steps: with the cycles and the bytes that came from
/// outside, or with the message of the first thing that did not go well there. A program
/// that could not be made is not kept, and its keys are then not even asked for; one that
/// was made is kept, and so are its keys.
pub proof fn law_every_proof_ends(job: NodeJob, memory: Memory, world: NodeWorld)
    requires
        memory.programs.wf(),
        memory.keys.wf(),
    ensures
        node_after(NodeAt { state: NodeView::ReadElf { job }, memory }, world, 18) == (NodeAt {
            state: node_end(first_complaint(job, memory, world), world),
            memory: kept_after(job, memory, world),
        }),
{
    let start = NodeAt { state: NodeView::ReadElf { job }, memory };
    let a = until_program(job);
    let n: nat = 18;
    let wanted = node_after(start, world, a);
    lemma_inputs(job, memory, world);
    lemma_after_in_two(start, world, a, (n - a) as nat);
    if input_complaint(job, world) is Some {
        lemma_end_stays(wanted, world, (n - a) as nat);
    } else {
        let id = job.ctx.program_id@;
        lemma_program(job, world.elf->Ok_0, memory, world);
        if !memory.programs.keeps(id) && world.build is Err {
            lemma_after_in_two(wanted, world, 3, (n - a - 3) as nat);
            lemma_end_stays(node_after(wanted, world, 3), world, (n - a - 3) as nat);
        } else {
            let b: nat = if memory.programs.keeps(id) {
                2
            } else {
                4
            };
            let c: nat = if memory.keys.keeps(id) {
                2
            } else {
                3
            };
            let had = node_after(wanted, world, b);
            lemma_after_in_two(wanted, world, b, (n - a - b) as nat);
            let slots = NodeSlots {
                program: memory.programs.cache.slot_for(id),
                keys: memory.keys.cache.slot_for(id),
            };
            lemma_keys(job, slots.program, had.memory, world);
            let keyed = node_after(had, world, c);
            lemma_after_in_two(had, world, c, (n - a - b - c) as nat);
            lemma_proof(job, slots, keyed.memory, world);
            lemma_after_in_two(keyed, world, 7, (n - a - b - c - 7) as nat);
            lemma_end_stays(
                node_after(keyed, world, 7),
                world,
                (n - a - b - c - 7) as nat,
            );
        }
    }
}

/// A program is kept after a proof exactly if it was before, or was made by it; and keys
/// are kept exactly if they were before, or the proof had its program.
pub proof fn law_what_a_proof_keeps(job: NodeJob, memory: Memory, world: NodeWorld)
    requires
        memory.programs.wf(),
        memory.keys.wf(),
    ensures
        ({
            let id = job.ctx.program_id@;
            let later = kept_after(job, memory, world);
            let came = input_complaint(job, world) is None;
            &&& later.programs.keeps(id) <==> memory.programs.keeps(id) || (came
                && world.build is Ok)
            &&& later.keys.keeps(id) <==> memory.keys.keeps(id) || (came
                && later.programs.keeps(id))
            &&& !later.programs.keeps(id) ==> later.keys == memory.keys
        }),
{
    law_asking_keeps(memory.programs, job.ctx.program_id@);
    law_asking_keeps(memory.keys, job.ctx.program_id@);
}

/// What a state writes, if it writes anything: the file and its bytes.
pub open spec fn written(state: NodeView) -> Option<(Seq<char>, Seq<u8>)> {
    match state {
        NodeView::StoreKey { job, slots, path, content } => Some((path, content)),
        NodeView::StoreValues { cycles, path, content } => Some((path, content)),
        _ => None,
    }
}

/// The job of a state that has one left.
pub open spec fn job_in(state: NodeView) -> Option<NodeJob> {
    match state {
        NodeView::ReadElf { job } => Some(job),
        NodeView::ReadInput { job, elf } => Some(job),
        NodeView::ReadReceipts { job, elf, inputs } => Some(job),
        NodeView::Feed { job, elf, inputs, receipts } => Some(job),
        NodeView::AskProgram { job, elf } => Some(job),
        NodeView::LookProgram { job, elf, slot, let_go } => Some(job),
        NodeView::BuildProgram { job, elf, slot } => Some(job),
        NodeView::KeepProgram { job, slot } => Some(job),
        NodeView::AskKeys { job, program } => Some(job),
        NodeView::LookKeys { job, program, slot, let_go } => Some(job),
        NodeView::KeepKeys { job, program, slot } => Some(job),
        NodeView::EncodeKey { job, slots } => Some(job),
        NodeView::StoreKey { job, slots, path, content } => Some(job),
        NodeView::ProveCore { job, slots } => Some(job),
        NodeView::Compress { job, slots, cycles, public_values } => Some(job),
        NodeView::Form { job, cycles, public_values, form } => Some(job),
        _ => None,
    }
}

/// Is a state one of this job, with the public values of its run, and what it writes the
/// key or those values, each in its file?
pub open spec fn writes_well(state: NodeView, job: NodeJob, world: NodeWorld) -> bool {
    &&& job_in(state) is Some ==> job_in(state)->0 == job
    &&& match state {
        NodeView::StoreKey { job: at, slots, path, content } => path == key_file(job) && world.key == Ok::<
            Seq<u8>,
            Seq<char>,
        >(content),
        NodeView::Compress { job: at, slots, cycles, public_values } => values_of(
            public_values,
            world,
        ),
        NodeView::Form { job: at, cycles, public_values, form } => values_of(
            public_values,
            world,
        ),
        NodeView::StoreValues { cycles, path, content } => path == values_file(job) && values_of(
            content,
            world,
        ),
        _ => true,
    }
}

/// Are these the public values of the run that is proved?
pub open spec fn values_of(values: Seq<u8>, world: NodeWorld) -> bool {
    world.core is Ok && values == world.core->Ok_0.1
}

proof fn lemma_writes_well(job: NodeJob, at: NodeAt, world: NodeWorld, steps: nat)
    requires
        writes_well(at.state, job, world),
    ensures
        writes_well(node_after(at, world, steps).state, job, world),
    decreases steps,
{
    if steps > 0 {
        assert(writes_well(node_next(at, world).state, job, world));
        lemma_writes_well(job, node_next(at, world), world, (steps - 1) as nat);
    }
}

/// A proof writes inside its directory only: the verifying key, and the public values
/// of the run that it proves.
pub proof fn law_proof_writes_in_its_directory(
    job: NodeJob,
    memory: Memory,
    world: NodeWorld,
    steps: nat,
)
    ensures
        written(
            node_after(NodeAt { state: NodeView::ReadElf { job }, memory }, world, steps).state,
        ) matches Some((path, content)) ==> {
            &&& under(job.ctx.base_dir@, path)
            &&& (path == key_file(job) && world.key == Ok::<Seq<u8>, Seq<char>>(content)) || (path
                == values_file(job) && values_of(content, world))
        },
{
    lemma_writes_well(
        job,
        NodeAt { state: NodeView::ReadElf { job }, memory },
        world,
        steps,
    );
    lemma_joined_under(job.ctx.base_dir@, "vk.bin"@);
    lemma_joined_under(job.ctx.base_dir@, "wrap"@);
    lemma_joined_stays_under(
        job.ctx.base_dir@,
        joined(job.ctx.base_dir@, "wrap"@),
        "public_values.bin"@,
    );
}

/// Is the slot of a state for its program, and for its keys, the one that is granted for
/// the program of the job where a proof begins with `memory`?
pub open spec fn own_slots(state: NodeView, job: NodeJob, memory: Memory) -> bool {
    let program = memory.programs.cache.slot_for(job.ctx.program_id@);
    let keys = memory.keys.cache.slot_for(job.ctx.program_id@);
    let own = NodeSlots { program, keys };
    match state {
        NodeView::LookProgram { job: at, elf, slot, let_go } => slot == program,
        NodeView::BuildProgram { job: at, elf, slot } => slot == program,
        NodeView::KeepProgram { job: at, slot } => slot == program,
        NodeView::AskKeys { job: at, program: slot } => slot == program,
        NodeView::LookKeys { job: at, program: slot, slot: key_slot, let_go } => slot == program
            && key_slot == keys,
        NodeView::KeepKeys { job: at, program: slot, slot: key_slot } => slot == program
            && key_slot == keys,
        NodeView::EncodeKey { job: at, slots } => slots == own,
        NodeView::StoreKey { job: at, slots, path, content } => slots == own,
        NodeView::ProveCore { job: at, slots } => slots == own,
        NodeView::Compress { job: at, slots, cycles, public_values } => slots == own,
        _ => true,
    }
}

/// Is a cache that will still be asked as it was when the proof began?
spec fn yet_to_ask(at: NodeAt, memory: Memory) -> bool {
    let state = at.state;
    let before_program = state is ReadElf || state is ReadInput || state is ReadReceipts
        || state is Feed || state is AskProgram;
    let before_keys = before_program || state is LookProgram || state is BuildProgram
        || state is KeepProgram || state is AskKeys;
    &&& before_program ==> at.memory.programs.cache == memory.programs.cache
    &&& before_keys ==> at.memory.keys.cache == memory.keys.cache
}

proof fn lemma_own_slots(job: NodeJob, memory: Memory, at: NodeAt, world: NodeWorld, steps: nat)
    requires
        job_in(at.state) is Some ==> job_in(at.state)->0 == job,
        own_slots(at.state, job, memory),
        yet_to_ask(at, memory),
    ensures
        own_slots(node_after(at, world, steps).state, job, memory),
    decreases steps,
{
    if steps > 0 {
        let next = node_next(at, world);
        assert(job_in(next.state) is Some ==> job_in(next.state)->0 == job);
        assert(own_slots(next.state, job, memory));
        assert(yet_to_ask(next, memory));
        lemma_own_slots(job, memory, next, world, (steps - 1) as nat);
    }
}

/// A proof fills, encodes, proves and compresses with no slots but those that are granted
/// for its program.
pub proof fn law_proof_uses_its_slots(job: NodeJob, memory: Memory, world: NodeWorld, steps: nat)
    ensures
        own_slots(
            node_after(NodeAt { state: NodeView::ReadElf { job }, memory }, world, steps).state,
            job,
            memory,
        ),
{
    lemma_own_slots(
        job,
        memory,
        NodeAt { state: NodeView::ReadElf { job }, memory },
        world,
        steps,
    );
}

/// Inputs and receipts that were stored as lists are given to the program as they were.
pub proof fn law_inputs_are_fed(
    job: NodeJob,
    elf: Seq<u8>,
    inputs: Seq<Seq<u8>>,
    receipts: Seq<Seq<u8>>,
)
    requires
        storable(inputs),
        storable(receipts),
    ensures
        input_read(job, elf, Ok(stored_list(inputs))) == (if job.ctx.receipt_inputs_path@.len()
            == 0 {
            NodeView::Feed { job, elf, inputs, receipts: Seq::empty() }
        } else {
            NodeView::ReadReceipts { job, elf, inputs }
        }),
        receipts_read(job, elf, inputs, Ok(stored_list(receipts))) == (NodeView::Feed {
            job,
            elf,
            inputs,
            receipts,
        }),
{
    law_list_round_trip(inputs, Seq::empty());
    law_list_round_trip(receipts, Seq::empty());
}

/// Where a proof stops decides its form, and nothing else does: one for an aggregation stays
/// a compressed proof, one for a SNARK becomes a Groth16 proof, whatever else the job holds
/// and however it came there.
pub proof fn law_target_decides_the_form(
    job: NodeJob,
    memory: Memory,
    world: NodeWorld,
    steps: nat,
    cycles: u64,
    public_values: Seq<u8>,
)
    requires
        job.ctx.target_step == NodeTarget::InAgg || job.ctx.target_step == NodeTarget::InSnark,
    ensures
        node_after(
            NodeAt { state: NodeView::ReadElf { job }, memory },
            world,
            steps,
        ).state matches NodeView::Form { job: at, cycles: ran, public_values: values, form } ==> {
            &&& form == ProofForm::Groth16 <==> job.ctx.target_step == NodeTarget::InSnark
            &&& form == ProofForm::Compressed <==> job.ctx.target_step == NodeTarget::InAgg
        },
        compressed(job, cycles, public_values, Ok(())) matches NodeView::Form {
            job: at,
            cycles: ran,
            public_values: values,
            form,
        } && {
            &&& at == job && ran == cycles && values == public_values
            &&& form == ProofForm::Groth16 <==> job.ctx.target_step == NodeTarget::InSnark
            &&& form == ProofForm::Compressed <==> job.ctx.target_step == NodeTarget::InAgg
        },
{
    lemma_forms(job, NodeAt { state: NodeView::ReadElf { job }, memory }, world, steps);
}

/// Is a proof of this job made into the form of its target, where it is made into one?
spec fn forms_well(state: NodeView, job: NodeJob) -> bool {
    &&& job_in(state) is Some ==> job_in(state)->0 == job
    &&& state matches NodeView::Form { job: at, cycles, public_values, form } ==> {
        &&& form == ProofForm::Groth16 <==> job.ctx.target_step == NodeTarget::InSnark
        &&& form == ProofForm::Compressed <==> job.ctx.target_step == NodeTarget::InAgg
    }
}

proof fn lemma_forms(job: NodeJob, at: NodeAt, world: NodeWorld, steps: nat)
    requires
        job.ctx.target_step == NodeTarget::InAgg || job.ctx.target_step == NodeTarget::InSnark,
        forms_well(at.state, job),
    ensures
        forms_well(node_after(at, world, steps).state, job),
    decreases steps,
{
    if steps > 0 {
        assert(forms_well(node_next(at, world).state, job));
        lemma_forms(job, node_next(at, world), world, (steps - 1) as nat);
    }
}

/// Where the verifying key and the public values are, written out.
pub proof fn law_places_of_a_whole_proof(job: NodeJob)
    ensures
        key_file(job) == job.ctx.base_dir@ + "/vk.bin"@,
        values_file(job) == job.ctx.base_dir@ + "/wrap/public_values.bin"@,
{
    let base = job.ctx.base_dir@;
    reveal_strlit("/");
    assert(key_file(job) =~= base + "/vk.bin"@) by {
        reveal_strlit("vk.bin");
        reveal_strlit("/vk.bin");
    }
    assert(values_file(job) =~= base + "/wrap/public_values.bin"@) by {
        reveal_strlit("wrap");
        reveal_strlit("public_values.bin");
        reveal_strlit("/wrap/public_values.bin");
    }
}

/// Is what a state holds of the program and its inputs what was read for them?
pub open spec fn holds_what_was_read(state: NodeView, job: NodeJob, world: NodeWorld) -> bool {
    let brought = world.elf is Ok;
    let listed = world.input is Ok && read_list(world.input->Ok_0) is Some;
    let received = world.receipts is Ok && read_list(world.receipts->Ok_0) is Some;
    let none = job.ctx.receipt_inputs_path@.len() == 0;
    &&& job_in(state) is Some ==> job_in(state)->0 == job
    &&& match state {
        NodeView::ReadInput { job: at, elf } => brought && elf == world.elf->Ok_0,
        NodeView::ReadReceipts { job: at, elf, inputs } => {
            &&& !none
            &&& brought && elf == world.elf->Ok_0
            &&& listed && inputs == read_list(world.input->Ok_0)->0
        },
        NodeView::Feed { job: at, elf, inputs, receipts } => {
            &&& brought && elf == world.elf->Ok_0
            &&& listed && inputs == read_list(world.input->Ok_0)->0
            &&& none ==> receipts.len() == 0
            &&& !none ==> received && receipts == read_list(world.receipts->Ok_0)->0
        },
        NodeView::AskProgram { job: at, elf } => brought && elf == world.elf->Ok_0,
        NodeView::LookProgram { job: at, elf, slot, let_go } => brought && elf == world.elf->Ok_0,
        NodeView::BuildProgram { job: at, elf, slot } => brought && elf == world.elf->Ok_0,
        _ => true,
    }
}

proof fn lemma_holds_what_was_read(job: NodeJob, at: NodeAt, world: NodeWorld, steps: nat)
    requires
        holds_what_was_read(at.state, job, world),
    ensures
        holds_what_was_read(node_after(at, world, steps).state, job, world),
    decreases steps,
{
    if steps > 0 {
        assert(holds_what_was_read(node_next(at, world).state, job, world));
        lemma_holds_what_was_read(job, node_next(at, world), world, (steps - 1) as nat);
    }
}

/// A program is made from the bytes of its file, and given the inputs and the receipts that
/// their files hold; no receipts where none are named.
pub proof fn law_program_gets_what_was_read(
    job: NodeJob,
    memory: Memory,
    world: NodeWorld,
    steps: nat,
)
    ensures
        holds_what_was_read(
            node_after(NodeAt { state: NodeView::ReadElf { job }, memory }, world, steps).state,
            job,
            world,
        ),
{
    lemma_holds_what_was_read(
        job,
        NodeAt { state: NodeView::ReadElf { job }, memory },
        world,
        steps,
    );
}

/// Is this state passed on the way of a proof?
pub open spec fn is_passed(job: NodeJob, memory: Memory, world: NodeWorld, steps: nat) -> NodeView {
    node_after(NodeAt { state: NodeView::ReadElf { job }, memory }, world, steps).state
}

/// A proof that ends well has stored the verifying key and the public values, and was made
/// into the form of its target, on its way.
pub proof fn law_what_a_finished_proof_has_done(job: NodeJob, memory: Memory, world: NodeWorld)
    requires
        memory.programs.wf(),
        memory.keys.wf(),
        first_complaint(job, memory, world) is None,
        job.ctx.target_step == NodeTarget::InAgg || job.ctx.target_step == NodeTarget::InSnark,
    ensures
        exists|n: nat|
            (#[trigger] is_passed(job, memory, world, n)) matches NodeView::StoreKey {
                job: at,
                slots,
                path,
                content,
            } && path == job.ctx.base_dir@ + "/vk.bin"@ && content == world.key->Ok_0,
        exists|n: nat|
            (#[trigger] is_passed(job, memory, world, n)) matches NodeView::Form {
                job: at,
                cycles,
                public_values,
                form,
            } && (form == ProofForm::Groth16 <==> job.ctx.target_step == NodeTarget::InSnark),
        exists|n: nat|
            (#[trigger] is_passed(job, memory, world, n)) matches NodeView::StoreValues {
                cycles,
                path,
                content,
            } && path == job.ctx.base_dir@ + "/wrap/public_values.bin"@ && content
                == world.core->Ok_0.1,
{
    let start = NodeAt { state: NodeView::ReadElf { job }, memory };
    let id = job.ctx.program_id@;
    let a = until_program(job);
    lemma_inputs(job, memory, world);
    lemma_program(job, world.elf->Ok_0, memory, world);
    let b: nat = if memory.programs.keeps(id) {
        2
    } else {
        4
    };
    let c: nat = if memory.keys.keeps(id) {
        2
    } else {
        3
    };
    let wanted = node_after(start, world, a);
    let had = node_after(wanted, world, b);
    lemma_after_in_two(start, world, a, b);
    lemma_keys(job, memory.programs.cache.slot_for(id), had.memory, world);
    let keyed = node_after(had, world, c);
    lemma_after_in_two(start, world, a + b, c);
    let n = a + b + c;
    lemma_after_in_two(start, world, n, 1);
    lemma_after_in_two(start, world, n, 4);
    lemma_after_in_two(start, world, n, 5);
    law_places_of_a_whole_proof(job);
    reveal_with_fuel(node_after, 6);
    assert(is_passed(job, memory, world, n + 1) is StoreKey);
    assert(is_passed(job, memory, world, n + 4) is Form);
    assert(is_passed(job, memory, world, n + 5) is StoreValues);
}

} // verus!
