//! The vocabulary of the service: steps, statuses, requests, replies and the
//! rows that it keeps.
use vstd::prelude::*;

verus! {

/// Where a proof is in its production. `Other` is any step that the decisions
/// here do not name.
#[derive(Clone, Copy, PartialEq, Eq, Structural, Debug)]
pub enum Step {
    Init,
    Split,
    Prove,
    Agg,
    Snark,
    Other(i32),
}

/// How a proof stands. `Other` is any status that the decisions here do not
/// name.
#[derive(Clone, Copy, PartialEq, Eq, Structural, Debug)]
pub enum Status {
    Computing,
    Success,
    InvalidParameter,
    InternalError,
    SplitError,
    ProveError,
    AggError,
    SnarkError,
    Other(i32),
}

/// The generation of provers that a task is for.
#[derive(Clone, Copy, PartialEq, Eq, Structural, Debug)]
pub enum ProverVersion {
    Zkm,
    Zkm2,
}

/// A value of the wire protocol: the number that is stored and sent, and what
/// it means.
pub struct Coded<T> {
    pub number: i32,
    pub meaning: T,
}

/// Which generations of provers the service is built with.
#[derive(Clone, Copy, PartialEq, Eq, Structural, Debug)]
pub enum Build {
    Prover,
    ProverV2,
    Both,
    /// The service runs, but no proof can be made.
    Neither,
}

impl Build {
    /// Is the first generation built in?
    pub open spec fn first(self) -> bool {
        self == Build::Prover || self == Build::Both
    }

    /// Is any generation built in?
    pub open spec fn any(self) -> bool {
        self != Build::Neither
    }

    /// The file ending of public values.
    pub open spec fn ending(self) -> Seq<char>
        recommends
            self.any(),
    {
        if self == Build::Prover {
            "json"@
        } else {
            "bin"@
        }
    }

    /// The generation that new tasks are for: the first, where it is built in.
    pub open spec fn generation(self) -> ProverVersion
        recommends
            self.any(),
    {
        if self.first() {
            ProverVersion::Zkm
        } else {
            ProverVersion::Zkm2
        }
    }

    /// Is the first generation built in?
    pub fn has_prover(self) -> (r: bool)
        ensures
            r == self.first(),
    {
        match self {
            Build::Prover => true,
            Build::Both => true,
            _ => false,
        }
    }

    /// Is any generation built in?
    pub fn can_prove(self) -> (r: bool)
        ensures
            r == self.any(),
    {
        match self {
            Build::Neither => false,
            _ => true,
        }
    }

    /// The file ending of public values: `json` for the first generation alone,
    /// `bin` wherever the second is built in.
    pub fn suffix(self) -> (r: &'static str)
        requires
            self.any(),
        ensures
            r@ == self.ending(),
    {
        match self {
            Build::Prover => "json",
            _ => "bin",
        }
    }

    /// The generation that new tasks are for.
    pub fn prover_version(self) -> (r: ProverVersion)
        requires
            self.any(),
        ensures
            r == self.generation(),
    {
        match self {
            Build::ProverV2 => ProverVersion::Zkm2,
            _ => ProverVersion::Zkm,
        }
    }
}

/// What the service is configured with.
pub struct RuntimeConfig {
    pub base_dir: String,
    pub database_url: String,
    pub fileserver_url: Option<String>,
    pub prover_addrs: Vec<String>,
    pub max_concurrent_tasks: Option<usize>,
    pub ca_cert_path: Option<String>,
    pub cert_path: Option<String>,
    pub key_path: Option<String>,
}

/// A named file that comes with a request.
pub struct FileItem {
    pub file_name: String,
    pub file_content: Vec<u8>,
}

/// A request to make a proof.
pub struct GenerateProofRequest {
    pub proof_id: String,
    pub elf_data: Vec<u8>,
    pub elf_id: Option<String>,
    pub block_no: Option<u64>,
    pub block_data: Vec<FileItem>,
    pub seg_size: u32,
    pub signature: String,
    pub public_input_stream: Vec<u8>,
    pub private_input_stream: Vec<u8>,
    pub from_step: Option<Step>,
    pub target_step: Option<Step>,
    pub composite_proof: bool,
    pub single_node: bool,
    pub max_prover_num: u32,
    pub receipt_inputs: Vec<Vec<u8>>,
    pub receipts: Vec<Vec<u8>>,
}

/// The reply to a request to make a proof.
pub struct GenerateProofResponse {
    pub proof_id: String,
    pub status: Status,
    pub error_message: String,
    pub snark_proof_url: String,
    pub stark_proof_url: String,
    pub public_values_url: String,
}

/// What a [`GenerateProofResponse`] says.
#[verifier::ext_equal]
pub struct GenerateReplyView {
    pub proof_id: Seq<char>,
    pub status: Status,
    pub error_message: Seq<char>,
    pub snark_proof_url: Seq<char>,
    pub stark_proof_url: Seq<char>,
    pub public_values_url: Seq<char>,
}

impl View for GenerateProofResponse {
    type V = GenerateReplyView;

    open spec fn view(&self) -> GenerateReplyView {
        GenerateReplyView {
            proof_id: self.proof_id@,
            status: self.status,
            error_message: self.error_message@,
            snark_proof_url: self.snark_proof_url@,
            stark_proof_url: self.stark_proof_url@,
            public_values_url: self.public_values_url@,
        }
    }
}

/// The reply to a question about a proof.
pub struct GetStatusResponse {
    pub proof_id: String,
    pub status: i32,
    pub step: i32,
    pub proving_time: u64,
    pub total_steps: u64,
    pub output_stream: Vec<u8>,
    pub receipt: Vec<u8>,
    pub proof_with_public_inputs: Vec<u8>,
    pub snark_proof_url: String,
    pub stark_proof_url: String,
    pub public_values_url: String,
}

/// What a [`GetStatusResponse`] says.
#[verifier::ext_equal]
pub struct StatusReplyView {
    pub proof_id: Seq<char>,
    pub status: i32,
    pub step: i32,
    pub proving_time: u64,
    pub total_steps: u64,
    pub output_stream: Seq<u8>,
    pub receipt: Seq<u8>,
    pub proof_with_public_inputs: Seq<u8>,
    pub snark_proof_url: Seq<char>,
    pub stark_proof_url: Seq<char>,
    pub public_values_url: Seq<char>,
}

impl View for GetStatusResponse {
    type V = StatusReplyView;

    open spec fn view(&self) -> StatusReplyView {
        StatusReplyView {
            proof_id: self.proof_id@,
            status: self.status,
            step: self.step,
            proving_time: self.proving_time,
            total_steps: self.total_steps,
            output_stream: self.output_stream@,
            receipt: self.receipt@,
            proof_with_public_inputs: self.proof_with_public_inputs@,
            snark_proof_url: self.snark_proof_url@,
            stark_proof_url: self.stark_proof_url@,
            public_values_url: self.public_values_url@,
        }
    }
}

/// A row of the table of proofs.
pub struct StageTask {
    pub id: String,
    pub status: Coded<Status>,
    pub step: Coded<Step>,
    pub check_at: i64,
    pub context: Option<String>,
    pub result: Option<String>,
}

/// Everything that the workers need to know about an accepted request.
pub struct GenerateTask {
    pub prover_version: ProverVersion,
    pub elf_id: String,
    pub proof_id: String,
    pub base_dir: String,
    pub elf_path: String,
    pub seg_path: String,
    pub prove_path: String,
    pub agg_path: String,
    pub snark_path: String,
    pub public_input_path: String,
    pub private_input_path: String,
    pub output_stream_path: String,
    pub block_no: Option<u64>,
    pub seg_size: u32,
    pub max_prover_num: u32,
    pub from_step: Step,
    pub target_step: Step,
    pub single_node: bool,
    pub composite_proof: bool,
    pub receipt_inputs_path: String,
    pub receipts_path: String,
}

/// What a [`GenerateTask`] says.
#[verifier::ext_equal]
pub struct GenerateTaskView {
    pub prover_version: ProverVersion,
    pub elf_id: Seq<char>,
    pub proof_id: Seq<char>,
    pub base_dir: Seq<char>,
    pub elf_path: Seq<char>,
    pub seg_path: Seq<char>,
    pub prove_path: Seq<char>,
    pub agg_path: Seq<char>,
    pub snark_path: Seq<char>,
    pub public_input_path: Seq<char>,
    pub private_input_path: Seq<char>,
    pub output_stream_path: Seq<char>,
    pub block_no: Option<u64>,
    pub seg_size: u32,
    pub max_prover_num: u32,
    pub from_step: Step,
    pub target_step: Step,
    pub single_node: bool,
    pub composite_proof: bool,
    pub receipt_inputs_path: Seq<char>,
    pub receipts_path: Seq<char>,
}

impl View for GenerateTask {
    type V = GenerateTaskView;

    open spec fn view(&self) -> GenerateTaskView {
        GenerateTaskView {
            prover_version: self.prover_version,
            elf_id: self.elf_id@,
            proof_id: self.proof_id@,
            base_dir: self.base_dir@,
            elf_path: self.elf_path@,
            seg_path: self.seg_path@,
            prove_path: self.prove_path@,
            agg_path: self.agg_path@,
            snark_path: self.snark_path@,
            public_input_path: self.public_input_path@,
            private_input_path: self.private_input_path@,
            output_stream_path: self.output_stream_path@,
            block_no: self.block_no,
            seg_size: self.seg_size,
            max_prover_num: self.max_prover_num,
            from_step: self.from_step,
            target_step: self.target_step,
            single_node: self.single_node,
            composite_proof: self.composite_proof,
            receipt_inputs_path: self.receipt_inputs_path@,
            receipts_path: self.receipts_path@,
        }
    }
}

/// Which generation a build works with: the first wherever it is built in, whose public
/// values are JSON only where it is alone; none where none is built in.
pub proof fn law_generations(build: Build)
    ensures
        build.first() <==> build == Build::Prover || build == Build::Both,
        build.any() <==> build == Build::Prover || build == Build::ProverV2 || build
            == Build::Both,
        build == Build::Prover || build == Build::Both ==> build.generation()
            == ProverVersion::Zkm,
        build == Build::ProverV2 ==> build.generation() == ProverVersion::Zkm2,
        build == Build::Prover ==> build.ending() == "json"@,
        build == Build::ProverV2 || build == Build::Both ==> build.ending() == "bin"@,
{
}

} // verus!
