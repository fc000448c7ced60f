//! The service itself: how a request enters it, and what it says about a proof.
use crate::generate::{take_in, GenerateStep, Job, SegSizeRule};
use crate::intake_laws::begun;
use crate::layout::{
    public_values_address, public_values_url, snark_proof_address, snark_proof_url,
    stark_proof_address, stark_proof_url,
};
use crate::protocol::{
    Build, GenerateProofRequest, GenerateTask, GetStatusResponse, RuntimeConfig, StageTask,
    Status, StatusReplyView, Step,
};
use crate::signature::{recover_text, signed_chars, signed_text, signer_of, SignatureFault};
use crate::text::{join_path, joined};
use vstd::prelude::*;
use vstd::utf8::encode_utf8;

verus! {

/// The service.
pub struct StageServiceSVC {
    pub config: RuntimeConfig,
    pub build: Build,
}

/// A proof that is known: its row, how many steps each of its split tasks
/// counted, and its context, where it has one that can be read.
pub struct FoundTask {
    pub task: StageTask,
    pub split_steps: Vec<u64>,
    pub context: Option<GenerateTask>,
}

/// The files that the reply about a proof is made from.
pub struct StatusFiles {
    pub output_stream: Option<String>,
    pub receipt: Option<String>,
    pub proof: Option<String>,
}

/// What was read from those files.
pub struct StatusContents {
    pub output_stream: Vec<u8>,
    pub receipt: Vec<u8>,
    pub proof: Vec<u8>,
}

impl FoundTask {
    /// The step that the proof stops at; a SNARK where no context tells.
    pub open spec fn target(self) -> Step {
        match self.context {
            Some(context) => context.target_step,
            None => Step::Snark,
        }
    }

    /// Is the proof a composite one?
    pub open spec fn composite(self) -> bool {
        self.context is Some && self.context->0.composite_proof
    }

    /// Did the proof succeed, with an output stream?
    pub open spec fn has_output(self) -> bool {
        &&& self.context is Some
        &&& self.task.status.meaning == Status::Success
        &&& self.context->0.output_stream_path@.len() > 0
    }

    /// Does the proof have a result to hand out? A split and a composite proof
    /// have none.
    pub open spec fn published(self) -> bool {
        self.target() != Step::Split && !self.composite()
    }

    /// Is the result of the proof in a file? That of an aggregation is, under the
    /// status with the number zero.
    pub open spec fn proof_in_file(self) -> bool {
        &&& self.published()
        &&& self.task.result is Some
        &&& self.target() == Step::Agg
        &&& self.task.status.number == 0
    }

    /// The file of the result of the proof.
    pub open spec fn proof_file(self) -> Seq<char> {
        match self.context {
            Some(context) => context.snark_path@,
            None => Seq::empty(),
        }
    }
}

/// The reply about a proof that is not known: its name alone.
pub open spec fn unknown_reply(proof_id: Seq<char>) -> StatusReplyView {
    StatusReplyView {
        proof_id,
        status: 0,
        step: 0,
        proving_time: 0,
        total_steps: 0,
        output_stream: Seq::empty(),
        receipt: Seq::empty(),
        proof_with_public_inputs: Seq::empty(),
        snark_proof_url: Seq::empty(),
        stark_proof_url: Seq::empty(),
        public_values_url: Seq::empty(),
    }
}

/// The reply about a proof that is known.
pub open spec fn known_reply(
    service: StageServiceSVC,
    proof_id: Seq<char>,
    found: FoundTask,
    contents: StatusContents,
) -> StatusReplyView {
    let url = service.config.fileserver_url;
    let listed = found.published() && url is Some;
    let snark = listed && service.build.first() && found.target() == Step::Snark;
    StatusReplyView {
        proof_id,
        status: found.task.status.number,
        step: found.task.step.number,
        proving_time: found.task.check_at as u64,
        total_steps: if found.split_steps@.len() > 0 {
            found.split_steps@[0]
        } else {
            0
        },
        output_stream: if found.has_output() {
            contents.output_stream@
        } else {
            Seq::empty()
        },
        receipt: if found.has_output() && found.composite() {
            contents.receipt@
        } else {
            Seq::empty()
        },
        proof_with_public_inputs: if !found.published() || found.task.result is None {
            Seq::empty()
        } else if found.proof_in_file() {
            contents.proof@
        } else {
            encode_utf8(found.task.result->0@)
        },
        snark_proof_url: if snark {
            snark_proof_address(url->0@, proof_id)
        } else {
            Seq::empty()
        },
        stark_proof_url: if snark {
            stark_proof_address(url->0@, proof_id)
        } else {
            Seq::empty()
        },
        public_values_url: if listed && service.build.any() {
            public_values_address(url->0@, proof_id, service.build)
        } else {
            Seq::empty()
        },
    }
}

/// What a [`StatusFiles`] says.
#[verifier::ext_equal]
pub struct StatusFilesView {
    pub output_stream: Option<Seq<char>>,
    pub receipt: Option<Seq<char>>,
    pub proof: Option<Seq<char>>,
}

impl View for StatusFiles {
    type V = StatusFilesView;

    open spec fn view(&self) -> StatusFilesView {
        StatusFilesView {
            output_stream: path_view(self.output_stream),
            receipt: path_view(self.receipt),
            proof: path_view(self.proof),
        }
    }
}

/// The files that the reply about a proof is made from.
pub open spec fn files_for(found: FoundTask) -> StatusFilesView {
    StatusFilesView {
        output_stream: if found.has_output() {
            Some(found.context->0.output_stream_path@)
        } else {
            None
        },
        receipt: if found.has_output() && found.composite() {
            Some(joined(joined(found.context->0.prove_path@, "receipt"@), "0"@))
        } else {
            None
        },
        proof: if found.proof_in_file() {
            Some(found.proof_file())
        } else {
            None
        },
    }
}

/// The path in an optional text, as characters.
pub open spec fn path_view(path: Option<String>) -> Option<Seq<char>> {
    match path {
        Some(path) => Some(path@),
        None => None,
    }
}

impl StageServiceSVC {
    /// The address of the user who signed a request.
    pub fn verify_signature(&self, request: &GenerateProofRequest) -> (r: Result<
        String,
        SignatureFault,
    >)
        ensures
            match r {
                Ok(address) => signer_of(
                    request.signature@,
                    signed_chars(request.proof_id@, request.block_no, request.seg_size),
                ) == Ok::<Seq<char>, SignatureFault>(address@),
                Err(fault) => signer_of(
                    request.signature@,
                    signed_chars(request.proof_id@, request.block_no, request.seg_size),
                ) == Err::<Seq<char>, SignatureFault>(fault),
            },
    {
        let message: String = signed_text(
            request.proof_id.as_str(),
            request.block_no,
            request.seg_size,
        );
        recover_text(request.signature.as_str(), message.as_str())
    }

    /// The job that a request is to this service.
    pub open spec fn job<'a>(&'a self, request: &'a GenerateProofRequest) -> Job<'a> {
        Job { config: &self.config, build: self.build, request }
    }

    /// Takes a request in. What the provers say about its segment size is handed
    /// in.
    pub fn generate_proof<'a>(
        &'a self,
        request: &'a GenerateProofRequest,
        rule: SegSizeRule,
    ) -> (r: GenerateStep<'a>)
        ensures
            r@ == begun(self.job(request), rule),
    {
        let signer: Result<String, SignatureFault> = self.verify_signature(request);
        take_in(Job { config: &self.config, build: self.build, request }, rule, signer)
    }

    /// The files that the reply about a proof is made from.
    pub fn status_files(&self, found: &FoundTask) -> (r: StatusFiles)
        ensures
            r@ == files_for(*found),
            path_view(r.output_stream) == (if found.has_output() {
                Some(found.context->0.output_stream_path@)
            } else {
                None
            }),
            path_view(r.receipt) == (if found.has_output() && found.composite() {
                Some(joined(joined(found.context->0.prove_path@, "receipt"@), "0"@))
            } else {
                None
            }),
            path_view(r.proof) == (if found.proof_in_file() {
                Some(found.proof_file())
            } else {
                None
            }),
    {
        let mut files = StatusFiles { output_stream: None, receipt: None, proof: None };
        let mut target: Step = Step::Snark;
        let mut composite: bool = false;
        let mut proof_path: String = String::new();
        if let Some(context) = &found.context {
            if found.task.status.meaning == Status::Success
                && !context.output_stream_path.as_str().is_empty() {
                files.output_stream = Some(context.output_stream_path.clone());
                if context.composite_proof {
                    files.receipt = Some(
                        join_path(join_path(context.prove_path.as_str(), "receipt").as_str(), "0"),
                    );
                }
            }
            target = context.target_step;
            composite = context.composite_proof;
            proof_path = context.snark_path.clone();
        }
        if target != Step::Split && !composite && found.task.result.is_some() && target == Step::Agg
            && found.task.status.number == 0 {
            files.proof = Some(proof_path);
        }
        files
    }

    /// The reply about a proof: what its row says, and what was read from
    /// [`status_files`](Self::status_files). Of a file that is not asked for, the
    /// contents do not matter.
    pub fn get_status(
        &self,
        proof_id: &str,
        found: Option<&FoundTask>,
        contents: StatusContents,
    ) -> (r: GetStatusResponse)
        ensures
            r@ == (match found {
                Some(found) => known_reply(*self, proof_id@, *found, contents),
                None => unknown_reply(proof_id@),
            }),
    {
        let mut reply = GetStatusResponse {
            proof_id: proof_id.to_string(),
            status: 0,
            step: 0,
            proving_time: 0,
            total_steps: 0,
            output_stream: Vec::new(),
            receipt: Vec::new(),
            proof_with_public_inputs: Vec::new(),
            snark_proof_url: String::new(),
            stark_proof_url: String::new(),
            public_values_url: String::new(),
        };
        let found: &FoundTask = match found {
            Some(found) => found,
            None => {
                assert(reply@ =~= unknown_reply(proof_id@));
                return reply;
            },
        };
        let task: &StageTask = &found.task;
        reply.status = task.status.number;
        reply.step = task.step.number;
        reply.proving_time = #[verifier::truncate]
        (task.check_at as u64);
        if found.split_steps.len() > 0 {
            reply.total_steps = found.split_steps[0];
        }
        let mut target: Step = Step::Snark;
        let mut composite: bool = false;
        if let Some(context) = &found.context {
            if task.status.meaning == Status::Success
                && !context.output_stream_path.as_str().is_empty() {
                reply.output_stream = contents.output_stream;
                if context.composite_proof {
                    reply.receipt = contents.receipt;
                }
            }
            target = context.target_step;
            composite = context.composite_proof;
        }
        if target != Step::Split && !composite {
            if let Some(result) = &task.result {
                if target == Step::Agg && task.status.number == 0 {
                    reply.proof_with_public_inputs = contents.proof;
                } else {
                    reply.proof_with_public_inputs = result.as_str().as_bytes_vec();
                }
            }
            if let Some(url) = &self.config.fileserver_url {
                if self.build.has_prover() && target == Step::Snark {
                    reply.snark_proof_url = snark_proof_url(url.as_str(), proof_id);
                    reply.stark_proof_url = stark_proof_url(url.as_str(), proof_id);
                }
                if self.build.can_prove() {
                    reply.public_values_url =
                        public_values_url(url.as_str(), proof_id, self.build);
                }
            }
        }
        assert(reply@ =~= known_reply(*self, proof_id@, *found, contents));
        reply
    }
}

} // verus!
