use proof_service::generate::{Accepted, EnqueueWork, GenerateStep, Job};
use proof_service::protocol::{
    Build, Coded, GenerateProofRequest, GenerateProofResponse, GenerateTask, ProverVersion,
    RuntimeConfig, StageTask, Status, Step,
};
use proof_service::service::{FoundTask, StageServiceSVC, StatusContents};
use proof_service::worker::{finalize_stage_task, RowUpdate, Run, StageSnapshot};

fn config() -> RuntimeConfig {
    RuntimeConfig {
        base_dir: "/data".to_string(),
        database_url: "mysql://db".to_string(),
        fileserver_url: Some("http://files".to_string()),
        prover_addrs: vec![],
        max_concurrent_tasks: None,
        ca_cert_path: None,
        cert_path: None,
        key_path: None,
    }
}

fn service(build: Build) -> StageServiceSVC {
    StageServiceSVC { config: config(), build }
}

fn context(target_step: Step) -> GenerateTask {
    GenerateTask {
        prover_version: ProverVersion::Zkm,
        elf_id: "id".to_string(),
        proof_id: "p1".to_string(),
        base_dir: "/data/proof/p1".to_string(),
        elf_path: "/data/elf/id".to_string(),
        seg_path: "/data/proof/p1/segment".to_string(),
        prove_path: "/data/proof/p1/prove".to_string(),
        agg_path: "/data/proof/p1/aggregate".to_string(),
        snark_path: "/data/proof/p1/snark/proof_with_public_inputs.json".to_string(),
        public_input_path: String::new(),
        private_input_path: String::new(),
        output_stream_path: "/data/proof/p1/output_stream/output_stream".to_string(),
        block_no: Some(0),
        seg_size: 2048,
        max_prover_num: 3,
        from_step: Step::Init,
        target_step,
        single_node: false,
        composite_proof: false,
        receipt_inputs_path: String::new(),
        receipts_path: String::new(),
    }
}

fn found(status: Coded<Status>, context: Option<GenerateTask>) -> FoundTask {
    FoundTask {
        task: StageTask {
            id: "p1".to_string(),
            status,
            step: Coded { number: 6, meaning: Step::Snark },
            check_at: 1234,
            context: Some("text".to_string()),
            result: Some("proof".to_string()),
        },
        split_steps: vec![77, 88],
        context,
    }
}

fn success() -> Coded<Status> {
    Coded { number: 2, meaning: Status::Success }
}

fn contents() -> StatusContents {
    StatusContents { output_stream: vec![1], receipt: vec![2], proof: vec![3] }
}

#[test]
fn unknown_proof() {
    let reply = service(Build::Prover).get_status("p9", None, contents());
    assert_eq!(reply.proof_id, "p9");
    assert_eq!(reply.status, 0);
    assert_eq!(reply.step, 0);
    assert_eq!(reply.proving_time, 0);
    assert_eq!(reply.total_steps, 0);
    assert!(reply.output_stream.is_empty());
    assert!(reply.receipt.is_empty());
    assert!(reply.proof_with_public_inputs.is_empty());
    assert_eq!(reply.snark_proof_url, "");
    assert_eq!(reply.stark_proof_url, "");
    assert_eq!(reply.public_values_url, "");
}

#[test]
fn finished_snark() {
    let task = found(success(), Some(context(Step::Snark)));
    let service = service(Build::Prover);
    let files = service.status_files(&task);
    assert_eq!(
        files.output_stream,
        Some("/data/proof/p1/output_stream/output_stream".to_string())
    );
    assert_eq!(files.receipt, None);
    assert_eq!(files.proof, None);
    let reply = service.get_status("p1", Some(&task), contents());
    assert_eq!(reply.status, 2);
    assert_eq!(reply.step, 6);
    assert_eq!(reply.proving_time, 1234);
    assert_eq!(reply.total_steps, 77);
    assert_eq!(reply.output_stream, vec![1]);
    assert!(reply.receipt.is_empty());
    assert_eq!(reply.proof_with_public_inputs, b"proof");
    assert_eq!(
        reply.snark_proof_url,
        "http://files/p1/snark/proof_with_public_inputs.json"
    );
    assert_eq!(
        reply.stark_proof_url,
        "http://files/p1/wrap/proof_with_public_inputs.json"
    );
    assert_eq!(reply.public_values_url, "http://files/p1/wrap/public_values.json");
}

#[test]
fn second_generation_lists_values_only() {
    let task = found(success(), Some(context(Step::Snark)));
    let reply = service(Build::ProverV2).get_status("p1", Some(&task), contents());
    assert_eq!(reply.snark_proof_url, "");
    assert_eq!(reply.stark_proof_url, "");
    assert_eq!(reply.public_values_url, "http://files/p1/wrap/public_values.bin");
}

#[test]
fn unfinished_proof_has_no_output() {
    let status = Coded { number: 1, meaning: Status::Computing };
    let task = found(status, Some(context(Step::Snark)));
    let service = service(Build::Prover);
    let files = service.status_files(&task);
    assert_eq!(files.output_stream, None);
    let reply = service.get_status("p1", Some(&task), contents());
    assert!(reply.output_stream.is_empty());
    assert_eq!(reply.proof_with_public_inputs, b"proof");
}

#[test]
fn composite_proof_has_a_receipt() {
    let mut details = context(Step::Snark);
    details.composite_proof = true;
    let task = found(success(), Some(details));
    let service = service(Build::Prover);
    let files = service.status_files(&task);
    assert_eq!(files.receipt, Some("/data/proof/p1/prove/receipt/0".to_string()));
    let reply = service.get_status("p1", Some(&task), contents());
    assert_eq!(reply.output_stream, vec![1]);
    assert_eq!(reply.receipt, vec![2]);
    assert!(reply.proof_with_public_inputs.is_empty());
    assert_eq!(reply.snark_proof_url, "");
    assert_eq!(reply.public_values_url, "");
}

#[test]
fn split_has_nothing_to_hand_out() {
    let task = found(success(), Some(context(Step::Split)));
    let reply = service(Build::Prover).get_status("p1", Some(&task), contents());
    assert_eq!(reply.output_stream, vec![1]);
    assert!(reply.proof_with_public_inputs.is_empty());
    assert_eq!(reply.public_values_url, "");
}

#[test]
fn aggregation_is_read_from_its_file() {
    let status = Coded { number: 0, meaning: Status::Other(0) };
    let task = found(status, Some(context(Step::Agg)));
    let service = service(Build::Prover);
    assert_eq!(
        service.status_files(&task).proof,
        Some("/data/proof/p1/snark/proof_with_public_inputs.json".to_string())
    );
    let reply = service.get_status("p1", Some(&task), contents());
    assert_eq!(reply.proof_with_public_inputs, vec![3]);
    assert_eq!(reply.snark_proof_url, "");
    assert_eq!(reply.public_values_url, "http://files/p1/wrap/public_values.json");
    let finished = found(success(), Some(context(Step::Agg)));
    assert_eq!(service.status_files(&finished).proof, None);
    let reply = service.get_status("p1", Some(&finished), contents());
    assert_eq!(reply.proof_with_public_inputs, b"proof");
}

#[test]
fn no_context_counts_as_a_snark() {
    let mut task = found(success(), None);
    task.split_steps.clear();
    let service = service(Build::Prover);
    let files = service.status_files(&task);
    assert_eq!(files.output_stream, None);
    assert_eq!(files.receipt, None);
    assert_eq!(files.proof, None);
    let reply = service.get_status("p1", Some(&task), contents());
    assert_eq!(reply.total_steps, 0);
    assert!(reply.output_stream.is_empty());
    assert_eq!(reply.proof_with_public_inputs, b"proof");
    assert_eq!(
        reply.snark_proof_url,
        "http://files/p1/snark/proof_with_public_inputs.json"
    );
}

#[test]
fn no_output_path_no_output() {
    let mut details = context(Step::Snark);
    details.output_stream_path = String::new();
    let task = found(success(), Some(details));
    let service = service(Build::Prover);
    assert_eq!(service.status_files(&task).output_stream, None);
    assert!(service.get_status("p1", Some(&task), contents()).output_stream.is_empty());
}

#[test]
fn result_that_is_not_there() {
    let mut task = found(success(), Some(context(Step::Snark)));
    task.task.result = None;
    task.task.check_at = -1;
    let reply = service(Build::Prover).get_status("p1", Some(&task), contents());
    assert!(reply.proof_with_public_inputs.is_empty());
    assert_eq!(reply.proving_time, u64::MAX);
}

#[test]
fn result_is_handed_out_as_bytes() {
    let mut task = found(success(), Some(context(Step::Snark)));
    task.task.result = Some("p\u{e9}\u{20ac}".to_string());
    let reply = service(Build::Prover).get_status("p1", Some(&task), contents());
    assert_eq!(
        reply.proof_with_public_inputs,
        vec![b'p', 0xc3, 0xa9, 0xe2, 0x82, 0xac]
    );
}

#[test]
fn no_provers_no_public_values() {
    let task = found(success(), Some(context(Step::Snark)));
    let reply = service(Build::Neither).get_status("p1", Some(&task), contents());
    assert_eq!(reply.proof_with_public_inputs, b"proof");
    assert_eq!(reply.snark_proof_url, "");
    assert_eq!(reply.stark_proof_url, "");
    assert_eq!(reply.public_values_url, "");
}

#[test]
fn proof_is_handed_out_as_made() {
    let made = "{\"proof\":\"\u{3c0}\"}".as_bytes().to_vec();
    let run = Run {
        id: "p1".to_string(),
        recorded_at: 100,
        check_at: 100,
        max_prover_num: 2,
        target_step: Step::Snark,
        snark_path: String::new(),
    };
    let snapshot = StageSnapshot {
        step: Step::Snark,
        success: true,
        error: false,
        tasks_gen_done: true,
        processing_prove: 0,
        unfinished_prove: 0,
    };
    let last = finalize_stage_task(&run, snapshot, 9, made.clone());
    let mut task = found(success(), Some(context(Step::Snark)));
    task.task.result = match last.into_iter().last() {
        Some(RowUpdate::Finish { result, .. }) => Some(result),
        _ => panic!("no result"),
    };
    let reply = service(Build::Prover).get_status("p1", Some(&task), contents());
    assert_eq!(reply.proof_with_public_inputs, made);
}

fn accepted_reply(service: &StageServiceSVC, target_step: Step) -> GenerateProofResponse {
    let request = GenerateProofRequest {
        proof_id: "p1".to_string(),
        elf_data: vec![],
        elf_id: None,
        block_no: None,
        block_data: vec![],
        seg_size: 2048,
        signature: String::new(),
        public_input_stream: vec![],
        private_input_stream: vec![],
        from_step: None,
        target_step: None,
        composite_proof: false,
        single_node: false,
        max_prover_num: 0,
        receipt_inputs: vec![],
        receipts: vec![],
    };
    let accepted = Accepted {
        job: Job { config: &service.config, build: service.build, request: &request },
        user_address: String::new(),
        from_step: Step::Init,
        target_step,
    };
    match (EnqueueWork { accepted, context: String::new() }).answer(Ok(())) {
        GenerateStep::Reply(reply) => reply,
        _ => panic!("no reply"),
    }
}

#[test]
fn addresses_agree() {
    for build in [Build::Prover, Build::ProverV2, Build::Both] {
        for target in [Step::Split, Step::Agg, Step::Snark] {
            let service = service(build);
            let first = accepted_reply(&service, target);
            let task = found(success(), Some(context(target)));
            let later = service.get_status("p1", Some(&task), contents());
            assert_eq!(first.snark_proof_url, later.snark_proof_url);
            assert_eq!(first.stark_proof_url, later.stark_proof_url);
            assert_eq!(first.public_values_url, later.public_values_url);
        }
    }
}
