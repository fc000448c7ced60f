use ethers::signers::LocalWallet;
use ethers::utils::hash_message;
use proof_service::codec::{decode_chunks, encode_chunks};
use proof_service::generate::{
    probe_elf, take_in, Accepted, FileOp, GenerateStep, Job, SegSizeRule,
};
use proof_service::protocol::{
    Build, FileItem, GenerateProofRequest, GenerateProofResponse, GenerateTask, ProverVersion,
    RuntimeConfig, Status, Step,
};
use proof_service::service::StageServiceSVC;
use proof_service::signature::{signed_text, SignatureFault};

const VALID: SegSizeRule = SegSizeRule { valid: true, min: 1024, max: 4096 };
const SIGNER: &str = "0x7e5f4552091a69125d5dfcb7b8c2659029395bdf";
const ABC: &str = "ba7816bf8f01cfea414140de5dae2223b00361a396177a9cb410ff61f20015ad";

fn service(build: Build) -> StageServiceSVC {
    let config = RuntimeConfig {
        base_dir: "/data".to_string(),
        database_url: "mysql://db".to_string(),
        fileserver_url: Some("http://files".to_string()),
        prover_addrs: vec!["a".to_string(), "b".to_string(), "c".to_string()],
        max_concurrent_tasks: None,
        ca_cert_path: None,
        cert_path: None,
        key_path: None,
    };
    StageServiceSVC { config, build }
}

fn sign(request: &mut GenerateProofRequest) {
    let wallet: LocalWallet =
        "0000000000000000000000000000000000000000000000000000000000000001".parse().unwrap();
    let message = signed_text(&request.proof_id, request.block_no, request.seg_size);
    let signature = wallet.sign_hash(hash_message(message)).unwrap();
    request.signature = format!("{signature}");
}

fn request() -> GenerateProofRequest {
    let mut request = GenerateProofRequest {
        proof_id: "p1".to_string(),
        elf_data: b"abc".to_vec(),
        elf_id: None,
        block_no: None,
        block_data: vec![],
        seg_size: 2048,
        signature: String::new(),
        public_input_stream: vec![],
        private_input_stream: vec![],
        from_step: None,
        target_step: None,
        composite_proof: false,
        single_node: false,
        max_prover_num: 0,
        receipt_inputs: vec![],
        receipts: vec![],
    };
    sign(&mut request);
    request
}

/// What the outside answers, and what it was asked.
struct World {
    users: Vec<String>,
    present: bool,
    failing_write: Option<usize>,
    context: Result<String, String>,
    insert: Result<(), String>,
    enqueue: Result<(), String>,
    looked_up: Option<String>,
    probed: Option<String>,
    dirs: Vec<String>,
    files: Vec<(String, Vec<u8>)>,
    order: Vec<String>,
    task: Option<GenerateTask>,
    inserted: Option<(String, String)>,
    queued: Option<String>,
}

fn world() -> World {
    World {
        users: vec!["0xuser".to_string(), "0xother".to_string()],
        present: false,
        failing_write: None,
        context: Ok("context".to_string()),
        insert: Ok(()),
        enqueue: Ok(()),
        looked_up: None,
        probed: None,
        dirs: vec![],
        files: vec![],
        order: vec![],
        task: None,
        inserted: None,
        queued: None,
    }
}

fn drive(step: GenerateStep, world: &mut World) -> Result<GenerateProofResponse, String> {
    let mut step = step;
    loop {
        step = match step {
            GenerateStep::LookupUser(work) => {
                world.looked_up = Some(work.address.clone());
                work.answer(&world.users)
            }
            GenerateStep::ProbeElf(work) => {
                world.probed = Some(work.elf_path.clone());
                work.answer(world.present)
            }
            GenerateStep::Perform(work) => {
                if world.failing_write == Some(world.order.len()) {
                    work.answer(Err("disk full".to_string()))
                } else {
                    match &work.op {
                        FileOp::CreateDir { path } => {
                            world.dirs.push(path.clone());
                            world.order.push(path.clone());
                        }
                        FileOp::Write { path, content } => {
                            world.files.push((path.clone(), content.clone()));
                            world.order.push(path.clone());
                        }
                    }
                    work.answer(Ok(()))
                }
            }
            GenerateStep::SerializeContext(work) => {
                let context = world.context.clone();
                let accepted = work.accepted;
                world.task = Some(work.task);
                proof_service::generate::ContextWork {
                    accepted,
                    task: empty_task(),
                }
                .answer(context)
            }
            GenerateStep::InsertTask(work) => {
                let row = work.row();
                assert_eq!(row.proof_id, "p1");
                assert_eq!(row.status, Status::Computing);
                world.inserted = Some((row.user_address, row.context));
                work.answer(world.insert.clone())
            }
            GenerateStep::Enqueue(work) => {
                let task = work.task(3, Step::Init);
                assert_eq!(task.id, "p1");
                assert_eq!(task.status.number, 3);
                assert_eq!(task.status.meaning, Status::Computing);
                assert_eq!(task.step.number, 0);
                assert_eq!(task.step.meaning, Step::Init);
                assert_eq!(task.check_at, 0);
                assert_eq!(task.result, None);
                world.queued = task.context;
                work.answer(world.enqueue.clone())
            }
            GenerateStep::Reply(reply) => return Ok(reply),
            GenerateStep::Fail(message) => return Err(message),
        };
    }
}

fn empty_task() -> GenerateTask {
    GenerateTask {
        prover_version: ProverVersion::Zkm,
        elf_id: String::new(),
        proof_id: String::new(),
        base_dir: String::new(),
        elf_path: String::new(),
        seg_path: String::new(),
        prove_path: String::new(),
        agg_path: String::new(),
        snark_path: String::new(),
        public_input_path: String::new(),
        private_input_path: String::new(),
        output_stream_path: String::new(),
        block_no: None,
        seg_size: 0,
        max_prover_num: 0,
        from_step: Step::Init,
        target_step: Step::Snark,
        single_node: false,
        composite_proof: false,
        receipt_inputs_path: String::new(),
        receipts_path: String::new(),
    }
}

fn refused_with(request: GenerateProofRequest, rule: SegSizeRule, world: &mut World) -> String {
    let service = service(Build::Prover);
    let reply = drive(service.generate_proof(&request, rule), world).unwrap();
    assert_eq!(reply.status, Status::InvalidParameter);
    assert_eq!(reply.proof_id, request.proof_id);
    assert_eq!(reply.snark_proof_url, "");
    assert_eq!(reply.stark_proof_url, "");
    assert_eq!(reply.public_values_url, "");
    assert!(world.inserted.is_none());
    assert!(world.queued.is_none());
    reply.error_message
}

#[test]
fn segment_size_is_refused() {
    let rule = SegSizeRule { valid: false, min: 1024, max: 4096 };
    let mut outside = world();
    assert_eq!(
        refused_with(request(), rule, &mut outside),
        "invalid seg_size support [1024-4096]"
    );
    assert!(outside.looked_up.is_none());
}

#[test]
fn segment_size_does_not_matter() {
    let rule = SegSizeRule { valid: false, min: 1024, max: 4096 };
    let mut composite = request();
    composite.composite_proof = true;
    let first = service(Build::Prover);
    let reply = drive(first.generate_proof(&composite, rule), &mut world()).unwrap();
    assert_eq!(reply.status, Status::Computing);
    let second = service(Build::ProverV2);
    let plain = request();
    let reply = drive(second.generate_proof(&plain, rule), &mut world()).unwrap();
    assert_eq!(reply.status, Status::Computing);
}

#[test]
fn signature_is_refused() {
    let mut unsigned = request();
    unsigned.signature = "0x12".to_string();
    let mut outside = world();
    assert_eq!(refused_with(unsigned, VALID, &mut outside), "invalid signature");
    assert!(outside.looked_up.is_none());
}

#[test]
fn signer_is_handed_in() {
    let service = service(Build::Prover);
    let asked = request();
    let job = Job { config: &service.config, build: service.build, request: &asked };
    match take_in(job, VALID, Ok("0xsomebody".to_string())) {
        GenerateStep::LookupUser(work) => assert_eq!(work.address, "0xsomebody"),
        _ => panic!("no lookup"),
    }
    for fault in [SignatureFault::Malformed, SignatureFault::Unrecoverable] {
        match take_in(job, VALID, Err(fault)) {
            GenerateStep::Reply(reply) => assert_eq!(reply.error_message, "invalid signature"),
            _ => panic!("no reply"),
        }
    }
}

#[test]
fn unknown_user_is_refused() {
    let mut outside = world();
    outside.users.clear();
    assert_eq!(refused_with(request(), VALID, &mut outside), "permission denied");
    assert_eq!(outside.looked_up, Some(SIGNER.to_string()));
    assert!(outside.order.is_empty());
}

#[test]
fn start_is_refused() {
    for step in [Step::Split, Step::Prove, Step::Snark, Step::Other(77)] {
        let mut asked = request();
        asked.from_step = Some(step);
        assert_eq!(
            refused_with(asked, VALID, &mut world()),
            "invalid FromStep, only Support Init and Agg"
        );
    }
}

#[test]
fn target_is_refused() {
    for step in [Step::Init, Step::Prove, Step::Other(77)] {
        let mut asked = request();
        asked.target_step = Some(step);
        assert_eq!(
            refused_with(asked, VALID, &mut world()),
            "invalid TargetStep, only Support Split, Agg and Snark"
        );
    }
}

#[test]
fn program_is_missing() {
    let mut asked = request();
    asked.elf_data.clear();
    assert_eq!(
        refused_with(asked, VALID, &mut world()),
        "elf_data or elf_id should not be empty"
    );
}

#[test]
fn program_is_not_found() {
    let mut asked = request();
    asked.elf_data.clear();
    asked.elf_id = Some(format!("0x{ABC}"));
    let mut outside = world();
    assert_eq!(refused_with(asked, VALID, &mut outside), "elf_id not found");
    assert_eq!(outside.probed, Some(format!("/data/elf/{ABC}")));
    assert!(outside.order.is_empty());
}

#[test]
fn receipts_are_missing() {
    let mut asked = request();
    asked.from_step = Some(Step::Agg);
    let mut outside = world();
    assert_eq!(
        refused_with(asked, VALID, &mut outside),
        "receipt_inputs should not empty"
    );
    assert_eq!(
        outside.order,
        vec!["/data/proof/p1", "/data/proof/p1/0_0", "/data/proof/p1/input_stream"]
    );
    let mut alone = request();
    alone.from_step = Some(Step::Agg);
    alone.receipt_inputs = vec![vec![1]];
    alone.single_node = true;
    assert_eq!(
        refused_with(alone, VALID, &mut world()),
        "receipt_inputs should not empty"
    );
}

#[test]
fn plain_request_is_accepted() {
    let service = service(Build::Prover);
    let asked = request();
    let mut outside = world();
    let reply = drive(service.generate_proof(&asked, VALID), &mut outside).unwrap();
    assert_eq!(reply.status, Status::Computing);
    assert_eq!(reply.proof_id, "p1");
    assert_eq!(reply.error_message, "");
    assert_eq!(
        reply.snark_proof_url,
        "http://files/p1/snark/proof_with_public_inputs.json"
    );
    assert_eq!(
        reply.stark_proof_url,
        "http://files/p1/wrap/proof_with_public_inputs.json"
    );
    assert_eq!(reply.public_values_url, "http://files/p1/wrap/public_values.json");
    assert_eq!(outside.looked_up, Some(SIGNER.to_string()));
    assert_eq!(outside.probed, Some(format!("/data/elf/{ABC}")));
    assert_eq!(outside.files, vec![(format!("/data/elf/{ABC}"), b"abc".to_vec())]);
    let elf = format!("/data/elf/{ABC}");
    assert_eq!(
        outside.order,
        vec![
            elf.as_str(),
            "/data/proof/p1",
            "/data/proof/p1/0_0",
            "/data/proof/p1/input_stream",
            "/data/proof/p1/output_stream",
            "/data/proof/p1/segment",
            "/data/proof/p1/prove/receipt",
            "/data/proof/p1/wrap",
            "/data/proof/p1/snark",
        ]
    );
    assert_eq!(outside.inserted, Some(("0xuser".to_string(), "context".to_string())));
    assert_eq!(outside.queued, Some("context".to_string()));
}

#[test]
fn task_of_a_plain_request() {
    let service = service(Build::Prover);
    let asked = request();
    let mut outside = world();
    outside.present = true;
    drive(service.generate_proof(&asked, VALID), &mut outside).unwrap();
    assert!(outside.files.is_empty());
    let task = outside.task.unwrap();
    assert_eq!(task.prover_version, ProverVersion::Zkm);
    assert_eq!(task.elf_id, ABC);
    assert_eq!(task.proof_id, "p1");
    assert_eq!(task.base_dir, "/data/proof/p1");
    assert_eq!(task.elf_path, format!("/data/elf/{ABC}"));
    assert_eq!(task.seg_path, "/data/proof/p1/segment");
    assert_eq!(task.prove_path, "/data/proof/p1/prove");
    assert_eq!(task.agg_path, "/data/proof/p1/aggregate");
    assert_eq!(task.snark_path, "/data/proof/p1/snark/proof_with_public_inputs.json");
    assert_eq!(task.public_input_path, "");
    assert_eq!(task.private_input_path, "");
    assert_eq!(task.output_stream_path, "/data/proof/p1/output_stream/output_stream");
    assert_eq!(task.block_no, Some(0));
    assert_eq!(task.seg_size, 2048);
    assert_eq!(task.max_prover_num, 3);
    assert_eq!(task.from_step, Step::Init);
    assert_eq!(task.target_step, Step::Snark);
    assert!(!task.single_node);
    assert!(!task.composite_proof);
    assert_eq!(task.receipt_inputs_path, "");
    assert_eq!(task.receipts_path, "");
}

#[test]
fn full_request_is_accepted() {
    let service = service(Build::Both);
    let mut asked = request();
    asked.block_no = Some(12);
    asked.block_data = vec![
        FileItem { file_name: "b1".to_string(), file_content: vec![1] },
        FileItem { file_name: "b2".to_string(), file_content: vec![] },
    ];
    asked.public_input_stream = vec![2];
    asked.private_input_stream = vec![3];
    asked.receipt_inputs = vec![vec![4, 5], vec![]];
    asked.receipts = vec![vec![6]];
    asked.max_prover_num = 9;
    asked.target_step = Some(Step::Agg);
    asked.composite_proof = true;
    asked.single_node = true;
    sign(&mut asked);
    let mut outside = world();
    let reply = drive(service.generate_proof(&asked, VALID), &mut outside).unwrap();
    assert_eq!(reply.status, Status::Computing);
    assert_eq!(reply.snark_proof_url, "");
    assert_eq!(reply.stark_proof_url, "");
    assert_eq!(reply.public_values_url, "http://files/p1/wrap/public_values.bin");
    let inputs = "/data/proof/p1/input_stream";
    assert_eq!(
        outside.files,
        vec![
            (format!("/data/elf/{ABC}"), b"abc".to_vec()),
            ("/data/proof/p1/0_12/b1".to_string(), vec![1]),
            ("/data/proof/p1/0_12/b2".to_string(), vec![]),
            (format!("{inputs}/public_input"), vec![2]),
            (format!("{inputs}/private_input"), vec![3]),
            (format!("{inputs}/receipt_inputs"), encode_chunks(&asked.receipt_inputs)),
            (format!("{inputs}/receipts"), encode_chunks(&asked.receipts)),
        ]
    );
    let task = outside.task.unwrap();
    assert_eq!(task.prover_version, ProverVersion::Zkm);
    assert_eq!(task.public_input_path, format!("{inputs}/public_input"));
    assert_eq!(task.private_input_path, format!("{inputs}/private_input"));
    assert_eq!(task.receipt_inputs_path, format!("{inputs}/receipt_inputs"));
    assert_eq!(task.receipts_path, format!("{inputs}/receipts"));
    assert_eq!(task.block_no, Some(12));
    assert_eq!(task.max_prover_num, 9);
    assert_eq!(task.target_step, Step::Agg);
    assert!(task.composite_proof);
    assert!(task.single_node);
}

#[test]
fn receipts_reach_the_workers() {
    let service = service(Build::ProverV2);
    let mut asked = request();
    asked.receipt_inputs = vec![vec![4, 5], vec![], vec![7; 100]];
    let mut outside = world();
    drive(service.generate_proof(&asked, VALID), &mut outside).unwrap();
    let path = outside.task.unwrap().receipt_inputs_path;
    let stored = outside.files.iter().find(|(name, _)| *name == path).unwrap();
    assert_eq!(decode_chunks(&stored.1), Ok(asked.receipt_inputs));
}

#[test]
fn aggregation_gets_empty_public_values() {
    for (build, name) in [
        (Build::Prover, "/data/proof/p1/wrap/public_values.json"),
        (Build::ProverV2, "/data/proof/p1/wrap/public_values.bin"),
    ] {
        let service = service(build);
        let mut asked = request();
        asked.from_step = Some(Step::Agg);
        asked.receipt_inputs = vec![vec![1]];
        let mut outside = world();
        let reply = drive(service.generate_proof(&asked, VALID), &mut outside).unwrap();
        assert_eq!(reply.status, Status::Computing);
        assert!(outside.probed.is_none());
        assert!(outside.files.contains(&(name.to_string(), vec![])));
        let at = outside.order.iter().position(|p| p == name).unwrap();
        assert_eq!(outside.order[at - 1], "/data/proof/p1/wrap");
        assert_eq!(outside.order[at + 1], "/data/proof/p1/snark");
        let task = outside.task.unwrap();
        assert_eq!(task.elf_id, "");
        assert_eq!(task.elf_path, "");
        assert_eq!(task.from_step, Step::Agg);
    }
}

#[test]
fn split_has_no_addresses() {
    let service = service(Build::Prover);
    let mut asked = request();
    asked.target_step = Some(Step::Split);
    let reply = drive(service.generate_proof(&asked, VALID), &mut world()).unwrap();
    assert_eq!(reply.status, Status::Computing);
    assert_eq!(reply.snark_proof_url, "");
    assert_eq!(reply.stark_proof_url, "");
    assert_eq!(reply.public_values_url, "");
}

#[test]
fn second_generation_has_no_proof_addresses() {
    let service = service(Build::ProverV2);
    let asked = request();
    let mut outside = world();
    let reply = drive(service.generate_proof(&asked, VALID), &mut outside).unwrap();
    assert_eq!(reply.snark_proof_url, "");
    assert_eq!(reply.stark_proof_url, "");
    assert_eq!(reply.public_values_url, "http://files/p1/wrap/public_values.bin");
    let task = outside.task.unwrap();
    assert_eq!(task.prover_version, ProverVersion::Zkm2);
    assert_eq!(task.output_stream_path, "");
}

#[test]
fn no_file_server_no_addresses() {
    let mut service = service(Build::Prover);
    service.config.fileserver_url = None;
    let asked = request();
    let reply = drive(service.generate_proof(&asked, VALID), &mut world()).unwrap();
    assert_eq!(reply.status, Status::Computing);
    assert_eq!(reply.snark_proof_url, "");
    assert_eq!(reply.public_values_url, "");
}

#[test]
fn every_failing_write_fails_the_request() {
    let service = service(Build::Prover);
    let asked = request();
    for failing in 0..9 {
        let mut outside = world();
        outside.failing_write = Some(failing);
        let end = drive(service.generate_proof(&asked, VALID), &mut outside);
        assert!(matches!(end, Err(message) if message == "disk full"));
        assert_eq!(outside.order.len(), failing);
        assert!(outside.inserted.is_none());
    }
}

#[test]
fn failures_after_the_files() {
    let service = service(Build::Prover);
    let asked = request();
    let mut outside = world();
    outside.context = Err("odd".to_string());
    let end = drive(service.generate_proof(&asked, VALID), &mut outside);
    assert!(
        matches!(end, Err(message) if message == "Failed to serialize GenerateTask context: odd")
    );
    assert!(outside.inserted.is_none());
    let mut outside = world();
    outside.insert = Err("gone".to_string());
    let end = drive(service.generate_proof(&asked, VALID), &mut outside);
    assert!(matches!(end, Err(message) if message == "Failed to insert task into database: gone"));
    assert!(outside.queued.is_none());
    let mut outside = world();
    outside.enqueue = Err("closed".to_string());
    let end = drive(service.generate_proof(&asked, VALID), &mut outside);
    assert!(matches!(end, Err(message) if message == "Failed to send task to queue: closed"));
}

#[test]
fn program_is_found_by_its_identity() {
    let service = service(Build::Prover);
    let brought = request();
    let mut named = request();
    named.elf_data.clear();
    named.elf_id = Some(format!("0x{ABC}"));
    let mut first = world();
    drive(service.generate_proof(&brought, VALID), &mut first).unwrap();
    let mut second = world();
    second.present = true;
    drive(service.generate_proof(&named, VALID), &mut second).unwrap();
    assert_eq!(first.probed, second.probed);
    assert_eq!(first.task.unwrap().elf_path, second.task.unwrap().elf_path);
}

#[test]
fn writes_stay_under_the_base() {
    let service = service(Build::Both);
    let mut asked = request();
    asked.block_data =
        vec![FileItem { file_name: "x".to_string(), file_content: vec![1] }];
    let mut outside = world();
    drive(service.generate_proof(&asked, VALID), &mut outside).unwrap();
    assert!(outside.order.iter().all(|path| path.starts_with("/data/")));
}

#[test]
fn program_is_probed_under_its_identity() {
    let service = service(Build::Prover);
    let asked = request();
    let accepted = Accepted {
        job: Job { config: &service.config, build: service.build, request: &asked },
        user_address: "0xuser".to_string(),
        from_step: Step::Init,
        target_step: Step::Snark,
    };
    match probe_elf(accepted, "id".to_string(), true) {
        GenerateStep::ProbeElf(work) => {
            assert_eq!(work.elf_path, "/data/elf/id");
            assert!(work.provided);
        }
        _ => panic!("no probe"),
    }
}

#[test]
fn no_provers_no_task() {
    let service = service(Build::Neither);
    let rule = SegSizeRule { valid: false, min: 1024, max: 4096 };
    let plain = request();
    let mut outside = world();
    let end = drive(service.generate_proof(&plain, rule), &mut outside);
    assert!(matches!(end, Err(message) if message == "ProverVersion error"));
    assert_eq!(outside.order.len(), 9);
    assert_eq!(outside.order[8], "/data/proof/p1/snark");
    assert!(outside.task.is_none());
    assert!(outside.inserted.is_none());
    assert!(outside.queued.is_none());
    let mut aggregated = request();
    aggregated.from_step = Some(Step::Agg);
    aggregated.receipt_inputs = vec![vec![1]];
    let mut outside = world();
    let end = drive(service.generate_proof(&aggregated, rule), &mut outside);
    assert!(matches!(end, Err(message) if message == "ProverVersion error"));
    assert_eq!(outside.files.len(), 1);
    let mut unsigned = request();
    unsigned.signature = String::new();
    let reply = drive(service.generate_proof(&unsigned, rule), &mut world()).unwrap();
    assert_eq!(reply.error_message, "invalid signature");
}
