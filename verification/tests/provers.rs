use proof_service::cache::{ProgramCache, StarkKeyCache};
use proof_service::codec::encode_chunks;
use proof_service::root_prover::{
    ProveContext, ReadWork, RootProver, RootStep, Segment, StateWithPublicValues, MAX_RETRIES,
    RETRY_DELAY,
};
use proof_service::single_node_prover::{
    NodeStep, NodeTarget, ProofForm, SingleNodeContext, SingleNodeProver,
};

type Step<'a> = RootStep<'a, u32, u64, String>;

fn prove_context() -> ProveContext {
    ProveContext {
        program_id: "id".to_string(),
        elf_path: "/data/elf/id".to_string(),
        segment: "/data/proof/p1/segment/0".to_string(),
        seg_size: 2048,
    }
}

fn read<'a>(step: Step<'a>) -> ReadWork<'a> {
    match step {
        RootStep::Read(work) => work,
        _ => panic!("not reading"),
    }
}

fn packed(bytes: &[u8]) -> Vec<u8> {
    zstd::stream::encode_all(bytes, 3).unwrap()
}

fn decoded<'a>(step: Step<'a>, outcome: Result<Segment<u32, u64, String>, String>) -> Step<'a> {
    match read(step).answer::<u32, u64, String>(Ok(packed(b"segment"))) {
        RootStep::Decode(work) => {
            assert_eq!(work.bytes, b"segment");
            work.answer(outcome)
        }
        _ => panic!("not decoding"),
    }
}

/// What is kept between proofs.
struct Kept {
    programs: ProgramCache,
    built: Vec<u64>,
    keys: StarkKeyCache,
    keyed: Vec<u64>,
}

fn kept(size: usize) -> Kept {
    Kept {
        programs: ProgramCache::new(size),
        built: vec![],
        keys: StarkKeyCache::new(size),
        keyed: vec![],
    }
}

/// Goes on until a trace, a proof or an end. Says what was done on the way.
fn have_slots<'a>(
    step: Step<'a>,
    kept: &mut Kept,
    elf: Result<Vec<u8>, String>,
    build: Result<(), String>,
) -> (Step<'a>, Vec<&'static str>) {
    let mut step = step;
    let mut done = vec![];
    loop {
        step = match step {
            RootStep::AskProgram(work) => {
                RootStep::LookProgram(work.ask(&mut kept.programs))
            }
            RootStep::LookProgram(work) => {
                let filled = kept.built.contains(&work.slot);
                work.answer(filled)
            }
            RootStep::ReadElf(work) => {
                done.push("read");
                work.answer(elf.clone())
            }
            RootStep::BuildProgram(work) => {
                done.push("build");
                assert_eq!(work.elf, b"elf");
                work.answer(build.clone())
            }
            RootStep::KeepProgram(work) => {
                done.push("keep");
                kept.built.push(work.slot);
                work.answer()
            }
            RootStep::AskKeys(work) => RootStep::LookKeys(work.ask(&mut kept.keys)),
            RootStep::LookKeys(work) => {
                let filled = kept.keyed.contains(&work.slot);
                work.answer(filled)
            }
            RootStep::KeepKeys(work) => {
                done.push("keys");
                kept.keyed.push(work.slot);
                work.answer()
            }
            other => return (other, done),
        };
    }
}

fn good_elf() -> Result<Vec<u8>, String> {
    Ok(b"elf".to_vec())
}

fn state_step(ctx: &ProveContext) -> Step<'_> {
    let at = StateWithPublicValues { state: 5u32, public_values: 6u64 };
    decoded(RootProver {}.prove(ctx), Ok(Segment::State(Box::new(at))))
}

#[test]
fn record_is_proved_as_it_is() {
    let ctx = prove_context();
    let mut kept = kept(5);
    for expected in [vec!["keys"], vec![]] {
        let step = RootProver::default().prove(&ctx);
        let step = decoded(step, Ok(Segment::Record(Box::new("record".to_string()))));
        let (step, done) = have_slots(step, &mut kept, good_elf(), Ok(()));
        assert_eq!(done, expected);
        match step {
            RootStep::Prove { record, public_values, proof } => {
                assert_eq!(record, "record");
                assert_eq!(public_values, None);
                assert_eq!(proof.ctx.program_id, "id");
                assert_eq!(proof.slot, 0);
                match proof.answer::<u32, u64, String>(Ok(vec![1, 2])) {
                    RootStep::Done(proof) => assert_eq!(proof, vec![1, 2]),
                    _ => panic!("not done"),
                }
            }
            _ => panic!("not proving"),
        }
    }
    assert_eq!(kept.programs.made(), 0);
}

#[test]
fn state_is_traced_first() {
    let ctx = prove_context();
    let mut kept = kept(5);
    let (step, done) = have_slots(state_step(&ctx), &mut kept, good_elf(), Ok(()));
    assert_eq!(done, vec!["read", "build", "keep"]);
    let step: Step = match step {
        RootStep::Trace { state, trace } => {
            assert_eq!(state, 5);
            assert_eq!(trace.slot, 0);
            trace.answer(vec!["first".to_string(), "second".to_string()])
        }
        _ => panic!("not tracing"),
    };
    let (step, done) = have_slots(step, &mut kept, good_elf(), Ok(()));
    assert_eq!(done, vec!["keys"]);
    match step {
        RootStep::Prove { record, public_values, proof } => {
            assert_eq!(record, "first");
            assert_eq!(public_values, Some(6));
            match proof.answer::<u32, u64, String>(Err("bad".to_string())) {
                RootStep::Fail(message) => assert_eq!(message, "bad"),
                _ => panic!("not failed"),
            }
        }
        _ => panic!("not proving"),
    }
}

#[test]
fn failed_program_is_not_kept() {
    let ctx = prove_context();
    let mut kept = kept(5);
    let bad_read = Err("no file".to_string());
    let (step, done) = have_slots(state_step(&ctx), &mut kept, bad_read.clone(), Ok(()));
    assert!(matches!(step, RootStep::Fail(message) if message == "no file"));
    assert_eq!(done, vec!["read"]);
    let bad_build = Err("no program".to_string());
    let (step, done) = have_slots(state_step(&ctx), &mut kept, good_elf(), bad_build);
    assert!(matches!(step, RootStep::Fail(message) if message == "no program"));
    assert_eq!(done, vec!["read", "build"]);
    assert!(kept.built.is_empty());
    assert_eq!(kept.programs.made(), 1);
    assert_eq!(kept.keys.made(), 0);
    let (step, done) = have_slots(state_step(&ctx), &mut kept, good_elf(), Ok(()));
    assert!(matches!(step, RootStep::Trace { .. }));
    assert_eq!(done, vec!["read", "build", "keep"]);
    let (step, done) = have_slots(state_step(&ctx), &mut kept, bad_read, Ok(()));
    assert!(matches!(step, RootStep::Trace { .. }));
    assert!(done.is_empty());
}

#[test]
fn program_that_was_let_go_is_made_again() {
    let first = prove_context();
    let mut second = prove_context();
    second.program_id = "other".to_string();
    let mut kept = kept(1);
    for ctx in [&first, &second, &first] {
        let (_, done) = have_slots(state_step(ctx), &mut kept, good_elf(), Ok(()));
        assert_eq!(done, vec!["read", "build", "keep"]);
    }
    assert_eq!(kept.built, vec![0, 1, 2]);
    match have_slots(state_step(&first), &mut kept, good_elf(), Ok(())).0 {
        RootStep::Trace { trace, .. } => assert_eq!(trace.slot, 2),
        _ => panic!("not tracing"),
    }
}

#[test]
fn eleven_failures_are_final() {
    assert_eq!(MAX_RETRIES, 10);
    assert_eq!(RETRY_DELAY, 300);
    let ctx = prove_context();
    let mut step: Step = RootProver {}.prove(&ctx);
    for i in 1..=10 {
        match read(step).answer::<u32, u64, String>(Err(format!("try {i}"))) {
            RootStep::Pause(work) => {
                assert_eq!(work.complaint, format!("try {i}"));
                assert_eq!(work.retries, i);
                step = work.answer();
            }
            _ => panic!("no pause"),
        }
    }
    match read(step).answer::<u32, u64, String>(Err("try 11".to_string())) {
        RootStep::Fail(message) => {
            assert_eq!(message, "Segment read/decode failed after 10 retries: try 11")
        }
        _ => panic!("not failed"),
    }
}

#[test]
fn one_good_attempt_is_enough() {
    let ctx = prove_context();
    let mut step: Step = RootProver {}.prove(&ctx);
    for i in 0..10 {
        let failed: Step = match i % 3 {
            0 => read(step).answer(Err("absent".to_string())),
            1 => read(step).answer(Ok(b"no frame".to_vec())),
            _ => decoded(step, Err("short".to_string())),
        };
        step = match failed {
            RootStep::Pause(work) => {
                match i % 3 {
                    0 => assert_eq!(work.complaint, "absent"),
                    1 => assert!(work.complaint.starts_with("zstd decode failed: ")),
                    _ => assert_eq!(work.complaint, "deserialize failed: short"),
                }
                work.answer()
            }
            _ => panic!("no pause"),
        };
    }
    let step = decoded(step, Ok(Segment::Record(Box::new("record".to_string()))));
    assert!(matches!(step, RootStep::AskKeys(_)));
}

#[test]
fn unpacked_content_is_handed_in() {
    let ctx = prove_context();
    let work = ReadWork { ctx: &ctx, retries: 4 };
    match work.unpack::<u32, u64, String>(Ok(vec![9])) {
        RootStep::Decode(work) => assert_eq!((work.bytes, work.retries), (vec![9], 4)),
        _ => panic!("not decoding"),
    }
    let work = ReadWork { ctx: &ctx, retries: 10 };
    match work.unpack::<u32, u64, String>(Err("bad frame".to_string())) {
        RootStep::Fail(message) => assert_eq!(
            message,
            "Segment read/decode failed after 10 retries: zstd decode failed: bad frame"
        ),
        _ => panic!("not failed"),
    }
}

fn node_context(receipts: &str, target_step: NodeTarget) -> SingleNodeContext {
    SingleNodeContext {
        program_id: "id".to_string(),
        elf_path: "/data/elf/id".to_string(),
        private_input_path: "/data/proof/p1/input".to_string(),
        receipt_inputs_path: receipts.to_string(),
        base_dir: "/data/proof/p1".to_string(),
        seg_size: 2048,
        target_step,
    }
}

/// Where a proof ends if the thing with this number does not go well, and what was
/// written.
fn drive(ctx: &SingleNodeContext, failing: Option<usize>) -> (NodeEnd, Vec<(String, Vec<u8>)>) {
    drive_with(ctx, failing, &mut kept(5))
}

fn drive_with(
    ctx: &SingleNodeContext,
    failing: Option<usize>,
    kept: &mut Kept,
) -> (NodeEnd, Vec<(String, Vec<u8>)>) {
    let prover = SingleNodeProver::new("/keys");
    let mut step = prover.prove(ctx);
    let mut written: Vec<(String, Vec<u8>)> = vec![];
    let mut asked = 0;
    let mut form = None;
    loop {
        let fails = failing == Some(asked);
        let message = format!("failure {asked}");
        match &step {
            NodeStep::AskProgram(_) | NodeStep::LookProgram(_) | NodeStep::KeepProgram(_) => (),
            NodeStep::AskKeys(_) | NodeStep::LookKeys(_) | NodeStep::KeepKeys(_) => (),
            _ => asked += 1,
        }
        step = match step {
            NodeStep::ReadElf(work) => {
                assert_eq!(work.job.proving_key_paths, "/keys");
                work.answer(if fails { Err(message) } else { Ok(b"elf".to_vec()) })
            }
            NodeStep::ReadInput(work) => {
                assert_eq!(work.elf, b"elf");
                work.answer(if fails { Err(message) } else { Ok(inputs()) })
            }
            NodeStep::ReadReceipts(work) => {
                work.answer(if fails { Err(message) } else { Ok(receipts()) })
            }
            NodeStep::Feed(work) => {
                assert_eq!(work.inputs, vec![vec![1], vec![2, 3]]);
                if ctx.receipt_inputs_path.is_empty() {
                    assert!(work.receipts.is_empty());
                } else {
                    assert_eq!(work.receipts, vec![vec![4]]);
                }
                work.answer(if fails { Err(message) } else { Ok(()) })
            }
            NodeStep::AskProgram(work) => {
                NodeStep::LookProgram(work.ask(&mut kept.programs))
            }
            NodeStep::LookProgram(work) => {
                let filled = kept.built.contains(&work.slot);
                work.answer(filled)
            }
            NodeStep::BuildProgram(work) => {
                assert_eq!(work.elf, b"elf");
                work.answer(if fails { Err(message) } else { Ok(()) })
            }
            NodeStep::KeepProgram(work) => {
                kept.built.push(work.slot);
                work.answer()
            }
            NodeStep::AskKeys(work) => NodeStep::LookKeys(work.ask(&mut kept.keys)),
            NodeStep::LookKeys(work) => {
                let filled = kept.keyed.contains(&work.slot);
                work.answer(filled)
            }
            NodeStep::KeepKeys(work) => {
                assert!(kept.built.contains(&work.program));
                kept.keyed.push(work.slot);
                work.answer()
            }
            NodeStep::EncodeKey(work) => {
                assert!(kept.built.contains(&work.slots.program));
                assert!(kept.keyed.contains(&work.slots.keys));
                work.answer(if fails { Err(message) } else { Ok(b"vk".to_vec()) })
            }
            NodeStep::StoreKey(work) => {
                written.push((work.path.clone(), work.content.clone()));
                work.answer(if fails { Err(message) } else { Ok(()) })
            }
            NodeStep::ProveCore(work) => {
                assert!(kept.built.contains(&work.slots.program));
                assert!(kept.keyed.contains(&work.slots.keys));
                work.answer(if fails { Err(message) } else { Ok((77, b"values".to_vec())) })
            }
            NodeStep::Compress(work) => work.answer(if fails { Err(message) } else { Ok(()) }),
            NodeStep::Form(work) => {
                form = Some(work.form);
                work.answer(if fails { Err(message) } else { Ok(()) })
            }
            NodeStep::StoreValues(work) => {
                written.push((work.path.clone(), work.content.clone()));
                work.answer(if fails { Err(message) } else { Ok(()) })
            }
            NodeStep::Encode(work) => {
                work.answer(if fails { Err(message) } else { Ok(b"json".to_vec()) })
            }
            NodeStep::Done(cycles, proof) => {
                return (NodeEnd::Done(cycles, proof, form.unwrap()), written)
            }
            NodeStep::Fail(message) => return (NodeEnd::Fail(message), written),
        };
    }
}

#[derive(Debug, PartialEq)]
enum NodeEnd {
    Done(u64, Vec<u8>, ProofForm),
    Fail(String),
}

fn inputs() -> Vec<u8> {
    encode_chunks(&vec![vec![1], vec![2, 3]])
}

fn receipts() -> Vec<u8> {
    encode_chunks(&vec![vec![4]])
}

#[test]
fn whole_proof_on_one_node() {
    let ctx = node_context("", NodeTarget::InAgg);
    let (end, written) = drive(&ctx, None);
    assert_eq!(end, NodeEnd::Done(77, b"json".to_vec(), ProofForm::Compressed));
    assert_eq!(
        written,
        vec![
            ("/data/proof/p1/vk.bin".to_string(), b"vk".to_vec()),
            ("/data/proof/p1/wrap/public_values.bin".to_string(), b"values".to_vec()),
        ]
    );
}

#[test]
fn snark_on_one_node_with_receipts() {
    let ctx = node_context("/data/proof/p1/receipts", NodeTarget::InSnark);
    let (end, written) = drive(&ctx, None);
    assert_eq!(end, NodeEnd::Done(77, b"json".to_vec(), ProofForm::Groth16));
    assert_eq!(written.len(), 2);
}

#[test]
fn first_failure_ends_a_proof() {
    let ctx = node_context("/data/proof/p1/receipts", NodeTarget::InSnark);
    for failing in 0..12 {
        let (end, _) = drive(&ctx, Some(failing));
        assert_eq!(end, NodeEnd::Fail(format!("failure {failing}")));
    }
    let without = node_context("", NodeTarget::InSnark);
    for failing in 0..11 {
        let (end, _) = drive(&without, Some(failing));
        assert_eq!(end, NodeEnd::Fail(format!("failure {failing}")));
    }
}

#[test]
fn inputs_that_are_no_list() {
    let ctx = node_context("", NodeTarget::InAgg);
    let prover = SingleNodeProver::default();
    let step = match prover.prove(&ctx) {
        NodeStep::ReadElf(work) => {
            assert_eq!(work.job.proving_key_paths, "");
            work.answer(Ok(vec![]))
        }
        _ => panic!("not reading"),
    };
    match step {
        NodeStep::ReadInput(work) => match work.answer(Ok(vec![1, 2])) {
            NodeStep::Fail(message) => assert!(!message.is_empty()),
            _ => panic!("not failed"),
        },
        _ => panic!("not reading"),
    }
}

#[test]
fn receipts_that_are_no_list() {
    let ctx = node_context("/receipts", NodeTarget::InAgg);
    let prover = SingleNodeProver::new("");
    let step = match prover.prove(&ctx) {
        NodeStep::ReadElf(work) => work.answer(Ok(vec![])),
        _ => panic!("not reading"),
    };
    let step = match step {
        NodeStep::ReadInput(work) => work.answer(Ok(inputs())),
        _ => panic!("not reading"),
    };
    match step {
        NodeStep::ReadReceipts(work) => {
            assert!(matches!(work.answer(Ok(vec![9])), NodeStep::Fail(_)))
        }
        _ => panic!("not reading"),
    }
}

#[test]
fn failed_compression_of_an_unsupported_target() {
    let ctx = node_context("", NodeTarget::Other(99));
    let (end, _) = drive(&ctx, Some(7));
    assert_eq!(end, NodeEnd::Fail("failure 7".to_string()));
}

#[test]
fn what_a_proof_keeps() {
    let ctx = node_context("", NodeTarget::InAgg);
    let mut kept = kept(5);
    drive_with(&ctx, Some(1), &mut kept);
    assert_eq!((kept.programs.made(), kept.keys.made()), (0, 0));
    let (end, written) = drive_with(&ctx, Some(3), &mut kept);
    assert_eq!(end, NodeEnd::Fail("failure 3".to_string()));
    assert!(written.is_empty());
    assert!(kept.built.is_empty());
    assert_eq!((kept.programs.made(), kept.keys.made()), (1, 0));
    let (end, _) = drive_with(&ctx, Some(4), &mut kept);
    assert_eq!(end, NodeEnd::Fail("failure 4".to_string()));
    assert_eq!((kept.built.len(), kept.keyed.len()), (1, 1));
    let (end, _) = drive_with(&ctx, None, &mut kept);
    assert_eq!(end, NodeEnd::Done(77, b"json".to_vec(), ProofForm::Compressed));
    assert_eq!((kept.programs.made(), kept.keys.made()), (1, 1));
    assert_eq!((kept.built.len(), kept.keyed.len()), (1, 1));
}

#[test]
fn proof_uses_its_slots() {
    let mut kept = kept(5);
    let mut other = node_context("", NodeTarget::InAgg);
    other.program_id = "other".to_string();
    drive_with(&other, None, &mut kept);
    drive_with(&other, None, &mut kept);
    let ctx = node_context("", NodeTarget::InAgg);
    let prover = SingleNodeProver::new("/keys");
    let mut step = prover.prove(&ctx);
    loop {
        step = match step {
            NodeStep::ReadElf(work) => work.answer(Ok(b"elf".to_vec())),
            NodeStep::ReadInput(work) => work.answer(Ok(inputs())),
            NodeStep::Feed(work) => work.answer(Ok(())),
            NodeStep::AskProgram(work) => NodeStep::LookProgram(work.ask(&mut kept.programs)),
            NodeStep::LookProgram(work) => work.answer(false),
            NodeStep::BuildProgram(work) => work.answer(Ok(())),
            NodeStep::KeepProgram(work) => work.answer(),
            NodeStep::AskKeys(work) => NodeStep::LookKeys(work.ask(&mut kept.keys)),
            NodeStep::LookKeys(work) => work.answer(false),
            NodeStep::KeepKeys(work) => work.answer(),
            NodeStep::EncodeKey(work) => work.answer(Ok(b"vk".to_vec())),
            NodeStep::StoreKey(work) => work.answer(Ok(())),
            NodeStep::ProveCore(work) => {
                assert_eq!((work.slots.program, work.slots.keys), (1, 1));
                work.answer(Ok((1, vec![])))
            }
            NodeStep::Compress(work) => {
                assert_eq!((work.slots.program, work.slots.keys), (1, 1));
                return;
            }
            _ => panic!("unexpected"),
        };
    }
}
