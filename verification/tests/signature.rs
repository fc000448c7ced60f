use ethers::signers::LocalWallet;
use ethers::utils::hash_message;
use proof_service::protocol::{Build, GenerateProofRequest, RuntimeConfig};
use proof_service::service::StageServiceSVC;
use proof_service::signature::{recover_text, signed_text, signer_text, SignatureFault};

const SIGNATURE: &str = "b91467e570a6466aa9e9876cbcd013baba02900b8979d43fe208a4a4f339f5fd6007e74cd82e037b800186422fc2da167c747ef045e5d18a5f5d4300f8e1a0291c";
const SIGNER: &str = "0x2c7536e3605d9c16a7a3d7b1898e529396a65c23";

fn service() -> StageServiceSVC {
    let config = RuntimeConfig {
        base_dir: "/data".to_string(),
        database_url: "mysql://db".to_string(),
        fileserver_url: None,
        prover_addrs: vec![],
        max_concurrent_tasks: None,
        ca_cert_path: None,
        cert_path: None,
        key_path: None,
    };
    StageServiceSVC { config, build: Build::Prover }
}

fn signed_request(proof_id: &str, block_no: Option<u64>, seg_size: u32) -> GenerateProofRequest {
    let wallet: LocalWallet =
        "0000000000000000000000000000000000000000000000000000000000000001".parse().unwrap();
    let message = signed_text(proof_id, block_no, seg_size);
    let signature = wallet.sign_hash(hash_message(message)).unwrap();
    GenerateProofRequest {
        proof_id: proof_id.to_string(),
        elf_data: vec![],
        elf_id: None,
        block_no,
        block_data: vec![],
        seg_size,
        signature: format!("{signature}"),
        public_input_stream: vec![],
        private_input_stream: vec![],
        from_step: None,
        target_step: None,
        composite_proof: false,
        single_node: false,
        max_prover_num: 0,
        receipt_inputs: vec![],
        receipts: vec![],
    }
}

#[test]
fn text_that_is_signed() {
    assert_eq!(signed_text("p1", Some(7), 65536), "p1&7&65536");
    assert_eq!(signed_text("p1", None, 65536), "p1&65536");
    assert_eq!(signed_text("", Some(0), 0), "&0&0");
}

#[test]
fn known_signer_is_recovered() {
    assert_eq!(recover_text(SIGNATURE, "Some data"), Ok(SIGNER.to_string()));
    let with_prefix = format!("0x{SIGNATURE}");
    assert_eq!(recover_text(&with_prefix, "Some data"), Ok(SIGNER.to_string()));
    let upper = format!("0X{}", SIGNATURE.to_uppercase());
    assert_eq!(recover_text(&upper, "Some data"), Ok(SIGNER.to_string()));
}

#[test]
fn other_message_has_another_signer() {
    assert_ne!(recover_text(SIGNATURE, "Other data"), Ok(SIGNER.to_string()));
}

#[test]
fn malformed_signatures() {
    let fault = Err(SignatureFault::Malformed);
    assert_eq!(recover_text("", "m"), fault);
    assert_eq!(recover_text("0x", "m"), fault);
    assert_eq!(recover_text(&SIGNATURE[..128], "m"), fault);
    assert_eq!(recover_text(&SIGNATURE[..129], "m"), fault);
    assert_eq!(recover_text(&format!("{SIGNATURE}00"), "m"), fault);
    assert_eq!(recover_text(&format!("0x0x{}", &SIGNATURE[4..]), "m"), fault);
    assert_eq!(recover_text(&format!("zz{}", &SIGNATURE[2..]), "m"), fault);
}

#[test]
fn signature_of_nobody() {
    let zeros = "00".repeat(65);
    assert_eq!(recover_text(&zeros, "m"), Err(SignatureFault::Unrecoverable));
}

#[test]
fn what_recovery_gave_as_text() {
    let address: Vec<u8> = (0u8..20).collect();
    assert_eq!(
        signer_text(&Some(address)),
        Ok("0x000102030405060708090a0b0c0d0e0f10111213".to_string())
    );
    assert_eq!(signer_text(&None), Err(SignatureFault::Unrecoverable));
}

#[test]
fn request_is_verified() {
    let signer = Ok("0x7e5f4552091a69125d5dfcb7b8c2659029395bdf".to_string());
    assert_eq!(service().verify_signature(&signed_request("p1", None, 65536)), signer);
    assert_eq!(service().verify_signature(&signed_request("p1", Some(9), 65536)), signer);
}

#[test]
fn signature_binds_block_and_size() {
    let signer = Ok("0x7e5f4552091a69125d5dfcb7b8c2659029395bdf".to_string());
    let mut request = signed_request("p1", Some(9), 65536);
    request.block_no = Some(10);
    assert_ne!(service().verify_signature(&request), signer);
    request.block_no = None;
    assert_ne!(service().verify_signature(&request), signer);
    request.block_no = Some(9);
    request.seg_size = 1;
    assert_ne!(service().verify_signature(&request), signer);
    request.seg_size = 65536;
    assert_eq!(service().verify_signature(&request), signer);
    request.signature = "nothing".to_string();
    assert_eq!(service().verify_signature(&request), Err(SignatureFault::Malformed));
}
