use proof_service::layout::{
    block_dir_path, elf_dir_path, proof_dir_path, public_values_path, public_values_url,
    snark_proof_url, stark_proof_url,
};
use proof_service::protocol::{Build, ProverVersion};
use proof_service::text::{cat, decimal_text, join_path, strip_0x};

#[test]
fn texts_are_joined() {
    assert_eq!(cat("a", "b"), "ab");
    assert_eq!(join_path("/base", "elf"), "/base/elf");
    assert_eq!(join_path("", ""), "/");
}

#[test]
fn one_prefix_is_stripped() {
    assert_eq!(strip_0x("0xabc"), "abc");
    assert_eq!(strip_0x("0x0xabc"), "0xabc");
    assert_eq!(strip_0x("0Xabc"), "0Xabc");
    assert_eq!(strip_0x("abc"), "abc");
    assert_eq!(strip_0x("0x"), "");
    assert_eq!(strip_0x("0"), "0");
    assert_eq!(strip_0x(""), "");
}

#[test]
fn decimal_numbers() {
    assert_eq!(decimal_text(0), "0");
    assert_eq!(decimal_text(9), "9");
    assert_eq!(decimal_text(10), "10");
    assert_eq!(decimal_text(1234567890), "1234567890");
    assert_eq!(decimal_text(u64::MAX), "18446744073709551615");
}

#[test]
fn decimal_round_trip() {
    for n in [0u64, 1, 7, 10, 99, 100, 65536, 1 << 40, u64::MAX] {
        assert_eq!(decimal_text(n).parse::<u64>(), Ok(n));
    }
}

#[test]
fn places_on_disk() {
    assert_eq!(elf_dir_path("/data"), "/data/elf");
    assert_eq!(proof_dir_path("/data", "p1"), "/data/proof/p1");
    assert_eq!(block_dir_path("/data/proof/p1", 42), "/data/proof/p1/0_42");
    assert_eq!(
        public_values_path("/data/proof/p1/wrap", Build::Prover),
        "/data/proof/p1/wrap/public_values.json"
    );
    assert_eq!(
        public_values_path("/data/proof/p1/wrap", Build::ProverV2),
        "/data/proof/p1/wrap/public_values.bin"
    );
}

#[test]
fn addresses_on_the_file_server() {
    let url = "http://files";
    assert_eq!(
        snark_proof_url(url, "p1"),
        "http://files/p1/snark/proof_with_public_inputs.json"
    );
    assert_eq!(
        stark_proof_url(url, "p1"),
        "http://files/p1/wrap/proof_with_public_inputs.json"
    );
    assert_eq!(
        public_values_url(url, "p1", Build::Both),
        "http://files/p1/wrap/public_values.bin"
    );
}

#[test]
fn generations_of_a_build() {
    assert!(Build::Prover.has_prover());
    assert!(Build::Both.has_prover());
    assert!(!Build::ProverV2.has_prover());
    assert!(!Build::Neither.has_prover());
    assert!(Build::ProverV2.can_prove());
    assert!(Build::Both.can_prove());
    assert!(!Build::Neither.can_prove());
    assert_eq!(Build::Prover.suffix(), "json");
    assert_eq!(Build::ProverV2.suffix(), "bin");
    assert_eq!(Build::Both.suffix(), "bin");
    assert_eq!(Build::Prover.prover_version(), ProverVersion::Zkm);
    assert_eq!(Build::Both.prover_version(), ProverVersion::Zkm);
    assert_eq!(Build::ProverV2.prover_version(), ProverVersion::Zkm2);
}
