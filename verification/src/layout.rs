//! Where things are: the directories of a proof on disk and its addresses on the
//! file server.
use crate::protocol::Build;
use crate::text::{cat, decimal, decimal_text, join_path, joined};
use vstd::prelude::*;

verus! {

/// The directory of the ELF files.
pub open spec fn elf_dir(base: Seq<char>) -> Seq<char> {
    joined(base, "elf"@)
}

/// The directory of one proof.
pub open spec fn proof_dir(base: Seq<char>, proof_id: Seq<char>) -> Seq<char> {
    joined(joined(base, "proof"@), proof_id)
}

/// The directory of the block that a proof is about.
pub open spec fn block_dir(dir: Seq<char>, block_no: u64) -> Seq<char> {
    joined(dir, "0_"@ + decimal(block_no as nat))
}

/// The file of the public values in the directory `wrap_dir`.
pub open spec fn public_values_file(wrap_dir: Seq<char>, build: Build) -> Seq<char> {
    joined(wrap_dir, "public_values."@ + build.ending())
}

/// The address of the SNARK proof.
pub open spec fn snark_proof_address(url: Seq<char>, proof_id: Seq<char>) -> Seq<char> {
    joined(joined(joined(url, proof_id), "snark"@), "proof_with_public_inputs.json"@)
}

/// The address of the STARK proof.
pub open spec fn stark_proof_address(url: Seq<char>, proof_id: Seq<char>) -> Seq<char> {
    joined(joined(joined(url, proof_id), "wrap"@), "proof_with_public_inputs.json"@)
}

/// The address of the public values.
pub open spec fn public_values_address(
    url: Seq<char>,
    proof_id: Seq<char>,
    build: Build,
) -> Seq<char> {
    public_values_file(joined(joined(url, proof_id), "wrap"@), build)
}

/// The directory of the ELF files.
pub fn elf_dir_path(base: &str) -> (r: String)
    ensures
        r@ == elf_dir(base@),
{
    join_path(base, "elf")
}

/// The directory of one proof.
pub fn proof_dir_path(base: &str, proof_id: &str) -> (r: String)
    ensures
        r@ == proof_dir(base@, proof_id@),
{
    join_path(join_path(base, "proof").as_str(), proof_id)
}

/// The directory of the block that a proof is about.
pub fn block_dir_path(dir: &str, block_no: u64) -> (r: String)
    ensures
        r@ == block_dir(dir@, block_no),
{
    join_path(dir, cat("0_", decimal_text(block_no).as_str()).as_str())
}

/// The file of the public values in the directory `wrap_dir`.
pub fn public_values_path(wrap_dir: &str, build: Build) -> (r: String)
    requires
        build.any(),
    ensures
        r@ == public_values_file(wrap_dir@, build),
{
    join_path(wrap_dir, cat("public_values.", build.suffix()).as_str())
}

/// The address of the SNARK proof.
pub fn snark_proof_url(url: &str, proof_id: &str) -> (r: String)
    ensures
        r@ == snark_proof_address(url@, proof_id@),
{
    join_path(
        join_path(join_path(url, proof_id).as_str(), "snark").as_str(),
        "proof_with_public_inputs.json",
    )
}

/// The address of the STARK proof.
pub fn stark_proof_url(url: &str, proof_id: &str) -> (r: String)
    ensures
        r@ == stark_proof_address(url@, proof_id@),
{
    join_path(
        join_path(join_path(url, proof_id).as_str(), "wrap").as_str(),
        "proof_with_public_inputs.json",
    )
}

/// The address of the public values.
pub fn public_values_url(url: &str, proof_id: &str, build: Build) -> (r: String)
    requires
        build.any(),
    ensures
        r@ == public_values_address(url@, proof_id@, build),
{
    public_values_path(join_path(join_path(url, proof_id).as_str(), "wrap").as_str(), build)
}

/// Is `path` inside the directory `base`, by its text?
pub open spec fn under(base: Seq<char>, path: Seq<char>) -> bool {
    (base + "/"@).is_prefix_of(path)
}

/// What is joined to a directory is inside it.
pub proof fn lemma_joined_under(base: Seq<char>, name: Seq<char>)
    ensures
        under(base, joined(base, name)),
{
    let p = joined(base, name);
    let b = base + "/"@;
    assert(b =~= p.subrange(0, b.len() as int));
}

/// What is joined to a path inside a directory is inside that directory.
pub proof fn lemma_joined_stays_under(base: Seq<char>, path: Seq<char>, name: Seq<char>)
    requires
        under(base, path),
    ensures
        under(base, joined(path, name)),
{
    let p = joined(path, name);
    let b = base + "/"@;
    assert(b =~= path.subrange(0, b.len() as int));
    assert(b =~= p.subrange(0, b.len() as int));
}

/// Where the files of programs and proofs are, written out.
pub proof fn law_places_on_disk(
    base: Seq<char>,
    proof_id: Seq<char>,
    dir: Seq<char>,
    block_no: u64,
    build: Build,
)
    ensures
        elf_dir(base) == base + "/elf"@,
        proof_dir(base, proof_id) == base + "/proof/"@ + proof_id,
        block_dir(dir, block_no) == dir + "/0_"@ + decimal(block_no as nat),
        build == Build::Prover ==> public_values_file(dir, build) == dir + "/public_values.json"@,
        build == Build::ProverV2 || build == Build::Both ==> public_values_file(dir, build) == dir
            + "/public_values.bin"@,
{
    lemma_literals();
    reveal_strlit("elf");
    reveal_strlit("/elf");
    reveal_strlit("proof");
    reveal_strlit("/proof/");
    reveal_strlit("0_");
    reveal_strlit("/0_");
    reveal_strlit("/public_values.json");
    reveal_strlit("/public_values.bin");
    assert(elf_dir(base) =~= base + "/elf"@);
    assert(proof_dir(base, proof_id) =~= base + "/proof/"@ + proof_id);
    assert(block_dir(dir, block_no) =~= dir + "/0_"@ + decimal(block_no as nat));
    if build == Build::Prover {
        assert(public_values_file(dir, build) =~= dir + "/public_values.json"@);
    } else {
        assert(public_values_file(dir, build) =~= dir + "/public_values.bin"@);
    }
}

proof fn lemma_literals()
    ensures
        "/"@ == seq!['/'],
        "public_values."@.len() == 14,
        "json"@ == seq!['j', 's', 'o', 'n'],
        "bin"@ == seq!['b', 'i', 'n'],
        "public_values."@ == seq![
            'p',
            'u',
            'b',
            'l',
            'i',
            'c',
            '_',
            'v',
            'a',
            'l',
            'u',
            'e',
            's',
            '.',
        ],
{
    reveal_strlit("/");
    reveal_strlit("public_values.");
    reveal_strlit("json");
    reveal_strlit("bin");
    assert("/"@ =~= seq!['/']);
    assert("json"@ =~= seq!['j', 's', 'o', 'n']);
    assert("bin"@ =~= seq!['b', 'i', 'n']);
    assert("public_values."@ =~= seq![
        'p',
        'u',
        'b',
        'l',
        'i',
        'c',
        '_',
        'v',
        'a',
        'l',
        'u',
        'e',
        's',
        '.',
    ]);
}

/// Where the results of a proof are on the file server, written out.
pub proof fn law_addresses_of_results(url: Seq<char>, proof_id: Seq<char>, build: Build)
    ensures
        snark_proof_address(url, proof_id) == url + "/"@ + proof_id
            + "/snark/proof_with_public_inputs.json"@,
        stark_proof_address(url, proof_id) == url + "/"@ + proof_id
            + "/wrap/proof_with_public_inputs.json"@,
        build == Build::Prover ==> public_values_address(url, proof_id, build) == url + "/"@
            + proof_id + "/wrap/public_values.json"@,
        build == Build::ProverV2 || build == Build::Both ==> public_values_address(
            url,
            proof_id,
            build,
        ) == url + "/"@ + proof_id + "/wrap/public_values.bin"@,
{
    lemma_literals();
    reveal_strlit("snark");
    reveal_strlit("wrap");
    reveal_strlit("proof_with_public_inputs.json");
    reveal_strlit("/snark/proof_with_public_inputs.json");
    reveal_strlit("/wrap/proof_with_public_inputs.json");
    reveal_strlit("/wrap/public_values.json");
    reveal_strlit("/wrap/public_values.bin");
    assert(snark_proof_address(url, proof_id) =~= url + "/"@ + proof_id
        + "/snark/proof_with_public_inputs.json"@);
    assert(stark_proof_address(url, proof_id) =~= url + "/"@ + proof_id
        + "/wrap/proof_with_public_inputs.json"@);
    if build == Build::Prover {
        assert(public_values_address(url, proof_id, build) =~= url + "/"@ + proof_id
            + "/wrap/public_values.json"@);
    } else if build == Build::ProverV2 || build == Build::Both {
        assert(public_values_address(url, proof_id, build) =~= url + "/"@ + proof_id
            + "/wrap/public_values.bin"@);
    }
}

} // verus!
