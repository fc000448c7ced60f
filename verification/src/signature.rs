//! Who signed a request: the text that is signed, the signature as it arrives,
//! and the address that it recovers to.
use crate::text::{
    all_digits, cat, decimal, decimal_text, hex_bytes, hex_value, is_digit,
    law_decimal_round_trip, law_hex_is_lower_case, law_hex_round_trip, lemma_decimal, lower_hex,
    parsed,
};
use vstd::prelude::*;

verus! {

/// The errors of `ethers` about a signature.
#[verifier::external_type_specification]
#[verifier::external_body]
pub struct ExSignatureError(ethers::types::SignatureError);

/// A signature taken apart: the two 32-byte numbers, the highest byte first,
/// and the recovery value.
pub struct SignatureParts {
    pub r: Vec<u8>,
    pub s: Vec<u8>,
    pub v: u64,
}

/// What a signature holds.
pub struct SignatureView {
    pub r: Seq<u8>,
    pub s: Seq<u8>,
    pub v: u64,
}

impl View for SignatureParts {
    type V = SignatureView;

    open spec fn view(&self) -> SignatureView {
        SignatureView { r: self.r@, s: self.s@, v: self.v }
    }
}

/// Why no signer could be told.
#[derive(Clone, Copy, PartialEq, Eq, Structural, Debug)]
pub enum SignatureFault {
    /// The text is not a signature.
    Malformed,
    /// No address signed that message with that signature.
    Unrecoverable,
}

/// The hexadecimal digits of a signature text: what follows a leading `0x` or
/// `0X`, or all of it.
pub open spec fn signature_digits(text: Seq<char>) -> Seq<char> {
    if text.len() >= 2 && text[0] == '0' && (text[1] == 'x' || text[1] == 'X') {
        text.skip(2)
    } else {
        text
    }
}

/// The signature that `text` holds: 65 bytes in hexadecimal, 32 of the first
/// number, 32 of the second and one recovery value.
pub open spec fn signature_in(text: Seq<char>) -> Option<SignatureView> {
    match hex_bytes(signature_digits(text)) {
        Some(bytes) => if bytes.len() == 65 {
            Some(
                SignatureView {
                    r: bytes.subrange(0, 32),
                    s: bytes.subrange(32, 64),
                    v: bytes[64] as u64,
                },
            )
        } else {
            None
        },
        None => None,
    }
}

/// The twenty bytes of the address whose key made the signature `r`, `s`, `v`
/// on `message`, as Ethereum signs text.
pub uninterp spec fn recovered_signer(
    r: Seq<u8>,
    s: Seq<u8>,
    v: u64,
    message: Seq<char>,
) -> Option<Seq<u8>>;

/// Reads a signature with `Signature::from_str` of `ethers`.
///
/// Claimed of it: it takes 65 bytes in hexadecimal of either case, with or
/// without `0x` or `0X` in front, and fails on everything else.
#[verifier::external_body]
pub(crate) fn parse_signature(text: &str) -> (r: Result<
    SignatureParts,
    ethers::types::SignatureError,
>)
    ensures
        match r {
            Ok(parts) => signature_in(text@) == Some(parts@),
            Err(_) => signature_in(text@) is None,
        },
{
    let signature = text.parse::<ethers::types::Signature>()?;
    let mut r = [0u8; 32];
    let mut s = [0u8; 32];
    signature.r.to_big_endian(&mut r);
    signature.s.to_big_endian(&mut s);
    Ok(SignatureParts { r: r.to_vec(), s: s.to_vec(), v: signature.v })
}

/// Recovers the signer with `Signature::recover` of `ethers`.
///
/// Claimed of it: whether an address comes out, and which, depends on the
/// signature and the message alone, and an address has twenty bytes.
#[verifier::external_body]
pub(crate) fn recover_signer(parts: &SignatureParts, message: &str) -> (r: Result<
    Vec<u8>,
    ethers::types::SignatureError,
>)
    requires
        parts.r@.len() == 32,
        parts.s@.len() == 32,
    ensures
        match r {
            Ok(address) => {
                &&& recovered_signer(parts.r@, parts.s@, parts.v, message@) == Some(address@)
                &&& address@.len() == 20
            },
            Err(_) => recovered_signer(parts.r@, parts.s@, parts.v, message@) is None,
        },
{
    let r = ethers::types::U256::from_big_endian(&parts.r);
    let s = ethers::types::U256::from_big_endian(&parts.s);
    let signature = ethers::types::Signature { r, s, v: parts.v };
    signature.recover(message).map(|address| address.as_bytes().to_vec())
}

/// An address as text, with the `Debug` format of `Address` of `ethers`.
///
/// Claimed of it: `0x` and then all twenty bytes in lower-case hexadecimal.
#[verifier::external_body]
pub(crate) fn address_text(address: &Vec<u8>) -> (r: String)
    requires
        address@.len() == 20,
    ensures
        r@ == address_chars(address@),
{
    format!("{:?}", ethers::types::Address::from_slice(address))
}

/// The text of an address.
pub open spec fn address_chars(address: Seq<u8>) -> Seq<char> {
    "0x"@ + lower_hex(address)
}

/// The text that a request's signature is made on: the proof, the block where
/// there is one, and the segment size, with `&` between.
pub open spec fn signed_chars(
    proof_id: Seq<char>,
    block_no: Option<u64>,
    seg_size: u32,
) -> Seq<char> {
    match block_no {
        Some(block_no) => proof_id + "&"@ + decimal(block_no as nat) + "&"@ + decimal(
            seg_size as nat,
        ),
        None => proof_id + "&"@ + decimal(seg_size as nat),
    }
}

/// The text that a request's signature is made on.
pub fn signed_text(proof_id: &str, block_no: Option<u64>, seg_size: u32) -> (r: String)
    ensures
        r@ == signed_chars(proof_id@, block_no, seg_size),
{
    let mut out: String = cat(proof_id, "&");
    if let Some(block_no) = block_no {
        out.append(decimal_text(block_no).as_str());
        out.append("&");
    }
    out.append(decimal_text(seg_size as u64).as_str());
    out
}

/// The address that signed `message` with the signature in `text`, as text; or
/// why there is none.
pub open spec fn signer_of(text: Seq<char>, message: Seq<char>) -> Result<
    Seq<char>,
    SignatureFault,
> {
    match signature_in(text) {
        Some(parts) => recovered_text(recovered_signer(parts.r, parts.s, parts.v, message)),
        None => Err(SignatureFault::Malformed),
    }
}

/// A recovered address as text; a fault where none was recovered.
pub open spec fn recovered_text(recovered: Option<Seq<u8>>) -> Result<Seq<char>, SignatureFault> {
    match recovered {
        Some(address) => Ok(address_chars(address)),
        None => Err(SignatureFault::Unrecoverable),
    }
}

/// The text of what recovery gave: the address, or that there is none.
pub fn signer_text(recovered: &Option<Vec<u8>>) -> (r: Result<String, SignatureFault>)
    requires
        recovered is Some ==> recovered->0@.len() == 20,
    ensures
        match (*recovered, r) {
            (Some(address), Ok(text)) => text@ == address_chars(address@),
            (None, Err(fault)) => fault == SignatureFault::Unrecoverable,
            _ => false,
        },
{
    match recovered {
        Some(address) => Ok(address_text(address)),
        None => Err(SignatureFault::Unrecoverable),
    }
}

/// The address that signed `message` with the signature in `text`.
pub fn recover_text(text: &str, message: &str) -> (r: Result<String, SignatureFault>)
    ensures
        match r {
            Ok(address) => signer_of(text@, message@) == Ok::<Seq<char>, SignatureFault>(
                address@,
            ),
            Err(fault) => signer_of(text@, message@) == Err::<Seq<char>, SignatureFault>(fault),
        },
{
    match parse_signature(text) {
        Ok(parts) => {
            let recovered: Option<Vec<u8>> = match recover_signer(&parts, message) {
                Ok(address) => Some(address),
                Err(_) => None,
            };
            signer_text(&recovered)
        },
        Err(_) => Err(SignatureFault::Malformed),
    }
}

/// Digits before the first `&` and digits after it can be told apart.
proof fn lemma_split_at_ampersand(a: Seq<char>, b: Seq<char>, c: Seq<char>, d: Seq<char>)
    requires
        all_digits(a),
        all_digits(c),
        a + seq!['&'] + b == c + seq!['&'] + d,
    ensures
        a == c,
        b == d,
{
    let left = a + seq!['&'] + b;
    let right = c + seq!['&'] + d;
    assert(left[a.len() as int] == '&');
    assert(right[c.len() as int] == '&');
    if a.len() < c.len() {
        assert(right[a.len() as int] == c[a.len() as int]);
        assert(is_digit(c[a.len() as int]));
        assert(false);
    }
    if c.len() < a.len() {
        assert(left[c.len() as int] == a[c.len() as int]);
        assert(is_digit(a[c.len() as int]));
        assert(false);
    }
    assert forall|i: int| 0 <= i < a.len() implies a[i] == c[i] by {
        assert(left[i] == a[i]);
        assert(right[i] == c[i]);
    }
    assert(a =~= c);
    assert(b =~= left.skip(a.len() as int + 1));
    assert(d =~= right.skip(a.len() as int + 1));
}

/// A signature binds what it was made on: for one proof, two different choices
/// of block and segment size have different texts to sign.
pub proof fn law_signed_text_binds(
    proof_id: Seq<char>,
    block_a: Option<u64>,
    seg_a: u32,
    block_b: Option<u64>,
    seg_b: u32,
)
    requires
        signed_chars(proof_id, block_a, seg_a) == signed_chars(proof_id, block_b, seg_b),
    ensures
        block_a == block_b,
        seg_a == seg_b,
{
    reveal_strlit("&");
    let start = proof_id + "&"@;
    let amp = seq!['&'];
    assert("&"@ =~= amp);
    lemma_decimal(seg_a as nat);
    lemma_decimal(seg_b as nat);
    let sa = decimal(seg_a as nat);
    let sb = decimal(seg_b as nat);
    let whole_a = signed_chars(proof_id, block_a, seg_a);
    let whole_b = signed_chars(proof_id, block_b, seg_b);
    let n = start.len() as int;
    match (block_a, block_b) {
        (Some(ba), Some(bb)) => {
            lemma_decimal(ba as nat);
            lemma_decimal(bb as nat);
            assert(whole_a.skip(n) =~= decimal(ba as nat) + amp + sa);
            assert(whole_b.skip(n) =~= decimal(bb as nat) + amp + sb);
            lemma_split_at_ampersand(decimal(ba as nat), sa, decimal(bb as nat), sb);
        },
        (Some(ba), None) => {
            assert(whole_a.skip(n) =~= decimal(ba as nat) + amp + sa);
            assert(whole_b.skip(n) =~= sb);
            let k = decimal(ba as nat).len() as int;
            assert((decimal(ba as nat) + amp + sa)[k] == '&');
            assert(is_digit(sb[k]));
        },
        (None, Some(bb)) => {
            assert(whole_a.skip(n) =~= sa);
            assert(whole_b.skip(n) =~= decimal(bb as nat) + amp + sb);
            let k = decimal(bb as nat).len() as int;
            assert((decimal(bb as nat) + amp + sb)[k] == '&');
            assert(is_digit(sa[k]));
        },
        (None, None) => {
            assert(whole_a.skip(n) =~= sa);
            assert(whole_b.skip(n) =~= sb);
        },
    }
}

/// What is signed, written out: the proof, `&` and the segment size, which is read back;
/// and a block stands between them as if it belonged to the proof.
pub proof fn law_signed_text_written_out(proof_id: Seq<char>, block_no: u64, seg_size: u32)
    ensures
        signed_chars(proof_id, None, seg_size).take(proof_id.len() as int) == proof_id,
        signed_chars(proof_id, None, seg_size)[proof_id.len() as int] == '&',
        parsed(signed_chars(proof_id, None, seg_size).skip(proof_id.len() as int + 1)) == Some(
            seg_size as nat,
        ),
        signed_chars(proof_id, None, seg_size).skip(proof_id.len() as int + 1) == decimal(
            seg_size as nat,
        ),
        signed_chars(proof_id, Some(block_no), seg_size) == signed_chars(
            proof_id + seq!['&'] + decimal(block_no as nat),
            None,
            seg_size,
        ),
{
    reveal_strlit("&");
    assert("&"@ =~= seq!['&']);
    let plain = signed_chars(proof_id, None, seg_size);
    assert(plain.take(proof_id.len() as int) =~= proof_id);
    assert(plain.skip(proof_id.len() as int + 1) =~= decimal(seg_size as nat));
    law_decimal_round_trip(seg_size as nat);
    assert(signed_chars(proof_id, Some(block_no), seg_size) =~= signed_chars(
        proof_id + seq!['&'] + decimal(block_no as nat),
        None,
        seg_size,
    ));
}

/// A signer is told exactly where the text is a signature from which an address is
/// recovered for that message; the address is then read back from what is told, behind a
/// `0x` and in lower case. The fault says which of the two was missing.
pub proof fn law_signer_is_the_recovered_address(text: Seq<char>, message: Seq<char>)
    ensures
        ({
            let parts = signature_in(text);
            let signer = signer_of(text, message);
            let recovered = recovered_signer(parts->0.r, parts->0.s, parts->0.v, message);
            &&& parts is None ==> signer == Err::<Seq<char>, SignatureFault>(
                SignatureFault::Malformed,
            )
            &&& parts is Some && recovered is None ==> signer == Err::<Seq<char>, SignatureFault>(
                SignatureFault::Unrecoverable,
            )
            &&& parts is Some && recovered is Some ==> {
                &&& signer is Ok
                &&& signer->Ok_0.len() == 2 + 2 * recovered->0.len()
                &&& signer->Ok_0[0] == '0' && signer->Ok_0[1] == 'x'
                &&& hex_bytes(signer->Ok_0.skip(2)) == recovered
                &&& forall|i: int|
                    2 <= i < signer->Ok_0.len() ==> '0' <= #[trigger] signer->Ok_0[i] <= '9'
                        || 'a' <= signer->Ok_0[i] <= 'f'
            }
        }),
{
    reveal_strlit("0x");
    let parts = signature_in(text);
    if parts is Some {
        let recovered = recovered_signer(parts->0.r, parts->0.s, parts->0.v, message);
        if recovered is Some {
            let told = signer_of(text, message)->Ok_0;
            law_hex_round_trip(recovered->0);
            law_hex_is_lower_case(recovered->0);
            assert(told.skip(2) =~= lower_hex(recovered->0));
            assert forall|i: int| 2 <= i < told.len() implies '0' <= #[trigger] told[i] <= '9'
                || 'a' <= told[i] <= 'f' by {
                assert(told[i] == lower_hex(recovered->0)[i - 2]);
            }
        }
    }
}

/// A signature is 65 bytes in hexadecimal; a `0x` or `0X` in front makes no difference, and
/// its three parts together are those bytes.
pub proof fn law_signature_is_65_bytes(text: Seq<char>)
    ensures
        signature_in(text) matches Some(parts) ==> {
            &&& parts.r.len() == 32 && parts.s.len() == 32 && parts.v < 256
            &&& hex_bytes(text) is Some ==> hex_bytes(text) == Some(
                parts.r + parts.s + seq![parts.v as u8],
            )
        },
        hex_bytes(text) is Some && hex_bytes(text)->0.len() == 65 ==> signature_in(text) is Some,
        hex_bytes(text) is Some ==> signature_in(seq!['0', 'x'] + text) == signature_in(text),
        hex_bytes(text) is Some ==> signature_in(seq!['0', 'X'] + text) == signature_in(text),
{
    if hex_bytes(text) is Some {
        if text.len() >= 2 {
            assert(hex_value(text[1]) is Some);
        }
        assert((seq!['0', 'x'] + text).skip(2) =~= text);
        assert((seq!['0', 'X'] + text).skip(2) =~= text);
        let bytes = hex_bytes(text)->0;
        if bytes.len() == 65 {
            assert(bytes =~= bytes.subrange(0, 32) + bytes.subrange(32, 64) + seq![bytes[64]]);
        }
    }
}

} // verus!
