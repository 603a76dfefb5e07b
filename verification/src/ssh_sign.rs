//! Server-side SSH signing for the Phylax vault: parse an OpenSSH private
//! key, sign, and encode the signature in SSH wire format; and the steps of
//! a sign request around it, with its hex transport encoding.

use signature::Signer;
use vstd::prelude::*;

use crate::text::starts_with;

verus! {

/// `hex::FromHexError`.
#[verifier::external_type_specification]
#[verifier::external_body]
pub struct ExFromHexError(hex::FromHexError);

/// Why signing failed.
pub enum SshSignError {
    /// The stored bytes did not parse as an OpenSSH private key.
    Parse(String),
    /// The signing operation itself failed.
    Sign(String),
    /// Encoding the signature to wire format failed.
    Encode(String),
}

impl SshSignError {
    /// The error as text: its stage, a colon, and the cause.
    pub fn message(&self) -> (m: String)
        ensures
            m@ == match self {
                SshSignError::Parse(c) => "parse private key: "@ + c@,
                SshSignError::Sign(c) => "sign: "@ + c@,
                SshSignError::Encode(c) => "encode: "@ + c@,
            },
    {
        match self {
            SshSignError::Parse(c) => {
                let mut m = "parse private key: ".to_owned();
                m.append(c.as_str());
                m
            },
            SshSignError::Sign(c) => {
                let mut m = "sign: ".to_owned();
                m.append(c.as_str());
                m
            },
            SshSignError::Encode(c) => {
                let mut m = "encode: ".to_owned();
                m.append(c.as_str());
                m
            },
        }
    }
}

/// Whether `ssh_key::PrivateKey::from_openssh` accepts these bytes as an
/// OpenSSH PEM private key.
pub uninterp spec fn openssh_key_parses(pem: Seq<u8>) -> bool;

/// The SSH wire-format signature over `data` made with the OpenSSH private key
/// `pem`, as ssh-key parses, signs and encodes it; `None` where any of the
/// three steps fails. A function of the two byte strings: the signature
/// algorithms ssh-key offers here sign deterministically.
pub uninterp spec fn ssh_signature(pem: Seq<u8>, data: Seq<u8>) -> Option<Seq<u8>>;

/// Signs with ssh-key: `ssh_key::PrivateKey::from_openssh` on the PEM bytes,
/// `signature::Signer::try_sign` of the key over `data`, then
/// `Vec::<u8>::try_from` of the signature for its SSH wire format. Each
/// step's error is kept, with its `Display` text, under the step it came
/// from. The contract names the signature; of the error texts nothing is
/// stated.
#[verifier::external_body]
fn openssh_sign(pem: &[u8], data: &[u8]) -> (r: Result<Vec<u8>, SshSignError>)
    ensures
        r is Ok <==> ssh_signature(pem@, data@) is Some,
        r matches Ok(blob) ==> ssh_signature(pem@, data@) == Some(blob@),
        r matches Err(SshSignError::Parse(_)) <==> !openssh_key_parses(pem@),
{
    let key = match ssh_key::PrivateKey::from_openssh(pem) {
        Ok(k) => k,
        Err(e) => return Err(SshSignError::Parse(e.to_string())),
    };
    let sig = match key.try_sign(data) {
        Ok(s) => s,
        Err(e) => return Err(SshSignError::Sign(e.to_string())),
    };
    match Vec::<u8>::try_from(sig) {
        Ok(blob) => Ok(blob),
        Err(e) => Err(SshSignError::Encode(e.to_string())),
    }
}

/// Parses an OpenSSH-format PEM private key and produces an SSH wire-format
/// signature over `data`. Only the OpenSSH envelope is accepted. `_flags`
/// carries the SSH agent sign-request flags, which ed25519 has no use for:
/// the result does not depend on them.
pub fn sign_with_pem(pem: &str, data: &[u8], _flags: u32) -> (r: Result<Vec<u8>, SshSignError>)
    ensures
        r is Ok <==> ssh_signature(utf8_bytes(pem@), data@) is Some,
        r matches Ok(blob) ==> ssh_signature(utf8_bytes(pem@), data@) == Some(blob@),
        r matches Err(SshSignError::Parse(_)) <==> !openssh_key_parses(utf8_bytes(pem@)),
{
    openssh_sign(pem.as_bytes(), data)
}

/// The UTF-8 encoding of `s`.
pub open spec fn utf8_bytes(s: Seq<char>) -> Seq<u8> {
    vstd::utf8::encode_utf8(s)
}

/// Value of a hexadecimal digit byte, either case.
pub open spec fn hex_value(b: u8) -> Option<u8> {
    if 48 <= b <= 57 {
        Some((b - 48) as u8)
    } else if 97 <= b <= 102 {
        Some((b - 87) as u8)
    } else if 65 <= b <= 70 {
        Some((b - 55) as u8)
    } else {
        None
    }
}

/// Whether `hex` is hexadecimal text: an even number of hex digits.
pub open spec fn is_hex_text(hex: Seq<u8>) -> bool {
    hex.len() % 2 == 0 && forall|i: int| 0 <= i < hex.len() ==> (#[trigger] hex_value(hex[i])) is Some
}

/// The bytes hexadecimal text stands for, two digits per byte, high first.
pub open spec fn hex_bytes(hex: Seq<u8>) -> Seq<u8> {
    Seq::new(
        hex.len() / 2,
        |i: int| (hex_value(hex[2 * i]).unwrap() * 16 + hex_value(hex[2 * i + 1]).unwrap()) as u8,
    )
}

/// Lower-case hex digit for a value below 16.
pub open spec fn hex_char(d: int) -> char {
    if d < 10 {
        (48 + d) as char
    } else {
        (87 + d) as char
    }
}

/// Lower-case hexadecimal text of `data`, two digits per byte, high first.
pub open spec fn hex_text(data: Seq<u8>) -> Seq<char> {
    Seq::new(
        2 * data.len(),
        |i: int| if i % 2 == 0 {
            hex_char((data[i / 2] / 16) as int)
        } else {
            hex_char((data[i / 2] % 16) as int)
        },
    )
}

/// `hex::decode`: decodes hexadecimal text of either case; fails on an odd
/// length or a byte that is not a hex digit.
#[verifier::external_body]
fn hex_decode(hex: &[u8]) -> (r: Result<Vec<u8>, hex::FromHexError>)
    ensures
        r is Ok == is_hex_text(hex@),
        r matches Ok(bytes) ==> bytes@ == hex_bytes(hex@),
{
    hex::decode(hex)
}

/// `hex::encode`: lower-case hexadecimal text of the bytes.
#[verifier::external_body]
fn hex_encode(data: &[u8]) -> (s: String)
    ensures
        s@ == hex_text(data@),
{
    hex::encode(data)
}

/// A sign request: hex-encoded data to sign and the agent protocol flags.
pub struct SignRequest {
    pub data_hex: String,
    pub flags: u32,
}

/// A sign response: the hex-encoded SSH wire-format signature.
pub struct SignResponse {
    pub signature_hex: String,
}

/// A refused sign request.
pub enum SignRefusal {
    PermissionDenied(String),
}

/// First step of a sign request: a caller that is neither master nor allowed
/// the key's category is refused; otherwise the data is decoded from hex.
pub fn check_sign_request(is_master: bool, can_access_category: bool, req: &SignRequest) -> (r: Result<Vec<u8>, SignRefusal>)
    ensures
        !is_master && !can_access_category ==> (r matches Err(SignRefusal::PermissionDenied(m))
            && m@ == "category not permitted"@),
        (is_master || can_access_category) && !is_hex_text(utf8_bytes(req.data_hex@)) ==> (r matches Err(
            SignRefusal::PermissionDenied(m),
        ) && m@ == "bad data_hex"@),
        (is_master || can_access_category) && is_hex_text(utf8_bytes(req.data_hex@)) ==> (r matches Ok(
            data,
        ) && data@ == hex_bytes(utf8_bytes(req.data_hex@))),
{
    if !is_master && !can_access_category {
        return Err(SignRefusal::PermissionDenied("category not permitted".to_owned()));
    }
    match hex_decode(req.data_hex.as_str().as_bytes()) {
        Ok(data) => Ok(data),
        Err(_) => Err(SignRefusal::PermissionDenied("bad data_hex".to_owned())),
    }
}

/// The text of a refused signing: `sign failed: `, the failing stage, then
/// its cause. A key that does not parse fails at the parse stage; a key that
/// parses fails at signing or at encoding.
pub open spec fn sign_failure_text(m: Seq<char>, key_parses: bool) -> bool {
    if key_parses {
        starts_with(m, "sign failed: sign: "@) || starts_with(m, "sign failed: encode: "@)
    } else {
        starts_with(m, "sign failed: parse private key: "@)
    }
}

/// Last step of a sign request, once the key's PEM is loaded: the signature
/// in hex, or a refusal that says why signing failed.
pub fn sign_response(pem: &str, data: &[u8], flags: u32) -> (r: Result<SignResponse, SignRefusal>)
    ensures
        r is Ok <==> ssh_signature(utf8_bytes(pem@), data@) is Some,
        r matches Ok(resp) ==> resp.signature_hex@ == hex_text(
            ssh_signature(utf8_bytes(pem@), data@)->0,
        ),
        r matches Err(SignRefusal::PermissionDenied(m)) ==> sign_failure_text(
            m@,
            openssh_key_parses(utf8_bytes(pem@)),
        ),
{
    match sign_with_pem(pem, data, flags) {
        Ok(blob) => {
            let hex = hex_encode(blob.as_slice());
            Ok(SignResponse { signature_hex: hex })
        },
        Err(e) => {
            let mut m = "sign failed: ".to_owned();
            let cause = e.message();
            m.append(cause.as_str());
            proof {
                reveal_strlit("sign failed: ");
                match e {
                    SshSignError::Parse(c) => {
                        reveal_strlit("parse private key: ");
                        assert(m@ =~= "sign failed: parse private key: "@ + c@) by {
                            reveal_strlit("sign failed: parse private key: ");
                        }
                        assert(m@.subrange(0, "sign failed: parse private key: "@.len() as int) =~= "sign failed: parse private key: "@);
                    },
                    SshSignError::Sign(c) => {
                        reveal_strlit("sign: ");
                        assert(m@ =~= "sign failed: sign: "@ + c@) by {
                            reveal_strlit("sign failed: sign: ");
                        }
                        assert(m@.subrange(0, "sign failed: sign: "@.len() as int) =~= "sign failed: sign: "@);
                    },
                    SshSignError::Encode(c) => {
                        reveal_strlit("encode: ");
                        assert(m@ =~= "sign failed: encode: "@ + c@) by {
                            reveal_strlit("sign failed: encode: ");
                        }
                        assert(m@.subrange(0, "sign failed: encode: "@.len() as int) =~= "sign failed: encode: "@);
                    },
                }
            }
            Err(SignRefusal::PermissionDenied(m))
        },
    }
}

} // verus!
