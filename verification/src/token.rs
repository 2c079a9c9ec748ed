//! Token signing: arbitrary claim payloads are signed into a compact
//! token with an Ed25519 private key. The host application resolves and
//! reads the key file; the signing itself happens here.
//!
//! Whether a given PEM text parses as an Ed25519 key, and whether the
//! signer then accepts the key it carries, are deterministic functions
//! of the PEM bytes alone; the two named outcomes below stand for them,
//! so the signing function can promise exactly when it yields a token
//! and which failure message each cause earns.
use vstd::prelude::*;

use crate::either::Either;
use vstd::string::StringExecFns;

verus! {

#[verifier::external_type_specification]
#[verifier::external_body]
pub struct ExValue(serde_json::Value);

#[verifier::external_type_specification]
#[verifier::external_body]
pub struct ExJwtError(jsonwebtoken::errors::Error);

/// Whether jsonwebtoken accepts these bytes as a PEM Ed25519 private
/// key.
pub uninterp spec fn ed_key_parses(pem: Seq<u8>) -> bool;

/// Whether the signer accepts the key document these PEM bytes carry,
/// once they have parsed as a PEM Ed25519 private key.
pub uninterp spec fn ed_key_signs(pem: Seq<u8>) -> bool;

/// Relies on jsonwebtoken::EncodingKey::from_ed_pem: parsing is a
/// deterministic function of the PEM bytes, here reported as the named
/// parse outcome.
#[verifier::external_body]
fn ed_key_parse_check(pem: &Vec<u8>) -> (r: bool)
    ensures
        r == ed_key_parses(pem@),
{
    jsonwebtoken::EncodingKey::from_ed_pem(pem.as_slice()).is_ok()
}

/// Relies on jsonwebtoken::EncodingKey::from_ed_pem, Header::new for the
/// EdDSA algorithm, and jsonwebtoken::encode. The three calls stand in
/// one body because only their composition has a contract over plain
/// values: the key value between them is opaque, while success of the
/// whole — the PEM parses and the signer accepts the key it carries —
/// is a function of the PEM bytes alone. Serializing a JSON value
/// cannot fail, and Ed25519 signing itself cannot fail, so nothing else
/// decides the outcome.
#[verifier::external_body]
fn sign_claims_ed(pem: &Vec<u8>, claims: &serde_json::Value) -> (r: Result<
    String,
    jsonwebtoken::errors::Error,
>)
    ensures
        r is Ok <==> (ed_key_parses(pem@) && ed_key_signs(pem@)),
{
    let key = jsonwebtoken::EncodingKey::from_ed_pem(pem.as_slice())?;
    jsonwebtoken::encode(&jsonwebtoken::Header::new(jsonwebtoken::Algorithm::EdDSA), claims, &key)
}

/// Signs `claims` into a compact token with the PEM-encoded Ed25519
/// private key. A token is yielded exactly when the key bytes parse and
/// the signer accepts them; a key that does not parse earns the
/// invalid-key message, and a key the signer refuses earns the encoding
/// message, each exactly in its own case.
pub fn create_jwt_token(private_key: &Vec<u8>, claims: &serde_json::Value) -> (r: Either<
    String,
    String,
>)
    ensures
        r is Right <==> (ed_key_parses(private_key@) && ed_key_signs(private_key@)),
        r matches Either::Left(m) ==> (if ed_key_parses(private_key@) {
            m@ == "Could not create JWT token: Unable to encode JWT token"@
        } else {
            m@ == "Could not create JWT token: Invalid key file"@
        }),
{
    if !ed_key_parse_check(private_key) {
        return Either::Left(String::from_str("Could not create JWT token: Invalid key file"));
    }
    match sign_claims_ed(private_key, claims) {
        Err(_e) => Either::Left(
            String::from_str("Could not create JWT token: Unable to encode JWT token"),
        ),
        Ok(token) => Either::Right(token),
    }
}

} // verus!
