use vstd::prelude::*;

use crate::codec::{
    encode_request, encode_response, encoded_request, encoded_response, post_encodable,
    response_encodable,
};
use crate::router::{PostV, Request, ResponseV, Response};

verus! {

/// The digest of a byte string. The digest function is cryptographic and
/// fixed for the protocol; both chains recompute it independently, so all
/// that matters here is that it is a function of the bytes alone.
pub uninterp spec fn digest_of(bytes: Seq<u8>) -> Seq<u8>;

/// Relies on sha2::Sha256: a 32-byte digest that depends on the input
/// bytes alone.
#[verifier::external_body]
fn sha256(bytes: &Vec<u8>) -> (r: Vec<u8>)
    ensures
        r@ == digest_of(bytes@),
        r@.len() == 32,
{
    let digest = <sha2::Sha256 as sha2::Digest>::digest(bytes.as_slice());
    digest.to_vec()
}

/// The commitment of a request: the digest of its canonical encoding.
pub open spec fn request_commitment(p: PostV) -> Seq<u8> {
    digest_of(encoded_request(p))
}

/// The commitment of a response: the digest of its canonical encoding.
pub open spec fn response_commitment(r: ResponseV) -> Seq<u8> {
    digest_of(encoded_response(r))
}

/// Hash a request into its commitment.
pub fn hash_request(req: &Request) -> (r: Vec<u8>)
    requires
        post_encodable(req@),
    ensures
        r@ == request_commitment(req@),
        r@.len() == 32,
{
    let encoded = encode_request(req);
    sha256(&encoded)
}

/// Hash a response into its commitment.
pub fn hash_response(resp: &Response) -> (r: Vec<u8>)
    requires
        response_encodable(resp@),
    ensures
        r@ == response_commitment(resp@),
        r@.len() == 32,
{
    let encoded = encode_response(resp);
    sha256(&encoded)
}

/// Commitment hashing is deterministic: requests with the same content
/// (down to the bytes of every field) have the same commitment. There is no
/// hidden state and no randomness in the hash.
pub proof fn lemma_request_commitment_deterministic(a: Request, b: Request)
    requires
        a@ == b@,
    ensures
        request_commitment(a@) == request_commitment(b@),
{
}

/// Commitment hashing is deterministic for responses as well.
pub proof fn lemma_response_commitment_deterministic(a: Response, b: Response)
    requires
        a@ == b@,
    ensures
        response_commitment(a@) == response_commitment(b@),
{
}

} // verus!
