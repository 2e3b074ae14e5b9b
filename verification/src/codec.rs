use vstd::prelude::*;

use crate::host::StateMachine;
use crate::router::{PostV, Post, Request, ResponseV, Response};

verus! {

/// The eight bytes of a 64-bit integer, least significant first.
pub open spec fn u64_le_bytes(x: u64) -> Seq<u8> {
    seq![
        (x % 0x100) as u8,
        ((x / 0x100) % 0x100) as u8,
        ((x / 0x10000) % 0x100) as u8,
        ((x / 0x1000000) % 0x100) as u8,
        ((x / 0x100000000) % 0x100) as u8,
        ((x / 0x10000000000) % 0x100) as u8,
        ((x / 0x1000000000000) % 0x100) as u8,
        ((x / 0x100000000000000) % 0x100) as u8,
    ]
}

/// The compact form of a length: two mode bits in the lowest byte select
/// one, two or four bytes holding the length shifted by two, and lengths of
/// a full thirty bits or more take a marker byte followed by the four
/// length bytes, least significant first. Meaningful for lengths up to the
/// 32-bit maximum.
pub open spec fn compact_len_bytes(n: nat) -> Seq<u8> {
    if n < 0x40 {
        seq![(n * 4) as u8]
    } else if n < 0x4000 {
        seq![((n * 4 + 1) % 0x100) as u8, ((n * 4 + 1) / 0x100) as u8]
    } else if n < 0x40000000 {
        seq![
            ((n * 4 + 2) % 0x100) as u8,
            (((n * 4 + 2) / 0x100) % 0x100) as u8,
            (((n * 4 + 2) / 0x10000) % 0x100) as u8,
            (((n * 4 + 2) / 0x1000000) % 0x100) as u8,
        ]
    } else {
        seq![
            3u8,
            (n % 0x100) as u8,
            ((n / 0x100) % 0x100) as u8,
            ((n / 0x10000) % 0x100) as u8,
            ((n / 0x1000000) % 0x100) as u8,
        ]
    }
}

/// A byte string fits the canonical encoding when its length fits in 32 bits.
pub open spec fn encodable_bytes(b: Seq<u8>) -> bool {
    b.len() <= 0xFFFFFFFF
}

/// The canonical encoding of a byte string: its compact length, then its bytes.
pub open spec fn encoded_bytes(b: Seq<u8>) -> Seq<u8> {
    compact_len_bytes(b.len()) + b
}

/// Relies on parity_scale_codec::Encode for u64: the fixed-width
/// little-endian bytes of the value.
#[verifier::external_body]
fn scale_encode_u64(x: u64) -> (r: Vec<u8>)
    ensures
        r@ == u64_le_bytes(x),
{
    parity_scale_codec::Encode::encode(&x)
}

/// Relies on parity_scale_codec::Encode for Vec<u8>: the compact-encoded
/// length followed by the bytes. Lengths beyond the 32-bit maximum are
/// refused by the encoder, so they are required away here.
#[verifier::external_body]
fn scale_encode_bytes(b: &Vec<u8>) -> (r: Vec<u8>)
    requires
        encodable_bytes(b@),
    ensures
        r@ == encoded_bytes(b@),
{
    parity_scale_codec::Encode::encode(b)
}

/// The canonical one-byte tag of a state machine identifier.
pub open spec fn state_machine_byte(m: StateMachine) -> u8 {
    match m {
        StateMachine::Ethereum => 0,
        StateMachine::Arbitrum => 1,
        StateMachine::Optimism => 2,
        StateMachine::Base => 3,
        StateMachine::Bsc => 4,
        StateMachine::Polygon => 5,
    }
}

/// The one-byte tag of a state machine identifier.
pub fn encode_state_machine(m: StateMachine) -> (r: u8)
    ensures
        r == state_machine_byte(m),
{
    match m {
        StateMachine::Ethereum => 0,
        StateMachine::Arbitrum => 1,
        StateMachine::Optimism => 2,
        StateMachine::Base => 3,
        StateMachine::Bsc => 4,
        StateMachine::Polygon => 5,
    }
}

/// Append the bytes of `src` to `dst`.
pub fn append_bytes(dst: &mut Vec<u8>, src: &Vec<u8>)
    ensures
        final(dst)@ == old(dst)@ + src@,
{
    let mut i: usize = 0;
    while i < src.len()
        invariant
            i <= src@.len(),
            dst@ == old(dst)@ + src@.take(i as int),
        decreases src@.len() - i,
    {
        dst.push(src[i]);
        proof {
            assert(old(dst)@ + src@.take(i + 1 as int) =~= (old(dst)@ + src@.take(
                i as int,
            )).push(src@[i as int]));
        }
        i += 1;
    }
    proof {
        assert(old(dst)@ + src@.take(src@.len() as int) =~= old(dst)@ + src@);
    }
}

/// A post fits the canonical encoding when each of its byte fields does.
pub open spec fn post_encodable(p: PostV) -> bool {
    encodable_bytes(p.from) && encodable_bytes(p.to) && encodable_bytes(p.data)
}

/// The canonical encoding of a post: the two chain tags, then every field
/// in declaration order, integers in fixed-width little-endian form and
/// byte strings behind their compact length.
pub open spec fn encoded_post(p: PostV) -> Seq<u8> {
    seq![state_machine_byte(p.source)] + seq![state_machine_byte(p.dest)] + u64_le_bytes(p.nonce)
        + encoded_bytes(p.from) + encoded_bytes(p.to) + u64_le_bytes(p.timeout_timestamp)
        + encoded_bytes(p.data) + u64_le_bytes(p.gas_limit)
}

/// The canonical encoding of a request: its variant tag, then the post.
pub open spec fn encoded_request(p: PostV) -> Seq<u8> {
    seq![0u8] + encoded_post(p)
}

/// A response fits the canonical encoding when its post and payload do.
pub open spec fn response_encodable(r: ResponseV) -> bool {
    post_encodable(r.post) && encodable_bytes(r.response)
}

/// The canonical encoding of a response: its variant tag, the wrapped
/// request, the response payload, then timeout and gas limit.
pub open spec fn encoded_response(r: ResponseV) -> Seq<u8> {
    seq![0u8] + encoded_post(r.post) + encoded_bytes(r.response) + u64_le_bytes(r.timeout_timestamp)
        + u64_le_bytes(r.gas_limit)
}

/// Encode a post canonically.
pub fn encode_post(p: &Post) -> (r: Vec<u8>)
    requires
        post_encodable(p@),
    ensures
        r@ == encoded_post(p@),
{
    let mut out: Vec<u8> = Vec::new();
    out.push(encode_state_machine(p.source));
    out.push(encode_state_machine(p.dest));
    let nonce_bytes = scale_encode_u64(p.nonce);
    append_bytes(&mut out, &nonce_bytes);
    let from_bytes = scale_encode_bytes(&p.from);
    append_bytes(&mut out, &from_bytes);
    let to_bytes = scale_encode_bytes(&p.to);
    append_bytes(&mut out, &to_bytes);
    let timeout_bytes = scale_encode_u64(p.timeout_timestamp);
    append_bytes(&mut out, &timeout_bytes);
    let data_bytes = scale_encode_bytes(&p.data);
    append_bytes(&mut out, &data_bytes);
    let gas_bytes = scale_encode_u64(p.gas_limit);
    append_bytes(&mut out, &gas_bytes);
    proof {
        assert(out@ =~= encoded_post(p@));
    }
    out
}

/// Encode a request canonically.
pub fn encode_request(req: &Request) -> (r: Vec<u8>)
    requires
        post_encodable(req@),
    ensures
        r@ == encoded_request(req@),
{
    match req {
        Request::Post(p) => {
            let mut out: Vec<u8> = Vec::new();
            out.push(0u8);
            let post_bytes = encode_post(p);
            append_bytes(&mut out, &post_bytes);
            proof {
                assert(out@ =~= encoded_request(req@));
            }
            out
        },
    }
}

/// Encode a response canonically.
pub fn encode_response(resp: &Response) -> (r: Vec<u8>)
    requires
        response_encodable(resp@),
    ensures
        r@ == encoded_response(resp@),
{
    match resp {
        Response::Post(pr) => {
            let mut out: Vec<u8> = Vec::new();
            out.push(0u8);
            let post_bytes = encode_post(&pr.post);
            append_bytes(&mut out, &post_bytes);
            let payload_bytes = scale_encode_bytes(&pr.response);
            append_bytes(&mut out, &payload_bytes);
            let timeout_bytes = scale_encode_u64(pr.timeout_timestamp);
            append_bytes(&mut out, &timeout_bytes);
            let gas_bytes = scale_encode_u64(pr.gas_limit);
            append_bytes(&mut out, &gas_bytes);
            proof {
                assert(out@ =~= encoded_response(resp@));
            }
            out
        },
    }
}

} // verus!
