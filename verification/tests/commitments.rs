use ismp_core::codec::{encode_post, encode_request};
use ismp_core::host::StateMachine;
use ismp_core::router::{Post, PostResponse, Request, Response};
use ismp_core::util::{hash_request, hash_response};

fn sample_post() -> Post {
    Post {
        source: StateMachine::Bsc,
        dest: StateMachine::Polygon,
        nonce: 7,
        from: vec![0xAA, 0xBB],
        to: vec![],
        timeout_timestamp: 1,
        data: vec![0x01],
        gas_limit: 9,
    }
}

#[test]
fn canonical_post_encoding_is_exact() {
    let encoded = encode_post(&sample_post());
    let expected: Vec<u8> = vec![
        4, // Bsc
        5, // Polygon
        7, 0, 0, 0, 0, 0, 0, 0, // nonce, little endian
        8, 0xAA, 0xBB, // from: compact length 2, then the bytes
        0,    // to: compact length 0
        1, 0, 0, 0, 0, 0, 0, 0, // timeout, little endian
        4, 0x01, // data: compact length 1, then the byte
        9, 0, 0, 0, 0, 0, 0, 0, // gas limit, little endian
    ];
    assert_eq!(encoded, expected);
}

#[test]
fn request_encoding_prefixes_the_variant_tag() {
    let post = sample_post();
    let encoded_post = encode_post(&post);
    let encoded_req = encode_request(&Request::Post(post));
    assert_eq!(encoded_req[0], 0);
    assert_eq!(&encoded_req[1..], encoded_post.as_slice());
}

#[test]
fn two_byte_compact_length_is_exact() {
    let post = Post {
        source: StateMachine::Ethereum,
        dest: StateMachine::Arbitrum,
        nonce: 0,
        from: vec![],
        to: vec![],
        timeout_timestamp: 0,
        data: vec![0x55; 64],
        gas_limit: 0,
    };
    let encoded = encode_post(&post);
    // tags (2) + nonce (8) + from (1) + to (1) + timeout (8) = 20 bytes,
    // then the compact form of length 64: 64 * 4 + 1 = 257, little endian.
    assert_eq!(encoded[20], 0x01);
    assert_eq!(encoded[21], 0x01);
    assert_eq!(encoded[22], 0x55);
    assert_eq!(encoded.len(), 20 + 2 + 64 + 8);
}

#[test]
fn commitment_hashing_is_deterministic() {
    let a = Request::Post(sample_post());
    let b = Request::Post(sample_post());
    assert_eq!(hash_request(&a), hash_request(&b));
}

#[test]
fn different_messages_hash_differently() {
    let a = Request::Post(sample_post());
    let mut other = sample_post();
    other.nonce = 8;
    let b = Request::Post(other);
    let ha = hash_request(&a);
    let hb = hash_request(&b);
    assert_eq!(ha.len(), 32);
    assert_eq!(hb.len(), 32);
    assert_ne!(ha, hb);
    // The digest is a digest, not the encoding handed back.
    assert_ne!(ha, encode_request(&a));
}

#[test]
fn response_commitment_differs_from_request_commitment() {
    let post = sample_post();
    let req = Request::Post(post);
    let resp = Response::Post(PostResponse {
        post: sample_post(),
        response: vec![0xCC],
        timeout_timestamp: 3,
        gas_limit: 4,
    });
    assert_eq!(hash_response(&resp).len(), 32);
    assert_ne!(hash_request(&req), hash_response(&resp));
}

#[test]
fn response_accessors_preserve_the_wrapped_direction() {
    let resp = Response::Post(PostResponse {
        post: sample_post(),
        response: vec![],
        timeout_timestamp: 0,
        gas_limit: 0,
    });
    assert_eq!(resp.source_chain(), StateMachine::Bsc);
    assert_eq!(resp.dest_chain(), StateMachine::Polygon);
    assert_eq!(resp.nonce(), 7);
    let wrapped = resp.request();
    assert_eq!(wrapped.source_chain(), StateMachine::Bsc);
    assert_eq!(wrapped.nonce(), 7);
}
