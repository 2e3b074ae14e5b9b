use vstd::prelude::*;

use crate::host::StateMachine;

verus! {

/// A request envelope: source and destination chain, a per-corridor nonce,
/// opaque addressing and payload, a timeout and a gas limit. Immutable once
/// constructed.
#[derive(Clone, Debug)]
pub struct Post {
    pub source: StateMachine,
    pub dest: StateMachine,
    pub nonce: u64,
    pub from: Vec<u8>,
    pub to: Vec<u8>,
    pub timeout_timestamp: u64,
    pub data: Vec<u8>,
    pub gas_limit: u64,
}

/// The content of a `Post`, with byte vectors read as sequences. Two posts
/// with equal views are the same message.
#[verifier::ext_equal]
pub struct PostV {
    pub source: StateMachine,
    pub dest: StateMachine,
    pub nonce: u64,
    pub from: Seq<u8>,
    pub to: Seq<u8>,
    pub timeout_timestamp: u64,
    pub data: Seq<u8>,
    pub gas_limit: u64,
}

impl View for Post {
    type V = PostV;

    open spec fn view(&self) -> PostV {
        PostV {
            source: self.source,
            dest: self.dest,
            nonce: self.nonce,
            from: self.from@,
            to: self.to@,
            timeout_timestamp: self.timeout_timestamp,
            data: self.data@,
            gas_limit: self.gas_limit,
        }
    }
}

/// A cross-chain request.
#[derive(Clone, Debug)]
pub enum Request {
    Post(Post),
}

impl View for Request {
    type V = PostV;

    open spec fn view(&self) -> PostV {
        match self {
            Request::Post(p) => p@,
        }
    }
}

/// A response envelope: the request it answers, an opaque response payload,
/// its own timeout and gas limit. A response logically references exactly
/// one request.
#[derive(Clone, Debug)]
pub struct PostResponse {
    pub post: Post,
    pub response: Vec<u8>,
    pub timeout_timestamp: u64,
    pub gas_limit: u64,
}

/// The content of a `PostResponse`, with byte vectors read as sequences.
#[verifier::ext_equal]
pub struct ResponseV {
    pub post: PostV,
    pub response: Seq<u8>,
    pub timeout_timestamp: u64,
    pub gas_limit: u64,
}

impl View for PostResponse {
    type V = ResponseV;

    open spec fn view(&self) -> ResponseV {
        ResponseV {
            post: self.post@,
            response: self.response@,
            timeout_timestamp: self.timeout_timestamp,
            gas_limit: self.gas_limit,
        }
    }
}

/// A cross-chain response.
#[derive(Clone, Debug)]
pub enum Response {
    Post(PostResponse),
}

impl View for Response {
    type V = ResponseV;

    open spec fn view(&self) -> ResponseV {
        match self {
            Response::Post(p) => p@,
        }
    }
}

/// Copy a byte vector. The copy holds exactly the bytes of the source.
pub fn copy_bytes(src: &Vec<u8>) -> (r: Vec<u8>)
    ensures
        r@ == src@,
{
    let mut out: Vec<u8> = Vec::new();
    let mut i: usize = 0;
    while i < src.len()
        invariant
            i <= src@.len(),
            out@ == src@.take(i as int),
        decreases src@.len() - i,
    {
        out.push(src[i]);
        proof {
            assert(src@.take(i + 1 as int) =~= src@.take(i as int).push(src@[i as int]));
        }
        i += 1;
    }
    proof {
        assert(src@.take(src@.len() as int) =~= src@);
    }
    out
}

/// Copy a post field for field.
pub fn copy_post(p: &Post) -> (r: Post)
    ensures
        r@ == p@,
{
    Post {
        source: p.source,
        dest: p.dest,
        nonce: p.nonce,
        from: copy_bytes(&p.from),
        to: copy_bytes(&p.to),
        timeout_timestamp: p.timeout_timestamp,
        data: copy_bytes(&p.data),
        gas_limit: p.gas_limit,
    }
}

impl Request {
    /// The chain the request originates from.
    pub fn source_chain(&self) -> (r: StateMachine)
        ensures
            r == self@.source,
    {
        match self {
            Request::Post(p) => p.source,
        }
    }

    /// The chain the request is addressed to.
    pub fn dest_chain(&self) -> (r: StateMachine)
        ensures
            r == self@.dest,
    {
        match self {
            Request::Post(p) => p.dest,
        }
    }

    /// The per-corridor nonce of the request.
    pub fn nonce(&self) -> (r: u64)
        ensures
            r == self@.nonce,
    {
        match self {
            Request::Post(p) => p.nonce,
        }
    }
}

impl Response {
    /// The request this response answers.
    pub fn request(&self) -> (r: Request)
        ensures
            r@ == self@.post,
    {
        match self {
            Response::Post(p) => Request::Post(copy_post(&p.post)),
        }
    }

    /// The source chain encoded by the wrapped request, read as is: the
    /// direction convention of the wrapped request is preserved, never
    /// reinterpreted.
    pub fn source_chain(&self) -> (r: StateMachine)
        ensures
            r == self@.post.source,
    {
        match self {
            Response::Post(p) => p.post.source,
        }
    }

    /// The destination chain encoded by the wrapped request, read as is.
    pub fn dest_chain(&self) -> (r: StateMachine)
        ensures
            r == self@.post.dest,
    {
        match self {
            Response::Post(p) => p.post.dest,
        }
    }

    /// The nonce inherited from the wrapped request.
    pub fn nonce(&self) -> (r: u64)
        ensures
            r == self@.post.nonce,
    {
        match self {
            Response::Post(p) => p.post.nonce,
        }
    }
}

} // verus!
