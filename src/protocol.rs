//! Wire encoding of the messages exchanged with the server.
//!
//! Every message is one transport packet: a kind byte followed by the
//! message's payload, if it has one. The transport delimits packets, so no
//! length prefix is written.
use vstd::prelude::*;

verus! {

/// Kind byte of `NetworkRequest::RequestWorld`.
pub const REQUEST_WORLD_KIND: u8 = 0;

/// Kind byte of `NetworkResponse::ResponseWorld`.
pub const RESPONSE_WORLD_KIND: u8 = 0;

/// A message sent from the client to the server.
#[derive(Clone, Copy, Debug, PartialEq, Eq, Structural)]
pub enum NetworkRequest {
    /// Ask the server for a full snapshot of the world.
    RequestWorld,
}

/// A message sent from the server to the client.
#[derive(Clone, Debug)]
pub enum NetworkResponse {
    /// A full snapshot of the world, as opaque bytes.
    ResponseWorld(Vec<u8>),
}

/// Why a packet could not be read as a response.
#[derive(Clone, Copy, Debug, PartialEq, Eq, Structural)]
pub enum DecodeError {
    /// The packet holds no bytes at all.
    Empty,
    /// The packet starts with a kind byte that names no response.
    UnknownKind(u8),
}

/// The mathematical value of a response: its kind and payload bytes.
pub ghost enum ResponseModel {
    ResponseWorld(Seq<u8>),
}

impl NetworkResponse {
    pub open spec fn view(&self) -> ResponseModel {
        match self {
            NetworkResponse::ResponseWorld(p) => ResponseModel::ResponseWorld(p@),
        }
    }
}

/// The bytes that encode a request.
pub open spec fn request_wire(r: NetworkRequest) -> Seq<u8> {
    match r {
        NetworkRequest::RequestWorld => seq![REQUEST_WORLD_KIND],
    }
}

/// The bytes that encode a response.
pub open spec fn response_wire(r: ResponseModel) -> Seq<u8> {
    match r {
        ResponseModel::ResponseWorld(p) => seq![RESPONSE_WORLD_KIND] + p,
    }
}

/// What reading the bytes `b` as a response yields.
pub open spec fn response_of(b: Seq<u8>) -> Result<ResponseModel, DecodeError> {
    if b.len() == 0 {
        Err(DecodeError::Empty)
    } else if b[0] == RESPONSE_WORLD_KIND {
        Ok(ResponseModel::ResponseWorld(b.drop_first()))
    } else {
        Err(DecodeError::UnknownKind(b[0]))
    }
}

/// Encodes a request as the bytes of one packet.
pub fn encode_request(request: &NetworkRequest) -> (r: Vec<u8>)
    ensures
        r@ == request_wire(*request),
{
    match request {
        NetworkRequest::RequestWorld => {
            let r = vec![REQUEST_WORLD_KIND];
            assert(r@ =~= request_wire(*request));
            r
        },
    }
}

/// Encodes a response as the bytes of one packet.
pub fn encode_response(response: &NetworkResponse) -> (r: Vec<u8>)
    ensures
        r@ == response_wire(response@),
{
    match response {
        NetworkResponse::ResponseWorld(payload) => {
            let mut r: Vec<u8> = Vec::with_capacity(payload.len());
            r.push(RESPONSE_WORLD_KIND);
            let mut i: usize = 0;
            while i < payload.len()
                invariant
                    i <= payload@.len(),
                    r@ =~= seq![RESPONSE_WORLD_KIND] + payload@.take(i as int),
                decreases payload@.len() - i,
            {
                r.push(payload[i]);
                i = i + 1;
            }
            assert(payload@.take(payload@.len() as int) =~= payload@);
            r
        },
    }
}

/// Reads the bytes of one packet as a response.
pub fn decode_response(bytes: &[u8]) -> (r: Result<NetworkResponse, DecodeError>)
    ensures
        match (r, response_of(bytes@)) {
            (Ok(v), Ok(m)) => v@ == m,
            (Err(e), Err(f)) => e == f,
            _ => false,
        },
{
    if bytes.len() == 0 {
        return Err(DecodeError::Empty);
    }
    let kind = bytes[0];
    if kind != RESPONSE_WORLD_KIND {
        return Err(DecodeError::UnknownKind(kind));
    }
    let mut payload: Vec<u8> = Vec::with_capacity(bytes.len() - 1);
    let mut i: usize = 1;
    while i < bytes.len()
        invariant
            1 <= i <= bytes@.len(),
            payload@ =~= bytes@.subrange(1, i as int),
        decreases bytes@.len() - i,
    {
        payload.push(bytes[i]);
        i = i + 1;
    }
    assert(payload@ =~= bytes@.drop_first());
    Ok(NetworkResponse::ResponseWorld(payload))
}

/// Reading the encoding of a response gives that response back.
pub proof fn lemma_response_round_trip(r: ResponseModel)
    ensures
        response_of(response_wire(r)) == Ok::<ResponseModel, DecodeError>(r),
{
    match r {
        ResponseModel::ResponseWorld(p) => {
            assert((seq![RESPONSE_WORLD_KIND] + p).drop_first() =~= p);
        },
    }
}

} // verus!
