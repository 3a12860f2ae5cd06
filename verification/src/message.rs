//! Requests and responses, and their mathematical models.

use vstd::prelude::*;
use vstd::utf8::*;
use crate::error::ErrorKind;

verus! {

/// A call of one method: which method, with which serialized arguments,
/// under which correlation id.
#[derive(Debug, PartialEq, Eq)]
pub struct Request {
    /// The token that pairs this request with its response.
    pub id: u64,
    /// The name of the method.
    pub method: String,
    /// The serialized arguments, in the order of the parameters.
    pub payload: Vec<u8>,
}

/// What a [`Request`] stands for.
pub struct RequestModel {
    pub id: u64,
    pub method: Seq<char>,
    pub payload: Seq<u8>,
}

impl RequestModel {
    /// The method name is short enough for its length to be written in
    /// eight bytes. Every executable request is.
    pub open spec fn wf(self) -> bool {
        encode_utf8(self.method).len() <= u64::MAX
    }
}

impl View for Request {
    type V = RequestModel;

    open spec fn view(&self) -> RequestModel {
        RequestModel { id: self.id, method: self.method@, payload: self.payload@ }
    }
}

/// The answer to one request: the serialized return value, or the reason
/// why there is none.
#[derive(Debug, PartialEq, Eq)]
pub struct Response {
    /// The correlation id of the request that this answers.
    pub id: u64,
    /// The serialized return value, or the kind of failure.
    pub outcome: Result<Vec<u8>, ErrorKind>,
}

/// What a [`Response`] stands for.
pub struct ResponseModel {
    pub id: u64,
    pub outcome: Result<Seq<u8>, ErrorKind>,
}

impl View for Response {
    type V = ResponseModel;

    open spec fn view(&self) -> ResponseModel {
        ResponseModel {
            id: self.id,
            outcome: match self.outcome {
                Ok(payload) => Ok(payload@),
                Err(kind) => Err(kind),
            },
        }
    }
}

impl Clone for Request {
    fn clone(&self) -> (r: Request)
        ensures
            r@ == self@,
    {
        Request { id: self.id, method: self.method.clone(), payload: self.payload.clone() }
    }
}

impl Clone for Response {
    fn clone(&self) -> (r: Response)
        ensures
            r@ == self@,
    {
        match &self.outcome {
            Ok(payload) => Response { id: self.id, outcome: Ok(payload.clone()) },
            Err(kind) => Response { id: self.id, outcome: Err(*kind) },
        }
    }
}

impl Response {
    /// The response that carries `payload` as the return value.
    pub fn success(id: u64, payload: Vec<u8>) -> (r: Response)
        ensures
            r@ == (ResponseModel { id, outcome: Ok(payload@) }),
    {
        Response { id, outcome: Ok(payload) }
    }

    /// The response that reports a failure of the given kind.
    pub fn failure(id: u64, kind: ErrorKind) -> (r: Response)
        ensures
            r@ == (ResponseModel { id, outcome: Err(kind) }),
    {
        Response { id, outcome: Err(kind) }
    }
}

} // verus!
