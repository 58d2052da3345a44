//! What a request is answered with, and how long a cache entry lives.

use vstd::prelude::*;
use vstd::string::StringExecFns;

verus! {

/// Status of an answer that carries a payload.
pub const STATUS_OK: u16 = 200;

/// Status of an answer to an internal failure.
pub const STATUS_INTERNAL_SERVER_ERROR: u16 = 500;

/// Status of an answer to a failed upstream fetch.
pub const STATUS_BAD_GATEWAY: u16 = 502;

/// Name of the header that tells a hit from a miss.
pub const CACHE_HIT_HEADER: &'static str = "X-Cache-Hit";

/// Why a request could not be answered with a payload, if it could not.
#[derive(Debug, PartialEq, Eq)]
pub enum ErrorEnum {
    /// An internal, unexpected failure.
    System,
    /// The upstream fetch failed; the text says how.
    Remote(String),
    /// Nothing went wrong.
    NoError,
}

/// An error as a value.
pub enum Failure {
    System,
    Remote(Seq<char>),
    NoError,
}

impl View for ErrorEnum {
    type V = Failure;

    open spec fn view(&self) -> Failure {
        match self {
            ErrorEnum::System => Failure::System,
            ErrorEnum::Remote(detail) => Failure::Remote(detail@),
            ErrorEnum::NoError => Failure::NoError,
        }
    }
}

/// The body of an answer.
#[derive(Debug, PartialEq, Eq)]
pub enum ReplyBody {
    /// Plain text.
    Text(String),
    /// Raw bytes.
    Bytes(Vec<u8>),
}

/// An answer body as a value.
pub enum Body {
    Text(Seq<char>),
    Bytes(Seq<u8>),
}

impl View for ReplyBody {
    type V = Body;

    open spec fn view(&self) -> Body {
        match self {
            ReplyBody::Text(text) => Body::Text(text@),
            ReplyBody::Bytes(bytes) => Body::Bytes(bytes@),
        }
    }
}

/// An answer as the transport sends it.
#[derive(Debug, PartialEq, Eq)]
pub struct Reply {
    /// The status code.
    pub status: u16,
    /// The value of the cache-hit header, on answers that carry one.
    pub hit_header: Option<String>,
    /// The body.
    pub body: ReplyBody,
}

/// An answer as a value.
pub struct Answer {
    pub status: int,
    pub hit_header: Option<Seq<char>>,
    pub body: Body,
}

impl View for Reply {
    type V = Answer;

    open spec fn view(&self) -> Answer {
        Answer {
            status: self.status as int,
            hit_header: match self.hit_header {
                Some(value) => Some(value@),
                None => None,
            },
            body: self.body@,
        }
    }
}

/// The outcome of a request as a value.
pub struct Response {
    pub err: Failure,
    pub resp: Seq<u8>,
    pub hit: bool,
}

impl Response {
    /// A payload served from the cache.
    pub open spec fn hit(content: Seq<u8>) -> Response {
        Response { err: Failure::NoError, resp: content, hit: true }
    }

    /// A payload fetched upstream.
    pub open spec fn miss(content: Seq<u8>) -> Response {
        Response { err: Failure::NoError, resp: content, hit: false }
    }

    /// A failure, which carries no payload.
    pub open spec fn failure(err: Failure) -> Response {
        Response { err, resp: Seq::empty(), hit: false }
    }

    /// The answer sent for this outcome.
    ///
    /// A system failure is answered with status 500 and a fixed text that
    /// gives nothing away; a failed fetch with status 502 and the failure's
    /// text; a payload with status 200, the payload as it is, and the cache-hit
    /// header set to "1" for a hit and "0" for a miss.
    pub open spec fn answer(self) -> Answer {
        match self.err {
            Failure::System => Answer {
                status: 500,
                hit_header: None,
                body: Body::Text("System error"@),
            },
            Failure::Remote(detail) => Answer {
                status: 502,
                hit_header: None,
                body: Body::Text(detail),
            },
            Failure::NoError => Answer {
                status: 200,
                hit_header: Some(
                    if self.hit {
                        "1"@
                    } else {
                        "0"@
                    },
                ),
                body: Body::Bytes(self.resp),
            },
        }
    }
}

/// The outcome of a request.
#[derive(Debug, PartialEq, Eq)]
pub struct CacheResponse {
    err: ErrorEnum,
    resp: Vec<u8>,
    hit: bool,
}

impl View for CacheResponse {
    type V = Response;

    closed spec fn view(&self) -> Response {
        Response { err: self.err@, resp: self.resp@, hit: self.hit }
    }
}

impl CacheResponse {
    /// A payload, served from the cache (`hit`) or fetched upstream.
    pub fn new(resp: Vec<u8>, hit: bool) -> (response: CacheResponse)
        ensures
            response@ == (Response { err: Failure::NoError, resp: resp@, hit }),
    {
        CacheResponse { err: ErrorEnum::NoError, resp, hit }
    }

    /// A failure.
    pub fn from_err(err: ErrorEnum) -> (response: CacheResponse)
        ensures
            response@ == Response::failure(err@),
    {
        CacheResponse { err, resp: Vec::new(), hit: false }
    }

    /// Whether the payload came from the cache.
    pub fn is_hit(&self) -> (hit: bool)
        ensures
            hit == self@.hit,
    {
        self.hit
    }

    /// The payload.
    pub fn payload(&self) -> (payload: &[u8])
        ensures
            payload@ == self@.resp,
    {
        self.resp.as_slice()
    }

    /// Renders the outcome as the answer to send.
    pub fn into_response(self) -> (reply: Reply)
        ensures
            reply@ == self@.answer(),
    {
        match self.err {
            ErrorEnum::System => Reply {
                status: STATUS_INTERNAL_SERVER_ERROR,
                hit_header: None,
                body: ReplyBody::Text(String::from_str("System error")),
            },
            ErrorEnum::Remote(detail) => Reply {
                status: STATUS_BAD_GATEWAY,
                hit_header: None,
                body: ReplyBody::Text(detail),
            },
            ErrorEnum::NoError => Reply {
                status: STATUS_OK,
                hit_header: Some(
                    String::from_str(
                        if self.hit {
                            "1"
                        } else {
                            "0"
                        },
                    ),
                ),
                body: ReplyBody::Bytes(self.resp),
            },
        }
    }
}

/// Entries the cache is sized for.
pub const CACHE_CAPACITY: u64 = 65536;

/// The expiry policy of the cache: one lifetime for every entry.
#[derive(Clone, Copy, Debug, PartialEq, Eq)]
pub struct KeyExpiry(u64);

impl View for KeyExpiry {
    type V = u64;

    closed spec fn view(&self) -> u64 {
        self.0
    }
}

impl KeyExpiry {
    /// A policy under which every entry lives `time` seconds.
    pub fn new(time: u64) -> (expiry: KeyExpiry)
        ensures
            expiry@ == time,
    {
        KeyExpiry(time)
    }

    /// The seconds an entry lives from its creation on: the configured
    /// lifetime, whatever the key and the value.
    pub fn expire_after_create(&self, key: &u64, value: &Vec<u8>) -> (lifetime: Option<u64>)
        ensures
            lifetime == Some(self@),
    {
        Some(self.0)
    }
}

} // verus!
