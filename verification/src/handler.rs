//! The request handler: what one request does between the spec decoder, the
//! cache store, the fetch client and the image engine.
//!
//! The decoder, the fetch and the engine are the caller's. The handler takes
//! what each of them gave and says what comes next, so that the cache is
//! touched only between those calls, never during one.

use vstd::prelude::*;
use vstd::string::StringExecFns;
use crate::cache::laws::lemma_inserted_is_found;
use crate::cache::model::{inserted, lookup, touched, Entry};
use crate::cache::store::CacheStore;
use crate::fetch::FetchError;
use crate::key::{derive_key, key_of, CacheKey};
use crate::percent::{percent_decode_lossy, percent_decoded_lossy, percent_encode_all, percent_encoded};
use crate::transform::{content_type_of, output_format, OutputFormat, TransformSpec, TransformStep};

verus! {

/// Why a request got no image.
#[derive(Clone, Copy, Debug, PartialEq, Eq, Structural)]
pub enum HandlerError {
    /// The transformation spec could not be decoded. The client's fault.
    BadSpec,
    /// The source could not be fetched. Counted as the client's fault.
    FetchFailed,
    /// The source bytes are no image. The server's fault.
    BadImage,
}

/// The engine's report that bytes are not a recognized image container.
#[derive(Clone, Copy, Debug, PartialEq, Eq, Structural)]
pub struct DecodeError;

/// The status of a request that was answered with an image.
pub const STATUS_OK: u16 = 200;

/// The status of a request that failed by the client's fault.
pub const STATUS_BAD_REQUEST: u16 = 400;

/// The status of a request that failed by the server's fault.
pub const STATUS_SERVER_ERROR: u16 = 500;

/// The status that reports an error.
pub open spec fn status_of(error: HandlerError) -> u16 {
    match error {
        HandlerError::BadSpec => STATUS_BAD_REQUEST,
        HandlerError::FetchFailed => STATUS_BAD_REQUEST,
        HandlerError::BadImage => STATUS_SERVER_ERROR,
    }
}

impl HandlerError {
    /// The response status that reports this error: 400 where the client is
    /// at fault, 500 where the server is.
    pub fn status(&self) -> (code: u16)
        ensures
            code == status_of(*self),
    {
        match self {
            HandlerError::BadSpec => STATUS_BAD_REQUEST,
            HandlerError::FetchFailed => STATUS_BAD_REQUEST,
            HandlerError::BadImage => STATUS_SERVER_ERROR,
        }
    }
}

/// The path under which an image is asked for: `/image/`, the spec token, a
/// slash, and the source URL with every byte but ASCII letters and digits
/// percent-encoded.
pub open spec fn path_of(spec_token: Seq<char>, source_url: Seq<char>) -> Seq<char> {
    "/image/"@ + spec_token + "/"@ + percent_encoded(source_url)
}

/// The path of the request that asks for `source_url` transformed as
/// `spec_token` says.
pub fn request_path(spec_token: &str, source_url: &str) -> (path: String)
    ensures
        path@ == path_of(spec_token@, source_url@),
{
    let mut path = String::from_str("/image/");
    path.append(spec_token);
    path.append("/");
    path.append(percent_encode_all(source_url).as_str());
    path
}

/// A request as it came in, its URL percent-decoded.
pub struct Request {
    token: String,
    url: String,
}

/// Work for the image engine: decode `source`, apply `steps` first to last,
/// encode as `format`.
#[derive(Clone, Debug, PartialEq, Eq)]
pub struct Job {
    pub source: Vec<u8>,
    pub steps: Vec<TransformStep>,
    pub format: OutputFormat,
}

/// A request whose source is not in the cache: it waits for the fetch.
pub struct Miss {
    key: CacheKey,
    url: String,
    spec: TransformSpec,
}

/// What a request needs next.
pub enum Next {
    /// The source was in the cache: the engine can work.
    Render(Job),
    /// The source has to be fetched first.
    Fetch(Miss),
}

/// An encoded image and the value of its `content-type` header.
#[derive(Clone, Debug, PartialEq, Eq)]
pub struct Payload {
    pub content_type: String,
    pub body: Vec<u8>,
}

impl Request {
    /// The spec token as it came in.
    pub closed spec fn spec_token(&self) -> Seq<char> {
        self.token@
    }

    /// The decoded source URL.
    pub closed spec fn spec_url(&self) -> Seq<char> {
        self.url@
    }

    /// Takes in a request: keeps the spec token for the decoder and
    /// percent-decodes the source URL. No URL is refused: where the decoded
    /// bytes are no UTF-8, the decoding is lossy.
    pub fn new(spec_encoded: &str, url_encoded: &str) -> (request: Request)
        ensures
            request.spec_token() == spec_encoded@,
            request.spec_url() == percent_decoded_lossy(url_encoded@),
    {
        Request { token: spec_encoded.to_owned(), url: percent_decode_lossy(url_encoded) }
    }

    /// The spec token, for the decoder.
    pub fn token(&self) -> (token: &str)
        ensures
            token@ == self.spec_token(),
    {
        self.token.as_str()
    }

    /// The decoded source URL.
    pub fn url(&self) -> (url: &str)
        ensures
            url@ == self.spec_url(),
    {
        self.url.as_str()
    }

    /// Goes on with what the decoder made of the spec token. Without a spec
    /// the request fails as `BadSpec` and the cache is left alone. With one,
    /// the source is looked up in the cache under the key of its URL: a hit
    /// gives the engine its work and makes the entry the most recently used
    /// one, a miss asks for the fetch.
    pub fn resolve(self, decoded: Option<TransformSpec>, cache: &mut CacheStore) -> (next: Result<
        Next,
        HandlerError,
    >)
        requires
            old(cache).wf(),
        ensures
            final(cache).wf(),
            final(cache).spec_capacity() == old(cache).spec_capacity(),
            match decoded {
                None => {
                    &&& next == Err::<Next, HandlerError>(HandlerError::BadSpec)
                    &&& final(cache)@ == old(cache)@
                },
                Some(spec) => {
                    &&& final(cache)@ == touched(old(cache)@, key_of(self.spec_url()))
                    &&& match lookup(old(cache)@, key_of(self.spec_url())) {
                        Some(bytes) => {
                            &&& next matches Ok(Next::Render(job))
                            &&& job.source@ == bytes
                            &&& job.steps@ == spec@
                            &&& job.format == output_format()
                        },
                        None => {
                            &&& next matches Ok(Next::Fetch(miss))
                            &&& miss.spec_key() == key_of(self.spec_url())
                            &&& miss.spec_url() == self.spec_url()
                            &&& miss.spec_steps() == spec@
                        },
                    }
                },
            },
    {
        match decoded {
            None => Err(HandlerError::BadSpec),
            Some(spec) => {
                let key = derive_key(self.url.as_str());
                match cache.get(key) {
                    Some(source) => Ok(
                        Next::Render(
                            Job { source, steps: spec.into_steps(), format: OutputFormat::fixed() },
                        ),
                    ),
                    None => Ok(Next::Fetch(Miss { key, url: self.url, spec })),
                }
            },
        }
    }
}

impl Miss {
    /// The cache key under which the source will be stored.
    pub closed spec fn spec_key(&self) -> CacheKey {
        self.key
    }

    /// The URL to fetch.
    pub closed spec fn spec_url(&self) -> Seq<char> {
        self.url@
    }

    /// The steps that wait for the source.
    pub closed spec fn spec_steps(&self) -> Seq<TransformStep> {
        self.spec@
    }

    /// The URL to fetch.
    pub fn url(&self) -> (url: &str)
        ensures
            url@ == self.spec_url(),
    {
        self.url.as_str()
    }

    /// Goes on with what the fetch gave. A fetch error of any kind fails the
    /// request as `FetchFailed` and leaves the cache alone. Fetched bytes are
    /// stored in the cache under the key of the URL, as the most recently
    /// used entry, and handed to the engine.
    pub fn complete(self, fetched: Result<Vec<u8>, FetchError>, cache: &mut CacheStore) -> (job:
        Result<Job, HandlerError>)
        requires
            old(cache).wf(),
        ensures
            final(cache).wf(),
            final(cache).spec_capacity() == old(cache).spec_capacity(),
            match fetched {
                Err(_) => {
                    &&& job == Err::<Job, HandlerError>(HandlerError::FetchFailed)
                    &&& final(cache)@ == old(cache)@
                },
                Ok(bytes) => {
                    &&& final(cache)@ == inserted(
                        old(cache)@,
                        old(cache).spec_capacity(),
                        self.spec_key(),
                        bytes@,
                    )
                    &&& job matches Ok(work)
                    &&& work.source@ == bytes@
                    &&& work.steps@ == self.spec_steps()
                    &&& work.format == output_format()
                },
            },
    {
        match fetched {
            Err(_) => Err(HandlerError::FetchFailed),
            Ok(bytes) => {
                cache.put(self.key, bytes.clone());
                Ok(Job { source: bytes, steps: self.spec.into_steps(), format: OutputFormat::fixed() })
            },
        }
    }
}

/// The answer to a request, as a mathematical value: the content type and
/// the body, or the error.
pub open spec fn answer_for(format: OutputFormat, rendered: Result<Vec<u8>, DecodeError>) -> Result<
    (Seq<char>, Seq<u8>),
    HandlerError,
> {
    match rendered {
        Ok(image) => Ok((content_type_of(format), image@)),
        Err(_) => Err(HandlerError::BadImage),
    }
}

/// Ends a request with what the engine gave for a job in `format`. Source
/// bytes that the engine could not decode fail the request as `BadImage`. An
/// encoded image is the body of the answer, under the content type of its
/// format.
pub fn finish(format: OutputFormat, rendered: Result<Vec<u8>, DecodeError>) -> (answer: Result<
    Payload,
    HandlerError,
>)
    ensures
        match answer {
            Ok(payload) => answer_for(format, rendered) == Ok::<
                (Seq<char>, Seq<u8>),
                HandlerError,
            >((payload.content_type@, payload.body@)),
            Err(error) => answer_for(format, rendered) == Err::<
                (Seq<char>, Seq<u8>),
                HandlerError,
            >(error),
        },
{
    match rendered {
        Ok(body) => Ok(Payload { content_type: format.content_type().to_owned(), body }),
        Err(_) => Err(HandlerError::BadImage),
    }
}

/// The response status of an answer: 200 with an image, else the status of
/// the error.
pub fn status_code(answer: &Result<Payload, HandlerError>) -> (code: u16)
    ensures
        code == match answer {
            Ok(_) => STATUS_OK,
            Err(error) => status_of(*error),
        },
{
    match answer {
        Ok(_) => STATUS_OK,
        Err(error) => error.status(),
    }
}

/// A source that was fetched is not fetched again: once `complete` has stored
/// the bytes of a URL in a cache that may hold at least one entry, the lookup
/// that `resolve` makes for the same URL finds those bytes, so the request
/// goes to the engine without a fetch.
pub proof fn lemma_fetched_source_is_found(
    entries: Seq<Entry>,
    limit: nat,
    url: Seq<char>,
    bytes: Seq<u8>,
)
    requires
        limit > 0,
    ensures
        lookup(inserted(entries, limit, key_of(url), bytes), key_of(url)) == Some(bytes),
{
    lemma_inserted_is_found(entries, limit, key_of(url), bytes);
}

} // verus!
