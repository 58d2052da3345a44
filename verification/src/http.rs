//! Answering one request: look the payload's key up in the cache, fetch
//! upstream on a miss, store what was fetched, answer.

use crate::key::{cache_key, key_of};
use crate::leveldb::Command;
use crate::types::{CacheResponse, ErrorEnum, Failure, Response};
use vstd::prelude::*;
use vstd::string::StringExecFns;

verus! {

/// Seconds an upstream fetch may take.
pub const REQUEST_TIMEOUT_SECS: u64 = 5;

/// The address a request is forwarded to: the upstream base address directly
/// followed by the request's path.
pub fn upstream_url(base: &str, path: &str) -> (url: String)
    ensures
        url@ == base@ + path@,
{
    String::from_str(base).concat(path)
}

/// What the handler hears back from the work it asked for.
#[derive(Debug, PartialEq, Eq)]
pub enum RequestEvent {
    /// The cache was asked for the key: its entry, if it holds one.
    Found(Option<Vec<u8>>),
    /// The upstream was asked: its response body, or how the fetch failed.
    Fetched(Result<Vec<u8>, String>),
    /// The cache took the entry.
    Inserted,
    /// The put command is in the store actor's mailbox.
    Enqueued,
}

/// A handler event as a value.
pub enum RequestInput {
    Found(Option<Seq<u8>>),
    Fetched(Result<Seq<u8>, Seq<char>>),
    Inserted,
    Enqueued,
}

impl View for RequestEvent {
    type V = RequestInput;

    open spec fn view(&self) -> RequestInput {
        match self {
            RequestEvent::Found(Some(content)) => RequestInput::Found(Some(content@)),
            RequestEvent::Found(None) => RequestInput::Found(None),
            RequestEvent::Fetched(Ok(content)) => RequestInput::Fetched(Ok(content@)),
            RequestEvent::Fetched(Err(detail)) => RequestInput::Fetched(Err(detail@)),
            RequestEvent::Inserted => RequestInput::Inserted,
            RequestEvent::Enqueued => RequestInput::Enqueued,
        }
    }
}

/// The work the handler asks for next.
#[derive(Clone, Copy, Debug, PartialEq, Eq)]
pub enum RequestAction<'a> {
    /// Ask the cache for the key, then answer `Found`.
    Lookup { key: u64 },
    /// Send the body to the address, then answer `Fetched`.
    Fetch { url: &'a str, body: &'a [u8] },
    /// Insert the entry into the cache, replacing what the key held, then
    /// answer `Inserted`.
    Insert { key: u64, content: &'a [u8] },
    /// Enqueue the put command for the store actor, then answer `Enqueued`.
    Persist { key: u64, content: &'a [u8] },
    /// The outcome is known: take it with `finish`.
    Respond,
}

/// A handler action as a value.
pub enum RequestOutput {
    Lookup { key: u64 },
    Fetch { url: Seq<char>, body: Seq<u8> },
    Insert { key: u64, content: Seq<u8> },
    Persist { key: u64, content: Seq<u8> },
    Respond,
}

impl<'a> View for RequestAction<'a> {
    type V = RequestOutput;

    open spec fn view(&self) -> RequestOutput {
        match self {
            RequestAction::Lookup { key } => RequestOutput::Lookup { key: *key },
            RequestAction::Fetch { url, body } => RequestOutput::Fetch { url: url@, body: body@ },
            RequestAction::Insert { key, content } => RequestOutput::Insert {
                key: *key,
                content: content@,
            },
            RequestAction::Persist { key, content } => RequestOutput::Persist {
                key: *key,
                content: content@,
            },
            RequestAction::Respond => RequestOutput::Respond,
        }
    }
}

/// How far the handling of a request has come.
pub enum RequestPhase {
    /// The cache is being asked.
    Lookup,
    /// The upstream is being asked.
    Fetch,
    /// The fetched payload is being inserted into the cache.
    Insert(Seq<u8>),
    /// The fetched payload is being handed to the store actor.
    Persist(Seq<u8>),
    /// The outcome is known.
    Done(Response),
}

/// The handling of one request as a value.
pub struct RequestState {
    /// The cache key of the payload.
    pub key: u64,
    /// The address the payload is forwarded to on a miss.
    pub url: Seq<char>,
    /// The payload.
    pub body: Seq<u8>,
    pub phase: RequestPhase,
}

impl RequestState {
    /// The handling of a request that has just arrived. A request that
    /// carries the no-cache signal skips the lookup.
    pub open spec fn accepted(key: u64, url: Seq<char>, body: Seq<u8>, no_cache: bool) -> RequestState {
        RequestState {
            key,
            url,
            body,
            phase: if no_cache {
                RequestPhase::Fetch
            } else {
                RequestPhase::Lookup
            },
        }
    }

    /// The work the handler is waiting to hear back from.
    pub open spec fn pending(self) -> RequestOutput {
        match self.phase {
            RequestPhase::Lookup => RequestOutput::Lookup { key: self.key },
            RequestPhase::Fetch => RequestOutput::Fetch { url: self.url, body: self.body },
            RequestPhase::Insert(content) => RequestOutput::Insert { key: self.key, content },
            RequestPhase::Persist(content) => RequestOutput::Persist { key: self.key, content },
            RequestPhase::Done(_) => RequestOutput::Respond,
        }
    }

    /// The state after `input`.
    ///
    /// A cache entry is the outcome, as a hit. Without one the upstream is
    /// asked. What it returns is inserted into the cache, then handed to the
    /// store actor, and is then the outcome, as a miss; a failed fetch is the
    /// outcome at once, and nothing is stored. An input that does not answer
    /// the pending work changes nothing.
    pub open spec fn next(self, input: RequestInput) -> RequestState {
        match (self.phase, input) {
            (RequestPhase::Lookup, RequestInput::Found(Some(content))) => RequestState {
                phase: RequestPhase::Done(Response::hit(content)),
                ..self
            },
            (RequestPhase::Lookup, RequestInput::Found(None)) => RequestState {
                phase: RequestPhase::Fetch,
                ..self
            },
            (RequestPhase::Fetch, RequestInput::Fetched(Ok(content))) => RequestState {
                phase: RequestPhase::Insert(content),
                ..self
            },
            (RequestPhase::Fetch, RequestInput::Fetched(Err(detail))) => RequestState {
                phase: RequestPhase::Done(Response::failure(Failure::Remote(detail))),
                ..self
            },
            (RequestPhase::Insert(content), RequestInput::Inserted) => RequestState {
                phase: RequestPhase::Persist(content),
                ..self
            },
            (RequestPhase::Persist(content), RequestInput::Enqueued) => RequestState {
                phase: RequestPhase::Done(Response::miss(content)),
                ..self
            },
            _ => self,
        }
    }

    /// The outcome of the request. A handling that is given up before its
    /// outcome is known ends as a system failure.
    pub open spec fn outcome(self) -> Response {
        match self.phase {
            RequestPhase::Done(response) => response,
            _ => Response::failure(Failure::System),
        }
    }

    /// How many answers the handling can still take before its outcome is
    /// known.
    pub open spec fn steps_left(self) -> nat {
        match self.phase {
            RequestPhase::Lookup => 4,
            RequestPhase::Fetch => 3,
            RequestPhase::Insert(_) => 2,
            RequestPhase::Persist(_) => 1,
            RequestPhase::Done(_) => 0,
        }
    }
}

#[derive(Clone, Copy, Debug, PartialEq, Eq, Structural)]
enum Stage {
    Lookup,
    Fetch,
    Insert,
    Persist,
    Done,
}

/// The handling of one request.
///
/// It decides; the transport carries out. The transport performs `pending()`,
/// reports the result with `step`, and goes on until the pending work is
/// `Respond`; `finish` then yields the outcome.
#[derive(Debug)]
pub struct PostRequest {
    key: u64,
    url: String,
    body: Vec<u8>,
    stage: Stage,
    response: CacheResponse,
}

impl View for PostRequest {
    type V = RequestState;

    closed spec fn view(&self) -> RequestState {
        RequestState {
            key: self.key,
            url: self.url@,
            body: self.body@,
            phase: match self.stage {
                Stage::Lookup => RequestPhase::Lookup,
                Stage::Fetch => RequestPhase::Fetch,
                Stage::Insert => RequestPhase::Insert(self.response@.resp),
                Stage::Persist => RequestPhase::Persist(self.response@.resp),
                Stage::Done => RequestPhase::Done(self.response@),
            },
        }
    }
}

impl PostRequest {
    #[verifier::type_invariant]
    spec fn inv(self) -> bool {
        self.stage is Insert || self.stage is Persist ==> self.response@ == Response::miss(
            self.response@.resp,
        )
    }

    /// Begins to handle a request whose payload has the given cache key.
    pub fn with_key(key: u64, url: String, body: Vec<u8>, no_cache: bool) -> (request: PostRequest)
        ensures
            request@ == RequestState::accepted(key, url@, body@, no_cache),
    {
        let stage = if no_cache {
            Stage::Fetch
        } else {
            Stage::Lookup
        };
        PostRequest { key, url, body, stage, response: CacheResponse::from_err(ErrorEnum::System) }
    }

    /// Begins to handle a request for `path` with payload `body`. The cache key
    /// is derived from the payload alone; the path only says where a miss is
    /// fetched.
    pub fn accept(upstream: &str, path: &str, body: Vec<u8>, no_cache: bool) -> (request:
        PostRequest)
        ensures
            request@ == RequestState::accepted(key_of(body@), upstream@ + path@, body@, no_cache),
    {
        let key = cache_key(body.as_slice());
        PostRequest::with_key(key, upstream_url(upstream, path), body, no_cache)
    }

    /// The cache key of the request.
    pub fn key(&self) -> (key: u64)
        ensures
            key == self@.key,
    {
        self.key
    }

    /// The work to carry out now.
    pub fn pending(&self) -> (action: RequestAction<'_>)
        ensures
            action@ == self@.pending(),
    {
        match self.stage {
            Stage::Lookup => RequestAction::Lookup { key: self.key },
            Stage::Fetch => RequestAction::Fetch {
                url: self.url.as_str(),
                body: self.body.as_slice(),
            },
            Stage::Insert => RequestAction::Insert {
                key: self.key,
                content: self.response.payload(),
            },
            Stage::Persist => RequestAction::Persist {
                key: self.key,
                content: self.response.payload(),
            },
            Stage::Done => RequestAction::Respond,
        }
    }

    /// Takes the answer to the pending work and moves on.
    pub fn step(&mut self, event: RequestEvent)
        ensures
            final(self)@ == old(self)@.next(event@),
    {
        proof {
            use_type_invariant(&*self);
        }
        match (self.stage, event) {
            (Stage::Lookup, RequestEvent::Found(Some(content))) => {
                self.response = CacheResponse::new(content, true);
                self.stage = Stage::Done;
            },
            (Stage::Lookup, RequestEvent::Found(None)) => {
                self.stage = Stage::Fetch;
            },
            (Stage::Fetch, RequestEvent::Fetched(Ok(content))) => {
                self.response = CacheResponse::new(content, false);
                self.stage = Stage::Insert;
            },
            (Stage::Fetch, RequestEvent::Fetched(Err(detail))) => {
                self.response = CacheResponse::from_err(ErrorEnum::Remote(detail));
                self.stage = Stage::Done;
            },
            (Stage::Insert, RequestEvent::Inserted) => {
                self.stage = Stage::Persist;
            },
            (Stage::Persist, RequestEvent::Enqueued) => {
                self.stage = Stage::Done;
            },
            _ => {},
        }
    }

    /// The outcome of the request.
    pub fn finish(self) -> (response: CacheResponse)
        ensures
            response@ == self@.outcome(),
    {
        match self.stage {
            Stage::Done => self.response,
            _ => CacheResponse::from_err(ErrorEnum::System),
        }
    }
}

/// What a request meets: the entries of the cache, the answer the upstream
/// gives to a body sent to an address, and a tally of what has been done so
/// far.
pub struct World {
    /// The entries of the cache.
    pub cache: Map<u64, Seq<u8>>,
    /// What the upstream answers.
    pub upstream: spec_fn(Seq<char>, Seq<u8>) -> Result<Seq<u8>, Seq<char>>,
    /// How many fetches were made.
    pub fetches: nat,
    /// The commands handed to the store actor, in order.
    pub commands: Seq<Command>,
}

impl World {
    /// What the cache answers when asked for `key`.
    pub open spec fn lookup(self, key: u64) -> Option<Seq<u8>> {
        if self.cache.contains_key(key) {
            Some(self.cache[key])
        } else {
            None
        }
    }
}

/// A request handled to its end: the outcome, and the world it leaves.
pub struct Served {
    pub response: Response,
    pub world: World,
}

impl RequestState {
    /// Handles the request to its end in `world`: every piece of pending work
    /// is carried out there and answered.
    pub open spec fn serve(self, world: World) -> Served
        decreases self.steps_left(),
    {
        match self.pending() {
            RequestOutput::Lookup { key } => self.next(RequestInput::Found(world.lookup(key))).serve(
                world,
            ),
            RequestOutput::Fetch { url, body } => self.next(
                RequestInput::Fetched((world.upstream)(url, body)),
            ).serve(World { fetches: world.fetches + 1, ..world }),
            RequestOutput::Insert { key, content } => self.next(RequestInput::Inserted).serve(
                World { cache: world.cache.insert(key, content), ..world },
            ),
            RequestOutput::Persist { key, content } => self.next(RequestInput::Enqueued).serve(
                World { commands: world.commands.push(Command::Put(key, content)), ..world },
            ),
            RequestOutput::Respond => Served { response: self.outcome(), world },
        }
    }
}

/// An entry in the cache is the answer: it is served as a hit, nothing is
/// fetched, and neither the cache nor the store hears of it.
pub proof fn lemma_hit_is_served_from_cache(key: u64, url: Seq<char>, body: Seq<u8>, world: World)
    requires
        world.cache.contains_key(key),
    ensures
        RequestState::accepted(key, url, body, false).serve(world) == (Served {
            response: Response::hit(world.cache[key]),
            world,
        }),
{
    let start = RequestState::accepted(key, url, body, false);
    let found = start.next(RequestInput::Found(world.lookup(key)));
    assert(found.serve(world) == Served { response: Response::hit(world.cache[key]), world });
}

/// What a request leaves behind when the upstream is asked: one fetch more;
/// on success the fetched payload under the request's key in the cache, in
/// place of whatever the key held, and one put command for it; on failure
/// nothing.
pub open spec fn after_fetch(key: u64, url: Seq<char>, body: Seq<u8>, world: World) -> Served {
    match (world.upstream)(url, body) {
        Ok(content) => Served {
            response: Response::miss(content),
            world: World {
                cache: world.cache.insert(key, content),
                fetches: world.fetches + 1,
                commands: world.commands.push(Command::Put(key, content)),
                ..world
            },
        },
        Err(detail) => Served {
            response: Response::failure(Failure::Remote(detail)),
            world: World { fetches: world.fetches + 1, ..world },
        },
    }
}

/// Without an entry in the cache the upstream is asked once, with the
/// request's body at the request's address. Its answer is cached, handed to
/// the store actor and served as a miss; its failure is served as it is and
/// leaves the cache and the store untouched.
pub proof fn lemma_miss_is_fetched_and_stored(key: u64, url: Seq<char>, body: Seq<u8>, world: World)
    requires
        !world.cache.contains_key(key),
    ensures
        RequestState::accepted(key, url, body, false).serve(world) == after_fetch(
            key,
            url,
            body,
            world,
        ),
{
    let start = RequestState::accepted(key, url, body, false);
    let asked = start.next(RequestInput::Found(world.lookup(key)));
    lemma_fetch_runs_to_end(asked, world);
}

/// A request that carries the no-cache signal asks the upstream whatever the
/// cache holds, and what is fetched replaces the entry of its key.
pub proof fn lemma_bypass_overwrites(key: u64, url: Seq<char>, body: Seq<u8>, world: World)
    ensures
        RequestState::accepted(key, url, body, true).pending() == (RequestOutput::Fetch {
            url,
            body,
        }),
        RequestState::accepted(key, url, body, true).serve(world) == after_fetch(
            key,
            url,
            body,
            world,
        ),
        RequestState::accepted(key, url, body, true).serve(world).world.fetches == world.fetches
            + 1,
        (world.upstream)(url, body) matches Ok(content) ==> RequestState::accepted(
            key,
            url,
            body,
            true,
        ).serve(world).world.cache.contains_key(key) && RequestState::accepted(
            key,
            url,
            body,
            true,
        ).serve(world).world.cache[key] == content,
{
    lemma_fetch_runs_to_end(RequestState::accepted(key, url, body, true), world);
}

/// From the fetch on, a request runs to `after_fetch`.
proof fn lemma_fetch_runs_to_end(state: RequestState, world: World)
    requires
        state.phase is Fetch,
    ensures
        state.serve(world) == after_fetch(state.key, state.url, state.body, world),
{
    let counted = World { fetches: world.fetches + 1, ..world };
    let fetched = state.next(RequestInput::Fetched((world.upstream)(state.url, state.body)));
    assert(state.serve(world) == fetched.serve(counted));
    match (world.upstream)(state.url, state.body) {
        Ok(content) => {
            let cached = World { cache: counted.cache.insert(state.key, content), ..counted };
            let inserted = fetched.next(RequestInput::Inserted);
            assert(fetched.serve(counted) == inserted.serve(cached));
            let queued = World {
                commands: cached.commands.push(Command::Put(state.key, content)),
                ..cached
            };
            let enqueued = inserted.next(RequestInput::Enqueued);
            assert(inserted.serve(cached) == enqueued.serve(queued));
            assert(enqueued.serve(queued) == Served {
                response: Response::miss(content),
                world: queued,
            });
        },
        Err(detail) => {
            assert(fetched.serve(counted) == Served {
                response: Response::failure(Failure::Remote(detail)),
                world: counted,
            });
        },
    }
}

/// The path of a request has no part in its cache entry: two requests with
/// the same payload are looked up under the same key wherever they are
/// addressed, and with an entry under that key both are served the same hit.
pub proof fn lemma_path_independence(
    upstream: Seq<char>,
    first_path: Seq<char>,
    second_path: Seq<char>,
    body: Seq<u8>,
    world: World,
)
    ensures
        RequestState::accepted(key_of(body), upstream + first_path, body, false).pending()
            == RequestState::accepted(key_of(body), upstream + second_path, body, false).pending(),
        RequestState::accepted(key_of(body), upstream + first_path, body, false).pending()
            == (RequestOutput::Lookup { key: key_of(body) }),
        world.cache.contains_key(key_of(body)) ==> RequestState::accepted(
            key_of(body),
            upstream + first_path,
            body,
            false,
        ).serve(world) == RequestState::accepted(
            key_of(body),
            upstream + second_path,
            body,
            false,
        ).serve(world),
{
    if world.cache.contains_key(key_of(body)) {
        lemma_hit_is_served_from_cache(key_of(body), upstream + first_path, body, world);
        lemma_hit_is_served_from_cache(key_of(body), upstream + second_path, body, world);
    }
}

/// What one request fetched, the next request with the same payload is served
/// from the cache, at whatever path it is addressed: as a hit, with the same
/// bytes, and without a second fetch.
pub proof fn lemma_fetched_then_hit(
    key: u64,
    url: Seq<char>,
    other_url: Seq<char>,
    body: Seq<u8>,
    no_cache: bool,
    world: World,
)
    requires
        no_cache || !world.cache.contains_key(key),
        (world.upstream)(url, body) is Ok,
    ensures
        RequestState::accepted(key, other_url, body, false).serve(
            RequestState::accepted(key, url, body, no_cache).serve(world).world,
        ) == (Served {
            response: Response::hit((world.upstream)(url, body)->Ok_0),
            world: RequestState::accepted(key, url, body, no_cache).serve(world).world,
        }),
{
    if no_cache {
        lemma_bypass_overwrites(key, url, body, world);
    } else {
        lemma_miss_is_fetched_and_stored(key, url, body, world);
    }
    let left = RequestState::accepted(key, url, body, no_cache).serve(world).world;
    lemma_hit_is_served_from_cache(key, other_url, body, left);
}

} // verus!
