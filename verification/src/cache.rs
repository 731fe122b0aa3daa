//! The incremental query cache: a source registry plus a memoization layer
//! over the two per-target compilations. An entry is reusable exactly when
//! the content it was computed from and the context it was computed under
//! both still match; re-registering changed content therefore invalidates
//! without an explicit invalidation call. Requests for a key that is being
//! computed elsewhere are coalesced: they are told to wait instead of
//! starting a second computation.
//!
//! The toolchain itself runs outside the library: a request that misses
//! hands back the content to compile (`Started`), and the caller reports
//! the toolchain's answer through `complete_js`. A failed computation
//! stores nothing, so the next request retries instead of replaying a
//! stale failure.

use vstd::prelude::*;
use crate::BuildError;
use crate::breadbox::{ImportMap, import_map_matches, view_of_imports};
use crate::sources::Source;
use crate::table::Table;

verus! {

/// Compilation target of a query.
#[derive(Debug, Clone, Copy, PartialEq, Eq, Structural)]
pub enum Target {
    Browser,
    Server,
}

/// How urgently a recorded disk read can go stale. A performance hint
/// only: no contract depends on it.
#[derive(Debug, Clone, Copy, PartialEq, Eq, Structural)]
pub enum Durability {
    Low,
    High,
}

/// One memoized compilation. Never partially written: computed first,
/// then stored whole.
pub struct CacheEntry {
    /// The compiled output.
    pub value: String,
    /// The source content the value was computed from.
    pub input_fingerprint: String,
    /// The import map the value was computed under; nothing for the
    /// server target, which takes no context.
    pub context_fingerprint: Option<ImportMap>,
}

pub struct Cache {
    pub sources: Table<Source>,
    pub browser_entries: Table<CacheEntry>,
    pub server_entries: Table<CacheEntry>,
    pub browser_in_flight: Table<()>,
    pub server_in_flight: Table<()>,
    /// How many computations have been started: the observable count of
    /// toolchain invocations. Saturates instead of wrapping.
    pub invocations: u64,
    pub reads: Table<(String, Durability)>,
}

/// The context a request runs under, as mathematical content.
pub open spec fn ctx_of(c: Option<&ImportMap>) -> Option<Seq<(Seq<char>, Seq<char>)>> {
    match c {
        Some(m) => Some(view_of_imports(m.imports@)),
        None => None,
    }
}

/// The context an entry was stored under, as mathematical content.
pub open spec fn stored_ctx_of(c: Option<ImportMap>) -> Option<Seq<(Seq<char>, Seq<char>)>> {
    match c {
        Some(m) => Some(view_of_imports(m.imports@)),
        None => None,
    }
}

pub open spec fn sat_inc(x: u64) -> u64 {
    if x < u64::MAX {
        (x + 1) as u64
    } else {
        x
    }
}

/// What a request returns, reduced to its kind and payload.
pub enum ReqKind {
    /// The key's source is not registered.
    Missing,
    /// Answered from the cache with this value.
    Ready(Seq<char>),
    /// Another computation for the key is in flight; wait for it.
    Pending,
    /// A computation was started; the caller runs the toolchain.
    Started,
}

impl Cache {
    pub open spec fn wf(self) -> bool {
        &&& self.sources.wf()
        &&& self.browser_entries.wf()
        &&& self.server_entries.wf()
        &&& self.browser_in_flight.wf()
        &&& self.server_in_flight.wf()
        &&& self.reads.wf()
    }

    pub open spec fn source_of(self, id: Seq<char>) -> Option<Source> {
        self.sources.get(id)
    }

    pub open spec fn entry_of(self, id: Seq<char>, t: Target) -> Option<CacheEntry> {
        match t {
            Target::Browser => self.browser_entries.get(id),
            Target::Server => self.server_entries.get(id),
        }
    }

    pub open spec fn in_flight(self, id: Seq<char>, t: Target) -> bool {
        match t {
            Target::Browser => self.browser_in_flight.get(id) is Some,
            Target::Server => self.server_in_flight.get(id) is Some,
        }
    }

    pub open spec fn read_of(self, path: Seq<char>) -> Option<Seq<char>> {
        match self.reads.get(path) {
            Some(rec) => Some(rec.0@),
            None => None,
        }
    }

    /// The value the cache can answer for this key right now: the stored
    /// entry's value, provided the entry was computed from the source
    /// content as it currently stands and under the requested context.
    pub open spec fn current_value(
        self,
        id: Seq<char>,
        t: Target,
        ctx: Option<Seq<(Seq<char>, Seq<char>)>>,
    ) -> Option<Seq<char>> {
        match (self.entry_of(id, t), self.source_of(id)) {
            (Some(e), Some(src)) => if e.input_fingerprint@ == src.source@ && stored_ctx_of(
                e.context_fingerprint,
            ) == ctx {
                Some(e.value@)
            } else {
                None
            },
            _ => None,
        }
    }
}

/// How a request is answered, as a function of the cache state.
pub open spec fn spec_request_outcome(
    c: Cache,
    id: Seq<char>,
    t: Target,
    ctx: Option<Seq<(Seq<char>, Seq<char>)>>,
) -> ReqKind {
    if c.source_of(id) is None {
        ReqKind::Missing
    } else {
        match c.current_value(id, t, ctx) {
            Some(v) => ReqKind::Ready(v),
            None => if c.in_flight(id, t) {
                ReqKind::Pending
            } else {
                ReqKind::Started
            },
        }
    }
}

/// What one request does to the state, seen through this key: nothing,
/// unless it starts a computation, which marks the key in flight and
/// counts one invocation.
pub open spec fn request_step_frame(
    pre: Cache,
    post: Cache,
    id: Seq<char>,
    t: Target,
    ctx: Option<Seq<(Seq<char>, Seq<char>)>>,
) -> bool {
    &&& post.current_value(id, t, ctx) == pre.current_value(id, t, ctx)
    &&& post.source_of(id) == pre.source_of(id)
    &&& match spec_request_outcome(pre, id, t, ctx) {
        ReqKind::Started => post.in_flight(id, t) && post.invocations == sat_inc(pre.invocations),
        _ => post.in_flight(id, t) == pre.in_flight(id, t) && post.invocations == pre.invocations,
    }
}

/// A request's exec answer, reduced to its kind.
pub open spec fn outcome_kind(r: Result<JsRequestOutcome, BuildError>) -> ReqKind {
    match r {
        Err(_) => ReqKind::Missing,
        Ok(JsRequestOutcome::Ready { code }) => ReqKind::Ready(code@),
        Ok(JsRequestOutcome::Pending) => ReqKind::Pending,
        Ok(JsRequestOutcome::Started { .. }) => ReqKind::Started,
    }
}

/// The answer to one compilation request.
#[derive(Debug)]
pub enum JsRequestOutcome {
    /// Answered from the cache.
    Ready { code: String },
    /// A computation was started and counted; compile this content and
    /// report the result through `complete_js`.
    Started { source: String },
    /// A computation for this key is already in flight: await it instead
    /// of starting another.
    Pending,
}

/// An empty cache.
pub fn init() -> (c: Cache)
    ensures
        c.wf(),
        forall|id: Seq<char>| c.source_of(id) is None,
        forall|id: Seq<char>, t: Target| c.entry_of(id, t) is None,
        forall|id: Seq<char>, t: Target| !c.in_flight(id, t),
        forall|p: Seq<char>| c.read_of(p) is None,
        c.invocations == 0,
{
    Cache {
        sources: Table::new(),
        browser_entries: Table::new(),
        server_entries: Table::new(),
        browser_in_flight: Table::new(),
        server_in_flight: Table::new(),
        invocations: 0,
        reads: Table::new(),
    }
}

impl Cache {
    /// Idempotent upsert of a source. No entry is touched: entries
    /// computed from other content stop matching by comparison alone.
    pub fn set_source(&mut self, key: &str, source: Source)
        requires
            old(self).wf(),
        ensures
            final(self).wf(),
            final(self).source_of(key@) == Some(source),
            forall|id: Seq<char>| id != key@ ==> final(self).source_of(id) == old(
                self,
            ).source_of(id),
            forall|id: Seq<char>, t: Target| final(self).entry_of(id, t) == old(self).entry_of(
                id,
                t,
            ),
            forall|id: Seq<char>, t: Target| final(self).in_flight(id, t) == old(self).in_flight(
                id,
                t,
            ),
            forall|p: Seq<char>| final(self).read_of(p) == old(self).read_of(p),
            final(self).invocations == old(self).invocations,
    {
        self.sources.set(key, source);
    }

    /// Records what a disk read returned, so later reads of the path are
    /// answered from the registry. Recording again is the explicit
    /// re-read. The durability is a hint; correctness never depends on it.
    pub fn record_read(&mut self, path: &str, content: &str, durability: Durability)
        requires
            old(self).wf(),
        ensures
            final(self).wf(),
            final(self).read_of(path@) == Some(content@),
            forall|p: Seq<char>| p != path@ ==> final(self).read_of(p) == old(self).read_of(p),
            forall|id: Seq<char>| final(self).source_of(id) == old(self).source_of(id),
            forall|id: Seq<char>, t: Target| final(self).entry_of(id, t) == old(self).entry_of(
                id,
                t,
            ),
            forall|id: Seq<char>, t: Target| final(self).in_flight(id, t) == old(self).in_flight(
                id,
                t,
            ),
            final(self).invocations == old(self).invocations,
    {
        self.reads.set(path, (content.to_owned(), durability));
    }

    /// The recorded content of a path, or `NotFound` when none was
    /// recorded.
    pub fn read(&self, path: &str) -> (r: Result<String, BuildError>)
        ensures
            match r {
                Ok(content) => self.read_of(path@) == Some(content@),
                Err(e) => {
                    &&& self.read_of(path@) is None
                    &&& e matches BuildError::NotFound { id } && id@ == path@
                },
            },
    {
        match self.reads.get_ref(path) {
            Some(rec) => Ok(rec.0.clone()),
            None => Err(BuildError::NotFound { id: path.to_owned() }),
        }
    }

    /// One compilation request, coalesced: a cache hit is answered at
    /// once; a key already being computed is told to wait; otherwise the
    /// computation is started and counted, and the caller compiles the
    /// returned content.
    pub fn request_js(&mut self, key: &str, target: Target, context: Option<&ImportMap>) -> (r:
        Result<JsRequestOutcome, BuildError>)
        requires
            old(self).wf(),
        ensures
            final(self).wf(),
            outcome_kind(r) == spec_request_outcome(*old(self), key@, target, ctx_of(context)),
            request_step_frame(*old(self), *final(self), key@, target, ctx_of(context)),
            forall|id: Seq<char>| final(self).source_of(id) == old(self).source_of(id),
            forall|id: Seq<char>, t2: Target| final(self).entry_of(id, t2) == old(self).entry_of(
                id,
                t2,
            ),
            forall|id: Seq<char>, t2: Target|
                !(id == key@ && t2 == target) ==> final(self).in_flight(id, t2) == old(
                    self,
                ).in_flight(id, t2),
            forall|p: Seq<char>| final(self).read_of(p) == old(self).read_of(p),
            match r {
                Ok(JsRequestOutcome::Ready { code }) => old(self).current_value(
                    key@,
                    target,
                    ctx_of(context),
                ) == Some(code@),
                Ok(JsRequestOutcome::Started { source }) => match old(self).source_of(key@) {
                    Some(src) => source@ == src.source@,
                    None => false,
                },
                Ok(JsRequestOutcome::Pending) => true,
                Err(e) => e matches BuildError::NotFound { id } && id@ == key@,
            },
    {
        let src_content: String = match self.sources.get_ref(key) {
            Some(src) => src.source.clone(),
            None => {
                return Err(BuildError::NotFound { id: key.to_owned() });
            },
        };
        let hit: Option<String> = match target {
            Target::Browser => match self.browser_entries.get_ref(key) {
                Some(e) => {
                    if e.input_fingerprint == src_content && context_matches(
                        &e.context_fingerprint,
                        context,
                    ) {
                        Some(e.value.clone())
                    } else {
                        None
                    }
                },
                None => None,
            },
            Target::Server => match self.server_entries.get_ref(key) {
                Some(e) => {
                    if e.input_fingerprint == src_content && context_matches(
                        &e.context_fingerprint,
                        context,
                    ) {
                        Some(e.value.clone())
                    } else {
                        None
                    }
                },
                None => None,
            },
        };
        if let Some(code) = hit {
            return Ok(JsRequestOutcome::Ready { code });
        }
        let flying = match target {
            Target::Browser => self.browser_in_flight.get_ref(key).is_some(),
            Target::Server => self.server_in_flight.get_ref(key).is_some(),
        };
        if flying {
            return Ok(JsRequestOutcome::Pending);
        }
        match target {
            Target::Browser => self.browser_in_flight.set(key, ()),
            Target::Server => self.server_in_flight.set(key, ()),
        }
        self.invocations = if self.invocations < u64::MAX {
            self.invocations + 1
        } else {
            self.invocations
        };
        Ok(JsRequestOutcome::Started { source: src_content })
    }

    /// Reports what the toolchain returned for a started computation. A
    /// success is stored whole and handed back; a failure stores nothing
    /// — the entry stays absent so the next request retries — and comes
    /// back as a `ToolchainError` carrying the key and the message. The
    /// key stops being in flight either way.
    pub fn complete_js(
        &mut self,
        key: &str,
        target: Target,
        context: Option<&ImportMap>,
        compiled_from: &str,
        outcome: Result<String, String>,
    ) -> (r: Result<String, BuildError>)
        requires
            old(self).wf(),
        ensures
            final(self).wf(),
            forall|id: Seq<char>| final(self).source_of(id) == old(self).source_of(id),
            forall|p: Seq<char>| final(self).read_of(p) == old(self).read_of(p),
            !final(self).in_flight(key@, target),
            forall|id: Seq<char>, t2: Target|
                !(id == key@ && t2 == target) ==> final(self).in_flight(id, t2) == old(
                    self,
                ).in_flight(id, t2),
            final(self).invocations == old(self).invocations,
            forall|id: Seq<char>, t2: Target|
                !(id == key@ && t2 == target) ==> final(self).entry_of(id, t2) == old(
                    self,
                ).entry_of(id, t2),
            match (outcome, r) {
                (Ok(code), Ok(rcode)) => {
                    &&& rcode@ == code@
                    &&& match final(self).entry_of(key@, target) {
                        Some(e) => {
                            &&& e.value@ == code@
                            &&& e.input_fingerprint@ == compiled_from@
                            &&& stored_ctx_of(e.context_fingerprint) == ctx_of(context)
                        },
                        None => false,
                    }
                },
                (Err(msg), Err(e)) => {
                    &&& e matches BuildError::ToolchainError { id, message } && id@ == key@
                        && message@ == msg@
                    &&& final(self).entry_of(key@, target) == old(self).entry_of(key@, target)
                },
                _ => false,
            },
    {
        match target {
            Target::Browser => self.browser_in_flight.remove(key),
            Target::Server => self.server_in_flight.remove(key),
        }
        match outcome {
            Ok(code) => {
                let rcode = code.clone();
                let entry = CacheEntry {
                    value: code,
                    input_fingerprint: compiled_from.to_owned(),
                    context_fingerprint: match context {
                        Some(m) => Some(m.duplicate()),
                        None => None,
                    },
                };
                match target {
                    Target::Browser => self.browser_entries.set(key, entry),
                    Target::Server => self.server_entries.set(key, entry),
                }
                Ok(rcode)
            },
            Err(msg) => {
                Err(BuildError::ToolchainError { id: key.to_owned(), message: msg })
            },
        }
    }

    /// The memoized browser output for a key, if the cache can answer it
    /// under this import map right now.
    pub fn get_js_for_browser(&self, key: &str, import_map: &ImportMap) -> (r: Option<String>)
        ensures
            match r {
                Some(code) => self.current_value(
                    key@,
                    Target::Browser,
                    Some(view_of_imports(import_map.imports@)),
                ) == Some(code@),
                None => self.current_value(
                    key@,
                    Target::Browser,
                    Some(view_of_imports(import_map.imports@)),
                ) is None,
            },
    {
        self.lookup_current(key, Target::Browser, Some(import_map))
    }

    /// The memoized server output for a key, if the cache can answer it
    /// right now.
    pub fn get_js_for_server(&self, key: &str) -> (r: Option<String>)
        ensures
            match r {
                Some(code) => self.current_value(key@, Target::Server, None) == Some(code@),
                None => self.current_value(key@, Target::Server, None) is None,
            },
    {
        self.lookup_current(key, Target::Server, None)
    }

    fn lookup_current(&self, key: &str, target: Target, context: Option<&ImportMap>) -> (r: Option<
        String,
    >)
        ensures
            match r {
                Some(code) => self.current_value(key@, target, ctx_of(context)) == Some(code@),
                None => self.current_value(key@, target, ctx_of(context)) is None,
            },
    {
        let src = match self.sources.get_ref(key) {
            Some(src) => src,
            None => {
                return None;
            },
        };
        let entry = match target {
            Target::Browser => self.browser_entries.get_ref(key),
            Target::Server => self.server_entries.get_ref(key),
        };
        match entry {
            Some(e) => {
                if e.input_fingerprint == src.source && context_matches(
                    &e.context_fingerprint,
                    context,
                ) {
                    Some(e.value.clone())
                } else {
                    None
                }
            },
            None => None,
        }
    }
}

/// Whether a stored context and a requested context are the same map.
fn context_matches(stored: &Option<ImportMap>, requested: Option<&ImportMap>) -> (r: bool)
    ensures
        r == (stored_ctx_of(*stored) == ctx_of(requested)),
{
    match (stored, requested) {
        (None, None) => true,
        (Some(a), Some(b)) => import_map_matches(a, b),
        _ => false,
    }
}

/// Idempotence. Once a computation has been stored for a key — the entry
/// holds what `complete_js` wrote — and the source still has the content
/// it was computed from, a request under the same context is answered
/// from the cache with the stored value, and by `request_js`'s contract
/// such an answer leaves the state, the invocation count included,
/// untouched.
pub proof fn lemma_cache_idempotent(
    c: Cache,
    id: Seq<char>,
    t: Target,
    ctx: Option<Seq<(Seq<char>, Seq<char>)>>,
    stored: CacheEntry,
    src: Source,
)
    requires
        c.entry_of(id, t) == Some(stored),
        c.source_of(id) == Some(src),
        stored.input_fingerprint@ == src.source@,
        stored_ctx_of(stored.context_fingerprint) == ctx,
    ensures
        spec_request_outcome(c, id, t, ctx) == ReqKind::Ready(stored.value@),
{
}

/// Invalidation. When a source was re-registered with content other than
/// what the stored entry was computed from (or no entry exists), and no
/// computation is in flight, the next request starts a fresh computation
/// — the toolchain is invoked again for the key.
pub proof fn lemma_cache_invalidation(
    c: Cache,
    id: Seq<char>,
    t: Target,
    ctx: Option<Seq<(Seq<char>, Seq<char>)>>,
    src: Source,
)
    requires
        c.source_of(id) == Some(src),
        match c.entry_of(id, t) {
            Some(e) => e.input_fingerprint@ != src.source@,
            None => true,
        },
        !c.in_flight(id, t),
    ensures
        spec_request_outcome(c, id, t, ctx) == ReqKind::Started,
{
}

/// The state reached after `i` requests of a coalesced run: the key is in
/// flight, still unanswerable from the cache, and exactly one invocation
/// has been counted.
proof fn lemma_coalescing_invariant(
    states: Seq<Cache>,
    outcomes: Seq<ReqKind>,
    id: Seq<char>,
    t: Target,
    ctx: Option<Seq<(Seq<char>, Seq<char>)>>,
    i: int,
)
    requires
        states.len() == outcomes.len() + 1,
        states[0].current_value(id, t, ctx) is None,
        states[0].source_of(id) is Some,
        !states[0].in_flight(id, t),
        forall|j: int| #![trigger outcomes[j]] 0 <= j < outcomes.len() ==> outcomes[j]
            == spec_request_outcome(states[j], id, t, ctx) && request_step_frame(
            states[j],
            states[j + 1],
            id,
            t,
            ctx,
        ),
        1 <= i <= outcomes.len(),
    ensures
        states[i].in_flight(id, t),
        states[i].current_value(id, t, ctx) is None,
        states[i].source_of(id) is Some,
        states[i].invocations == sat_inc(states[0].invocations),
    decreases i,
{
    if i == 1 {
        assert(outcomes[0] == spec_request_outcome(states[0], id, t, ctx));
        assert(request_step_frame(states[0], states[1], id, t, ctx));
        assert(spec_request_outcome(states[0], id, t, ctx) == ReqKind::Started);
    } else {
        lemma_coalescing_invariant(states, outcomes, id, t, ctx, i - 1);
        assert(outcomes[i - 1] == spec_request_outcome(states[i - 1], id, t, ctx));
        assert(request_step_frame(states[i - 1], states[i], id, t, ctx));
        assert(spec_request_outcome(states[i - 1], id, t, ctx) == ReqKind::Pending);
    }
}

/// Coalescing. A run of requests for one key that starts with the key
/// uncomputed and sees no completion in between behaves single-flight:
/// the first request starts the one computation, every later request is
/// told to wait, and exactly one invocation is counted over the whole
/// run. The hypotheses are precisely what `request_js` ensures of each
/// call.
pub proof fn lemma_cache_coalescing(
    states: Seq<Cache>,
    outcomes: Seq<ReqKind>,
    id: Seq<char>,
    t: Target,
    ctx: Option<Seq<(Seq<char>, Seq<char>)>>,
)
    requires
        states.len() == outcomes.len() + 1,
        outcomes.len() >= 1,
        states[0].current_value(id, t, ctx) is None,
        states[0].source_of(id) is Some,
        !states[0].in_flight(id, t),
        forall|j: int| #![trigger outcomes[j]] 0 <= j < outcomes.len() ==> outcomes[j]
            == spec_request_outcome(states[j], id, t, ctx) && request_step_frame(
            states[j],
            states[j + 1],
            id,
            t,
            ctx,
        ),
    ensures
        outcomes[0] == ReqKind::Started,
        forall|j: int| 1 <= j < outcomes.len() ==> outcomes[j] == ReqKind::Pending,
        states.last().invocations == sat_inc(states[0].invocations),
{
    assert(spec_request_outcome(states[0], id, t, ctx) == ReqKind::Started);
    assert forall|j: int| 1 <= j < outcomes.len() implies outcomes[j] == ReqKind::Pending by {
        lemma_coalescing_invariant(states, outcomes, id, t, ctx, j);
    }
    lemma_coalescing_invariant(states, outcomes, id, t, ctx, outcomes.len() as int);
}

} // verus!
