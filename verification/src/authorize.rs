//! Who may do what: a request is traced to a machine of the tailnet, and the machine to what it is
//! granted. Sources are limited in how often they may ask.
//!
//! Times are milliseconds of a clock that never goes back.
use vstd::prelude::*;
use vstd::string::*;

use crate::access::{
    entry_of, find_entry, grants, is_for, law_revoked_machine_is_granted_nothing, without_entry,
};
use crate::domain::{is_tailscale_address, tailscale_address, ControlCapability, IpAddr};
use crate::ports::{holds_capability, AllowedController, MeshNodeIdentity, PortResult};
use crate::replay::elapsed;
use crate::seqs::{
    keep_when, lemma_filter_nothing, lemma_filter_places, lemma_first_where_at, lemma_first_where_none,
};

verus! {

pub const IDENTITY_CACHE_TTL_MILLIS: u64 = 15_000;

pub const IDENTITY_CACHE_CAPACITY: usize = 512;

pub const ALLOWLIST_CACHE_TTL_MILLIS: u64 = 2_000;

pub const MAX_CONCURRENT_IDENTITY_LOOKUPS: usize = 8;

pub const IDENTITY_LOOKUP_TIMEOUT_MILLIS: u64 = 5_000;

pub const RATE_LIMIT_BURST: u32 = 60;

pub const RATE_LIMIT_PER_SECOND: u32 = 5;

pub const RATE_LIMIT_TRACKED_SOURCES: usize = 1024;

/// A machine that may make a request.
#[derive(Debug, PartialEq, Eq)]
pub struct AuthorizedPeer {
    pub tailnet_node_id: String,
    pub capabilities: Vec<ControlCapability>,
}

impl AuthorizedPeer {
    pub fn allows(&self, capability: ControlCapability) -> (r: bool)
        ensures
            r == self.capabilities@.contains(capability),
    {
        holds_capability(&self.capabilities, capability)
    }
}

#[derive(Clone, Copy, Debug, PartialEq, Eq, Structural)]
pub enum AuthorizationError {
    RateLimited,
    Unavailable,
    Unauthorized,
    Forbidden,
    AccessStoreFailed,
    OutsideTailnet,
}

/// What a source may still ask for. A request costs a token; tokens are counted in thousandths.
#[derive(Clone, Copy, Debug, PartialEq, Eq, Structural)]
pub struct Bucket {
    pub source: IpAddr,
    pub millitokens: u64,
    pub updated_at: u64,
}

/// A limit on requests: a burst, and a steady rate after it.
#[derive(Debug)]
pub struct RateLimiter {
    buckets: Vec<Bucket>,
    burst: u32,
    per_second: u32,
    capacity: usize,
}

/// The thousandths of a token that a bucket holds at this time.
pub open spec fn refilled(bucket: Bucket, burst: u32, per_second: u32, now: u64) -> int {
    let full = burst * 1000;
    let held = bucket.millitokens + elapsed(now, bucket.updated_at) * per_second;
    if held < full {
        held
    } else {
        full
    }
}

/// The buckets that are not full at this time: only these say anything about their source.
pub open spec fn not_full(burst: u32, per_second: u32, now: u64) -> spec_fn(Bucket) -> bool {
    |b: Bucket| b.millitokens + elapsed(now, b.updated_at) * per_second < burst * 1000
}

pub open spec fn distinct_sources(s: Seq<Bucket>) -> bool {
    forall|i: int, j: int| 0 <= i < j < s.len() ==> (#[trigger] s[i]).source != (#[trigger] s[j]).source
}

pub open spec fn has_source(s: Seq<Bucket>, source: IpAddr) -> bool {
    exists|i: int| 0 <= i < s.len() && (#[trigger] s[i]).source == source
}

pub open spec fn source_at(s: Seq<Bucket>, source: IpAddr) -> int {
    choose|i: int| 0 <= i < s.len() && (#[trigger] s[i]).source == source
}

fn find_source(v: &Vec<Bucket>, source: IpAddr) -> (r: Option<usize>)
    requires
        distinct_sources(v@),
    ensures
        match r {
            Some(i) => i < v@.len() && has_source(v@, source) && i == source_at(v@, source),
            None => !has_source(v@, source),
        },
{
    let mut i: usize = 0;
    while i < v.len()
        invariant
            i <= v@.len(),
            distinct_sources(v@),
            forall|k: int| 0 <= k < i ==> (#[trigger] v@[k]).source != source,
        decreases v@.len() - i,
    {
        if v[i].source == source {
            proof {
                assert(v@[i as int].source == source);
                let c = source_at(v@, source);
                assert(0 <= c < v@.len() && v@[c].source == source);
                if c < i {
                    assert(v@[c].source != v@[i as int].source);
                } else if c > i {
                    assert(v@[i as int].source != v@[c].source);
                }
            }
            return Some(i);
        }
        i += 1;
    }
    None
}

fn held_millitokens(bucket: &Bucket, per_second: u32, now: u64) -> (r: u128)
    ensures
        r == bucket.millitokens + elapsed(now, bucket.updated_at) * per_second,
{
    let passed: u64 = if now >= bucket.updated_at {
        now - bucket.updated_at
    } else {
        0
    };
    assert(passed * per_second <= 0xffff_ffff_ffff_ffff * 0xffff_ffff) by (nonlinear_arith)
        requires
            passed <= 0xffff_ffff_ffff_ffff,
            per_second <= 0xffff_ffff,
    ;
    bucket.millitokens as u128 + passed as u128 * per_second as u128
}

/// The state of a limiter.
pub struct LimiterView {
    pub buckets: Seq<Bucket>,
    pub burst: u32,
    pub per_second: u32,
    pub capacity: usize,
}

impl View for RateLimiter {
    type V = LimiterView;

    closed spec fn view(&self) -> LimiterView {
        LimiterView {
            buckets: self.buckets@,
            burst: self.burst,
            per_second: self.per_second,
            capacity: self.capacity,
        }
    }
}

impl LimiterView {
    pub open spec fn wf(self) -> bool {
        distinct_sources(self.buckets)
    }

    /// The buckets that a request of this source finds: where there is no room for a new source,
    /// those that say nothing are dropped.
    pub open spec fn making_room(self, source: IpAddr, now: u64) -> Seq<Bucket> {
        if self.buckets.len() >= self.capacity && !has_source(self.buckets, source) {
            self.buckets.filter(not_full(self.burst, self.per_second, now))
        } else {
            self.buckets
        }
    }

    /// The bucket of a source among these, or a full one.
    pub open spec fn bucket_of(self, buckets: Seq<Bucket>, source: IpAddr, now: u64) -> Bucket {
        if has_source(buckets, source) {
            buckets[source_at(buckets, source)]
        } else {
            Bucket { source, millitokens: (self.burst * 1000) as u64, updated_at: now }
        }
    }

    /// Whether there is room for the source.
    pub open spec fn has_room(self, source: IpAddr, now: u64) -> bool {
        let kept = self.making_room(source, now);
        kept.len() < self.capacity || has_source(kept, source)
    }

    /// Whether a request of the source is let through.
    pub open spec fn lets_through(self, source: IpAddr, now: u64) -> bool {
        self.has_room(source, now) && refilled(
            self.bucket_of(self.making_room(source, now), source, now),
            self.burst,
            self.per_second,
            now,
        ) >= 1000
    }

    /// The buckets afterwards.
    pub open spec fn buckets_after(self, source: IpAddr, now: u64) -> Seq<Bucket> {
        let kept = self.making_room(source, now);
        if !self.has_room(source, now) {
            kept
        } else {
            let held = refilled(
                self.bucket_of(kept, source, now),
                self.burst,
                self.per_second,
                now,
            );
            let bucket = Bucket {
                source,
                millitokens: (if held >= 1000 { held - 1000 } else { held }) as u64,
                updated_at: now,
            };
            if has_source(kept, source) {
                kept.update(source_at(kept, source), bucket)
            } else {
                kept.push(bucket)
            }
        }
    }

    pub open spec fn after(self, source: IpAddr, now: u64) -> LimiterView {
        LimiterView { buckets: self.buckets_after(source, now), ..self }
    }
}

impl RateLimiter {
    pub fn new(burst: u32, per_second: u32, capacity: usize) -> (r: Self)
        ensures
            r@.wf(),
            r@.buckets.len() == 0,
            r@.burst == burst,
            r@.per_second == per_second,
            r@.capacity == capacity,
    {
        RateLimiter { buckets: Vec::new(), burst, per_second, capacity }
    }

    /// Takes in a request of a source. The result is whether it is let through.
    pub fn admit_request(&mut self, source: IpAddr, now: u64) -> (r: bool)
        requires
            old(self)@.wf(),
        ensures
            final(self)@.wf(),
            r == old(self)@.lets_through(source, now),
            final(self)@ == old(self)@.after(source, now),
    {
        if self.buckets.len() >= self.capacity && find_source(&self.buckets, source).is_none() {
            self.prune(now);
        }
        let found = find_source(&self.buckets, source);
        if self.buckets.len() >= self.capacity && found.is_none() {
            return false;
        }
        let full: u64 = self.burst as u64 * 1000;
        let bucket = match found {
            Some(i) => self.buckets[i],
            None => Bucket { source, millitokens: full, updated_at: now },
        };
        let held: u128 = held_millitokens(&bucket, self.per_second, now);
        let level: u64 = if held < full as u128 {
            held as u64
        } else {
            full
        };
        let through = level >= 1000;
        let updated = Bucket {
            source,
            millitokens: if through {
                level - 1000
            } else {
                level
            },
            updated_at: now,
        };
        let ghost kept = self.buckets@;
        match found {
            Some(i) => {
                self.buckets.set(i, updated);
            },
            None => {
                self.buckets.push(updated);
            },
        }
        assert(distinct_sources(self.buckets@)) by {
            assert forall|a: int, b: int| 0 <= a < b < self.buckets@.len() implies (
            #[trigger] self.buckets@[a]).source != (#[trigger] self.buckets@[b]).source by {
                if b < kept.len() {
                    assert(kept[a].source != kept[b].source);
                } else {
                    assert(kept[a].source != source);
                }
            }
        }
        through
    }

    fn prune(&mut self, now: u64)
        requires
            old(self)@.wf(),
        ensures
            final(self)@.wf(),
            final(self)@ == (LimiterView {
                buckets: old(self)@.buckets.filter(
                    not_full(old(self)@.burst, old(self)@.per_second, now),
                ),
                ..old(self)@
            }),
    {
        let burst: u32 = self.burst;
        let per_second: u32 = self.per_second;
        let mut buckets: Vec<Bucket> = Vec::new();
        std::mem::swap(&mut buckets, &mut self.buckets);
        let ghost before = buckets@;
        let ghost p = not_full(burst, per_second, now);
        let keep = |b: &Bucket| -> (r: bool)
            ensures
                r == p(*b),
            { held_millitokens(b, per_second, now) < burst as u128 * 1000 };
        let kept = keep_when(buckets, keep, Ghost(p));
        proof {
            let places = lemma_filter_places(before, p);
            assert forall|i: int, j: int| 0 <= i < j < kept@.len() implies (#[trigger] kept@[i]).source
                != (#[trigger] kept@[j]).source by {
                assert(places[i] < places[j]);
            }
        }
        self.buckets = kept;
    }
}

/// A bucket never holds more than the burst.
pub proof fn law_buckets_never_exceed_the_burst(bucket: Bucket, burst: u32, per_second: u32, now: u64)
    ensures
        refilled(bucket, burst, per_second, now) <= burst * 1000,
{
}

/// Requests are paid for: what a source holds after a request that was let through is a token less
/// than what it held with what has flowed in since.
pub proof fn law_every_request_costs_a_token(limiter: LimiterView, source: IpAddr, now: u64)
    requires
        limiter.wf(),
        limiter.lets_through(source, now),
        has_source(limiter.buckets, source),
    ensures
        ({
            let before = limiter.buckets[source_at(limiter.buckets, source)];
            let i = source_at(limiter.buckets, source);
            let after = limiter.buckets_after(source, now)[i];
            after.source == source && after.millitokens + 1000 <= before.millitokens + elapsed(
                now,
                before.updated_at,
            ) * limiter.per_second
        }),
{
    let i = source_at(limiter.buckets, source);
    assert(0 <= i < limiter.buckets.len() && limiter.buckets[i].source == source);
    let held = refilled(limiter.buckets[i], limiter.burst, limiter.per_second, now);
    assert(0 <= held - 1000 <= u64::MAX);
}

/// A source that has used its burst up waits: with an empty bucket nothing is let through at the
/// same time.
pub proof fn law_an_empty_bucket_lets_nothing_through(limiter: LimiterView, source: IpAddr, now: u64)
    requires
        limiter.wf(),
        has_source(limiter.buckets, source),
        limiter.buckets[source_at(limiter.buckets, source)].millitokens < 1000,
        limiter.buckets[source_at(limiter.buckets, source)].updated_at == now,
    ensures
        !limiter.lets_through(source, now),
{
    let b = limiter.buckets[source_at(limiter.buckets, source)];
    assert(elapsed(now, b.updated_at) * limiter.per_second == 0) by (nonlinear_arith)
        requires
            elapsed(now, b.updated_at) == 0,
    ;
}

/// A machine that an address was traced to.
#[derive(Debug)]
pub struct CachedIdentity {
    pub source: IpAddr,
    pub tailnet_node_id: String,
    pub resolved_at: u64,
}

#[derive(Debug)]
pub struct CachedAllowlist {
    pub entries: Vec<AllowedController>,
    pub read_at: u64,
}

/// What came of the question whose address it is.
#[derive(Debug)]
pub enum IdentityLookup {
    /// There was no answer in time.
    TimedOut,
    /// The question failed.
    Failed,
    /// The tailnet does not know the address.
    Unknown,
    Found(MeshNodeIdentity),
}

/// Decides on requests, and remembers for a short time what it has asked for.
#[derive(Debug)]
pub struct Authorizer {
    identities: Vec<CachedIdentity>,
    allowlist: Option<CachedAllowlist>,
    limiter: RateLimiter,
    strict_tailnet_only: bool,
}

/// The identities that are still believed.
pub open spec fn believed(now: u64) -> spec_fn(CachedIdentity) -> bool {
    |c: CachedIdentity| elapsed(now, c.resolved_at) < IDENTITY_CACHE_TTL_MILLIS
}

pub open spec fn distinct_identities(s: Seq<CachedIdentity>) -> bool {
    forall|i: int, j: int| 0 <= i < j < s.len() ==> (#[trigger] s[i]).source != (#[trigger] s[j]).source
}

pub open spec fn has_identity(s: Seq<CachedIdentity>, source: IpAddr) -> bool {
    exists|i: int| 0 <= i < s.len() && (#[trigger] s[i]).source == source
}

pub open spec fn identity_at(s: Seq<CachedIdentity>, source: IpAddr) -> int {
    choose|i: int| 0 <= i < s.len() && (#[trigger] s[i]).source == source
}

/// The machine that an address is believed to be of.
pub open spec fn cached_identity(s: Seq<CachedIdentity>, source: IpAddr, now: u64) -> Option<Seq<char>> {
    if has_identity(s, source) && believed(now)(s[identity_at(s, source)]) {
        Some(s[identity_at(s, source)].tailnet_node_id@)
    } else {
        None
    }
}

fn find_identity(v: &Vec<CachedIdentity>, source: IpAddr) -> (r: Option<usize>)
    requires
        distinct_identities(v@),
    ensures
        match r {
            Some(i) => i < v@.len() && has_identity(v@, source) && i == identity_at(v@, source),
            None => !has_identity(v@, source),
        },
{
    let mut i: usize = 0;
    while i < v.len()
        invariant
            i <= v@.len(),
            distinct_identities(v@),
            forall|k: int| 0 <= k < i ==> (#[trigger] v@[k]).source != source,
        decreases v@.len() - i,
    {
        if v[i].source == source {
            proof {
                assert(v@[i as int].source == source);
                let c = identity_at(v@, source);
                assert(0 <= c < v@.len() && v@[c].source == source);
                if c < i {
                    assert(v@[c].source != v@[i as int].source);
                } else if c > i {
                    assert(v@[i as int].source != v@[c].source);
                }
            }
            return Some(i);
        }
        i += 1;
    }
    None
}

fn is_believed(c: &CachedIdentity, now: u64) -> (r: bool)
    ensures
        r == believed(now)(*c),
{
    (if now >= c.resolved_at {
        now - c.resolved_at
    } else {
        0
    }) < IDENTITY_CACHE_TTL_MILLIS
}

/// The identities with room made for one more, as far as forgetting old ones makes it.
pub open spec fn room_for_identity(s: Seq<CachedIdentity>, now: u64) -> Seq<CachedIdentity> {
    if s.len() >= IDENTITY_CACHE_CAPACITY {
        s.filter(believed(now))
    } else {
        s
    }
}

/// How the remembered identities go on once an address was traced to a machine.
pub open spec fn identities_follow(
    before: Seq<CachedIdentity>,
    after: Seq<CachedIdentity>,
    source: IpAddr,
    id: Seq<char>,
    now: u64,
) -> bool {
    let kept = room_for_identity(before, now);
    if kept.len() >= IDENTITY_CACHE_CAPACITY {
        after == kept
    } else if has_identity(kept, source) {
        let i = identity_at(kept, source);
        &&& after.len() == kept.len()
        &&& forall|k: int| 0 <= k < kept.len() && k != i ==> #[trigger] after[k] == kept[k]
        &&& after[i].source == source && after[i].tailnet_node_id@ == id && after[i].resolved_at == now
    } else {
        &&& after.len() == kept.len() + 1
        &&& after.drop_last() == kept
        &&& after.last().source == source && after.last().tailnet_node_id@ == id
            && after.last().resolved_at == now
    }
}

/// The answer to a request of a machine, by its entry.
pub open spec fn decision(
    entries: Seq<AllowedController>,
    id: Seq<char>,
    required: ControlCapability,
) -> Result<AllowedController, AuthorizationError> {
    match entry_of(entries, id) {
        None => Err(AuthorizationError::Unauthorized),
        Some(entry) => if entry.spec_allows(required) {
            Ok(entry)
        } else {
            Err(AuthorizationError::Forbidden)
        },
    }
}

/// Whether this is the answer to the request: the machine as its entry has it, or the refusal.
pub open spec fn is_decision(
    r: Result<AuthorizedPeer, AuthorizationError>,
    entries: Seq<AllowedController>,
    id: Seq<char>,
    required: ControlCapability,
) -> bool {
    match decision(entries, id, required) {
        Ok(entry) => r matches Ok(peer) && peer.tailnet_node_id == entry.tailnet_node_id
            && peer.capabilities@ == entry.capabilities@,
        Err(error) => r == Err::<AuthorizedPeer, AuthorizationError>(error),
    }
}

/// Whether the list was read so lately that a decision may rest on it.
pub open spec fn fresh_list(list: Option<CachedAllowlist>, now: u64) -> bool {
    list matches Some(list) && elapsed(now, list.read_at) < ALLOWLIST_CACHE_TTL_MILLIS
}

/// How far a request has come on its way through the checks on its sender.
#[derive(Debug, PartialEq, Eq)]
pub enum Admission {
    /// The tailnet is to be asked who the source is; then `identified`.
    Identify,
    /// The list of controllers is to be read for this machine; then `listed`.
    ReadAllowlist(String),
    Decided(Result<AuthorizedPeer, AuthorizationError>),
}

/// A request of a known machine is decided by the list where that is fresh; else the list is read
/// first.
pub open spec fn settled(
    step: Admission,
    list: Option<CachedAllowlist>,
    id: Seq<char>,
    required: ControlCapability,
    now: u64,
) -> bool {
    if fresh_list(list, now) {
        step matches Admission::Decided(r) && is_decision(r, list->0.entries@, id, required)
    } else {
        step matches Admission::ReadAllowlist(name) && name@ == id
    }
}

/// Decides on a request of a machine by the list of controllers.
pub fn decide(entries: &[AllowedController], tailnet_node_id: &str, required: ControlCapability) -> (r:
    Result<AuthorizedPeer, AuthorizationError>)
    ensures
        is_decision(r, entries@, tailnet_node_id@, required),
{
    match find_entry(entries, tailnet_node_id) {
        None => Err(AuthorizationError::Unauthorized),
        Some(entry) => {
            if !entry.allows(required) {
                return Err(AuthorizationError::Forbidden);
            }
            Ok(
                AuthorizedPeer {
                    tailnet_node_id: entry.tailnet_node_id.clone(),
                    capabilities: copy_capabilities(&entry.capabilities),
                },
            )
        },
    }
}

pub fn copy_capabilities(v: &Vec<ControlCapability>) -> (r: Vec<ControlCapability>)
    ensures
        r@ == v@,
{
    let mut r: Vec<ControlCapability> = Vec::new();
    let mut i: usize = 0;
    while i < v.len()
        invariant
            i <= v@.len(),
            r@ == v@.take(i as int),
        decreases v@.len() - i,
    {
        r.push(v[i]);
        assert(v@.take(i + 1) =~= v@.take(i as int).push(v@[i as int]));
        i += 1;
    }
    assert(v@.take(v@.len() as int) =~= v@);
    r
}

impl Authorizer {
    pub closed spec fn identities(&self) -> Seq<CachedIdentity> {
        self.identities@
    }

    pub closed spec fn allowlist(&self) -> Option<CachedAllowlist> {
        self.allowlist
    }

    pub closed spec fn limiter(&self) -> LimiterView {
        self.limiter@
    }

    pub closed spec fn strict(&self) -> bool {
        self.strict_tailnet_only
    }

    pub open spec fn wf(&self) -> bool {
        distinct_identities(self.identities()) && self.limiter().wf()
    }

    /// One that lets only sources of the tailnet ask.
    pub fn new() -> (r: Self)
        ensures
            r.wf(),
            r.identities().len() == 0,
            r.allowlist() is None,
            r.limiter().buckets.len() == 0,
            r.limiter().burst == RATE_LIMIT_BURST,
            r.limiter().per_second == RATE_LIMIT_PER_SECOND,
            r.limiter().capacity == RATE_LIMIT_TRACKED_SOURCES,
            r.strict(),
    {
        Self::with_strict_tailnet_only(true)
    }

    pub fn with_strict_tailnet_only(strict_tailnet_only: bool) -> (r: Self)
        ensures
            r.wf(),
            r.identities().len() == 0,
            r.allowlist() is None,
            r.limiter().buckets.len() == 0,
            r.limiter().burst == RATE_LIMIT_BURST,
            r.limiter().per_second == RATE_LIMIT_PER_SECOND,
            r.limiter().capacity == RATE_LIMIT_TRACKED_SOURCES,
            r.strict() == strict_tailnet_only,
    {
        Authorizer {
            identities: Vec::new(),
            allowlist: None,
            limiter: RateLimiter::new(
                RATE_LIMIT_BURST,
                RATE_LIMIT_PER_SECOND,
                RATE_LIMIT_TRACKED_SOURCES,
            ),
            strict_tailnet_only,
        }
    }

    /// Begins with a request. The result is the machine that the source is believed to be, or
    /// `None` where the tailnet is to be asked.
    fn begin(&mut self, source: IpAddr, now: u64) -> (r: Result<Option<String>, AuthorizationError>)
        requires
            old(self).wf(),
        ensures
            final(self).wf(),
            final(self).identities() == old(self).identities(),
            final(self).allowlist() == old(self).allowlist(),
            final(self).strict() == old(self).strict(),
            if old(self).strict() && !tailscale_address(source) {
                &&& r == Err::<Option<String>, AuthorizationError>(AuthorizationError::OutsideTailnet)
                &&& final(self).limiter() == old(self).limiter()
            } else {
                &&& final(self).limiter() == old(self).limiter().after(source, now)
                &&& if old(self).limiter().lets_through(source, now) {
                    r matches Ok(id) && crate::strings::opt_text(id) == cached_identity(
                        old(self).identities(),
                        source,
                        now,
                    )
                } else {
                    r == Err::<Option<String>, AuthorizationError>(AuthorizationError::RateLimited)
                }
            },
    {
        if self.strict_tailnet_only && !is_tailscale_address(source) {
            return Err(AuthorizationError::OutsideTailnet);
        }
        if !self.limiter.admit_request(source, now) {
            return Err(AuthorizationError::RateLimited);
        }
        match find_identity(&self.identities, source) {
            Some(i) => {
                if is_believed(&self.identities[i], now) {
                    Ok(Some(self.identities[i].tailnet_node_id.clone()))
                } else {
                    Ok(None)
                }
            },
            None => Ok(None),
        }
    }

    /// Takes in what the tailnet said of a source. The time is that at which the request began.
    fn identify(&mut self, source: IpAddr, lookup: IdentityLookup, now: u64) -> (r: Result<
        String,
        AuthorizationError,
    >)
        requires
            old(self).wf(),
        ensures
            final(self).wf(),
            final(self).allowlist() == old(self).allowlist(),
            final(self).limiter() == old(self).limiter(),
            final(self).strict() == old(self).strict(),
            match lookup {
                IdentityLookup::Found(identity) if identity.tailnet_node_id@.len() > 0 => {
                    &&& r == Ok::<String, AuthorizationError>(identity.tailnet_node_id)
                    &&& identities_follow(
                        old(self).identities(),
                        final(self).identities(),
                        source,
                        identity.tailnet_node_id@,
                        now,
                    )
                },
                IdentityLookup::TimedOut => {
                    &&& r == Err::<String, AuthorizationError>(AuthorizationError::Unavailable)
                    &&& final(self).identities() == old(self).identities()
                },
                _ => {
                    &&& r == Err::<String, AuthorizationError>(AuthorizationError::Unauthorized)
                    &&& final(self).identities() == old(self).identities()
                },
            },
    {
        let identity = match lookup {
            IdentityLookup::TimedOut => {
                return Err(AuthorizationError::Unavailable);
            },
            IdentityLookup::Failed => {
                return Err(AuthorizationError::Unauthorized);
            },
            IdentityLookup::Unknown => {
                return Err(AuthorizationError::Unauthorized);
            },
            IdentityLookup::Found(identity) => identity,
        };
        if identity.tailnet_node_id.as_str().is_empty() {
            return Err(AuthorizationError::Unauthorized);
        }
        if self.identities.len() >= IDENTITY_CACHE_CAPACITY {
            self.forget_old(now);
        }
        let ghost kept = self.identities@;
        if self.identities.len() < IDENTITY_CACHE_CAPACITY {
            let cached = CachedIdentity {
                source,
                tailnet_node_id: identity.tailnet_node_id.clone(),
                resolved_at: now,
            };
            match find_identity(&self.identities, source) {
                Some(i) => {
                    self.identities.set(i, cached);
                },
                None => {
                    self.identities.push(cached);
                    assert(self.identities@.drop_last() =~= kept);
                },
            }
            assert(distinct_identities(self.identities@)) by {
                assert forall|a: int, b: int| 0 <= a < b < self.identities@.len() implies (
                #[trigger] self.identities@[a]).source != (#[trigger] self.identities@[b]).source by {
                    if b < kept.len() {
                        assert(kept[a].source != kept[b].source);
                    } else {
                        assert(kept[a].source != source);
                    }
                }
            }
        }
        Ok(identity.tailnet_node_id)
    }

    fn forget_old(&mut self, now: u64)
        requires
            old(self).wf(),
        ensures
            final(self).wf(),
            final(self).allowlist() == old(self).allowlist(),
            final(self).limiter() == old(self).limiter(),
            final(self).strict() == old(self).strict(),
            final(self).identities() == old(self).identities().filter(believed(now)),
    {
        let mut identities: Vec<CachedIdentity> = Vec::new();
        std::mem::swap(&mut identities, &mut self.identities);
        let ghost before = identities@;
        let ghost p = believed(now);
        let keep = |c: &CachedIdentity| -> (r: bool)
            ensures
                r == p(*c),
            { is_believed(c, now) };
        let kept = keep_when(identities, keep, Ghost(p));
        proof {
            let places = lemma_filter_places(before, p);
            assert forall|i: int, j: int| 0 <= i < j < kept@.len() implies (#[trigger] kept@[i]).source
                != (#[trigger] kept@[j]).source by {
                assert(places[i] < places[j]);
            }
        }
        self.identities = kept;
    }

    /// Whether the list of controllers was read so lately that it need not be read again.
    fn has_fresh_allowlist(&self, now: u64) -> (r: bool)
        ensures
            r == fresh_list(self.allowlist(), now),
    {
        match &self.allowlist {
            Some(list) => (if now >= list.read_at {
                now - list.read_at
            } else {
                0
            }) < ALLOWLIST_CACHE_TTL_MILLIS,
            None => false,
        }
    }

    /// Goes on with a request of a known machine.
    fn settle(&self, id: String, required: ControlCapability, now: u64) -> (r: Admission)
        ensures
            settled(r, self.allowlist(), id@, required, now),
    {
        if self.has_fresh_allowlist(now) {
            match &self.allowlist {
                Some(list) => Admission::Decided(
                    decide(list.entries.as_slice(), id.as_str(), required),
                ),
                None => Admission::ReadAllowlist(id),
            }
        } else {
            Admission::ReadAllowlist(id)
        }
    }

    /// Takes in a request of a source for something that needs the capability. A source outside the
    /// tailnet is refused, then one that asks too often; then it is to be known which machine asks,
    /// and what the list grants that machine.
    pub fn authorize(&mut self, source: IpAddr, required: ControlCapability, now: u64) -> (r: Admission)
        requires
            old(self).wf(),
        ensures
            final(self).wf(),
            final(self).identities() == old(self).identities(),
            final(self).allowlist() == old(self).allowlist(),
            final(self).strict() == old(self).strict(),
            if old(self).strict() && !tailscale_address(source) {
                &&& r == Admission::Decided(Err(AuthorizationError::OutsideTailnet))
                &&& final(self).limiter() == old(self).limiter()
            } else {
                &&& final(self).limiter() == old(self).limiter().after(source, now)
                &&& if old(self).limiter().lets_through(source, now) {
                    match cached_identity(old(self).identities(), source, now) {
                        Some(id) => settled(r, old(self).allowlist(), id, required, now),
                        None => r == Admission::Identify,
                    }
                } else {
                    r == Admission::Decided(Err(AuthorizationError::RateLimited))
                }
            },
    {
        match self.begin(source, now) {
            Err(error) => Admission::Decided(Err(error)),
            Ok(None) => Admission::Identify,
            Ok(Some(id)) => self.settle(id, required, now),
        }
    }

    /// Goes on with what the tailnet said of the source. The request began at the time `began`.
    pub fn identified(
        &mut self,
        source: IpAddr,
        required: ControlCapability,
        lookup: IdentityLookup,
        began: u64,
        now: u64,
    ) -> (r: Admission)
        requires
            old(self).wf(),
        ensures
            final(self).wf(),
            final(self).allowlist() == old(self).allowlist(),
            final(self).limiter() == old(self).limiter(),
            final(self).strict() == old(self).strict(),
            match lookup {
                IdentityLookup::Found(identity) if identity.tailnet_node_id@.len() > 0 => {
                    &&& settled(
                        r,
                        old(self).allowlist(),
                        identity.tailnet_node_id@,
                        required,
                        now,
                    )
                    &&& identities_follow(
                        old(self).identities(),
                        final(self).identities(),
                        source,
                        identity.tailnet_node_id@,
                        began,
                    )
                },
                IdentityLookup::TimedOut => {
                    &&& r == Admission::Decided(Err(AuthorizationError::Unavailable))
                    &&& final(self).identities() == old(self).identities()
                },
                _ => {
                    &&& r == Admission::Decided(Err(AuthorizationError::Unauthorized))
                    &&& final(self).identities() == old(self).identities()
                },
            },
    {
        match self.identify(source, lookup, began) {
            Err(error) => Admission::Decided(Err(error)),
            Ok(id) => self.settle(id, required, now),
        }
    }

    /// Decides on a request of a machine by the list as it was read just now.
    pub fn listed(
        &mut self,
        tailnet_node_id: &str,
        required: ControlCapability,
        list: PortResult<Vec<AllowedController>>,
        now: u64,
    ) -> (r: Result<AuthorizedPeer, AuthorizationError>)
        requires
            old(self).wf(),
        ensures
            final(self).wf(),
            final(self).identities() == old(self).identities(),
            final(self).limiter() == old(self).limiter(),
            final(self).strict() == old(self).strict(),
            match list {
                Ok(entries) => {
                    &&& is_decision(r, entries@, tailnet_node_id@, required)
                    &&& final(self).allowlist() == Some(CachedAllowlist { entries, read_at: now })
                },
                Err(_) => {
                    &&& r == Err::<AuthorizedPeer, AuthorizationError>(
                        AuthorizationError::AccessStoreFailed,
                    )
                    &&& final(self).allowlist() == old(self).allowlist()
                },
            },
    {
        match list {
            Err(_) => Err(AuthorizationError::AccessStoreFailed),
            Ok(entries) => {
                let r = decide(entries.as_slice(), tailnet_node_id, required);
                self.allowlist = Some(CachedAllowlist { entries, read_at: now });
                r
            },
        }
    }

    /// Forgets what was asked for.
    pub fn invalidate(&mut self)
        requires
            old(self).wf(),
        ensures
            final(self).wf(),
            final(self).identities().len() == 0,
            final(self).allowlist() is None,
            final(self).limiter() == old(self).limiter(),
            final(self).strict() == old(self).strict(),
    {
        self.identities = Vec::new();
        self.allowlist = None;
    }
}

/// An empty list lets nobody in.
pub proof fn law_an_empty_list_lets_nobody_in(id: Seq<char>, required: ControlCapability)
    ensures
        decision(Seq::empty(), id, required) == Err::<AllowedController, AuthorizationError>(
            AuthorizationError::Unauthorized,
        ),
{
}

/// A machine does only what its entry grants.
pub proof fn law_a_machine_is_limited_to_its_entry(
    entries: Seq<AllowedController>,
    id: Seq<char>,
    required: ControlCapability,
)
    ensures
        decision(entries, id, required) is Ok <==> crate::access::grants(entries, id, required),
{
}

/// A revocation takes effect: a list that was read at the limit of its age or before is read anew
/// before anything is decided, and by a list without the machine it is refused.
pub proof fn law_a_revocation_takes_effect(
    old_list: CachedAllowlist,
    entries: Seq<AllowedController>,
    id: Seq<char>,
    required: ControlCapability,
    now: u64,
)
    ensures
        now >= old_list.read_at + ALLOWLIST_CACHE_TTL_MILLIS ==> forall|step: Admission| #[trigger]
            settled(step, Some(old_list), id, required, now) ==> step is ReadAllowlist,
        decision(without_entry(entries, id), id, required) == Err::<
            AllowedController,
            AuthorizationError,
        >(AuthorizationError::Unauthorized),
{
    law_revoked_machine_is_granted_nothing(entries, id, required);
}

proof fn lemma_source_at(buckets: Seq<Bucket>, i: int)
    requires
        distinct_sources(buckets),
        0 <= i < buckets.len(),
    ensures
        has_source(buckets, buckets[i].source),
        source_at(buckets, buckets[i].source) == i,
{
    let source = buckets[i].source;
    assert(has_source(buckets, source));
    let c = source_at(buckets, source);
    assert(0 <= c < buckets.len() && buckets[c].source == source);
    if c < i {
        assert(buckets[c].source != buckets[i].source);
    } else if c > i {
        assert(buckets[i].source != buckets[c].source);
    }
}

/// A source that asked before is let through exactly when a whole token is left of what it held with
/// what has flowed in since, up to the burst; a request that is let through costs one, a refused one
/// nothing.
pub proof fn law_a_request_needs_a_token(
    limiter: &mut RateLimiter,
    i: int,
    now: u64,
    r: bool,
)
    requires
        old(limiter)@.wf(),
        0 <= i < old(limiter)@.buckets.len(),
        now >= old(limiter)@.buckets[i].updated_at,
        call_ensures(
            RateLimiter::admit_request,
            (limiter, old(limiter)@.buckets[i].source, now),
            r,
        ),
    ensures
        ({
            let before = old(limiter)@.buckets[i];
            let after = final(limiter)@.buckets[i];
            let held = before.millitokens + (now - before.updated_at) * old(limiter)@.per_second;
            let full = 1000 * old(limiter)@.burst;
            &&& r <==> held >= 1000 && full >= 1000
            &&& after.source == before.source
            &&& after.updated_at == now
            &&& r && held <= full ==> after.millitokens == held - 1000
            &&& r && held > full ==> after.millitokens == full - 1000
            &&& !r && held <= full ==> after.millitokens == held
        }),
        final(limiter)@.buckets.len() == old(limiter)@.buckets.len(),
        forall|k: int|
            0 <= k < old(limiter)@.buckets.len() && k != i ==> #[trigger] final(limiter)@.buckets[k]
                == old(limiter)@.buckets[k],
{
    lemma_source_at(old(limiter)@.buckets, i);
    let before = old(limiter)@.buckets[i];
    let per_second = old(limiter)@.per_second;
    assert((now - before.updated_at) * per_second >= 0) by (nonlinear_arith)
        requires
            now >= before.updated_at,
    ;
}

/// A source that did not ask before, where there is room, is let through with a whole burst ahead of
/// it; where every place is taken by a source that still waits, it is refused.
pub proof fn law_a_new_source_has_a_whole_burst(
    limiter: &mut RateLimiter,
    source: IpAddr,
    now: u64,
    r: bool,
)
    requires
        old(limiter)@.wf(),
        forall|k: int|
            0 <= k < old(limiter)@.buckets.len() ==> (#[trigger] old(limiter)@.buckets[k]).source
                != source,
        call_ensures(RateLimiter::admit_request, (limiter, source, now), r),
    ensures
        old(limiter)@.buckets.len() < old(limiter)@.capacity ==> {
            &&& r <==> old(limiter)@.burst >= 1
            &&& final(limiter)@.buckets.len() == old(limiter)@.buckets.len() + 1
            &&& final(limiter)@.buckets.last().source == source
            &&& final(limiter)@.buckets.last().updated_at == now
            &&& r ==> final(limiter)@.buckets.last().millitokens == 1000 * (old(limiter)@.burst - 1)
        },
        old(limiter)@.buckets.len() >= old(limiter)@.capacity && (forall|k: int|
            0 <= k < old(limiter)@.buckets.len() ==> (#[trigger] old(limiter)@.buckets[k]).millitokens
                + elapsed(now, old(limiter)@.buckets[k].updated_at) * old(limiter)@.per_second < 1000
                * old(limiter)@.burst) ==> !r,
{
    let view = old(limiter)@;
    assert(!has_source(view.buckets, source));
    assert(elapsed(now, now) * view.per_second == 0) by (nonlinear_arith)
        requires
            elapsed(now, now) == 0,
    ;
    if view.buckets.len() >= view.capacity {
        let p = not_full(view.burst, view.per_second, now);
        let kept = view.buckets.filter(p);
        let places = lemma_filter_places(view.buckets, p);
        if has_source(kept, source) {
            let k = choose|k: int| 0 <= k < kept.len() && (#[trigger] kept[k]).source == source;
            assert(view.buckets[places[k]].source == source);
        }
        if forall|k: int|
            0 <= k < view.buckets.len() ==> (#[trigger] view.buckets[k]).millitokens + elapsed(
                now,
                view.buckets[k].updated_at,
            ) * view.per_second < 1000 * view.burst {
            assert forall|k: int| 0 <= k < view.buckets.len() implies p(#[trigger] view.buckets[k]) by {}
            lemma_filter_everything(view.buckets, p);
        }
    }
}

proof fn lemma_filter_everything<T>(s: Seq<T>, p: spec_fn(T) -> bool)
    requires
        forall|k: int| 0 <= k < s.len() ==> p(#[trigger] s[k]),
    ensures
        s.filter(p) == s,
    decreases s.len(),
{
    if s.len() > 0 {
        lemma_filter_everything(s.drop_last(), p);
        assert(s =~= s.drop_last().push(s.last()));
        s.drop_last().lemma_filter_push(s.last(), p);
    } else {
        lemma_filter_nothing(s, p);
        assert(s.filter(p) =~= s);
    }
}

/// A source has sixty requests at once and five a second after that, and a thousand and twenty-four
/// sources are told apart.
pub proof fn law_a_source_may_ask_so_often(r: Authorizer)
    requires
        call_ensures(Authorizer::new, (), r),
    ensures
        r.limiter().burst == 60,
        r.limiter().per_second == 5,
        r.limiter().capacity == 1024,
        r.limiter().buckets.len() == 0,
        r.identities().len() == 0,
        r.allowlist() is None,
        r.strict(),
{
}

/// A machine is let in exactly when its entry, the first one for it, holds the capability; one without
/// an entry is not known, one without the capability may not. Who is let in has what its entry holds.
pub proof fn law_an_entry_lets_its_machine_in(
    entries: &[AllowedController],
    id: &str,
    required: ControlCapability,
    i: int,
    r: Result<AuthorizedPeer, AuthorizationError>,
)
    requires
        call_ensures(decide, (entries, id, required), r),
        0 <= i <= entries@.len(),
        forall|k: int| 0 <= k < i ==> (#[trigger] entries@[k]).tailnet_node_id@ != id@,
        i < entries@.len() ==> entries@[i].tailnet_node_id@ == id@,
    ensures
        i == entries@.len() ==> r == Err::<AuthorizedPeer, AuthorizationError>(
            AuthorizationError::Unauthorized,
        ),
        i < entries@.len() ==> {
            &&& r is Ok <==> entries@[i].capabilities@.contains(required)
            &&& r matches Err(error) ==> error == AuthorizationError::Forbidden
            &&& r matches Ok(peer) ==> peer.tailnet_node_id@ == id@ && peer.capabilities@
                == entries@[i].capabilities@
        },
{
    if i < entries@.len() {
        lemma_first_where_at(entries@, is_for(id@), i);
    } else {
        lemma_first_where_none(entries@, is_for(id@));
    }
}

/// Whether a list that was read within the last two seconds grants the capability to a machine.
pub open spec fn granted_of_late(
    list: Option<CachedAllowlist>,
    id: Seq<char>,
    required: ControlCapability,
    now: u64,
) -> bool {
    list matches Some(list) && now < list.read_at + 2_000 && grants(list.entries@, id, required)
}

/// Without asking anyone, a request is granted only to a source of the tailnet that has not asked too
/// often, that was traced to its machine within the last fifteen seconds, and to whose machine a list
/// of the last two seconds grants it.
pub proof fn law_nothing_is_granted_unasked(
    authorizer: &mut Authorizer,
    source: IpAddr,
    required: ControlCapability,
    now: u64,
    r: Admission,
)
    requires
        old(authorizer).wf(),
        call_ensures(Authorizer::authorize, (authorizer, source, required, now), r),
    ensures
        old(authorizer).strict() && !tailscale_address(source) <==> r == Admission::Decided(
            Err(AuthorizationError::OutsideTailnet),
        ),
        r == Admission::Decided(Err(AuthorizationError::RateLimited)) <==> (old(authorizer).strict()
            ==> tailscale_address(source)) && !old(authorizer).limiter().lets_through(source, now),
        r matches Admission::Decided(Ok(peer)) ==> {
            &&& old(authorizer).limiter().lets_through(source, now)
            &&& exists|i: int|
                0 <= i < old(authorizer).identities().len() && (
                #[trigger] old(authorizer).identities()[i]).source == source && now
                    < old(authorizer).identities()[i].resolved_at + 15_000 && granted_of_late(
                    old(authorizer).allowlist(),
                    old(authorizer).identities()[i].tailnet_node_id@,
                    required,
                    now,
                ) && peer.tailnet_node_id@ == old(authorizer).identities()[i].tailnet_node_id@
        },
        (forall|i: int|
            0 <= i < old(authorizer).identities().len() ==> (
            #[trigger] old(authorizer).identities()[i]).source != source || now
                >= old(authorizer).identities()[i].resolved_at + 15_000) ==> r is Identify
            || r matches Admission::Decided(Err(_)),
{
    let s = old(authorizer).identities();
    if has_identity(s, source) {
        let i = identity_at(s, source);
        assert(0 <= i < s.len() && s[i].source == source);
        if let Admission::Decided(Ok(peer)) = r {
            lemma_entry_is_of_its_machine(old(authorizer).allowlist()->0.entries@, s[i].tailnet_node_id@);
        }
    }
}

proof fn lemma_entry_is_of_its_machine(entries: Seq<AllowedController>, id: Seq<char>)
    ensures
        entry_of(entries, id) matches Some(entry) ==> entry.tailnet_node_id@ == id,
    decreases entries.len(),
{
    if entries.len() > 0 {
        lemma_entry_is_of_its_machine(entries.drop_first(), id);
    }
}

/// A source that the tailnet does not answer for is not let in: without an answer in time the service
/// is not there, and any other failure leaves it unknown. One that it answers for is let in only where
/// a list of the last two seconds grants it; else the list is read for it.
pub proof fn law_only_a_known_machine_goes_on(
    authorizer: &mut Authorizer,
    source: IpAddr,
    required: ControlCapability,
    lookup: IdentityLookup,
    began: u64,
    now: u64,
    r: Admission,
)
    requires
        old(authorizer).wf(),
        call_ensures(Authorizer::identified, (authorizer, source, required, lookup, began, now), r),
    ensures
        r !is Identify,
        lookup is TimedOut ==> r == Admission::Decided(Err(AuthorizationError::Unavailable)),
        lookup is Failed || lookup is Unknown ==> r == Admission::Decided(
            Err(AuthorizationError::Unauthorized),
        ),
        lookup matches IdentityLookup::Found(machine) ==> {
            &&& machine.tailnet_node_id@.len() == 0 ==> r == Admission::Decided(
                Err(AuthorizationError::Unauthorized),
            )
            &&& r matches Admission::ReadAllowlist(id) ==> id@ == machine.tailnet_node_id@
            &&& r matches Admission::Decided(Ok(peer)) ==> granted_of_late(
                old(authorizer).allowlist(),
                machine.tailnet_node_id@,
                required,
                now,
            ) && peer.tailnet_node_id@ == machine.tailnet_node_id@
            &&& machine.tailnet_node_id@.len() > 0 ==> (r is ReadAllowlist <==> !(
            old(authorizer).allowlist() matches Some(list) && now < list.read_at + 2_000))
        },
{
    if let Admission::Decided(Ok(peer)) = r {
        if let IdentityLookup::Found(machine) = lookup {
            lemma_entry_is_of_its_machine(
                old(authorizer).allowlist()->0.entries@,
                machine.tailnet_node_id@,
            );
        }
    }
}

/// A source that was traced to its machine is not asked for again within fifteen seconds, as long as
/// fewer than 512 are remembered.
pub proof fn law_an_identity_is_remembered(
    authorizer: &mut Authorizer,
    source: IpAddr,
    required: ControlCapability,
    machine: MeshNodeIdentity,
    began: u64,
    now: u64,
    step: Admission,
    afterwards: &mut Authorizer,
    later: u64,
    r: Admission,
)
    requires
        old(authorizer).wf(),
        old(authorizer).identities().len() < 512,
        machine.tailnet_node_id@.len() > 0,
        call_ensures(
            Authorizer::identified,
            (authorizer, source, required, IdentityLookup::Found(machine), began, now),
            step,
        ),
        *final(authorizer) == *old(afterwards),
        call_ensures(Authorizer::authorize, (afterwards, source, required, later), r),
        old(afterwards).wf(),
        later < began + 15_000,
    ensures
        r !is Identify,
        r matches Admission::ReadAllowlist(id) ==> id@ == machine.tailnet_node_id@,
{
    let before = old(authorizer).identities();
    let after = old(afterwards).identities();
    let i = if has_identity(before, source) {
        identity_at(before, source)
    } else {
        before.len() as int
    };
    assert(after[i].source == source);
    let c = identity_at(after, source);
    assert(0 <= c < after.len() && after[c].source == source);
    if c < i {
        assert(after[c].source != after[i].source);
    } else if c > i {
        assert(after[i].source != after[c].source);
    }
}

/// A list as it was just read decides at once and is kept with its time; one that could not be read
/// lets nobody in.
pub proof fn law_the_list_that_was_read_decides(
    authorizer: &mut Authorizer,
    id: &str,
    required: ControlCapability,
    list: PortResult<Vec<AllowedController>>,
    now: u64,
    r: Result<AuthorizedPeer, AuthorizationError>,
)
    requires
        old(authorizer).wf(),
        call_ensures(Authorizer::listed, (authorizer, id, required, list, now), r),
    ensures
        list is Err ==> r == Err::<AuthorizedPeer, AuthorizationError>(
            AuthorizationError::AccessStoreFailed,
        ) && final(authorizer).allowlist() == old(authorizer).allowlist(),
        list matches Ok(entries) ==> {
            &&& r is Ok <==> grants(entries@, id@, required)
            &&& r matches Err(error) ==> error == (if entry_of(entries@, id@) is None {
                AuthorizationError::Unauthorized
            } else {
                AuthorizationError::Forbidden
            })
            &&& r matches Ok(peer) ==> peer.tailnet_node_id@ == id@
            &&& final(authorizer).allowlist() matches Some(kept) && kept.entries@ == entries@
                && kept.read_at == now
        },
{
    if let Ok(entries) = list {
        lemma_entry_is_of_its_machine(entries@, id@);
    }
}

/// Once what was asked for is forgotten, nobody is let in before the tailnet was asked again.
pub proof fn law_forgetting_asks_again(
    authorizer: &mut Authorizer,
    afterwards: &mut Authorizer,
    source: IpAddr,
    required: ControlCapability,
    now: u64,
    r: Admission,
)
    requires
        old(authorizer).wf(),
        call_ensures(Authorizer::invalidate, (authorizer,), ()),
        *final(authorizer) == *old(afterwards),
        old(afterwards).wf(),
        call_ensures(Authorizer::authorize, (afterwards, source, required, now), r),
    ensures
        r is Identify || r matches Admission::Decided(Err(_)),
        old(afterwards).limiter() == old(authorizer).limiter(),
        old(afterwards).strict() == old(authorizer).strict(),
{
    let s = old(afterwards).identities();
    assert(!has_identity(s, source));
}

/// A machine that was let in may do what its entry holds, and nothing else.
pub proof fn law_a_peer_may_do_what_it_holds(peer: AuthorizedPeer, capability: ControlCapability, r: bool)
    requires
        call_ensures(AuthorizedPeer::allows, (&peer, capability), r),
    ensures
        r <==> peer.capabilities@.contains(capability),
{
}

} // verus!
