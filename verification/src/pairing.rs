//! Challenges for pairing: each is issued to one controller, can be used once and for a short time,
//! and only so many are issued.
//!
//! Times are milliseconds of a clock that never goes back.
use vstd::prelude::*;
use vstd::string::*;
use rand::RngExt;

use crate::ids::hex_char;
use crate::replay::elapsed;
use crate::seqs::{keep_when, lemma_filter_places, lemma_filter_step};
use crate::strings::same_text;

verus! {

pub const CHALLENGE_TTL_MILLIS: u64 = 120_000;

pub const MAX_OUTSTANDING_PER_OWNER: usize = 2;

pub const MAX_ISSUES_PER_WINDOW: u32 = 5;

pub const ISSUE_WINDOW_MILLIS: u64 = 300_000;

pub const MAX_TRACKED_OWNERS: usize = 256;

#[derive(Clone, Copy, Debug, PartialEq, Eq, Structural)]
pub enum PairingError {
    RateLimited,
    UnknownChallenge,
}

impl PairingError {
    pub open spec fn spec_code(self) -> Seq<char> {
        match self {
            PairingError::RateLimited => "PAIRING_RATE_LIMITED"@,
            PairingError::UnknownChallenge => "PAIRING_CHALLENGE_INVALID"@,
        }
    }

    pub open spec fn spec_message(self) -> Seq<char> {
        match self {
            PairingError::RateLimited =>
                "Too many pairing attempts. Wait a few minutes and try again."@,
            PairingError::UnknownChallenge =>
                "This pairing attempt is no longer valid. Start pairing again."@,
        }
    }

    pub fn code(self) -> (r: &'static str)
        ensures
            r@ == self.spec_code(),
    {
        match self {
            PairingError::RateLimited => "PAIRING_RATE_LIMITED",
            PairingError::UnknownChallenge => "PAIRING_CHALLENGE_INVALID",
        }
    }

    pub fn message(self) -> (r: &'static str)
        ensures
            r@ == self.spec_message(),
    {
        match self {
            PairingError::RateLimited =>
                "Too many pairing attempts. Wait a few minutes and try again.",
            PairingError::UnknownChallenge =>
                "This pairing attempt is no longer valid. Start pairing again.",
        }
    }
}

/// A challenge that was issued and not used yet.
#[derive(Debug)]
pub struct Challenge {
    pub id: String,
    pub owner: String,
    pub expires_at: u64,
}

/// How many challenges a controller was issued since the window began.
#[derive(Debug)]
pub struct IssueCounter {
    pub owner: String,
    pub issues: u32,
    pub window_started_at: u64,
}

/// The challenges that are still good at this time.
pub open spec fn unexpired(now: u64) -> spec_fn(Challenge) -> bool {
    |c: Challenge| c.expires_at > now
}

/// The counters whose window still runs.
pub open spec fn in_window(now: u64) -> spec_fn(IssueCounter) -> bool {
    |c: IssueCounter| elapsed(now, c.window_started_at) < ISSUE_WINDOW_MILLIS
}

pub open spec fn issued_to(owner: Seq<char>) -> spec_fn(Challenge) -> bool {
    |c: Challenge| c.owner@ == owner
}

/// No two challenges have one identifier.
pub open spec fn distinct_challenges(s: Seq<Challenge>) -> bool {
    forall|i: int, j: int| 0 <= i < j < s.len() ==> (#[trigger] s[i]).id@ != (#[trigger] s[j]).id@
}

/// No two counters are for one controller.
pub open spec fn distinct_owners(s: Seq<IssueCounter>) -> bool {
    forall|i: int, j: int| 0 <= i < j < s.len() ==> (#[trigger] s[i]).owner@ != (#[trigger] s[j]).owner@
}

pub open spec fn has_counter(s: Seq<IssueCounter>, owner: Seq<char>) -> bool {
    exists|i: int| 0 <= i < s.len() && (#[trigger] s[i]).owner@ == owner
}

pub open spec fn counter_at(s: Seq<IssueCounter>, owner: Seq<char>) -> int {
    choose|i: int| 0 <= i < s.len() && (#[trigger] s[i]).owner@ == owner
}

pub open spec fn has_challenge(s: Seq<Challenge>, id: Seq<char>) -> bool {
    exists|i: int| 0 <= i < s.len() && (#[trigger] s[i]).id@ == id
}

pub open spec fn challenge_at(s: Seq<Challenge>, id: Seq<char>) -> int {
    choose|i: int| 0 <= i < s.len() && (#[trigger] s[i]).id@ == id
}

fn find_counter(v: &Vec<IssueCounter>, owner: &str) -> (r: Option<usize>)
    requires
        distinct_owners(v@),
    ensures
        match r {
            Some(i) => i < v@.len() && has_counter(v@, owner@) && i == counter_at(v@, owner@),
            None => !has_counter(v@, owner@),
        },
{
    let mut i: usize = 0;
    while i < v.len()
        invariant
            i <= v@.len(),
            distinct_owners(v@),
            forall|k: int| 0 <= k < i ==> (#[trigger] v@[k]).owner@ != owner@,
        decreases v@.len() - i,
    {
        if same_text(v[i].owner.as_str(), owner) {
            proof {
                assert(v@[i as int].owner@ == owner@);
                let c = counter_at(v@, owner@);
                assert(0 <= c < v@.len() && v@[c].owner@ == owner@);
                if c < i {
                    assert(v@[c].owner@ != v@[i as int].owner@);
                } else if c > i {
                    assert(v@[i as int].owner@ != v@[c].owner@);
                }
            }
            return Some(i);
        }
        i += 1;
    }
    None
}

fn find_challenge(v: &Vec<Challenge>, id: &str) -> (r: Option<usize>)
    requires
        distinct_challenges(v@),
    ensures
        match r {
            Some(i) => i < v@.len() && has_challenge(v@, id@) && i == challenge_at(v@, id@),
            None => !has_challenge(v@, id@),
        },
{
    let mut i: usize = 0;
    while i < v.len()
        invariant
            i <= v@.len(),
            distinct_challenges(v@),
            forall|k: int| 0 <= k < i ==> (#[trigger] v@[k]).id@ != id@,
        decreases v@.len() - i,
    {
        if same_text(v[i].id.as_str(), id) {
            proof {
                assert(v@[i as int].id@ == id@);
                let c = challenge_at(v@, id@);
                assert(0 <= c < v@.len() && v@[c].id@ == id@);
                if c < i {
                    assert(v@[c].id@ != v@[i as int].id@);
                } else if c > i {
                    assert(v@[i as int].id@ != v@[c].id@);
                }
            }
            return Some(i);
        }
        i += 1;
    }
    None
}

fn count_issued_to(v: &Vec<Challenge>, owner: &str) -> (r: usize)
    ensures
        r == v@.filter(issued_to(owner@)).len(),
{
    let mut n: usize = 0;
    let mut i: usize = 0;
    let ghost p = issued_to(owner@);
    proof {
        v@.take(0).lemma_filter_len(p);
    }
    while i < v.len()
        invariant
            i <= v@.len(),
            p == issued_to(owner@),
            n == v@.take(i as int).filter(p).len(),
            n <= i,
        decreases v@.len() - i,
    {
        proof {
            lemma_filter_step(v@, p, i as int);
        }
        if same_text(v[i].owner.as_str(), owner) {
            n += 1;
        }
        i += 1;
    }
    assert(v@.take(v@.len() as int) =~= v@);
    n
}

/// The lower-case hexadecimal digits of sixteen bytes.
pub open spec fn hex_of(bytes: Seq<u8>) -> Seq<char> {
    Seq::new(
        2 * bytes.len(),
        |i: int|
            hex_char(
                if i % 2 == 0 {
                    bytes[i / 2] as int / 16
                } else {
                    bytes[i / 2] as int % 16
                },
            ),
    )
}

fn hex_digit_of(d: u8) -> (r: char)
    requires
        d < 16,
    ensures
        r == hex_char(d as int),
{
    if d < 10 {
        (48 + d) as char
    } else {
        (87 + d) as char
    }
}

/// The identifier of a challenge that is made of these bytes.
pub fn challenge_id(bytes: &[u8; 16]) -> (r: String)
    ensures
        r@ == hex_of(bytes@),
{
    let mut out = String::new();
    let mut i: usize = 0;
    while i < 16
        invariant
            i <= 16,
            out@ == hex_of(bytes@.take(i as int)),
        decreases 16 - i,
    {
        let ghost before = out@;
        out.push(hex_digit_of(bytes[i] / 16));
        out.push(hex_digit_of(bytes[i] % 16));
        assert(hex_of(bytes@.take(i + 1)) =~= before.push(hex_char(bytes@[i as int] as int / 16)).push(
            hex_char(bytes@[i as int] as int % 16),
        ));
        i += 1;
    }
    assert(bytes@.take(16) =~= bytes@);
    out
}

/// `RngExt::random` draws sixteen random bytes from the generator of the thread. Nothing is
/// claimed of them.
#[verifier::external_body]
fn random_bytes() -> (r: [u8; 16])
{
    rand::rng().random()
}

/// Whether a text is the hexadecimal form of sixteen bytes.
pub open spec fn is_challenge_id(text: Seq<char>) -> bool {
    exists|bytes: Seq<u8>| bytes.len() == 16 && text == #[trigger] hex_of(bytes)
}

/// A fresh identifier: thirty-two hexadecimal digits.
pub fn random_challenge_id() -> (r: String)
    ensures
        is_challenge_id(r@),
        r@.len() == 32,
        forall|i: int| 0 <= i < r@.len() ==> crate::strings::hex_digit(#[trigger] r@[i]),
{
    let bytes = random_bytes();
    challenge_id(&bytes)
}

/// Keeps the challenges that were issued.
#[derive(Debug)]
pub struct PairingChallenges {
    issued: Vec<Challenge>,
    counters: Vec<IssueCounter>,
    ttl_millis: u64,
}

/// The list with the challenge: in the place of one of the same identifier, or at the end.
pub open spec fn with_challenge(s: Seq<Challenge>, c: Challenge) -> Seq<Challenge> {
    if has_challenge(s, c.id@) {
        s.update(challenge_at(s, c.id@), c)
    } else {
        s.push(c)
    }
}

/// Whether a challenge of that identifier, owner and end was added to the list.
pub open spec fn challenge_added(
    before: Seq<Challenge>,
    after: Seq<Challenge>,
    id: Seq<char>,
    owner: Seq<char>,
    expires_at: u64,
) -> bool {
    exists|c: Challenge|
        c.id@ == id && c.owner@ == owner && c.expires_at == expires_at && after
            == #[trigger] with_challenge(before, c)
}

/// When a challenge that is issued now expires.
pub open spec fn challenge_deadline(now: u64, ttl_millis: u64) -> u64 {
    crate::session::deadline(now, ttl_millis)
}

/// Whether a controller may be issued one more challenge, by how many it was issued of late.
pub open spec fn may_issue(counters: Seq<IssueCounter>, owner: Seq<char>, now: u64) -> bool {
    let kept = counters.filter(in_window(now));
    if has_counter(kept, owner) {
        kept[counter_at(kept, owner)].issues < MAX_ISSUES_PER_WINDOW
    } else {
        kept.len() < MAX_TRACKED_OWNERS
    }
}

/// How the counters go on from there.
pub open spec fn counters_follow(
    before: Seq<IssueCounter>,
    after: Seq<IssueCounter>,
    owner: Seq<char>,
    now: u64,
) -> bool {
    let kept = before.filter(in_window(now));
    if !may_issue(before, owner, now) {
        after == kept
    } else if has_counter(kept, owner) {
        let i = counter_at(kept, owner);
        after == kept.update(
            i,
            IssueCounter { issues: (kept[i].issues + 1) as u32, ..kept[i] },
        )
    } else {
        &&& after.len() == kept.len() + 1
        &&& after.drop_last() == kept
        &&& after.last().owner@ == owner
        &&& after.last().issues == 1
        &&& after.last().window_started_at == now
    }
}

impl PairingChallenges {
    pub closed spec fn issued(&self) -> Seq<Challenge> {
        self.issued@
    }

    pub closed spec fn counters(&self) -> Seq<IssueCounter> {
        self.counters@
    }

    pub closed spec fn ttl(&self) -> u64 {
        self.ttl_millis
    }

    pub open spec fn wf(&self) -> bool {
        distinct_challenges(self.issued()) && distinct_owners(self.counters())
    }

    pub fn new(ttl_millis: u64) -> (r: Self)
        ensures
            r.wf(),
            r.issued().len() == 0,
            r.counters().len() == 0,
            r.ttl() == ttl_millis,
    {
        PairingChallenges { issued: Vec::new(), counters: Vec::new(), ttl_millis }
    }

    pub fn ttl_seconds(&self) -> (r: u64)
        ensures
            r == self.ttl() / 1000,
    {
        self.ttl_millis / 1000
    }

    fn admit_issue(&mut self, owner: &str, now: u64) -> (r: Result<(), PairingError>)
        requires
            old(self).wf(),
        ensures
            final(self).wf(),
            final(self).issued() == old(self).issued(),
            final(self).ttl() == old(self).ttl(),
            counters_follow(old(self).counters(), final(self).counters(), owner@, now),
            r == (if may_issue(old(self).counters(), owner@, now) {
                Ok::<(), PairingError>(())
            } else {
                Err(PairingError::RateLimited)
            }),
    {
        let mut counters: Vec<IssueCounter> = Vec::new();
        std::mem::swap(&mut counters, &mut self.counters);
        let ghost before = counters@;
        let ghost p = in_window(now);
        let running = |c: &IssueCounter| -> (b: bool)
            ensures
                b == p(*c),
            {
                (if now >= c.window_started_at {
                    now - c.window_started_at
                } else {
                    0
                }) < ISSUE_WINDOW_MILLIS
            };
        let mut kept = keep_when(counters, running, Ghost(p));
        proof {
            let places = lemma_filter_places(before, p);
            assert forall|i: int, j: int| 0 <= i < j < kept@.len() implies (#[trigger] kept@[i]).owner@
                != (#[trigger] kept@[j]).owner@ by {
                assert(places[i] < places[j]);
            }
        }
        let ghost list = kept@;
        match find_counter(&kept, owner) {
            Some(i) => {
                if kept[i].issues >= MAX_ISSUES_PER_WINDOW {
                    self.counters = kept;
                    return Err(PairingError::RateLimited);
                }
                let issues: u32 = kept[i].issues + 1;
                let counter = IssueCounter {
                    owner: kept[i].owner.clone(),
                    issues,
                    window_started_at: kept[i].window_started_at,
                };
                kept.set(i, counter);
                assert(distinct_owners(kept@)) by {
                    assert forall|a: int, b: int| 0 <= a < b < kept@.len() implies (
                    #[trigger] kept@[a]).owner@ != (#[trigger] kept@[b]).owner@ by {
                        assert(list[a].owner@ != list[b].owner@);
                    }
                }
                self.counters = kept;
                Ok(())
            },
            None => {
                if kept.len() >= MAX_TRACKED_OWNERS {
                    self.counters = kept;
                    return Err(PairingError::RateLimited);
                }
                kept.push(IssueCounter { owner: owner.to_owned(), issues: 1, window_started_at: now });
                assert(kept@.drop_last() =~= list);
                assert(distinct_owners(kept@)) by {
                    assert forall|a: int, b: int| 0 <= a < b < kept@.len() implies (
                    #[trigger] kept@[a]).owner@ != (#[trigger] kept@[b]).owner@ by {
                        if b < list.len() {
                            assert(list[a].owner@ != list[b].owner@);
                        } else {
                            assert(list[a].owner@ != owner@);
                        }
                    }
                }
                self.counters = kept;
                Ok(())
            },
        }
    }

    fn drop_expired(&mut self, now: u64)
        requires
            old(self).wf(),
        ensures
            final(self).wf(),
            final(self).counters() == old(self).counters(),
            final(self).ttl() == old(self).ttl(),
            final(self).issued() == old(self).issued().filter(unexpired(now)),
    {
        let mut issued: Vec<Challenge> = Vec::new();
        std::mem::swap(&mut issued, &mut self.issued);
        let ghost before = issued@;
        let ghost p = unexpired(now);
        let good = |c: &Challenge| -> (b: bool)
            ensures
                b == p(*c),
            { c.expires_at > now };
        let kept = keep_when(issued, good, Ghost(p));
        proof {
            let places = lemma_filter_places(before, p);
            assert forall|i: int, j: int| 0 <= i < j < kept@.len() implies (#[trigger] kept@[i]).id@ != (
            #[trigger] kept@[j]).id@ by {
                assert(places[i] < places[j]);
            }
        }
        self.issued = kept;
    }

    /// Issues a challenge of the given identifier to a controller: not more than so many within
    /// the window, and not more than so many that are not used yet. Only a challenge that is
    /// refused for the window leaves the challenges as they are.
    pub fn issue_with(&mut self, owner: &str, now: u64, id: String) -> (r: Result<(), PairingError>)
        requires
            old(self).wf(),
        ensures
            final(self).wf(),
            final(self).ttl() == old(self).ttl(),
            counters_follow(old(self).counters(), final(self).counters(), owner@, now),
            ({
                let kept = old(self).issued().filter(unexpired(now));
                if !may_issue(old(self).counters(), owner@, now) {
                    &&& r == Err::<(), PairingError>(PairingError::RateLimited)
                    &&& final(self).issued() == old(self).issued()
                } else if kept.filter(issued_to(owner@)).len() >= MAX_OUTSTANDING_PER_OWNER {
                    &&& r == Err::<(), PairingError>(PairingError::RateLimited)
                    &&& final(self).issued() == kept
                } else {
                    &&& r == Ok::<(), PairingError>(())
                    &&& challenge_added(
                        kept,
                        final(self).issued(),
                        id@,
                        owner@,
                        challenge_deadline(now, old(self).ttl()),
                    )
                }
            }),
    {
        match self.admit_issue(owner, now) {
            Ok(()) => {},
            Err(error) => {
                return Err(error);
            },
        }
        self.drop_expired(now);
        if count_issued_to(&self.issued, owner) >= MAX_OUTSTANDING_PER_OWNER {
            return Err(PairingError::RateLimited);
        }
        let ttl: u64 = self.ttl_millis;
        let expires_at: u64 = if ttl > u64::MAX - now {
            u64::MAX
        } else {
            now + ttl
        };
        let ghost kept = self.issued@;
        let found = find_challenge(&self.issued, id.as_str());
        let challenge = Challenge { id, owner: owner.to_owned(), expires_at };
        match found {
            Some(i) => {
                self.issued.set(i, challenge);
            },
            None => {
                self.issued.push(challenge);
            },
        }
        assert(self.issued@ =~= with_challenge(kept, challenge));
        assert(distinct_challenges(self.issued@)) by {
            assert forall|a: int, b: int| 0 <= a < b < self.issued@.len() implies (
            #[trigger] self.issued@[a]).id@ != (#[trigger] self.issued@[b]).id@ by {
                if b < kept.len() {
                    assert(kept[a].id@ != kept[b].id@);
                } else {
                    assert(kept[a].id@ != id@);
                }
            }
        }
        Ok(())
    }

    /// Issues a challenge of a fresh identifier.
    pub fn issue(&mut self, owner: &str, now: u64) -> (r: Result<String, PairingError>)
        requires
            old(self).wf(),
        ensures
            final(self).wf(),
            final(self).ttl() == old(self).ttl(),
            counters_follow(old(self).counters(), final(self).counters(), owner@, now),
            ({
                let kept = old(self).issued().filter(unexpired(now));
                if !may_issue(old(self).counters(), owner@, now) {
                    &&& r == Err::<String, PairingError>(PairingError::RateLimited)
                    &&& final(self).issued() == old(self).issued()
                } else if kept.filter(issued_to(owner@)).len() >= MAX_OUTSTANDING_PER_OWNER {
                    &&& r == Err::<String, PairingError>(PairingError::RateLimited)
                    &&& final(self).issued() == kept
                } else {
                    r matches Ok(id) && is_challenge_id(id@) && challenge_added(
                        kept,
                        final(self).issued(),
                        id@,
                        owner@,
                        challenge_deadline(now, old(self).ttl()),
                    )
                }
            }),
    {
        let id = random_challenge_id();
        match self.issue_with(owner, now, id.clone()) {
            Ok(()) => Ok(id),
            Err(error) => Err(error),
        }
    }

    /// Uses a challenge up. It must be good at this time and have been issued to this controller.
    pub fn consume(&mut self, owner: &str, pairing_id: &str, now: u64) -> (r: Result<(), PairingError>)
        requires
            old(self).wf(),
        ensures
            final(self).wf(),
            final(self).ttl() == old(self).ttl(),
            final(self).counters() == old(self).counters(),
            ({
                let kept = old(self).issued().filter(unexpired(now));
                let at = challenge_at(kept, pairing_id@);
                if has_challenge(kept, pairing_id@) && kept[at].owner@ == owner@ {
                    r == Ok::<(), PairingError>(()) && final(self).issued() == kept.remove(at)
                } else {
                    r == Err::<(), PairingError>(PairingError::UnknownChallenge)
                        && final(self).issued() == kept
                }
            }),
    {
        self.drop_expired(now);
        let ghost kept = self.issued@;
        match find_challenge(&self.issued, pairing_id) {
            Some(i) => {
                if same_text(self.issued[i].owner.as_str(), owner) {
                    self.issued.remove(i);
                    assert(self.issued@ =~= kept.remove(i as int));
                    assert(distinct_challenges(self.issued@)) by {
                        assert forall|a: int, b: int| 0 <= a < b < self.issued@.len() implies (
                        #[trigger] self.issued@[a]).id@ != (#[trigger] self.issued@[b]).id@ by {
                            let x = if a < i { a } else { a + 1 };
                            let y = if b < i { b } else { b + 1 };
                            assert(kept[x].id@ != kept[y].id@);
                        }
                    }
                    Ok(())
                } else {
                    Err(PairingError::UnknownChallenge)
                }
            },
            None => Err(PairingError::UnknownChallenge),
        }
    }
}

impl Default for PairingChallenges {
    fn default() -> (r: Self)
        ensures
            r.wf(),
            r.issued().len() == 0,
            r.counters().len() == 0,
            r.ttl() == CHALLENGE_TTL_MILLIS,
    {
        Self::new(CHALLENGE_TTL_MILLIS)
    }
}

/// Until it expires, an issued challenge is found for the controller that it was issued to, and for
/// no other.
pub proof fn law_an_issued_challenge_can_be_used(
    before: Seq<Challenge>,
    after: Seq<Challenge>,
    id: Seq<char>,
    owner: Seq<char>,
    expires_at: u64,
    now: u64,
)
    requires
        distinct_challenges(after),
        challenge_added(before, after, id, owner, expires_at),
        now < expires_at,
    ensures
        has_challenge(after.filter(unexpired(now)), id),
        after.filter(unexpired(now))[challenge_at(after.filter(unexpired(now)), id)].owner@ == owner,
{
    let c = choose|c: Challenge|
        c.id@ == id && c.owner@ == owner && c.expires_at == expires_at && after
            == #[trigger] with_challenge(before, c);
    let at = if has_challenge(before, id) {
        challenge_at(before, id)
    } else {
        before.len() as int
    };
    assert(after[at] == c);
    let p = unexpired(now);
    let kept = after.filter(p);
    after.lemma_filter_contains(p, at);
    let j = choose|j: int| 0 <= j < kept.len() && kept[j] == c;
    assert(kept[j].id@ == id);
    let k = challenge_at(kept, id);
    assert(0 <= k < kept.len() && kept[k].id@ == id);
    let places = lemma_filter_places(after, p);
    assert(after[places[k]].id@ == id);
    if places[k] < at {
        assert(after[places[k]].id@ != after[at].id@);
    } else if places[k] > at {
        assert(after[at].id@ != after[places[k]].id@);
    }
}

/// A challenge can be used once: after it was used there is none of its identifier.
pub proof fn law_a_challenge_is_used_once(kept: Seq<Challenge>, id: Seq<char>)
    requires
        distinct_challenges(kept),
        has_challenge(kept, id),
    ensures
        !has_challenge(kept.remove(challenge_at(kept, id)), id),
{
    let at = challenge_at(kept, id);
    let rest = kept.remove(at);
    assert(0 <= at < kept.len() && kept[at].id@ == id);
    if has_challenge(rest, id) {
        let k = choose|k: int| 0 <= k < rest.len() && (#[trigger] rest[k]).id@ == id;
        if k < at {
            assert(kept[k].id@ != kept[at].id@);
        } else {
            assert(kept[at].id@ != kept[k + 1].id@);
        }
    }
}

/// A challenge that has expired cannot be used.
pub proof fn law_an_expired_challenge_is_gone(issued: Seq<Challenge>, id: Seq<char>, now: u64)
    requires
        forall|i: int| 0 <= i < issued.len() && (#[trigger] issued[i]).id@ == id ==> issued[i].expires_at <= now,
    ensures
        !has_challenge(issued.filter(unexpired(now)), id),
{
    let p = unexpired(now);
    let kept = issued.filter(p);
    if has_challenge(kept, id) {
        let k = choose|k: int| 0 <= k < kept.len() && (#[trigger] kept[k]).id@ == id;
        issued.lemma_filter_pred(p, k);
        let places = lemma_filter_places(issued, p);
        assert(issued[places[k]] == kept[k]);
    }
}

/// Once a controller was issued the most that a window allows, it is issued no more while the
/// window runs.
pub proof fn law_issuing_is_capped(counters: Seq<IssueCounter>, i: int, now: u64)
    requires
        distinct_owners(counters),
        0 <= i < counters.len(),
        counters[i].issues >= MAX_ISSUES_PER_WINDOW,
        elapsed(now, counters[i].window_started_at) < ISSUE_WINDOW_MILLIS,
    ensures
        !may_issue(counters, counters[i].owner@, now),
{
    let p = in_window(now);
    let owner = counters[i].owner@;
    let kept = counters.filter(p);
    counters.lemma_filter_contains(p, i);
    let k = choose|k: int| 0 <= k < kept.len() && kept[k] == counters[i];
    assert(kept[k].owner@ == owner);
    let c = counter_at(kept, owner);
    assert(0 <= c < kept.len() && kept[c].owner@ == owner);
    let places = lemma_filter_places(counters, p);
    assert(counters[places[c]].owner@ == owner);
    if places[c] < i {
        assert(counters[places[c]].owner@ != counters[i].owner@);
    } else if places[c] > i {
        assert(counters[i].owner@ != counters[places[c]].owner@);
    }
}

proof fn lemma_challenge_at(s: Seq<Challenge>, i: int)
    requires
        distinct_challenges(s),
        0 <= i < s.len(),
    ensures
        has_challenge(s, s[i].id@),
        challenge_at(s, s[i].id@) == i,
{
    let id = s[i].id@;
    assert(has_challenge(s, id));
    let c = challenge_at(s, id);
    assert(0 <= c < s.len() && s[c].id@ == id);
    if c < i {
        assert(s[c].id@ != s[i].id@);
    } else if c > i {
        assert(s[i].id@ != s[c].id@);
    }
}

proof fn lemma_counter_at(s: Seq<IssueCounter>, i: int)
    requires
        distinct_owners(s),
        0 <= i < s.len(),
    ensures
        has_counter(s, s[i].owner@),
        counter_at(s, s[i].owner@) == i,
{
    let owner = s[i].owner@;
    assert(has_counter(s, owner));
    let c = counter_at(s, owner);
    assert(0 <= c < s.len() && s[c].owner@ == owner);
    if c < i {
        assert(s[c].owner@ != s[i].owner@);
    } else if c > i {
        assert(s[i].owner@ != s[c].owner@);
    }
}

/// Those of the filtered that keep a place in the whole: each is at one place, and keeps the order.
proof fn lemma_kept_challenge(issued: Seq<Challenge>, now: u64, id: Seq<char>)
    requires
        distinct_challenges(issued),
    ensures
        distinct_challenges(issued.filter(unexpired(now))),
        has_challenge(issued.filter(unexpired(now)), id) <==> exists|i: int|
            0 <= i < issued.len() && (#[trigger] issued[i]).id@ == id && issued[i].expires_at > now,
        has_challenge(issued.filter(unexpired(now)), id) ==> exists|i: int|
            0 <= i < issued.len() && (#[trigger] issued[i]).id@ == id && issued[i].expires_at > now
                && issued.filter(unexpired(now))[challenge_at(issued.filter(unexpired(now)), id)]
                == issued[i],
{
    let p = unexpired(now);
    let kept = issued.filter(p);
    let places = lemma_filter_places(issued, p);
    assert forall|i: int, j: int| 0 <= i < j < kept.len() implies (#[trigger] kept[i]).id@ != (
    #[trigger] kept[j]).id@ by {
        assert(places[i] < places[j]);
        assert(issued[places[i]].id@ != issued[places[j]].id@);
    }
    if has_challenge(kept, id) {
        let k = challenge_at(kept, id);
        assert(0 <= k < kept.len() && kept[k].id@ == id);
        issued.lemma_filter_pred(p, k);
        assert(issued[places[k]].id@ == id && issued[places[k]].expires_at > now);
    }
    if exists|i: int| 0 <= i < issued.len() && (#[trigger] issued[i]).id@ == id && issued[i].expires_at > now {
        let i = choose|i: int|
            0 <= i < issued.len() && (#[trigger] issued[i]).id@ == id && issued[i].expires_at > now;
        issued.lemma_filter_contains(p, i);
        let k = choose|k: int| 0 <= k < kept.len() && kept[k] == issued[i];
        assert(kept[k].id@ == id);
    }
}

/// A challenge is used exactly by the controller that it was issued to and before it expires. Whoever
/// else names it leaves it as it is.
pub proof fn law_a_challenge_is_for_its_owner(
    challenges: &mut PairingChallenges,
    owner: &str,
    id: &str,
    now: u64,
    r: Result<(), PairingError>,
)
    requires
        old(challenges).wf(),
        call_ensures(PairingChallenges::consume, (challenges, owner, id, now), r),
    ensures
        r is Ok <==> exists|i: int|
            0 <= i < old(challenges).issued().len() && (#[trigger] old(challenges).issued()[i]).id@
                == id@ && old(challenges).issued()[i].owner@ == owner@
                && old(challenges).issued()[i].expires_at > now,
        r matches Err(error) ==> error == PairingError::UnknownChallenge,
        r is Ok ==> !has_challenge(final(challenges).issued(), id@),
        r is Err ==> (has_challenge(final(challenges).issued(), id@) <==> exists|i: int|
            0 <= i < old(challenges).issued().len() && (#[trigger] old(challenges).issued()[i]).id@
                == id@ && old(challenges).issued()[i].expires_at > now),
{
    let issued = old(challenges).issued();
    lemma_kept_challenge(issued, now, id@);
    let kept = issued.filter(unexpired(now));
    if has_challenge(kept, id@) {
        law_a_challenge_is_used_once(kept, id@);
        let i = choose|i: int|
            0 <= i < issued.len() && (#[trigger] issued[i]).id@ == id@ && issued[i].expires_at > now
                && kept[challenge_at(kept, id@)] == issued[i];
        assert forall|j: int|
            0 <= j < issued.len() && (#[trigger] issued[j]).id@ == id@ implies j == i by {
            if j < i {
                assert(issued[j].id@ != issued[i].id@);
            } else if i < j {
                assert(issued[i].id@ != issued[j].id@);
            }
        }
    }
}

/// A challenge that was used cannot be used again, by anyone, at any later time.
pub proof fn law_a_used_challenge_is_gone(
    challenges: &mut PairingChallenges,
    owner: &str,
    id: &str,
    now: u64,
    first: Result<(), PairingError>,
    afterwards: &mut PairingChallenges,
    other: &str,
    later: u64,
    second: Result<(), PairingError>,
)
    requires
        old(challenges).wf(),
        old(afterwards).wf(),
        call_ensures(PairingChallenges::consume, (challenges, owner, id, now), first),
        *final(challenges) == *old(afterwards),
        call_ensures(PairingChallenges::consume, (afterwards, other, id, later), second),
        first is Ok,
    ensures
        second == Err::<(), PairingError>(PairingError::UnknownChallenge),
{
    law_a_challenge_is_for_its_owner(challenges, owner, id, now, first);
    lemma_kept_challenge(old(afterwards).issued(), later, id@);
}

/// A challenge that was issued can be used by its controller until its time is over, and by no other
/// and no later.
pub proof fn law_an_issued_challenge_lasts_its_time(
    challenges: &mut PairingChallenges,
    owner: &str,
    id: String,
    now: u64,
    issued: Result<(), PairingError>,
    afterwards: &mut PairingChallenges,
    other: &str,
    named: &str,
    later: u64,
    used: Result<(), PairingError>,
)
    requires
        old(challenges).wf(),
        old(afterwards).wf(),
        call_ensures(PairingChallenges::issue_with, (challenges, owner, now, id), issued),
        *final(challenges) == *old(afterwards),
        call_ensures(PairingChallenges::consume, (afterwards, other, named, later), used),
        issued is Ok,
        named@ == id@,
        now + old(challenges).ttl() <= u64::MAX,
    ensures
        used is Ok <==> other@ == owner@ && later < now + old(challenges).ttl(),
{
    let kept = old(challenges).issued().filter(unexpired(now));
    let after = old(afterwards).issued();
    let end = (now + old(challenges).ttl()) as u64;
    assert(challenge_added(kept, after, id@, owner@, end));
    let c = choose|c: Challenge|
        c.id@ == id@ && c.owner@ == owner@ && c.expires_at == end && after
            == #[trigger] with_challenge(kept, c);
    let at = if has_challenge(kept, id@) {
        challenge_at(kept, id@)
    } else {
        kept.len() as int
    };
    assert(after[at] == c);
    assert forall|j: int| 0 <= j < after.len() && (#[trigger] after[j]).id@ == id@ implies j == at by {
        if j < at {
            assert(after[j].id@ != after[at].id@);
        } else if at < j {
            assert(after[at].id@ != after[j].id@);
        }
    }
    law_a_challenge_is_for_its_owner(afterwards, other, named, later, used);
}

/// A challenge lasts two minutes.
pub proof fn law_a_challenge_lasts_two_minutes(r: PairingChallenges, seconds: u64)
    requires
        call_ensures(PairingChallenges::default, (), r),
        call_ensures(PairingChallenges::ttl_seconds, (&r,), seconds),
    ensures
        r.ttl() == 2 * 60 * 1000,
        seconds == 120,
        r.issued().len() == 0,
        r.counters().len() == 0,
{
}

/// A controller with five challenges of the last five minutes is issued none, and the challenges stay
/// as they are.
pub proof fn law_five_challenges_in_five_minutes(
    challenges: &mut PairingChallenges,
    i: int,
    owner: &str,
    id: String,
    now: u64,
    r: Result<(), PairingError>,
)
    requires
        old(challenges).wf(),
        0 <= i < old(challenges).counters().len(),
        old(challenges).counters()[i].owner@ == owner@,
        old(challenges).counters()[i].issues >= 5,
        now < old(challenges).counters()[i].window_started_at + 300_000,
        call_ensures(PairingChallenges::issue_with, (challenges, owner, now, id), r),
    ensures
        r == Err::<(), PairingError>(PairingError::RateLimited),
        final(challenges).issued() == old(challenges).issued(),
{
    law_issuing_is_capped(old(challenges).counters(), i, now);
}

/// A controller with two challenges that are still good is issued none.
pub proof fn law_two_challenges_at_a_time(
    challenges: &mut PairingChallenges,
    i: int,
    j: int,
    owner: &str,
    id: String,
    now: u64,
    r: Result<(), PairingError>,
)
    requires
        old(challenges).wf(),
        0 <= i < j < old(challenges).issued().len(),
        old(challenges).issued()[i].owner@ == owner@,
        old(challenges).issued()[j].owner@ == owner@,
        old(challenges).issued()[i].expires_at > now,
        old(challenges).issued()[j].expires_at > now,
        call_ensures(PairingChallenges::issue_with, (challenges, owner, now, id), r),
    ensures
        r == Err::<(), PairingError>(PairingError::RateLimited),
{
    let issued = old(challenges).issued();
    let p = unexpired(now);
    let q = issued_to(owner@);
    let kept = issued.filter(p);
    issued.lemma_filter_contains(p, i);
    issued.lemma_filter_contains(p, j);
    let a = choose|k: int| 0 <= k < kept.len() && kept[k] == issued[i];
    let b = choose|k: int| 0 <= k < kept.len() && kept[k] == issued[j];
    kept.lemma_filter_contains(q, a);
    kept.lemma_filter_contains(q, b);
    let own = kept.filter(q);
    let x = choose|k: int| 0 <= k < own.len() && own[k] == issued[i];
    let y = choose|k: int| 0 <= k < own.len() && own[k] == issued[j];
    assert(issued[i].id@ != issued[j].id@);
    assert(x != y);
}

/// A controller with at most one challenge that is still good is issued another, as long as it was
/// issued fewer than five in its window, or its window is over, or it is new and fewer than 256
/// controllers are counted.
pub proof fn law_a_controller_is_issued_a_challenge(
    challenges: &mut PairingChallenges,
    only: int,
    counter: int,
    owner: &str,
    id: String,
    now: u64,
    r: Result<(), PairingError>,
)
    requires
        old(challenges).wf(),
        call_ensures(PairingChallenges::issue_with, (challenges, owner, now, id), r),
        forall|k: int|
            0 <= k < old(challenges).issued().len() && k != only ==> (
            #[trigger] old(challenges).issued()[k]).owner@ != owner@
                || old(challenges).issued()[k].expires_at <= now,
        old(challenges).counters().len() < 256,
        forall|k: int|
            0 <= k < old(challenges).counters().len() && (#[trigger] old(challenges).counters()[k]).owner@
                == owner@ ==> old(challenges).counters()[k].issues < 5 || now
                >= old(challenges).counters()[k].window_started_at + 300_000,
    ensures
        r is Ok,
{
    let counters = old(challenges).counters();
    let w = in_window(now);
    let running = counters.filter(w);
    counters.lemma_filter_len(w);
    let at = lemma_filter_places(counters, w);
    if has_counter(running, owner@) {
        let c = counter_at(running, owner@);
        assert(0 <= c < running.len() && running[c].owner@ == owner@);
        counters.lemma_filter_pred(w, c);
        assert(counters[at[c]].owner@ == owner@);
    }
    let issued = old(challenges).issued();
    let p = unexpired(now);
    let q = issued_to(owner@);
    let kept = issued.filter(p);
    let own = kept.filter(q);
    let places = lemma_filter_places(issued, p);
    let inner = lemma_filter_places(kept, q);
    if own.len() >= 2 {
        kept.lemma_filter_pred(q, 0);
        kept.lemma_filter_pred(q, 1);
        assert(inner[0] < inner[1]);
        let a = inner[0];
        let b = inner[1];
        issued.lemma_filter_pred(p, a);
        issued.lemma_filter_pred(p, b);
        assert(places[a] < places[b]);
        assert(issued[places[a]].owner@ == owner@);
        assert(issued[places[b]].owner@ == owner@);
    }
}

/// Each refusal has a code and a sentence of its own.
pub proof fn law_pairing_refusals_have_their_code(
    error: PairingError,
    code: &'static str,
    message: &'static str,
)
    requires
        call_ensures(PairingError::code, (error,), code),
        call_ensures(PairingError::message, (error,), message),
    ensures
        error == PairingError::RateLimited ==> code@ == "PAIRING_RATE_LIMITED"@ && message@
            == "Too many pairing attempts. Wait a few minutes and try again."@,
        error == PairingError::UnknownChallenge ==> code@ == "PAIRING_CHALLENGE_INVALID"@ && message@
            == "This pairing attempt is no longer valid. Start pairing again."@,
{
}

/// The identifier of a challenge is the digits of its bytes: different bytes have different ones, and
/// each byte is its two digits.
pub proof fn law_a_challenge_is_named_by_its_bytes(bytes: [u8; 16], r: String, i: int)
    requires
        call_ensures(challenge_id, (&bytes,), r),
        0 <= i < 16,
    ensures
        r@.len() == 32,
        r@[2 * i] == hex_char(bytes@[i] as int / 16),
        r@[2 * i + 1] == hex_char(bytes@[i] as int % 16),
{
}

} // verus!
