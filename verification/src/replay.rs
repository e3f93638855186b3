//! Requests are applied once: each carries an identifier and the time of its issue.
//!
//! Two clocks are read: `clock_nanos` is the time of day in nanoseconds since the Unix epoch, which
//! is compared with the time of issue; `now` is in milliseconds of a clock that never goes back,
//! by which identifiers are remembered.
use vstd::prelude::*;
use vstd::string::*;

use crate::seqs::{keep_when, lemma_filter_places};

verus! {

pub const REQUEST_WINDOW_MILLIS: u64 = 120_000;

pub const MAX_CLOCK_SKEW_MILLIS: u64 = 120_000;

pub const MAX_TRACKED_REQUESTS: usize = 4096;

#[derive(Clone, Copy, Debug, PartialEq, Eq, Structural)]
pub enum FreshnessError {
    Missing,
    Stale,
    Replayed,
    Saturated,
}

impl FreshnessError {
    pub open spec fn spec_code(self) -> Seq<char> {
        match self {
            FreshnessError::Missing => "REQUEST_ID_REQUIRED"@,
            FreshnessError::Stale => "REQUEST_STALE"@,
            FreshnessError::Replayed => "REQUEST_REPLAYED"@,
            FreshnessError::Saturated => "REQUEST_TRACKING_SATURATED"@,
        }
    }

    pub open spec fn spec_message(self) -> Seq<char> {
        match self {
            FreshnessError::Missing => "This request is missing its identifier."@,
            FreshnessError::Stale => "This request is too old to apply."@,
            FreshnessError::Replayed => "This request was already applied."@,
            FreshnessError::Saturated => "Too many requests are in flight. Please try again."@,
        }
    }

    pub fn code(self) -> (r: &'static str)
        ensures
            r@ == self.spec_code(),
    {
        match self {
            FreshnessError::Missing => "REQUEST_ID_REQUIRED",
            FreshnessError::Stale => "REQUEST_STALE",
            FreshnessError::Replayed => "REQUEST_REPLAYED",
            FreshnessError::Saturated => "REQUEST_TRACKING_SATURATED",
        }
    }

    pub fn message(self) -> (r: &'static str)
        ensures
            r@ == self.spec_message(),
    {
        match self {
            FreshnessError::Missing => "This request is missing its identifier.",
            FreshnessError::Stale => "This request is too old to apply.",
            FreshnessError::Replayed => "This request was already applied.",
            FreshnessError::Saturated => "Too many requests are in flight. Please try again.",
        }
    }
}

/// An identifier with the time at which it was last seen.
#[derive(Clone, Copy, Debug, PartialEq, Eq, Structural)]
pub struct SeenRequest {
    pub id: u128,
    pub at: u64,
}

/// Remembers the identifiers of the requests of late.
#[derive(Debug)]
pub struct ReplayGuard {
    seen: Vec<SeenRequest>,
    window_millis: u64,
    skew_millis: u64,
    capacity: usize,
}

/// The milliseconds since `at`; none where that is still to come.
pub open spec fn elapsed(now: u64, at: u64) -> int {
    if now >= at {
        now - at
    } else {
        0
    }
}

/// The identifiers that are still remembered.
pub open spec fn remembered(now: u64, window_millis: u64) -> spec_fn(SeenRequest) -> bool {
    |seen: SeenRequest| elapsed(now, seen.at) < window_millis
}

/// No identifier occurs twice.
pub open spec fn distinct_ids(seen: Seq<SeenRequest>) -> bool {
    forall|i: int, j: int| 0 <= i < j < seen.len() ==> (#[trigger] seen[i]).id != (#[trigger] seen[j]).id
}

pub open spec fn holds_id(seen: Seq<SeenRequest>, id: u128) -> bool {
    exists|i: int| 0 <= i < seen.len() && (#[trigger] seen[i]).id == id
}

/// Whether the time of issue is too far from the time of day.
pub open spec fn too_far(clock_nanos: i128, issued_at: i128, skew_millis: u64) -> bool {
    let age = clock_nanos - issued_at;
    age > skew_millis * 1_000_000 || age < -(skew_millis * 1_000_000)
}

/// The list with the identifier recorded at this time: its entry renewed, or a new one at the end.
pub open spec fn recorded(seen: Seq<SeenRequest>, id: u128, now: u64) -> Seq<SeenRequest> {
    if holds_id(seen, id) {
        seen.map_values(
            |s: SeenRequest|
                if s.id == id {
                    SeenRequest { id, at: now }
                } else {
                    s
                },
        )
    } else {
        seen.push(SeenRequest { id, at: now })
    }
}

fn position_of(seen: &Vec<SeenRequest>, id: u128) -> (r: Option<usize>)
    ensures
        match r {
            Some(i) => i < seen@.len() && seen@[i as int].id == id,
            None => !holds_id(seen@, id),
        },
{
    let mut i: usize = 0;
    while i < seen.len()
        invariant
            i <= seen@.len(),
            forall|k: int| 0 <= k < i ==> (#[trigger] seen@[k]).id != id,
        decreases seen@.len() - i,
    {
        if seen[i].id == id {
            return Some(i);
        }
        i += 1;
    }
    None
}

impl ReplayGuard {
    pub closed spec fn seen(&self) -> Seq<SeenRequest> {
        self.seen@
    }

    pub closed spec fn window(&self) -> u64 {
        self.window_millis
    }

    pub closed spec fn skew(&self) -> u64 {
        self.skew_millis
    }

    pub closed spec fn capacity(&self) -> usize {
        self.capacity
    }

    pub open spec fn wf(&self) -> bool {
        distinct_ids(self.seen())
    }

    /// The answer to a request, given what was seen.
    pub open spec fn verdict(
        &self,
        request_id: Option<u128>,
        issued_at: Option<i128>,
        clock_nanos: i128,
        now: u64,
    ) -> Result<(), FreshnessError> {
        if request_id is None || issued_at is None {
            Err(FreshnessError::Missing)
        } else if too_far(clock_nanos, issued_at->0, self.skew()) {
            Err(FreshnessError::Stale)
        } else {
            let kept = self.seen().filter(remembered(now, self.window()));
            if kept.len() >= self.capacity() {
                Err(FreshnessError::Saturated)
            } else if holds_id(kept, request_id->0) {
                Err(FreshnessError::Replayed)
            } else {
                Ok(())
            }
        }
    }

    /// What is remembered afterwards.
    pub open spec fn seen_after(
        &self,
        request_id: Option<u128>,
        issued_at: Option<i128>,
        clock_nanos: i128,
        now: u64,
    ) -> Seq<SeenRequest> {
        let kept = self.seen().filter(remembered(now, self.window()));
        match self.verdict(request_id, issued_at, clock_nanos, now) {
            Err(FreshnessError::Missing) => self.seen(),
            Err(FreshnessError::Stale) => self.seen(),
            Err(FreshnessError::Saturated) => kept,
            _ => recorded(kept, request_id->0, now),
        }
    }

    pub fn new(window_millis: u64, skew_millis: u64, capacity: usize) -> (r: Self)
        ensures
            r.wf(),
            r.seen().len() == 0,
            r.window() == window_millis,
            r.skew() == skew_millis,
            r.capacity() == capacity,
    {
        ReplayGuard { seen: Vec::new(), window_millis, skew_millis, capacity }
    }

    /// Takes in a request, once.
    pub fn admit_request(
        &mut self,
        request_id: Option<u128>,
        issued_at: Option<i128>,
        clock_nanos: i128,
        now: u64,
    ) -> (r: Result<(), FreshnessError>)
        requires
            old(self).wf(),
        ensures
            final(self).wf(),
            final(self).window() == old(self).window(),
            final(self).skew() == old(self).skew(),
            final(self).capacity() == old(self).capacity(),
            r == old(self).verdict(request_id, issued_at, clock_nanos, now),
            final(self).seen() == old(self).seen_after(request_id, issued_at, clock_nanos, now),
    {
        let (request_id, issued_at) = match (request_id, issued_at) {
            (Some(request_id), Some(issued_at)) => (request_id, issued_at),
            _ => {
                return Err(FreshnessError::Missing);
            },
        };
        let skew_nanos: i128 = self.skew_millis as i128 * 1_000_000;
        let far = match clock_nanos.checked_sub(issued_at) {
            Some(age) => age > skew_nanos || age < -skew_nanos,
            None => true,
        };
        if far {
            return Err(FreshnessError::Stale);
        }
        let window: u64 = self.window_millis;
        let mut seen: Vec<SeenRequest> = Vec::new();
        std::mem::swap(&mut seen, &mut self.seen);
        let ghost before = seen@;
        let ghost p = remembered(now, window);
        let fresh = |s: &SeenRequest| -> (b: bool)
            ensures
                b == p(*s),
            { (if now >= s.at { now - s.at } else { 0 }) < window };
        let mut kept = keep_when(seen, fresh, Ghost(p));
        proof {
            let places = lemma_filter_places(before, p);
            assert forall|i: int, j: int| 0 <= i < j < kept@.len() implies (#[trigger] kept@[i]).id != (
            #[trigger] kept@[j]).id by {
                assert(places[i] < places[j]);
            }
        }
        if kept.len() >= self.capacity {
            self.seen = kept;
            return Err(FreshnessError::Saturated);
        }
        let ghost list = kept@;
        if let Some(i) = position_of(&kept, request_id) {
            kept.set(i, SeenRequest { id: request_id, at: now });
            assert(holds_id(list, list[i as int].id));
            assert(kept@ =~= recorded(list, request_id, now)) by {
                assert forall|k: int| 0 <= k < list.len() && k != i implies (#[trigger] list[k]).id
                    != request_id by {
                    if k < i {
                        assert(list[k].id != list[i as int].id);
                    } else {
                        assert(list[i as int].id != list[k].id);
                    }
                }
            }
            assert(distinct_ids(kept@)) by {
                assert forall|a: int, b: int| 0 <= a < b < kept@.len() implies (#[trigger] kept@[a]).id
                    != (#[trigger] kept@[b]).id by {
                    assert(list[a].id != list[b].id);
                }
            }
            self.seen = kept;
            return Err(FreshnessError::Replayed);
        }
        kept.push(SeenRequest { id: request_id, at: now });
        assert(distinct_ids(kept@)) by {
            assert forall|a: int, b: int| 0 <= a < b < kept@.len() implies (#[trigger] kept@[a]).id != (
            #[trigger] kept@[b]).id by {
                if b < list.len() {
                    assert(list[a].id != list[b].id);
                } else {
                    assert(list[a].id != request_id);
                }
            }
        }
        self.seen = kept;
        Ok(())
    }
}

impl Default for ReplayGuard {
    fn default() -> (r: Self)
        ensures
            r.wf(),
            r.seen().len() == 0,
            r.window() == REQUEST_WINDOW_MILLIS,
            r.skew() == MAX_CLOCK_SKEW_MILLIS,
            r.capacity() == MAX_TRACKED_REQUESTS,
    {
        Self::new(REQUEST_WINDOW_MILLIS, MAX_CLOCK_SKEW_MILLIS, MAX_TRACKED_REQUESTS)
    }
}

/// Whether the identifier is remembered with a time that is not before `at`.
pub open spec fn seen_since(seen: Seq<SeenRequest>, id: u128, at: u64) -> bool {
    exists|i: int| 0 <= i < seen.len() && (#[trigger] seen[i]).id == id && seen[i].at >= at
}

/// A request whose identifier was seen within the window is not admitted.
pub proof fn law_a_seen_request_is_refused(
    guard: ReplayGuard,
    id: u128,
    at: u64,
    issued_at: Option<i128>,
    clock_nanos: i128,
    now: u64,
)
    requires
        seen_since(guard.seen(), id, at),
        elapsed(now, at) < guard.window(),
    ensures
        guard.verdict(Some(id), issued_at, clock_nanos, now) is Err,
{
    let p = remembered(now, guard.window());
    let i = choose|i: int|
        0 <= i < guard.seen().len() && (#[trigger] guard.seen()[i]).id == id && guard.seen()[i].at >= at;
    guard.seen().lemma_filter_contains(p, i);
    let kept = guard.seen().filter(p);
    let k = choose|k: int| 0 <= k < kept.len() && kept[k] == guard.seen()[i];
    assert(kept[k].id == id);
}

/// Within the window an identifier stays remembered, whatever other requests come: so a request
/// that was admitted is admitted once.
pub proof fn law_a_seen_request_stays_remembered(
    guard: ReplayGuard,
    id: u128,
    at: u64,
    other: Option<u128>,
    issued_at: Option<i128>,
    clock_nanos: i128,
    now: u64,
)
    requires
        seen_since(guard.seen(), id, at),
        elapsed(now, at) < guard.window(),
        now >= at,
    ensures
        seen_since(guard.seen_after(other, issued_at, clock_nanos, now), id, at),
{
    let p = remembered(now, guard.window());
    let i = choose|i: int|
        0 <= i < guard.seen().len() && (#[trigger] guard.seen()[i]).id == id && guard.seen()[i].at >= at;
    guard.seen().lemma_filter_contains(p, i);
    let kept = guard.seen().filter(p);
    let k = choose|k: int| 0 <= k < kept.len() && kept[k] == guard.seen()[i];
    assert(kept[k].id == id && kept[k].at >= at);
    assert(seen_since(kept, id, at));
    if other is Some {
        let after = recorded(kept, other->0, now);
        assert(after[k].id == id && after[k].at >= at);
        assert(seen_since(after, id, at));
    }
}

/// What was admitted is remembered.
pub proof fn law_an_admitted_request_is_remembered(
    guard: ReplayGuard,
    id: u128,
    issued_at: Option<i128>,
    clock_nanos: i128,
    now: u64,
)
    requires
        guard.verdict(Some(id), issued_at, clock_nanos, now) is Ok,
    ensures
        seen_since(guard.seen_after(Some(id), issued_at, clock_nanos, now), id, now),
{
    let kept = guard.seen().filter(remembered(now, guard.window()));
    let after = recorded(kept, id, now);
    assert(after[after.len() - 1].id == id);
}

/// A request without an identifier or a time of issue is refused; then one whose time of issue is
/// further from the time of day than the skew allows, on either side.
pub proof fn law_a_request_needs_its_identifier_and_its_time(
    guard: &mut ReplayGuard,
    request_id: Option<u128>,
    issued_at: Option<i128>,
    clock_nanos: i128,
    now: u64,
    r: Result<(), FreshnessError>,
)
    requires
        old(guard).wf(),
        call_ensures(ReplayGuard::admit_request, (guard, request_id, issued_at, clock_nanos, now), r),
    ensures
        r == Err::<(), FreshnessError>(FreshnessError::Missing) <==> request_id is None || issued_at
            is None,
        r == Err::<(), FreshnessError>(FreshnessError::Stale) <==> request_id is Some && (issued_at
            matches Some(at) && (clock_nanos - at > 1_000_000 * old(guard).skew() || at - clock_nanos
            > 1_000_000 * old(guard).skew())),
        r == Err::<(), FreshnessError>(FreshnessError::Missing) || r == Err::<(), FreshnessError>(
            FreshnessError::Stale,
        ) ==> final(guard).seen() == old(guard).seen(),
        final(guard).window() == old(guard).window(),
        final(guard).skew() == old(guard).skew(),
        final(guard).capacity() == old(guard).capacity(),
{
}

/// A request is applied once: whatever time of issue it then carries, its identifier is refused for
/// as long as the window lasts.
pub proof fn law_a_request_is_applied_once(
    guard: &mut ReplayGuard,
    id: u128,
    issued_at: Option<i128>,
    clock_nanos: i128,
    now: u64,
    first: Result<(), FreshnessError>,
    afterwards: &mut ReplayGuard,
    issued_again: Option<i128>,
    clock_later: i128,
    later: u64,
    second: Result<(), FreshnessError>,
)
    requires
        old(guard).wf(),
        old(afterwards).wf(),
        call_ensures(ReplayGuard::admit_request, (guard, Some(id), issued_at, clock_nanos, now), first),
        *final(guard) == *old(afterwards),
        call_ensures(
            ReplayGuard::admit_request,
            (afterwards, Some(id), issued_again, clock_later, later),
            second,
        ),
        first is Ok,
        now <= later < now + old(guard).window(),
    ensures
        second is Err,
{
    law_an_admitted_request_is_remembered(*old(guard), id, issued_at, clock_nanos, now);
    law_a_seen_request_is_refused(*old(afterwards), id, now, issued_again, clock_later, later);
}

/// A request in time whose identifier is not remembered is applied, as long as fewer requests than
/// the capacity are remembered; an identifier that was last seen a window ago is new again.
pub proof fn law_a_new_request_is_applied(
    guard: &mut ReplayGuard,
    id: u128,
    issued_at: i128,
    clock_nanos: i128,
    now: u64,
    r: Result<(), FreshnessError>,
)
    requires
        old(guard).wf(),
        call_ensures(
            ReplayGuard::admit_request,
            (guard, Some(id), Some(issued_at), clock_nanos, now),
            r,
        ),
        -1_000_000 * old(guard).skew() <= clock_nanos - issued_at <= 1_000_000 * old(guard).skew(),
        old(guard).seen().len() < old(guard).capacity(),
        forall|i: int|
            0 <= i < old(guard).seen().len() && (#[trigger] old(guard).seen()[i]).id == id ==> now
                >= old(guard).seen()[i].at + old(guard).window(),
    ensures
        r is Ok,
{
    let seen = old(guard).seen();
    let p = remembered(now, old(guard).window());
    let kept = seen.filter(p);
    seen.lemma_filter_len(p);
    if holds_id(kept, id) {
        let k = choose|k: int| 0 <= k < kept.len() && (#[trigger] kept[k]).id == id;
        seen.lemma_filter_pred(p, k);
        let places = lemma_filter_places(seen, p);
        assert(seen[places[k]].id == id);
    }
}

/// Where as many requests are remembered as there is room for, none is applied.
pub proof fn law_a_full_guard_applies_nothing(
    guard: &mut ReplayGuard,
    request_id: Option<u128>,
    issued_at: Option<i128>,
    clock_nanos: i128,
    now: u64,
    r: Result<(), FreshnessError>,
)
    requires
        old(guard).wf(),
        call_ensures(ReplayGuard::admit_request, (guard, request_id, issued_at, clock_nanos, now), r),
        old(guard).window() > 0,
        old(guard).seen().len() >= old(guard).capacity(),
        forall|i: int|
            0 <= i < old(guard).seen().len() ==> now < (#[trigger] old(guard).seen()[i]).at
                + old(guard).window(),
    ensures
        r is Err,
        r != Err::<(), FreshnessError>(FreshnessError::Replayed),
{
    let seen = old(guard).seen();
    let p = remembered(now, old(guard).window());
    assert forall|k: int| 0 <= k < seen.len() implies p(#[trigger] seen[k]) by {}
    lemma_all_kept(seen, p);
}

proof fn lemma_all_kept<T>(s: Seq<T>, p: spec_fn(T) -> bool)
    requires
        forall|k: int| 0 <= k < s.len() ==> p(#[trigger] s[k]),
    ensures
        s.filter(p) == s,
    decreases s.len(),
{
    if s.len() > 0 {
        lemma_all_kept(s.drop_last(), p);
        assert(s =~= s.drop_last().push(s.last()));
        s.drop_last().lemma_filter_push(s.last(), p);
    } else {
        crate::seqs::lemma_filter_nothing(s, p);
        assert(s.filter(p) =~= s);
    }
}

/// By default a request is remembered for two minutes, its clock may be two minutes off, and 4096 are
/// remembered.
pub proof fn law_requests_are_remembered_for_two_minutes(r: ReplayGuard)
    requires
        call_ensures(ReplayGuard::default, (), r),
    ensures
        r.window() == 2 * 60 * 1000,
        r.skew() == 2 * 60 * 1000,
        r.capacity() == 4096,
        r.seen().len() == 0,
{
}

/// Each refusal has a code and a sentence of its own.
pub proof fn law_stale_requests_have_their_code(
    error: FreshnessError,
    code: &'static str,
    message: &'static str,
)
    requires
        call_ensures(FreshnessError::code, (error,), code),
        call_ensures(FreshnessError::message, (error,), message),
    ensures
        error == FreshnessError::Missing ==> code@ == "REQUEST_ID_REQUIRED"@ && message@
            == "This request is missing its identifier."@,
        error == FreshnessError::Stale ==> code@ == "REQUEST_STALE"@ && message@
            == "This request is too old to apply."@,
        error == FreshnessError::Replayed ==> code@ == "REQUEST_REPLAYED"@ && message@
            == "This request was already applied."@,
        error == FreshnessError::Saturated ==> code@ == "REQUEST_TRACKING_SATURATED"@ && message@
            == "Too many requests are in flight. Please try again."@,
{
}

} // verus!
