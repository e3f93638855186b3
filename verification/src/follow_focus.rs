//! Keeping the stream on the monitor that has the focus.
//!
//! A change of focus is acted on after a pause, so that passing over a monitor does not switch to
//! it. Times are milliseconds of a clock that never goes back.
use vstd::prelude::*;
use vstd::string::*;

use crate::domain::{
    follow_focus_target, law_following_focus_settles, opt_display, opt_display_ref, DisplayId,
    RemoteDesktopTopology, TopologyView,
};
use crate::ports::Notification;
use crate::session::deadline;

verus! {

pub const FOLLOW_FOCUS_DEBOUNCE_MILLIS: u64 = 50;

/// Which monitor is streamed, and which one is to be.
#[derive(Debug)]
pub struct FollowFocusRouter {
    streamed: Option<DisplayId>,
    pending: Option<DisplayId>,
    switch_at: Option<u64>,
    debounce_millis: u64,
}

pub struct RoutingView {
    pub streamed: Option<Seq<char>>,
    /// The monitor to switch to.
    pub pending: Option<Seq<char>>,
    /// When to switch to it.
    pub switch_at: Option<u64>,
    pub debounce_millis: u64,
}

impl View for FollowFocusRouter {
    type V = RoutingView;

    closed spec fn view(&self) -> RoutingView {
        RoutingView {
            streamed: opt_display(self.streamed),
            pending: opt_display(self.pending),
            switch_at: self.switch_at,
            debounce_millis: self.debounce_millis,
        }
    }
}

impl RoutingView {
    /// A switch is pending only from a monitor that is known, and it has a time.
    pub open spec fn wf(self) -> bool {
        &&& self.pending is Some ==> self.streamed is Some
        &&& self.pending is Some <==> self.switch_at is Some
    }

    /// The monitor that counts as streamed: where none is known, the one with the focus.
    pub open spec fn current(self, topology: TopologyView) -> Option<Seq<char>> {
        if self.streamed is Some {
            self.streamed
        } else {
            topology.preferred()
        }
    }

    /// The state after a look at the monitors: a switch is pending exactly where the stream is not
    /// on the monitor that it should be on, and the pause begins anew.
    pub open spec fn reevaluated(self, topology: TopologyView, now: u64) -> RoutingView {
        match self.current(topology) {
            None => self,
            Some(streamed) => RoutingView {
                streamed: Some(streamed),
                pending: topology.follow_focus_target(streamed),
                switch_at: if topology.follow_focus_target(streamed) is Some {
                    Some(deadline(now, self.debounce_millis))
                } else {
                    None
                },
                ..self
            },
        }
    }

    /// The state once the pause is over and the switch was taken out.
    pub open spec fn committed(self) -> RoutingView {
        RoutingView { pending: None, switch_at: None, ..self }
    }

    /// The state once a switch was tried.
    pub open spec fn switched(self, target: Seq<char>, done: bool) -> RoutingView {
        if done {
            RoutingView { streamed: Some(target), ..self }
        } else {
            self
        }
    }
}

fn copy_display(display: Option<&DisplayId>) -> (r: Option<DisplayId>)
    ensures
        opt_display(r) == opt_display_ref(display),
{
    match display {
        Some(id) => Some(id.clone()),
        None => None,
    }
}

impl FollowFocusRouter {
    /// Starts with the monitor that is streamed, where it is known.
    pub fn new(streamed: Option<DisplayId>, debounce_millis: u64) -> (r: Self)
        ensures
            r@ == (RoutingView {
                streamed: opt_display(streamed),
                pending: None,
                switch_at: None,
                debounce_millis,
            }),
            r@.wf(),
    {
        FollowFocusRouter { streamed, pending: None, switch_at: None, debounce_millis }
    }

    /// When a switch is due.
    pub fn switch_at(&self) -> (r: Option<u64>)
        ensures
            r == self@.switch_at,
    {
        self.switch_at
    }

    /// The monitor that is streamed, where it is known.
    pub fn streamed(&self) -> (r: Option<&DisplayId>)
        ensures
            opt_display_ref(r) == self@.streamed,
    {
        match &self.streamed {
            Some(id) => Some(id),
            None => None,
        }
    }

    /// Takes in the monitors after a sign that the focus may have changed.
    pub fn reevaluate(&mut self, topology: &RemoteDesktopTopology, now: u64)
        ensures
            final(self)@ == old(self)@.reevaluated(topology@, now),
            old(self)@.wf() ==> final(self)@.wf(),
    {
        let streamed = match copy_display(self.streamed()) {
            Some(id) => id,
            None => match copy_display(topology.preferred()) {
                Some(id) => id,
                None => {
                    return ;
                },
            },
        };
        let target = follow_focus_target(topology, &streamed);
        self.streamed = Some(streamed);
        self.switch_at =
        if target.is_some() {
            Some(
                if self.debounce_millis > u64::MAX - now {
                    u64::MAX
                } else {
                    now + self.debounce_millis
                },
            )
        } else {
            None
        };
        self.pending = target;
    }

    /// Takes the pending switch out once the pause is over. The result is the monitor to switch to.
    pub fn commit_pending(&mut self) -> (r: Option<DisplayId>)
        ensures
            final(self)@ == old(self)@.committed(),
            old(self)@.wf() ==> final(self)@.wf(),
            opt_display(r) == old(self)@.pending,
    {
        self.switch_at = None;
        self.pending.take()
    }

    /// Takes in whether the switch worked. The notification is for a switch that did not.
    pub fn switched(&mut self, target: DisplayId, done: bool) -> (r: Option<Notification>)
        ensures
            final(self)@ == old(self)@.switched(target@, done),
            old(self)@.wf() ==> final(self)@.wf(),
            done ==> r is None,
            !done ==> (r matches Some(n) && n.summary@ == "Omdesky"@ && n.body@
                == "The streamed display could not be changed. The current display will stay active."@),
    {
        if done {
            self.streamed = Some(target);
            return None;
        }
        Some(
            Notification {
                summary: "Omdesky".to_owned(),
                body:
                    "The streamed display could not be changed. The current display will stay active.".to_owned(),
            },
        )
    }
}

/// One change of focus makes one switch: once it was done, another look at the same monitors asks
/// for none.
pub proof fn law_a_done_switch_is_not_repeated(state: RoutingView, topology: TopologyView, now: u64, later: u64)
    requires
        state.wf(),
        state.reevaluated(topology, now).pending is Some,
    ensures
        ({
            let pending = state.reevaluated(topology, now);
            let done = pending.committed().switched(pending.pending->0, true);
            done.reevaluated(topology, later).pending is None && done.reevaluated(
                topology,
                later,
            ).switch_at is None
        }),
{
    law_following_focus_settles(topology, state.current(topology)->0);
}

/// Where the focus comes back to the streamed monitor before the pause is over, nothing is switched.
pub proof fn law_a_focus_that_returns_switches_nothing(state: RoutingView, back: TopologyView, now: u64)
    requires
        state.streamed is Some,
        back.preferred() == state.streamed,
    ensures
        state.reevaluated(back, now).pending is None,
        state.reevaluated(back, now).switch_at is None,
        state.reevaluated(back, now).streamed == state.streamed,
{
}

/// A switch that failed leaves the streamed monitor as it was, and the next look asks for it again.
pub proof fn law_a_failed_switch_can_be_tried_again(state: RoutingView, topology: TopologyView, now: u64, later: u64)
    requires
        state.wf(),
        state.reevaluated(topology, now).pending is Some,
    ensures
        ({
            let pending = state.reevaluated(topology, now);
            let failed = pending.committed().switched(pending.pending->0, false);
            failed.streamed == pending.streamed && failed.reevaluated(topology, later).pending
                == pending.pending
        }),
{
}

/// A look at the monitors plans a switch exactly when the streamed one is not the one to show, to that
/// one and after the pause; else it calls off what was planned. Where none was known to be streamed,
/// the one to show counts as streamed and nothing is planned.
pub proof fn law_a_look_plans_the_switch_that_is_needed(
    router: &mut FollowFocusRouter,
    topology: RemoteDesktopTopology,
    now: u64,
)
    requires
        call_ensures(FollowFocusRouter::reevaluate, (router, &topology, now), ()),
    ensures
        ({
            let shown = if topology@.focused is Some {
                topology@.focused
            } else if topology@.displays.len() > 0 {
                Some(topology@.displays[0])
            } else {
                None
            };
            &&& old(router)@.streamed is Some ==> final(router)@.streamed == old(router)@.streamed
            &&& old(router)@.streamed is Some && shown is Some && shown != old(router)@.streamed ==> {
                &&& final(router)@.pending == shown
                &&& now + old(router)@.debounce_millis <= u64::MAX ==> final(router)@.switch_at == Some(
                    (now + old(router)@.debounce_millis) as u64,
                )
            }
            &&& old(router)@.streamed is Some && (shown is None || shown == old(router)@.streamed)
                ==> final(router)@.pending is None && final(router)@.switch_at is None
            &&& old(router)@.streamed is None && shown is Some ==> final(router)@.streamed == shown
                && final(router)@.pending is None && final(router)@.switch_at is None
            &&& old(router)@.streamed is None && shown is None ==> final(router)@ == old(router)@
            &&& final(router)@.debounce_millis == old(router)@.debounce_millis
        }),
{
}

/// What was planned is taken out once, and the streamed monitor stays until the switch is done.
pub proof fn law_a_planned_switch_is_taken_once(
    router: &mut FollowFocusRouter,
    first: Option<DisplayId>,
    afterwards: &mut FollowFocusRouter,
    second: Option<DisplayId>,
)
    requires
        call_ensures(FollowFocusRouter::commit_pending, (router,), first),
        *final(router) == *old(afterwards),
        call_ensures(FollowFocusRouter::commit_pending, (afterwards,), second),
    ensures
        old(router)@.pending matches Some(target) ==> (first matches Some(display) && display@ == target),
        old(router)@.pending is None ==> first is None,
        second is None,
        final(router)@.streamed == old(router)@.streamed,
        final(router)@.switch_at is None,
{
}

/// A switch that was done makes its monitor the streamed one; one that was not leaves it as it was and
/// is told to the person.
pub proof fn law_only_a_done_switch_changes_the_stream(
    router: &mut FollowFocusRouter,
    target: DisplayId,
    done: bool,
    r: Option<Notification>,
)
    requires
        call_ensures(FollowFocusRouter::switched, (router, target, done), r),
    ensures
        done ==> final(router)@.streamed == Some(target@),
        !done ==> final(router)@.streamed == old(router)@.streamed,
        final(router)@.pending == old(router)@.pending,
        final(router)@.switch_at == old(router)@.switch_at,
        r is Some <==> !done,
{
}

/// A switch that failed is told, and one that was made is not.
pub proof fn law_only_a_failed_switch_is_told(
    done: &mut FollowFocusRouter,
    undone: &mut FollowFocusRouter,
    target: DisplayId,
    silent: Option<Notification>,
    told: Option<Notification>,
)
    requires
        call_ensures(FollowFocusRouter::switched, (done, target, true), silent),
        call_ensures(FollowFocusRouter::switched, (undone, target, false), told),
    ensures
        silent is None,
        told matches Some(n) && n.summary@ == "Omdesky"@ && n.body@
            == "The streamed display could not be changed. The current display will stay active."@,
{
}

} // verus!
