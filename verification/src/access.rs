//! Which computers may control this one, and what a controller must grant back.
use vstd::prelude::*;
use vstd::string::*;

use crate::domain::{joined, ControlCapability};
use crate::ports::{
    outcome, port_error, AllowedController, MeshNodeIdentity, PortError, PortErrorView, PortResult,
};
use crate::seqs::{first_where, lemma_filter_nothing, lemma_filter_step, lemma_first_where_at, lemma_first_where_none};
use crate::strings::same_text;

verus! {

/// The entries for a machine.
pub open spec fn is_for(id: Seq<char>) -> spec_fn(AllowedController) -> bool {
    |entry: AllowedController| entry.tailnet_node_id@ == id
}

/// The entries for other machines.
pub open spec fn is_not_for(id: Seq<char>) -> spec_fn(AllowedController) -> bool {
    |entry: AllowedController| entry.tailnet_node_id@ != id
}

/// The first entry for a machine.
pub open spec fn entry_of(allowlist: Seq<AllowedController>, id: Seq<char>) -> Option<AllowedController> {
    first_where(allowlist, is_for(id))
}

/// Whether the entry for a machine, if there is one, grants the capability.
pub open spec fn grants(
    allowlist: Seq<AllowedController>,
    id: Seq<char>,
    capability: ControlCapability,
) -> bool {
    entry_of(allowlist, id) matches Some(entry) && entry.spec_allows(capability)
}

pub fn find_entry<'a>(allowlist: &'a [AllowedController], id: &str) -> (r: Option<&'a AllowedController>)
    ensures
        match r {
            Some(entry) => entry_of(allowlist@, id@) == Some(*entry),
            None => entry_of(allowlist@, id@) is None,
        },
{
    let ghost p = is_for(id@);
    let mut i: usize = 0;
    while i < allowlist.len()
        invariant
            i <= allowlist@.len(),
            p == is_for(id@),
            forall|k: int| 0 <= k < i ==> !p(#[trigger] allowlist@[k]),
        decreases allowlist@.len() - i,
    {
        if same_text(allowlist[i].tailnet_node_id.as_str(), id) {
            proof {
                lemma_first_where_at(allowlist@, p, i as int);
            }
            return Some(&allowlist[i]);
        }
        i += 1;
    }
    proof {
        lemma_first_where_none(allowlist@, p);
    }
    None
}

pub open spec fn if_missing(
    allowlist: Seq<AllowedController>,
    id: Seq<char>,
    capability: ControlCapability,
) -> Seq<ControlCapability> {
    if grants(allowlist, id, capability) {
        seq![]
    } else {
        seq![capability]
    }
}

/// The capabilities that a remote computer needs for its answers and that it is not granted.
pub open spec fn missing_callbacks(allowlist: Seq<AllowedController>, id: Seq<char>) -> Seq<ControlCapability> {
    if_missing(allowlist, id, ControlCapability::SendShortcut) + if_missing(
        allowlist,
        id,
        ControlCapability::CloseStream,
    )
}

pub fn missing_callback_capabilities(allowlist: &[AllowedController], tailnet_node_id: &str) -> (r: Vec<
    ControlCapability,
>)
    ensures
        r@ == missing_callbacks(allowlist@, tailnet_node_id@),
{
    let mut missing: Vec<ControlCapability> = Vec::new();
    match find_entry(allowlist, tailnet_node_id) {
        Some(entry) => {
            if !entry.allows(ControlCapability::SendShortcut) {
                missing.push(ControlCapability::SendShortcut);
            }
            if !entry.allows(ControlCapability::CloseStream) {
                missing.push(ControlCapability::CloseStream);
            }
        },
        None => {
            missing.push(ControlCapability::SendShortcut);
            missing.push(ControlCapability::CloseStream);
        },
    }
    assert(missing@ =~= missing_callbacks(allowlist@, tailnet_node_id@));
    missing
}

pub open spec fn capability_names(capabilities: Seq<ControlCapability>) -> Seq<Seq<char>> {
    capabilities.map_values(|c: ControlCapability| c.spec_as_str())
}

pub open spec fn is_capability_name(name: Seq<char>) -> bool {
    exists|c: ControlCapability| name == #[trigger] c.spec_as_str()
}

/// The names of capabilities with `separator` between each two.
pub fn join_capabilities(capabilities: &[ControlCapability], separator: &str) -> (r: String)
    ensures
        r@ == joined(capability_names(capabilities@), separator@),
{
    let mut out = String::new();
    let ghost names = capability_names(capabilities@);
    let mut i: usize = 0;
    while i < capabilities.len()
        invariant
            i <= capabilities@.len(),
            names == capability_names(capabilities@),
            out@ == joined(names.take(i as int), separator@),
        decreases capabilities@.len() - i,
    {
        if i > 0 {
            out.append(separator);
        }
        out.append(capabilities[i].as_str());
        assert(names.take(i + 1).drop_last() =~= names.take(i as int));
        if i == 0 {
            assert(Seq::<char>::empty() + names[0] =~= names[0]);
        }
        i += 1;
    }
    assert(names.take(names.len() as int) =~= names);
    out
}

pub open spec fn callback_access_failure(missing: Seq<ControlCapability>) -> PortErrorView {
    port_error(
        "CALLBACK_ACCESS_MISSING"@,
        "the controller does not grant "@ + joined(capability_names(missing), ","@)
            + " to the remote device"@,
        false,
    )
}

pub fn callback_access_error(missing: &[ControlCapability]) -> (r: PortError)
    ensures
        r@ == callback_access_failure(missing@),
{
    let names = join_capabilities(missing, ",");
    PortError::new(
        "CALLBACK_ACCESS_MISSING",
        "the controller does not grant ".to_owned().concat(names.as_str()).concat(
            " to the remote device",
        ),
        false,
    )
}

/// The machine behind an address, or the error for one that Tailscale does not know.
pub fn known_identity(identity: Option<MeshNodeIdentity>) -> (r: PortResult<String>)
    ensures
        match identity {
            Some(identity) => r == Ok::<String, PortError>(identity.tailnet_node_id),
            None => outcome(r) == Err::<String, PortErrorView>(
                port_error(
                    "PEER_IDENTITY_UNKNOWN"@,
                    "Tailscale does not know the remote address"@,
                    false,
                ),
            ),
        },
{
    match identity {
        Some(identity) => Ok(identity.tailnet_node_id),
        None => Err(
            PortError::plain(
                "PEER_IDENTITY_UNKNOWN",
                "Tailscale does not know the remote address",
                false,
            ),
        ),
    }
}

/// Whether a remote computer is granted what its answers need.
pub fn verify_callbacks(allowlist: &[AllowedController], tailnet_node_id: &str) -> (r: PortResult<()>)
    ensures
        outcome(r) == (if missing_callbacks(allowlist@, tailnet_node_id@).len() == 0 {
            Ok::<(), PortErrorView>(())
        } else {
            Err(callback_access_failure(missing_callbacks(allowlist@, tailnet_node_id@)))
        }),
{
    let missing = missing_callback_capabilities(allowlist, tailnet_node_id);
    if missing.len() == 0 {
        Ok(())
    } else {
        Err(callback_access_error(missing.as_slice()))
    }
}

/// The entries that are for other machines.
pub open spec fn without_entry(allowlist: Seq<AllowedController>, id: Seq<char>) -> Seq<AllowedController> {
    allowlist.filter(is_not_for(id))
}

/// The list without the entries of a machine.
pub fn revoked(allowlist: Vec<AllowedController>, id: &str) -> (r: Vec<AllowedController>)
    ensures
        r@ == without_entry(allowlist@, id@),
{
    let mut rest = allowlist;
    let mut kept: Vec<AllowedController> = Vec::new();
    let ghost p = is_not_for(id@);
    let ghost all = allowlist@;
    let ghost mut i: int = 0;
    proof {
        lemma_filter_nothing(all.take(0), p);
    }
    assert(kept@ =~= all.take(0).filter(p));
    assert(rest@ =~= all.skip(0));
    while rest.len() > 0
        invariant
            0 <= i <= all.len(),
            rest@ == all.skip(i),
            p == is_not_for(id@),
            kept@ == all.take(i).filter(p),
        decreases rest@.len(),
    {
        let entry = rest.remove(0);
        proof {
            lemma_filter_step(all, p, i);
        }
        assert(rest@ =~= all.skip(i + 1));
        if !same_text(entry.tailnet_node_id.as_str(), id) {
            kept.push(entry);
        }
        proof {
            i = i + 1;
        }
    }
    assert(all.take(i) =~= all);
    kept
}

/// The list with one entry for the controller's machine: the given one, at the end.
pub fn allowed(allowlist: Vec<AllowedController>, controller: AllowedController) -> (r: Vec<
    AllowedController,
>)
    ensures
        r@ == without_entry(allowlist@, controller.tailnet_node_id@).push(controller),
{
    let mut list = revoked(allowlist, controller.tailnet_node_id.as_str());
    list.push(controller);
    list
}

/// A machine whose entry was revoked is granted nothing.
pub proof fn law_revoked_machine_is_granted_nothing(
    allowlist: Seq<AllowedController>,
    id: Seq<char>,
    capability: ControlCapability,
)
    ensures
        entry_of(without_entry(allowlist, id), id) is None,
        !grants(without_entry(allowlist, id), id, capability),
{
    let q = is_not_for(id);
    let p = is_for(id);
    let kept = allowlist.filter(q);
    assert forall|k: int| 0 <= k < kept.len() implies !p(#[trigger] kept[k]) by {
        allowlist.lemma_filter_pred(q, k);
    }
    lemma_first_where_none(kept, p);
}

/// A machine that was allowed is granted exactly what its latest entry grants.
pub proof fn law_allowed_machine_is_granted_its_entry(
    allowlist: Seq<AllowedController>,
    controller: AllowedController,
    capability: ControlCapability,
)
    ensures
        grants(
            without_entry(allowlist, controller.tailnet_node_id@).push(controller),
            controller.tailnet_node_id@,
            capability,
        ) == controller.spec_allows(capability),
{
    let id = controller.tailnet_node_id@;
    let q = is_not_for(id);
    let p = is_for(id);
    let kept = allowlist.filter(q);
    let list = kept.push(controller);
    assert forall|k: int| 0 <= k < kept.len() implies !p(#[trigger] list[k]) by {
        allowlist.lemma_filter_pred(q, k);
        assert(list[k] == kept[k]);
    }
    lemma_first_where_at(list, p, kept.len() as int);
}

/// Allowing or revoking one machine leaves the grants of every other one as they were.
pub proof fn law_other_machines_keep_their_grants(
    allowlist: Seq<AllowedController>,
    id: Seq<char>,
    other: Seq<char>,
    capability: ControlCapability,
)
    requires
        id != other,
    ensures
        grants(without_entry(allowlist, id), other, capability) == grants(
            allowlist,
            other,
            capability,
        ),
{
    let q = is_not_for(id);
    let p = is_for(other);
    lemma_first_of_filtered(allowlist, p, q);
}

proof fn lemma_first_of_filtered<T>(s: Seq<T>, p: spec_fn(T) -> bool, q: spec_fn(T) -> bool)
    requires
        forall|x: T| #[trigger] p(x) ==> q(x),
    ensures
        first_where(s.filter(q), p) == first_where(s, p),
    decreases s.len(),
{
    if s.len() == 0 {
        lemma_filter_nothing(s, q);
    } else {
        let head = seq![s[0]];
        let tail = s.drop_first();
        assert(s =~= head + tail);
        Seq::filter_distributes_over_add(head, tail, q);
        lemma_first_of_filtered(tail, p, q);
        assert(head =~= Seq::<T>::empty().push(s[0]));
        Seq::<T>::empty().lemma_filter_push(s[0], q);
        lemma_filter_nothing(Seq::<T>::empty(), q);
        assert(Seq::<T>::empty().filter(q) =~= Seq::<T>::empty());
        if q(s[0]) {
            assert(s.filter(q).drop_first() =~= tail.filter(q));
        } else {
            assert(s.filter(q) =~= tail.filter(q));
        }
    }
}

/// With an empty list nobody is granted anything.
pub proof fn law_empty_list_grants_nothing(id: Seq<char>, capability: ControlCapability)
    ensures
        !grants(Seq::empty(), id, capability),
{
}

/// A capability is granted by the first entry for the machine and by no other: a later entry for it
/// or an entry for another machine adds nothing.
pub proof fn law_the_first_entry_grants(
    allowlist: Seq<AllowedController>,
    i: int,
    capability: ControlCapability,
)
    requires
        0 <= i < allowlist.len(),
        forall|k: int|
            0 <= k < i ==> (#[trigger] allowlist[k]).tailnet_node_id@
                != allowlist[i].tailnet_node_id@,
    ensures
        grants(allowlist, allowlist[i].tailnet_node_id@, capability)
            == allowlist[i].capabilities@.contains(capability),
{
    let p = is_for(allowlist[i].tailnet_node_id@);
    lemma_first_where_at(allowlist, p, i);
}

/// A machine without an entry is granted nothing.
pub proof fn law_strangers_are_granted_nothing(
    allowlist: Seq<AllowedController>,
    id: Seq<char>,
    capability: ControlCapability,
)
    requires
        forall|k: int| 0 <= k < allowlist.len() ==> (#[trigger] allowlist[k]).tailnet_node_id@ != id,
    ensures
        !grants(allowlist, id, capability),
{
    lemma_first_where_none(allowlist, is_for(id));
}

/// A remote computer needs to send shortcuts and to close the stream, and nothing else; what it lacks
/// of these is named once, in that order.
pub proof fn law_callbacks_are_shortcuts_and_closing(
    allowlist: &[AllowedController],
    id: &str,
    missing: Vec<ControlCapability>,
    r: PortResult<()>,
)
    requires
        call_ensures(missing_callback_capabilities, (allowlist, id), missing),
        call_ensures(verify_callbacks, (allowlist, id), r),
    ensures
        missing@.contains(ControlCapability::SendShortcut) <==> !grants(
            allowlist@,
            id@,
            ControlCapability::SendShortcut,
        ),
        missing@.contains(ControlCapability::CloseStream) <==> !grants(
            allowlist@,
            id@,
            ControlCapability::CloseStream,
        ),
        forall|k: int|
            0 <= k < missing@.len() ==> #[trigger] missing@[k] == ControlCapability::SendShortcut
                || missing@[k] == ControlCapability::CloseStream,
        missing@.len() <= 2,
        r is Ok <==> grants(allowlist@, id@, ControlCapability::SendShortcut) && grants(
            allowlist@,
            id@,
            ControlCapability::CloseStream,
        ),
        r matches Err(error) ==> error.code@ == "CALLBACK_ACCESS_MISSING"@ && !error.retryable,
{
    let first = if_missing(allowlist@, id@, ControlCapability::SendShortcut);
    let second = if_missing(allowlist@, id@, ControlCapability::CloseStream);
    if first.len() > 0 {
        assert(missing@[0] == ControlCapability::SendShortcut);
    }
    if second.len() > 0 {
        assert(missing@[first.len() as int] == ControlCapability::CloseStream);
    }
    assert(outcome(r) is Ok <==> r is Ok);
    if let Err(error) = r {
        assert(outcome(r)->Err_0 == error@);
        assert(error@.code == error.code@);
        assert(error@.retryable == error.retryable);
    }
}

/// Allowing a machine leaves the others alone and gives it the new entry only; revoking it takes
/// every entry for it away and no other.
pub proof fn law_one_machine_is_changed_at_a_time(
    allowlist: Vec<AllowedController>,
    controller: AllowedController,
    id: &str,
    r: Vec<AllowedController>,
    s: Vec<AllowedController>,
    entry: AllowedController,
)
    requires
        call_ensures(allowed, (allowlist, controller), r),
        call_ensures(revoked, (allowlist, id), s),
    ensures
        r@.len() > 0 && r@.last() == controller,
        entry.tailnet_node_id@ != controller.tailnet_node_id@ ==> (r@.contains(entry)
            <==> allowlist@.contains(entry)),
        entry.tailnet_node_id@ == controller.tailnet_node_id@ ==> (r@.contains(entry) <==> entry
            == controller),
        s@.contains(entry) <==> allowlist@.contains(entry) && entry.tailnet_node_id@ != id@,
{
    lemma_filtered_entries(allowlist@, controller.tailnet_node_id@, entry);
    lemma_filtered_entries(allowlist@, id@, entry);
    let kept = without_entry(allowlist@, controller.tailnet_node_id@);
    if kept.contains(entry) {
        let k = choose|k: int| 0 <= k < kept.len() && kept[k] == entry;
        assert(r@[k] == entry);
    }
    if r@.contains(entry) {
        let k = choose|k: int| 0 <= k < r@.len() && r@[k] == entry;
        if k < kept.len() {
            assert(kept[k] == entry);
        }
    }
    assert(r@[kept.len() as int] == controller);
}

proof fn lemma_filtered_entries(allowlist: Seq<AllowedController>, id: Seq<char>, entry: AllowedController)
    ensures
        without_entry(allowlist, id).contains(entry) <==> allowlist.contains(entry)
            && entry.tailnet_node_id@ != id,
{
    let p = is_not_for(id);
    let kept = allowlist.filter(p);
    if kept.contains(entry) {
        let k = choose|k: int| 0 <= k < kept.len() && kept[k] == entry;
        allowlist.lemma_filter_pred(p, k);
        allowlist.lemma_filter_contains_rev(p, entry);
    }
    if allowlist.contains(entry) && p(entry) {
        let k = choose|k: int| 0 <= k < allowlist.len() && allowlist[k] == entry;
        allowlist.lemma_filter_contains(p, k);
    }
}

/// A machine behind an address is named by its identifier; one that Tailscale does not know is an
/// error that is not worth trying again.
pub proof fn law_unknown_machines_have_no_identity(
    identity: Option<MeshNodeIdentity>,
    r: PortResult<String>,
)
    requires
        call_ensures(known_identity, (identity,), r),
    ensures
        r is Ok <==> identity is Some,
        identity matches Some(machine) ==> (r matches Ok(id) && id@ == machine.tailnet_node_id@),
        r matches Err(error) ==> error.code@ == "PEER_IDENTITY_UNKNOWN"@ && !error.retryable,
{
    if let Err(error) = r {
        assert(outcome(r)->Err_0 == error@);
        assert(error@.code == error.code@);
        assert(error@.retryable == error.retryable);
    }
}

/// What is missing is told with its names, a comma between each two; one name alone stands as it
/// is.
pub proof fn law_what_is_not_granted_is_named(
    one: &[ControlCapability],
    two: &[ControlCapability],
    a: ControlCapability,
    b: ControlCapability,
    first: &'static str,
    second: &'static str,
    alone: PortError,
    both: PortError,
)
    requires
        one@ == seq![a],
        two@ == seq![a, b],
        call_ensures(ControlCapability::as_str, (a,), first),
        call_ensures(ControlCapability::as_str, (b,), second),
        call_ensures(callback_access_error, (one,), alone),
        call_ensures(callback_access_error, (two,), both),
    ensures
        alone@.code == "CALLBACK_ACCESS_MISSING"@ && both@.code == "CALLBACK_ACCESS_MISSING"@,
        alone@.message == "the controller does not grant "@ + first@ + " to the remote device"@,
        both@.message == "the controller does not grant "@ + (first@ + ","@ + second@)
            + " to the remote device"@,
        !alone@.retryable && !both@.retryable,
{
    let p = capability_names(one@);
    let q = capability_names(two@);
    assert(p =~= seq![first@]);
    assert(q =~= seq![first@, second@]);
    assert(q.drop_last() =~= p);
    reveal_with_fuel(joined, 3);
}

/// An entry is found by the identity of its machine, the first where several have it.
pub proof fn law_an_entry_is_found_by_its_machine<'a>(
    allowlist: &'a [AllowedController],
    id: &str,
    i: int,
    r: Option<&'a AllowedController>,
)
    requires
        call_ensures(find_entry, (allowlist, id), r),
        0 <= i <= allowlist@.len(),
        forall|k: int| 0 <= k < i ==> (#[trigger] allowlist@[k]).tailnet_node_id@ != id@,
        i < allowlist@.len() ==> allowlist@[i].tailnet_node_id@ == id@,
    ensures
        i < allowlist@.len() ==> r == Some(&allowlist@[i]),
        i == allowlist@.len() ==> r is None,
{
    let p = is_for(id@);
    if i < allowlist@.len() {
        lemma_first_where_at(allowlist@, p, i);
    } else {
        lemma_first_where_none(allowlist@, p);
    }
}

} // verus!
