//! Finding the machine that a person names.
use vstd::prelude::*;
use vstd::string::*;

use crate::domain::{IpAddr, MeshPeer, MeshPeerView};
use crate::seqs::{lemma_filter_nothing, lemma_filter_step};
use crate::strings::{
    is_same_ignoring_case, same_ignoring_case, same_text, split_text, split_when, texts, trim_text,
    trim_trailing_dots, trimmed, without_trailing_dots,
};

verus! {

#[derive(Debug, PartialEq, Eq)]
pub enum PeerLookupError {
    NotFound,
    Ambiguous(Vec<String>),
}

/// A DNS name without the dot of the root.
pub open spec fn spec_full_dns_name(dns_name: Seq<char>) -> Seq<char> {
    without_trailing_dots(dns_name)
}

pub fn full_dns_name(dns_name: &str) -> (r: String)
    ensures
        r@ == spec_full_dns_name(dns_name@),
{
    trim_trailing_dots(dns_name)
}

/// The first label of a DNS name.
pub open spec fn short_dns_name(full: Seq<char>) -> Seq<char> {
    split_when(full, dots())[0]
}

pub open spec fn dots() -> spec_fn(char) -> bool {
    |c: char| c == '.'
}

fn is_dot(c: char) -> (r: bool)
    ensures
        r == dots()(c),
{
    c == '.'
}

/// A name that cannot belong to two machines: the DNS name, or the node identifier.
pub open spec fn unique_name_of(peer: MeshPeerView) -> Seq<char> {
    match peer.dns_name {
        Some(dns_name) => spec_full_dns_name(dns_name),
        None => peer.tailnet_node_id,
    }
}

/// The name under which a machine is shown.
pub open spec fn display_name_of(peer: MeshPeerView) -> Seq<char> {
    match peer.hostname {
        Some(hostname) => hostname,
        None => unique_name_of(peer),
    }
}

pub fn unique_name(peer: &MeshPeer) -> (r: String)
    ensures
        r@ == unique_name_of(peer@),
{
    match &peer.dns_name {
        Some(dns_name) => full_dns_name(dns_name.as_str()),
        None => peer.tailnet_node_id.clone(),
    }
}

pub fn display_name(peer: &MeshPeer) -> (r: String)
    ensures
        r@ == display_name_of(peer@),
{
    match &peer.hostname {
        Some(hostname) => hostname.clone(),
        None => unique_name(peer),
    }
}

/// Whether `target` names the machine: by its node identifier, by its host name, or by its DNS
/// name in full or by its first label. Letter case counts in the identifier only.
pub open spec fn peer_named(peer: MeshPeerView, target: Seq<char>) -> bool {
    target.len() > 0 && (peer.tailnet_node_id == target || (peer.hostname is Some
        && same_ignoring_case(peer.hostname->0, target)) || (peer.dns_name is Some && ({
        let full = spec_full_dns_name(peer.dns_name->0);
        same_ignoring_case(full, without_trailing_dots(target)) || same_ignoring_case(
            short_dns_name(full),
            target,
        )
    })))
}

pub fn names_peer(peer: &MeshPeer, target: &str) -> (r: bool)
    ensures
        r == peer_named(peer@, target@),
{
    if target.is_empty() {
        return false;
    }
    if same_text(peer.tailnet_node_id.as_str(), target) {
        return true;
    }
    if let Some(hostname) = &peer.hostname {
        if is_same_ignoring_case(hostname.as_str(), target) {
            return true;
        }
    }
    if let Some(dns_name) = &peer.dns_name {
        let full = full_dns_name(dns_name.as_str());
        let labels = split_text(full.as_str(), is_dot, Ghost(dots()));
        assert(texts(labels@)[0] == labels@[0]@);
        return is_same_ignoring_case(full.as_str(), trim_trailing_dots(target).as_str())
            || is_same_ignoring_case(labels[0].as_str(), target);
    }
    false
}

/// The machines that a target picks out: by address where it is one, else by name.
pub open spec fn picked(target: Seq<char>, address: Option<IpAddr>) -> spec_fn(MeshPeer) -> bool {
    |peer: MeshPeer|
        match address {
            Some(address) => peer.ips@.contains(address),
            None => peer_named(peer@, target),
        }
}

pub open spec fn matching(peers: Seq<MeshPeer>, target: Seq<char>, address: Option<IpAddr>) -> Seq<
    MeshPeer,
> {
    peers.filter(picked(trimmed(target), address))
}

fn has_address(peer: &MeshPeer, address: IpAddr) -> (r: bool)
    ensures
        r == peer.ips@.contains(address),
{
    let mut i: usize = 0;
    while i < peer.ips.len()
        invariant
            i <= peer.ips@.len(),
            forall|k: int| 0 <= k < i ==> peer.ips@[k] != address,
        decreases peer.ips@.len() - i,
    {
        if peer.ips[i] == address {
            return true;
        }
        i += 1;
    }
    false
}

/// The one machine that `target` picks out. `address` is the address that the target, without
/// the white space around it, denotes, where it is an address.
pub fn find_peer<'a>(peers: &'a [MeshPeer], target: &str, address: Option<IpAddr>) -> (r: Result<
    &'a MeshPeer,
    PeerLookupError,
>)
    ensures
        match r {
            Ok(peer) => matching(peers@, target@, address) == seq![*peer],
            Err(PeerLookupError::NotFound) => matching(peers@, target@, address).len() == 0,
            Err(PeerLookupError::Ambiguous(names)) => matching(peers@, target@, address).len() > 1
                && texts(names@) == matching(peers@, target@, address).map_values(
                |peer: MeshPeer| unique_name_of(peer@),
            ),
        },
{
    let wanted = trim_text(target);
    let ghost p = picked(wanted@, address);
    let mut found: Option<usize> = None;
    let mut names: Vec<String> = Vec::new();
    let ghost mut all: Seq<MeshPeer> = Seq::empty();
    let mut i: usize = 0;
    proof {
        lemma_filter_nothing(peers@.take(0), p);
        assert(all =~= peers@.take(0).filter(p));
    }
    while i < peers.len()
        invariant
            i <= peers@.len(),
            p == picked(wanted@, address),
            all == peers@.take(i as int).filter(p),
            texts(names@) == all.map_values(|peer: MeshPeer| unique_name_of(peer@)),
            names@.len() == all.len(),
            all.len() == 0 ==> found is None,
            all.len() > 0 ==> found is Some && found->0 < peers@.len() && all[0]
                == peers@[found->0 as int],
        decreases peers@.len() - i,
    {
        let hit = match address {
            Some(address) => has_address(&peers[i], address),
            None => names_peer(&peers[i], wanted.as_str()),
        };
        assert(hit == p(peers@[i as int]));
        proof {
            lemma_filter_step(peers@, p, i as int);
        }
        if hit {
            let ghost before = names@;
            let ghost earlier = all;
            let name = unique_name(&peers[i]);
            names.push(name);
            proof {
                all = all.push(peers@[i as int]);
            }
            assert(texts(names@) =~= texts(before).push(name@));
            assert(all.map_values(|peer: MeshPeer| unique_name_of(peer@)) =~= earlier.map_values(
                |peer: MeshPeer| unique_name_of(peer@),
            ).push(name@));
            if found.is_none() {
                found = Some(i);
            }
        }
        i += 1;
    }
    assert(peers@.take(peers@.len() as int) =~= peers@);
    match found {
        None => Err(PeerLookupError::NotFound),
        Some(at) => {
            if names.len() == 1 {
                assert(all =~= seq![peers@[at as int]]);
                Ok(&peers[at])
            } else {
                Err(PeerLookupError::Ambiguous(names))
            }
        },
    }
}

/// An empty name selects no machine.
pub proof fn law_empty_target_names_nothing(peer: MeshPeerView)
    ensures
        !peer_named(peer, Seq::empty()),
{
}

/// Letter case does not matter in host names: a machine is found under its host name however it
/// is capitalised.
pub proof fn law_host_names_ignore_case(peer: MeshPeerView, target: Seq<char>)
    requires
        peer.hostname is Some,
        target.len() > 0,
        same_ignoring_case(peer.hostname->0, target),
    ensures
        peer_named(peer, target),
{
}

/// The machine that is found is the only one that the target picks out. Where none or several are
/// picked out, none is found, and of several each is named.
pub proof fn law_a_machine_is_found_where_it_is_the_only_one<'a>(
    peers: &'a [MeshPeer],
    target: &str,
    address: Option<IpAddr>,
    r: Result<&'a MeshPeer, PeerLookupError>,
    i: int,
    j: int,
)
    requires
        call_ensures(find_peer, (peers, target, address), r),
        0 <= i < peers@.len(),
        0 <= j < peers@.len(),
        i != j,
    ensures
        r matches Ok(peer) ==> peers@.contains(*peer) && picked(trimmed(target@), address)(*peer),
        picked(trimmed(target@), address)(peers@[i]) && picked(trimmed(target@), address)(peers@[j])
            ==> r is Err && r->Err_0 is Ambiguous,
        picked(trimmed(target@), address)(peers@[i]) ==> !(r is Err && r->Err_0 is NotFound),
        (forall|k: int|
            0 <= k < peers@.len() ==> !picked(trimmed(target@), address)(#[trigger] peers@[k])) ==> r is Err
            && r->Err_0 is NotFound,
        (picked(trimmed(target@), address)(peers@[i]) && forall|k: int|
            0 <= k < peers@.len() && k != i ==> !picked(trimmed(target@), address)(
                #[trigger] peers@[k],
            )) ==> (r matches Ok(peer) && *peer == peers@[i]),
{
    let p = picked(trimmed(target@), address);
    let found = peers@.filter(p);
    let places = crate::seqs::lemma_filter_places(peers@, p);
    if let Ok(peer) = r {
        assert(found[0] == *peer);
        peers@.lemma_filter_pred(p, 0);
        assert(peers@[places[0]] == *peer);
    }
    if p(peers@[i]) {
        peers@.lemma_filter_contains(p, i);
        assert(found.len() > 0);
        if p(peers@[j]) {
            if i < j {
                lemma_two_are_kept(peers@, p, i, j);
            } else {
                lemma_two_are_kept(peers@, p, j, i);
            }
        }
        if forall|k: int| 0 <= k < peers@.len() && k != i ==> !p(#[trigger] peers@[k]) {
            peers@.lemma_filter_pred(p, 0);
            assert(p(peers@[places[0]]));
            if found.len() > 1 {
                peers@.lemma_filter_pred(p, 1);
                assert(places[0] < places[1]);
                assert(p(peers@[places[1]]));
            }
        }
    }
    if found.len() > 0 {
        peers@.lemma_filter_pred(p, 0);
        assert(p(peers@[places[0]]));
    }
}

proof fn lemma_two_are_kept<T>(s: Seq<T>, p: spec_fn(T) -> bool, i: int, j: int)
    requires
        0 <= i < j < s.len(),
        p(s[i]),
        p(s[j]),
    ensures
        s.filter(p).len() >= 2,
{
    let a = s.take(j);
    let b = s.skip(j);
    assert(s =~= a + b);
    Seq::filter_distributes_over_add(a, b, p);
    assert(a[i] == s[i]);
    assert(b[0] == s[j]);
    a.lemma_filter_contains(p, i);
    b.lemma_filter_contains(p, 0);
    assert(a.filter(p).len() > 0);
    assert(b.filter(p).len() > 0);
}

/// A target picks out the machines that have it as an address, where it is one; else those that have
/// it as their identifier, or, letter case aside, as their host name, their full name or the first
/// label of that.
pub proof fn law_a_machine_answers_to_its_names(peer: MeshPeer, target: &str, r: bool)
    requires
        call_ensures(names_peer, (&peer, target), r),
    ensures
        target@.len() == 0 ==> !r,
        target@.len() > 0 && peer.tailnet_node_id@ == target@ ==> r,
        target@.len() > 0 && (peer.hostname matches Some(name) && same_ignoring_case(name@, target@)) ==> r,
        target@.len() > 0 && (peer.dns_name matches Some(name) && same_ignoring_case(
            without_trailing_dots(name@),
            without_trailing_dots(target@),
        )) ==> r,
        target@.len() > 0 && (peer.dns_name matches Some(name) && same_ignoring_case(
            split_when(without_trailing_dots(name@), |c: char| c == '.')[0],
            target@,
        )) ==> r,
        peer.tailnet_node_id@ != target@ && peer.hostname is None && peer.dns_name is None ==> !r,
        peer.tailnet_node_id@ != target@ && peer.dns_name is None ==> (r ==> (peer.hostname matches Some(
            name,
        ) && same_ignoring_case(name@, target@))),
{
    assert(peer@.hostname == crate::strings::opt_text(peer.hostname));
    assert(peer@.dns_name == crate::strings::opt_text(peer.dns_name));
}

/// A machine is shown under its host name; without one under its full name, and without that under its
/// identifier.
pub proof fn law_a_machine_is_shown_under_its_name(peer: MeshPeer, unique: String, shown: String)
    requires
        call_ensures(unique_name, (&peer,), unique),
        call_ensures(display_name, (&peer,), shown),
    ensures
        peer.dns_name matches Some(name) ==> unique@ == without_trailing_dots(name@),
        peer.dns_name is None ==> unique@ == peer.tailnet_node_id@,
        peer.hostname matches Some(name) ==> shown@ == name@,
        peer.hostname is None ==> shown@ == unique@,
{
}

/// A full name is the name without the dots at its end.
pub proof fn law_a_full_name_ends_without_a_dot(name: &str, base: Seq<char>, r: String)
    requires
        call_ensures(full_dns_name, (name,), r),
        name@ == base + seq!['.'] || name@ == base,
        base.len() > 0,
        base.last() != '.',
    ensures
        r@ == base,
{
    reveal_with_fuel(crate::strings::trim_end_when, 3);
    if name@ == base + seq!['.'] {
        assert(name@.drop_last() =~= base);
    }
}

} // verus!
