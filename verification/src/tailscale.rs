//! Tailscale peers: which are listed, what each is called and tagged, the
//! addresses its actions use, and the order of the list.

use vstd::prelude::*;

use crate::chars::{str_concat, same_str};
use crate::bitwarden::cmd_modifiers;
use crate::keys::{Keystroke, Modifiers};
use crate::list::{Item, ItemBuilder};
use crate::sort::{sort_by_text, sorted_text_from};
use crate::state::{Action, Shortcut, action_is};
use crate::strs::{split, split_from};

verus! {

/// A peer as `tailscale status --json` reports it.
#[derive(Debug)]
pub struct Peer {
    pub id: String,
    pub dns_name: String,
    pub os: String,
    pub tailscale_ips: Vec<String>,
    pub online: bool,
    /// The day it was last seen, as `YYYY-MM-DD`.
    pub last_seen: String,
}

/// Whether offline peers are listed: the filter reads `offline`.
pub fn show_offline(filter: &str) -> (r: bool)
    ensures
        r == (filter@ == "offline"@),
{
    same_str(filter, "offline")
}

/// A peer is listed when it is online or offline peers are shown.
pub open spec fn is_listed(peer: Peer, offline: bool) -> bool {
    offline || peer.online
}

/// The name of a peer: its DNS name up to the first `.`.
pub open spec fn peer_name_spec(dns_name: Seq<char>) -> Seq<char> {
    split_from(dns_name, "."@, 0)[0]
}

/// The name of a peer.
pub fn peer_name(dns_name: &str) -> (r: String)
    ensures
        r@ == peer_name_spec(dns_name@),
{
    proof {
        reveal_strlit(".");
        crate::strs::lemma_split_from_nonempty(dns_name@, "."@, 0);
    }
    let parts = split(dns_name, ".");
    proof {
        assert(parts@.map_values(|p: String| p@).len() == parts@.len());
        assert(parts@.map_values(|p: String| p@)[0] == parts@[0]@);
    }
    parts[0].clone()
}

/// The tag of a peer: `Connected`, or when it was last seen.
pub open spec fn peer_tag_spec(peer: Peer) -> Seq<char> {
    if peer.online {
        "Connected"@
    } else {
        "Last seen: "@ + peer.last_seen@
    }
}

/// A peer as listed: its entry, its tag, and the addresses its actions
/// open and copy.
pub struct PeerEntry {
    pub item: Item,
    pub name: String,
    pub tag: String,
    pub url: String,
    pub ipv4: String,
    pub ipv6: String,
}

/// The modifiers of Copy IPv6: the command key with shift.
pub open spec fn copy_ipv6_modifiers() -> Modifiers {
    Modifiers { platform: true, shift: true, ..Modifiers::none_spec() }
}

/// `e` is the entry of `peer` with item id `id`: named and found by its
/// name, tagged, opening `https://` and its first address, copying its
/// first and last addresses.
pub open spec fn is_peer_entry(id: u64, peer: Peer, macos: bool, e: PeerEntry) -> bool {
    let ips = peer.tailscale_ips@;
    &&& e.item.id == id
    &&& e.name@ == peer_name_spec(peer.dns_name@)
    &&& e.item.subtitle matches Some(o) && o@ == peer.os@
    &&& e.item.keywords@.map_values(|k: String| k@) == seq![peer_name_spec(peer.dns_name@)]
    &&& e.tag@ == peer_tag_spec(peer)
    &&& e.ipv4@ == ips[0]@
    &&& e.ipv6@ == ips.last()@
    &&& e.url@ == "https://"@ + ips[0]@
    &&& e.item.actions@.len() == 3
    &&& action_is(e.item.actions@[0], "Open"@, None)
    &&& action_is(e.item.actions@[1], "Copy IPv4"@, Some(("c"@, cmd_modifiers(macos))))
    &&& action_is(e.item.actions@[2], "Copy IPv6"@, Some(("c"@, copy_ipv6_modifiers())))
}

/// The entry of a peer with at least one address.
pub fn peer_entry(id: u64, peer: &Peer, macos: bool) -> (r: PeerEntry)
    requires
        peer.tailscale_ips@.len() > 0,
    ensures
        is_peer_entry(id, *peer, macos, r),
{
    let name = peer_name(peer.dns_name.as_str());
    let tag = if peer.online {
        "Connected".to_string()
    } else {
        str_concat("Last seen: ", peer.last_seen.as_str())
    };
    let n = peer.tailscale_ips.len();
    let ipv4 = peer.tailscale_ips[0].clone();
    let ipv6 = peer.tailscale_ips[n - 1].clone();
    let url = str_concat("https://", ipv4.as_str());
    let mut actions: Vec<Action> = Vec::new();
    actions.push(Action::new("Open", None, false));
    actions.push(Action::new("Copy IPv4", Some(Shortcut::new("c").cmd(macos)), false));
    let mut mods = Modifiers::none();
    mods.platform = true;
    mods.shift = true;
    let ks = Keystroke { modifiers: mods, key: "c".to_string(), ime_key: None };
    actions.push(Action::new("Copy IPv6", Some(Shortcut { inner: ks }), false));
    let mut keywords: Vec<String> = Vec::new();
    keywords.push(name.clone());
    proof {
        assert(keywords@.map_values(|k: String| k@) =~= seq![peer_name_spec(peer.dns_name@)]);
    }
    let item = ItemBuilder::new(id).keywords(keywords).actions(actions).subtitle(peer.os.clone()).build();
    PeerEntry { item, name, tag, url, ipv4, ipv6 }
}

/// The positions of the listed peers, in order.
pub open spec fn listed_positions(peers: Seq<Peer>, offline: bool) -> Seq<int>
    decreases peers.len(),
{
    if peers.len() == 0 {
        Seq::empty()
    } else if is_listed(peers.last(), offline) {
        listed_positions(peers.drop_last(), offline).push(peers.len() - 1)
    } else {
        listed_positions(peers.drop_last(), offline)
    }
}

/// `e` is the entry of the peer at position `p`.
pub open spec fn peer_at(peers: Seq<Peer>, ids: Seq<u64>, macos: bool, p: int, e: PeerEntry) -> bool {
    0 <= p < peers.len() && is_peer_entry(ids[p], peers[p], macos, e)
}

/// `r` holds the entries of the peers at `positions`, in that order.
pub open spec fn peers_at(positions: Seq<int>, peers: Seq<Peer>, ids: Seq<u64>, macos: bool, r: Seq<PeerEntry>) -> bool {
    &&& r.len() == positions.len()
    &&& forall|k: int| 0 <= k < r.len() ==> peer_at(peers, ids, macos, positions[k], #[trigger] r[k])
}

/// The entries of the listed peers, in the order of `peers`; `ids[i]` is
/// the item id of `peers[i]`.
pub fn peer_entries(peers: &Vec<Peer>, ids: &Vec<u64>, offline: bool, macos: bool) -> (r: Vec<PeerEntry>)
    requires
        peers.len() == ids.len(),
        forall|i: int| 0 <= i < peers@.len() ==> (#[trigger] peers@[i]).tailscale_ips@.len() > 0,
    ensures
        peers_at(listed_positions(peers@, offline), peers@, ids@, macos, r@),
{
    let mut r: Vec<PeerEntry> = Vec::new();
    let mut i: usize = 0;
    while i < peers.len()
        invariant
            i <= peers@.len(),
            peers.len() == ids.len(),
            forall|i: int| 0 <= i < peers@.len() ==> (#[trigger] peers@[i]).tailscale_ips@.len() > 0,
            peers_at(listed_positions(peers@.take(i as int), offline), peers@, ids@, macos, r@),
        decreases peers.len() - i,
    {
        let ghost old_r = r@;
        let ghost old_lp = listed_positions(peers@.take(i as int), offline);
        proof {
            assert(peers@.take(i + 1).drop_last() =~= peers@.take(i as int));
            assert(peers@.take(i + 1).last() == peers@[i as int]);
        }
        if offline || peers[i].online {
            let e = peer_entry(ids[i], &peers[i], macos);
            r.push(e);
            proof {
                let lp = listed_positions(peers@.take(i + 1), offline);
                assert forall|k: int| 0 <= k < r@.len() implies peer_at(peers@, ids@, macos, lp[k], #[trigger] r@[k]) by {
                    if k < old_r.len() {
                        assert(r@[k] == old_r[k]);
                        assert(lp[k] == old_lp[k]);
                    } else {
                        assert(lp[k] == i);
                        assert(r@[k] == e);
                    }
                }
            }
        } else {
            proof {
                assert(listed_positions(peers@.take(i + 1), offline) == old_lp);
                assert(peers_at(old_lp, peers@, ids@, macos, r@));
            }
        }
        i = i + 1;
    }
    proof {
        assert(peers@.take(i as int) =~= peers@);
    }
    r
}

/// The listed peers ordered by name; peers of the same name keep their
/// order.
pub fn by_name(entries: Vec<PeerEntry>) -> (r: Vec<PeerEntry>)
    ensures
        sorted_text_from(r@, entries@, entries@.map_values(|e: PeerEntry| e.name@)),
{
    let mut keys: Vec<String> = Vec::new();
    let mut i: usize = 0;
    while i < entries.len()
        invariant
            i <= entries@.len(),
            keys@.map_values(|k: String| k@) == entries@.take(i as int).map_values(|e: PeerEntry| e.name@),
        decreases entries.len() - i,
    {
        let ghost before = keys@.map_values(|k: String| k@);
        keys.push(entries[i].name.clone());
        proof {
            assert(keys@.map_values(|k: String| k@) =~= before.push(entries@[i as int].name@));
            assert(entries@.take(i + 1) =~= entries@.take(i as int).push(entries@[i as int]));
            assert(entries@.take(i + 1).map_values(|e: PeerEntry| e.name@) =~= entries@.take(i as int).map_values(
                |e: PeerEntry| e.name@,
            ).push(entries@[i as int].name@));
        }
        i = i + 1;
    }
    proof {
        assert(entries@.take(i as int) =~= entries@);
    }
    sort_by_text(entries, keys)
}

/// The filter of the peers list, as `(value, label)` pairs.
pub fn peer_filter_options() -> (r: Vec<(String, String)>)
    ensures
        r@.map_values(|o: (String, String)| (o.0@, o.1@)) == seq![
            ("online"@, "Hide Offline"@),
            ("offline"@, "Show Offline"@),
        ],
{
    let mut r: Vec<(String, String)> = Vec::new();
    r.push(("online".to_string(), "Hide Offline".to_string()));
    r.push(("offline".to_string(), "Show Offline".to_string()));
    proof {
        assert(r@.map_values(|o: (String, String)| (o.0@, o.1@)) =~= seq![
            ("online"@, "Hide Offline"@),
            ("offline"@, "Show Offline"@),
        ]);
    }
    r
}

} // verus!
