//! Discovery of peers: the beacon that an instance sends, what a received
//! datagram does to the registry, and which peers the cleaner forgets.

use vstd::prelude::*;
use vstd::utf8::encode_utf8;
use crate::announcement::{
    encode_announcement, lemma_announcement_round_trip, parse_datagram, spec_encode_announcement,
    spec_parse_datagram, AnnouncementView,
};
use crate::app_state::{
    distinct_addresses, lemma_registry_at, place_of_address, AppState, AppStateView, Device,
    DeviceView,
};
use crate::text::same_text;

verus! {

/// The UDP port on which beacons are sent and received.
pub const DISCOVERY_PORT: u16 = 53029;

/// The four octets of the multicast group to which beacons are sent.
pub const MULTICAST_GROUP: [u8; 4] = [239, 255, 77, 77];

/// The hop limit of a multicast beacon: it does not leave the local link.
pub const MULTICAST_TTL: u32 = 1;

/// The seconds between two beacons of one transmitter.
pub const ANNOUNCE_INTERVAL_SECS: u64 = 2;

/// The seconds between two rounds of the cleaner.
pub const CLEAN_INTERVAL_SECS: u64 = 2;

/// The silence, in nanoseconds, after which a peer is forgotten.
pub const STALE_AFTER_NANOS: u64 = 6_000_000_000;

/// The largest datagram, in bytes, that the receiver takes in.
pub const MAX_DATAGRAM_BYTES: usize = 1024;

/// The beacon of an instance in the state `state` that is shown as `hostname`.
pub open spec fn spec_beacon(state: AppStateView, hostname: Seq<char>) -> Seq<char> {
    spec_encode_announcement(
        AnnouncementView { instance_id: state.instance_id, hostname, tcp_port: state.port },
    )
}

/// Writes the beacon that this instance sends: its identifier and its port
/// as the state holds them now, and the name under which it is shown.
pub fn beacon(state: &AppState, hostname: &str) -> (text: String)
    ensures
        text@ == spec_beacon(state@, hostname@),
{
    encode_announcement(state.instance_id(), hostname, state.port())
}

/// The record that a beacon saying `a`, received from `source` at the clock
/// reading `now`, makes of its sender.
pub open spec fn heard(a: AnnouncementView, source: Seq<char>, now: u64) -> DeviceView {
    DeviceView { ip: source, hostname: a.hostname, tcp_port: a.tcp_port, last_seen: now }
}

/// Whether the datagram `datagram` makes a peer known to an instance in the
/// state `state`: it is a well-formed beacon, and not one of this instance.
pub open spec fn makes_known(state: AppStateView, datagram: Seq<u8>) -> bool {
    spec_parse_datagram(datagram) matches Some(a) && a.instance_id != state.instance_id
}

/// The state after the datagram `datagram` came from `source` at the clock
/// reading `now`.
pub open spec fn spec_after_datagram(
    state: AppStateView,
    datagram: Seq<u8>,
    source: Seq<char>,
    now: u64,
) -> AppStateView {
    if makes_known(state, datagram) {
        state.with_peer(heard(spec_parse_datagram(datagram)->0, source, now))
    } else {
        state
    }
}

/// A beacon is heard: an instance that takes in the beacon of another
/// records its sender as the beacon says, under the address that the
/// datagram came from; the instance that sent it ignores it. This holds
/// where neither the identifier nor the hostname of the sender holds a
/// colon.
pub proof fn lemma_beacon_is_heard(
    sender: AppStateView,
    hostname: Seq<char>,
    receiver: AppStateView,
    source: Seq<char>,
    now: u64,
)
    requires
        !sender.instance_id.contains(':'),
        !hostname.contains(':'),
        receiver.instance_id != sender.instance_id,
    ensures
        spec_after_datagram(receiver, encode_utf8(spec_beacon(sender, hostname)), source, now)
            == receiver.with_peer(
            DeviceView { ip: source, hostname, tcp_port: sender.port, last_seen: now },
        ),
        spec_after_datagram(sender, encode_utf8(spec_beacon(sender, hostname)), source, now)
            == sender,
{
    lemma_announcement_round_trip(
        AnnouncementView { instance_id: sender.instance_id, hostname, tcp_port: sender.port },
    );
}

/// Takes in the datagram `datagram` that came from the address `source` at
/// the clock reading `now`. A well-formed beacon of another instance makes
/// its sender known, or refreshes what is known of it; a beacon of this
/// instance and a datagram that is no beacon change nothing. The result says
/// whether the registry was written.
pub fn handle_datagram(state: &mut AppState, datagram: &[u8], source: String, now: u64) -> (known:
    bool)
    requires
        old(state).well_formed(),
    ensures
        final(state).well_formed(),
        known == makes_known(old(state)@, datagram@),
        final(state)@ == spec_after_datagram(old(state)@, datagram@, source@, now),
        // the beacon of another instance: its sender is known, as the beacon says
        spec_parse_datagram(datagram@) matches Some(a) ==> (a.instance_id != old(state)@.instance_id
            ==> final(state)@.peers.dom().contains(source@)
            && final(state)@.peers[source@] == heard(a, source@, now)),
        // the beacon of this instance: nothing changes
        spec_parse_datagram(datagram@) matches Some(a) ==> (a.instance_id == old(state)@.instance_id
            ==> final(state)@ == old(state)@),
        // no beacon at all: nothing changes
        spec_parse_datagram(datagram@) is None ==> final(state)@ == old(state)@,
{
    match parse_datagram(datagram) {
        Some(a) => {
            if same_text(a.instance_id.as_str(), state.instance_id()) {
                false
            } else {
                state.upsert_device(source, a.hostname, a.tcp_port, now);
                true
            }
        },
        None => false,
    }
}

/// The time, in nanoseconds, from the clock reading `last_seen` to the
/// reading `now`; none where `now` is the earlier of the two.
pub open spec fn elapsed(now: u64, last_seen: u64) -> nat {
    if now >= last_seen {
        (now - last_seen) as nat
    } else {
        0
    }
}

/// Whether the peer `d` has been silent for longer than the threshold at the
/// clock reading `now`.
pub open spec fn is_stale(d: DeviceView, now: u64) -> bool {
    elapsed(now, d.last_seen) > STALE_AFTER_NANOS
}

/// The peers of `peers` that are not stale at the clock reading `now`.
pub open spec fn surviving(peers: Map<Seq<char>, DeviceView>, now: u64) -> Map<
    Seq<char>,
    DeviceView,
> {
    Map::new(
        |ip: Seq<char>| peers.dom().contains(ip) && !is_stale(peers[ip], now),
        |ip: Seq<char>| peers[ip],
    )
}

/// Whether the peer `device` is stale at the clock reading `now`.
pub fn device_is_stale(device: &Device, now: u64) -> (r: bool)
    ensures
        r == is_stale(device@, now),
{
    now >= device.last_seen && now - device.last_seen > STALE_AFTER_NANOS
}

/// The addresses of the peers that are stale at the clock reading `now`,
/// each once.
pub fn stale_addresses(state: &AppState, now: u64) -> (stale: Vec<String>)
    requires
        state.well_formed(),
    ensures
        forall|k: int|
            0 <= k < stale@.len() ==> state@.peers.dom().contains((#[trigger] stale@[k])@)
                && is_stale(state@.peers[stale@[k]@], now),
        forall|ip: Seq<char>|
            state@.peers.dom().contains(ip) && is_stale(state@.peers[ip], now) ==> exists|k: int|
                0 <= k < stale@.len() && (#[trigger] stale@[k])@ == ip,
        forall|k: int, m: int|
            0 <= k < m < stale@.len() ==> (#[trigger] stale@[k])@ != (#[trigger] stale@[m])@,
{
    let devices: Vec<Device> = state.snapshot();
    let mut stale: Vec<String> = Vec::new();
    let ghost mut origin: Seq<int> = Seq::empty();
    let mut i: usize = 0;
    while i < devices.len()
        invariant
            i <= devices@.len(),
            distinct_addresses(devices@),
            origin.len() == stale@.len(),
            forall|k: int|
                0 <= k < stale@.len() ==> 0 <= (#[trigger] origin[k]) < i && devices@[origin[k]].ip@
                    == stale@[k]@ && is_stale(devices@[origin[k]]@, now),
            forall|k: int, m: int| 0 <= k < m < origin.len() ==> origin[k] < origin[m],
            forall|j: int|
                0 <= j < i && is_stale((#[trigger] devices@[j])@, now) ==> exists|k: int|
                    0 <= k < stale@.len() && (#[trigger] stale@[k])@ == devices@[j].ip@,
        decreases devices@.len() - i,
    {
        if device_is_stale(&devices[i], now) {
            let ghost before = stale@;
            stale.push(devices[i].ip.clone());
            proof {
                origin = origin.push(i as int);
                assert forall|j: int|
                    0 <= j < i + 1 && is_stale((#[trigger] devices@[j])@, now) implies exists|
                    k: int,
                |
                    0 <= k < stale@.len() && (#[trigger] stale@[k])@ == devices@[j].ip@ by {
                    if j < i {
                        let k = choose|k: int|
                            0 <= k < before.len() && (#[trigger] before[k])@ == devices@[j].ip@;
                        assert(stale@[k]@ == devices@[j].ip@);
                    } else {
                        assert(stale@[stale@.len() - 1]@ == devices@[j].ip@);
                    }
                }
            }
        }
        i = i + 1;
    }
    proof {
        assert forall|k: int| 0 <= k < stale@.len() implies state@.peers.dom().contains(
            (#[trigger] stale@[k])@,
        ) && is_stale(state@.peers[stale@[k]@], now) by {
            lemma_registry_at(devices@, origin[k]);
        }
        assert forall|ip: Seq<char>|
            state@.peers.dom().contains(ip) && is_stale(state@.peers[ip], now) implies exists|
            k: int,
        |
            0 <= k < stale@.len() && (#[trigger] stale@[k])@ == ip by {
            let j = place_of_address(devices@, ip);
            lemma_registry_at(devices@, j);
            assert(is_stale(devices@[j]@, now));
        }
        assert forall|k: int, m: int| 0 <= k < m < stale@.len() implies (#[trigger] stale@[k])@ != (
        #[trigger] stale@[m])@ by {
            assert(origin[k] < origin[m]);
        }
    }
    stale
}

/// The peers of `peers` but those at the first `n` addresses of `gone`.
pub open spec fn without(peers: Map<Seq<char>, DeviceView>, gone: Seq<String>, n: int) -> Map<
    Seq<char>,
    DeviceView,
> {
    Map::new(
        |ip: Seq<char>|
            peers.dom().contains(ip) && !(exists|k: int|
                0 <= k < n && (#[trigger] gone[k])@ == ip),
        |ip: Seq<char>| peers[ip],
    )
}

/// One round of the cleaner at the clock reading `now`: every peer that has
/// been silent for longer than the threshold is forgotten, and no other. The
/// result holds the addresses that were forgotten.
pub fn remove_stale(state: &mut AppState, now: u64) -> (removed: Vec<String>)
    requires
        old(state).well_formed(),
    ensures
        final(state).well_formed(),
        final(state)@ == (AppStateView { peers: surviving(old(state)@.peers, now), ..old(state)@ }),
        // a peer stays exactly as long as its silence is within the threshold
        forall|ip: Seq<char>|
            final(state)@.peers.dom().contains(ip) <==> old(state)@.peers.dom().contains(ip)
                && elapsed(now, old(state)@.peers[ip].last_seen) <= STALE_AFTER_NANOS,
        forall|ip: Seq<char>| #[trigger]
            final(state)@.peers.dom().contains(ip) ==> final(state)@.peers[ip]
                == old(state)@.peers[ip],
        forall|k: int|
            0 <= k < removed@.len() ==> old(state)@.peers.dom().contains((#[trigger] removed@[k])@)
                && is_stale(old(state)@.peers[removed@[k]@], now),
        forall|ip: Seq<char>|
            old(state)@.peers.dom().contains(ip) && is_stale(old(state)@.peers[ip], now)
                ==> exists|k: int| 0 <= k < removed@.len() && (#[trigger] removed@[k])@ == ip,
        forall|k: int, m: int|
            0 <= k < m < removed@.len() ==> (#[trigger] removed@[k])@ != (#[trigger] removed@[m])@,
{
    let stale: Vec<String> = stale_addresses(state, now);
    let ghost start = state@;
    assert(without(start.peers, stale@, 0) =~= start.peers);
    let mut i: usize = 0;
    while i < stale.len()
        invariant
            i <= stale@.len(),
            state.well_formed(),
            state@ == (AppStateView { peers: without(start.peers, stale@, i as int), ..start }),
        decreases stale@.len() - i,
    {
        state.remove_device(stale[i].as_str());
        assert(without(start.peers, stale@, i as int).remove(stale@[i as int]@) =~= without(
            start.peers,
            stale@,
            i + 1,
        ));
        i = i + 1;
    }
    assert(without(start.peers, stale@, stale@.len() as int) =~= surviving(start.peers, now));
    stale
}

} // verus!
