//! The state that the services of one instance share: who this instance is,
//! which peers it has heard of, and which offered transfers wait for an
//! answer.

use vstd::prelude::*;
use std::path::PathBuf;
use tokio::sync::oneshot::Sender;
use crate::channel::signal;
use crate::text::same_text;

verus! {

/// `std::path::PathBuf`, carried through as it is.
#[verifier::external_type_specification]
#[verifier::external_body]
pub struct ExPathBuf(PathBuf);

/// A peer that was heard of.
#[derive(Debug, Clone)]
pub struct Device {
    /// The address from which the peer announced itself, in its canonical
    /// text form. It is the key of the registry.
    pub ip: String,
    /// The name under which the peer wants to be shown.
    pub hostname: String,
    /// The port on which the peer accepts transfers.
    pub tcp_port: u16,
    /// The reading of the clock, in nanoseconds, at the peer's last beacon.
    pub last_seen: u64,
}

/// A [`Device`] as plain values.
pub struct DeviceView {
    pub ip: Seq<char>,
    pub hostname: Seq<char>,
    pub tcp_port: u16,
    pub last_seen: u64,
}

impl View for Device {
    type V = DeviceView;

    open spec fn view(&self) -> DeviceView {
        DeviceView {
            ip: self.ip@,
            hostname: self.hostname@,
            tcp_port: self.tcp_port,
            last_seen: self.last_seen,
        }
    }
}

/// What is shown of a peer: its address and its name.
#[derive(Debug, Clone)]
pub struct DeviceDto {
    pub ip: String,
    pub hostname: String,
}

/// A [`DeviceDto`] as plain values.
pub struct DeviceDtoView {
    pub ip: Seq<char>,
    pub hostname: Seq<char>,
}

impl View for DeviceDto {
    type V = DeviceDtoView;

    open spec fn view(&self) -> DeviceDtoView {
        DeviceDtoView { ip: self.ip@, hostname: self.hostname@ }
    }
}

/// What is shown of the peer `d`.
pub open spec fn dto_of(d: DeviceView) -> DeviceDtoView {
    DeviceDtoView { ip: d.ip, hostname: d.hostname }
}

impl Device {
    /// What is shown of this peer.
    pub fn to_dto(&self) -> (dto: DeviceDto)
        ensures
            dto@ == dto_of(self@),
    {
        DeviceDto { ip: self.ip.clone(), hostname: self.hostname.clone() }
    }

    /// A copy of this peer's record.
    pub fn duplicate(&self) -> (copy: Device)
        ensures
            copy == *self,
    {
        Device {
            ip: self.ip.clone(),
            hostname: self.hostname.clone(),
            tcp_port: self.tcp_port,
            last_seen: self.last_seen,
        }
    }
}

/// Whether one of `devices` has the address `ip`.
pub open spec fn has_address(devices: Seq<Device>, ip: Seq<char>) -> bool {
    exists|i: int| 0 <= i < devices.len() && (#[trigger] devices[i]).ip@ == ip
}

/// The place in `devices` of one with the address `ip`.
pub open spec fn place_of_address(devices: Seq<Device>, ip: Seq<char>) -> int {
    choose|i: int| 0 <= i < devices.len() && (#[trigger] devices[i]).ip@ == ip
}

/// Whether no two of `devices` have the same address.
pub open spec fn distinct_addresses(devices: Seq<Device>) -> bool {
    forall|i: int, j: int|
        0 <= i < j < devices.len() ==> (#[trigger] devices[i]).ip@ != (#[trigger] devices[j]).ip@
}

/// The registry that `devices` make up: each address with its record.
pub open spec fn registry_of(devices: Seq<Device>) -> Map<Seq<char>, DeviceView> {
    Map::new(
        |ip: Seq<char>| has_address(devices, ip),
        |ip: Seq<char>| devices[place_of_address(devices, ip)]@,
    )
}

/// Among records with distinct addresses, the one at place `i` is what the
/// registry holds for its address.
pub proof fn lemma_registry_at(devices: Seq<Device>, i: int)
    requires
        distinct_addresses(devices),
        0 <= i < devices.len(),
    ensures
        registry_of(devices).dom().contains(devices[i].ip@),
        registry_of(devices)[devices[i].ip@] == devices[i]@,
{
    let ip = devices[i].ip@;
    assert(has_address(devices, ip));
    let j = place_of_address(devices, ip);
    assert(0 <= j < devices.len() && devices[j].ip@ == ip);
    if i < j {
        assert(devices[i].ip@ != devices[j].ip@);
    } else if j < i {
        assert(devices[j].ip@ != devices[i].ip@);
    }
}

/// An offered transfer that waits for its answer.
#[derive(Debug)]
pub struct PendingTransfer {
    /// The identifier under which the answer will come.
    pub transfer_id: String,
    /// The channel on which the answer travels to the waiting connection.
    pub decision: Sender<bool>,
}

/// Whether one of `pending` waits under the identifier `id`.
pub open spec fn has_transfer(pending: Seq<PendingTransfer>, id: Seq<char>) -> bool {
    exists|i: int| 0 <= i < pending.len() && (#[trigger] pending[i]).transfer_id@ == id
}

/// The place in `pending` of the one that waits under `id`.
pub open spec fn place_of_transfer(pending: Seq<PendingTransfer>, id: Seq<char>) -> int {
    choose|i: int| 0 <= i < pending.len() && (#[trigger] pending[i]).transfer_id@ == id
}

/// Whether no two of `pending` wait under the same identifier.
pub open spec fn distinct_transfers(pending: Seq<PendingTransfer>) -> bool {
    forall|i: int, j: int|
        0 <= i < j < pending.len() ==> (#[trigger] pending[i]).transfer_id@ != (
        #[trigger] pending[j]).transfer_id@
}

/// The identifiers under which `pending` wait, each with its channel.
pub open spec fn waiting_of(pending: Seq<PendingTransfer>) -> Map<Seq<char>, Sender<bool>> {
    Map::new(
        |id: Seq<char>| has_transfer(pending, id),
        |id: Seq<char>| pending[place_of_transfer(pending, id)].decision,
    )
}

/// Among transfers with distinct identifiers, the one at place `i` is the
/// one that waits under its identifier.
pub proof fn lemma_waiting_at(pending: Seq<PendingTransfer>, i: int)
    requires
        distinct_transfers(pending),
        0 <= i < pending.len(),
    ensures
        waiting_of(pending).dom().contains(pending[i].transfer_id@),
        waiting_of(pending)[pending[i].transfer_id@] == pending[i].decision,
{
    let id = pending[i].transfer_id@;
    assert(has_transfer(pending, id));
    let j = place_of_transfer(pending, id);
    assert(0 <= j < pending.len() && pending[j].transfer_id@ == id);
    if i < j {
        assert(pending[i].transfer_id@ != pending[j].transfer_id@);
    } else if j < i {
        assert(pending[j].transfer_id@ != pending[i].transfer_id@);
    }
}

/// The state that the services of one instance share.
#[derive(Debug)]
pub struct AppState {
    instance_id: String,
    port: u16,
    devices: Vec<Device>,
    pending_transfers: Vec<PendingTransfer>,
    download_directory: PathBuf,
}

/// An [`AppState`] as plain values.
pub struct AppStateView {
    /// The identifier of this instance; empty until one is set.
    pub instance_id: Seq<char>,
    /// The port on which this instance accepts transfers; 0 until one is set.
    pub port: u16,
    /// The peers heard of, by address.
    pub peers: Map<Seq<char>, DeviceView>,
    /// The channels of the transfers that wait for an answer, by identifier.
    pub pending: Map<Seq<char>, Sender<bool>>,
    /// The directory into which received files are written.
    pub download_dir: PathBuf,
}

impl View for AppState {
    type V = AppStateView;

    closed spec fn view(&self) -> AppStateView {
        AppStateView {
            instance_id: self.instance_id@,
            port: self.port,
            peers: registry_of(self.devices@),
            pending: waiting_of(self.pending_transfers@),
            download_dir: self.download_directory,
        }
    }
}

impl AppStateView {
    /// The state in which `device` is what is known of the peer at its address.
    pub open spec fn with_peer(self, device: DeviceView) -> AppStateView {
        AppStateView { peers: self.peers.insert(device.ip, device), ..self }
    }

    /// The state in which no peer is known at `ip`.
    pub open spec fn without_peer(self, ip: Seq<char>) -> AppStateView {
        AppStateView { peers: self.peers.remove(ip), ..self }
    }

    /// The state in which a transfer waits under `id` for the answer that
    /// travels on `decision`.
    pub open spec fn with_pending(self, id: Seq<char>, decision: Sender<bool>) -> AppStateView {
        AppStateView { pending: self.pending.insert(id, decision), ..self }
    }

    /// The state in which no transfer waits under `id`.
    pub open spec fn without_pending(self, id: Seq<char>) -> AppStateView {
        AppStateView { pending: self.pending.remove(id), ..self }
    }
}

/// A peer that was recorded is known by its address, as it was recorded,
/// and what is known of every other address is as before.
pub proof fn lemma_peer_recorded(state: AppStateView, device: DeviceView, other: Seq<char>)
    requires
        other != device.ip,
    ensures
        state.with_peer(device).peers.dom().contains(device.ip),
        state.with_peer(device).peers[device.ip] == device,
        state.with_peer(device).peers.dom().contains(other) == state.peers.dom().contains(other),
        state.peers.dom().contains(other) ==> state.with_peer(device).peers[other]
            == state.peers[other],
        state.with_peer(device).with_peer(device) == state.with_peer(device),
{
    assert(state.with_peer(device).peers.insert(device.ip, device) =~= state.with_peer(
        device,
    ).peers);
}

/// There is at most one record for an address: a second beacon from an
/// address replaces what the first one left.
pub proof fn lemma_last_beacon_wins(state: AppStateView, first: DeviceView, second: DeviceView)
    requires
        first.ip == second.ip,
    ensures
        state.with_peer(first).with_peer(second) == state.with_peer(second),
{
    assert(state.peers.insert(first.ip, first).insert(second.ip, second) =~= state.peers.insert(
        second.ip,
        second,
    ));
}

/// Forgetting a peer twice is forgetting it once, and forgetting one that
/// is not known changes nothing.
pub proof fn lemma_forgetting_is_idempotent(state: AppStateView, ip: Seq<char>)
    ensures
        state.without_peer(ip).without_peer(ip) == state.without_peer(ip),
        !state.peers.dom().contains(ip) ==> state.without_peer(ip) == state,
        !state.without_peer(ip).peers.dom().contains(ip),
{
    assert(state.peers.remove(ip).remove(ip) =~= state.peers.remove(ip));
    if !state.peers.dom().contains(ip) {
        assert(state.peers.remove(ip) =~= state.peers);
    }
}

/// Two transfers that wait under different identifiers do not touch each
/// other: both wait, each with its own channel, in whichever order they
/// came; and when one is answered the other still waits, with its channel.
pub proof fn lemma_pending_are_independent(
    state: AppStateView,
    a: Seq<char>,
    channel_a: Sender<bool>,
    b: Seq<char>,
    channel_b: Sender<bool>,
)
    requires
        a != b,
    ensures
        ({
            let both = state.with_pending(a, channel_a).with_pending(b, channel_b);
            &&& both == state.with_pending(b, channel_b).with_pending(a, channel_a)
            &&& both.pending.dom().contains(a) && both.pending[a] == channel_a
            &&& both.pending.dom().contains(b) && both.pending[b] == channel_b
            &&& !both.without_pending(a).pending.dom().contains(a)
            &&& both.without_pending(a).pending.dom().contains(b)
            &&& both.without_pending(a).pending[b] == channel_b
            &&& both.without_pending(a).without_pending(b).pending == state.pending.remove(
                a,
            ).remove(b)
            &&& both.without_pending(a).peers == state.peers
        }),
{
    let both = state.with_pending(a, channel_a).with_pending(b, channel_b);
    assert(both.pending =~= state.with_pending(b, channel_b).with_pending(a, channel_a).pending);
    assert(both.without_pending(a).without_pending(b).pending =~= state.pending.remove(a).remove(
        b,
    ));
}

/// An answer is taken once: after a transfer was answered, a second answer
/// under its identifier finds nothing and changes nothing.
pub proof fn lemma_answer_is_taken_once(state: AppStateView, id: Seq<char>)
    ensures
        !state.without_pending(id).pending.dom().contains(id),
        state.without_pending(id).without_pending(id) == state.without_pending(id),
{
    assert(state.pending.remove(id).remove(id) =~= state.pending.remove(id));
}

/// The place in `devices` of the record with the address `ip`, if there is one.
fn find_address(devices: &Vec<Device>, ip: &str) -> (r: Option<usize>)
    ensures
        match r {
            Some(i) => i < devices@.len() && devices@[i as int].ip@ == ip@,
            None => !has_address(devices@, ip@),
        },
{
    let mut i: usize = 0;
    while i < devices.len()
        invariant
            i <= devices@.len(),
            forall|k: int| 0 <= k < i ==> (#[trigger] devices@[k]).ip@ != ip@,
        decreases devices@.len() - i,
    {
        if same_text(devices[i].ip.as_str(), ip) {
            return Some(i);
        }
        i = i + 1;
    }
    None
}

/// The place in `pending` of the transfer that waits under `id`, if there is one.
fn find_transfer(pending: &Vec<PendingTransfer>, id: &str) -> (r: Option<usize>)
    ensures
        match r {
            Some(i) => i < pending@.len() && pending@[i as int].transfer_id@ == id@,
            None => !has_transfer(pending@, id@),
        },
{
    let mut i: usize = 0;
    while i < pending.len()
        invariant
            i <= pending@.len(),
            forall|k: int| 0 <= k < i ==> (#[trigger] pending@[k]).transfer_id@ != id@,
        decreases pending@.len() - i,
    {
        if same_text(pending[i].transfer_id.as_str(), id) {
            return Some(i);
        }
        i = i + 1;
    }
    None
}

impl AppState {
    /// What every state built by [`AppState::new`] and changed by the
    /// methods below keeps: no address and no identifier occurs twice.
    pub closed spec fn well_formed(&self) -> bool {
        &&& distinct_addresses(self.devices@)
        &&& distinct_transfers(self.pending_transfers@)
    }

    /// Every peer is recorded under its own address.
    pub proof fn lemma_keyed_by_address(&self, ip: Seq<char>)
        requires
            self.well_formed(),
            self@.peers.dom().contains(ip),
        ensures
            self@.peers[ip].ip == ip,
    {
        let i = place_of_address(self.devices@, ip);
        lemma_registry_at(self.devices@, i);
    }

    /// The state of an instance that has not started yet: no identifier, no
    /// port, no peers, nothing waiting; files will go to `download_dir`.
    pub fn new(download_dir: PathBuf) -> (state: AppState)
        ensures
            state.well_formed(),
            state@.instance_id == Seq::<char>::empty(),
            state@.port == 0,
            state@.peers == Map::<Seq<char>, DeviceView>::empty(),
            state@.pending == Map::<Seq<char>, Sender<bool>>::empty(),
            state@.download_dir == download_dir,
    {
        let state = AppState {
            instance_id: String::new(),
            port: 0,
            devices: Vec::new(),
            pending_transfers: Vec::new(),
            download_directory: download_dir,
        };
        assert(state@.peers =~= Map::<Seq<char>, DeviceView>::empty());
        assert(state@.pending =~= Map::<Seq<char>, Sender<bool>>::empty());
        state
    }

    /// The identifier of this instance.
    pub fn instance_id(&self) -> (id: &str)
        ensures
            id@ == self@.instance_id,
    {
        self.instance_id.as_str()
    }

    /// The directory into which received files are written.
    pub fn download_dir(&self) -> (dir: &PathBuf)
        ensures
            *dir == self@.download_dir,
    {
        &self.download_directory
    }

    /// Makes `id` the identifier of this instance.
    pub fn set_instance_id(&mut self, id: String)
        requires
            old(self).well_formed(),
        ensures
            final(self).well_formed(),
            final(self)@ == (AppStateView { instance_id: id@, ..old(self)@ }),
    {
        self.instance_id = id;
    }

    /// The port on which this instance accepts transfers.
    pub fn port(&self) -> (port: u16)
        ensures
            port == self@.port,
    {
        self.port
    }

    /// Makes `port` the port on which this instance accepts transfers.
    pub fn set_port(&mut self, port: u16)
        requires
            old(self).well_formed(),
        ensures
            final(self).well_formed(),
            final(self)@ == (AppStateView { port, ..old(self)@ }),
    {
        self.port = port;
    }

    /// Records that the peer at `ip` announced itself at the clock reading
    /// `now`: its record is created, or replaced where there was one.
    pub fn upsert_device(&mut self, ip: String, hostname: String, tcp_port: u16, now: u64)
        requires
            old(self).well_formed(),
        ensures
            final(self).well_formed(),
            final(self)@ == old(self)@.with_peer(
                DeviceView { ip: ip@, hostname: hostname@, tcp_port, last_seen: now },
            ),
    {
        let found: Option<usize> = find_address(&self.devices, ip.as_str());
        let device = Device { ip, hostname, tcp_port, last_seen: now };
        let ghost before = self.devices@;
        match found {
            Some(i) => {
                self.devices.set(i, device);
            },
            None => {
                self.devices.push(device);
            },
        }
        proof {
            let after = self.devices@;
            assert(distinct_addresses(after));
            assert forall|a: Seq<char>| has_address(after, a) <==> (a == device.ip@ || has_address(
                before,
                a,
            )) by {
                if has_address(after, a) {
                    let k = place_of_address(after, a);
                    if after[k].ip@ != device.ip@ {
                        assert(before[k].ip@ == a);
                    }
                }
                if has_address(before, a) {
                    let k = place_of_address(before, a);
                    assert(after[k].ip@ == a);
                }
                if a == device.ip@ {
                    match found {
                        Some(i) => {
                            assert(after[i as int].ip@ == a);
                        },
                        None => {
                            assert(after[after.len() - 1].ip@ == a);
                        },
                    }
                }
            }
            assert forall|a: Seq<char>| has_address(after, a) implies registry_of(after)[a]
                == old(self)@.peers.insert(device.ip@, device@)[a] by {
                let k = place_of_address(after, a);
                lemma_registry_at(after, k);
                if a != device.ip@ {
                    assert(before[k].ip@ == a);
                    lemma_registry_at(before, k);
                }
            }
            assert(registry_of(after) =~= old(self)@.peers.insert(device.ip@, device@));
        }
    }

    /// Forgets the peer at `ip`. Where there is none, nothing changes.
    pub fn remove_device(&mut self, ip: &str)
        requires
            old(self).well_formed(),
        ensures
            final(self).well_formed(),
            final(self)@ == old(self)@.without_peer(ip@),
    {
        let ghost before = self.devices@;
        match find_address(&self.devices, ip) {
            Some(i) => {
                self.devices.remove(i);
                proof {
                    let after = self.devices@;
                    assert forall|a: Seq<char>| has_address(after, a) <==> (a != ip@
                        && has_address(before, a)) by {
                        if has_address(after, a) {
                            let k = place_of_address(after, a);
                            if k < i {
                                assert(before[k].ip@ == a);
                            } else {
                                assert(before[k + 1].ip@ == a);
                            }
                        }
                        if a != ip@ && has_address(before, a) {
                            let k = place_of_address(before, a);
                            if k < i {
                                assert(after[k].ip@ == a);
                            } else {
                                assert(after[k - 1].ip@ == a);
                            }
                        }
                    }
                    assert forall|a: Seq<char>| has_address(after, a) implies registry_of(
                        after,
                    )[a] == old(self)@.peers.remove(ip@)[a] by {
                        let k = place_of_address(after, a);
                        lemma_registry_at(after, k);
                        if k < i {
                            lemma_registry_at(before, k);
                        } else {
                            lemma_registry_at(before, k + 1);
                        }
                    }
                    assert(registry_of(after) =~= old(self)@.peers.remove(ip@));
                }
            },
            None => {
                assert(registry_of(before) =~= old(self)@.peers.remove(ip@));
            },
        }
    }

    /// A copy of the record of the peer at `ip`, if that peer is known.
    pub fn find_device(&self, ip: &str) -> (r: Option<Device>)
        requires
            self.well_formed(),
        ensures
            match r {
                Some(device) => self@.peers.dom().contains(ip@) && device@ == self@.peers[ip@]
                    && device@.ip == ip@,
                None => !self@.peers.dom().contains(ip@),
            },
    {
        match find_address(&self.devices, ip) {
            Some(i) => {
                proof {
                    lemma_registry_at(self.devices@, i as int);
                }
                Some(self.devices[i].duplicate())
            },
            None => None,
        }
    }

    /// A copy of the registry: every peer once, with its record.
    pub fn snapshot(&self) -> (devices: Vec<Device>)
        requires
            self.well_formed(),
        ensures
            distinct_addresses(devices@),
            registry_of(devices@) == self@.peers,
    {
        let mut devices: Vec<Device> = Vec::new();
        let mut i: usize = 0;
        while i < self.devices.len()
            invariant
                i <= self.devices@.len(),
                devices@ == self.devices@.take(i as int),
            decreases self.devices@.len() - i,
        {
            devices.push(self.devices[i].duplicate());
            assert(self.devices@.take(i + 1) =~= self.devices@.take(i as int).push(
                self.devices@[i as int],
            ));
            i = i + 1;
        }
        assert(self.devices@.take(i as int) =~= self.devices@);
        devices
    }

    /// What is shown of the peers: every peer once, with its address and name.
    pub fn snapshot_dto(&self) -> (shown: Vec<DeviceDto>)
        requires
            self.well_formed(),
        ensures
            forall|i: int|
                0 <= i < shown@.len() ==> self@.peers.dom().contains((#[trigger] shown@[i]).ip@)
                    && shown@[i]@ == dto_of(self@.peers[shown@[i].ip@]),
            forall|i: int, j: int|
                0 <= i < j < shown@.len() ==> (#[trigger] shown@[i]).ip@ != (
                #[trigger] shown@[j]).ip@,
            forall|ip: Seq<char>|
                self@.peers.dom().contains(ip) ==> exists|i: int|
                    0 <= i < shown@.len() && (#[trigger] shown@[i]).ip@ == ip,
    {
        let mut shown: Vec<DeviceDto> = Vec::new();
        let mut i: usize = 0;
        while i < self.devices.len()
            invariant
                i <= self.devices@.len(),
                shown@.len() == i,
                forall|k: int| 0 <= k < i ==> (#[trigger] shown@[k])@ == dto_of(self.devices@[k]@),
            decreases self.devices@.len() - i,
        {
            shown.push(self.devices[i].to_dto());
            i = i + 1;
        }
        proof {
            assert forall|k: int| 0 <= k < shown@.len() implies self@.peers.dom().contains(
                (#[trigger] shown@[k]).ip@,
            ) && shown@[k]@ == dto_of(self@.peers[shown@[k].ip@]) by {
                lemma_registry_at(self.devices@, k);
            }
            assert forall|ip: Seq<char>| self@.peers.dom().contains(ip) implies exists|k: int|
                0 <= k < shown@.len() && (#[trigger] shown@[k]).ip@ == ip by {
                let k = place_of_address(self.devices@, ip);
                assert(shown@[k].ip@ == ip);
            }
        }
        shown
    }

    /// Whether a transfer waits for its answer under `transfer_id`.
    pub fn is_pending(&self, transfer_id: &str) -> (r: bool)
        ensures
            r == self@.pending.dom().contains(transfer_id@),
    {
        find_transfer(&self.pending_transfers, transfer_id).is_some()
    }

    /// Lets a transfer wait under `transfer_id` for the answer that will
    /// travel on `decision`. A transfer that waited under the same
    /// identifier is displaced, and its channel dropped.
    pub fn register_pending(&mut self, transfer_id: String, decision: Sender<bool>)
        requires
            old(self).well_formed(),
        ensures
            final(self).well_formed(),
            final(self)@ == old(self)@.with_pending(transfer_id@, decision),
    {
        let found: Option<usize> = find_transfer(&self.pending_transfers, transfer_id.as_str());
        let entry = PendingTransfer { transfer_id, decision };
        let ghost before = self.pending_transfers@;
        match found {
            Some(i) => {
                self.pending_transfers.set(i, entry);
            },
            None => {
                self.pending_transfers.push(entry);
            },
        }
        proof {
            let after = self.pending_transfers@;
            let id = entry.transfer_id@;
            assert(distinct_transfers(after));
            assert forall|a: Seq<char>| has_transfer(after, a) <==> (a == id || has_transfer(
                before,
                a,
            )) by {
                if has_transfer(after, a) {
                    let k = place_of_transfer(after, a);
                    if after[k].transfer_id@ != id {
                        assert(before[k].transfer_id@ == a);
                    }
                }
                if has_transfer(before, a) {
                    let k = place_of_transfer(before, a);
                    assert(after[k].transfer_id@ == a);
                }
                if a == id {
                    match found {
                        Some(i) => {
                            assert(after[i as int].transfer_id@ == a);
                        },
                        None => {
                            assert(after[after.len() - 1].transfer_id@ == a);
                        },
                    }
                }
            }
            assert forall|a: Seq<char>| has_transfer(after, a) implies waiting_of(after)[a]
                == old(self)@.pending.insert(id, entry.decision)[a] by {
                let k = place_of_transfer(after, a);
                lemma_waiting_at(after, k);
                if a != id {
                    assert(before[k].transfer_id@ == a);
                    lemma_waiting_at(before, k);
                }
            }
            assert(waiting_of(after) =~= old(self)@.pending.insert(id, entry.decision));
        }
    }

    /// Takes the channel of the transfer that waits under `transfer_id` out
    /// of the registry. Where none waits, nothing changes.
    pub fn take_pending(&mut self, transfer_id: &str) -> (r: Option<Sender<bool>>)
        requires
            old(self).well_formed(),
        ensures
            final(self).well_formed(),
            final(self)@ == old(self)@.without_pending(transfer_id@),
            r == if old(self)@.pending.dom().contains(transfer_id@) {
                Some(old(self)@.pending[transfer_id@])
            } else {
                None
            },
    {
        let ghost before = self.pending_transfers@;
        match find_transfer(&self.pending_transfers, transfer_id) {
            Some(i) => {
                let entry: PendingTransfer = self.pending_transfers.remove(i);
                proof {
                    let after = self.pending_transfers@;
                    lemma_waiting_at(before, i as int);
                    assert forall|a: Seq<char>| has_transfer(after, a) <==> (a != transfer_id@
                        && has_transfer(before, a)) by {
                        if has_transfer(after, a) {
                            let k = place_of_transfer(after, a);
                            if k < i {
                                assert(before[k].transfer_id@ == a);
                            } else {
                                assert(before[k + 1].transfer_id@ == a);
                            }
                        }
                        if a != transfer_id@ && has_transfer(before, a) {
                            let k = place_of_transfer(before, a);
                            if k < i {
                                assert(after[k].transfer_id@ == a);
                            } else {
                                assert(after[k - 1].transfer_id@ == a);
                            }
                        }
                    }
                    assert forall|a: Seq<char>| has_transfer(after, a) implies waiting_of(
                        after,
                    )[a] == old(self)@.pending.remove(transfer_id@)[a] by {
                        let k = place_of_transfer(after, a);
                        lemma_waiting_at(after, k);
                        if k < i {
                            lemma_waiting_at(before, k);
                        } else {
                            lemma_waiting_at(before, k + 1);
                        }
                    }
                    assert(waiting_of(after) =~= old(self)@.pending.remove(transfer_id@));
                }
                Some(entry.decision)
            },
            None => {
                assert(waiting_of(before) =~= old(self)@.pending.remove(transfer_id@));
                None
            },
        }
    }

    /// Answers the transfer that waits under `transfer_id`: it leaves the
    /// registry and `decision` is sent on its channel. The result says
    /// whether a transfer waited; where none did, nothing changes and
    /// nothing is sent.
    pub fn resolve_pending(&mut self, transfer_id: &str, decision: bool) -> (waited: bool)
        requires
            old(self).well_formed(),
        ensures
            final(self).well_formed(),
            waited == old(self)@.pending.dom().contains(transfer_id@),
            final(self)@ == old(self)@.without_pending(transfer_id@),
    {
        match self.take_pending(transfer_id) {
            Some(channel) => {
                let _delivered: bool = signal(channel, decision);
                true
            },
            None => false,
        }
    }
}

} // verus!
