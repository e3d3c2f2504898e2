//! Discovery of devices on the local network: the interface of a discovery
//! provider, and the table of discovered devices that a provider keeps.
use vstd::prelude::*;

use crate::device_table::{ids_distinct, peer_map, peer_views, DeviceTable};
use crate::model::{DeviceId, PeerDevice};

verus! {

/// A source of devices discovered on the network.
pub trait DiscoveryProvider {
    /// Starts discovering.
    fn start(&mut self);

    /// Stops discovering.
    fn stop(&mut self);

    /// Reports a device found by other means; kept only while discovering.
    fn upsert_device(&mut self, device: PeerDevice);

    /// The devices discovered so far.
    fn discovered_devices(&self) -> Vec<PeerDevice>;
}

/// The discovered devices and whether discovery is running.
pub struct DiscoveryRegistry {
    running: bool,
    peers: DeviceTable,
}

impl DiscoveryRegistry {
    /// Whether discovery is running.
    pub closed spec fn running_spec(&self) -> bool {
        self.running
    }

    /// The discovered devices: identity to display name.
    pub closed spec fn peer_map_spec(&self) -> Map<Seq<char>, Seq<char>> {
        self.peers@
    }

    /// A stopped registry with no devices.
    pub fn new() -> (out: Self)
        ensures
            !out.running_spec(),
            out.peer_map_spec() == Map::<Seq<char>, Seq<char>>::empty(),
    {
        DiscoveryRegistry { running: false, peers: DeviceTable::new() }
    }

    /// Whether discovery is running.
    pub fn is_running(&self) -> (out: bool)
        ensures
            out == self.running_spec(),
    {
        self.running
    }

    /// Records a device that the network announced, running or not.
    pub fn record_resolved(&mut self, device: PeerDevice)
        ensures
            final(self).running_spec() == old(self).running_spec(),
            final(self).peer_map_spec() == old(self).peer_map_spec().insert(device@.id, device@.name),
    {
        self.peers.insert(device);
    }

    /// Forgets a device that the network withdrew.
    pub fn record_removed(&mut self, id: &DeviceId)
        ensures
            final(self).running_spec() == old(self).running_spec(),
            final(self).peer_map_spec() == old(self).peer_map_spec().remove(id@),
    {
        let _ = self.peers.remove(id);
    }

    /// The number of discovered devices.
    pub fn device_count(&self) -> (out: usize)
        ensures
            out == self.peer_map_spec().len(),
    {
        self.peers.devices().len()
    }
}

impl Default for DiscoveryRegistry {
    fn default() -> (out: Self)
        ensures
            !out.running_spec(),
            out.peer_map_spec() == Map::<Seq<char>, Seq<char>>::empty(),
    {
        DiscoveryRegistry::new()
    }
}

impl DiscoveryProvider for DiscoveryRegistry {
    fn start(&mut self)
        ensures
            final(self).running_spec(),
            final(self).peer_map_spec() == old(self).peer_map_spec(),
    {
        self.running = true;
    }

    fn stop(&mut self)
        ensures
            !final(self).running_spec(),
            final(self).peer_map_spec() == old(self).peer_map_spec(),
    {
        self.running = false;
    }

    fn upsert_device(&mut self, device: PeerDevice)
        ensures
            final(self).running_spec() == old(self).running_spec(),
            old(self).running_spec() ==> final(self).peer_map_spec() == old(
                self,
            ).peer_map_spec().insert(device@.id, device@.name),
            !old(self).running_spec() ==> final(self).peer_map_spec() == old(self).peer_map_spec(),
    {
        if self.running {
            self.peers.insert(device);
        }
    }

    fn discovered_devices(&self) -> (out: Vec<PeerDevice>)
        ensures
            ids_distinct(peer_views(out@)),
            peer_map(peer_views(out@)) == self.peer_map_spec(),
    {
        self.peers.devices()
    }
}

} // verus!
