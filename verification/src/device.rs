//! The device record kept for every peer the discovery layer has seen.

use vstd::prelude::*;

verus! {

/// Information about a discovered nearby device.
pub struct NearbyDevice {
    /// The node id of the discovered device.
    pub node_id: String,
    /// Optional device name, advertised by the peer out of band.
    pub name: Option<String>,
    /// Direct addresses for this device, as last reported.
    pub addresses: Vec<String>,
    /// When this device was last seen (Unix timestamp, seconds).
    pub last_seen: i64,
    /// Whether this device is currently available.
    pub available: bool,
}

/// The mathematical value of a [`NearbyDevice`]: every text field as a
/// sequence of characters, the timestamp as an unbounded integer.
#[verifier::ext_equal]
pub struct DeviceView {
    pub node_id: Seq<char>,
    pub name: Option<Seq<char>>,
    pub addresses: Seq<Seq<char>>,
    pub last_seen: int,
    pub available: bool,
}

impl View for NearbyDevice {
    type V = DeviceView;

    open spec fn view(&self) -> DeviceView {
        DeviceView {
            node_id: self.node_id@,
            name: self.name.deep_view(),
            addresses: self.addresses.deep_view(),
            last_seen: self.last_seen as int,
            available: self.available,
        }
    }
}

impl DeepView for NearbyDevice {
    type V = DeviceView;

    open spec fn deep_view(&self) -> DeviceView {
        self.view()
    }
}

impl Clone for NearbyDevice {
    fn clone(&self) -> (r: Self)
        ensures
            r@ == self@,
    {
        let name: Option<String> = match &self.name {
            Some(n) => Some(n.clone()),
            None => None,
        };
        let mut addresses: Vec<String> = Vec::new();
        let mut i: usize = 0;
        while i < self.addresses.len()
            invariant
                i <= self.addresses.len(),
                addresses.deep_view() =~= self.addresses.deep_view().take(i as int),
            decreases self.addresses.len() - i,
        {
            let ghost pre = addresses.deep_view();
            addresses.push(self.addresses[i].clone());
            proof {
                assert(addresses.deep_view() =~= pre.push(self.addresses@[i as int]@));
                assert(addresses.deep_view() =~= self.addresses.deep_view().take(i + 1));
            }
            i = i + 1;
        }
        let r = NearbyDevice {
            node_id: self.node_id.clone(),
            name,
            addresses,
            last_seen: self.last_seen,
            available: self.available,
        };
        proof {
            assert(self.addresses.deep_view().take(self.addresses@.len() as int)
                =~= self.addresses.deep_view());
            assert(r@ =~= self@);
        }
        r
    }
}

} // verus!
