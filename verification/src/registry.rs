//! The device registry: an insertion-ordered list of devices keyed by
//! node id, folded from discovery events.
//!
//! The registry keeps at most one entry per node id. A `Discovered`
//! event inserts a fresh entry or fully replaces the existing one; an
//! `Expired` event only clears the `available` flag and keeps the rest
//! of the entry as history. Entries are never removed.

use vstd::prelude::*;
use vstd::pervasive::arbitrary;

use crate::device::{DeviceView, NearbyDevice};

verus! {

/// A notification from the discovery subscription: a peer became
/// visible, or stopped being visible.
pub enum DiscoveryEvent {
    Discovered { node_id: String, name: Option<String>, addresses: Vec<String> },
    Expired { node_id: String },
}

/// The mathematical value of a [`DiscoveryEvent`].
#[verifier::ext_equal]
pub enum DiscoveryEventView {
    Discovered { node_id: Seq<char>, name: Option<Seq<char>>, addresses: Seq<Seq<char>> },
    Expired { node_id: Seq<char> },
}

impl View for DiscoveryEvent {
    type V = DiscoveryEventView;

    open spec fn view(&self) -> DiscoveryEventView {
        match self {
            DiscoveryEvent::Discovered { node_id, name, addresses } => {
                DiscoveryEventView::Discovered {
                    node_id: node_id@,
                    name: name.deep_view(),
                    addresses: addresses.deep_view(),
                }
            },
            DiscoveryEvent::Expired { node_id } => {
                DiscoveryEventView::Expired { node_id: node_id@ }
            },
        }
    }
}

/// No two entries share a node id.
pub open spec fn wf_devices(devs: Seq<DeviceView>) -> bool {
    forall|i: int, j: int|
        0 <= i < j < devs.len() ==> devs[i].node_id != devs[j].node_id
}

/// Some entry carries this node id.
pub open spec fn has_id(devs: Seq<DeviceView>, id: Seq<char>) -> bool {
    exists|i: int| 0 <= i < devs.len() && devs[i].node_id == id
}

/// The index of the entry carrying this node id; under [`wf_devices`]
/// it is unique.
pub open spec fn idx_of(devs: Seq<DeviceView>, id: Seq<char>) -> int {
    choose|i: int| 0 <= i < devs.len() && devs[i].node_id == id
}

/// The entry a `Discovered` event produces: all fields taken from the
/// event, marked available, stamped with the current time.
pub open spec fn discovered_view(
    id: Seq<char>,
    name: Option<Seq<char>>,
    addresses: Seq<Seq<char>>,
    now: int,
) -> DeviceView {
    DeviceView { node_id: id, name, addresses, last_seen: now, available: true }
}

/// What a `Discovered` event does to the registry contents: replace the
/// entry with this id in place, or append a fresh one.
pub open spec fn upsert_spec(
    devs: Seq<DeviceView>,
    id: Seq<char>,
    name: Option<Seq<char>>,
    addresses: Seq<Seq<char>>,
    now: int,
) -> Seq<DeviceView> {
    if has_id(devs, id) {
        devs.update(idx_of(devs, id), discovered_view(id, name, addresses, now))
    } else {
        devs.push(discovered_view(id, name, addresses, now))
    }
}

/// What an `Expired` event does to the registry contents: clear the
/// `available` flag of the entry with this id, if any; otherwise nothing.
pub open spec fn expire_spec(devs: Seq<DeviceView>, id: Seq<char>) -> Seq<DeviceView> {
    if has_id(devs, id) {
        let i = idx_of(devs, id);
        devs.update(i, DeviceView { available: false, ..devs[i] })
    } else {
        devs
    }
}

/// What one discovery event does to the registry contents.
pub open spec fn apply_event_spec(
    devs: Seq<DeviceView>,
    ev: DiscoveryEventView,
    now: int,
) -> Seq<DeviceView> {
    match ev {
        DiscoveryEventView::Discovered { node_id, name, addresses } => {
            upsert_spec(devs, node_id, name, addresses, now)
        },
        DiscoveryEventView::Expired { node_id } => expire_spec(devs, node_id),
    }
}

/// Folds a sequence of timestamped discovery events over the registry
/// contents, in delivery order.
pub open spec fn apply_events_spec(
    devs: Seq<DeviceView>,
    evs: Seq<(DiscoveryEventView, int)>,
) -> Seq<DeviceView>
    decreases evs.len(),
{
    if evs.len() == 0 {
        devs
    } else {
        apply_events_spec(apply_event_spec(devs, evs[0].0, evs[0].1), evs.drop_first())
    }
}

/// A device passes the recency window: still available, and last seen
/// less than `within` seconds before `now`.
pub open spec fn is_recent(d: DeviceView, now: int, within: int) -> bool {
    d.available && now - d.last_seen < within
}

/// The subsequence of entries that pass the recency window, in registry
/// order.
pub open spec fn recent_of(devs: Seq<DeviceView>, now: int, within: int) -> Seq<DeviceView> {
    devs.filter(|d: DeviceView| is_recent(d, now, within))
}

/// The event is a `Discovered` event for this node id.
pub open spec fn is_discovery_of(ev: DiscoveryEventView, id: Seq<char>) -> bool {
    ev matches DiscoveryEventView::Discovered { node_id, .. } && node_id == id
}

/// The device entry a timestamped `Discovered` event carries.
pub open spec fn payload_view(ev: DiscoveryEventView, now: int) -> DeviceView
    recommends
        ev is Discovered,
{
    match ev {
        DiscoveryEventView::Discovered { node_id, name, addresses } => discovered_view(
            node_id,
            name,
            addresses,
            now,
        ),
        DiscoveryEventView::Expired { .. } => arbitrary(),
    }
}

/// An upsert keeps node ids unique, and afterwards the registry holds
/// an entry for the given id whose fields are exactly the given payload.
pub proof fn lemma_upsert_spec(
    devs: Seq<DeviceView>,
    id: Seq<char>,
    name: Option<Seq<char>>,
    addresses: Seq<Seq<char>>,
    now: int,
)
    requires
        wf_devices(devs),
    ensures
        wf_devices(upsert_spec(devs, id, name, addresses, now)),
        has_id(upsert_spec(devs, id, name, addresses, now), id),
        upsert_spec(devs, id, name, addresses, now)[idx_of(
            upsert_spec(devs, id, name, addresses, now),
            id,
        )] == discovered_view(id, name, addresses, now),
{
    let out = upsert_spec(devs, id, name, addresses, now);
    if has_id(devs, id) {
        let i = idx_of(devs, id);
        assert(0 <= i < devs.len() && devs[i].node_id == id);
        assert(forall|k: int| 0 <= k < out.len() ==> out[k].node_id == devs[k].node_id);
        assert(wf_devices(out));
        assert(out[i].node_id == id);
        assert(has_id(out, id));
        assert forall|j: int| 0 <= j < out.len() && out[j].node_id == id implies j == i by {}
        assert(idx_of(out, id) == i);
    } else {
        let n = devs.len() as int;
        assert(forall|k: int| 0 <= k < n ==> devs[k].node_id != id);
        assert(out[n].node_id == id);
        assert(wf_devices(out));
        assert(has_id(out, id));
        assert forall|j: int| 0 <= j < out.len() && out[j].node_id == id implies j == n by {}
        assert(idx_of(out, id) == n);
    }
}

/// However many `Discovered` events arrive for one node id, the
/// registry retains exactly one entry for it — node ids stay unique —
/// and that entry is available and carries the payload of the most
/// recent event.
pub proof fn lemma_discovered_sequence(
    devs: Seq<DeviceView>,
    evs: Seq<(DiscoveryEventView, int)>,
    id: Seq<char>,
)
    requires
        wf_devices(devs),
        evs.len() > 0,
        forall|k: int| 0 <= k < evs.len() ==> #[trigger] is_discovery_of(evs[k].0, id),
    ensures
        wf_devices(apply_events_spec(devs, evs)),
        has_id(apply_events_spec(devs, evs), id),
        apply_events_spec(devs, evs)[idx_of(apply_events_spec(devs, evs), id)] == payload_view(
            evs.last().0,
            evs.last().1,
        ),
    decreases evs.len(),
{
    assert(is_discovery_of(evs[0].0, id));
    let devs1 = apply_event_spec(devs, evs[0].0, evs[0].1);
    match evs[0].0 {
        DiscoveryEventView::Discovered { node_id, name, addresses } => {
            lemma_upsert_spec(devs, node_id, name, addresses, evs[0].1);
        },
        DiscoveryEventView::Expired { .. } => {
            assert(false);
        },
    }
    let rest = evs.drop_first();
    if rest.len() == 0 {
        assert(apply_events_spec(devs1, rest) == devs1);
        assert(evs.last() == evs[0]);
    } else {
        assert forall|k: int| 0 <= k < rest.len() implies #[trigger] is_discovery_of(
            rest[k].0,
            id,
        ) by {
            assert(rest[k] == evs[k + 1]);
            assert(is_discovery_of(evs[k + 1].0, id));
        }
        lemma_discovered_sequence(devs1, rest, id);
        assert(rest.last() == evs.last());
    }
}

/// In-memory registry of nearby devices, in insertion order.
pub struct DeviceRegistry {
    devices: Vec<NearbyDevice>,
}

impl View for DeviceRegistry {
    type V = Seq<DeviceView>;

    closed spec fn view(&self) -> Seq<DeviceView> {
        self.devices.deep_view()
    }
}

impl DeviceRegistry {
    /// The registry invariant: node ids are unique.
    pub open spec fn wf(&self) -> bool {
        wf_devices(self@)
    }

    /// An empty registry.
    pub fn new() -> (r: DeviceRegistry)
        ensures
            r.wf(),
            r@ == Seq::<DeviceView>::empty(),
    {
        let r = DeviceRegistry { devices: Vec::new() };
        proof {
            assert(r@ =~= Seq::<DeviceView>::empty());
        }
        r
    }

    /// Inserts the device seen by a `Discovered` event, or fully
    /// replaces the entry already keyed by `node_id`, marking it
    /// available and stamping `last_seen` with `now`.
    #[verifier::loop_isolation(false)]
    pub fn upsert(
        &mut self,
        node_id: String,
        name: Option<String>,
        addresses: Vec<String>,
        now: i64,
    )
        requires
            old(self).wf(),
        ensures
            final(self).wf(),
            final(self)@ == upsert_spec(
                old(self)@,
                node_id@,
                name.deep_view(),
                addresses.deep_view(),
                now as int,
            ),
            has_id(final(self)@, node_id@),
            final(self)@[idx_of(final(self)@, node_id@)] == discovered_view(
                node_id@,
                name.deep_view(),
                addresses.deep_view(),
                now as int,
            ),
    {
        let ghost pre = self@;
        let dev = NearbyDevice {
            node_id,
            name,
            addresses,
            last_seen: now,
            available: true,
        };
        let n = self.devices.len();
        let mut i: usize = 0;
        while i < n
            invariant
                n == self.devices.len(),
                i <= n,
                *self == *old(self),
                forall|k: int| 0 <= k < i ==> self@[k].node_id != dev@.node_id,
            decreases n - i,
        {
            if self.devices[i].node_id == dev.node_id {
                proof {
                    assert(pre[i as int].node_id == dev@.node_id);
                    assert(has_id(pre, dev@.node_id));
                    assert forall|j: int|
                        0 <= j < pre.len() && pre[j].node_id == dev@.node_id implies j
                        == i as int by {
                        assert(wf_devices(pre));
                    }
                    assert(idx_of(pre, dev@.node_id) == i as int);
                }
                self.devices[i] = dev;
                proof {
                    let out = self@;
                    assert(out =~= pre.update(i as int, dev@));
                    assert(wf_devices(out));
                    assert(out[i as int].node_id == dev@.node_id);
                    assert(has_id(out, dev@.node_id));
                    assert forall|j: int|
                        0 <= j < out.len() && out[j].node_id == dev@.node_id implies j
                        == i as int by {}
                    assert(idx_of(out, dev@.node_id) == i as int);
                }
                return ;
            }
            i = i + 1;
        }
        proof {
            assert(forall|k: int| 0 <= k < pre.len() ==> pre[k].node_id != dev@.node_id);
            assert(!has_id(pre, dev@.node_id));
        }
        self.devices.push(dev);
        proof {
            let out = self@;
            assert(out =~= pre.push(dev@));
            assert(wf_devices(out));
            assert(out[pre.len() as int].node_id == dev@.node_id);
            assert(has_id(out, dev@.node_id));
            assert forall|j: int|
                0 <= j < out.len() && out[j].node_id == dev@.node_id implies j == pre.len() as int
                by {}
            assert(idx_of(out, dev@.node_id) == pre.len() as int);
        }
    }

    /// Clears the `available` flag of the entry keyed by `node_id`.
    /// Expiry for an id never inserted is silently ignored, and every
    /// other field of a present entry is left untouched.
    #[verifier::loop_isolation(false)]
    pub fn expire(&mut self, node_id: &String)
        requires
            old(self).wf(),
        ensures
            final(self).wf(),
            final(self)@ == expire_spec(old(self)@, node_id@),
            !has_id(old(self)@, node_id@) ==> final(self)@ == old(self)@,
            has_id(old(self)@, node_id@) ==> ({
                let i = idx_of(old(self)@, node_id@);
                &&& final(self)@.len() == old(self)@.len()
                &&& final(self)@[i].available == false
                &&& final(self)@[i].node_id == old(self)@[i].node_id
                &&& final(self)@[i].name == old(self)@[i].name
                &&& final(self)@[i].addresses == old(self)@[i].addresses
                &&& final(self)@[i].last_seen == old(self)@[i].last_seen
                &&& forall|k: int|
                    0 <= k < old(self)@.len() && k != i ==> final(self)@[k] == old(self)@[k]
            }),
    {
        let ghost pre = self@;
        let n = self.devices.len();
        let mut i: usize = 0;
        while i < n
            invariant
                n == self.devices.len(),
                i <= n,
                *self == *old(self),
                forall|k: int| 0 <= k < i ==> self@[k].node_id != node_id@,
            decreases n - i,
        {
            if self.devices[i].node_id == *node_id {
                proof {
                    assert(pre[i as int].node_id == node_id@);
                    assert(has_id(pre, node_id@));
                    assert forall|j: int|
                        0 <= j < pre.len() && pre[j].node_id == node_id@ implies j == i as int by {
                        assert(wf_devices(pre));
                    }
                    assert(idx_of(pre, node_id@) == i as int);
                }
                let mut dev = self.devices[i].clone();
                dev.available = false;
                proof {
                    assert(dev@ =~= DeviceView { available: false, ..pre[i as int] });
                }
                self.devices[i] = dev;
                proof {
                    assert(self@ =~= pre.update(
                        i as int,
                        DeviceView { available: false, ..pre[i as int] },
                    ));
                    assert(wf_devices(self@));
                }
                return ;
            }
            i = i + 1;
        }
        proof {
            assert(forall|k: int| 0 <= k < pre.len() ==> pre[k].node_id != node_id@);
            assert(!has_id(pre, node_id@));
            assert(self@ =~= pre);
        }
    }

    /// Folds one discovery event into the registry, exactly as
    /// [`Self::upsert`] or [`Self::expire`] would.
    pub fn apply_event(&mut self, event: DiscoveryEvent, now: i64)
        requires
            old(self).wf(),
        ensures
            final(self).wf(),
            final(self)@ == apply_event_spec(old(self)@, event@, now as int),
    {
        match event {
            DiscoveryEvent::Discovered { node_id, name, addresses } => {
                self.upsert(node_id, name, addresses, now);
            },
            DiscoveryEvent::Expired { node_id } => {
                self.expire(&node_id);
            },
        }
    }

    /// The current device list, in insertion order.
    pub fn devices(&self) -> (r: &Vec<NearbyDevice>)
        ensures
            r.deep_view() == self@,
    {
        &self.devices
    }

    /// The devices that are still available and were last seen less
    /// than `within_secs` seconds before `now`, in registry order.
    #[verifier::loop_isolation(false)]
    pub fn recent_devices(&self, now: i64, within_secs: i64) -> (r: Vec<NearbyDevice>)
        ensures
            r.deep_view() == recent_of(self@, now as int, within_secs as int),
    {
        let mut out: Vec<NearbyDevice> = Vec::new();
        let n = self.devices.len();
        let mut i: usize = 0;
        proof {
            reveal(Seq::filter);
            assert(self@.take(0) =~= Seq::<DeviceView>::empty());
            assert(out.deep_view() =~= recent_of(self@.take(0), now as int, within_secs as int));
        }
        while i < n
            invariant
                n == self.devices.len(),
                i <= n,
                out.deep_view() == recent_of(self@.take(i as int), now as int, within_secs as int),
            decreases n - i,
        {
            let d = &self.devices[i];
            let ghost pre = out.deep_view();
            if d.available && (now as i128) - (d.last_seen as i128) < (within_secs as i128) {
                out.push(d.clone());
                proof {
                    assert(out.deep_view() =~= pre.push(self@[i as int]));
                }
            }
            proof {
                reveal(Seq::filter);
                let taken = self@.take(i + 1);
                assert(taken.drop_last() =~= self@.take(i as int));
                assert(taken.last() == self@[i as int]);
                assert(is_recent(self@[i as int], now as int, within_secs as int)
                    == (self.devices@[i as int]@.available && now - self.devices@[i as int]@.last_seen
                    < within_secs));
                assert(out.deep_view() == recent_of(taken, now as int, within_secs as int));
            }
            i = i + 1;
        }
        proof {
            assert(self@.take(n as int) =~= self@);
        }
        out
    }
}

} // verus!
