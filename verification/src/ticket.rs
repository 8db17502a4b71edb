//! Construction of local-only connection tickets.
//!
//! A ticket is a portable locator: a content hash plus the address set
//! a peer may use to fetch that content directly. Tickets meant for
//! same-network peers must never advertise a relay hop, so the address
//! set is filtered down to plain direct addresses.

use vstd::prelude::*;

verus! {

/// One address of the endpoint, as the transport layer reported it:
/// either a plain direct address or a relay entry, each carried in its
/// printed form.
#[derive(Debug, PartialEq, Eq)]
pub enum TransportAddress {
    Direct(String),
    Relay(String),
}

/// The mathematical value of a [`TransportAddress`].
#[verifier::ext_equal]
pub enum TransportAddressView {
    Direct(Seq<char>),
    Relay(Seq<char>),
}

impl View for TransportAddress {
    type V = TransportAddressView;

    open spec fn view(&self) -> TransportAddressView {
        match self {
            TransportAddress::Direct(a) => TransportAddressView::Direct(a@),
            TransportAddress::Relay(a) => TransportAddressView::Relay(a@),
        }
    }
}

impl DeepView for TransportAddress {
    type V = TransportAddressView;

    open spec fn deep_view(&self) -> TransportAddressView {
        self.view()
    }
}

impl Clone for TransportAddress {
    fn clone(&self) -> (r: Self)
        ensures
            r@ == self@,
    {
        match self {
            TransportAddress::Direct(a) => TransportAddress::Direct(a.clone()),
            TransportAddress::Relay(a) => TransportAddress::Relay(a.clone()),
        }
    }
}

/// The format tag a ticket carries: a single blob, or a sequence of
/// blobs (a collection).
#[derive(Debug, Clone, Copy, PartialEq, Eq)]
pub enum TicketFormat {
    Raw,
    HashSeq,
}

/// A serializable locator for direct retrieval on the local network:
/// the endpoint identity, its direct addresses only, the content hash,
/// and the format tag.
#[derive(Debug, PartialEq, Eq)]
pub struct NearbyTicket {
    pub node_id: String,
    pub addresses: Vec<TransportAddress>,
    pub hash: Vec<u8>,
    pub format: TicketFormat,
}

/// The subsequence of direct addresses, in their original order.
pub open spec fn direct_only(addrs: Seq<TransportAddressView>) -> Seq<TransportAddressView> {
    addrs.filter(|a: TransportAddressView| a is Direct)
}

/// Whether this address is a plain direct address rather than a relay
/// entry.
pub fn is_direct(addr: &TransportAddress) -> (r: bool)
    ensures
        r == (addr@ is Direct),
{
    match addr {
        TransportAddress::Direct(_) => true,
        TransportAddress::Relay(_) => false,
    }
}

/// Builds a ticket for direct connection on the local network: the
/// given address set filtered down to its direct entries (every relay
/// entry is dropped), bound to the given content hash, tagged as a
/// sequence of blobs.
#[verifier::loop_isolation(false)]
pub fn create_nearby_ticket(node_id: String, addresses: &Vec<TransportAddress>, hash: Vec<u8>) -> (
    r: NearbyTicket)
    ensures
        r.node_id@ == node_id@,
        r.hash@ == hash@,
        r.format is HashSeq,
        r.addresses.deep_view() == direct_only(addresses.deep_view()),
        forall|k: int|
            0 <= k < r.addresses.deep_view().len() ==> r.addresses.deep_view()[k] is Direct,
{
    let mut kept: Vec<TransportAddress> = Vec::new();
    let n = addresses.len();
    let mut i: usize = 0;
    proof {
        reveal(Seq::filter);
        assert(addresses.deep_view().take(0) =~= Seq::<TransportAddressView>::empty());
        assert(kept.deep_view() =~= direct_only(addresses.deep_view().take(0)));
    }
    while i < n
        invariant
            i <= n,
            kept.deep_view() == direct_only(addresses.deep_view().take(i as int)),
            forall|k: int| 0 <= k < kept.deep_view().len() ==> kept.deep_view()[k] is Direct,
        decreases n - i,
    {
        let ghost pre = kept.deep_view();
        if is_direct(&addresses[i]) {
            kept.push(addresses[i].clone());
            proof {
                assert(kept.deep_view() =~= pre.push(addresses.deep_view()[i as int]));
            }
        }
        proof {
            reveal(Seq::filter);
            let taken = addresses.deep_view().take(i + 1);
            assert(taken.drop_last() =~= addresses.deep_view().take(i as int));
            assert(taken.last() == addresses.deep_view()[i as int]);
            assert(kept.deep_view() == direct_only(taken));
        }
        i = i + 1;
    }
    proof {
        assert(addresses.deep_view().take(n as int) =~= addresses.deep_view());
    }
    NearbyTicket { node_id, addresses: kept, hash, format: TicketFormat::HashSeq }
}

} // verus!
