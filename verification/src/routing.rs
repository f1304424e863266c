use crate::keyed_uri::{uri_list_contains, uri_list_has, KeyedUri, KeyedUriView};
use vstd::prelude::*;

verus! {

/// The routing information carried by an uplink packet: the device address
/// of a data frame, or the EUI pair of a join request.
#[derive(Clone, Copy, Debug, PartialEq, Eq, Structural)]
pub enum RoutingInfo {
    Devaddr(u32),
    Eui { app: u64, dev: u64 },
}

/// A device-address block: the `size` addresses from `base` upward.
#[derive(Clone, Copy, Debug, PartialEq, Eq, Structural)]
pub struct DevaddrRange {
    pub base: u32,
    pub size: u32,
}

/// An application/device EUI pair accepted by a tenant.
#[derive(Clone, Copy, Debug, PartialEq, Eq, Structural)]
pub struct EuiPair {
    pub app: u64,
    pub dev: u64,
}

/// An immutable snapshot of one tenant's routing entry, derived from a
/// routing update: the tenant OUI, the router URIs serving it, and the
/// routing predicate (device-address blocks and EUI pairs) deciding which
/// uplinks it takes.
#[derive(Debug)]
pub struct RoutingDescriptor {
    pub oui: u32,
    pub uris: Vec<KeyedUri>,
    pub subnets: Vec<DevaddrRange>,
    pub joins: Vec<EuiPair>,
}

/// The mathematical value of a [`RoutingDescriptor`].
#[verifier::ext_equal]
pub struct RoutingDescriptorView {
    pub oui: u32,
    pub uris: Seq<KeyedUriView>,
    pub subnets: Seq<DevaddrRange>,
    pub joins: Seq<EuiPair>,
}

impl View for RoutingDescriptor {
    type V = RoutingDescriptorView;

    open spec fn view(&self) -> RoutingDescriptorView {
        RoutingDescriptorView {
            oui: self.oui,
            uris: self.uris@.map_values(|u: KeyedUri| u@),
            subnets: self.subnets@,
            joins: self.joins@,
        }
    }
}

/// Whether the descriptor's routing predicate accepts the given routing
/// information: a device address must fall in one of the descriptor's
/// address blocks, an EUI pair must be listed.
pub open spec fn spec_matches(d: RoutingDescriptorView, ri: RoutingInfo) -> bool {
    match ri {
        RoutingInfo::Devaddr(a) => exists|i: int|
            #![trigger d.subnets[i]]
            0 <= i < d.subnets.len() && d.subnets[i].base <= a && a < d.subnets[i].base
                + d.subnets[i].size,
        RoutingInfo::Eui { app, dev } => exists|i: int|
            #![trigger d.joins[i]]
            0 <= i < d.joins.len() && d.joins[i].app == app && d.joins[i].dev == dev,
    }
}

/// Whether the descriptor's URI list holds the given URI.
pub open spec fn spec_contains_uri(d: RoutingDescriptorView, u: KeyedUriView) -> bool {
    exists|i: int| 0 <= i < d.uris.len() && d.uris[i] == u
}

/// Element-wise copy of a device-address block list.
fn copy_subnets(v: &Vec<DevaddrRange>) -> (r: Vec<DevaddrRange>)
    ensures
        r@ == v@,
{
    let mut r: Vec<DevaddrRange> = Vec::new();
    let mut i: usize = 0;
    while i < v.len()
        invariant
            i <= v.len(),
            r@ =~= v@.subrange(0, i as int),
        decreases v.len() - i,
    {
        r.push(v[i]);
        i += 1;
    }
    proof {
        assert(r@ =~= v@);
    }
    r
}

/// Element-wise copy of an EUI pair list.
fn copy_joins(v: &Vec<EuiPair>) -> (r: Vec<EuiPair>)
    ensures
        r@ == v@,
{
    let mut r: Vec<EuiPair> = Vec::new();
    let mut i: usize = 0;
    while i < v.len()
        invariant
            i <= v.len(),
            r@ =~= v@.subrange(0, i as int),
        decreases v.len() - i,
    {
        r.push(v[i]);
        i += 1;
    }
    proof {
        assert(r@ =~= v@);
    }
    r
}

/// Element-wise copy of a URI list, preserving each element's value.
pub fn copy_uris(v: &Vec<KeyedUri>) -> (r: Vec<KeyedUri>)
    ensures
        r@.len() == v@.len(),
        forall|i: int| 0 <= i < v@.len() ==> r@[i]@ == v@[i]@,
{
    let mut r: Vec<KeyedUri> = Vec::new();
    let mut i: usize = 0;
    while i < v.len()
        invariant
            i <= v.len(),
            r@.len() == i,
            forall|j: int| 0 <= j < i ==> r@[j]@ == v@[j]@,
        decreases v.len() - i,
    {
        r.push(v[i].duplicate());
        i += 1;
    }
    r
}

impl RoutingDescriptor {
    /// Whether this descriptor's routing predicate accepts the given
    /// routing information.
    pub fn matches_routing_info(&self, ri: &RoutingInfo) -> (r: bool)
        ensures
            r == spec_matches(self@, *ri),
    {
        match *ri {
            RoutingInfo::Devaddr(a) => {
                let mut i: usize = 0;
                while i < self.subnets.len()
                    invariant
                        i <= self.subnets@.len(),
                        *ri == RoutingInfo::Devaddr(a),
                        forall|j: int|
                            0 <= j < i ==> !(self.subnets@[j].base <= a && a
                                < self.subnets@[j].base + self.subnets@[j].size),
                    decreases self.subnets@.len() - i,
                {
                    let sub = self.subnets[i];
                    if sub.base <= a && a - sub.base < sub.size {
                        proof {
                            let k = i as int;
                            assert(self@.subnets[k].base <= a && a < self@.subnets[k].base
                                + self@.subnets[k].size);
                            assert(spec_matches(self@, *ri));
                        }
                        return true;
                    }
                    i += 1;
                }
                false
            },
            RoutingInfo::Eui { app, dev } => {
                let mut i: usize = 0;
                while i < self.joins.len()
                    invariant
                        i <= self.joins@.len(),
                        *ri == (RoutingInfo::Eui { app, dev }),
                        forall|j: int|
                            0 <= j < i ==> !(self.joins@[j].app == app && self.joins@[j].dev
                                == dev),
                    decreases self.joins@.len() - i,
                {
                    let p = self.joins[i];
                    if p.app == app && p.dev == dev {
                        proof {
                            assert(self@.joins[i as int].app == app && self@.joins[i as int].dev
                                == dev);
                            assert(spec_matches(self@, *ri));
                        }
                        return true;
                    }
                    i += 1;
                }
                false
            },
        }
    }

    /// Whether this descriptor's URI list holds the given URI.
    pub fn contains_uri(&self, u: &KeyedUri) -> (r: bool)
        ensures
            r == spec_contains_uri(self@, u@),
    {
        let r = uri_list_contains(&self.uris, u);
        proof {
            if uri_list_has(self.uris@, u@) {
                let i = choose|i: int| 0 <= i < self.uris@.len() && self.uris@[i]@ == u@;
                assert(self@.uris[i] == u@);
            }
            if spec_contains_uri(self@, u@) {
                let i = choose|i: int| 0 <= i < self@.uris.len() && self@.uris[i] == u@;
                assert(self.uris@[i]@ == u@);
            }
        }
        r
    }

    /// An owned copy with the same value.
    pub fn duplicate(&self) -> (r: RoutingDescriptor)
        ensures
            r@ == self@,
    {
        let r = RoutingDescriptor {
            oui: self.oui,
            uris: copy_uris(&self.uris),
            subnets: copy_subnets(&self.subnets),
            joins: copy_joins(&self.joins),
        };
        proof {
            assert(r@.uris =~= self@.uris);
            assert(r@ =~= self@);
        }
        r
    }
}

/// An uplink radio packet: the payload bytes and the routing information
/// used to pick its destination routers.
#[derive(Debug)]
pub struct Packet {
    pub routing: RoutingInfo,
    pub payload: Vec<u8>,
}

/// The mathematical value of a [`Packet`].
#[verifier::ext_equal]
pub struct PacketView {
    pub routing: RoutingInfo,
    pub payload: Seq<u8>,
}

impl View for Packet {
    type V = PacketView;

    open spec fn view(&self) -> PacketView {
        PacketView { routing: self.routing, payload: self.payload@ }
    }
}

impl Packet {
    /// An owned copy with the same value.
    pub fn duplicate(&self) -> (r: Packet)
        ensures
            r@ == self@,
    {
        let mut payload: Vec<u8> = Vec::new();
        let mut i: usize = 0;
        while i < self.payload.len()
            invariant
                i <= self.payload@.len(),
                payload@ =~= self.payload@.subrange(0, i as int),
            decreases self.payload@.len() - i,
        {
            payload.push(self.payload[i]);
            i += 1;
        }
        proof {
            assert(payload@ =~= self.payload@);
        }
        let r = Packet { routing: self.routing, payload };
        proof {
            assert(r@ =~= self@);
        }
        r
    }
}

} // verus!
