use vstd::prelude::*;

verus! {

/// The protocols this library can dissect.
#[derive(Clone, Copy, Debug, PartialEq, Eq, Structural)]
pub enum Dissector {
    Ethernet,
    Ipv4,
    Tcp,
    Udp,
}

/// The namespace a layer key belongs to.
#[derive(Clone, Copy, Debug, PartialEq, Eq, Structural)]
pub enum Scope {
    /// The type field of a link-layer header.
    EtherType,
    /// The protocol field of a network-layer header.
    IpProtocol,
}

/// One registration: `key` in `scope` selects `dissector`.
#[derive(Clone, Copy, Debug, PartialEq, Eq, Structural)]
pub struct Registration {
    pub scope: Scope,
    pub key: u16,
    pub dissector: Dissector,
}

/// The dissector registered for `(scope, key)`; a later registration of the
/// same pair replaces an earlier one.
pub open spec fn lookup_in(regs: Seq<Registration>, scope: Scope, key: u16) -> Option<Dissector>
    decreases regs.len(),
{
    if regs.len() == 0 {
        None
    } else if regs.last().scope == scope && regs.last().key == key {
        Some(regs.last().dissector)
    } else {
        lookup_in(regs.drop_last(), scope, key)
    }
}

pub const ETHERTYPE_IPV4: u16 = 0x0800;
pub const IP_PROTO_IPIP: u16 = 4;
pub const IP_PROTO_TCP: u16 = 6;
pub const IP_PROTO_UDP: u16 = 17;

/// Maps layer keys to the dissectors of the next layer.
pub struct DissectorRegistry {
    regs: Vec<Registration>,
}

impl View for DissectorRegistry {
    type V = Seq<Registration>;

    closed spec fn view(&self) -> Seq<Registration> {
        self.regs@
    }
}

impl DissectorRegistry {
    /// A registry with nothing registered.
    pub fn new() -> (r: Self)
        ensures
            r@ == Seq::<Registration>::empty(),
    {
        DissectorRegistry { regs: Vec::new() }
    }

    /// The registry of the protocols that this library dissects: IPv4 over
    /// Ethernet, and TCP, UDP and IPv4 itself over IPv4.
    pub fn standard() -> (r: Self)
        ensures
            r@ == standard_registrations(),
    {
        let mut r = Self::new();
        r.register(Scope::EtherType, ETHERTYPE_IPV4, Dissector::Ipv4);
        r.register(Scope::IpProtocol, IP_PROTO_IPIP, Dissector::Ipv4);
        r.register(Scope::IpProtocol, IP_PROTO_TCP, Dissector::Tcp);
        r.register(Scope::IpProtocol, IP_PROTO_UDP, Dissector::Udp);
        r
    }

    /// Registers `dissector` for `key` in `scope`.
    pub fn register(&mut self, scope: Scope, key: u16, dissector: Dissector)
        ensures
            final(self)@ == old(self)@.push(Registration { scope, key, dissector }),
    {
        self.regs.push(Registration { scope, key, dissector });
    }

    /// The dissector for `key` in `scope`, if one is registered.
    pub fn lookup(&self, scope: Scope, key: u16) -> (r: Option<Dissector>)
        ensures
            r == lookup_in(self@, scope, key),
    {
        let mut i: usize = self.regs.len();
        assert(self.regs@.subrange(0, i as int) =~= self.regs@);
        while i > 0
            invariant
                i <= self.regs@.len(),
                lookup_in(self.regs@, scope, key) == lookup_in(self.regs@.subrange(0, i as int), scope, key),
            decreases i,
        {
            let reg = self.regs[i - 1];
            assert(self.regs@.subrange(0, i as int).drop_last() =~= self.regs@.subrange(0, i - 1));
            if reg.scope == scope && reg.key == key {
                return Some(reg.dissector);
            }
            i = i - 1;
        }
        None
    }
}

pub open spec fn standard_registrations() -> Seq<Registration> {
    seq![
        Registration { scope: Scope::EtherType, key: ETHERTYPE_IPV4, dissector: Dissector::Ipv4 },
        Registration { scope: Scope::IpProtocol, key: IP_PROTO_IPIP, dissector: Dissector::Ipv4 },
        Registration { scope: Scope::IpProtocol, key: IP_PROTO_TCP, dissector: Dissector::Tcp },
        Registration { scope: Scope::IpProtocol, key: IP_PROTO_UDP, dissector: Dissector::Udp },
    ]
}

} // verus!
