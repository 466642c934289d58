//! `Address`: the borrowed-string form of an actor address, with a transport scheme and
//! an optional parent. Like `Addr`, its id is the hash of its other parts.
use vstd::prelude::*;
use std::hash::{Hash, Hasher};
use crate::text::{ipv4_value, parse_ipv4, is_ip_text, check_ip_text, IpValue, ip_value, parse_ip};
use crate::addr::ip_is_local;

verus! {

/// How an actor is reached.
#[derive(PartialEq, Eq, Clone, Copy, Debug, Hash)]
pub enum Scheme {
    Email,
    Inprocess,
    Http,
    Https,
    Tcp,
    Grpc,
    Udp,
}

/// The declaration position of a scheme, which is what its derived `Hash` feeds the hasher.
pub open spec fn scheme_index(s: Scheme) -> u8 {
    match s {
        Scheme::Email => 0,
        Scheme::Inprocess => 1,
        Scheme::Http => 2,
        Scheme::Https => 3,
        Scheme::Tcp => 4,
        Scheme::Grpc => 5,
        Scheme::Udp => 6,
    }
}

/// An actor address whose texts are borrowed.
#[derive(PartialEq, Clone, Debug, Hash)]
pub struct Address<'a> {
    id: u64,
    name: &'a str,
    class: Option<&'a str>,
    ns: Option<&'a str>,
    host: Option<&'a str>,
    port: Option<u16>,
    proto: Option<Scheme>,
    parent: Option<&'a str>,
}

/// The abstract value of an [`Address`].
pub struct AddressView {
    pub id: u64,
    pub name: Seq<char>,
    pub class: Option<Seq<char>>,
    pub ns: Option<Seq<char>>,
    pub host: Option<Seq<char>>,
    pub port: Option<u16>,
    pub proto: Option<Scheme>,
    pub parent: Option<Seq<char>>,
}

/// The text of an optional borrowed string.
pub open spec fn opt_str<'a>(s: Option<&'a str>) -> Option<Seq<char>> {
    match s {
        Some(t) => Some(t@),
        None => None,
    }
}

/// The declaration position of an optional scheme.
pub open spec fn opt_scheme_index(s: Option<Scheme>) -> Option<u8> {
    match s {
        Some(s) => Some(scheme_index(s)),
        None => None,
    }
}

impl<'a> View for Address<'a> {
    type V = AddressView;

    closed spec fn view(&self) -> AddressView {
        AddressView {
            id: self.id,
            name: self.name@,
            class: opt_str(self.class),
            ns: opt_str(self.ns),
            host: opt_str(self.host),
            port: self.port,
            proto: self.proto,
            parent: opt_str(self.parent),
        }
    }
}

/// The std `DefaultHasher` hash of an address with the given parts, fields hashed in
/// declaration order, the scheme by its declaration position.
pub uninterp spec fn address_fields_hash(
    id: u64,
    name: Seq<char>,
    class: Option<Seq<char>>,
    ns: Option<Seq<char>>,
    host: Option<Seq<char>>,
    port: Option<u16>,
    proto: Option<u8>,
    parent: Option<Seq<char>>,
) -> u64;

/// `v` with its id replaced by the hash of its other parts (hashed with id `0`).
pub open spec fn address_rehashed(v: AddressView) -> AddressView {
    AddressView {
        id: address_fields_hash(0, v.name, v.class, v.ns, v.host, v.port, opt_scheme_index(v.proto), v.parent),
        ..v
    }
}

/// A new in-process address for actor `name` on `host:port`.
pub open spec fn new_address(name: Seq<char>, host: Seq<char>, port: u16) -> AddressView {
    address_rehashed(AddressView {
        id: 0,
        name,
        class: Some("default"@),
        ns: Some("system"@),
        host: Some(host),
        port: Some(port),
        proto: Some(Scheme::Inprocess),
        parent: None,
    })
}

/// Whether an address is on this machine: no host means no; otherwise its IPv4 host is
/// loopback or `machine_ip`.
pub open spec fn address_is_local(v: AddressView, machine_ip: Option<u32>) -> bool {
    match v.host {
        None => false,
        Some(h) => {
            let ip = ipv4_value(h).unwrap();
            ip / 16777216 == 127 || machine_ip == Some(ip)
        },
    }
}

/// The hash std's `DefaultHasher` gives an address over its fields in declaration order
/// (what the derived `Hash` feeds it). Not stated: the hash value itself, named by
/// `address_fields_hash`.
#[verifier::external_body]
pub(crate) fn address_hash(addr: &Address) -> (h: u64)
    ensures
        h == address_fields_hash(addr@.id, addr@.name, addr@.class, addr@.ns, addr@.host, addr@.port,
            opt_scheme_index(addr@.proto), addr@.parent),
{
    let mut hasher = std::collections::hash_map::DefaultHasher::new();
    addr.hash(&mut hasher);
    hasher.finish()
}

impl<'a> Default for Address<'a> {
    /// The empty address: id `0`, empty name, nothing else.
    fn default() -> (a: Address<'a>)
        ensures
            a@ == (AddressView { id: 0, name: Seq::empty(), class: None, ns: None, host: None, port: None, proto: None, parent: None }),
    {
        let name = "";
        proof {
            reveal_strlit("");
            assert(name@ =~= Seq::<char>::empty());
        }
        Address { id: 0, name, class: None, ns: None, host: None, port: None, proto: None, parent: None }
    }
}

impl<'a> Address<'a> {
    fn addr_hash(addr: &mut Address<'a>)
        ensures
            final(addr)@ == address_rehashed(old(addr)@),
    {
        addr.id = 0;
        addr.id = address_hash(addr);
    }

    /// An in-process address for actor `name` on the node `host:port`, with class
    /// `default` and namespace `system`.
    pub fn new(name: &'a str, host: &'a str, port: u16) -> (a: Address<'a>)
        ensures
            a@ == new_address(name@, host@, port),
    {
        let mut addr = Address {
            id: 0,
            name,
            class: Some("default"),
            ns: Some("system"),
            host: Some(host),
            port: Some(port),
            proto: Some(Scheme::Inprocess),
            parent: None,
        };
        Self::addr_hash(&mut addr);
        addr
    }

    /// Moves the address to another port.
    pub fn with_port(&mut self, port: u16)
        ensures
            final(self)@ == address_rehashed(AddressView { port: Some(port), ..old(self)@ }),
    {
        self.port = Some(port);
        Self::addr_hash(self);
    }

    /// Moves the address to host `ip` if `ip` is an IP address text; otherwise no change.
    pub fn with_ip(&mut self, ip: &'a str)
        ensures
            is_ip_text(ip@) ==> final(self)@ == address_rehashed(AddressView { host: Some(ip@), ..old(self)@ }),
            !is_ip_text(ip@) ==> final(self)@ == old(self)@,
    {
        if check_ip_text(ip) {
            self.host = Some(ip);
            Self::addr_hash(self);
        }
    }

    /// The actor name.
    pub fn get_name(&self) -> (n: &'a str)
        ensures
            n@ == self@.name,
    {
        self.name
    }

    /// The numeric id.
    pub fn get_id(&self) -> (id: u64)
        ensures
            id == self@.id,
    {
        self.id
    }

    /// The host, if set.
    pub fn get_host(&self) -> (h: Option<&'a str>)
        ensures
            opt_str(h) == self@.host,
    {
        self.host
    }

    /// The port, if set.
    pub fn get_port(&self) -> (p: Option<u16>)
        ensures
            p == self@.port,
    {
        self.port
    }

    /// The socket address: the host read as an IP address, with the port; `None` when no
    /// host is set. A set host must be an IP address text, and then the port must be set.
    pub fn get_socket_addr(&self) -> (r: Option<(IpValue, u16)>)
        requires
            self@.host matches Some(h) ==> ip_value(h) is Some && self@.port is Some,
        ensures
            r == match self@.host {
                Some(h) => Some((ip_value(h).unwrap(), self@.port.unwrap())),
                None => None,
            },
    {
        match self.host {
            Some(h) => Some((parse_ip(h).unwrap(), self.port.unwrap())),
            None => None,
        }
    }

    /// Whether the address is on this machine (loopback or `machine_ip`). A set host must
    /// be an IPv4 text, and then the port must be set.
    pub fn is_local(&self, machine_ip: Option<u32>) -> (b: bool)
        requires
            self@.host matches Some(h) ==> (ipv4_value(h) is Some && self@.port is Some),
        ensures
            b == address_is_local(self@, machine_ip),
    {
        match self.host {
            None => false,
            Some(h) => {
                let ip = parse_ipv4(h).unwrap();
                if ip / 16777216 == 127 {
                    true
                } else {
                    match machine_ip {
                        Some(m) => m == ip,
                        None => false,
                    }
                }
            },
        }
    }

    /// A copy of the address.
    pub fn duplicate(&self) -> (a: Address<'a>)
        ensures
            a@ == self@,
    {
        Address {
            id: self.id,
            name: self.name,
            class: self.class,
            ns: self.ns,
            host: self.host,
            port: self.port,
            proto: self.proto,
            parent: self.parent,
        }
    }
}

} // verus!
