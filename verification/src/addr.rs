//! `Addr`: the address of an actor: its name, namespace and class, and the host and port
//! of the node that runs it. The numeric id of an address is the hash of all its other
//! parts, so equal addresses have equal ids.
use vstd::prelude::*;
use std::hash::{Hash, Hasher};
use crate::config::{Config, ConfigView};
use crate::codec::{le_bytes, bincode_str, bincode_opt_str, bincode_opt_u16, put_le, put_str, put_opt_str, put_opt_u16, str_fits, opt_str_fits, pow256, lemma_pow256_8, lemma_le_prefix, lemma_str_prefix, lemma_opt_str_prefix, lemma_opt_u16_prefix, lemma_concat_assoc};
use crate::text::{first_piece, second_piece, split_two, parse_u16, parse_unsigned, ipv4_value, parse_ipv4, is_ip_text, check_ip_text, IpValue, ip_value, parse_ip};

verus! {

/// An actor address with name, node ip and port.
#[derive(PartialEq, Eq, Clone, Debug, Hash, Default)]
pub struct Addr {
    id: u64,
    name: String,
    class: Option<String>,
    ns: Option<String>,
    host: Option<String>,
    port: Option<u16>,
}

/// The abstract value of an [`Addr`].
pub struct AddrView {
    pub id: u64,
    pub name: Seq<char>,
    pub class: Option<Seq<char>>,
    pub ns: Option<Seq<char>>,
    pub host: Option<Seq<char>>,
    pub port: Option<u16>,
}

/// The text of an optional string.
pub open spec fn opt_text(s: Option<String>) -> Option<Seq<char>> {
    match s {
        Some(t) => Some(t@),
        None => None,
    }
}

impl View for Addr {
    type V = AddrView;

    closed spec fn view(&self) -> AddrView {
        AddrView {
            id: self.id,
            name: self.name@,
            class: opt_text(self.class),
            ns: opt_text(self.ns),
            host: opt_text(self.host),
            port: self.port,
        }
    }
}

/// The std `DefaultHasher` hash of an address with the given parts, its fields hashed in
/// declaration order.
pub uninterp spec fn addr_fields_hash(
    id: u64,
    name: Seq<char>,
    class: Option<Seq<char>>,
    ns: Option<Seq<char>>,
    host: Option<Seq<char>>,
    port: Option<u16>,
) -> u64;

/// The hash of `v` as std's `DefaultHasher` computes it over all of its fields.
pub open spec fn hash_of(v: AddrView) -> u64 {
    addr_fields_hash(v.id, v.name, v.class, v.ns, v.host, v.port)
}

/// `v` with its id replaced by the hash of its other parts (hashed with id `0`).
pub open spec fn rehashed(v: AddrView) -> AddrView {
    AddrView { id: hash_of(AddrView { id: 0, ..v }), ..v }
}

/// The id of `v` is the hash of its other parts: true of every address that `new`,
/// `remote`, `with_port` and `with_ip` make.
pub open spec fn is_hashed(v: AddrView) -> bool {
    v == rehashed(v)
}

/// A local address for actor `name` on the node described by `c`.
pub open spec fn local_addr(name: Seq<char>, c: ConfigView) -> AddrView {
    rehashed(AddrView {
        id: 0,
        name,
        class: Some("default"@),
        ns: Some("system"@),
        host: Some(c.host),
        port: Some(c.port),
    })
}

/// The port that `Addr::remote` reads from the second piece of `host:port`: the number if
/// it parses, `7171` if it does not.
pub open spec fn remote_port(hostport: Seq<char>) -> Option<u16> {
    match second_piece(hostport, ':') {
        None => None,
        Some(p) => match parse_unsigned(p, 65535) {
            Some(n) => Some(n as u16),
            None => Some(7171u16),
        },
    }
}

/// The address `Addr::remote` makes for actor `name` at `host:port`.
pub open spec fn remote_addr(name: Seq<char>, hostport: Seq<char>, c: ConfigView) -> AddrView {
    rehashed(AddrView {
        host: Some(first_piece(hostport, ':')),
        port: remote_port(hostport),
        ..local_addr(name, c)
    })
}

/// `v` moved to port `port`.
pub open spec fn moved_to_port(v: AddrView, port: u16) -> AddrView {
    rehashed(AddrView { port: Some(port), ..v })
}

/// `v` moved to host `ip` when `ip` is an IP address text; `v` itself otherwise.
pub open spec fn moved_to_ip(v: AddrView, ip: Seq<char>) -> AddrView {
    if is_ip_text(ip) {
        rehashed(AddrView { host: Some(ip), ..v })
    } else {
        v
    }
}

/// Whether `port` is the node's own port.
pub open spec fn port_is_local(port: Option<u16>, c: ConfigView) -> bool {
    port == Some(c.port)
}

/// Whether the IPv4 address `ip` is this machine: a loopback address (`127.x.x.x`), the
/// wildcard `0.0.0.0`, or the machine's own address.
pub open spec fn ip_is_local(ip: u32, machine_ip: Option<u32>) -> bool {
    ip / 16777216 == 127 || ip == 0 || machine_ip == Some(ip)
}

/// Whether an address lives on this node; its host must be an IPv4 text.
pub open spec fn addr_is_local(v: AddrView, c: ConfigView, machine_ip: Option<u32>) -> bool {
    ip_is_local(ipv4_value(v.host.unwrap()).unwrap(), machine_ip) && port_is_local(v.port, c)
}

/// The socket address of an address: its host read as an IP address, and its port; `None`
/// when the host is missing or is no IP address text, or the port is missing.
pub open spec fn socket_addr(v: AddrView) -> Option<(IpValue, u16)> {
    match v.host {
        Some(h) => match (ip_value(h), v.port) {
            (Some(ip), Some(p)) => Some((ip, p)),
            _ => None,
        },
        None => None,
    }
}

/// bincode's encoding of an address: id, name, class, namespace, host, port.
pub open spec fn addr_bytes(v: AddrView) -> Seq<u8> {
    le_bytes(v.id as nat, 8) + bincode_str(v.name) + bincode_opt_str(v.class)
        + bincode_opt_str(v.ns) + bincode_opt_str(v.host) + bincode_opt_u16(v.port)
}

/// The hash that std's `DefaultHasher` gives an address, over its fields in declaration
/// order (what the derived `Hash` feeds it). Not stated: the hash value itself, which is
/// named by `addr_fields_hash`.
#[verifier::external_body]
pub fn compute_hash(addr: &Addr) -> (h: u64)
    ensures
        h == addr_fields_hash(addr@.id, addr@.name, addr@.class, addr@.ns, addr@.host, addr@.port),
{
    let mut hasher = std::collections::hash_map::DefaultHasher::new();
    addr.hash(&mut hasher);
    hasher.finish()
}

impl Addr {
    /// Builds an address from all of its parts.
    pub fn from_parts(
        id: u64,
        name: String,
        class: Option<String>,
        ns: Option<String>,
        host: Option<String>,
        port: Option<u16>,
    ) -> (a: Addr)
        ensures
            a@ == (AddrView { id, name: name@, class: opt_text(class), ns: opt_text(ns), host: opt_text(host), port }),
    {
        Addr { id, name, class, ns, host, port }
    }

    /// A copy of this address.
    pub fn duplicate(&self) -> (a: Addr)
        ensures
            a@ == self@,
    {
        let class = match &self.class { Some(c) => Some(c.clone()), None => None };
        let ns = match &self.ns { Some(c) => Some(c.clone()), None => None };
        let host = match &self.host { Some(c) => Some(c.clone()), None => None };
        Addr { id: self.id, name: self.name.clone(), class, ns, host, port: self.port }
    }

    /// Sets the id to the hash of the other parts.
    fn addr_hash(addr: &mut Addr)
        ensures
            final(addr)@ == rehashed(old(addr)@),
    {
        addr.id = 0;
        addr.id = compute_hash(addr);
    }

    /// The address of actor `name` on the node that `config` describes, with class
    /// `default` and namespace `system`.
    pub fn new(name: &str, config: &Config) -> (a: Addr)
        ensures
            a@ == local_addr(name@, config@),
    {
        let mut addr = Addr {
            id: 0,
            name: name.to_string(),
            class: Some("default".to_string()),
            ns: Some("system".to_string()),
            host: Some(config.host().to_string()),
            port: Some(config.port()),
        };
        Self::addr_hash(&mut addr);
        addr
    }

    /// The address of actor `name` on the node at `hostport` (`host:port`); the port is
    /// `7171` where it does not parse, and absent where `hostport` holds no `:`.
    pub fn remote(name: &str, hostport: &str, config: &Config) -> (a: Addr)
        ensures
            a@ == remote_addr(name@, hostport@, config@),
    {
        let mut addr = Self::new(name, config);
        let (host, port_text) = split_two(hostport, ':');
        let port = match port_text {
            Some(p) => match parse_u16(p.as_str()) {
                Some(n) => Some(n),
                None => Some(7171u16),
            },
            None => None,
        };
        addr.host = Some(host);
        addr.port = port;
        Self::addr_hash(&mut addr);
        addr
    }

    /// Moves the address to another port.
    pub fn with_port(&mut self, port: u16)
        ensures
            final(self)@ == moved_to_port(old(self)@, port),
    {
        self.port = Some(port);
        Self::addr_hash(self);
    }

    /// Moves the address to host `ip`, if `ip` is an IP address text; otherwise the address
    /// is left as it is.
    pub fn with_ip(&mut self, ip: &str)
        ensures
            final(self)@ == moved_to_ip(old(self)@, ip@),
    {
        if check_ip_text(ip) {
            self.host = Some(ip.to_string());
            Self::addr_hash(self);
        }
    }

    /// The actor name.
    pub fn get_name(&self) -> (n: &String)
        ensures
            n@ == self@.name,
    {
        &self.name
    }

    /// The numeric id.
    pub fn get_id(&self) -> (id: u64)
        ensures
            id == self@.id,
    {
        self.id
    }

    /// The host, if set.
    pub fn get_host(&self) -> (h: Option<&String>)
        ensures
            match h {
                Some(t) => self@.host == Some(t@),
                None => self@.host is None,
            },
    {
        match &self.host {
            Some(h) => Some(h),
            None => None,
        }
    }

    /// The class, if set.
    pub fn get_class(&self) -> (c: Option<&String>)
        ensures
            match c {
                Some(t) => self@.class == Some(t@),
                None => self@.class is None,
            },
    {
        match &self.class {
            Some(c) => Some(c),
            None => None,
        }
    }

    /// The namespace, if set.
    pub fn get_ns(&self) -> (n: Option<&String>)
        ensures
            match n {
                Some(t) => self@.ns == Some(t@),
                None => self@.ns is None,
            },
    {
        match &self.ns {
            Some(c) => Some(c),
            None => None,
        }
    }

    /// The port, if set.
    pub fn get_port(&self) -> (p: Option<u16>)
        ensures
            p == self@.port,
    {
        self.port
    }

    /// Whether the address's port is the node's own port.
    pub fn is_local_port(&self, config: &Config) -> (b: bool)
        ensures
            b == port_is_local(self@.port, config@),
    {
        match self.port {
            Some(port) => port == config.port(),
            None => false,
        }
    }

    /// Whether the address's host is this machine: loopback, the wildcard address, or
    /// `machine_ip`. The host must be set and be an IPv4 text.
    pub fn is_local_ip(&self, machine_ip: Option<u32>) -> (b: bool)
        requires
            self@.host is Some,
            ipv4_value(self@.host.unwrap()) is Some,
        ensures
            b == ip_is_local(ipv4_value(self@.host.unwrap()).unwrap(), machine_ip),
    {
        let host = self.host.as_ref().unwrap();
        let ip = parse_ipv4(host.as_str()).unwrap();
        if ip / 16777216 == 127 || ip == 0 {
            true
        } else {
            match machine_ip {
                Some(m) => m == ip,
                None => false,
            }
        }
    }

    /// Whether the address lives on this node: local host and local port. The host must be
    /// set and be an IPv4 text.
    pub fn is_local(&self, config: &Config, machine_ip: Option<u32>) -> (b: bool)
        requires
            self@.host is Some,
            ipv4_value(self@.host.unwrap()) is Some,
        ensures
            b == addr_is_local(self@, config@, machine_ip),
    {
        self.is_local_ip(machine_ip) && self.is_local_port(config)
    }

    /// The socket address (see [`socket_addr`]).
    pub fn get_socket_addr(&self) -> (r: Option<(IpValue, u16)>)
        ensures
            r == socket_addr(self@),
    {
        match &self.host {
            Some(h) => match (parse_ip(h.as_str()), self.port) {
                (Some(ip), Some(p)) => Some((ip, p)),
                _ => None,
            },
            None => None,
        }
    }

    /// The host as an IPv4 address. The host must be set and be an IPv4 text.
    pub fn get_host_ip(&self) -> (ip: IpValue)
        requires
            self@.host is Some,
            ipv4_value(self@.host.unwrap()) is Some,
        ensures
            ip == IpValue::V4(ipv4_value(self@.host.unwrap()).unwrap()),
    {
        let host = self.host.as_ref().unwrap();
        IpValue::V4(parse_ipv4(host.as_str()).unwrap())
    }

    /// Whether `ip` is the address that the node's configured host names.
    pub fn is_ip_local(ip: IpValue, config: &Config) -> (b: bool)
        ensures
            b == (ip_value(config@.host) == Some(ip)),
    {
        match parse_ip(config.host()) {
            Some(own) => own == ip,
            None => false,
        }
    }

    /// Whether the host is set and written as an IPv4 address (what `is_local` needs).
    pub fn has_ipv4_host(&self) -> (b: bool)
        ensures
            b == (self@.host is Some && ipv4_value(self@.host.unwrap()) is Some),
    {
        match &self.host {
            Some(h) => parse_ipv4(h.as_str()).is_some(),
            None => false,
        }
    }

    /// The address in bincode's encoding.
    pub fn as_bytes(&self) -> (b: Vec<u8>)
        ensures
            b@ == addr_bytes(self@),
    {
        let mut out: Vec<u8> = Vec::new();
        self.write_bytes(&mut out);
        assert(out@ == Seq::<u8>::empty() + addr_bytes(self@));
        out
    }

    /// Appends the address in bincode's encoding.
    pub fn write_bytes(&self, out: &mut Vec<u8>)
        ensures
            final(out)@ == old(out)@ + addr_bytes(self@),
    {
        let ghost v = self@;
        let ghost s0 = out@;
        put_le(out, self.id, 8);
        let ghost a = le_bytes(v.id as nat, 8);
        put_str(out, self.name.as_str());
        let ghost b = bincode_str(v.name);
        assert(out@ == s0 + (a + b));
        put_opt_str(out, &self.class);
        let ghost c = bincode_opt_str(v.class);
        assert(out@ == s0 + (a + b + c));
        put_opt_str(out, &self.ns);
        let ghost d = bincode_opt_str(v.ns);
        assert(out@ == s0 + (a + b + c + d));
        put_opt_str(out, &self.host);
        let ghost e = bincode_opt_str(v.host);
        assert(out@ == s0 + (a + b + c + d + e));
        put_opt_u16(out, self.port);
        assert(out@ == s0 + (a + b + c + d + e + bincode_opt_u16(v.port)));
    }
}

} // verus!

verus! {

/// Moving an address to another port and back gives the address back.
pub proof fn lemma_port_round_trip(v: AddrView, p: u16)
    requires
        is_hashed(v),
        v.port is Some,
    ensures
        moved_to_port(moved_to_port(v, p), v.port.unwrap()) == v,
{
    let w = moved_to_port(v, p);
    assert(AddrView { id: 0, port: v.port, ..w } == AddrView { id: 0, ..v });
}

/// The addresses made for local actors carry the hash of their parts as their id, and two
/// actors of the same name on the same node get the same address.
pub proof fn lemma_local_addr_hashed(name: Seq<char>, c: ConfigView)
    ensures
        is_hashed(local_addr(name, c)),
{
}

/// Whether an address's texts fit bincode's length prefixes (always so for texts that fit in
/// memory).
pub open spec fn addr_fits(v: AddrView) -> bool {
    str_fits(v.name) && opt_str_fits(v.class) && opt_str_fits(v.ns) && opt_str_fits(v.host)
}

/// An address's encoding followed by anything determines the address and the rest.
proof fn lemma_addr_bytes_assoc(v: AddrView, r: Seq<u8>)
    ensures
        addr_bytes(v) + r == le_bytes(v.id as nat, 8) + (bincode_str(v.name) + (bincode_opt_str(v.class)
            + (bincode_opt_str(v.ns) + (bincode_opt_str(v.host) + (bincode_opt_u16(v.port) + r))))),
{
    let l = le_bytes(v.id as nat, 8);
    let sn = bincode_str(v.name);
    let c = bincode_opt_str(v.class);
    let n = bincode_opt_str(v.ns);
    let h = bincode_opt_str(v.host);
    let p = bincode_opt_u16(v.port);
    lemma_concat_assoc(l + sn + c + n + h, p, r);
    lemma_concat_assoc(l + sn + c + n, h, p + r);
    lemma_concat_assoc(l + sn + c, n, h + (p + r));
    lemma_concat_assoc(l + sn, c, n + (h + (p + r)));
    lemma_concat_assoc(l, sn, c + (n + (h + (p + r))));
}

pub proof fn lemma_addr_prefix(v: AddrView, w: AddrView, r1: Seq<u8>, r2: Seq<u8>)
    requires
        addr_fits(v),
        addr_fits(w),
        addr_bytes(v) + r1 == addr_bytes(w) + r2,
    ensures
        v == w,
        r1 == r2,
{
    lemma_pow256_8();
    let f1 = bincode_opt_u16(v.port) + r1;
    let f2 = bincode_opt_u16(w.port) + r2;
    let e1 = bincode_opt_str(v.host) + f1;
    let e2 = bincode_opt_str(w.host) + f2;
    let d1 = bincode_opt_str(v.ns) + e1;
    let d2 = bincode_opt_str(w.ns) + e2;
    let c1 = bincode_opt_str(v.class) + d1;
    let c2 = bincode_opt_str(w.class) + d2;
    let b1 = bincode_str(v.name) + c1;
    let b2 = bincode_str(w.name) + c2;
    lemma_addr_bytes_assoc(v, r1);
    lemma_addr_bytes_assoc(w, r2);
    lemma_le_prefix(v.id as nat, w.id as nat, 8, b1, b2);
    lemma_str_prefix(v.name, w.name, c1, c2);
    lemma_opt_str_prefix(v.class, w.class, d1, d2);
    lemma_opt_str_prefix(v.ns, w.ns, e1, e2);
    lemma_opt_str_prefix(v.host, w.host, f1, f2);
    lemma_opt_u16_prefix(v.port, w.port, r1, r2);
}

/// An address's bytes read back to the address: two addresses with the same bytes are the
/// same address.
pub proof fn lemma_addr_bytes_read_back(v: AddrView, w: AddrView)
    requires
        addr_fits(v),
        addr_fits(w),
        addr_bytes(v) == addr_bytes(w),
    ensures
        v == w,
{
    assert(addr_bytes(v) + Seq::<u8>::empty() =~= addr_bytes(w) + Seq::<u8>::empty());
    lemma_addr_prefix(v, w, Seq::<u8>::empty(), Seq::<u8>::empty());
}

} // verus!
