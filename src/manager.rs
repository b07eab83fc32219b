use vstd::prelude::*;
use std::collections::HashMap;
use crate::address::{address_of, format_address};
use crate::ports::{PortAllocator, in_range, is_lowest_free, is_exhausted};

verus! {

broadcast use {vstd::std_specs::hash::group_hash_axioms, vstd::string::group_string_axioms};

/// The port that the range of dynamic ports starts at unless configured.
pub const DEFAULT_BASE_PORT: u16 = 1935;

/// The highest port of the range of dynamic ports.
pub const HIGHEST_PORT: u16 = 65535;

/// Creates, tracks and removes server instances: issues identifiers, issues
/// ports, and records the address of each live instance.
pub struct RtmpServerManager {
    servers: HashMap<u16, String>,
    id_port_mapping: HashMap<u16, u16>,
    dynamic_ports: PortAllocator,
    server_id_counter: u16,
    base_ip: String,
}

/// The ports held by the identifiers `start`, ..., `start + count - 1` in `m`.
pub open spec fn issued(m: RtmpServerManager, start: u16, count: int) -> Set<u16> {
    Set::new(
        |p: u16|
            exists|id: u16|
                start <= id < start + count && m.ports().contains_key(id) && #[trigger] m.ports()[id]
                    == p,
    )
}

/// What `create_rtmp_server(n)` does, taking `old` to `new` and returning `r`.
pub open spec fn create_post(
    old: RtmpServerManager,
    n: nat,
    new: RtmpServerManager,
    r: Seq<(u16, String)>,
) -> bool {
    let start = old.next_id();
    &&& new.wf()
    &&& new.base_ip() == old.base_ip()
    &&& new.low_port() == old.low_port()
    &&& new.high_port() == old.high_port()
    &&& r.len() <= n
    &&& r.len() < n ==> is_exhausted(new.used_ports(), new.low_port(), new.high_port())
    &&& new.next_id() == start + r.len() + (if r.len() < n { 1int } else { 0int })
    &&& forall|i: int| 0 <= i < r.len() ==> (#[trigger] r[i]).0 == start + i
    &&& forall|i: int|
        0 <= i < r.len() ==> new.ports().contains_key(#[trigger] r[i].0) && r[i].1@ == address_of(
            old.base_ip(),
            new.ports()[r[i].0],
        )
    &&& forall|i: int|
        0 <= i < r.len() ==> is_lowest_free(
            old.used_ports().union(issued(new, start, i)),
            old.low_port(),
            old.high_port(),
            new.ports()[#[trigger] r[i].0],
        )
    &&& forall|id: u16|
        new.ports().contains_key(id) <==> (old.ports().contains_key(id) || (start <= id < start
            + r.len()))
    &&& forall|id: u16|
        #[trigger] old.ports().contains_key(id) ==> new.ports()[id] == old.ports()[id]
            && new.addresses()[id] == old.addresses()[id]
    &&& new.used_ports() == old.used_ports().union(issued(new, start, r.len() as int))
}

/// What `remove_rtmp_server(id)` does, taking `old` to `new`.
pub open spec fn remove_post(old: RtmpServerManager, id: u16, new: RtmpServerManager) -> bool {
    &&& new.wf()
    &&& new.base_ip() == old.base_ip()
    &&& new.low_port() == old.low_port()
    &&& new.high_port() == old.high_port()
    &&& new.next_id() == old.next_id()
    &&& new.addresses() == old.addresses().remove(id)
    &&& new.ports() == old.ports().remove(id)
    &&& new.used_ports() == if old.ports().contains_key(id) {
        old.used_ports().remove(old.ports()[id])
    } else {
        old.used_ports()
    }
}

impl RtmpServerManager {
    /// The address of each live instance, by identifier.
    pub closed spec fn addresses(&self) -> Map<u16, String> {
        self.servers@
    }

    /// The port of each live instance, by identifier.
    pub closed spec fn ports(&self) -> Map<u16, u16> {
        self.id_port_mapping@
    }

    /// The ports that the port allocator holds as in use.
    pub closed spec fn used_ports(&self) -> Set<u16> {
        self.dynamic_ports.used()
    }

    /// The identifier that the next instance gets.
    pub closed spec fn next_id(&self) -> u16 {
        self.server_id_counter
    }

    /// The host part of every address.
    pub closed spec fn base_ip(&self) -> Seq<char> {
        self.base_ip@
    }

    pub closed spec fn low_port(&self) -> u16 {
        self.dynamic_ports.low()
    }

    pub closed spec fn high_port(&self) -> u16 {
        self.dynamic_ports.high()
    }

    pub closed spec fn allocator_wf(&self) -> bool {
        self.dynamic_ports.wf()
    }

    /// The records, the port mapping and the allocator agree: each live
    /// identifier has one address built from its own port, no two live
    /// identifiers share a port, the ports in use are exactly the live ones,
    /// and every live identifier was issued already.
    pub open spec fn wf(&self) -> bool {
        &&& self.allocator_wf()
        &&& self.addresses().dom() == self.ports().dom()
        &&& forall|id: u16| #[trigger] self.ports().contains_key(id) ==> id < self.next_id()
        &&& forall|id: u16|
            #[trigger] self.ports().contains_key(id) ==> self.addresses()[id]@ == address_of(
                self.base_ip(),
                self.ports()[id],
            )
        &&& forall|id: u16| #[trigger] self.ports().contains_key(id) ==> in_range(
            self.low_port(),
            self.high_port(),
            self.ports()[id],
        )
        &&& forall|id: u16| #[trigger]
            self.ports().contains_key(id) ==> self.used_ports().contains(self.ports()[id])
        &&& forall|p: u16| #[trigger]
            self.used_ports().contains(p) ==> exists|id: u16|
                self.ports().contains_key(id) && #[trigger] self.ports()[id] == p
        &&& forall|a: u16, b: u16|
            #[trigger] self.ports().contains_key(a) && #[trigger] self.ports().contains_key(b)
                && self.ports()[a] == self.ports()[b] ==> a == b
    }

    /// A manager with no instances, addresses on `base_ip`, and dynamic ports
    /// from `base_port` up to the highest port.
    pub fn with_config(base_ip: String, base_port: u16) -> (r: Self)
        ensures
            r.wf(),
            r.addresses() == Map::<u16, String>::empty(),
            r.ports() == Map::<u16, u16>::empty(),
            r.used_ports() == Set::<u16>::empty(),
            r.next_id() == 0,
            r.base_ip() == base_ip@,
            r.low_port() == base_port,
            r.high_port() == HIGHEST_PORT,
    {
        RtmpServerManager {
            servers: HashMap::new(),
            id_port_mapping: HashMap::new(),
            dynamic_ports: PortAllocator::new(base_port, HIGHEST_PORT),
            server_id_counter: 0,
            base_ip,
        }
    }

    /// A manager with no instances, addresses on `0.0.0.0`, and dynamic ports
    /// from the default base port up to the highest port.
    pub fn new() -> (r: Self)
        ensures
            r.wf(),
            r.addresses() == Map::<u16, String>::empty(),
            r.ports() == Map::<u16, u16>::empty(),
            r.used_ports() == Set::<u16>::empty(),
            r.next_id() == 0,
            r.base_ip() == "0.0.0.0"@,
            r.low_port() == DEFAULT_BASE_PORT,
            r.high_port() == HIGHEST_PORT,
    {
        let ip: String = "0.0.0.0".to_string();
        Self::with_config(ip, DEFAULT_BASE_PORT)
    }

    /// The identifier that the next instance gets.
    pub fn next_server_id(&self) -> (r: u16)
        ensures
            r == self.next_id(),
    {
        self.server_id_counter
    }

    /// Creates up to `num_servers` instances. Each takes the next identifier,
    /// then the lowest free port, and is recorded under its identifier with
    /// the address `base_ip:port`. When the port range runs out, the identifier
    /// taken for that attempt stays spent and creation stops; the instances
    /// created so far remain. Returns the identifier and address of each new
    /// instance, in order.
    pub fn create_rtmp_server(&mut self, num_servers: u16) -> (r: Vec<(u16, String)>)
        requires
            old(self).wf(),
            old(self).next_id() + num_servers <= u16::MAX,
        ensures
            create_post(*old(self), num_servers as nat, *final(self), r@),
    {
        let ghost start = self.next_id();
        let mut server_addresses: Vec<(u16, String)> = Vec::new();
        let mut k: u16 = 0;
        assert(self.used_ports() =~= old(self).used_ports().union(issued(*self, start, 0)));
        while k < num_servers
            invariant
                self.wf(),
                k <= num_servers,
                start == old(self).next_id(),
                start + num_servers <= u16::MAX,
                server_addresses@.len() == k,
                self.next_id() == start + k,
                self.base_ip() == old(self).base_ip(),
                self.low_port() == old(self).low_port(),
                self.high_port() == old(self).high_port(),
                forall|i: int| 0 <= i < k ==> (#[trigger] server_addresses@[i]).0 == start + i,
                forall|i: int|
                    0 <= i < k ==> self.ports().contains_key(#[trigger] server_addresses@[i].0)
                        && server_addresses@[i].1@ == address_of(
                        old(self).base_ip(),
                        self.ports()[server_addresses@[i].0],
                    ),
                forall|i: int|
                    0 <= i < k ==> is_lowest_free(
                        old(self).used_ports().union(issued(*self, start, i)),
                        old(self).low_port(),
                        old(self).high_port(),
                        self.ports()[#[trigger] server_addresses@[i].0],
                    ),
                forall|id: u16|
                    self.ports().contains_key(id) <==> (old(self).ports().contains_key(id) || (
                    start <= id < start + k)),
                forall|id: u16|
                    #[trigger] old(self).ports().contains_key(id) ==> self.ports()[id] == old(
                        self,
                    ).ports()[id] && self.addresses()[id] == old(self).addresses()[id],
                self.used_ports() == old(self).used_ports().union(issued(*self, start, k as int)),
            decreases num_servers - k,
        {
            let ghost before = *self;
            let server_id = self.server_id_counter;
            self.server_id_counter = server_id + 1;
            match self.dynamic_ports.get_next_dynamic_port() {
                None => {
                    assert(issued(*self, start, k as int) =~= issued(before, start, k as int));
                    assert forall|i: int| 0 <= i < k implies issued(*self, start, i) =~= issued(
                        before,
                        start,
                        i,
                    ) by {}
                    return server_addresses;
                },
                Some(port) => {
                    let address = format_address(&self.base_ip, port);
                    self.servers.insert(server_id, address.clone());
                    self.id_port_mapping.insert(server_id, port);
                    proof {
                        assert(!before.ports().contains_key(server_id));
                        assert(self.ports() == before.ports().insert(server_id, port));
                        assert forall|i: int| 0 <= i <= k implies issued(*self, start, i)
                            =~= issued(before, start, i) by {
                            assert forall|p: u16| #[trigger]
                                issued(*self, start, i).contains(p) implies issued(
                                before,
                                start,
                                i,
                            ).contains(p) by {
                                let id = choose|id: u16|
                                    start <= id < start + i && self.ports().contains_key(id)
                                        && #[trigger] self.ports()[id] == p;
                                assert(before.ports()[id] == p);
                            }
                            assert forall|p: u16| #[trigger]
                                issued(before, start, i).contains(p) implies issued(
                                *self,
                                start,
                                i,
                            ).contains(p) by {
                                let id = choose|id: u16|
                                    start <= id < start + i && before.ports().contains_key(id)
                                        && #[trigger] before.ports()[id] == p;
                                assert(self.ports()[id] == p);
                            }
                        }
                        assert(issued(*self, start, k + 1) =~= issued(before, start, k as int).insert(
                            port,
                        )) by {
                            assert(self.ports()[server_id] == port);
                            assert forall|p: u16| #[trigger]
                                issued(*self, start, k + 1).contains(p) implies issued(
                                before,
                                start,
                                k as int,
                            ).insert(port).contains(p) by {
                                let id = choose|id: u16|
                                    start <= id < start + k + 1 && self.ports().contains_key(id)
                                        && #[trigger] self.ports()[id] == p;
                                if id != server_id {
                                    assert(before.ports()[id] == p);
                                }
                            }
                        }
                        assert(self.used_ports() =~= old(self).used_ports().union(
                            issued(*self, start, k + 1),
                        ));
                        assert forall|p: u16| #[trigger]
                            self.used_ports().contains(p) implies exists|id: u16|
                            self.ports().contains_key(id) && #[trigger] self.ports()[id] == p by {
                            if p == port {
                                assert(self.ports()[server_id] == p);
                            } else {
                                assert(before.used_ports().contains(p));
                                let id = choose|id: u16|
                                    before.ports().contains_key(id) && #[trigger] before.ports()[id]
                                        == p;
                                assert(self.ports()[id] == p);
                            }
                        }
                    }
                    server_addresses.push((server_id, address));
                    k = k + 1;
                },
            }
        }
        server_addresses
    }

    /// The address of every live instance, by identifier: a copy that later
    /// changes to the manager do not reach.
    pub fn get_all_rtmp_servers(&self) -> (r: HashMap<u16, String>)
        ensures
            r@ == self.addresses(),
    {
        self.servers.clone()
    }

    /// The address of the live instance `id`, or `None` when there is none.
    pub fn get_by_id_rtmp_servers(&self, id: u16) -> (r: Option<String>)
        ensures
            match r {
                Some(a) => self.addresses().contains_key(id) && a@ == self.addresses()[id]@,
                None => !self.addresses().contains_key(id),
            },
    {
        match self.servers.get(&id) {
            Some(a) => Some(a.clone()),
            None => None,
        }
    }

    /// The port of the live instance `id`, or `None` when there is none.
    pub fn get_port(&self, id: u16) -> (r: Option<u16>)
        ensures
            match r {
                Some(p) => self.ports().contains_key(id) && p == self.ports()[id],
                None => !self.ports().contains_key(id),
            },
    {
        match self.id_port_mapping.get(&id) {
            Some(p) => Some(*p),
            None => None,
        }
    }

    /// Removes the instance `id`: releases its port, then deletes its record.
    /// An identifier with no live instance is left alone.
    pub fn remove_rtmp_server(&mut self, id: u16)
        requires
            old(self).wf(),
        ensures
            remove_post(*old(self), id, *final(self)),
    {
        let ghost before = *self;
        match self.id_port_mapping.remove(&id) {
            Some(port) => {
                assert(port == before.ports()[id]);
                self.dynamic_ports.release(port);
            },
            None => {},
        }
        self.servers.remove(&id);
        proof {
            assert(self.addresses() =~= before.addresses().remove(id));
            assert(self.ports() =~= before.ports().remove(id));
            assert forall|p: u16| #[trigger]
                self.used_ports().contains(p) implies exists|j: u16|
                self.ports().contains_key(j) && #[trigger] self.ports()[j] == p by {
                assert(before.used_ports().contains(p));
                let j = choose|j: u16|
                    before.ports().contains_key(j) && #[trigger] before.ports()[j] == p;
                if before.ports().contains_key(id) {
                    assert(p != before.ports()[id]);
                }
                assert(j != id);
                assert(self.ports()[j] == p);
            }
        }
    }
}

} // verus!
