//! Upstream and listening servers, and the round-robin choice of the
//! upstream server each new connection is forwarded to.
use vstd::prelude::*;
use crate::config::{MainConfig, ServerConfig, UpstreamServerConfig, server_sockets, upstream_sockets};
use crate::errors::UpstreamNotFoundError;
use crate::modular::lemma_mod_once;

verus! {

/// An upstream server, by its address.
#[derive(Debug)]
pub struct Upstream {
    pub socket: String,
}

impl Clone for Upstream {
    fn clone(&self) -> (c: Self)
        ensures
            c.socket@ == self.socket@,
    {
        Upstream { socket: self.socket.clone() }
    }
}

impl Upstream {
    pub fn from_config(ucfg: &UpstreamServerConfig) -> (u: Self)
        ensures
            u.socket@ == ucfg.socket@,
    {
        Self { socket: ucfg.socket.clone() }
    }
}

/// A listening server, by its address.
#[derive(Debug)]
pub struct Server {
    pub socket: String,
}

impl Server {
    pub fn from_config(scfg: &ServerConfig) -> (s: Self)
        ensures
            s.socket@ == scfg.socket@,
    {
        Self { socket: scfg.socket.clone() }
    }
}

/// The listening servers of a configuration, in the order listed.
pub fn servers_from_config(cfg: &MainConfig) -> (servers: Vec<Server>)
    ensures
        servers@.map_values(|s: Server| s.socket@) == server_sockets(cfg.servers@),
{
    let mut servers: Vec<Server> = Vec::new();
    let mut i: usize = 0;
    while i < cfg.servers.len()
        invariant
            0 <= i <= cfg.servers@.len(),
            servers@.len() == i,
            forall|j: int|
                0 <= j < i ==> (#[trigger] servers@[j]).socket@ == cfg.servers@[j].socket@,
        decreases cfg.servers@.len() - i,
    {
        let server = Server::from_config(&cfg.servers[i]);
        servers.push(server);
        i = i + 1;
    }
    assert(servers@.map_values(|s: Server| s.socket@) =~= server_sockets(cfg.servers@));
    servers
}

/// Something that picks the upstream server for a new connection.
pub trait Balancer {
    /// A pick can be made.
    spec fn can_pick(&self) -> bool;

    fn next_upstream(&mut self) -> (r: Result<&Upstream, UpstreamNotFoundError>)
        requires
            old(self).can_pick(),
    ;
}

/// The cursor that follows `cursor` among `n` upstreams.
pub open spec fn next_cursor(cursor: nat, n: nat) -> nat {
    ((cursor + 1) as int % n as int) as nat
}

/// The cursor after `k` picks, starting from `cursor`.
pub open spec fn cursor_after(cursor: nat, n: nat, k: nat) -> nat
    decreases k,
{
    if k == 0 {
        cursor
    } else {
        next_cursor(cursor_after(cursor, n, (k - 1) as nat), n)
    }
}

/// Picks the upstream servers in turn, starting after the one at
/// `next_indx`.
pub struct RoundRobinBalancer {
    upstreams: Vec<Upstream>,
    next_indx: usize,
}

impl RoundRobinBalancer {
    /// The addresses of the upstream servers, in the order they are picked
    /// in.
    pub closed spec fn addresses(&self) -> Seq<Seq<char>> {
        self.upstreams@.map_values(|u: Upstream| u.socket@)
    }

    /// The index of the upstream server picked last (0 before any pick).
    pub closed spec fn cursor(&self) -> nat {
        self.next_indx as nat
    }

    /// The cursor lies among the upstream servers, or at 0 when there are
    /// none.
    pub open spec fn wf(&self) -> bool {
        &&& self.addresses().len() == 0 ==> self.cursor() == 0
        &&& self.addresses().len() > 0 ==> self.cursor() < self.addresses().len()
    }

    /// A balancer with no upstream servers.
    pub fn new() -> (b: Self)
        ensures
            b.wf(),
            b.addresses() == Seq::<Seq<char>>::empty(),
            b.cursor() == 0,
    {
        let b = Self { upstreams: Vec::new(), next_indx: 0 };
        assert(b.addresses() =~= Seq::<Seq<char>>::empty());
        b
    }

    /// A balancer over the configuration's upstream servers, in the order
    /// they are listed.
    pub fn from_config(cfg: &MainConfig) -> (b: Self)
        ensures
            b.wf(),
            b.addresses() == upstream_sockets(cfg.upstream.servers@),
            b.cursor() == 0,
    {
        let servers = &cfg.upstream.servers;
        let mut upstreams: Vec<Upstream> = Vec::new();
        let mut i: usize = 0;
        while i < servers.len()
            invariant
                0 <= i <= servers@.len(),
                upstreams@.len() == i,
                forall|j: int|
                    0 <= j < i ==> (#[trigger] upstreams@[j]).socket@ == servers@[j].socket@,
            decreases servers@.len() - i,
        {
            let upstream = Upstream::from_config(&servers[i]);
            upstreams.push(upstream);
            i = i + 1;
        }
        let b = Self { upstreams, next_indx: 0 };
        assert(b.addresses() =~= upstream_sockets(cfg.upstream.servers@));
        b
    }

    /// How many upstream servers there are to pick from.
    pub fn upstream_count(&self) -> (n: usize)
        ensures
            n == self.addresses().len(),
    {
        self.upstreams.len()
    }
}

impl Balancer for RoundRobinBalancer {
    open spec fn can_pick(&self) -> bool {
        self.wf() && self.addresses().len() > 0
    }

    /// Moves the cursor one place on, round the end of the list, and picks
    /// the upstream server it then points at.
    fn next_upstream(&mut self) -> (r: Result<&Upstream, UpstreamNotFoundError>)
        ensures
            final(self).wf(),
            final(self).addresses() == old(self).addresses(),
            final(self).cursor() == next_cursor(old(self).cursor(), old(self).addresses().len()),
            r matches Ok(u) && u.socket@ == old(self).addresses()[final(self).cursor() as int],
    {
        let n = self.upstreams.len();
        proof {
            assert(self.addresses().len() == self.upstreams@.len());
            lemma_mod_once(self.next_indx + 1, self.upstreams@.len() as int);
        }
        self.next_indx = (self.next_indx + 1) % n;
        return Ok(&self.upstreams[self.next_indx]);
    }
}


/// How many picks from `cursor` it takes until upstream `j` is picked.
pub open spec fn picks_until(cursor: nat, n: nat, j: nat) -> nat {
    if j > cursor {
        (j - cursor) as nat
    } else {
        (j + n - cursor) as nat
    }
}

/// From a cursor among `n` upstreams, `k` picks move the cursor `k` places
/// on, round the end of the list.
pub proof fn lemma_cursor_after(cursor: nat, n: nat, k: nat)
    requires
        cursor < n,
    ensures
        cursor_after(cursor, n, k) == (cursor + k) as int % n as int,
    decreases k,
{
    if k == 0 {
        vstd::arithmetic::div_mod::lemma_small_mod(cursor, n);
    } else {
        lemma_cursor_after(cursor, n, (k - 1) as nat);
        vstd::arithmetic::div_mod::lemma_add_mod_noop_right(1, (cursor + k - 1) as int, n as int);
    }
}

/// From a freshly built balancer (cursor 0) over `n` upstreams, the `k`-th
/// pick is upstream `k mod n`: the rotation starts at the second upstream.
pub proof fn lemma_kth_pick_from_start(n: nat, k: nat)
    requires
        n >= 1,
    ensures
        cursor_after(0, n, k) == k as int % n as int,
{
    lemma_cursor_after(0, n, k);
}

/// Round-robin fairness: among any `n` consecutive picks from `n`
/// upstreams, each upstream is picked exactly once, and the cursor is back
/// where it started.
pub proof fn lemma_round_robin_fair(cursor: nat, n: nat)
    requires
        cursor < n,
    ensures
        forall|k1: nat, k2: nat|
            1 <= k1 < k2 <= n ==> cursor_after(cursor, n, k1) != cursor_after(cursor, n, k2),
        forall|j: nat|
            j < n ==> 1 <= #[trigger] picks_until(cursor, n, j) <= n && cursor_after(
                cursor,
                n,
                picks_until(cursor, n, j),
            ) == j,
        cursor_after(cursor, n, n) == cursor,
{
    assert forall|k1: nat, k2: nat| 1 <= k1 < k2 <= n implies cursor_after(cursor, n, k1)
        != cursor_after(cursor, n, k2) by {
        lemma_cursor_after(cursor, n, k1);
        lemma_cursor_after(cursor, n, k2);
        lemma_mod_once((cursor + k1) as int, n as int);
        lemma_mod_once((cursor + k2) as int, n as int);
    }
    assert forall|j: nat| j < n implies 1 <= #[trigger] picks_until(cursor, n, j) <= n
        && cursor_after(cursor, n, picks_until(cursor, n, j)) == j by {
        let k = picks_until(cursor, n, j);
        lemma_cursor_after(cursor, n, k);
        lemma_mod_once((cursor + k) as int, n as int);
        assert(cursor_after(cursor, n, k) == j);
    }
    lemma_cursor_after(cursor, n, n);
    lemma_mod_once((cursor + n) as int, n as int);
}

} // verus!
