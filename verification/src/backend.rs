use vstd::prelude::*;
use vstd::rwlock::{RwLock, RwLockPredicate};
use std::sync::Arc;
use crate::config::{ServerConfig, spec_weight_or_default, weight_or_default};

verus! {

/// Upper bound on the number of servers in one pool. It keeps the total
/// effective weight far below the range of the sampler's 64-bit accumulator.
pub const MAX_POOL_SERVERS: usize = 0xFFFF_FFFF;

/// The health recorded for one upstream address by a connection probe made
/// at pool construction time.
pub struct HealthStatus {
    pub addr: String,
    pub healthy: bool,
}

/// The health a probe report assigns to `addr`: the first entry for the
/// address decides; an address that was never probed counts as unhealthy.
pub open spec fn spec_health_of(report: Seq<HealthStatus>, addr: Seq<char>) -> bool
    decreases report.len(),
{
    if report.len() == 0 {
        false
    } else if report[0].addr@ == addr {
        report[0].healthy
    } else {
        spec_health_of(report.drop_first(), addr)
    }
}

pub fn lookup_health(report: &Vec<HealthStatus>, addr: &String) -> (h: bool)
    ensures
        h == spec_health_of(report@, addr@),
{
    let mut i: usize = 0;
    proof {
        assert(report@.skip(0) =~= report@);
    }
    while i < report.len()
        invariant
            0 <= i <= report@.len(),
            spec_health_of(report@, addr@) == spec_health_of(report@.skip(i as int), addr@),
        decreases report@.len() - i,
    {
        if report[i].addr == *addr {
            return report[i].healthy;
        }
        proof {
            assert(report@.skip(i as int).drop_first() =~= report@.skip(i as int + 1));
        }
        i = i + 1;
    }
    false
}

/// A server's effective weight: its configured weight while it is healthy,
/// zero while it is not.
pub open spec fn spec_effective_weight(weight: u16, healthy: bool) -> u16 {
    if healthy {
        weight
    } else {
        0u16
    }
}

/// One server's record in a pool: its health as probed at construction,
/// its configured weight, and its position in the parallel weight list.
#[derive(Clone, Copy)]
pub struct Wrr {
    pub healthy: bool,
    pub weight: u16,
    pub weights_index: usize,
}

/// Holds rand's ready-built weighted sampling distribution. Verus sees
/// nothing inside; what the distribution was built over is named by
/// `wi_weights`.
#[verifier::external_body]
pub struct WeightedDist {
    dist: rand::distributions::WeightedIndex<u64>,
}

/// The weights a sampling distribution was built over.
pub uninterp spec fn wi_weights(dist: WeightedDist) -> Seq<u16>;

/// Relies on rand's WeightedIndex::new: construction succeeds exactly when
/// some weight is positive, and the distribution then samples over the given
/// weights. The length bound keeps the accumulated total within u64.
#[verifier::external_body]
fn weighted_index_new(weights: &Vec<u16>) -> (r: Option<WeightedDist>)
    requires
        weights@.len() <= MAX_POOL_SERVERS,
    ensures
        (r is Some) <==> (exists|i: int| 0 <= i < weights@.len() && weights@[i] > 0),
        (r matches Some(d) ==> wi_weights(d) == weights@),
{
    match rand::distributions::WeightedIndex::new(weights.iter().map(|w| *w as u64)) {
        Ok(d) => Some(WeightedDist { dist: d }),
        Err(_) => None,
    }
}

/// Relies on rand's WeightedIndex::sample with thread_rng: whatever the
/// random draw, the sampled value is the index of a positive weight.
#[verifier::external_body]
fn weighted_index_sample(dist: &WeightedDist) -> (i: usize)
    ensures
        i < wi_weights(*dist).len(),
        wi_weights(*dist)[i as int] > 0,
{
    rand::prelude::Distribution::sample(&dist.dist, &mut rand::thread_rng())
}

/// An immutable snapshot of one backend's servers: the addresses, the
/// parallel effective weights, the per-server records, and the ready-built
/// sampling distribution, absent exactly when no server is eligible.
pub struct ServerPool {
    pub servers_map: Vec<Wrr>,
    pub weights: Vec<u16>,
    pub weighted_servers: Vec<String>,
    pub dist: Option<WeightedDist>,
}

impl ServerPool {
    /// Some server has a positive effective weight.
    pub open spec fn eligible(self) -> bool {
        exists|i: int| 0 <= i < self.weights@.len() && self.weights@[i] > 0
    }

    /// The pool invariant: the three lists run in parallel, each effective
    /// weight follows from the record's weight and health, and the
    /// distribution is present over exactly these weights iff some server
    /// is eligible.
    pub open spec fn wf(self) -> bool {
        &&& self.servers_map@.len() == self.weights@.len()
        &&& self.weighted_servers@.len() == self.weights@.len()
        &&& self.weights@.len() <= MAX_POOL_SERVERS
        &&& (forall|i: int|
            0 <= i < self.weights@.len() ==> (#[trigger] self.servers_map@[i]).weights_index == i)
        &&& (forall|i: int|
            0 <= i < self.weights@.len() ==> self.weights@[i] == spec_effective_weight(
                (#[trigger] self.servers_map@[i]).weight,
                self.servers_map@[i].healthy,
            ))
        &&& (self.dist matches Some(d) ==> wi_weights(d) == self.weights@)
        &&& ((self.dist is Some) <==> self.eligible())
    }

    /// Build a pool snapshot from configured servers and a probe report:
    /// every server is kept, healthy ones with their configured weight
    /// (default 1), unhealthy ones with effective weight zero, and the
    /// distribution is built over the effective weights.
    pub fn new_servers(servers: &Vec<ServerConfig>, health: &Vec<HealthStatus>) -> (pool:
        ServerPool)
        requires
            servers@.len() <= MAX_POOL_SERVERS,
        ensures
            pool.wf(),
            pool.weights@.len() == servers@.len(),
            forall|i: int|
                0 <= i < servers@.len() ==> (#[trigger] pool.weighted_servers@[i])@
                    == servers@[i].addr@,
            forall|i: int|
                0 <= i < servers@.len() ==> (#[trigger] pool.servers_map@[i]).weight
                    == spec_weight_or_default(servers@[i].weight),
            forall|i: int|
                0 <= i < servers@.len() ==> (#[trigger] pool.servers_map@[i]).healthy
                    == spec_health_of(health@, servers@[i].addr@),
    {
        let mut back_servers: Vec<Wrr> = Vec::new();
        let mut weights: Vec<u16> = Vec::new();
        let mut weight_servers: Vec<String> = Vec::new();
        let mut index_count: usize = 0;
        while index_count < servers.len()
            invariant
                0 <= index_count <= servers@.len(),
                back_servers@.len() == index_count,
                weights@.len() == index_count,
                weight_servers@.len() == index_count,
                forall|i: int|
                    0 <= i < index_count ==> (#[trigger] weight_servers@[i])@ == servers@[i].addr@,
                forall|i: int|
                    0 <= i < index_count ==> (#[trigger] back_servers@[i]).weight
                        == spec_weight_or_default(servers@[i].weight),
                forall|i: int|
                    0 <= i < index_count ==> (#[trigger] back_servers@[i]).healthy
                        == spec_health_of(health@, servers@[i].addr@),
                forall|i: int|
                    0 <= i < index_count ==> (#[trigger] back_servers@[i]).weights_index == i,
                forall|i: int|
                    0 <= i < index_count ==> weights@[i] == spec_effective_weight(
                        (#[trigger] back_servers@[i]).weight,
                        back_servers@[i].healthy,
                    ),
            decreases servers@.len() - index_count,
        {
            let sc = &servers[index_count];
            let server_weight: u16 = weight_or_default(&sc.weight);
            let healthy = lookup_health(health, &sc.addr);
            weight_servers.push(sc.addr.clone());
            if healthy {
                weights.push(server_weight);
            } else {
                weights.push(0);
            }
            back_servers.push(Wrr { healthy, weight: server_weight, weights_index: index_count });
            index_count = index_count + 1;
        }
        let dist = weighted_index_new(&weights);
        ServerPool { servers_map: back_servers, weights, weighted_servers: weight_servers, dist }
    }

    /// Draw one address from the snapshot, with probability proportional to
    /// its effective weight; report "no eligible server" exactly when every
    /// effective weight is zero. A returned address always belongs to a
    /// server with a positive effective weight.
    pub fn select(&self) -> (r: Option<String>)
        requires
            self.wf(),
        ensures
            (r is Some) <==> self.eligible(),
            r matches Some(addr) ==> exists|i: int|
                0 <= i < self.weighted_servers@.len() && (#[trigger] self.weighted_servers@[i])@
                    == addr@ && self.weights@[i] > 0,
    {
        match &self.dist {
            Some(d) => {
                let i = weighted_index_sample(d);
                let addr = self.weighted_servers[i].clone();
                Some(addr)
            },
            None => None,
        }
    }
}

/// A server that probed unhealthy keeps its configured weight but has
/// effective weight zero, and — when the pool's addresses are distinct —
/// no selection outcome can carry its address.
pub proof fn lemma_unhealthy_server_not_selectable(pool: ServerPool, k: int, addr: Seq<char>)
    requires
        pool.wf(),
        0 <= k < pool.servers_map@.len(),
        !pool.servers_map@[k].healthy,
        pool.weighted_servers@[k]@ == addr,
        forall|i: int, j: int|
            0 <= i < j < pool.weighted_servers@.len() ==> (#[trigger] pool.weighted_servers@[i])@
                != (#[trigger] pool.weighted_servers@[j])@,
    ensures
        pool.weights@[k] == 0,
        !(exists|i: int|
            0 <= i < pool.weighted_servers@.len() && (#[trigger] pool.weighted_servers@[i])@
                == addr && pool.weights@[i] > 0),
{
    assert(pool.weights@[k] == spec_effective_weight(
        pool.servers_map@[k].weight,
        pool.servers_map@[k].healthy,
    ));
    assert forall|i: int|
        0 <= i < pool.weighted_servers@.len() && (#[trigger] pool.weighted_servers@[i])@
            == addr implies !(pool.weights@[i] > 0) by {
        if i < k {
            assert(pool.weighted_servers@[i]@ != pool.weighted_servers@[k]@);
        } else if i > k {
            assert(pool.weighted_servers@[k]@ != pool.weighted_servers@[i]@);
        }
    }
}

/// A pool in which every server probed unhealthy has no eligible server,
/// so its distribution is absent and selection always reports "no eligible
/// server".
pub proof fn lemma_all_unhealthy_never_eligible(pool: ServerPool)
    requires
        pool.wf(),
        forall|i: int|
            0 <= i < pool.servers_map@.len() ==> !(#[trigger] pool.servers_map@[i]).healthy,
    ensures
        !pool.eligible(),
        pool.dist is None,
{
    assert forall|i: int| 0 <= i < pool.weights@.len() implies !(pool.weights@[i] > 0) by {
        assert(pool.weights@[i] == spec_effective_weight(
            pool.servers_map@[i].weight,
            pool.servers_map@[i].healthy,
        ));
    }
}

/// The one value a pool behind a backend's lock must satisfy: the pool
/// invariant. Every snapshot a reader observes satisfies it.
pub struct PoolPred {}

impl RwLockPredicate<ServerPool> for PoolPred {
    open spec fn inv(self, v: ServerPool) -> bool {
        v.wf()
    }
}

/// A named, shared holder of the current server pool. Many readers may
/// sample the current snapshot concurrently; a reload replaces the whole
/// snapshot under exclusive access.
pub struct Backend {
    pub name: String,
    pub servers: Arc<RwLock<ServerPool, PoolPred>>,
}

impl Backend {
    pub fn new(name: String, servers: &Vec<ServerConfig>, health: &Vec<HealthStatus>) -> (b:
        Backend)
        requires
            servers@.len() <= MAX_POOL_SERVERS,
        ensures
            b.name@ == name@,
    {
        let pool = ServerPool::new_servers(servers, health);
        Backend { name, servers: Arc::new(RwLock::new(pool, Ghost(PoolPred {}))) }
    }

    /// Atomically replace the current pool with `pool`: a whole-value swap
    /// under exclusive access, never a field-by-field edit. Readers in
    /// progress finish against the old snapshot.
    pub fn set_pool(&self, pool: ServerPool)
        requires
            pool.wf(),
    {
        let (_old_pool, write_handle) = self.servers.acquire_write();
        write_handle.release_write(pool);
    }

    /// Copies of the current snapshot's address list and effective-weight
    /// list, taken under one read acquisition: they come from one
    /// well-formed pool, never a mix of two.
    pub fn snapshot(&self) -> (r: (Vec<String>, Vec<u16>))
        ensures
            exists|p: ServerPool|
                #[trigger] p.wf() && r.1@ == p.weights@ && r.0@.len() == p.weighted_servers@.len()
                    && (forall|i: int|
                    0 <= i < r.0@.len() ==> (#[trigger] r.0@[i])@ == p.weighted_servers@[i]@),
    {
        let read_handle = self.servers.acquire_read();
        let pool = read_handle.borrow();
        let ghost observed = *pool;
        let mut addrs: Vec<String> = Vec::new();
        let mut i: usize = 0;
        while i < pool.weighted_servers.len()
            invariant
                0 <= i <= pool.weighted_servers@.len(),
                addrs@.len() == i,
                forall|j: int|
                    0 <= j < i ==> (#[trigger] addrs@[j])@ == pool.weighted_servers@[j]@,
            decreases pool.weighted_servers@.len() - i,
        {
            addrs.push(pool.weighted_servers[i].clone());
            i = i + 1;
        }
        let mut weights: Vec<u16> = Vec::new();
        let mut k: usize = 0;
        while k < pool.weights.len()
            invariant
                0 <= k <= pool.weights@.len(),
                weights@.len() == k,
                forall|j: int| 0 <= j < k ==> weights@[j] == pool.weights@[j],
            decreases pool.weights@.len() - k,
        {
            weights.push(pool.weights[k]);
            k = k + 1;
        }
        proof {
            assert(weights@ =~= observed.weights@);
        }
        read_handle.release_read();
        (addrs, weights)
    }
}

/// Read the backend's current snapshot under one read-lock acquisition and
/// draw one address from it: the result is consistent with a single
/// well-formed snapshot — present iff that snapshot has an eligible server,
/// and then carrying the address of a server with positive effective weight.
pub fn get_next(backend: Arc<Backend>) -> (r: Option<String>)
    ensures
        exists|pool: ServerPool|
            #[trigger] pool.wf() && ((r is Some) <==> pool.eligible()) && (r matches Some(addr)
                ==> exists|i: int|
                0 <= i < pool.weighted_servers@.len() && (#[trigger] pool.weighted_servers@[i])@
                    == addr@ && pool.weights@[i] > 0),
{
    let read_handle = backend.servers.acquire_read();
    let pool = read_handle.borrow();
    let ghost observed = *pool;
    let r = pool.select();
    read_handle.release_read();
    proof {
        assert(observed.wf() && ((r is Some) <==> observed.eligible()) && (r matches Some(addr)
            ==> exists|i: int|
            0 <= i < observed.weighted_servers@.len() && (#[trigger] observed.weighted_servers@[i])@
                == addr@ && observed.weights@[i] > 0));
    }
    r
}

} // verus!
