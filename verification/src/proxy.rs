use vstd::prelude::*;
use std::sync::Arc;
use crate::backend::{Backend, HealthStatus, ServerPool, MAX_POOL_SERVERS};
use crate::config::{BackendEntry, BaseConfig, FrontendEntry};

verus! {

/// The backend record a name resolves to: the first entry carrying the name,
/// or none.
pub open spec fn spec_find_backend(backends: Seq<BackendEntry>, name: Seq<char>) -> Option<
    BackendEntry,
>
    decreases backends.len(),
{
    if backends.len() == 0 {
        None
    } else if backends[0].name@ == name {
        Some(backends[0])
    } else {
        spec_find_backend(backends.drop_first(), name)
    }
}

/// A frontend is instantiated at startup exactly when its backend name
/// resolves and the backend has at least one server (and no more than the
/// pool capacity).
pub open spec fn spec_frontend_active(backends: Seq<BackendEntry>, f: FrontendEntry) -> bool {
    match spec_find_backend(backends, f.config.backend@) {
        Some(e) => 0 < e.pool.servers@.len() <= MAX_POOL_SERVERS,
        None => false,
    }
}

fn find_backend<'a>(backends: &'a Vec<BackendEntry>, name: &String) -> (r: Option<
    &'a BackendEntry,
>)
    ensures
        match r {
            Some(e) => spec_find_backend(backends@, name@) == Some(*e),
            None => spec_find_backend(backends@, name@) is None,
        },
{
    let mut i: usize = 0;
    proof {
        assert(backends@.skip(0) =~= backends@);
    }
    while i < backends.len()
        invariant
            0 <= i <= backends@.len(),
            spec_find_backend(backends@, name@) == spec_find_backend(
                backends@.skip(i as int),
                name@,
            ),
        decreases backends@.len() - i,
    {
        if backends[i].name == *name {
            return Some(&backends[i]);
        }
        proof {
            assert(backends@.skip(i as int).drop_first() =~= backends@.skip(i as int + 1));
        }
        i = i + 1;
    }
    None
}

/// Every backend entry of the configuration fits the pool capacity.
pub open spec fn spec_within_capacity(config: BaseConfig) -> bool {
    forall|e: int|
        0 <= e < config.backends@.len() ==> (#[trigger] config.backends@[e]).pool.servers@.len()
            <= MAX_POOL_SERVERS
}

/// Whether every backend entry fits the pool capacity; a snapshot for which
/// this fails cannot be applied as a reload.
pub fn within_capacity(config: &BaseConfig) -> (b: bool)
    ensures
        b == spec_within_capacity(*config),
{
    let mut e: usize = 0;
    while e < config.backends.len()
        invariant
            0 <= e <= config.backends@.len(),
            forall|k: int|
                0 <= k < e ==> (#[trigger] config.backends@[k]).pool.servers@.len()
                    <= MAX_POOL_SERVERS,
        decreases config.backends@.len() - e,
    {
        if config.backends[e].pool.servers.len() > MAX_POOL_SERVERS {
            return false;
        }
        e = e + 1;
    }
    true
}

/// A fixed binding between a listen address and a backend, established once
/// at startup; reload can change the backend's pool contents but never this
/// binding.
pub struct Proxy {
    pub name: String,
    pub listen_addr: String,
    pub backend: Arc<Backend>,
}

/// The proxy carries the frontend's name and listen address and is bound to
/// a backend of the frontend's configured backend name.
pub open spec fn spec_proxy_matches(p: Arc<Proxy>, f: FrontendEntry) -> bool {
    &&& p.name@ == f.name@
    &&& p.listen_addr@ == f.config.listen_addr@
    &&& p.backend.name@ == f.config.backend@
}

/// The set of proxies built from the initial configuration.
pub struct Server {
    pub proxies: Vec<Arc<Proxy>>,
}

/// Every proxy of the list comes from an active frontend of the
/// configuration that it matches.
pub open spec fn spec_proxies_sound(proxies: Seq<Arc<Proxy>>, config: BaseConfig) -> bool {
    forall|j: int|
        0 <= j < proxies.len() ==> exists|k: int|
            0 <= k < config.frontends@.len() && spec_frontend_active(
                config.backends@,
                config.frontends@[k],
            ) && spec_proxy_matches(#[trigger] proxies[j], config.frontends@[k])
}

/// Every active frontend among the first `upto` of the configuration has a
/// matching proxy in the list.
pub open spec fn spec_proxies_complete(
    proxies: Seq<Arc<Proxy>>,
    config: BaseConfig,
    upto: int,
) -> bool {
    forall|k: int|
        0 <= k < upto && spec_frontend_active(
            config.backends@,
            #[trigger] config.frontends@[k],
        ) ==> exists|j: int|
            0 <= j < proxies.len() && spec_proxy_matches(proxies[j], config.frontends@[k])
}

proof fn lemma_sound_push(prev: Seq<Arc<Proxy>>, p: Arc<Proxy>, config: BaseConfig, k: int)
    requires
        spec_proxies_sound(prev, config),
        0 <= k < config.frontends@.len(),
        spec_frontend_active(config.backends@, config.frontends@[k]),
        spec_proxy_matches(p, config.frontends@[k]),
    ensures
        spec_proxies_sound(prev.push(p), config),
{
    assert forall|j: int| 0 <= j < prev.push(p).len() implies exists|kk: int|
        0 <= kk < config.frontends@.len() && spec_frontend_active(
            config.backends@,
            config.frontends@[kk],
        ) && spec_proxy_matches(#[trigger] prev.push(p)[j], config.frontends@[kk]) by {
        if j < prev.len() {
            assert(prev.push(p)[j] == prev[j]);
            let k0 = choose|kk: int|
                0 <= kk < config.frontends@.len() && spec_frontend_active(
                    config.backends@,
                    config.frontends@[kk],
                ) && spec_proxy_matches(#[trigger] prev[j], config.frontends@[kk]);
            assert(spec_proxy_matches(prev.push(p)[j], config.frontends@[k0]));
        } else {
            assert(prev.push(p)[j] == p);
            assert(spec_proxy_matches(prev.push(p)[j], config.frontends@[k]));
        }
    }
}

proof fn lemma_complete_push(prev: Seq<Arc<Proxy>>, p: Arc<Proxy>, config: BaseConfig, upto: int)
    requires
        spec_proxies_complete(prev, config, upto),
        0 <= upto < config.frontends@.len(),
        spec_proxy_matches(p, config.frontends@[upto]),
    ensures
        spec_proxies_complete(prev.push(p), config, upto + 1),
{
    assert forall|k: int|
        0 <= k < upto + 1 && spec_frontend_active(
            config.backends@,
            #[trigger] config.frontends@[k],
        ) implies exists|j: int|
        0 <= j < prev.push(p).len() && spec_proxy_matches(prev.push(p)[j], config.frontends@[k]) by {
        if k < upto {
            let j0 = choose|j: int|
                0 <= j < prev.len() && spec_proxy_matches(prev[j], config.frontends@[k]);
            assert(prev.push(p)[j0] == prev[j0]);
            assert(spec_proxy_matches(prev.push(p)[j0], config.frontends@[k]));
        } else {
            assert(prev.push(p)[prev.len() as int] == p);
            assert(spec_proxy_matches(prev.push(p)[prev.len() as int], config.frontends@[k]));
        }
    }
}

impl Server {
    /// Build one proxy per active frontend of the configuration: every proxy
    /// comes from an active frontend, and every active frontend got a proxy.
    /// A frontend whose backend is missing or has no servers is skipped and
    /// no proxy is created for it.
    pub fn new(config: &BaseConfig, health: &Vec<HealthStatus>) -> (server: Server)
        ensures
            spec_proxies_sound(server.proxies@, *config),
            spec_proxies_complete(server.proxies@, *config, config.frontends@.len() as int),
    {
        let mut proxies: Vec<Arc<Proxy>> = Vec::new();
        let mut idx: usize = 0;
        while idx < config.frontends.len()
            invariant
                0 <= idx <= config.frontends@.len(),
                spec_proxies_sound(proxies@, *config),
                spec_proxies_complete(proxies@, *config, idx as int),
            decreases config.frontends@.len() - idx,
        {
            let front = &config.frontends[idx];
            let mut instantiated = false;
            match find_backend(&config.backends, &front.config.backend) {
                Some(entry) => {
                    if 0 < entry.pool.servers.len() && entry.pool.servers.len()
                        <= MAX_POOL_SERVERS {
                        let backend = Backend::new(
                            front.config.backend.clone(),
                            &entry.pool.servers,
                            health,
                        );
                        let proxy = Proxy {
                            name: front.name.clone(),
                            listen_addr: front.config.listen_addr.clone(),
                            backend: Arc::new(backend),
                        };
                        let arc_proxy = Arc::new(proxy);
                        let ghost prev = proxies@;
                        let ghost gp = arc_proxy;
                        proxies.push(arc_proxy);
                        instantiated = true;
                        proof {
                            assert(spec_frontend_active(
                                config.backends@,
                                config.frontends@[idx as int],
                            ));
                            assert(spec_proxy_matches(gp, config.frontends@[idx as int]));
                            lemma_sound_push(prev, gp, *config, idx as int);
                            lemma_complete_push(prev, gp, *config, idx as int);
                            assert(proxies@ == prev.push(gp));
                        }
                    }
                },
                None => {},
            }
            proof {
                if !instantiated {
                    assert(!spec_frontend_active(config.backends@, config.frontends@[idx as int]));
                    assert forall|k: int|
                        0 <= k < idx as int + 1 && spec_frontend_active(
                            config.backends@,
                            #[trigger] config.frontends@[k],
                        ) implies exists|j: int|
                        0 <= j < proxies@.len() && spec_proxy_matches(
                            proxies@[j],
                            config.frontends@[k],
                        ) by {
                        assert(k < idx as int);
                    }
                }
            }
            idx = idx + 1;
        }
        Server { proxies }
    }

    /// Apply one reload snapshot: for each backend entry of the snapshot,
    /// rebuild a pool (repeating health assessment against `health`) and
    /// atomically swap it into every live backend carrying the entry's name,
    /// later entries overriding earlier ones. The result reports exactly the
    /// proxies whose pool was replaced: an entry naming no live backend is a
    /// pure no-op, and a proxy named by no entry keeps its pool. The set of
    /// proxies and their bindings never change.
    pub fn apply_reload(&self, config: &BaseConfig, health: &Vec<HealthStatus>) -> (updated: Vec<
        usize,
    >)
        requires
            spec_within_capacity(*config),
        ensures
            forall|j: usize|
                j < self.proxies@.len() ==> (updated@.contains(j) <==> exists|e: int|
                    0 <= e < config.backends@.len() && (#[trigger] config.backends@[e]).name@
                        == self.proxies@[j as int].backend.name@),
            forall|u: int| 0 <= u < updated@.len() ==> (#[trigger] updated@[u]) < self.proxies@.len(),
    {
        let mut updated: Vec<usize> = Vec::new();
        let mut j: usize = 0;
        while j < self.proxies.len()
            invariant
                0 <= j <= self.proxies@.len(),
                forall|p: usize|
                    p < j ==> (updated@.contains(p) <==> exists|e: int|
                        0 <= e < config.backends@.len() && (#[trigger] config.backends@[e]).name@
                            == self.proxies@[p as int].backend.name@),
                forall|p: usize| p >= j ==> !updated@.contains(p),
                forall|u: int| 0 <= u < updated@.len() ==> (#[trigger] updated@[u]) < j,
                spec_within_capacity(*config),
            decreases self.proxies@.len() - j,
        {
            let proxy = &self.proxies[j];
            let mut matched = false;
            let mut e: usize = 0;
            while e < config.backends.len()
                invariant
                    0 <= e <= config.backends@.len(),
                    matched <==> exists|k: int|
                        0 <= k < e && (#[trigger] config.backends@[k]).name@
                            == self.proxies@[j as int].backend.name@,
                    proxy == self.proxies@[j as int],
                    0 <= j < self.proxies@.len(),
                    spec_within_capacity(*config),
                decreases config.backends@.len() - e,
            {
                let entry = &config.backends[e];
                if entry.name == proxy.backend.name {
                    let pool = ServerPool::new_servers(&entry.pool.servers, health);
                    proxy.backend.set_pool(pool);
                    matched = true;
                }
                e = e + 1;
            }
            if matched {
                let ghost prev = updated@;
                updated.push(j);
                proof {
                    assert(forall|p: usize|
                        prev.contains(p) ==> #[trigger] updated@.contains(p)) by {
                        assert(forall|u: int| 0 <= u < prev.len() ==> updated@[u] == #[trigger] prev[u]);
                    }
                    assert(updated@[prev.len() as int] == j);
                    assert(forall|p: usize|
                        #[trigger] updated@.contains(p) ==> prev.contains(p) || p == j) by {
                        assert(forall|u: int|
                            0 <= u < updated@.len() && u != prev.len() ==> #[trigger] updated@[u]
                                == prev[u]);
                    }
                }
            }
            j = j + 1;
        }
        updated
    }
}

/// A reload whose backend names match no live backend's name is a pure
/// no-op: the update report of `apply_reload` is empty.
pub proof fn lemma_reload_unknown_backend_noop(
    server: Server,
    config: BaseConfig,
    updated: Seq<usize>,
)
    requires
        forall|j: usize|
            j < server.proxies@.len() ==> (updated.contains(j) <==> exists|e: int|
                0 <= e < config.backends@.len() && (#[trigger] config.backends@[e]).name@
                    == server.proxies@[j as int].backend.name@),
        forall|u: int| 0 <= u < updated.len() ==> (#[trigger] updated[u]) < server.proxies@.len(),
        forall|e: int, j: int|
            0 <= e < config.backends@.len() && 0 <= j < server.proxies@.len()
                ==> (#[trigger] config.backends@[e]).name@ != (#[trigger] server.proxies@[j]).backend.name@,
    ensures
        updated =~= Seq::<usize>::empty(),
{
    if updated.len() > 0 {
        let u = updated[0];
        assert(updated.contains(u));
        assert(u < server.proxies@.len());
        assert(exists|e: int|
            0 <= e < config.backends@.len() && (#[trigger] config.backends@[e]).name@
                == server.proxies@[u as int].backend.name@);
        let e = choose|e: int|
            0 <= e < config.backends@.len() && (#[trigger] config.backends@[e]).name@
                == server.proxies@[u as int].backend.name@;
        assert(config.backends@[e].name@ != server.proxies@[u as int].backend.name@);
        assert(false);
    }
}

} // verus!
