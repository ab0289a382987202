use std::sync::Arc;
use vstd::prelude::*;

use crate::error::AppError;
use crate::host::{host_without_port, normalize_host};
use crate::router::{result_view, rules_valid, AppRouter, Matched, RouteRule};
use crate::swap::{Swappable, SwappableAppRouter};

verus! {

/// The route table handle of one tenant, keyed by its host.
pub struct TenentRouter {
    host: String,
    router: SwappableAppRouter,
}

impl TenentRouter {
    pub closed spec fn host(&self) -> Seq<char> {
        self.host@
    }

    pub closed spec fn router(&self) -> AppRouter {
        self.router.current()
    }

    pub fn new(host: &str, router: SwappableAppRouter) -> (r: TenentRouter)
        ensures
            r.host() == host@,
            r.router() == router.current(),
    {
        TenentRouter { host: host.to_owned(), router }
    }
}

/// The position of the last entry equal to `h`, or -1.
pub open spec fn last_index_of(hosts: Seq<Seq<char>>, h: Seq<char>) -> int
    decreases hosts.len(),
{
    if hosts.len() == 0 {
        -1
    } else if hosts.last() == h {
        hosts.len() - 1
    } else {
        last_index_of(hosts.drop_last(), h)
    }
}

proof fn lemma_last_index_range(hosts: Seq<Seq<char>>, h: Seq<char>)
    ensures
        -1 <= last_index_of(hosts, h) < hosts.len(),
        last_index_of(hosts, h) >= 0 ==> hosts[last_index_of(hosts, h)] == h,
    decreases hosts.len(),
{
    if hosts.len() > 0 && hosts.last() != h {
        lemma_last_index_range(hosts.drop_last(), h);
    }
}

/// The tenant registry: per host, a route table handle and a worker pool handle.
/// A host registered more than once resolves to its last registration.
pub struct AppState<P> {
    routers: Vec<TenentRouter>,
    pools: Vec<(String, Swappable<P>)>,
}

impl<P> AppState<P> {
    pub closed spec fn router_hosts(&self) -> Seq<Seq<char>> {
        self.routers@.map_values(|t: TenentRouter| t.host())
    }

    pub closed spec fn pool_hosts(&self) -> Seq<Seq<char>> {
        self.pools@.map_values(|e: (String, Swappable<P>)| e.0@)
    }

    /// The route table in service for entry `i` of the routers.
    pub closed spec fn router_at(&self, i: int) -> AppRouter {
        self.routers@[i].router()
    }

    /// The pool in service for entry `i` of the pools.
    pub closed spec fn pool_at(&self, i: int) -> P {
        self.pools@[i].1.current()
    }

    /// The router entry that serves (normalized) host `h`, or -1.
    pub open spec fn router_index(&self, h: Seq<char>) -> int {
        last_index_of(self.router_hosts(), h)
    }

    /// The pool entry that serves (normalized) host `h`, or -1.
    pub open spec fn pool_index(&self, h: Seq<char>) -> int {
        last_index_of(self.pool_hosts(), h)
    }

    pub open spec fn serves(&self, h: Seq<char>) -> bool {
        self.router_index(h) >= 0 && self.pool_index(h) >= 0
    }

    pub fn new(routers: Vec<TenentRouter>, pools: Vec<(String, Swappable<P>)>) -> (r: AppState<P>)
        ensures
            r.router_hosts() == routers@.map_values(|t: TenentRouter| t.host()),
            r.pool_hosts() == pools@.map_values(|e: (String, Swappable<P>)| e.0@),
            forall|i: int| 0 <= i < routers@.len() ==> r.router_at(i) == (#[trigger] routers@[i]).router(),
            forall|i: int| 0 <= i < pools@.len() ==> r.pool_at(i) == (#[trigger] pools@[i]).1.current(),
    {
        AppState { routers, pools }
    }

    fn find_router(&self, h: &String) -> (r: Option<usize>)
        ensures
            match r {
                Some(i) => i as int == self.router_index(h@),
                None => self.router_index(h@) == -1,
            },
    {
        let ghost hosts = self.router_hosts();
        let mut i: usize = self.routers.len();
        assert(hosts.take(i as int) =~= hosts);
        while i > 0
            invariant
                hosts == self.router_hosts(),
                i <= hosts.len(),
                last_index_of(hosts, h@) == last_index_of(hosts.take(i as int), h@),
            decreases i,
        {
            assert(hosts.take(i as int).drop_last() =~= hosts.take(i - 1));
            if self.routers[i - 1].host == *h {
                return Some(i - 1);
            }
            i = i - 1;
        }
        assert(hosts.take(0) =~= Seq::<Seq<char>>::empty());
        None
    }

    fn find_pool(&self, h: &String) -> (r: Option<usize>)
        ensures
            match r {
                Some(i) => i as int == self.pool_index(h@),
                None => self.pool_index(h@) == -1,
            },
    {
        let ghost hosts = self.pool_hosts();
        let mut i: usize = self.pools.len();
        assert(hosts.take(i as int) =~= hosts);
        while i > 0
            invariant
                hosts == self.pool_hosts(),
                i <= hosts.len(),
                last_index_of(hosts, h@) == last_index_of(hosts.take(i as int), h@),
            decreases i,
        {
            assert(hosts.take(i as int).drop_last() =~= hosts.take(i - 1));
            if self.pools[i - 1].0 == *h {
                return Some(i - 1);
            }
            i = i - 1;
        }
        assert(hosts.take(0) =~= Seq::<Seq<char>>::empty());
        None
    }

    /// The route table and the pool in service for a request host (port ignored).
    pub fn get_router_by_host(&self, host: &str) -> (r: Result<(Arc<AppRouter>, Arc<P>), AppError>)
        ensures
            ({
                let h = host_without_port(host@);
                match r {
                    Ok((t, p)) => self.serves(h) && *t == self.router_at(self.router_index(h))
                        && *p == self.pool_at(self.pool_index(h)),
                    Err(e) => !self.serves(h) && match e {
                        AppError::HostNotFound(s) => s@ == h,
                        _ => false,
                    },
                }
            }),
    {
        let h = normalize_host(host);
        let ri = match self.find_router(&h) {
            Some(i) => i,
            None => {
                return Err(AppError::HostNotFound(h));
            },
        };
        let pi = match self.find_pool(&h) {
            Some(i) => i,
            None => {
                return Err(AppError::HostNotFound(h));
            },
        };
        proof {
            lemma_last_index_range(self.router_hosts(), h@);
            lemma_last_index_range(self.pool_hosts(), h@);
        }
        let t = self.routers[ri].router.load();
        let p = self.pools[pi].1.load();
        Ok((t, p))
    }

    /// The first stages of serving a request: find the tenant by host, match
    /// the route in its current table, and pick its current pool.
    pub fn resolve(&self, host: &str, method: &str, path: &str) -> (r: Result<(Matched, Arc<P>), AppError>)
        ensures
            ({
                let h = host_without_port(host@);
                if !self.serves(h) {
                    match r {
                        Err(AppError::HostNotFound(s)) => s@ == h,
                        _ => false,
                    }
                } else {
                    let t = self.router_at(self.router_index(h));
                    match r {
                        Ok((m, p)) => t.outcome(method@, path@) == Ok::<_, AppError>(m@) && *p
                            == self.pool_at(self.pool_index(h)),
                        Err(e) => t.outcome(method@, path@) == Err::<(Seq<char>, Seq<(Seq<char>, Seq<char>)>), _>(e),
                    }
                }
            }),
    {
        let (t, p) = self.get_router_by_host(host)?;
        let m = t.match_it(method, path);
        match m {
            Ok(m) => Ok((m, p)),
            Err(e) => Err(e),
        }
    }

    /// Builds a new route table for the tenant of `host` and publishes it. A
    /// build failure leaves the registry as it was.
    pub fn swap_router(&mut self, host: &str, rules: &Vec<RouteRule>) -> (r: Result<(), AppError>)
        ensures
            ({
                let h = host_without_port(host@);
                let i = old(self).router_index(h);
                &&& final(self).router_hosts() == old(self).router_hosts()
                &&& final(self).pool_hosts() == old(self).pool_hosts()
                &&& forall|j: int| 0 <= j < old(self).pool_hosts().len() ==> final(self).pool_at(j) == old(self).pool_at(j)
                &&& forall|j: int| 0 <= j < old(self).router_hosts().len() && j != i ==> final(self).router_at(j) == old(self).router_at(j)
                &&& match r {
                    Ok(()) => i >= 0 && rules_valid(rules@) && final(self).router_at(i).built_from(rules@),
                    Err(AppError::HostNotFound(s)) => i < 0 && s@ == h && final(self).router_at(i) == old(self).router_at(i),
                    Err(e) => i >= 0 && !rules_valid(rules@) && e == AppError::ConfigError && final(self).router_at(i) == old(self).router_at(i),
                }
            }),
    {
        let h = normalize_host(host);
        let i = match self.find_router(&h) {
            Some(i) => i,
            None => {
                return Err(AppError::HostNotFound(h));
            },
        };
        proof {
            lemma_last_index_range(self.router_hosts(), h@);
        }
        let ghost before = self.routers@;
        let res = self.routers[i].router.swap_routes(rules);
        assert(self.routers@.len() == before.len());
        assert(forall|j: int| 0 <= j < before.len() && j != i ==> self.routers@[j] == before[j]);
        assert(self.router_hosts() =~= old(self).router_hosts());
        res
    }

    /// Publishes `pool` as the pool in service for the tenant of `host` and
    /// hands back the previous one. Jobs already handed to it finish there.
    pub fn swap_pool(&mut self, host: &str, pool: P) -> (r: Result<Arc<P>, AppError>)
        ensures
            ({
                let h = host_without_port(host@);
                let i = old(self).pool_index(h);
                &&& final(self).router_hosts() == old(self).router_hosts()
                &&& final(self).pool_hosts() == old(self).pool_hosts()
                &&& forall|j: int| 0 <= j < old(self).router_hosts().len() ==> final(self).router_at(j) == old(self).router_at(j)
                &&& forall|j: int| 0 <= j < old(self).pool_hosts().len() && j != i ==> final(self).pool_at(j) == old(self).pool_at(j)
                &&& match r {
                    Ok(prev) => i >= 0 && final(self).pool_at(i) == pool && *prev == old(self).pool_at(i),
                    Err(e) => i < 0 && match e {
                        AppError::HostNotFound(s) => s@ == h,
                        _ => false,
                    },
                }
            }),
    {
        let h = normalize_host(host);
        let i = match self.find_pool(&h) {
            Some(i) => i,
            None => {
                return Err(AppError::HostNotFound(h));
            },
        };
        proof {
            lemma_last_index_range(self.pool_hosts(), h@);
        }
        let ghost before = self.pools@;
        let prev = self.pools[i].1.swap(pool);
        assert(self.pools@.len() == before.len());
        assert(forall|j: int| 0 <= j < before.len() && j != i ==> self.pools@[j] == before[j]);
        assert(self.pool_hosts() =~= old(self).pool_hosts());
        Ok(prev)
    }

    /// Hot reload of one tenant: builds the route table from `rules` and, only
    /// if the host is registered and the rules are valid, publishes it together
    /// with `pool`, handing back the pool it replaces. On any failure nothing
    /// in service changes.
    pub fn swap_tenant(&mut self, host: &str, rules: &Vec<RouteRule>, pool: P) -> (r: Result<Arc<P>, AppError>)
        ensures
            ({
                let h = host_without_port(host@);
                let ri = old(self).router_index(h);
                let pi = old(self).pool_index(h);
                match r {
                    Ok(prev) => {
                        &&& old(self).serves(h)
                        &&& rules_valid(rules@)
                        &&& final(self).router_at(ri).built_from(rules@)
                        &&& final(self).pool_at(pi) == pool
                        &&& *prev == old(self).pool_at(pi)
                        &&& final(self).router_hosts() == old(self).router_hosts()
                        &&& final(self).pool_hosts() == old(self).pool_hosts()
                        &&& forall|j: int| 0 <= j < old(self).router_hosts().len() && j != ri ==> final(self).router_at(j) == old(self).router_at(j)
                        &&& forall|j: int| 0 <= j < old(self).pool_hosts().len() && j != pi ==> final(self).pool_at(j) == old(self).pool_at(j)
                    },
                    Err(AppError::HostNotFound(s)) => !old(self).serves(h) && s@ == h && *final(self) == *old(self),
                    Err(e) => old(self).serves(h) && !rules_valid(rules@) && e == AppError::ConfigError
                        && *final(self) == *old(self),
                }
            }),
    {
        let h = normalize_host(host);
        let ri = match self.find_router(&h) {
            Some(i) => i,
            None => {
                return Err(AppError::HostNotFound(h));
            },
        };
        let pi = match self.find_pool(&h) {
            Some(i) => i,
            None => {
                return Err(AppError::HostNotFound(h));
            },
        };
        proof {
            lemma_last_index_range(self.router_hosts(), h@);
            lemma_last_index_range(self.pool_hosts(), h@);
        }
        let table = AppRouter::try_new(rules)?;
        let ghost routers_before = self.routers@;
        let ghost pools_before = self.pools@;
        let _ = self.routers[ri].router.swap(table);
        let prev = self.pools[pi].1.swap(pool);
        assert(forall|j: int| 0 <= j < routers_before.len() && j != ri ==> self.routers@[j] == routers_before[j]);
        assert(forall|j: int| 0 <= j < pools_before.len() && j != pi ==> self.pools@[j] == pools_before[j]);
        assert(self.router_hosts() =~= old(self).router_hosts());
        assert(self.pool_hosts() =~= old(self).pool_hosts());
        Ok(prev)
    }
}

} // verus!
