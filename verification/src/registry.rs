//! Chain registry: the configuration model and the frozen map from chain
//! name to scheduler.
//!
//! The registry is built once from the configuration and only read
//! afterwards; every mutation during operation happens inside the
//! schedulers it owns.

use vstd::prelude::*;

use crate::round_robin::RoundRobin;
use crate::round_robin::RpcServer;

verus! {

/// The upstream list of one chain, as configured.
pub struct Chains {
    pub rpc_urls: Vec<RpcServer>,
}

/// The whole configuration: each chain's name with its upstream list, in
/// file order.
pub struct Config {
    pub chains: Vec<(String, Chains)>,
}

/// Why a configuration is rejected at load time.
#[derive(Debug)]
pub enum ConfigError {
    /// A chain with no upstreams.
    EmptyChain,
    /// An upstream holding more tokens than its quota allows.
    LimitOverQuota,
    /// Two chains sharing one name.
    DuplicateChain,
}

/// The chain names of a configuration, in order.
pub open spec fn chain_names(chains: Seq<(String, Chains)>) -> Seq<Seq<char>> {
    chains.map_values(|c: (String, Chains)| c.0@)
}

/// Every chain has at least one upstream.
pub open spec fn no_empty_chain(chains: Seq<(String, Chains)>) -> bool {
    forall|i: int| 0 <= i < chains.len() ==> (#[trigger] chains[i].1.rpc_urls)@.len() > 0
}

/// Every configured upstream starts within its quota.
pub open spec fn limits_within_quota(chains: Seq<(String, Chains)>) -> bool {
    forall|i: int, j: int|
        0 <= i < chains.len() && 0 <= j < chains[i].1.rpc_urls@.len()
            ==> (#[trigger] chains[i].1.rpc_urls@[j]).wf()
}

/// No two entries carry the same name.
pub open spec fn unique_names(names: Seq<Seq<char>>) -> bool {
    forall|a: int, b: int| 0 <= a < b < names.len() ==> names[a] != names[b]
}

/// Registry: chain name to scheduler, frozen after construction.
pub struct LoadBalancer {
    pub load_balancers: Vec<(String, RoundRobin)>,
}

/// The chain names of a registry, in order.
pub open spec fn registry_names(entries: Seq<(String, RoundRobin)>) -> Seq<Seq<char>> {
    entries.map_values(|e: (String, RoundRobin)| e.0@)
}

/// Whether some registry entry carries `name`.
pub open spec fn has_chain(entries: Seq<(String, RoundRobin)>, name: Seq<char>) -> bool {
    exists|i: int| 0 <= i < entries.len() && (#[trigger] entries[i].0)@ == name
}

/// The position of the entry carrying `name` (unique under `unique_names`).
pub open spec fn chain_at(entries: Seq<(String, RoundRobin)>, name: Seq<char>) -> int {
    choose|i: int| 0 <= i < entries.len() && (#[trigger] entries[i].0)@ == name
}

impl LoadBalancer {
    /// Registry invariant: every scheduler is well-formed and every chain
    /// name occurs once.
    pub open spec fn wf(self) -> bool {
        &&& forall|i: int|
            0 <= i < self.load_balancers@.len() ==> (#[trigger] self.load_balancers@[i].1).wf()
        &&& unique_names(registry_names(self.load_balancers@))
    }

    /// Look up a chain: the position of its scheduler, or `None` exactly
    /// when no entry carries the name.
    pub fn get_index(&self, chain: &String) -> (r: Option<usize>)
        ensures
            match r {
                Some(j) => {
                    &&& j < self.load_balancers@.len()
                    &&& self.load_balancers@[j as int].0@ == chain@
                },
                None => forall|i: int|
                    0 <= i < self.load_balancers@.len()
                        ==> (#[trigger] self.load_balancers@[i].0)@ != chain@,
            },
    {
        let n = self.load_balancers.len();
        let mut i: usize = 0;
        while i < n
            invariant
                n == self.load_balancers@.len(),
                i <= n,
                forall|k: int|
                    0 <= k < i ==> (#[trigger] self.load_balancers@[k].0)@ != chain@,
            decreases n - i,
        {
            if self.load_balancers[i].0 == *chain {
                return Some(i);
            }
            i = i + 1;
        }
        None
    }
}

/// Find a chain name in a plain name list: the first position carrying the
/// name, or `None` exactly when none does.
pub fn lookup_chain(names: &Vec<String>, chain: &String) -> (r: Option<usize>)
    ensures
        match r {
            Some(j) => {
                &&& j < names@.len()
                &&& names@[j as int]@ == chain@
                &&& forall|k: int| 0 <= k < j ==> (#[trigger] names@[k])@ != chain@
            },
            None => forall|k: int| 0 <= k < names@.len() ==> (#[trigger] names@[k])@ != chain@,
        },
{
    let n = names.len();
    let mut i: usize = 0;
    while i < n
        invariant
            n == names@.len(),
            i <= n,
            forall|k: int| 0 <= k < i ==> (#[trigger] names@[k])@ != chain@,
        decreases n - i,
    {
        if names[i] == *chain {
            return Some(i);
        }
        i = i + 1;
    }
    None
}

/// Build the registry from a configuration: one scheduler per chain, in
/// configuration order, each starting at cursor zero with the configured
/// token counts. Configurations with an upstream-less chain, an upstream
/// over its quota, or a duplicated chain name are rejected, in that order
/// of precedence.
pub fn initialize_load_balancer(config: Config) -> (r: Result<LoadBalancer, ConfigError>)
    ensures
        r is Ok <==> {
            &&& no_empty_chain(config.chains@)
            &&& limits_within_quota(config.chains@)
            &&& unique_names(chain_names(config.chains@))
        },
        r == Result::<LoadBalancer, ConfigError>::Err(ConfigError::EmptyChain) <==> !no_empty_chain(
            config.chains@,
        ),
        r == Result::<LoadBalancer, ConfigError>::Err(ConfigError::LimitOverQuota) <==> {
            &&& no_empty_chain(config.chains@)
            &&& !limits_within_quota(config.chains@)
        },
        r == Result::<LoadBalancer, ConfigError>::Err(ConfigError::DuplicateChain) <==> {
            &&& no_empty_chain(config.chains@)
            &&& limits_within_quota(config.chains@)
            &&& !unique_names(chain_names(config.chains@))
        },
        r matches Ok(lb) ==> {
            &&& lb.wf()
            &&& lb.load_balancers@.len() == config.chains@.len()
            &&& forall|i: int|
                0 <= i < config.chains@.len() ==> {
                    &&& (#[trigger] lb.load_balancers@[i]).0@ == config.chains@[i].0@
                    &&& lb.load_balancers@[i].1.urls@ == config.chains@[i].1.rpc_urls@
                    &&& lb.load_balancers@[i].1.index == 0
                }
        },
{
    let n = config.chains.len();
    let mut i: usize = 0;
    while i < n
        invariant
            n == config.chains@.len(),
            i <= n,
            forall|k: int| 0 <= k < i ==> (#[trigger] config.chains@[k].1.rpc_urls)@.len() > 0,
        decreases n - i,
    {
        if config.chains[i].1.rpc_urls.len() == 0 {
            return Err(ConfigError::EmptyChain);
        }
        i = i + 1;
    }
    let mut i: usize = 0;
    while i < n
        invariant
            n == config.chains@.len(),
            i <= n,
            no_empty_chain(config.chains@),
            forall|k: int, j: int|
                0 <= k < i && 0 <= j < config.chains@[k].1.rpc_urls@.len() ==> (
                #[trigger] config.chains@[k].1.rpc_urls@[j]).wf(),
        decreases n - i,
    {
        let m = config.chains[i].1.rpc_urls.len();
        let mut j: usize = 0;
        while j < m
            invariant
                n == config.chains@.len(),
                i < n,
                no_empty_chain(config.chains@),
                m == config.chains@[i as int].1.rpc_urls@.len(),
                j <= m,
                forall|l: int|
                    0 <= l < j ==> (#[trigger] config.chains@[i as int].1.rpc_urls@[l]).wf(),
            decreases m - j,
        {
            let server = &config.chains[i].1.rpc_urls[j];
            if server.current_limit > server.request_limit {
                proof {
                    assert(!(config.chains@[i as int].1.rpc_urls@[j as int]).wf());
                    assert(!limits_within_quota(config.chains@));
                }
                return Err(ConfigError::LimitOverQuota);
            }
            j = j + 1;
        }
        i = i + 1;
    }
    let mut i: usize = 0;
    while i < n
        invariant
            n == config.chains@.len(),
            i <= n,
            no_empty_chain(config.chains@),
            limits_within_quota(config.chains@),
            forall|a: int, b: int|
                0 <= a < b < n && a < i ==> chain_names(config.chains@)[a] != chain_names(
                    config.chains@,
                )[b],
        decreases n - i,
    {
        let mut j: usize = i + 1;
        while j < n
            invariant
                n == config.chains@.len(),
                i < j,
                j <= n,
                no_empty_chain(config.chains@),
                limits_within_quota(config.chains@),
                forall|b: int|
                    i < b < j ==> chain_names(config.chains@)[i as int] != chain_names(
                        config.chains@,
                    )[b],
            decreases n - j,
        {
            if config.chains[i].0 == config.chains[j].0 {
                proof {
                    assert(chain_names(config.chains@)[i as int] == config.chains@[i as int].0@);
                    assert(chain_names(config.chains@)[j as int] == config.chains@[j as int].0@);
                    assert(!unique_names(chain_names(config.chains@)));
                }
                return Err(ConfigError::DuplicateChain);
            }
            j = j + 1;
        }
        i = i + 1;
    }
    let ghost chains0 = config.chains@;
    let mut remaining = config.chains;
    let mut entries: Vec<(String, RoundRobin)> = Vec::new();
    while remaining.len() > 0
        invariant
            entries@.len() + remaining@.len() == chains0.len(),
            remaining@ == chains0.skip(entries@.len() as int),
            no_empty_chain(chains0),
            limits_within_quota(chains0),
            forall|k: int|
                0 <= k < entries@.len() ==> {
                    &&& (#[trigger] entries@[k]).0@ == chains0[k].0@
                    &&& entries@[k].1.urls@ == chains0[k].1.rpc_urls@
                    &&& entries@[k].1.index == 0
                },
        decreases remaining@.len(),
    {
        let ghost done = entries@.len() as int;
        let (name, chain) = remaining.remove(0);
        proof {
            assert(chains0[done] == (name, chain));
            assert(remaining@ =~= chains0.skip(done + 1));
        }
        let scheduler = RoundRobin::new(chain.rpc_urls);
        entries.push((name, scheduler));
    }
    let lb = LoadBalancer { load_balancers: entries };
    proof {
        assert forall|a: int, b: int|
            0 <= a < b < lb.load_balancers@.len() implies registry_names(lb.load_balancers@)[a]
            != registry_names(lb.load_balancers@)[b] by {
            assert(chain_names(chains0)[a] == chains0[a].0@);
            assert(chain_names(chains0)[b] == chains0[b].0@);
        }
    }
    Ok(lb)
}

} // verus!
