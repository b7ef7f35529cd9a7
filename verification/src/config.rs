//! The balancer's own configuration, and its derivation from a parsed
//! nginx configuration.
//!
//! The layout read is: the first parsed directive of the first file is the
//! `http` block; the first block inside it is the `upstream` block, whose
//! first entry names the balancing policy and whose other entries are the
//! upstream servers; every other block inside `http` is a `server` block
//! whose first entry's first argument is the address to listen on.
//! Addresses are kept as the text given.
use vstd::prelude::*;
use vstd::string::StringExecFns;
use crate::errors::ConfigParseError;
use crate::nginx_config::{Block, Block2, Root};

verus! {

/// How the next upstream server is chosen.
#[derive(Debug, Clone, Copy, PartialEq, Eq, Structural)]
pub enum BalancingPolicy {
    RR,
    Random,
    LeastConnection,
}

/// One upstream server: the address connections are forwarded to.
#[derive(Debug)]
pub struct UpstreamServerConfig {
    pub socket: String,
}

/// The upstream servers and the policy that picks among them.
#[derive(Debug)]
pub struct UpstreamConfig {
    pub servers: Vec<UpstreamServerConfig>,
    pub policy: BalancingPolicy,
}

/// One listening server: the address clients connect to.
#[derive(Debug)]
pub struct ServerConfig {
    pub socket: String,
}

/// The whole balancer configuration.
#[derive(Debug)]
pub struct MainConfig {
    pub servers: Vec<ServerConfig>,
    pub upstream: UpstreamConfig,
}

/// Loads configurations written as crossplane JSON.
#[derive(Debug, Clone, Copy, PartialEq, Eq, Structural)]
pub struct SerdeJsonMainConfigLoader;

impl SerdeJsonMainConfigLoader {
    pub fn new() -> (l: Self)
        ensures
            l == SerdeJsonMainConfigLoader,
    {
        SerdeJsonMainConfigLoader
    }
}

/// The policy a directive name selects, if any.
pub open spec fn policy_of(directive: Seq<char>) -> Option<BalancingPolicy> {
    if directive == "round_robin"@ {
        Some(BalancingPolicy::RR)
    } else if directive == "random"@ {
        Some(BalancingPolicy::Random)
    } else if directive == "least_connection"@ {
        Some(BalancingPolicy::LeastConnection)
    } else {
        None
    }
}

/// The blocks inside the `http` block.
pub open spec fn http_blocks(r: Root) -> Seq<Block> {
    r.config@[0].parsed@[0].block@
}

/// The entries of the `upstream` block.
pub open spec fn upstream_entries(r: Root) -> Seq<Block2> {
    http_blocks(r)[0].block@
}

/// The name of the policy directive (the first entry of `upstream`).
pub open spec fn policy_directive(r: Root) -> Seq<char> {
    upstream_entries(r)[0].directive@
}

/// The listening addresses: the first argument of the first entry of each
/// `server` block, in order.
pub open spec fn server_addresses(r: Root) -> Seq<Seq<char>> {
    let hb = http_blocks(r);
    Seq::new((hb.len() - 1) as nat, |i: int| hb[i + 1].block@[0].args@[0]@)
}

/// The upstream addresses: the first argument of each entry of `upstream`
/// after the policy, in order.
pub open spec fn upstream_addresses(r: Root) -> Seq<Seq<char>> {
    let ue = upstream_entries(r);
    Seq::new((ue.len() - 1) as nat, |i: int| ue[i + 1].args@[0]@)
}

/// The configuration has every block and argument that the conversion
/// reads: a first file with a first directive holding at least the
/// `upstream` block, a policy entry, a first entry with an argument in each
/// `server` block, and, where the policy is known, an argument on each
/// upstream entry.
pub open spec fn has_expected_layout(r: Root) -> bool {
    &&& r.config@.len() > 0
    &&& r.config@[0].parsed@.len() > 0
    &&& http_blocks(r).len() > 0
    &&& upstream_entries(r).len() > 0
    &&& forall|i: int|
        1 <= i < http_blocks(r).len() ==> {
            &&& (#[trigger] http_blocks(r)[i]).block@.len() > 0
            &&& http_blocks(r)[i].block@[0].args@.len() > 0
        }
    &&& policy_of(policy_directive(r)) is Some ==> forall|i: int|
        1 <= i < upstream_entries(r).len() ==> (#[trigger] upstream_entries(r)[i]).args@.len() > 0
}

/// Exactly three directive names select a policy: `round_robin` selects
/// round robin, `random` random choice and `least_connection` fewest
/// connections; every other name, `least_conn` among them, selects none.
pub proof fn lemma_policy_names(d: Seq<char>)
    ensures
        policy_of(d) is Some <==> (d == "round_robin"@ || d == "random"@ || d
            == "least_connection"@),
        d == "round_robin"@ ==> policy_of(d) == Some(BalancingPolicy::RR),
        d == "random"@ ==> policy_of(d) == Some(BalancingPolicy::Random),
        d == "least_connection"@ ==> policy_of(d) == Some(BalancingPolicy::LeastConnection),
{
    reveal_strlit("round_robin");
    reveal_strlit("random");
    reveal_strlit("least_connection");
    if d == "random"@ {
        assert("random"@ != "round_robin"@) by {
            assert("random"@[1] != "round_robin"@[1]);
        }
    }
    if d == "least_connection"@ {
        assert("least_connection"@ != "round_robin"@) by {
            assert("least_connection"@.len() != "round_robin"@.len());
        }
        assert("least_connection"@ != "random"@) by {
            assert("least_connection"@.len() != "random"@.len());
        }
    }
}

/// Every listening address is the first argument of the first entry of a
/// `server` block, and every upstream address is the first argument of an
/// upstream entry after the policy, one for each, in order.
pub proof fn lemma_addresses_are_first_arguments(r: Root)
    requires
        has_expected_layout(r),
    ensures
        server_addresses(r).len() + 1 == r.config@[0].parsed@[0].block@.len(),
        forall|i: int|
            0 <= i < server_addresses(r).len() ==> #[trigger] server_addresses(r)[i]
                == r.config@[0].parsed@[0].block@[i + 1].block@[0].args@[0]@,
        upstream_addresses(r).len() + 1 == r.config@[0].parsed@[0].block@[0].block@.len(),
        forall|i: int|
            0 <= i < upstream_addresses(r).len() ==> #[trigger] upstream_addresses(r)[i]
                == r.config@[0].parsed@[0].block@[0].block@[i + 1].args@[0]@,
{
}

/// The conversion reads nothing but the `http` block: two configurations
/// whose `http` blocks agree have the same layout, the same policy and the
/// same addresses, whatever their other files, directives and fields.
pub proof fn lemma_conversion_reads_only_http_block(r1: Root, r2: Root)
    requires
        r1.config@.len() > 0,
        r1.config@[0].parsed@.len() > 0,
        r2.config@.len() > 0,
        r2.config@[0].parsed@.len() > 0,
        http_blocks(r1) == http_blocks(r2),
    ensures
        has_expected_layout(r1) == has_expected_layout(r2),
        policy_of(policy_directive(r1)) == policy_of(policy_directive(r2)),
        server_addresses(r1) == server_addresses(r2),
        upstream_addresses(r1) == upstream_addresses(r2),
{
}

/// The addresses of a list of listening servers.
pub open spec fn server_sockets(servers: Seq<ServerConfig>) -> Seq<Seq<char>> {
    servers.map_values(|s: ServerConfig| s.socket@)
}

/// The addresses of a list of upstream servers.
pub open spec fn upstream_sockets(servers: Seq<UpstreamServerConfig>) -> Seq<Seq<char>> {
    servers.map_values(|s: UpstreamServerConfig| s.socket@)
}

/// The policy a directive name selects, if any.
pub fn policy_from_directive(directive: &String) -> (p: Option<BalancingPolicy>)
    ensures
        p == policy_of(directive@),
        p is Some <==> (directive@ == "round_robin"@ || directive@ == "random"@ || directive@
            == "least_connection"@),
        directive@ == "round_robin"@ ==> p == Some(BalancingPolicy::RR),
        directive@ == "random"@ ==> p == Some(BalancingPolicy::Random),
        directive@ == "least_connection"@ ==> p == Some(BalancingPolicy::LeastConnection),
{
    proof {
        lemma_policy_names(directive@);
    }
    if *directive == String::from_str("round_robin") {
        Some(BalancingPolicy::RR)
    } else if *directive == String::from_str("random") {
        Some(BalancingPolicy::Random)
    } else if *directive == String::from_str("least_connection") {
        Some(BalancingPolicy::LeastConnection)
    } else {
        None
    }
}

/// Turns a parsed nginx configuration into the balancer configuration.
/// Fails exactly when the policy entry of the `upstream` block names no
/// known policy.
pub fn cvt_serdejson_to_mainconf(serderepr: Root) -> (res: Result<MainConfig, ConfigParseError>)
    requires
        has_expected_layout(serderepr),
    ensures
        res is Ok <==> policy_of(policy_directive(serderepr)) is Some,
        res matches Ok(cfg) ==> {
            &&& Some(cfg.upstream.policy) == policy_of(policy_directive(serderepr))
            &&& server_sockets(cfg.servers@) == server_addresses(serderepr)
            &&& upstream_sockets(cfg.upstream.servers@) == upstream_addresses(serderepr)
        },
        res matches Err(e) ==> e == ConfigParseError,
        res is Ok <==> ({
            let d = serderepr.config@[0].parsed@[0].block@[0].block@[0].directive@;
            d == "round_robin"@ || d == "random"@ || d == "least_connection"@
        }),
        res matches Ok(cfg) ==> {
            let http = serderepr.config@[0].parsed@[0].block@;
            &&& cfg.servers@.len() + 1 == http.len()
            &&& forall|i: int|
                0 <= i < cfg.servers@.len() ==> (#[trigger] cfg.servers@[i]).socket@
                    == http[i + 1].block@[0].args@[0]@
            &&& cfg.upstream.servers@.len() + 1 == http[0].block@.len()
            &&& forall|i: int|
                0 <= i < cfg.upstream.servers@.len() ==> (#[trigger] cfg.upstream.servers@[i]).socket@
                    == http[0].block@[i + 1].args@[0]@
            &&& http[0].block@[0].directive@ == "round_robin"@ ==> cfg.upstream.policy
                == BalancingPolicy::RR
            &&& http[0].block@[0].directive@ == "random"@ ==> cfg.upstream.policy
                == BalancingPolicy::Random
            &&& http[0].block@[0].directive@ == "least_connection"@ ==> cfg.upstream.policy
                == BalancingPolicy::LeastConnection
        },
{
    proof {
        lemma_policy_names(policy_directive(serderepr));
        lemma_addresses_are_first_arguments(serderepr);
    }
    let http_block = &serderepr.config[0].parsed[0].block;
    let upstream_block = &http_block[0];

    let mut servers: Vec<ServerConfig> = Vec::new();
    let mut i: usize = 1;
    while i < http_block.len()
        invariant
            has_expected_layout(serderepr),
            *http_block == serderepr.config@[0].parsed@[0].block,
            1 <= i <= http_block@.len(),
            servers@.len() == i - 1,
            forall|j: int|
                0 <= j < i - 1 ==> (#[trigger] servers@[j]).socket@ == server_addresses(
                    serderepr,
                )[j],
        decreases http_block@.len() - i,
    {
        assert(http_blocks(serderepr)[i as int].block@.len() > 0);
        let socket = http_block[i].block[0].args[0].clone();
        servers.push(ServerConfig { socket });
        i = i + 1;
    }
    assert(server_sockets(servers@) =~= server_addresses(serderepr));

    let policy = match policy_from_directive(&upstream_block.block[0].directive) {
        Some(p) => p,
        None => {
            return Err(ConfigParseError::new());
        },
    };

    let entries = &upstream_block.block;
    let mut upstream_servers: Vec<UpstreamServerConfig> = Vec::new();
    let mut k: usize = 1;
    while k < entries.len()
        invariant
            has_expected_layout(serderepr),
            policy_of(policy_directive(serderepr)) is Some,
            entries@ == upstream_entries(serderepr),
            1 <= k <= entries@.len(),
            upstream_servers@.len() == k - 1,
            forall|j: int|
                0 <= j < k - 1 ==> (#[trigger] upstream_servers@[j]).socket@
                    == upstream_addresses(serderepr)[j],
        decreases entries@.len() - k,
    {
        assert(upstream_entries(serderepr)[k as int].args@.len() > 0);
        let socket = entries[k].args[0].clone();
        upstream_servers.push(UpstreamServerConfig { socket });
        k = k + 1;
    }
    assert(upstream_sockets(upstream_servers@) =~= upstream_addresses(serderepr));

    Ok(
        MainConfig {
            servers,
            upstream: UpstreamConfig { servers: upstream_servers, policy },
        },
    )
}

} // verus!
