use msbe::balancer::{servers_from_config, Balancer, RoundRobinBalancer, Server, Upstream};
use msbe::config::{
    BalancingPolicy, MainConfig, ServerConfig, UpstreamConfig, UpstreamServerConfig,
};

fn config(upstreams: &[&str]) -> MainConfig {
    MainConfig {
        servers: vec![
            ServerConfig { socket: "127.0.0.1:8080".to_string() },
            ServerConfig { socket: "127.0.0.1:8081".to_string() },
        ],
        upstream: UpstreamConfig {
            servers: upstreams
                .iter()
                .map(|s| UpstreamServerConfig { socket: s.to_string() })
                .collect(),
            policy: BalancingPolicy::RR,
        },
    }
}

#[test]
fn first_pick_is_the_second_upstream() {
    let cfg = config(&["10.0.0.1:80", "10.0.0.2:80", "10.0.0.3:80"]);
    let mut b = RoundRobinBalancer::from_config(&cfg);
    assert_eq!(b.next_upstream().unwrap().socket, "10.0.0.2:80");
}

#[test]
fn picks_go_round_the_list() {
    let cfg = config(&["a:1", "b:2", "c:3"]);
    let mut b = RoundRobinBalancer::from_config(&cfg);
    let picks: Vec<String> =
        (0..7).map(|_| b.next_upstream().unwrap().socket.clone()).collect();
    assert_eq!(picks, vec!["b:2", "c:3", "a:1", "b:2", "c:3", "a:1", "b:2"]);
}

#[test]
fn every_upstream_once_in_a_round() {
    let cfg = config(&["a:1", "b:2", "c:3", "d:4"]);
    let mut b = RoundRobinBalancer::from_config(&cfg);
    b.next_upstream().unwrap();
    let mut round: Vec<String> =
        (0..4).map(|_| b.next_upstream().unwrap().socket.clone()).collect();
    round.sort();
    assert_eq!(round, vec!["a:1", "b:2", "c:3", "d:4"]);
}

#[test]
fn single_upstream_is_always_picked() {
    let cfg = config(&["only:1"]);
    let mut b = RoundRobinBalancer::from_config(&cfg);
    for _ in 0..3 {
        assert_eq!(b.next_upstream().unwrap().socket, "only:1");
    }
}

#[test]
fn new_balancer_has_no_upstreams() {
    let b = RoundRobinBalancer::new();
    assert_eq!(b.upstream_count(), 0);
}

#[test]
fn servers_and_upstreams_copy_their_addresses() {
    let cfg = config(&["u:1"]);
    let servers: Vec<String> = servers_from_config(&cfg).into_iter().map(|s| s.socket).collect();
    assert_eq!(servers, vec!["127.0.0.1:8080", "127.0.0.1:8081"]);
    assert_eq!(Server::from_config(&cfg.servers[1]).socket, "127.0.0.1:8081");
    let u = Upstream::from_config(&cfg.upstream.servers[0]);
    assert_eq!(u.clone().socket, "u:1");
    assert_eq!(RoundRobinBalancer::from_config(&cfg).upstream_count(), 1);
}
