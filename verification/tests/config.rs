use msbe::config::{cvt_serdejson_to_mainconf, policy_from_directive, BalancingPolicy};
use msbe::errors::ConfigParseError;
use msbe::nginx_config::{Block, Block2, Config, Parsed, Root};

fn entry(directive: &str, args: &[&str]) -> Block2 {
    Block2 {
        directive: directive.to_string(),
        line: 1,
        args: args.iter().map(|a| a.to_string()).collect(),
        block: vec![],
    }
}

fn root(policy: &str, upstreams: &[&str], listens: &[&str]) -> Root {
    let mut upstream_entries = vec![entry(policy, &[])];
    for u in upstreams {
        upstream_entries.push(entry("server", &[u]));
    }
    let mut http = vec![Block {
        directive: "upstream".to_string(),
        line: 2,
        args: vec!["backend".to_string()],
        block: upstream_entries,
    }];
    for l in listens {
        http.push(Block {
            directive: "server".to_string(),
            line: 3,
            args: vec![],
            block: vec![entry("listen", &[l])],
        });
    }
    Root {
        status: "ok".to_string(),
        errors: vec![],
        config: vec![Config {
            file: "nginx.conf".to_string(),
            status: "ok".to_string(),
            errors: vec![serde_json::Value::Null],
            parsed: vec![Parsed {
                directive: "http".to_string(),
                line: 1,
                args: vec![],
                block: http,
            }],
        }],
    }
}

#[test]
fn round_robin_configuration() {
    let cfg = cvt_serdejson_to_mainconf(root(
        "round_robin",
        &["127.0.0.1:9001", "127.0.0.1:9002"],
        &["0.0.0.0:8080"],
    ))
    .unwrap();
    assert_eq!(cfg.upstream.policy, BalancingPolicy::RR);
    let ups: Vec<&str> = cfg.upstream.servers.iter().map(|s| s.socket.as_str()).collect();
    assert_eq!(ups, vec!["127.0.0.1:9001", "127.0.0.1:9002"]);
    let listens: Vec<&str> = cfg.servers.iter().map(|s| s.socket.as_str()).collect();
    assert_eq!(listens, vec!["0.0.0.0:8080"]);
}

#[test]
fn other_policies() {
    let cfg = cvt_serdejson_to_mainconf(root("random", &["a:1"], &[])).unwrap();
    assert_eq!(cfg.upstream.policy, BalancingPolicy::Random);
    assert!(cfg.servers.is_empty());
    let cfg = cvt_serdejson_to_mainconf(root("least_connection", &[], &["x:1", "y:2"])).unwrap();
    assert_eq!(cfg.upstream.policy, BalancingPolicy::LeastConnection);
    assert!(cfg.upstream.servers.is_empty());
    assert_eq!(cfg.servers.len(), 2);
    assert_eq!(cfg.servers[1].socket, "y:2");
}

#[test]
fn unknown_policy_is_refused() {
    let res = cvt_serdejson_to_mainconf(root("ip_hash", &["a:1"], &["b:2"]));
    assert_eq!(res.unwrap_err(), ConfigParseError);
}

#[test]
fn policy_names() {
    assert_eq!(policy_from_directive(&"round_robin".to_string()), Some(BalancingPolicy::RR));
    assert_eq!(policy_from_directive(&"random".to_string()), Some(BalancingPolicy::Random));
    assert_eq!(
        policy_from_directive(&"least_connection".to_string()),
        Some(BalancingPolicy::LeastConnection)
    );
    assert_eq!(policy_from_directive(&"Round_Robin".to_string()), None);
}
