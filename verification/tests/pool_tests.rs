use lbproxy::backend::{lookup_health, HealthStatus, ServerPool};
use lbproxy::config::ServerConfig;

fn sc(addr: &str, weight: Option<u16>) -> ServerConfig {
    ServerConfig { addr: addr.to_string(), weight }
}

fn hs(addr: &str, healthy: bool) -> HealthStatus {
    HealthStatus { addr: addr.to_string(), healthy }
}

#[test]
fn new_servers_exact_values() {
    let servers = vec![sc("10.0.0.1:80", Some(3)), sc("10.0.0.2:80", None)];
    let health = vec![hs("10.0.0.1:80", true), hs("10.0.0.2:80", true)];
    let pool = ServerPool::new_servers(&servers, &health);
    assert_eq!(pool.weighted_servers.len(), 2);
    assert_eq!(pool.weighted_servers[0], "10.0.0.1:80");
    assert_eq!(pool.weighted_servers[1], "10.0.0.2:80");
    assert_eq!(pool.weights, vec![3, 1]);
    assert_eq!(pool.servers_map.len(), 2);
    assert!(pool.servers_map[0].healthy);
    assert_eq!(pool.servers_map[0].weight, 3);
    assert_eq!(pool.servers_map[0].weights_index, 0);
    assert!(pool.servers_map[1].healthy);
    assert_eq!(pool.servers_map[1].weight, 1);
    assert_eq!(pool.servers_map[1].weights_index, 1);
    assert!(pool.dist.is_some());
}

#[test]
fn weighted_selection_follows_three_to_one_ratio() {
    let servers = vec![sc("a:1", Some(3)), sc("b:1", Some(1))];
    let health = vec![hs("a:1", true), hs("b:1", true)];
    let pool = ServerPool::new_servers(&servers, &health);
    let n = 4000;
    let mut count_a = 0;
    for _ in 0..n {
        match pool.select() {
            Some(addr) => {
                if addr == "a:1" {
                    count_a += 1;
                } else {
                    assert_eq!(addr, "b:1");
                }
            }
            None => panic!("pool with healthy servers must select"),
        }
    }
    // Expected 3000 of 4000; allow a generous statistical tolerance.
    assert!(count_a > 2700, "a selected {} times of {}", count_a, n);
    assert!(count_a < 3300, "a selected {} times of {}", count_a, n);
}

#[test]
fn unhealthy_server_absorbs_no_selections() {
    let servers = vec![sc("a:1", Some(3)), sc("b:1", Some(5))];
    let health = vec![hs("a:1", true), hs("b:1", false)];
    let pool = ServerPool::new_servers(&servers, &health);
    // The configured weight is kept; the effective weight drops to zero.
    assert_eq!(pool.servers_map[1].weight, 5);
    assert!(!pool.servers_map[1].healthy);
    assert_eq!(pool.weights, vec![3, 0]);
    for _ in 0..500 {
        match pool.select() {
            Some(addr) => assert_eq!(addr, "a:1"),
            None => panic!("the healthy server must be selected"),
        }
    }
}

#[test]
fn all_unhealthy_pool_never_selects() {
    let servers = vec![sc("a:1", Some(3)), sc("b:1", Some(1))];
    let health = vec![hs("a:1", false), hs("b:1", false)];
    let pool = ServerPool::new_servers(&servers, &health);
    assert!(pool.dist.is_none());
    for _ in 0..100 {
        assert!(pool.select().is_none());
    }
}

#[test]
fn empty_pool_never_selects() {
    let pool = ServerPool::new_servers(&Vec::new(), &Vec::new());
    assert!(pool.dist.is_none());
    assert!(pool.select().is_none());
}

#[test]
fn unprobed_address_counts_as_unhealthy() {
    let servers = vec![sc("a:1", Some(2))];
    let health = vec![hs("other:1", true)];
    let pool = ServerPool::new_servers(&servers, &health);
    assert!(!pool.servers_map[0].healthy);
    assert_eq!(pool.weights, vec![0]);
    assert!(pool.select().is_none());
}

#[test]
fn health_lookup_takes_first_entry() {
    let health = vec![hs("a:1", false), hs("a:1", true), hs("b:1", true)];
    assert!(!lookup_health(&health, &"a:1".to_string()));
    assert!(lookup_health(&health, &"b:1".to_string()));
    assert!(!lookup_health(&health, &"c:1".to_string()));
}

#[test]
fn zero_weight_healthy_server_is_not_eligible() {
    let servers = vec![sc("a:1", Some(0))];
    let health = vec![hs("a:1", true)];
    let pool = ServerPool::new_servers(&servers, &health);
    assert_eq!(pool.weights, vec![0]);
    assert!(pool.dist.is_none());
    assert!(pool.select().is_none());
}
