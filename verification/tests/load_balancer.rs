use load_balancer::domain::load_balancer::{relay_reply, FORWARD_URI};
use load_balancer::domain::LoadBalancer;

fn hosts(names: &[&str]) -> Vec<String> {
    names.iter().map(|s| s.to_string()).collect()
}

#[test]
fn new_refuses_an_empty_host_list() {
    let res = LoadBalancer::new(Vec::new());
    assert_eq!(res.err(), Some("No worker hosts provided".to_string()));
}

#[test]
fn new_keeps_the_hosts_in_order() {
    let lb = LoadBalancer::new(hosts(&["http://localhost:7701", "http://localhost:7702"])).unwrap();
    assert_eq!(lb.worker_hosts, hosts(&["http://localhost:7701", "http://localhost:7702"]));
    assert!(lb.has_workers());
}

#[test]
fn workers_are_served_in_turn() {
    let mut lb = LoadBalancer::new(hosts(&["a", "b", "c"])).unwrap();
    let served: Vec<String> = (0..7).map(|_| lb.get_worker().to_string()).collect();
    assert_eq!(served, hosts(&["a", "b", "c", "a", "b", "c", "a"]));
}

#[test]
fn a_single_worker_gets_every_request() {
    let mut lb = LoadBalancer::new(hosts(&["only"])).unwrap();
    for _ in 0..5 {
        assert_eq!(lb.get_worker(), "only");
    }
}

#[test]
fn each_worker_once_per_round_from_any_start() {
    let mut lb = LoadBalancer::new(hosts(&["w0", "w1", "w2", "w3"])).unwrap();
    lb.get_worker();
    lb.get_worker();
    let mut round: Vec<String> = (0..4).map(|_| lb.get_worker().to_string()).collect();
    assert_eq!(round, hosts(&["w2", "w3", "w0", "w1"]));
    round.sort();
    assert_eq!(round, hosts(&["w0", "w1", "w2", "w3"]));
}

#[test]
fn after_a_full_round_the_order_repeats() {
    let mut lb = LoadBalancer::new(hosts(&["x", "y", "z"])).unwrap();
    lb.get_worker();
    let first: Vec<String> = (0..3).map(|_| lb.get_worker().to_string()).collect();
    let second: Vec<String> = (0..3).map(|_| lb.get_worker().to_string()).collect();
    assert_eq!(first, second);
}

#[test]
fn duplicate_hosts_are_served_by_position() {
    let mut lb = LoadBalancer::new(hosts(&["a", "a", "b"])).unwrap();
    let served: Vec<String> = (0..3).map(|_| lb.get_worker().to_string()).collect();
    assert_eq!(served, hosts(&["a", "a", "b"]));
}

#[test]
fn a_forward_keeps_the_method_and_goes_to_the_next_worker() {
    let mut lb = LoadBalancer::new(hosts(&["http://localhost:7701", "http://localhost:7702"])).unwrap();
    let first = lb.prepare_forward("POST".to_string());
    assert_eq!(first.worker, "http://localhost:7701");
    assert_eq!(first.method, "POST");
    assert_eq!(first.uri, "https://example.com/");
    assert_eq!(FORWARD_URI, "https://example.com/");
    let second = lb.prepare_forward("GET".to_string());
    assert_eq!(second.worker, "http://localhost:7702");
    assert_eq!(second.method, "GET");
    assert_eq!(lb.get_worker(), "http://localhost:7701");
}

#[test]
fn the_reply_is_ok_with_the_worker_body() {
    let reply = relay_reply(b"hello from worker".to_vec());
    assert_eq!(reply.status, 200);
    assert_eq!(reply.body, b"hello from worker".to_vec());
    let empty = relay_reply(Vec::new());
    assert_eq!(empty.status, 200);
    assert!(empty.body.is_empty());
}

#[test]
fn an_emptied_host_list_is_not_ready() {
    let mut lb = LoadBalancer::new(hosts(&["a"])).unwrap();
    lb.worker_hosts.clear();
    assert!(!lb.has_workers());
}
