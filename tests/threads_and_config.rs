use annalib::config::{
    Capacities, Config, Ebs, Monitoring, Policy, Replication, Routing, Server, Threads, User,
};
use annalib::client::{next_request_counter, request_id, routing_threads, seed_from};
use annalib::threads::{CacheThread, UserThread};

fn config_with(routing_elb: Option<Vec<String>>) -> Config {
    Config {
        monitoring: Monitoring { mgmt_ip: "10.0.0.9".to_string(), ip: "10.0.0.8".to_string() },
        routing: Routing { monitoring: vec![], ip: "10.0.0.7".to_string() },
        user: User {
            monitoring: vec![],
            routing: vec!["127.0.0.1".to_string()],
            ip: "127.0.0.1".to_string(),
        },
        routing_elb,
        server: Server {
            monitoring: vec![],
            routing: vec![],
            seed_ip: "10.0.0.1".to_string(),
            public_ip: "10.0.0.2".to_string(),
            private_ip: "10.0.0.3".to_string(),
            mgmt_ip: "10.0.0.4".to_string(),
        },
        policy: Policy { elasticity: false, selective_rep: false, tiering: false },
        ebs: Ebs("./".to_string()),
        capacities: Capacities { memory_cap: 1, ebs_cap: 0 },
        threads: Threads { memory: 1, ebs: 1, routing: 1, benchmark: 1 },
        replication: Replication { memory: 1, ebs: 0, minimum: 1, local: 1 },
    }
}

#[test]
fn config_routing_ips_without_balancer() {
    let config = config_with(None);
    assert_eq!(config.get_routing_ips(), &vec!("127.0.0.1".to_string()));
    assert_eq!(config.get_user_ip(), "127.0.0.1");
    assert_eq!(config.get_routing_thread_count(), 1);
}

#[test]
fn config_routing_ips_with_balancer() {
    let config = config_with(Some(vec!["1.2.3.4".to_string()]));
    assert_eq!(config.get_routing_ips(), &vec!("1.2.3.4".to_string()));
}

#[test]
fn user_thread_addresses() {
    let t = UserThread::new(&"127.0.0.1".to_string(), 3);
    assert_eq!(t.ip(), "127.0.0.1");
    assert_eq!(t.tid(), 3);
    assert_eq!(t.key_address_bind_address(), "tcp://*:6853");
    assert_eq!(t.key_address_connect_address(), "tcp://127.0.0.1:6853");
    assert_eq!(t.response_bind_address(), "tcp://*:6803");
    assert_eq!(t.response_connect_address(), "tcp://127.0.0.1:6803");
}

#[test]
fn cache_thread_addresses() {
    let c: CacheThread = UserThread::new(&"10.1.1.1".to_string(), 0);
    assert_eq!(c.cache_get_bind_address(), "ipc:///requests/get");
    assert_eq!(c.cache_get_connect_address(), "ipc:///requests/get");
    assert_eq!(c.cache_put_bind_address(), "ipc:///requests/put");
    assert_eq!(c.cache_put_connect_address(), "ipc:///requests/put");
    assert_eq!(c.cache_update_bind_address(), "tcp://*:7150");
    assert_eq!(c.cache_update_connect_address(), "tcp://10.1.1.1:7150");
}

#[test]
fn routing_threads_per_address() {
    let ips = vec!["10.0.0.1".to_string(), "10.0.0.2".to_string()];
    let threads = routing_threads(&ips, 2);
    assert_eq!(threads.len(), 4);
    assert_eq!(threads[0].ip(), "10.0.0.1");
    assert_eq!(threads[1].tid(), 1);
    assert_eq!(threads[2].ip(), "10.0.0.2");
    assert_eq!(threads[3].key_address_connect_address(), "tcp://10.0.0.2:6851");
    assert!(routing_threads(&ips, 0).is_empty());
}

#[test]
fn request_ids() {
    assert_eq!(request_id(&"127.0.0.1".to_string(), 0, 17), "127.0.0.1:0_17");
    assert_eq!(next_request_counter(5), 6);
    assert_eq!(next_request_counter(usize::MAX), 0);
}

#[test]
fn seeds_wrap_around() {
    assert_eq!(seed_from(1000, 20, 3), 1023);
    assert_eq!(seed_from(u64::MAX, 1, 1), 1);
}
