use crate::threads::Address;
use vstd::prelude::*;

verus! {

/// Monitoring section.
pub struct Monitoring {
    pub mgmt_ip: Address,
    pub ip: Address,
}

/// Routing section.
pub struct Routing {
    pub monitoring: Vec<Address>,
    pub ip: Address,
}

/// User section.
pub struct User {
    pub monitoring: Vec<Address>,
    pub routing: Vec<Address>,
    pub ip: Address,
}

/// Server section.
pub struct Server {
    pub monitoring: Vec<Address>,
    pub routing: Vec<Address>,
    pub seed_ip: Address,
    pub public_ip: Address,
    pub private_ip: Address,
    pub mgmt_ip: Address,
}

/// Policy section.
pub struct Policy {
    pub elasticity: bool,
    pub selective_rep: bool,
    pub tiering: bool,
}

/// EBS section: a file path.
pub struct Ebs(pub String);

/// Capacities section.
pub struct Capacities {
    pub memory_cap: usize,
    pub ebs_cap: usize,
}

/// Threads section.
pub struct Threads {
    pub memory: usize,
    pub ebs: usize,
    pub routing: usize,
    pub benchmark: usize,
}

/// Replication section.
pub struct Replication {
    pub memory: usize,
    pub ebs: usize,
    pub minimum: usize,
    pub local: usize,
}

/// The cluster configuration.
pub struct Config {
    pub monitoring: Monitoring,
    pub routing: Routing,
    pub user: User,
    /// The addresses of a load balancer in front of the routing tier, if any.
    pub routing_elb: Option<Vec<Address>>,
    pub server: Server,
    pub policy: Policy,
    pub ebs: Ebs,
    pub capacities: Capacities,
    pub threads: Threads,
    pub replication: Replication,
}

impl Config {
    /// The routing addresses a client should use: those of the load
    /// balancer where one is configured, else the user section's.
    pub fn get_routing_ips(&self) -> (r: &Vec<Address>)
        ensures
            r@ == match self.routing_elb {
                Some(elb_ip) => elb_ip@,
                None => self.user.routing@,
            },
    {
        match &self.routing_elb {
            Some(elb_ip) => elb_ip,
            None => &self.user.routing,
        }
    }

    /// The user's own address.
    pub fn get_user_ip(&self) -> (r: &Address)
        ensures
            r@ == self.user.ip@,
    {
        &self.user.ip
    }

    /// The number of threads on each routing node.
    pub fn get_routing_thread_count(&self) -> (r: usize)
        ensures
            r == self.threads.routing,
    {
        self.threads.routing
    }
}

} // verus!
