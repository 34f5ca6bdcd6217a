use vstd::prelude::*;
use vstd::string::StringExecFns;

verus! {

/// A network address such as `tcp://10.0.0.1:6450`.
pub type Address = String;

/// The port on which clients receive responses from the KVS.
pub const K_USER_RESPONSE_PORT: usize = 6800;

/// The port on which clients receive responses from the routing tier.
pub const K_USER_KEY_ADDRESS_PORT: usize = 6850;

/// The port on which cache nodes listen for updates from the KVS.
pub const K_CACHE_UPDATE_PORT: usize = 7150;

/// The prefix of an address that binds on every interface.
pub const K_BIND_BASE: &'static str = "tcp://*:";

/// Every port of thread `tid` fits in a `usize`.
pub open spec fn tid_fits(tid: usize) -> bool {
    tid + K_CACHE_UPDATE_PORT <= usize::MAX
}

/// The character of a decimal digit.
pub open spec fn digit_char(d: nat) -> char {
    seq!['0', '1', '2', '3', '4', '5', '6', '7', '8', '9'][(d % 10) as int]
}

/// The decimal digits of `n`, most significant first, with no leading zero.
pub open spec fn decimal(n: nat) -> Seq<char>
    decreases n,
{
    if n < 10 {
        seq![digit_char(n)]
    } else {
        decimal(n / 10).push(digit_char(n % 10))
    }
}

/// Relies on `ToString for usize`: the decimal digits of `n`, most
/// significant first, with no sign and no leading zero.
#[verifier::external_body]
pub(crate) fn decimal_string(n: usize) -> (r: String)
    ensures
        r@ == decimal(n as nat),
{
    n.to_string()
}

/// `prefix` followed by the decimal digits of `port`.
fn address_with_port(prefix: &str, port: usize) -> (r: Address)
    ensures
        r@ == prefix@ + decimal(port as nat),
{
    let mut r = String::from_str(prefix);
    let digits = decimal_string(port);
    r.append(digits.as_str());
    r
}

/// The addresses that one client or cache thread binds and connects to.
pub struct Thread {
    ip: Address,
    ip_base: Address,
    tid: usize,
}

/// A client thread.
pub type UserThread = Thread;

/// A thread of the routing tier, as a client sees it.
pub type UserRoutingThread = UserThread;

/// A cache thread.
pub type CacheThread = Thread;

impl View for Thread {
    /// The IP, the connect prefix `tcp://<ip>:`, and the thread id.
    type V = (Seq<char>, Seq<char>, usize);

    closed spec fn view(&self) -> (Seq<char>, Seq<char>, usize) {
        (self.ip@, self.ip_base@, self.tid)
    }
}

impl Thread {
    /// The thread `tid` at `ip`.
    pub fn new(ip: &Address, tid: usize) -> (r: UserThread)
        requires
            tid_fits(tid),
        ensures
            r@ == (ip@, "tcp://"@ + ip@ + ":"@, tid),
    {
        let mut ip_base = String::from_str("tcp://");
        ip_base.append(ip.as_str());
        ip_base.append(":");
        Thread { ip: ip.clone(), ip_base, tid }
    }

    /// The IP of the thread's node.
    pub fn ip(&self) -> (r: &Address)
        ensures
            r@ == self@.0,
    {
        &self.ip
    }

    /// The thread id.
    pub fn tid(&self) -> (r: usize)
        ensures
            r == self@.2,
    {
        self.tid
    }

    /// Where the thread listens for key address responses.
    pub fn key_address_bind_address(&self) -> (r: Address)
        requires
            tid_fits(self@.2),
        ensures
            r@ == K_BIND_BASE@ + decimal((self@.2 + K_USER_KEY_ADDRESS_PORT) as nat),
    {
        address_with_port(K_BIND_BASE, self.tid + K_USER_KEY_ADDRESS_PORT)
    }

    /// Where others send the thread key address responses.
    pub fn key_address_connect_address(&self) -> (r: Address)
        requires
            tid_fits(self@.2),
        ensures
            r@ == self@.1 + decimal((self@.2 + K_USER_KEY_ADDRESS_PORT) as nat),
    {
        address_with_port(self.ip_base.as_str(), self.tid + K_USER_KEY_ADDRESS_PORT)
    }

    /// Where others send the thread responses from the KVS.
    pub fn response_connect_address(&self) -> (r: Address)
        requires
            tid_fits(self@.2),
        ensures
            r@ == self@.1 + decimal((self@.2 + K_USER_RESPONSE_PORT) as nat),
    {
        address_with_port(self.ip_base.as_str(), self.tid + K_USER_RESPONSE_PORT)
    }

    /// Where the thread listens for responses from the KVS.
    pub fn response_bind_address(&self) -> (r: Address)
        requires
            tid_fits(self@.2),
        ensures
            r@ == K_BIND_BASE@ + decimal((self@.2 + K_USER_RESPONSE_PORT) as nat),
    {
        address_with_port(K_BIND_BASE, self.tid + K_USER_RESPONSE_PORT)
    }

    /// Where a cache listens for GET requests.
    pub fn cache_get_bind_address(&self) -> (r: Address)
        ensures
            r@ == "ipc:///requests/get"@,
    {
        String::from_str("ipc:///requests/get")
    }

    /// Where clients send a cache GET requests.
    pub fn cache_get_connect_address(&self) -> (r: Address)
        ensures
            r@ == "ipc:///requests/get"@,
    {
        String::from_str("ipc:///requests/get")
    }

    /// Where a cache listens for PUT requests.
    pub fn cache_put_bind_address(&self) -> (r: Address)
        ensures
            r@ == "ipc:///requests/put"@,
    {
        String::from_str("ipc:///requests/put")
    }

    /// Where clients send a cache PUT requests.
    pub fn cache_put_connect_address(&self) -> (r: Address)
        ensures
            r@ == "ipc:///requests/put"@,
    {
        String::from_str("ipc:///requests/put")
    }

    /// Where a cache listens for updates from the KVS.
    pub fn cache_update_bind_address(&self) -> (r: Address)
        requires
            tid_fits(self@.2),
        ensures
            r@ == K_BIND_BASE@ + decimal((self@.2 + K_CACHE_UPDATE_PORT) as nat),
    {
        address_with_port(K_BIND_BASE, self.tid + K_CACHE_UPDATE_PORT)
    }

    /// Where the KVS sends a cache its updates.
    pub fn cache_update_connect_address(&self) -> (r: Address)
        requires
            tid_fits(self@.2),
        ensures
            r@ == self@.1 + decimal((self@.2 + K_CACHE_UPDATE_PORT) as nat),
    {
        address_with_port(self.ip_base.as_str(), self.tid + K_CACHE_UPDATE_PORT)
    }
}

} // verus!
