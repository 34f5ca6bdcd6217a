use crate::threads::{decimal, decimal_string, tid_fits, Address, UserRoutingThread, UserThread};
use vstd::prelude::*;
use vstd::string::StringExecFns;

verus! {

/// One routing thread per thread id below `thread_count` on each routing
/// address, grouped by address in the order given.
pub fn routing_threads(routing_ips: &Vec<Address>, thread_count: usize) -> (r: Vec<
    UserRoutingThread,
>)
    requires
        thread_count == 0 || tid_fits((thread_count - 1) as usize),
        routing_ips@.len() * thread_count <= usize::MAX,
    ensures
        r@.len() == routing_ips@.len() * thread_count,
        forall|a: int, t: int|
            0 <= a < routing_ips@.len() && 0 <= t < thread_count ==> {
                let th = #[trigger] r@[a * thread_count + t];
                th@.0 == routing_ips@[a]@ && th@.2 == t
            },
{
    let mut threads: Vec<UserRoutingThread> = Vec::new();
    let n = routing_ips.len();
    let mut a: usize = 0;
    while a < n
        invariant
            n == routing_ips@.len(),
            a <= n,
            thread_count == 0 || tid_fits((thread_count - 1) as usize),
            n * thread_count <= usize::MAX,
            threads@.len() == a * thread_count,
            forall|b: int, t: int|
                0 <= b < a && 0 <= t < thread_count ==> {
                    let th = #[trigger] threads@[b * thread_count + t];
                    th@.0 == routing_ips@[b]@ && th@.2 == t
                },
        decreases n - a,
    {
        let mut i: usize = 0;
        while i < thread_count
            invariant
                n == routing_ips@.len(),
                a < n,
                i <= thread_count,
                thread_count == 0 || tid_fits((thread_count - 1) as usize),
                n * thread_count <= usize::MAX,
                threads@.len() == a * thread_count + i,
                forall|b: int, t: int|
                    0 <= b < a && 0 <= t < thread_count ==> {
                        let th = #[trigger] threads@[b * thread_count + t];
                        th@.0 == routing_ips@[b]@ && th@.2 == t
                    },
                forall|t: int|
                    0 <= t < i ==> {
                        let th = #[trigger] threads@[a * thread_count + t];
                        th@.0 == routing_ips@[a as int]@ && th@.2 == t
                    },
            decreases thread_count - i,
        {
            proof {
                assert((a + 1) * thread_count <= n * thread_count) by (nonlinear_arith)
                    requires
                        a < n,
                ;
                assert((a + 1) * thread_count == a * thread_count + thread_count) by (
                nonlinear_arith);
            }
            let ghost before = threads@;
            threads.push(UserThread::new(&routing_ips[a], i));
            proof {
                assert forall|b: int, t: int|
                    0 <= b < a && 0 <= t < thread_count implies #[trigger] threads@[b
                        * thread_count + t] == before[b * thread_count + t] by {
                    assert(b * thread_count + t < a * thread_count) by (nonlinear_arith)
                        requires
                            0 <= b < a,
                            0 <= t < thread_count,
                    ;
                }
            }
            i = i + 1;
        }
        proof {
            assert((a + 1) * thread_count == a * thread_count + thread_count) by (nonlinear_arith);
        }
        a = a + 1;
    }
    threads
}

/// The id of request `rid` from thread `tid` at `ip`: `<ip>:<tid>_<rid>`.
pub fn request_id(ip: &Address, tid: usize, rid: usize) -> (r: String)
    ensures
        r@ == ip@ + ":"@ + decimal(tid as nat) + "_"@ + decimal(rid as nat),
{
    let mut r = ip.clone();
    r.append(":");
    let t = decimal_string(tid);
    r.append(t.as_str());
    r.append("_");
    let n = decimal_string(rid);
    r.append(n.as_str());
    r
}

/// The request counter after `rid`; it starts again from zero after the
/// largest `usize`.
pub fn next_request_counter(rid: usize) -> (r: usize)
    ensures
        r == if rid == usize::MAX {
            0
        } else {
            rid + 1
        },
{
    if rid == usize::MAX {
        0
    } else {
        rid + 1
    }
}

/// A random seed from the time in milliseconds, a hash of the client's IP,
/// and its thread id, added with wrap-around.
pub fn seed_from(millis: u64, ip_hash: u64, tid: usize) -> (r: u64)
    ensures
        r == (millis + ip_hash + tid) % 0x1_0000_0000_0000_0000,
{
    let s = millis.wrapping_add(ip_hash);
    s.wrapping_add(tid as u64)
}

} // verus!
