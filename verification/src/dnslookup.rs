//! Reverse DNS: what the resolver task answers, and which answer a
//! waiting lookup takes.
//!
//! Every waiting lookup sees every answer, and takes the first one for
//! its own address. A lookup waits three seconds at most.

use crate::control::ControlSignal;
use vstd::prelude::*;

verus! {

/// Seconds that a lookup waits for its answer.
pub const LOOKUP_TIMEOUT_SECS: u64 = 3;

/// Capacity of the request queue and of the answer broadcast.
pub const DNS_QUEUE_CAPACITY: usize = 256;

/// A request (without names) or an answer for an address. An IPv4 address
/// stands in its IPv6-mapped form.
#[derive(Debug, Clone)]
pub struct DnsItem {
    pub addr: u128,
    pub names: Option<Vec<String>>,
}

impl DnsItem {
    /// The request for the names of `addr`.
    pub fn request(addr: u128) -> (item: DnsItem)
        ensures
            item.addr == addr,
            item.names is None,
    {
        DnsItem { addr, names: None }
    }
}

/// What arrives at the resolver task.
#[derive(Debug)]
pub enum DnsEvent {
    /// A signal from the control bus.
    Control(ControlSignal),
    /// A request from the queue.
    Request(DnsItem),
}

/// What the resolver task does next.
#[derive(Debug, Clone, Copy, PartialEq, Eq, Structural)]
pub enum DnsStep {
    /// Go on waiting.
    Wait,
    /// Start a lookup of this address, and go on waiting.
    Lookup(u128),
    /// End the task.
    Stop,
}

/// The resolver task's step: `Shutdown` ends it, a request starts a lookup
/// of its address, `Reconfigure` changes nothing.
pub fn do_dns_lookup_thread(event: DnsEvent) -> (step: DnsStep)
    ensures
        step == match event {
            DnsEvent::Control(ControlSignal::Shutdown) => DnsStep::Stop,
            DnsEvent::Control(ControlSignal::Reconfigure(_)) => DnsStep::Wait,
            DnsEvent::Request(item) => DnsStep::Lookup(item.addr),
        },
{
    match event {
        DnsEvent::Control(signal) => {
            match signal {
                ControlSignal::Shutdown => DnsStep::Stop,
                ControlSignal::Reconfigure(_) => DnsStep::Wait,
            }
        },
        DnsEvent::Request(item) => DnsStep::Lookup(item.addr),
    }
}

/// The answer for `addr` after a lookup: the names that were found, or
/// `None` where the lookup failed (`results` is `None`) or found no name.
pub fn reverse_lookup(addr: u128, results: Option<Vec<String>>) -> (item: DnsItem)
    ensures
        item.addr == addr,
        item.names == match results {
            Some(found) => if found@.len() == 0 {
                None
            } else {
                Some(found)
            },
            None => None,
        },
{
    let names = match results {
        Some(found) => {
            if found.len() == 0 {
                None
            } else {
                Some(found)
            }
        },
        None => None,
    };
    DnsItem { addr, names }
}

/// What a lookup for `addr` makes of an answer from the broadcast: `Some`
/// with the names (or with `None`, where none were found) if the answer is
/// for `addr`; `None`, to wait on, if it is for another address.
pub fn response_inner(addr: u128, response: DnsItem) -> (taken: Option<Option<Vec<String>>>)
    ensures
        taken == if response.addr == addr {
            Some(response.names)
        } else {
            None
        },
{
    if response.addr == addr {
        Some(response.names)
    } else {
        None
    }
}

/// How the wait of a lookup ended.
#[derive(Debug)]
pub enum LookupEnd {
    /// The resolver task is not running.
    NoResolver,
    /// No answer for the address within the time allowed.
    TimedOut,
    /// The answer broadcast was closed.
    Closed,
    /// The answer for the address.
    Answered(Option<Vec<String>>),
}

/// The result of a lookup: the names of the answer, and `None` in every
/// other case.
pub fn resolve_ip(end: LookupEnd) -> (names: Option<Vec<String>>)
    ensures
        names == match end {
            LookupEnd::Answered(found) => found,
            _ => None,
        },
{
    match end {
        LookupEnd::Answered(found) => found,
        _ => None,
    }
}

} // verus!
