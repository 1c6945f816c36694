//! A single-slot mailbox over a channel.
//!
//! A producer pushes state snapshots; the consumer only ever wants the most
//! recent one.  `Latch` wraps a channel receiver and keeps the last value
//! that arrived, silently discarding everything the consumer did not read
//! in time.

use vstd::prelude::*;
use std::sync::mpsc::Receiver;

verus! {

#[verifier::external_type_specification]
#[verifier::external_body]
#[verifier::reject_recursive_types(T)]
pub struct ExReceiver<T>(Receiver<T>);

/// Relies on `std::sync::mpsc::Receiver::try_recv`: returns a queued value
/// if one is pending, and nothing otherwise.  Which value arrives depends
/// on the sending thread, so nothing is promised of the result.
#[verifier::external_body]
fn try_recv_pending<T>(r: &Receiver<T>) -> Option<T> {
    match r.try_recv() {
        Ok(v) => Some(v),
        Err(_) => None,
    }
}

/// Relies on `std::sync::mpsc::Receiver::recv`: blocks until a value
/// arrives, or reports that the channel closed with the sender gone.
/// Which value arrives depends on the sending thread, so nothing is
/// promised of the result.
#[verifier::external_body]
fn recv_blocking<T>(r: &Receiver<T>) -> Option<T> {
    match r.recv() {
        Ok(v) => Some(v),
        Err(_) => None,
    }
}

/// The drain in one `get` call reads at most this many queued values; a
/// producer would have to outpace the consumer by billions of snapshots
/// for the bound to bind.
const DRAIN_LIMIT: u32 = 0xffff_ffff;

/// A latch over a channel: it always holds the most recent value received.
#[verifier::reject_recursive_types(T)]
pub struct Latch<T> {
    pub backend: Receiver<T>,
    pub current: T,
}

impl<T> Latch<T> {
    /// Block until the channel's first value arrives; `None` when the
    /// sender closed the channel before sending anything.
    pub fn new(r: Receiver<T>) -> (l: Option<Latch<T>>)
        ensures
            l matches Some(lt) ==> lt.backend == r,
    {
        match recv_blocking(&r) {
            Option::Some(x) => Option::Some(Latch { backend: r, current: x }),
            Option::None => Option::None,
        }
    }

    /// Drain whatever the sender has pushed meanwhile and return the most
    /// recent value; values that arrived in between reads are discarded.
    pub fn get(&mut self) -> (v: &T)
        ensures
            *v == final(self).current,
    {
        let mut budget: u32 = DRAIN_LIMIT;
        while budget > 0
            invariant
                true,
            decreases budget,
        {
            match try_recv_pending(&self.backend) {
                Option::Some(x) => {
                    self.current = x;
                },
                Option::None => {
                    break ;
                },
            }
            budget -= 1;
        }
        &self.current
    }
}

} // verus!
