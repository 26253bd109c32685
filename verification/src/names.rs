//! The names of the shared resources.
//!
//! Participants are started independently and never tell each other where a
//! resource lives: each derives the same name from the same number.

use crate::text::{decimal, decimal_string, lemma_decimal_injective};
use vstd::prelude::*;
use vstd::string::*;

verus! {

/// File that holds the lifecycle record and is locked around every change of it.
pub const MAIN_LOCK_FILENAME: &'static str = "tp1.lock";

/// File that holds the configuration.
pub const MAIN_CONFIG_FILENAME: &'static str = "config.cfg";

/// Lock file of the occupancy table; the table's segment is keyed off its path.
pub const STATUS_FILE: &'static str = "status.lock";

/// Configuration key under which the number of ports stands.
pub const NUM_PORTS_PARAM: &'static str = "lake ports";

/// `prefix`, the decimal notation of `n`, then `suffix`.
pub open spec fn numbered(prefix: Seq<char>, n: nat, suffix: Seq<char>) -> Seq<char> {
    prefix + decimal(n) + suffix
}

/// Name of the occupancy lock of a port.
pub open spec fn port_lock_name(port: nat) -> Seq<char> {
    numbered("port-"@, port, ".lock"@)
}

/// Name of the boarding channel of a port.
pub open spec fn boarding_pipe_name(port: nat) -> Seq<char> {
    numbered("port-"@, port, "-board.fifo"@)
}

/// Name of the boarding turnstile of a port.
pub open spec fn boarding_lock_name(port: nat) -> Seq<char> {
    numbered("port-"@, port, "-board.fifo.lock"@)
}

/// Name of the confirmation channel of a port.
pub open spec fn confirmation_pipe_name(port: nat) -> Seq<char> {
    numbered("port-"@, port, "-confirm.fifo"@)
}

/// Name of the private notification channel of a passenger.
pub open spec fn passenger_pipe_name(id: nat) -> Seq<char> {
    numbered("passenger-"@, id, ".fifo"@)
}

/// Name of the file off which the private semaphore of a passenger is keyed.
pub open spec fn passenger_lock_name(id: nat) -> Seq<char> {
    numbered("passenger-"@, id, ".fifo.lock"@)
}

/// Writes `prefix`, `n` in decimal, and `suffix`.
fn numbered_path(prefix: &str, n: u32, suffix: &str) -> (path: String)
    ensures
        path@ == numbered(prefix@, n as nat, suffix@),
{
    let mut path = String::from_str(prefix);
    let digits = decimal_string(n as u64);
    path.append(digits.as_str());
    path.append(suffix);
    path
}

/// The name of the occupancy lock of `port`.
pub fn port_lock_path(port: u32) -> (path: String)
    ensures
        path@ == port_lock_name(port as nat),
{
    numbered_path("port-", port, ".lock")
}

/// The name of the boarding channel of `port`.
pub fn boarding_pipe_path(port: u32) -> (path: String)
    ensures
        path@ == boarding_pipe_name(port as nat),
{
    numbered_path("port-", port, "-board.fifo")
}

/// The name of the boarding turnstile of `port`.
pub fn boarding_lock_path(port: u32) -> (path: String)
    ensures
        path@ == boarding_lock_name(port as nat),
{
    numbered_path("port-", port, "-board.fifo.lock")
}

/// The name of the confirmation channel of `port`.
pub fn confirmation_pipe_path(port: u32) -> (path: String)
    ensures
        path@ == confirmation_pipe_name(port as nat),
{
    numbered_path("port-", port, "-confirm.fifo")
}

/// The name of the private notification channel of passenger `id`.
pub fn passenger_pipe_path(id: u32) -> (path: String)
    ensures
        path@ == passenger_pipe_name(id as nat),
{
    numbered_path("passenger-", id, ".fifo")
}

/// The name of the file off which the private semaphore of passenger `id` is keyed.
pub fn passenger_lock_path(id: u32) -> (path: String)
    ensures
        path@ == passenger_lock_name(id as nat),
{
    numbered_path("passenger-", id, ".fifo.lock")
}

/// Two numbers that give the same name between the same prefix and suffix are
/// the same number: no two ports, and no two passengers, share a resource.
pub proof fn lemma_numbered_injective(prefix: Seq<char>, a: nat, b: nat, suffix: Seq<char>)
    requires
        numbered(prefix, a, suffix) == numbered(prefix, b, suffix),
    ensures
        a == b,
{
    let x = numbered(prefix, a, suffix);
    let y = numbered(prefix, b, suffix);
    assert(x.len() == prefix.len() + decimal(a).len() + suffix.len());
    assert(y.len() == prefix.len() + decimal(b).len() + suffix.len());
    assert(decimal(a) =~= decimal(b)) by {
        assert forall|i: int| 0 <= i < decimal(a).len() implies decimal(a)[i] == decimal(b)[i] by {
            assert(x[prefix.len() + i] == decimal(a)[i]);
            assert(y[prefix.len() + i] == decimal(b)[i]);
        }
    }
    lemma_decimal_injective(a, b);
}

} // verus!
