//! Core logic for local peer discovery and content export.
//!
//! The library holds the verified state and decision logic of the system:
//! a registry of nearby devices folded from discovery events, the
//! construction of local-only connection tickets, and the progress-tracked
//! export state machine. The surrounding I/O (the network endpoint, the
//! blob store, the clock, the terminal) stays outside and hands this
//! library plain values.

pub mod device;
pub mod display;
pub mod export;
pub mod registry;
pub mod ticket;

use vstd::prelude::*;

verus! {

/// Picks the advertised hostname from the sources the system offers,
/// in order of preference, falling back to a fixed default label when
/// every source is absent.
pub fn choose_hostname(
    env_hostname: Option<String>,
    env_computername: Option<String>,
    command_hostname: Option<String>,
) -> (r: String)
    ensures
        env_hostname matches Some(h) ==> r@ == h@,
        env_hostname is None ==> (env_computername matches Some(h) ==> r@ == h@),
        env_hostname is None && env_computername is None ==> (command_hostname matches Some(h)
            ==> r@ == h@),
        env_hostname is None && env_computername is None && command_hostname is None
            ==> r@ == "Sendme Device"@,
{
    match env_hostname {
        Some(h) => h,
        None => match env_computername {
            Some(h) => h,
            None => match command_hostname {
                Some(h) => h,
                None => "Sendme Device".to_owned(),
            },
        },
    }
}

} // verus!
