//! Events that drive the dispatcher.
use vstd::prelude::*;

verus! {

/// Network registration state, as the modem reports it.
#[derive(Debug, Clone, Copy, PartialEq, Eq, PartialOrd, Ord, Structural)]
pub enum Regstate {
    Unregistered,
    Registered,
    Searching,
    Denied,
    Roaming,
    Unknown(i32),
}

/// The state that a registration status code stands for.
pub open spec fn regstate_of(code: i32) -> Regstate {
    if code == 0 {
        Regstate::Unregistered
    } else if code == 1 {
        Regstate::Registered
    } else if code == 2 {
        Regstate::Searching
    } else if code == 3 {
        Regstate::Denied
    } else if code == 5 {
        Regstate::Roaming
    } else {
        Regstate::Unknown(code)
    }
}

impl Regstate {
    /// The state that status code `code` stands for.
    pub fn from_code(code: i32) -> (r: Regstate)
        ensures
            r == regstate_of(code),
    {
        match code {
            0 => Regstate::Unregistered,
            1 => Regstate::Registered,
            2 => Regstate::Searching,
            3 => Regstate::Denied,
            5 => Regstate::Roaming,
            n => Regstate::Unknown(n),
        }
    }
}

/// The codes 0, 1, 2, 3 and 5 give five distinct states, one of each named kind; any other
/// code gives `Unknown` of itself.
pub proof fn lemma_registration_codes(a: i32, b: i32)
    ensures
        regstate_of(0) == Regstate::Unregistered,
        regstate_of(1) == Regstate::Registered,
        regstate_of(2) == Regstate::Searching,
        regstate_of(3) == Regstate::Denied,
        regstate_of(5) == Regstate::Roaming,
        (a == 0 || a == 1 || a == 2 || a == 3 || a == 5) ==> (regstate_of(a) == regstate_of(b)
            <==> a == b),
        !(a == 0 || a == 1 || a == 2 || a == 3 || a == 5) ==> regstate_of(a) == Regstate::Unknown(a),
{
}

/// What the dispatcher reacts to.
#[derive(Debug, PartialEq, Eq, PartialOrd, Ord)]
pub enum Event {
    /// A timer tick.
    Heartbeat,
    /// An incoming call from this number.
    Ring(String),
    /// The registration state changed.
    Creg(Regstate),
    /// The modem link is alive.
    GsmOk,
}

} // verus!
