//! Page lifecycle states and the navigation wait conditions.

use vstd::prelude::*;

use crate::text::str_eq;

verus! {

/// Where a page is in its load lifecycle.
#[derive(Debug, Clone, Copy, PartialEq, Eq, Structural)]
pub enum LifecycleState {
    Idle,
    Loading,
    DomContentLoaded,
    Loaded,
    NetworkIdle,
    Failed,
}

/// The state is the one of a navigation in flight.
pub open spec fn state_is_loading(s: LifecycleState) -> bool {
    s is Loading
}

/// The load event has fired: the page is `Loaded` or already `NetworkIdle`.
pub open spec fn state_is_loaded(s: LifecycleState) -> bool {
    s is Loaded || s is NetworkIdle
}

/// The network has gone quiet after the load.
pub open spec fn state_is_network_idle(s: LifecycleState) -> bool {
    s is NetworkIdle
}

impl LifecycleState {
    pub fn is_loading(&self) -> (r: bool)
        ensures
            r == state_is_loading(*self),
    {
        matches!(self, LifecycleState::Loading)
    }

    pub fn is_loaded(&self) -> (r: bool)
        ensures
            r == state_is_loaded(*self),
    {
        matches!(self, LifecycleState::Loaded | LifecycleState::NetworkIdle)
    }

    pub fn is_network_idle(&self) -> (r: bool)
        ensures
            r == state_is_network_idle(*self),
    {
        matches!(self, LifecycleState::NetworkIdle)
    }
}

/// A page that is network-idle has loaded, and a page still loading has not.
pub proof fn lemma_lifecycle_predicates(s: LifecycleState)
    ensures
        state_is_network_idle(s) ==> state_is_loaded(s),
        state_is_loading(s) ==> !state_is_loaded(s),
        state_is_loading(s) ==> !state_is_network_idle(s),
{
}

/// The condition a navigation waits for before it is considered done.
#[derive(Debug, Clone, Copy, PartialEq, Eq, Structural)]
pub enum WaitUntil {
    Load,
    DomContentLoaded,
    NetworkIdle0,
    NetworkIdle2,
}

/// The wait condition that a (case-sensitive) name selects; any other name
/// falls back to `Load`.
pub open spec fn wait_until_of(s: Seq<char>) -> WaitUntil {
    if s == "domcontentloaded"@ {
        WaitUntil::DomContentLoaded
    } else if s == "networkidle0"@ || s == "networkIdle"@ || s == "networkidle"@ {
        WaitUntil::NetworkIdle0
    } else if s == "networkidle2"@ {
        WaitUntil::NetworkIdle2
    } else {
        WaitUntil::Load
    }
}

impl WaitUntil {
    pub fn from_str(s: &str) -> (r: Self)
        ensures
            r == wait_until_of(s@),
    {
        if str_eq(s, "domcontentloaded") {
            WaitUntil::DomContentLoaded
        } else if str_eq(s, "networkidle0") || str_eq(s, "networkIdle") || str_eq(
            s,
            "networkidle",
        ) {
            WaitUntil::NetworkIdle0
        } else if str_eq(s, "networkidle2") {
            WaitUntil::NetworkIdle2
        } else {
            WaitUntil::Load
        }
    }
}

} // verus!
