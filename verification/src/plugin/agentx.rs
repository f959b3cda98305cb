//! The SNMP subagent; only its configuration shape takes part in the
//! verified plugin identity.

use vstd::prelude::*;

use crate::strutil::{str_to_string, string_eq};

verus! {

/// Mathematical value of an [`AgentXConfig`].
#[verifier::ext_equal]
pub struct AgentXConfigView {
    pub address: Seq<char>,
    pub cache_max: u64,
    pub agent_timeout: u64,
    pub peer_states: bool,
}

/// The subagent's configuration: master agent address, cache lifetime,
/// timeout, and whether per-peer states are exposed.
#[derive(Debug)]
pub struct AgentXConfig {
    pub address: String,
    pub cache_max: u64,
    pub agent_timeout: u64,
    pub peer_states: bool,
}

impl View for AgentXConfig {
    type V = AgentXConfigView;

    open spec fn view(&self) -> AgentXConfigView {
        AgentXConfigView {
            address: self.address@,
            cache_max: self.cache_max,
            agent_timeout: self.agent_timeout,
            peer_states: self.peer_states,
        }
    }
}

impl Default for AgentXConfig {
    /// The documented defaults: the local master agent, one minute of cache
    /// and timeout, peer states on.
    fn default() -> (r: Self)
        ensures
            r@.address == "localhost:705"@ && r@.cache_max == 60 && r@.agent_timeout == 60
                && r@.peer_states,
    {
        AgentXConfig {
            address: str_to_string("localhost:705"),
            cache_max: 60,
            agent_timeout: 60,
            peer_states: true,
        }
    }
}

impl Clone for AgentXConfig {
    fn clone(&self) -> (r: Self)
        ensures
            r@ == self@,
    {
        let r = AgentXConfig {
            address: self.address.clone(),
            cache_max: self.cache_max,
            agent_timeout: self.agent_timeout,
            peer_states: self.peer_states,
        };
        proof {
            assert(r@ =~= self@);
        }
        r
    }
}

impl PartialEq for AgentXConfig {
    fn eq(&self, other: &Self) -> (r: bool) {
        let r = string_eq(&self.address, &other.address) && self.cache_max == other.cache_max
            && self.agent_timeout == other.agent_timeout && self.peer_states == other.peer_states;
        proof {
            if r {
                assert(self@ =~= other@);
            }
        }
        r
    }
}

impl Eq for AgentXConfig {

}

impl vstd::std_specs::cmp::PartialEqSpecImpl for AgentXConfig {
    open spec fn obeys_eq_spec() -> bool {
        true
    }

    open spec fn eq_spec(&self, other: &Self) -> bool {
        self@ == other@
    }
}

} // verus!
