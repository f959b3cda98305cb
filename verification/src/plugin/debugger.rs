//! The debugger plugin: it logs every update it receives; only its
//! configuration shape takes part in the verified plugin identity.

use vstd::prelude::*;

use crate::strutil::string_eq;

verus! {

/// The debugger's configuration.
#[derive(Debug)]
pub struct DebuggerConfig {
    pub id: Option<String>,
}

impl DebuggerConfig {
    pub open spec fn spec_id(&self) -> Option<Seq<char>> {
        match self.id {
            Some(ref s) => Some(s@),
            None => None,
        }
    }
}

impl Default for DebuggerConfig {
    fn default() -> (r: Self)
        ensures
            r.spec_id() is None,
    {
        DebuggerConfig { id: None }
    }
}

impl Clone for DebuggerConfig {
    fn clone(&self) -> (r: Self)
        ensures
            r.spec_id() == self.spec_id(),
    {
        match &self.id {
            Some(s) => DebuggerConfig { id: Some(s.clone()) },
            None => DebuggerConfig { id: None },
        }
    }
}

impl PartialEq for DebuggerConfig {
    fn eq(&self, other: &Self) -> (r: bool) {
        match (&self.id, &other.id) {
            (Some(a), Some(b)) => string_eq(a, b),
            (None, None) => true,
            _ => false,
        }
    }
}

impl Eq for DebuggerConfig {

}

impl vstd::std_specs::cmp::PartialEqSpecImpl for DebuggerConfig {
    open spec fn obeys_eq_spec() -> bool {
        true
    }

    open spec fn eq_spec(&self, other: &Self) -> bool {
        self.spec_id() == other.spec_id()
    }
}

/// The debugger plugin itself: nothing to decide, only its configuration.
#[derive(Debug)]
pub struct Debugger {
    pub cfg: DebuggerConfig,
}

impl Debugger {
    /// Wraps a configuration.
    pub fn new(cfg: DebuggerConfig) -> (r: Self)
        ensures
            r.cfg.spec_id() == cfg.spec_id(),
    {
        Debugger { cfg }
    }
}

} // verus!
