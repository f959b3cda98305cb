//! The exporter of metrics over HTTP; only its configuration shape takes
//! part in the verified plugin identity.

use vstd::prelude::*;

use crate::strutil::{str_to_string, string_eq};

verus! {

/// Mathematical value of a [`PrometheusConfig`].
#[verifier::ext_equal]
pub struct PrometheusConfigView {
    pub address: Seq<char>,
    pub enums: bool,
    pub id: Option<Seq<char>>,
}

/// The exporter's configuration: the listen address and whether enum-valued
/// metrics are exposed.
#[derive(Debug)]
pub struct PrometheusConfig {
    pub address: String,
    pub enums: bool,
    pub id: Option<String>,
}

impl View for PrometheusConfig {
    type V = PrometheusConfigView;

    open spec fn view(&self) -> PrometheusConfigView {
        PrometheusConfigView {
            address: self.address@,
            enums: self.enums,
            id: match self.id {
                Some(ref s) => Some(s@),
                None => None,
            },
        }
    }
}

impl Default for PrometheusConfig {
    /// The documented default listen address, enums off.
    fn default() -> (r: Self)
        ensures
            r@.address == "[::]:9942"@ && !r@.enums && r@.id is None,
    {
        PrometheusConfig { address: str_to_string("[::]:9942"), enums: false, id: None }
    }
}

impl Clone for PrometheusConfig {
    fn clone(&self) -> (r: Self)
        ensures
            r@ == self@,
    {
        let r = PrometheusConfig {
            address: self.address.clone(),
            enums: self.enums,
            id: match &self.id {
                Some(s) => Some(s.clone()),
                None => None,
            },
        };
        proof {
            assert(r@ =~= self@);
        }
        r
    }
}

impl PartialEq for PrometheusConfig {
    fn eq(&self, other: &Self) -> (r: bool) {
        let r = string_eq(&self.address, &other.address) && self.enums == other.enums && match (
        &self.id,
        &other.id,
        ) {
            (Some(a), Some(b)) => string_eq(a, b),
            (None, None) => true,
            _ => false,
        };
        proof {
            if r {
                assert(self@ =~= other@);
            }
        }
        r
    }
}

impl Eq for PrometheusConfig {

}

impl vstd::std_specs::cmp::PartialEqSpecImpl for PrometheusConfig {
    open spec fn obeys_eq_spec() -> bool {
        true
    }

    open spec fn eq_spec(&self, other: &Self) -> bool {
        self@ == other@
    }
}

} // verus!
