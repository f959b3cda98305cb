//! Just enough of the kernel tool's `show` output to check the resource
//! options the promoter depends on.

use vstd::prelude::*;

use crate::strutil::string_eq;

verus! {

/// Mathematical value of [`Net`].
#[verifier::ext_equal]
pub struct NetView {
    pub rr_conflict: Seq<char>,
    pub fencing: Seq<char>,
}

/// The net options of one connection.
#[derive(Debug)]
pub struct Net {
    pub rr_conflict: String,
    pub fencing: String,
}

impl View for Net {
    type V = NetView;

    open spec fn view(&self) -> NetView {
        NetView { rr_conflict: self.rr_conflict@, fencing: self.fencing@ }
    }
}

impl DeepView for Net {
    type V = NetView;

    open spec fn deep_view(&self) -> NetView {
        self@
    }
}

/// Mathematical value of [`Connection`].
#[verifier::ext_equal]
pub struct ConnectionView {
    pub net: NetView,
}

/// One connection of the shown resource; net options are inherited downward
/// to each connection.
#[derive(Debug)]
pub struct Connection {
    pub net: Net,
}

impl View for Connection {
    type V = ConnectionView;

    open spec fn view(&self) -> ConnectionView {
        ConnectionView { net: self.net@ }
    }
}

impl DeepView for Connection {
    type V = ConnectionView;

    open spec fn deep_view(&self) -> ConnectionView {
        self@
    }
}

/// Mathematical value of [`Options`].
#[verifier::ext_equal]
pub struct OptionsView {
    pub auto_promote: bool,
    pub quorum: Seq<char>,
    pub on_no_quorum: Seq<char>,
    pub on_suspended_primary_outdated: Seq<char>,
    pub on_no_data_accessible: Seq<char>,
}

/// The resource options the promoter checks.
#[derive(Debug)]
pub struct Options {
    pub auto_promote: bool,
    pub quorum: String,
    pub on_no_quorum: String,
    pub on_suspended_primary_outdated: String,
    pub on_no_data_accessible: String,
}

impl View for Options {
    type V = OptionsView;

    open spec fn view(&self) -> OptionsView {
        OptionsView {
            auto_promote: self.auto_promote,
            quorum: self.quorum@,
            on_no_quorum: self.on_no_quorum@,
            on_suspended_primary_outdated: self.on_suspended_primary_outdated@,
            on_no_data_accessible: self.on_no_data_accessible@,
        }
    }
}

/// Mathematical value of [`Resource`].
#[verifier::ext_equal]
pub struct ResourceView {
    pub resource: Seq<char>,
    pub options: OptionsView,
    pub connections: Seq<ConnectionView>,
}

/// One resource as the kernel tool shows it, options and connections.
#[derive(Debug)]
pub struct Resource {
    pub resource: String,
    pub options: Options,
    pub connections: Vec<Connection>,
}

impl View for Resource {
    type V = ResourceView;

    open spec fn view(&self) -> ResourceView {
        ResourceView {
            resource: self.resource@,
            options: self.options@,
            connections: self.connections.deep_view(),
        }
    }
}

} // verus!
