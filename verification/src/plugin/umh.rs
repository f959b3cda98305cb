//! The user-mode-helper plugin: rules with partial patterns select updates,
//! and each match names a command to spawn with the update's environment.

use vstd::prelude::*;

use crate::strutil::string_eq;

verus! {

/// What every rule carries: the command to run, a display name, and extra
/// environment entries.
#[derive(Debug)]
pub struct CommonRule {
    pub command: String,
    pub name: String,
    pub env: Vec<(String, String)>,
}

/// Mathematical value of a [`CommonRule`].
#[verifier::ext_equal]
pub struct CommonRuleView {
    pub command: Seq<char>,
    pub name: Seq<char>,
    pub env: Seq<(Seq<char>, Seq<char>)>,
}

impl View for CommonRule {
    type V = CommonRuleView;

    open spec fn view(&self) -> CommonRuleView {
        CommonRuleView {
            command: self.command@,
            name: self.name@,
            env: self.env.deep_view(),
        }
    }
}

impl DeepView for CommonRule {
    type V = CommonRuleView;

    open spec fn deep_view(&self) -> CommonRuleView {
        self@
    }
}

impl Clone for CommonRule {
    fn clone(&self) -> (r: Self)
        ensures
            r@ == self@,
    {
        let mut env: Vec<(String, String)> = Vec::new();
        let mut i: usize = 0;
        while i < self.env.len()
            invariant
                0 <= i <= self.env@.len(),
                env@.len() == i,
                forall|j: int| 0 <= j < i ==> #[trigger] env@[j].deep_view()
                    == self.env@[j].deep_view(),
            decreases self.env@.len() - i,
        {
            let e = &self.env[i];
            let c = (e.0.clone(), e.1.clone());
            proof {
                assert(c.deep_view() == self.env@[i as int].deep_view());
            }
            env.push(c);
            i = i + 1;
        }
        let r = CommonRule { command: self.command.clone(), name: self.name.clone(), env };
        proof {
            assert(r.env.deep_view() =~= self.env.deep_view());
            assert(r@ =~= self@);
        }
        r
    }
}

impl PartialEq for CommonRule {
    fn eq(&self, other: &Self) -> (r: bool) {
        if self.env.len() != other.env.len() {
            assert(self@.env.len() != other@.env.len());
            return false;
        }
        let mut i: usize = 0;
        while i < self.env.len()
            invariant
                self.env@.len() == other.env@.len(),
                0 <= i <= self.env@.len(),
                forall|j: int| 0 <= j < i ==> self.env.deep_view()[j] == other.env.deep_view()[j],
            decreases self.env@.len() - i,
        {
            let a = &self.env[i];
            let b = &other.env[i];
            if !(string_eq(&a.0, &b.0) && string_eq(&a.1, &b.1)) {
                assert(self.env.deep_view()[i as int] != other.env.deep_view()[i as int]);
                return false;
            }
            i = i + 1;
        }
        let r = string_eq(&self.command, &other.command) && string_eq(&self.name, &other.name);
        proof {
            if r {
                assert(self.env.deep_view() =~= other.env.deep_view());
                assert(self@ =~= other@);
            }
        }
        r
    }
}

impl Eq for CommonRule {

}

impl vstd::std_specs::cmp::PartialEqSpecImpl for CommonRule {
    open spec fn obeys_eq_spec() -> bool {
        true
    }

    open spec fn eq_spec(&self, other: &Self) -> bool {
        self@ == other@
    }
}

} // verus!

verus! {

use crate::drbd::{
    ConnectionState, ConnectionUpdateState, DeviceUpdateState, DiskState, EventType,
    PeerDeviceUpdateState, PluginUpdate, ReplicationState, ResourceUpdateState, Role,
};
use crate::matchable::{
    obp_bool_clone, obp_bool_eq, obp_conn_clone, obp_conn_eq, obp_disk_clone, obp_disk_eq,
    obp_et_clone, obp_et_eq, obp_i32_clone, obp_i32_eq, obp_repl_clone, obp_repl_eq,
    obp_role_clone, obp_role_eq, obp_string_clone, obp_string_eq, obp_u64_clone, obp_u64_eq,
    osp_clone_connectionupdatestate, osp_clone_deviceupdatestate,
    osp_clone_peerdeviceupdatestate, osp_clone_resourceupdatestate, osp_eq_connectionupdatestate,
    osp_eq_deviceupdatestate, osp_eq_peerdeviceupdatestate, osp_eq_resourceupdatestate,
    BasicPattern, BasicPatternView, ConnectionPluginUpdatePattern,
    ConnectionPluginUpdatePatternView, ConnectionUpdateStatePattern,
    ConnectionUpdateStatePatternView, DevicePluginUpdatePattern, DevicePluginUpdatePatternView,
    DeviceUpdateStatePattern, DeviceUpdateStatePatternView, PartialMatchable,
    PeerDevicePluginUpdatePattern, PeerDevicePluginUpdatePatternView, PeerDeviceUpdateStatePattern,
    PeerDeviceUpdateStatePatternView, ResourcePluginUpdatePattern,
    ResourcePluginUpdatePatternView, ResourceUpdateStatePattern, ResourceUpdateStatePatternView,
};

/// A user-mode-helper rule over resource change updates.
#[derive(Debug)]
pub struct ResourceRule {
    pub common: CommonRule,
    pub event_type: Option<BasicPattern<EventType>>,
    pub resource_name: Option<BasicPattern<String>>,
    pub old: Option<ResourceUpdateStatePattern>,
    pub new: Option<ResourceUpdateStatePattern>,
}

/// Mathematical value of a [`ResourceRule`].
pub struct ResourceRuleView {
    pub common: CommonRuleView,
    pub event_type: Option<BasicPatternView<EventType>>,
    pub resource_name: Option<BasicPatternView<Seq<char>>>,
    pub old: Option<ResourceUpdateStatePatternView>,
    pub new: Option<ResourceUpdateStatePatternView>,
}

impl DeepView for ResourceRule {
    type V = ResourceRuleView;

    open spec fn deep_view(&self) -> ResourceRuleView {
        ResourceRuleView {
            common: self.common@,
            event_type: self.event_type.deep_view(),
            resource_name: self.resource_name.deep_view(),
            old: self.old.deep_view(),
            new: self.new.deep_view(),
        }
    }
}

impl Clone for ResourceRule {
    fn clone(&self) -> (r: Self)
        ensures
            r.deep_view() == self.deep_view(),
    {
        ResourceRule {
            common: self.common.clone(),
            event_type: obp_et_clone(&self.event_type),
            resource_name: obp_string_clone(&self.resource_name),
            old: osp_clone_resourceupdatestate(&self.old),
            new: osp_clone_resourceupdatestate(&self.new),
        }
    }
}

impl PartialEq for ResourceRule {
    fn eq(&self, other: &Self) -> (r: bool) {
        self.common == other.common && obp_et_eq(&self.event_type, &other.event_type) && obp_string_eq(&self.resource_name, &other.resource_name) && osp_eq_resourceupdatestate(&self.old, &other.old) && osp_eq_resourceupdatestate(&self.new, &other.new)
    }
}

impl Eq for ResourceRule {

}

impl vstd::std_specs::cmp::PartialEqSpecImpl for ResourceRule {
    open spec fn obeys_eq_spec() -> bool {
        true
    }

    open spec fn eq_spec(&self, other: &Self) -> bool {
        self.deep_view() == other.deep_view()
    }
}

impl ResourceRule {
    /// The pattern this rule tests updates against.
    pub fn pattern(&self) -> (r: ResourcePluginUpdatePattern)
        ensures
            r.deep_view() == (ResourcePluginUpdatePatternView {
                event_type: self.event_type.deep_view(),
                resource_name: self.resource_name.deep_view(),
                old: self.old.deep_view(),
                new: self.new.deep_view(),
            }),
    {
        ResourcePluginUpdatePattern {
                event_type: obp_et_clone(&self.event_type),
                resource_name: obp_string_clone(&self.resource_name),
                old: osp_clone_resourceupdatestate(&self.old),
                new: osp_clone_resourceupdatestate(&self.new),
        }
    }
}

/// A user-mode-helper rule over device change updates.
#[derive(Debug)]
pub struct DeviceRule {
    pub common: CommonRule,
    pub event_type: Option<BasicPattern<EventType>>,
    pub resource_name: Option<BasicPattern<String>>,
    pub volume: Option<BasicPattern<i32>>,
    pub old: Option<DeviceUpdateStatePattern>,
    pub new: Option<DeviceUpdateStatePattern>,
}

/// Mathematical value of a [`DeviceRule`].
pub struct DeviceRuleView {
    pub common: CommonRuleView,
    pub event_type: Option<BasicPatternView<EventType>>,
    pub resource_name: Option<BasicPatternView<Seq<char>>>,
    pub volume: Option<BasicPatternView<i32>>,
    pub old: Option<DeviceUpdateStatePatternView>,
    pub new: Option<DeviceUpdateStatePatternView>,
}

impl DeepView for DeviceRule {
    type V = DeviceRuleView;

    open spec fn deep_view(&self) -> DeviceRuleView {
        DeviceRuleView {
            common: self.common@,
            event_type: self.event_type.deep_view(),
            resource_name: self.resource_name.deep_view(),
            volume: self.volume.deep_view(),
            old: self.old.deep_view(),
            new: self.new.deep_view(),
        }
    }
}

impl Clone for DeviceRule {
    fn clone(&self) -> (r: Self)
        ensures
            r.deep_view() == self.deep_view(),
    {
        DeviceRule {
            common: self.common.clone(),
            event_type: obp_et_clone(&self.event_type),
            resource_name: obp_string_clone(&self.resource_name),
            volume: obp_i32_clone(&self.volume),
            old: osp_clone_deviceupdatestate(&self.old),
            new: osp_clone_deviceupdatestate(&self.new),
        }
    }
}

impl PartialEq for DeviceRule {
    fn eq(&self, other: &Self) -> (r: bool) {
        self.common == other.common && obp_et_eq(&self.event_type, &other.event_type) && obp_string_eq(&self.resource_name, &other.resource_name) && obp_i32_eq(&self.volume, &other.volume) && osp_eq_deviceupdatestate(&self.old, &other.old) && osp_eq_deviceupdatestate(&self.new, &other.new)
    }
}

impl Eq for DeviceRule {

}

impl vstd::std_specs::cmp::PartialEqSpecImpl for DeviceRule {
    open spec fn obeys_eq_spec() -> bool {
        true
    }

    open spec fn eq_spec(&self, other: &Self) -> bool {
        self.deep_view() == other.deep_view()
    }
}

impl DeviceRule {
    /// The pattern this rule tests updates against.
    pub fn pattern(&self) -> (r: DevicePluginUpdatePattern)
        ensures
            r.deep_view() == (DevicePluginUpdatePatternView {
                event_type: self.event_type.deep_view(),
                resource_name: self.resource_name.deep_view(),
                volume: self.volume.deep_view(),
                old: self.old.deep_view(),
                new: self.new.deep_view(),
            }),
    {
        DevicePluginUpdatePattern {
                event_type: obp_et_clone(&self.event_type),
                resource_name: obp_string_clone(&self.resource_name),
                volume: obp_i32_clone(&self.volume),
                old: osp_clone_deviceupdatestate(&self.old),
                new: osp_clone_deviceupdatestate(&self.new),
        }
    }
}

/// A user-mode-helper rule over peerdevice change updates.
#[derive(Debug)]
pub struct PeerDeviceRule {
    pub common: CommonRule,
    pub event_type: Option<BasicPattern<EventType>>,
    pub resource_name: Option<BasicPattern<String>>,
    pub volume: Option<BasicPattern<i32>>,
    pub peer_node_id: Option<BasicPattern<i32>>,
    pub old: Option<PeerDeviceUpdateStatePattern>,
    pub new: Option<PeerDeviceUpdateStatePattern>,
}

/// Mathematical value of a [`PeerDeviceRule`].
pub struct PeerDeviceRuleView {
    pub common: CommonRuleView,
    pub event_type: Option<BasicPatternView<EventType>>,
    pub resource_name: Option<BasicPatternView<Seq<char>>>,
    pub volume: Option<BasicPatternView<i32>>,
    pub peer_node_id: Option<BasicPatternView<i32>>,
    pub old: Option<PeerDeviceUpdateStatePatternView>,
    pub new: Option<PeerDeviceUpdateStatePatternView>,
}

impl DeepView for PeerDeviceRule {
    type V = PeerDeviceRuleView;

    open spec fn deep_view(&self) -> PeerDeviceRuleView {
        PeerDeviceRuleView {
            common: self.common@,
            event_type: self.event_type.deep_view(),
            resource_name: self.resource_name.deep_view(),
            volume: self.volume.deep_view(),
            peer_node_id: self.peer_node_id.deep_view(),
            old: self.old.deep_view(),
            new: self.new.deep_view(),
        }
    }
}

impl Clone for PeerDeviceRule {
    fn clone(&self) -> (r: Self)
        ensures
            r.deep_view() == self.deep_view(),
    {
        PeerDeviceRule {
            common: self.common.clone(),
            event_type: obp_et_clone(&self.event_type),
            resource_name: obp_string_clone(&self.resource_name),
            volume: obp_i32_clone(&self.volume),
            peer_node_id: obp_i32_clone(&self.peer_node_id),
            old: osp_clone_peerdeviceupdatestate(&self.old),
            new: osp_clone_peerdeviceupdatestate(&self.new),
        }
    }
}

impl PartialEq for PeerDeviceRule {
    fn eq(&self, other: &Self) -> (r: bool) {
        self.common == other.common && obp_et_eq(&self.event_type, &other.event_type) && obp_string_eq(&self.resource_name, &other.resource_name) && obp_i32_eq(&self.volume, &other.volume) && obp_i32_eq(&self.peer_node_id, &other.peer_node_id) && osp_eq_peerdeviceupdatestate(&self.old, &other.old) && osp_eq_peerdeviceupdatestate(&self.new, &other.new)
    }
}

impl Eq for PeerDeviceRule {

}

impl vstd::std_specs::cmp::PartialEqSpecImpl for PeerDeviceRule {
    open spec fn obeys_eq_spec() -> bool {
        true
    }

    open spec fn eq_spec(&self, other: &Self) -> bool {
        self.deep_view() == other.deep_view()
    }
}

impl PeerDeviceRule {
    /// The pattern this rule tests updates against.
    pub fn pattern(&self) -> (r: PeerDevicePluginUpdatePattern)
        ensures
            r.deep_view() == (PeerDevicePluginUpdatePatternView {
                event_type: self.event_type.deep_view(),
                resource_name: self.resource_name.deep_view(),
                volume: self.volume.deep_view(),
                peer_node_id: self.peer_node_id.deep_view(),
                old: self.old.deep_view(),
                new: self.new.deep_view(),
            }),
    {
        PeerDevicePluginUpdatePattern {
                event_type: obp_et_clone(&self.event_type),
                resource_name: obp_string_clone(&self.resource_name),
                volume: obp_i32_clone(&self.volume),
                peer_node_id: obp_i32_clone(&self.peer_node_id),
                old: osp_clone_peerdeviceupdatestate(&self.old),
                new: osp_clone_peerdeviceupdatestate(&self.new),
        }
    }
}

/// A user-mode-helper rule over connection change updates.
#[derive(Debug)]
pub struct ConnectionRule {
    pub common: CommonRule,
    pub event_type: Option<BasicPattern<EventType>>,
    pub resource_name: Option<BasicPattern<String>>,
    pub peer_node_id: Option<BasicPattern<i32>>,
    pub old: Option<ConnectionUpdateStatePattern>,
    pub new: Option<ConnectionUpdateStatePattern>,
}

/// Mathematical value of a [`ConnectionRule`].
pub struct ConnectionRuleView {
    pub common: CommonRuleView,
    pub event_type: Option<BasicPatternView<EventType>>,
    pub resource_name: Option<BasicPatternView<Seq<char>>>,
    pub peer_node_id: Option<BasicPatternView<i32>>,
    pub old: Option<ConnectionUpdateStatePatternView>,
    pub new: Option<ConnectionUpdateStatePatternView>,
}

impl DeepView for ConnectionRule {
    type V = ConnectionRuleView;

    open spec fn deep_view(&self) -> ConnectionRuleView {
        ConnectionRuleView {
            common: self.common@,
            event_type: self.event_type.deep_view(),
            resource_name: self.resource_name.deep_view(),
            peer_node_id: self.peer_node_id.deep_view(),
            old: self.old.deep_view(),
            new: self.new.deep_view(),
        }
    }
}

impl Clone for ConnectionRule {
    fn clone(&self) -> (r: Self)
        ensures
            r.deep_view() == self.deep_view(),
    {
        ConnectionRule {
            common: self.common.clone(),
            event_type: obp_et_clone(&self.event_type),
            resource_name: obp_string_clone(&self.resource_name),
            peer_node_id: obp_i32_clone(&self.peer_node_id),
            old: osp_clone_connectionupdatestate(&self.old),
            new: osp_clone_connectionupdatestate(&self.new),
        }
    }
}

impl PartialEq for ConnectionRule {
    fn eq(&self, other: &Self) -> (r: bool) {
        self.common == other.common && obp_et_eq(&self.event_type, &other.event_type) && obp_string_eq(&self.resource_name, &other.resource_name) && obp_i32_eq(&self.peer_node_id, &other.peer_node_id) && osp_eq_connectionupdatestate(&self.old, &other.old) && osp_eq_connectionupdatestate(&self.new, &other.new)
    }
}

impl Eq for ConnectionRule {

}

impl vstd::std_specs::cmp::PartialEqSpecImpl for ConnectionRule {
    open spec fn obeys_eq_spec() -> bool {
        true
    }

    open spec fn eq_spec(&self, other: &Self) -> bool {
        self.deep_view() == other.deep_view()
    }
}

impl ConnectionRule {
    /// The pattern this rule tests updates against.
    pub fn pattern(&self) -> (r: ConnectionPluginUpdatePattern)
        ensures
            r.deep_view() == (ConnectionPluginUpdatePatternView {
                event_type: self.event_type.deep_view(),
                resource_name: self.resource_name.deep_view(),
                peer_node_id: self.peer_node_id.deep_view(),
                old: self.old.deep_view(),
                new: self.new.deep_view(),
            }),
    {
        ConnectionPluginUpdatePattern {
                event_type: obp_et_clone(&self.event_type),
                resource_name: obp_string_clone(&self.resource_name),
                peer_node_id: obp_i32_clone(&self.peer_node_id),
                old: osp_clone_connectionupdatestate(&self.old),
                new: osp_clone_connectionupdatestate(&self.new),
        }
    }
}

/// Element-wise equality of two [`ResourceRule`] lists.
pub fn resourcerules_eq(a: &Vec<ResourceRule>, b: &Vec<ResourceRule>) -> (r: bool)
    ensures
        r == (a.deep_view() == b.deep_view()),
{
    if a.len() != b.len() {
        assert(a.deep_view().len() != b.deep_view().len());
        return false;
    }
    let mut i: usize = 0;
    while i < a.len()
        invariant
            a@.len() == b@.len(),
            0 <= i <= a@.len(),
            forall|j: int| 0 <= j < i ==> a.deep_view()[j] == b.deep_view()[j],
        decreases a@.len() - i,
    {
        if !(a[i] == b[i]) {
            assert(a.deep_view()[i as int] != b.deep_view()[i as int]);
            return false;
        }
        i = i + 1;
    }
    proof {
        assert(a.deep_view() =~= b.deep_view());
    }
    true
}

/// Copies a [`ResourceRule`] list, value for value.
pub fn resourcerules_clone(v: &Vec<ResourceRule>) -> (r: Vec<ResourceRule>)
    ensures
        r.deep_view() == v.deep_view(),
{
    let mut r: Vec<ResourceRule> = Vec::new();
    let mut i: usize = 0;
    while i < v.len()
        invariant
            0 <= i <= v@.len(),
            r@.len() == i,
            forall|j: int| 0 <= j < i ==> #[trigger] r@[j].deep_view() == v@[j].deep_view(),
        decreases v@.len() - i,
    {
        let c = v[i].clone();
        assert(c.deep_view() == v@[i as int].deep_view());
        r.push(c);
        i = i + 1;
    }
    proof {
        assert(r.deep_view() =~= v.deep_view());
    }
    r
}

/// Element-wise equality of two [`DeviceRule`] lists.
pub fn devicerules_eq(a: &Vec<DeviceRule>, b: &Vec<DeviceRule>) -> (r: bool)
    ensures
        r == (a.deep_view() == b.deep_view()),
{
    if a.len() != b.len() {
        assert(a.deep_view().len() != b.deep_view().len());
        return false;
    }
    let mut i: usize = 0;
    while i < a.len()
        invariant
            a@.len() == b@.len(),
            0 <= i <= a@.len(),
            forall|j: int| 0 <= j < i ==> a.deep_view()[j] == b.deep_view()[j],
        decreases a@.len() - i,
    {
        if !(a[i] == b[i]) {
            assert(a.deep_view()[i as int] != b.deep_view()[i as int]);
            return false;
        }
        i = i + 1;
    }
    proof {
        assert(a.deep_view() =~= b.deep_view());
    }
    true
}

/// Copies a [`DeviceRule`] list, value for value.
pub fn devicerules_clone(v: &Vec<DeviceRule>) -> (r: Vec<DeviceRule>)
    ensures
        r.deep_view() == v.deep_view(),
{
    let mut r: Vec<DeviceRule> = Vec::new();
    let mut i: usize = 0;
    while i < v.len()
        invariant
            0 <= i <= v@.len(),
            r@.len() == i,
            forall|j: int| 0 <= j < i ==> #[trigger] r@[j].deep_view() == v@[j].deep_view(),
        decreases v@.len() - i,
    {
        let c = v[i].clone();
        assert(c.deep_view() == v@[i as int].deep_view());
        r.push(c);
        i = i + 1;
    }
    proof {
        assert(r.deep_view() =~= v.deep_view());
    }
    r
}

/// Element-wise equality of two [`PeerDeviceRule`] lists.
pub fn peerdevicerules_eq(a: &Vec<PeerDeviceRule>, b: &Vec<PeerDeviceRule>) -> (r: bool)
    ensures
        r == (a.deep_view() == b.deep_view()),
{
    if a.len() != b.len() {
        assert(a.deep_view().len() != b.deep_view().len());
        return false;
    }
    let mut i: usize = 0;
    while i < a.len()
        invariant
            a@.len() == b@.len(),
            0 <= i <= a@.len(),
            forall|j: int| 0 <= j < i ==> a.deep_view()[j] == b.deep_view()[j],
        decreases a@.len() - i,
    {
        if !(a[i] == b[i]) {
            assert(a.deep_view()[i as int] != b.deep_view()[i as int]);
            return false;
        }
        i = i + 1;
    }
    proof {
        assert(a.deep_view() =~= b.deep_view());
    }
    true
}

/// Copies a [`PeerDeviceRule`] list, value for value.
pub fn peerdevicerules_clone(v: &Vec<PeerDeviceRule>) -> (r: Vec<PeerDeviceRule>)
    ensures
        r.deep_view() == v.deep_view(),
{
    let mut r: Vec<PeerDeviceRule> = Vec::new();
    let mut i: usize = 0;
    while i < v.len()
        invariant
            0 <= i <= v@.len(),
            r@.len() == i,
            forall|j: int| 0 <= j < i ==> #[trigger] r@[j].deep_view() == v@[j].deep_view(),
        decreases v@.len() - i,
    {
        let c = v[i].clone();
        assert(c.deep_view() == v@[i as int].deep_view());
        r.push(c);
        i = i + 1;
    }
    proof {
        assert(r.deep_view() =~= v.deep_view());
    }
    r
}

/// Element-wise equality of two [`ConnectionRule`] lists.
pub fn connectionrules_eq(a: &Vec<ConnectionRule>, b: &Vec<ConnectionRule>) -> (r: bool)
    ensures
        r == (a.deep_view() == b.deep_view()),
{
    if a.len() != b.len() {
        assert(a.deep_view().len() != b.deep_view().len());
        return false;
    }
    let mut i: usize = 0;
    while i < a.len()
        invariant
            a@.len() == b@.len(),
            0 <= i <= a@.len(),
            forall|j: int| 0 <= j < i ==> a.deep_view()[j] == b.deep_view()[j],
        decreases a@.len() - i,
    {
        if !(a[i] == b[i]) {
            assert(a.deep_view()[i as int] != b.deep_view()[i as int]);
            return false;
        }
        i = i + 1;
    }
    proof {
        assert(a.deep_view() =~= b.deep_view());
    }
    true
}

/// Copies a [`ConnectionRule`] list, value for value.
pub fn connectionrules_clone(v: &Vec<ConnectionRule>) -> (r: Vec<ConnectionRule>)
    ensures
        r.deep_view() == v.deep_view(),
{
    let mut r: Vec<ConnectionRule> = Vec::new();
    let mut i: usize = 0;
    while i < v.len()
        invariant
            0 <= i <= v@.len(),
            r@.len() == i,
            forall|j: int| 0 <= j < i ==> #[trigger] r@[j].deep_view() == v@[j].deep_view(),
        decreases v@.len() - i,
    {
        let c = v[i].clone();
        assert(c.deep_view() == v@[i as int].deep_view());
        r.push(c);
        i = i + 1;
    }
    proof {
        assert(r.deep_view() =~= v.deep_view());
    }
    r
}

/// Mathematical value of a [`UMHConfig`].
#[verifier::ext_equal]
pub struct UMHConfigView {
    pub resource: Seq<ResourceRuleView>,
    pub device: Seq<DeviceRuleView>,
    pub peerdevice: Seq<PeerDeviceRuleView>,
    pub connection: Seq<ConnectionRuleView>,
    pub id: Option<Seq<char>>,
}

/// The user-mode-helper configuration: one rule list per update kind.
#[derive(Debug)]
pub struct UMHConfig {
    pub resource: Vec<ResourceRule>,
    pub device: Vec<DeviceRule>,
    pub peerdevice: Vec<PeerDeviceRule>,
    pub connection: Vec<ConnectionRule>,
    pub id: Option<String>,
}

impl View for UMHConfig {
    type V = UMHConfigView;

    open spec fn view(&self) -> UMHConfigView {
        UMHConfigView {
            resource: self.resource.deep_view(),
            device: self.device.deep_view(),
            peerdevice: self.peerdevice.deep_view(),
            connection: self.connection.deep_view(),
            id: match self.id {
                Some(ref s) => Some(s@),
                None => None,
            },
        }
    }
}

impl Default for UMHConfig {
    fn default() -> (r: Self)
        ensures
            r@.resource.len() == 0 && r@.device.len() == 0 && r@.peerdevice.len() == 0
                && r@.connection.len() == 0 && r@.id is None,
    {
        let d = UMHConfig {
            resource: Vec::new(),
            device: Vec::new(),
            peerdevice: Vec::new(),
            connection: Vec::new(),
            id: None,
        };
        proof {
            assert(d.resource.deep_view() =~= Seq::<ResourceRuleView>::empty());
            assert(d.device.deep_view() =~= Seq::<DeviceRuleView>::empty());
            assert(d.peerdevice.deep_view() =~= Seq::<PeerDeviceRuleView>::empty());
            assert(d.connection.deep_view() =~= Seq::<ConnectionRuleView>::empty());
        }
        d
    }
}

impl Clone for UMHConfig {
    fn clone(&self) -> (r: Self)
        ensures
            r@ == self@,
    {
        let r = UMHConfig {
            resource: resourcerules_clone(&self.resource),
            device: devicerules_clone(&self.device),
            peerdevice: peerdevicerules_clone(&self.peerdevice),
            connection: connectionrules_clone(&self.connection),
            id: match &self.id {
                Some(s) => Some(s.clone()),
                None => None,
            },
        };
        proof {
            assert(r@ =~= self@);
        }
        r
    }
}

impl PartialEq for UMHConfig {
    fn eq(&self, other: &Self) -> (r: bool) {
        let r = resourcerules_eq(&self.resource, &other.resource) && devicerules_eq(
            &self.device,
            &other.device,
        ) && peerdevicerules_eq(&self.peerdevice, &other.peerdevice) && connectionrules_eq(
            &self.connection,
            &other.connection,
        ) && match (&self.id, &other.id) {
            (Some(a), Some(b)) => string_eq(a, b),
            (None, None) => true,
            _ => false,
        };
        proof {
            if r {
                assert(self@ =~= other@);
            }
        }
        r
    }
}

impl Eq for UMHConfig {

}

impl vstd::std_specs::cmp::PartialEqSpecImpl for UMHConfig {
    open spec fn obeys_eq_spec() -> bool {
        true
    }

    open spec fn eq_spec(&self, other: &Self) -> bool {
        self@ == other@
    }
}

/// One rule ready for matching: what every rule carries, beside the pattern
/// updates are tested against.
pub struct PreparedRule<P> {
    pub common: CommonRule,
    pub pattern: P,
}

/// The user-mode-helper plugin: its configuration, and the rules prepared
/// for matching, one list per update kind.
pub struct UMH {
    pub cfg: UMHConfig,
    pub resource_rules: Vec<PreparedRule<Option<ResourcePluginUpdatePattern>>>,
    pub device_rules: Vec<PreparedRule<Option<DevicePluginUpdatePattern>>>,
    pub peer_device_rules: Vec<PreparedRule<Option<PeerDevicePluginUpdatePattern>>>,
    pub connection_rules: Vec<PreparedRule<Option<ConnectionPluginUpdatePattern>>>,
}

impl UMH {
    /// Prepares the configured rules for matching; one prepared rule per
    /// configured rule, in order.
    pub fn new(cfg: UMHConfig) -> (r: Self)
        ensures
            r.cfg@ == cfg@,
            r.resource_rules@.len() == cfg.resource@.len(),
            r.device_rules@.len() == cfg.device@.len(),
            r.peer_device_rules@.len() == cfg.peerdevice@.len(),
            r.connection_rules@.len() == cfg.connection@.len(),
            forall|i: int| 0 <= i < cfg.resource@.len() ==> #[trigger] r.resource_rules@[i].common@
                == cfg.resource@[i].common@ && r.resource_rules@[i].pattern.deep_view() == Some(ResourcePluginUpdatePatternView {
                    event_type: cfg.resource@[i].event_type.deep_view(),
                    resource_name: cfg.resource@[i].resource_name.deep_view(),
                    old: cfg.resource@[i].old.deep_view(),
                    new: cfg.resource@[i].new.deep_view(),
                }),
            forall|i: int| 0 <= i < cfg.device@.len() ==> #[trigger] r.device_rules@[i].common@
                == cfg.device@[i].common@ && r.device_rules@[i].pattern.deep_view() == Some(DevicePluginUpdatePatternView {
                    event_type: cfg.device@[i].event_type.deep_view(),
                    resource_name: cfg.device@[i].resource_name.deep_view(),
                    volume: cfg.device@[i].volume.deep_view(),
                    old: cfg.device@[i].old.deep_view(),
                    new: cfg.device@[i].new.deep_view(),
                }),
            forall|i: int| 0 <= i < cfg.peerdevice@.len() ==> #[trigger] r.peer_device_rules@[i].common@
                == cfg.peerdevice@[i].common@ && r.peer_device_rules@[i].pattern.deep_view() == Some(PeerDevicePluginUpdatePatternView {
                    event_type: cfg.peerdevice@[i].event_type.deep_view(),
                    resource_name: cfg.peerdevice@[i].resource_name.deep_view(),
                    volume: cfg.peerdevice@[i].volume.deep_view(),
                    peer_node_id: cfg.peerdevice@[i].peer_node_id.deep_view(),
                    old: cfg.peerdevice@[i].old.deep_view(),
                    new: cfg.peerdevice@[i].new.deep_view(),
                }),
            forall|i: int| 0 <= i < cfg.connection@.len() ==> #[trigger] r.connection_rules@[i].common@
                == cfg.connection@[i].common@ && r.connection_rules@[i].pattern.deep_view() == Some(ConnectionPluginUpdatePatternView {
                    event_type: cfg.connection@[i].event_type.deep_view(),
                    resource_name: cfg.connection@[i].resource_name.deep_view(),
                    peer_node_id: cfg.connection@[i].peer_node_id.deep_view(),
                    old: cfg.connection@[i].old.deep_view(),
                    new: cfg.connection@[i].new.deep_view(),
                }),
    {
        let mut resource_rules: Vec<PreparedRule<Option<ResourcePluginUpdatePattern>>> = Vec::new();
        let mut i: usize = 0;
        while i < cfg.resource.len()
            invariant
                0 <= i <= cfg.resource@.len(),
                resource_rules@.len() == i,
                forall|j: int| 0 <= j < i ==> #[trigger] resource_rules@[j].common@
                    == cfg.resource@[j].common@ && resource_rules@[j].pattern.deep_view() == Some(ResourcePluginUpdatePatternView {
                    event_type: cfg.resource@[j].event_type.deep_view(),
                    resource_name: cfg.resource@[j].resource_name.deep_view(),
                    old: cfg.resource@[j].old.deep_view(),
                    new: cfg.resource@[j].new.deep_view(),
                }),
            decreases cfg.resource@.len() - i,
        {
            resource_rules.push(
                PreparedRule {
                    common: cfg.resource[i].common.clone(),
                    pattern: Some(cfg.resource[i].pattern()),
                },
            );
            i = i + 1;
        }
        let mut device_rules: Vec<PreparedRule<Option<DevicePluginUpdatePattern>>> = Vec::new();
        let mut i: usize = 0;
        while i < cfg.device.len()
            invariant
                0 <= i <= cfg.device@.len(),
                device_rules@.len() == i,
                forall|j: int| 0 <= j < i ==> #[trigger] device_rules@[j].common@
                    == cfg.device@[j].common@ && device_rules@[j].pattern.deep_view() == Some(DevicePluginUpdatePatternView {
                    event_type: cfg.device@[j].event_type.deep_view(),
                    resource_name: cfg.device@[j].resource_name.deep_view(),
                    volume: cfg.device@[j].volume.deep_view(),
                    old: cfg.device@[j].old.deep_view(),
                    new: cfg.device@[j].new.deep_view(),
                }),
            decreases cfg.device@.len() - i,
        {
            device_rules.push(
                PreparedRule {
                    common: cfg.device[i].common.clone(),
                    pattern: Some(cfg.device[i].pattern()),
                },
            );
            i = i + 1;
        }
        let mut peer_device_rules: Vec<PreparedRule<Option<PeerDevicePluginUpdatePattern>>> = Vec::new();
        let mut i: usize = 0;
        while i < cfg.peerdevice.len()
            invariant
                0 <= i <= cfg.peerdevice@.len(),
                peer_device_rules@.len() == i,
                forall|j: int| 0 <= j < i ==> #[trigger] peer_device_rules@[j].common@
                    == cfg.peerdevice@[j].common@ && peer_device_rules@[j].pattern.deep_view() == Some(PeerDevicePluginUpdatePatternView {
                    event_type: cfg.peerdevice@[j].event_type.deep_view(),
                    resource_name: cfg.peerdevice@[j].resource_name.deep_view(),
                    volume: cfg.peerdevice@[j].volume.deep_view(),
                    peer_node_id: cfg.peerdevice@[j].peer_node_id.deep_view(),
                    old: cfg.peerdevice@[j].old.deep_view(),
                    new: cfg.peerdevice@[j].new.deep_view(),
                }),
            decreases cfg.peerdevice@.len() - i,
        {
            peer_device_rules.push(
                PreparedRule {
                    common: cfg.peerdevice[i].common.clone(),
                    pattern: Some(cfg.peerdevice[i].pattern()),
                },
            );
            i = i + 1;
        }
        let mut connection_rules: Vec<PreparedRule<Option<ConnectionPluginUpdatePattern>>> = Vec::new();
        let mut i: usize = 0;
        while i < cfg.connection.len()
            invariant
                0 <= i <= cfg.connection@.len(),
                connection_rules@.len() == i,
                forall|j: int| 0 <= j < i ==> #[trigger] connection_rules@[j].common@
                    == cfg.connection@[j].common@ && connection_rules@[j].pattern.deep_view() == Some(ConnectionPluginUpdatePatternView {
                    event_type: cfg.connection@[j].event_type.deep_view(),
                    resource_name: cfg.connection@[j].resource_name.deep_view(),
                    peer_node_id: cfg.connection@[j].peer_node_id.deep_view(),
                    old: cfg.connection@[j].old.deep_view(),
                    new: cfg.connection@[j].new.deep_view(),
                }),
            decreases cfg.connection@.len() - i,
        {
            connection_rules.push(
                PreparedRule {
                    common: cfg.connection[i].common.clone(),
                    pattern: Some(cfg.connection[i].pattern()),
                },
            );
            i = i + 1;
        }
        UMH { cfg, resource_rules, device_rules, peer_device_rules, connection_rules }
    }

    /// A deep copy of the configuration that identifies this plugin.
    pub fn get_config(&self) -> (r: UMHConfig)
        ensures
            r@ == self.cfg@,
    {
        self.cfg.clone()
    }
}

/// The rules of the list whose pattern the item satisfies, in order, from
/// position `i` on.
pub open spec fn spec_matching_rules<T: PartialMatchable>(
    item: T,
    rules: Seq<PreparedRule<T::Pattern>>,
    i: int,
) -> Seq<CommonRuleView>
    decreases rules.len() - i,
{
    if i < 0 || i >= rules.len() {
        Seq::empty()
    } else {
        (if item.spec_matches(&rules[i].pattern) {
            seq![rules[i].common@]
        } else {
            Seq::<CommonRuleView>::empty()
        }) + spec_matching_rules(item, rules, i + 1)
    }
}

/// Given a matchable item and a list of prepared rules, returns every rule
/// that applies, in rule order; each names a handler command to spawn.
pub fn get_handlers_by_pattern<T: PartialMatchable>(
    item: &T,
    rules: &Vec<PreparedRule<T::Pattern>>,
) -> (r: Vec<CommonRule>)
    ensures
        r.deep_view() == spec_matching_rules(*item, rules@, 0),
{
    let mut out: Vec<CommonRule> = Vec::new();
    let mut i: usize = 0;
    proof {
        assert(out.deep_view() =~= Seq::<CommonRuleView>::empty());
        assert(out.deep_view() + spec_matching_rules(*item, rules@, 0) =~= spec_matching_rules(
            *item,
            rules@,
            0,
        ));
    }
    while i < rules.len()
        invariant
            0 <= i <= rules@.len(),
            out.deep_view() + spec_matching_rules(*item, rules@, i as int) == spec_matching_rules(
                *item,
                rules@,
                0,
            ),
        decreases rules@.len() - i,
    {
        let ghost before = out.deep_view();
        if item.matches(&rules[i].pattern) {
            out.push(rules[i].common.clone());
            proof {
                assert(out.deep_view() =~= before.push(rules@[i as int].common@));
                assert(before.push(rules@[i as int].common@) + spec_matching_rules(
                    *item,
                    rules@,
                    i as int + 1,
                ) =~= before + (seq![rules@[i as int].common@] + spec_matching_rules(
                    *item,
                    rules@,
                    i as int + 1,
                )));
            }
        } else {
            proof {
                assert(before + (Seq::<CommonRuleView>::empty() + spec_matching_rules(
                    *item,
                    rules@,
                    i as int + 1,
                )) =~= before + spec_matching_rules(*item, rules@, i as int + 1));
            }
        }
        i = i + 1;
    }
    proof {
        assert(out.deep_view() + Seq::<CommonRuleView>::empty() =~= out.deep_view());
    }
    out
}

/// The handler rules the update fires, in rule order: every prepared rule of
/// the update's kind whose pattern the update satisfies. Bare snapshots fire
/// nothing.
pub fn matching_rules(umh: &UMH, up: &PluginUpdate) -> (r: Vec<CommonRule>)
    ensures
        r.deep_view() == match up {
            PluginUpdate::Resource(u) => spec_matching_rules(*u, umh.resource_rules@, 0),
            PluginUpdate::Device(u) => spec_matching_rules(*u, umh.device_rules@, 0),
            PluginUpdate::PeerDevice(u) => spec_matching_rules(*u, umh.peer_device_rules@, 0),
            PluginUpdate::Connection(u) => spec_matching_rules(*u, umh.connection_rules@, 0),
            PluginUpdate::ResourceOnly(_, _) => Seq::<CommonRuleView>::empty(),
        },
{
    match up {
        PluginUpdate::Resource(u) => get_handlers_by_pattern(u, &umh.resource_rules),
        PluginUpdate::Device(u) => get_handlers_by_pattern(u, &umh.device_rules),
        PluginUpdate::PeerDevice(u) => get_handlers_by_pattern(u, &umh.peer_device_rules),
        PluginUpdate::Connection(u) => get_handlers_by_pattern(u, &umh.connection_rules),
        PluginUpdate::ResourceOnly(_, _) => {
            let out: Vec<CommonRule> = Vec::new();
            proof {
                assert(out.deep_view() =~= Seq::<CommonRuleView>::empty());
            }
            out
        },
    }
}

} // verus!
