//! The promoter: the per-resource policy that decides when to promote,
//! demote, freeze, thaw or shut down the service stack, the promotion-delay
//! computation, and the generators for the service manager's unit overrides.

use vstd::prelude::*;

use crate::drbd::{DeviceView, DiskState, Resource, Role};
use crate::strutil::{clone_string_vec, position_of, string_eq, string_vecs_eq, str_to_string};

verus! {

/// How the generated units are started and stopped.
#[derive(Clone, Copy, PartialEq, Eq, Structural, Debug)]
pub enum Runner {
    Systemd,
    Shell,
}

impl Default for Runner {
    fn default() -> (r: Self)
        ensures
            r == Runner::Systemd,
    {
        Runner::Systemd
    }
}

/// The strictness of a generated unit dependency.
#[derive(Clone, Copy, PartialEq, Eq, Structural, Debug)]
pub enum SystemdDependency {
    Wants,
    Requires,
    Requisite,
    BindsTo,
}

impl SystemdDependency {
    pub open spec fn spec_text(&self) -> Seq<char> {
        match self {
            SystemdDependency::Wants => "Wants"@,
            SystemdDependency::Requires => "Requires"@,
            SystemdDependency::Requisite => "Requisite"@,
            SystemdDependency::BindsTo => "BindsTo"@,
        }
    }

    /// The keyword as it stands in a unit file.
    pub fn text(&self) -> (r: &'static str)
        ensures
            r@ == self.spec_text(),
    {
        match self {
            SystemdDependency::Wants => "Wants",
            SystemdDependency::Requires => "Requires",
            SystemdDependency::Requisite => "Requisite",
            SystemdDependency::BindsTo => "BindsTo",
        }
    }
}

impl Default for SystemdDependency {
    fn default() -> (r: Self)
        ensures
            r == SystemdDependency::Requires,
    {
        SystemdDependency::Requires
    }
}

/// The escalation taken when demotion fails.
#[derive(Clone, Copy, PartialEq, Eq, Structural, Debug)]
pub enum SystemdFailureAction {
    NoAction,
    Reboot,
    RebootForce,
    RebootImmediate,
    Poweroff,
    PoweroffForce,
    PoweroffImmediate,
    Exit,
    ExitForce,
}

impl SystemdFailureAction {
    pub open spec fn spec_text(&self) -> Seq<char> {
        match self {
            SystemdFailureAction::NoAction => "none"@,
            SystemdFailureAction::Reboot => "reboot"@,
            SystemdFailureAction::RebootForce => "reboot-force"@,
            SystemdFailureAction::RebootImmediate => "reboot-immediate"@,
            SystemdFailureAction::Poweroff => "poweroff"@,
            SystemdFailureAction::PoweroffForce => "poweroff-force"@,
            SystemdFailureAction::PoweroffImmediate => "poweroff-immediate"@,
            SystemdFailureAction::Exit => "exit"@,
            SystemdFailureAction::ExitForce => "exit-force"@,
        }
    }

    /// The keyword as it stands in a `FailureAction=` line.
    pub fn text(&self) -> (r: &'static str)
        ensures
            r@ == self.spec_text(),
    {
        match self {
            SystemdFailureAction::NoAction => "none",
            SystemdFailureAction::Reboot => "reboot",
            SystemdFailureAction::RebootForce => "reboot-force",
            SystemdFailureAction::RebootImmediate => "reboot-immediate",
            SystemdFailureAction::Poweroff => "poweroff",
            SystemdFailureAction::PoweroffForce => "poweroff-force",
            SystemdFailureAction::PoweroffImmediate => "poweroff-immediate",
            SystemdFailureAction::Exit => "exit",
            SystemdFailureAction::ExitForce => "exit-force",
        }
    }
}

impl Default for SystemdFailureAction {
    fn default() -> (r: Self)
        ensures
            r == SystemdFailureAction::NoAction,
    {
        SystemdFailureAction::NoAction
    }
}

/// What to do with the service stack when the resource loses quorum.
#[derive(Clone, Copy, PartialEq, Eq, Structural, Debug)]
pub enum QuorumLossPolicy {
    Shutdown,
    Freeze,
}

impl Default for QuorumLossPolicy {
    fn default() -> (r: Self)
        ensures
            r == QuorumLossPolicy::Shutdown,
    {
        QuorumLossPolicy::Shutdown
    }
}

/// Mathematical value of a [`PromoterOptResource`].
#[verifier::ext_equal]
pub struct PromoterOptResourceView {
    pub start: Seq<Seq<char>>,
    pub stop: Seq<Seq<char>>,
    pub on_stop_failure: Seq<char>,
    pub stop_services_on_exit: bool,
    pub runner: Runner,
    pub dependencies_as: SystemdDependency,
    pub target_as: SystemdDependency,
    pub on_drbd_demote_failure: SystemdFailureAction,
    pub sleep_before_promote_factor: u32,
    pub preferred_nodes: Seq<Seq<char>>,
    pub secondary_force: bool,
    pub on_quorum_loss: QuorumLossPolicy,
}

/// The per-resource policy inputs of the promoter.
#[derive(Debug)]
pub struct PromoterOptResource {
    pub start: Vec<String>,
    pub stop: Vec<String>,
    pub on_stop_failure: String,
    pub stop_services_on_exit: bool,
    pub runner: Runner,
    pub dependencies_as: SystemdDependency,
    pub target_as: SystemdDependency,
    pub on_drbd_demote_failure: SystemdFailureAction,
    pub sleep_before_promote_factor: u32,
    pub preferred_nodes: Vec<String>,
    pub secondary_force: bool,
    pub on_quorum_loss: QuorumLossPolicy,
}

impl View for PromoterOptResource {
    type V = PromoterOptResourceView;

    open spec fn view(&self) -> PromoterOptResourceView {
        PromoterOptResourceView {
            start: self.start.deep_view(),
            stop: self.stop.deep_view(),
            on_stop_failure: self.on_stop_failure@,
            stop_services_on_exit: self.stop_services_on_exit,
            runner: self.runner,
            dependencies_as: self.dependencies_as,
            target_as: self.target_as,
            on_drbd_demote_failure: self.on_drbd_demote_failure,
            sleep_before_promote_factor: self.sleep_before_promote_factor,
            preferred_nodes: self.preferred_nodes.deep_view(),
            secondary_force: self.secondary_force,
            on_quorum_loss: self.on_quorum_loss,
        }
    }
}

impl DeepView for PromoterOptResource {
    type V = PromoterOptResourceView;

    open spec fn deep_view(&self) -> PromoterOptResourceView {
        self@
    }
}

pub open spec fn promoter_opt_resource_default() -> PromoterOptResourceView {
    PromoterOptResourceView {
        start: Seq::empty(),
        stop: Seq::empty(),
        on_stop_failure: Seq::empty(),
        stop_services_on_exit: false,
        runner: Runner::Systemd,
        dependencies_as: SystemdDependency::Requires,
        target_as: SystemdDependency::Requires,
        on_drbd_demote_failure: SystemdFailureAction::NoAction,
        sleep_before_promote_factor: 1,
        preferred_nodes: Seq::empty(),
        secondary_force: true,
        on_quorum_loss: QuorumLossPolicy::Shutdown,
    }
}

impl Default for PromoterOptResource {
    /// The documented defaults: factor one, forced demotion on, shutdown on
    /// quorum loss, `Requires` dependencies, the systemd runner.
    fn default() -> (r: Self)
        ensures
            r@ == promoter_opt_resource_default(),
    {
        let d = PromoterOptResource {
            start: Vec::new(),
            stop: Vec::new(),
            on_stop_failure: String::new(),
            stop_services_on_exit: false,
            runner: Runner::Systemd,
            dependencies_as: SystemdDependency::Requires,
            target_as: SystemdDependency::Requires,
            on_drbd_demote_failure: SystemdFailureAction::NoAction,
            sleep_before_promote_factor: 1,
            preferred_nodes: Vec::new(),
            secondary_force: true,
            on_quorum_loss: QuorumLossPolicy::Shutdown,
        };
        proof {
            assert(d.start.deep_view() =~= Seq::<Seq<char>>::empty());
            assert(d.stop.deep_view() =~= Seq::<Seq<char>>::empty());
            assert(d.preferred_nodes.deep_view() =~= Seq::<Seq<char>>::empty());
            assert(d@ =~= promoter_opt_resource_default());
        }
        d
    }
}

impl Clone for PromoterOptResource {
    fn clone(&self) -> (r: Self)
        ensures
            r@ == self@,
    {
        let r = PromoterOptResource {
            start: clone_string_vec(&self.start),
            stop: clone_string_vec(&self.stop),
            on_stop_failure: self.on_stop_failure.clone(),
            stop_services_on_exit: self.stop_services_on_exit,
            runner: self.runner,
            dependencies_as: self.dependencies_as,
            target_as: self.target_as,
            on_drbd_demote_failure: self.on_drbd_demote_failure,
            sleep_before_promote_factor: self.sleep_before_promote_factor,
            preferred_nodes: clone_string_vec(&self.preferred_nodes),
            secondary_force: self.secondary_force,
            on_quorum_loss: self.on_quorum_loss,
        };
        proof {
            assert(r@ =~= self@);
        }
        r
    }
}

impl PartialEq for PromoterOptResource {
    fn eq(&self, other: &Self) -> (r: bool) {
        let r = string_vecs_eq(&self.start, &other.start) && string_vecs_eq(
            &self.stop,
            &other.stop,
        ) && string_eq(&self.on_stop_failure, &other.on_stop_failure)
            && self.stop_services_on_exit == other.stop_services_on_exit && self.runner
            == other.runner && self.dependencies_as == other.dependencies_as && self.target_as
            == other.target_as && self.on_drbd_demote_failure == other.on_drbd_demote_failure
            && self.sleep_before_promote_factor == other.sleep_before_promote_factor
            && string_vecs_eq(&self.preferred_nodes, &other.preferred_nodes)
            && self.secondary_force == other.secondary_force && self.on_quorum_loss
            == other.on_quorum_loss;
        proof {
            if r {
                assert(self@ =~= other@);
            }
        }
        r
    }
}

impl Eq for PromoterOptResource {

}

impl vstd::std_specs::cmp::PartialEqSpecImpl for PromoterOptResource {
    open spec fn obeys_eq_spec() -> bool {
        true
    }

    open spec fn eq_spec(&self, other: &Self) -> bool {
        self@ == other@
    }
}

/// Mathematical value of a [`PromoterConfig`].
#[verifier::ext_equal]
pub struct PromoterConfigView {
    pub resources: Seq<(Seq<char>, PromoterOptResourceView)>,
    pub id: Option<Seq<char>>,
}

/// The promoter's configuration: one policy per watched resource, keyed by
/// the unique resource name.
#[derive(Debug)]
pub struct PromoterConfig {
    pub resources: Vec<(String, PromoterOptResource)>,
    pub id: Option<String>,
}

impl View for PromoterConfig {
    type V = PromoterConfigView;

    open spec fn view(&self) -> PromoterConfigView {
        PromoterConfigView {
            resources: self.resources.deep_view(),
            id: match self.id {
                Some(ref s) => Some(s@),
                None => None,
            },
        }
    }
}

impl DeepView for PromoterConfig {
    type V = PromoterConfigView;

    open spec fn deep_view(&self) -> PromoterConfigView {
        self@
    }
}

impl Default for PromoterConfig {
    fn default() -> (r: Self)
        ensures
            r@.resources.len() == 0 && r@.id is None,
    {
        let d = PromoterConfig { resources: Vec::new(), id: None };
        proof {
            assert(d.resources.deep_view() =~= Seq::<(Seq<char>, PromoterOptResourceView)>::empty());
        }
        d
    }
}

impl Clone for PromoterConfig {
    fn clone(&self) -> (r: Self)
        ensures
            r@ == self@,
    {
        let mut resources: Vec<(String, PromoterOptResource)> = Vec::new();
        let mut i: usize = 0;
        while i < self.resources.len()
            invariant
                0 <= i <= self.resources@.len(),
                resources@.len() == i,
                forall|j: int| 0 <= j < i ==> #[trigger] resources@[j].deep_view()
                    == self.resources@[j].deep_view(),
            decreases self.resources@.len() - i,
        {
            let entry = &self.resources[i];
            let c = (entry.0.clone(), entry.1.clone());
            proof {
                assert(c.deep_view() == self.resources@[i as int].deep_view());
            }
            resources.push(c);
            i = i + 1;
        }
        let id = match &self.id {
            Some(s) => Some(s.clone()),
            None => None,
        };
        let r = PromoterConfig { resources, id };
        proof {
            assert(r.resources.deep_view() =~= self.resources.deep_view());
            assert(r@ =~= self@);
        }
        r
    }
}

impl PartialEq for PromoterConfig {
    fn eq(&self, other: &Self) -> (r: bool) {
        if self.resources.len() != other.resources.len() {
            assert(self@.resources.len() != other@.resources.len());
            return false;
        }
        let mut i: usize = 0;
        while i < self.resources.len()
            invariant
                self.resources@.len() == other.resources@.len(),
                0 <= i <= self.resources@.len(),
                forall|j: int| 0 <= j < i ==> self.resources.deep_view()[j]
                    == other.resources.deep_view()[j],
            decreases self.resources@.len() - i,
        {
            let a = &self.resources[i];
            let b = &other.resources[i];
            if !(string_eq(&a.0, &b.0) && a.1 == b.1) {
                assert(self.resources.deep_view()[i as int] != other.resources.deep_view()[
                    i as int]);
                return false;
            }
            i = i + 1;
        }
        let r = match (&self.id, &other.id) {
            (Some(a), Some(b)) => string_eq(a, b),
            (None, None) => true,
            _ => false,
        };
        proof {
            if r {
                assert(self.resources.deep_view() =~= other.resources.deep_view());
                assert(self@ =~= other@);
            }
        }
        r
    }
}

impl Eq for PromoterConfig {

}

impl vstd::std_specs::cmp::PartialEqSpecImpl for PromoterConfig {
    open spec fn obeys_eq_spec() -> bool {
        true
    }

    open spec fn eq_spec(&self, other: &Self) -> bool {
        self@ == other@
    }
}

/// The promoter plugin: its configuration, held for the worker that runs
/// the per-event state machine.
#[derive(Debug)]
pub struct Promoter {
    pub cfg: PromoterConfig,
}

impl Promoter {
    /// Wraps a configuration; the startup actions against the host (waiting
    /// for backing devices, adjusting resources, checking options, writing
    /// unit files) are driven by the caller from the generated plans.
    pub fn new(cfg: PromoterConfig) -> (r: Self)
        ensures
            r.cfg@ == cfg@,
    {
        Promoter { cfg }
    }

    /// A deep copy of the configuration that identifies this plugin.
    pub fn get_config(&self) -> (r: PromoterConfig)
        ensures
            r@ == self.cfg@,
    {
        self.cfg.clone()
    }
}

/// The stop list of a resource: the configured one, or the reversed start
/// list when none is configured.
pub fn effective_stop(res: &PromoterOptResource) -> (r: Vec<String>)
    ensures
        r.deep_view() == if res@.stop.len() > 0 {
            res@.stop
        } else {
            res@.start.reverse()
        },
{
    if res.stop.len() > 0 {
        clone_string_vec(&res.stop)
    } else {
        let mut r: Vec<String> = Vec::new();
        let mut i: usize = res.start.len();
        while i > 0
            invariant
                0 <= i <= res.start@.len(),
                r@.len() == res.start@.len() - i,
                forall|j: int| 0 <= j < r@.len() ==> #[trigger] r@[j]@ == res.start@[res.start@.len()
                    - 1 - j]@,
            decreases i,
        {
            i = i - 1;
            let c = res.start[i].clone();
            assert(c@ == res.start@[i as int]@);
            r.push(c);
        }
        proof {
            assert(r.deep_view() =~= res.start.deep_view().reverse());
        }
        r
    }
}

} // verus!

verus! {

use crate::drbd::PluginUpdate;

/// How long a disk state makes the node hesitate before promoting, in
/// seconds: the fresher the data, the shorter the wait.
pub open spec fn disk_sleep_rank(d: DiskState) -> nat {
    match d {
        DiskState::UpToDate => 0,
        DiskState::Consistent => 1,
        DiskState::Outdated => 2,
        DiskState::Inconsistent => 3,
        _ => 6,
    }
}

fn disk_sleep_rank_of(d: DiskState) -> (r: u64)
    ensures
        r == disk_sleep_rank(d),
{
    match d {
        DiskState::UpToDate => 0,
        DiskState::Consistent => 1,
        DiskState::Outdated => 2,
        DiskState::Inconsistent => 3,
        _ => 6,
    }
}

/// The worst sleep rank over a device list.
pub open spec fn max_disk_rank(devs: Seq<DeviceView>) -> nat
    decreases devs.len(),
{
    if devs.len() == 0 {
        0
    } else {
        let rest = max_disk_rank(devs.drop_last());
        let d = disk_sleep_rank(devs.last().disk_state);
        if d > rest {
            d
        } else {
            rest
        }
    }
}

/// The first index at which a name stands in a node list.
pub open spec fn str_index_in(names: Seq<Seq<char>>, name: Seq<char>) -> Option<int>
    decreases names.len(),
{
    if names.len() == 0 {
        None
    } else if names[0] == name {
        Some(0)
    } else {
        match str_index_in(names.drop_first(), name) {
            Some(i) => Some(i + 1),
            None => None,
        }
    }
}

pub proof fn lemma_str_index_in(names: Seq<Seq<char>>, name: Seq<char>)
    ensures
        match str_index_in(names, name) {
            Some(i) => 0 <= i < names.len() && names[i] == name && forall|j: int|
                0 <= j < i ==> names[j] != name,
            None => forall|j: int| 0 <= j < names.len() ==> names[j] != name,
        },
    decreases names.len(),
{
    if names.len() > 0 && names[0] != name {
        let rest = names.drop_first();
        lemma_str_index_in(rest, name);
        assert(forall|j: int| 0 <= j < rest.len() ==> rest[j] == names[j + 1]);
        match str_index_in(rest, name) {
            Some(i) => {
                assert(forall|j: int| 1 <= j < i + 1 ==> names[j] == rest[j - 1] && rest[j - 1]
                    != name);
                assert(forall|j: int| 0 <= j < i + 1 ==> names[j] != name);
            },
            None => {
                assert(forall|j: int| 1 <= j < names.len() ==> names[j] == rest[j - 1] && rest[j
                    - 1] != name);
                assert(forall|j: int| 0 <= j < names.len() ==> names[j] != name);
            },
        }
    }
}

/// What the local node's place in the preferred list adds, in seconds: its
/// position when listed, the list length when not, nothing when the node
/// name is unknown.
pub open spec fn node_position_add(nodes: Seq<Seq<char>>, node: Option<Seq<char>>) -> nat {
    match node {
        None => 0,
        Some(n) => match str_index_in(nodes, n) {
            Some(p) => p as nat,
            None => nodes.len(),
        },
    }
}

/// The promotion delay in seconds: the worst local disk rank (or a caller-
/// supplied rank when no devices are known), plus the preferred-node
/// position, plus two more for a frozen Secondary.
pub open spec fn promote_sleep_s(
    devs: Seq<DeviceView>,
    empty_rank: nat,
    nodes: Seq<Seq<char>>,
    node: Option<Seq<char>>,
    policy: QuorumLossPolicy,
    role: Role,
) -> nat {
    (if devs.len() == 0 {
        empty_rank
    } else {
        max_disk_rank(devs)
    }) + node_position_add(nodes, node) + (if policy == QuorumLossPolicy::Freeze && role
        == Role::Secondary {
        2nat
    } else {
        0nat
    })
}

/// Saturation to the 64-bit range.
pub open spec fn sat_u64(n: nat) -> u64 {
    if n > u64::MAX {
        u64::MAX
    } else {
        n as u64
    }
}

/// The promotion delay in milliseconds: the seconds scaled by 1000 and by
/// the configured factor, saturated to 64 bits.
pub open spec fn promote_sleep_ms(
    devs: Seq<DeviceView>,
    empty_rank: nat,
    nodes: Seq<Seq<char>>,
    node: Option<Seq<char>>,
    policy: QuorumLossPolicy,
    role: Role,
    factor: u32,
) -> u64 {
    sat_u64(promote_sleep_s(devs, empty_rank, nodes, node, policy, role) * 1000 * (factor as nat))
}

/// Computes the pre-promotion delay for one resource: best-quality,
/// most-preferred nodes race to promote first; stale or non-preferred nodes
/// deliberately lag so the better candidate wins. `empty_rank` stands in for
/// the worst rank when the resource carries no devices, and `node_name` is
/// the local host name when known.
pub fn get_sleep_before_promote_ms(
    resource: &Resource,
    preferred_nodes: &Vec<String>,
    on_quorum_loss: &QuorumLossPolicy,
    factor: u32,
    node_name: Option<&String>,
    empty_rank: u64,
) -> (r: u64)
    requires
        empty_rank <= 6,
        preferred_nodes@.len() + 8 <= u64::MAX,
    ensures
        r == promote_sleep_ms(
            resource@.devices,
            empty_rank as nat,
            preferred_nodes.deep_view(),
            match node_name {
                Some(n) => Some(n@),
                None => None,
            },
            *on_quorum_loss,
            resource@.role,
            factor,
        ),
{
    let ghost devs = resource@.devices;
    let mut worst: u64 = 0;
    let mut i: usize = 0;
    while i < resource.devices.len()
        invariant
            devs == resource@.devices,
            0 <= i <= devs.len(),
            worst == max_disk_rank(devs.take(i as int)),
            worst <= 6,
        decreases devs.len() - i,
    {
        let d = disk_sleep_rank_of(resource.devices[i].disk_state);
        proof {
            assert(devs.take(i + 1).drop_last() =~= devs.take(i as int));
            assert(devs.take(i + 1).last() == devs[i as int]);
        }
        if d > worst {
            worst = d;
        }
        i = i + 1;
    }
    proof {
        assert(devs.take(devs.len() as int) =~= devs);
    }
    let base: u64 = if resource.devices.len() == 0 {
        empty_rank
    } else {
        worst
    };
    let pos_add: u64 = match node_name {
        Some(n) => {
            proof {
                lemma_str_index_in(preferred_nodes.deep_view(), n@);
                assert(forall|j: int| 0 <= j < preferred_nodes.deep_view().len()
                    ==> #[trigger] preferred_nodes.deep_view()[j] == preferred_nodes@[j]@);
            }
            match position_of(preferred_nodes, n.as_str()) {
                Some(p) => {
                    proof {
                        assert(preferred_nodes.deep_view()[p as int] == n@);
                        let si = str_index_in(preferred_nodes.deep_view(), n@);
                        assert(si is Some);
                        assert(si.unwrap() == p as int);
                    }
                    p as u64
                },
                None => {
                    proof {
                        if str_index_in(preferred_nodes.deep_view(), n@) is Some {
                            let ii = str_index_in(preferred_nodes.deep_view(), n@).unwrap();
                            assert(preferred_nodes.deep_view()[ii] == n@);
                        }
                    }
                    preferred_nodes.len() as u64
                },
            }
        },
        None => 0,
    };
    let freeze_add: u64 = if *on_quorum_loss == QuorumLossPolicy::Freeze && resource.role
        == Role::Secondary {
        2
    } else {
        0
    };
    let s: u64 = base + pos_add + freeze_add;
    let ghost s_nat = promote_sleep_s(
        devs,
        empty_rank as nat,
        preferred_nodes.deep_view(),
        match node_name {
            Some(n) => Some(n@),
            None => None,
        },
        *on_quorum_loss,
        resource@.role,
    );
    proof {
        assert(s == s_nat);
    }
    let ms: u64 = match s.checked_mul(1000) {
        Some(v) => v,
        None => u64::MAX,
    };
    let total: u64 = match ms.checked_mul(factor as u64) {
        Some(v) => v,
        None => u64::MAX,
    };
    proof {
        let f = factor as nat;
        if s_nat * 1000 <= u64::MAX {
            assert(ms == s_nat * 1000);
            if ms * f <= u64::MAX {
                assert(total == sat_u64(s_nat * 1000 * f));
            } else {
                assert(s_nat * 1000 * f > u64::MAX);
                assert(total == sat_u64(s_nat * 1000 * f));
            }
        } else {
            assert(ms == u64::MAX);
            if f == 0 {
                assert(s_nat * 1000 * f == 0) by (nonlinear_arith)
                    requires f == 0;
                assert(total == 0);
                assert(total == sat_u64(s_nat * 1000 * f));
            } else {
                assert(s_nat * 1000 * f >= s_nat * 1000 * 1) by (nonlinear_arith)
                    requires f >= 1;
                assert(ms as nat * f >= ms as nat * 1) by (nonlinear_arith)
                    requires f >= 1;
                assert(total == u64::MAX);
                assert(total == sat_u64(s_nat * 1000 * f));
            }
        }
    }
    total
}

/// Scaling and saturation keep the order of delays: a resource whose raw
/// delay in seconds is no larger never waits longer in milliseconds.
pub proof fn lemma_promote_delay_monotone(s1: nat, s2: nat, factor: u32)
    requires
        s1 <= s2,
    ensures
        sat_u64(s1 * 1000 * (factor as nat)) <= sat_u64(s2 * 1000 * (factor as nat)),
{
    let f = factor as nat;
    assert(s1 * 1000 <= s2 * 1000) by (nonlinear_arith)
        requires s1 <= s2;
    assert(s1 * 1000 * f <= s2 * 1000 * f) by (nonlinear_arith)
        requires s1 * 1000 <= s2 * 1000;
}

/// The worse-ranked of two resources that differ only in disk-state ranking
/// waits at least as long before promoting.
pub proof fn lemma_delay_disk_monotone(
    devs1: Seq<DeviceView>,
    devs2: Seq<DeviceView>,
    empty_rank: nat,
    nodes: Seq<Seq<char>>,
    node: Option<Seq<char>>,
    policy: QuorumLossPolicy,
    role: Role,
    factor: u32,
)
    requires
        devs1.len() > 0,
        devs2.len() > 0,
        max_disk_rank(devs1) <= max_disk_rank(devs2),
    ensures
        promote_sleep_ms(devs1, empty_rank, nodes, node, policy, role, factor)
            <= promote_sleep_ms(devs2, empty_rank, nodes, node, policy, role, factor),
{
    lemma_promote_delay_monotone(
        promote_sleep_s(devs1, empty_rank, nodes, node, policy, role),
        promote_sleep_s(devs2, empty_rank, nodes, node, policy, role),
        factor,
    );
}

/// A node standing later in the preferred list (or not at all) waits at
/// least as long as one standing earlier.
pub proof fn lemma_delay_position_monotone(
    devs: Seq<DeviceView>,
    empty_rank: nat,
    nodes: Seq<Seq<char>>,
    node1: Option<Seq<char>>,
    node2: Option<Seq<char>>,
    policy: QuorumLossPolicy,
    role: Role,
    factor: u32,
)
    requires
        node_position_add(nodes, node1) <= node_position_add(nodes, node2),
    ensures
        promote_sleep_ms(devs, empty_rank, nodes, node1, policy, role, factor)
            <= promote_sleep_ms(devs, empty_rank, nodes, node2, policy, role, factor),
{
    lemma_promote_delay_monotone(
        promote_sleep_s(devs, empty_rank, nodes, node1, policy, role),
        promote_sleep_s(devs, empty_rank, nodes, node2, policy, role),
        factor,
    );
}

/// Under the freeze policy a Secondary waits exactly two more seconds,
/// scaled by the factor, than it would under any other policy and role —
/// as long as the scaled delay fits in 64 bits.
pub proof fn lemma_freeze_secondary_delay(
    devs: Seq<DeviceView>,
    empty_rank: nat,
    nodes: Seq<Seq<char>>,
    node: Option<Seq<char>>,
    policy2: QuorumLossPolicy,
    role2: Role,
    factor: u32,
)
    requires
        !(policy2 == QuorumLossPolicy::Freeze && role2 == Role::Secondary),
        promote_sleep_s(devs, empty_rank, nodes, node, QuorumLossPolicy::Freeze, Role::Secondary)
            * 1000 * (factor as nat) <= u64::MAX,
    ensures
        promote_sleep_ms(
            devs,
            empty_rank,
            nodes,
            node,
            QuorumLossPolicy::Freeze,
            Role::Secondary,
            factor,
        ) == promote_sleep_ms(devs, empty_rank, nodes, node, policy2, role2, factor) + 2000 * (
        factor as nat),
{
    let s2 = promote_sleep_s(devs, empty_rank, nodes, node, policy2, role2);
    let sf = promote_sleep_s(
        devs,
        empty_rank,
        nodes,
        node,
        QuorumLossPolicy::Freeze,
        Role::Secondary,
    );
    assert(sf == s2 + 2);
    let f = factor as nat;
    assert((s2 + 2) * 1000 * f == s2 * 1000 * f + 2000 * f) by (nonlinear_arith);
    assert(s2 * 1000 * f <= sf * 1000 * f) by (nonlinear_arith)
        requires s2 <= sf;
}

} // verus!

verus! {

use crate::drbd::{
    connection_at, has_connection, has_peerdevice, peerdevice_at, rv_wf, ResourceView,
};

/// What the promoter does in reaction to one change update.
#[derive(Clone, Copy, PartialEq, Eq, Structural, Debug)]
pub enum PromoterAction {
    /// Nothing to do for this update.
    Nothing,
    /// Sleep the given delay, then try to start the stack; on failure, stop
    /// it.
    Start { sleep_ms: u64 },
    /// Stop the stack.
    Stop,
    /// Freeze every non-mount unit of the stack.
    FreezeStack,
    /// Thaw the stack.
    ThawStack,
}

/// The decision the promoter takes for one update of a configured resource:
/// a fresh permission to promote starts the stack after the computed delay
/// (unless the last start was too recent); a forced demotion under the
/// freeze policy stops it; quorum loss stops or freezes it by policy;
/// quorum gain thaws a frozen Primary; and a peer that lies earlier in the
/// preferred list turning up to date yields the stack to it.
pub open spec fn spec_promoter_decision(
    up: PluginUpdate,
    res: PromoterOptResourceView,
    node: Option<Seq<char>>,
    empty_rank: nat,
    elapsed_ms: u64,
) -> PromoterAction {
    match up {
        PluginUpdate::Resource(u) => {
            if !u.old.may_promote && u.new.may_promote {
                let sleep_ms = promote_sleep_ms(
                    u.resource@.devices,
                    empty_rank,
                    res.preferred_nodes,
                    node,
                    res.on_quorum_loss,
                    u.resource@.role,
                    res.sleep_before_promote_factor,
                );
                let hold_ms: u64 = if sleep_ms >= 20000 {
                    0
                } else {
                    (20000 - sleep_ms) as u64
                };
                if elapsed_ms < hold_ms {
                    PromoterAction::Nothing
                } else {
                    PromoterAction::Start { sleep_ms }
                }
            } else if u.old.role == Role::Primary && u.new.role == Role::Secondary
                && res.on_quorum_loss == QuorumLossPolicy::Freeze {
                PromoterAction::Stop
            } else {
                PromoterAction::Nothing
            }
        },
        PluginUpdate::Device(u) => {
            if u.old.quorum && !u.new.quorum {
                if res.on_quorum_loss == QuorumLossPolicy::Freeze {
                    PromoterAction::FreezeStack
                } else {
                    PromoterAction::Stop
                }
            } else if !u.old.quorum && u.new.quorum && res.on_quorum_loss
                == QuorumLossPolicy::Freeze && u.resource@.role == Role::Primary {
                PromoterAction::ThawStack
            } else {
                PromoterAction::Nothing
            }
        },
        PluginUpdate::PeerDevice(u) => {
            if res.preferred_nodes.len() == 0 {
                PromoterAction::Nothing
            } else if !(u.old.peer_disk_state != DiskState::UpToDate && u.new.peer_disk_state
                == DiskState::UpToDate) {
                PromoterAction::Nothing
            } else if u.resource@.role != Role::Primary {
                PromoterAction::Nothing
            } else if has_connection(u.resource@.connections, u.peer_node_id as int)
                && has_peerdevice(
                connection_at(u.resource@.connections, u.peer_node_id as int).peerdevices,
                u.volume as int,
            ) {
                let peer_name = peerdevice_at(
                    connection_at(u.resource@.connections, u.peer_node_id as int).peerdevices,
                    u.volume as int,
                ).conn_name;
                match str_index_in(res.preferred_nodes, peer_name) {
                    None => PromoterAction::Nothing,
                    Some(peer_pos) => match node {
                        None => PromoterAction::Nothing,
                        Some(n) => {
                            let node_pos = match str_index_in(res.preferred_nodes, n) {
                                Some(p) => p,
                                None => res.preferred_nodes.len() as int,
                            };
                            if peer_pos < node_pos {
                                PromoterAction::Stop
                            } else {
                                PromoterAction::Nothing
                            }
                        },
                    },
                }
            } else {
                PromoterAction::Nothing
            }
        },
        _ => PromoterAction::Nothing,
    }
}

/// Decides what to do for one change update of a configured resource.
/// `node_name` is the local host name when known, `empty_rank` the
/// stand-in disk rank for a resource without devices, and `elapsed_ms` the
/// time since the stack was last started, for the twenty-second hold-down.
pub fn process_drbd_event(
    up: &PluginUpdate,
    res: &PromoterOptResource,
    node_name: Option<&String>,
    empty_rank: u64,
    elapsed_ms: u64,
) -> (r: PromoterAction)
    requires
        up.wf(),
        empty_rank <= 6,
        res.preferred_nodes@.len() + 8 <= u64::MAX,
    ensures
        r == spec_promoter_decision(
            *up,
            res@,
            match node_name {
                Some(n) => Some(n@),
                None => None,
            },
            empty_rank as nat,
            elapsed_ms,
        ),
{
    let ghost node = match node_name {
        Some(n) => Some(n@),
        None => None,
    };
    match up {
        PluginUpdate::Resource(u) => {
            if !u.old.may_promote && u.new.may_promote {
                let sleep_ms = get_sleep_before_promote_ms(
                    &u.resource,
                    &res.preferred_nodes,
                    &res.on_quorum_loss,
                    res.sleep_before_promote_factor,
                    node_name,
                    empty_rank,
                );
                let hold_ms: u64 = if sleep_ms >= 20000 {
                    0
                } else {
                    20000 - sleep_ms
                };
                if elapsed_ms < hold_ms {
                    PromoterAction::Nothing
                } else {
                    PromoterAction::Start { sleep_ms }
                }
            } else if u.old.role == Role::Primary && u.new.role == Role::Secondary
                && res.on_quorum_loss == QuorumLossPolicy::Freeze {
                PromoterAction::Stop
            } else {
                PromoterAction::Nothing
            }
        },
        PluginUpdate::Device(u) => {
            if u.old.quorum && !u.new.quorum {
                if res.on_quorum_loss == QuorumLossPolicy::Freeze {
                    PromoterAction::FreezeStack
                } else {
                    PromoterAction::Stop
                }
            } else if !u.old.quorum && u.new.quorum && res.on_quorum_loss
                == QuorumLossPolicy::Freeze && u.resource.role == Role::Primary {
                PromoterAction::ThawStack
            } else {
                PromoterAction::Nothing
            }
        },
        PluginUpdate::PeerDevice(u) => {
            if res.preferred_nodes.len() == 0 {
                return PromoterAction::Nothing;
            }
            if !(u.old.peer_disk_state != DiskState::UpToDate && u.new.peer_disk_state
                == DiskState::UpToDate) {
                return PromoterAction::Nothing;
            }
            if !(u.resource.role == Role::Primary) {
                return PromoterAction::Nothing;
            }
            let peer_name = match u.resource.get_peerdevice(u.peer_node_id, u.volume) {
                Some(pd) => pd.conn_name.clone(),
                None => {
                    return PromoterAction::Nothing;
                },
            };
            proof {
                lemma_str_index_in(res.preferred_nodes.deep_view(), peer_name@);
                assert(forall|j: int| 0 <= j < res.preferred_nodes.deep_view().len()
                    ==> #[trigger] res.preferred_nodes.deep_view()[j] == res.preferred_nodes@[j]@);
            }
            let peer_pos = match position_of(&res.preferred_nodes, peer_name.as_str()) {
                Some(p) => {
                    proof {
                        assert(res.preferred_nodes.deep_view()[p as int] == peer_name@);
                        let si = str_index_in(res.preferred_nodes.deep_view(), peer_name@);
                        assert(si is Some);
                        assert(si.unwrap() == p as int);
                    }
                    p
                },
                None => {
                    proof {
                        if str_index_in(res.preferred_nodes.deep_view(), peer_name@) is Some {
                            let ii = str_index_in(
                                res.preferred_nodes.deep_view(),
                                peer_name@,
                            ).unwrap();
                            assert(res.preferred_nodes.deep_view()[ii] == peer_name@);
                        }
                    }
                    return PromoterAction::Nothing;
                },
            };
            let n = match node_name {
                Some(n) => n,
                None => {
                    return PromoterAction::Nothing;
                },
            };
            proof {
                lemma_str_index_in(res.preferred_nodes.deep_view(), n@);
            }
            let node_pos = match position_of(&res.preferred_nodes, n.as_str()) {
                Some(p) => {
                    proof {
                        assert(res.preferred_nodes.deep_view()[p as int] == n@);
                        let si = str_index_in(res.preferred_nodes.deep_view(), n@);
                        assert(si is Some);
                        assert(si.unwrap() == p as int);
                    }
                    p
                },
                None => {
                    proof {
                        if str_index_in(res.preferred_nodes.deep_view(), n@) is Some {
                            let ii = str_index_in(res.preferred_nodes.deep_view(), n@).unwrap();
                            assert(res.preferred_nodes.deep_view()[ii] == n@);
                        }
                    }
                    res.preferred_nodes.len()
                },
            };
            if peer_pos < node_pos {
                PromoterAction::Stop
            } else {
                PromoterAction::Nothing
            }
        },
        PluginUpdate::Connection(_) => PromoterAction::Nothing,
        PluginUpdate::ResourceOnly(_, _) => PromoterAction::Nothing,
    }
}

/// No name stands twice in the set.
pub open spec fn distinct_strs(s: Seq<Seq<char>>) -> bool {
    forall|p: int, q: int| 0 <= p < q < s.len() ==> s[p] != s[q]
}

/// Keeps the set of resources currently allowed to promote: a resource-level
/// update adds or removes its resource by the new `may_promote` flag.
pub fn track_may_promote(set: &mut Vec<String>, up: &PluginUpdate)
    requires
        distinct_strs(old(set).deep_view()),
    ensures
        distinct_strs(final(set).deep_view()),
        ({
            match up {
                PluginUpdate::Resource(u) => {
                    if u.new.may_promote {
                        crate::strutil::seq_contains_str(final(set).deep_view(), u.resource_name@)
                    } else {
                        !crate::strutil::seq_contains_str(final(set).deep_view(), u.resource_name@)
                    }
                },
                _ => final(set)@ == old(set)@,
            }
        }),
{
    match up {
        PluginUpdate::Resource(u) => {
            let pos = position_of(set, u.resource_name.as_str());
            if u.new.may_promote {
                match pos {
                    Some(i) => {
                        proof {
                            assert(set.deep_view()[i as int] == u.resource_name@);
                        }
                    },
                    None => {
                        let ghost before = set.deep_view();
                        set.push(u.resource_name.clone());
                        proof {
                            assert(set.deep_view() =~= before.push(u.resource_name@));
                            assert(set.deep_view()[before.len() as int] == u.resource_name@);
                        }
                    },
                }
            } else {
                match pos {
                    Some(i) => {
                        let ghost before = set.deep_view();
                        proof {
                            assert(before[i as int] == u.resource_name@);
                        }
                        set.remove(i);
                        proof {
                            assert(set.deep_view() =~= before.remove(i as int));
                            assert(forall|j: int| 0 <= j < set.deep_view().len()
                                ==> #[trigger] set.deep_view()[j] == if j < i {
                                before[j]
                            } else {
                                before[j + 1]
                            });
                            assert(forall|j: int| 0 <= j < set.deep_view().len()
                                ==> set.deep_view()[j] != u.resource_name@);
                        }
                    },
                    None => {
                        proof {
                            assert(forall|j: int| 0 <= j < set.deep_view().len()
                                ==> #[trigger] set.deep_view()[j] == set@[j]@);
                        }
                    },
                }
            }
        },
        _ => {
        },
    }
}

} // verus!

verus! {

use crate::strutil::{contains_str, ends_with, find_char, is_space, seq_contains_str, substring, trim, trim_spec};
use crate::systemd::{
    escape_name, escape_name_spec, escaped_ocf_parse_to_env, ocf_env_spec, ocf_service_name_spec,
    shell_split, OcfError,
};

/// How the generated units depend on each other and what happens when
/// demotion fails.
#[derive(Clone, Copy, PartialEq, Eq, Structural, Debug)]
pub struct SystemdSettings {
    pub dependencies_as: SystemdDependency,
    pub target_as: SystemdDependency,
    pub failure_action: SystemdFailureAction,
}

/// The override for the promote unit: promotion via the DRBD helper, a
/// forced demotion on stop when configured, and escalation on failure.
pub open spec fn promote_unit_text(secondary_force: bool, needs_on_failure: bool) -> Seq<char> {
    "[Service]\nExecStart=/lib/drbd/scripts/drbd-service-shim.sh primary %I\nExecCondition=\n"@ + (
    if secondary_force {
        "ExecStop=\nExecStop=/lib/drbd/scripts/drbd-service-shim.sh secondary-secondary-force %I\n"@
    } else {
        Seq::<char>::empty()
    }) + "[Unit]\n"@ + (if needs_on_failure {
        "OnFailure=drbd-demote-or-escalate@%i.service\nOnFailureJobMode=replace-irreversibly\n"@
    } else {
        Seq::<char>::empty()
    })
}

/// Renders the promote-unit override.
pub fn drbd_promote(systemd_settings: &SystemdSettings, secondary_force: bool) -> (r: String)
    ensures
        r@ == promote_unit_text(
            secondary_force,
            systemd_settings.failure_action != SystemdFailureAction::NoAction,
        ),
{
    let mut out = str_to_string(
        "[Service]\nExecStart=/lib/drbd/scripts/drbd-service-shim.sh primary %I\nExecCondition=\n",
    );
    if secondary_force {
        out.append(
            "ExecStop=\nExecStop=/lib/drbd/scripts/drbd-service-shim.sh secondary-secondary-force %I\n",
        );
    }
    out.append("[Unit]\n");
    if !(systemd_settings.failure_action == SystemdFailureAction::NoAction) {
        out.append(
            "OnFailure=drbd-demote-or-escalate@%i.service\nOnFailureJobMode=replace-irreversibly\n",
        );
    }
    proof {
        assert(out@ =~= promote_unit_text(
            secondary_force,
            systemd_settings.failure_action != SystemdFailureAction::NoAction,
        ));
    }
    out
}

/// The override for the escalation unit: the configured failure action,
/// a conflict with the promote unit, and forced demotion when configured.
pub open spec fn escalation_unit_text(action: SystemdFailureAction, secondary_force: bool) -> Seq<
    char,
> {
    "[Unit]\nFailureAction="@ + action.spec_text() + "\nConflicts=drbd-promote@%i.service\n"@ + (
    if secondary_force {
        "\n[Service]\nExecStart=\nExecStart=/lib/drbd/scripts/drbd-service-shim.sh secondary-secondary-force-or-escalate %I\n"@
    } else {
        Seq::<char>::empty()
    })
}

/// Renders the escalation-unit override.
pub fn escalation_unit(action: &SystemdFailureAction, secondary_force: bool) -> (r: String)
    ensures
        r@ == escalation_unit_text(*action, secondary_force),
{
    let mut out = str_to_string("[Unit]\nFailureAction=");
    out.append(action.text());
    out.append("\nConflicts=drbd-promote@%i.service\n");
    if secondary_force {
        out.append(
            "\n[Service]\nExecStart=\nExecStart=/lib/drbd/scripts/drbd-service-shim.sh secondary-secondary-force-or-escalate %I\n",
        );
    }
    proof {
        assert(out@ =~= escalation_unit_text(*action, secondary_force));
    }
    out
}

/// The dependency lines of a generated service unit, one strictness and one
/// ordering line per dependency.
pub open spec fn unit_deps_text(deps: Seq<Seq<char>>, strictness: Seq<char>, i: int) -> Seq<char>
    decreases deps.len() - i,
{
    if i < 0 || i >= deps.len() {
        Seq::empty()
    } else {
        seq!['\n'] + strictness + " = "@ + deps[i] + "\nAfter = "@ + deps[i] + unit_deps_text(
            deps,
            strictness,
            i + 1,
        )
    }
}

/// The environment lines of a generated service unit; the first opens the
/// `[Service]` section.
pub open spec fn unit_env_text(env: Seq<Seq<char>>, i: int) -> Seq<char>
    decreases env.len() - i,
{
    if i < 0 || i >= env.len() {
        Seq::empty()
    } else {
        (if i == 0 {
            "\n\n[Service]\n"@
        } else {
            seq!['\n']
        }) + "Environment= "@ + env[i] + unit_env_text(env, i + 1)
    }
}

/// A generated service unit override: part of the services target, dependent
/// on the promote unit and its predecessor in the stack, with the OCF
/// environment when the service wraps an agent.
pub open spec fn service_unit_text(
    escaped_name: Seq<char>,
    deps: Seq<Seq<char>>,
    strictness: Seq<char>,
    env: Seq<Seq<char>>,
) -> Seq<char> {
    "[Unit]\nDescription=drbd-reactor controlled %N\nPartOf = drbd-services@"@ + escaped_name
        + ".target\n"@ + unit_deps_text(deps, strictness, 0) + unit_env_text(env, 0)
}

/// Renders a generated service unit override.
pub fn systemd_unit(
    escaped_name: &str,
    deps: &Vec<String>,
    systemd_settings: &SystemdSettings,
    env: &Vec<String>,
) -> (r: String)
    ensures
        r@ == service_unit_text(
            escaped_name@,
            deps.deep_view(),
            systemd_settings.dependencies_as.spec_text(),
            env.deep_view(),
        ),
{
    let ghost strictness = systemd_settings.dependencies_as.spec_text();
    let mut out = str_to_string("[Unit]\nDescription=drbd-reactor controlled %N\nPartOf = drbd-services@");
    out.append(escaped_name);
    out.append(".target\n");
    let ghost head = out@;
    let mut i: usize = 0;
    while i < deps.len()
        invariant
            strictness == systemd_settings.dependencies_as.spec_text(),
            0 <= i <= deps@.len(),
            out@ + unit_deps_text(deps.deep_view(), strictness, i as int) == head + unit_deps_text(
                deps.deep_view(),
                strictness,
                0,
            ),
        decreases deps@.len() - i,
    {
        let ghost before = out@;
        out.append("\n");
        out.append(systemd_settings.dependencies_as.text());
        out.append(" = ");
        out.append(deps[i].as_str());
        out.append("\nAfter = ");
        out.append(deps[i].as_str());
        proof {
            reveal_strlit("\n");
            assert(deps.deep_view()[i as int] == deps@[i as int]@);
            assert(out@ =~= before + (seq!['\n'] + strictness + " = "@ + deps.deep_view()[i as int]
                + "\nAfter = "@ + deps.deep_view()[i as int]));
            assert(before + (seq!['\n'] + strictness + " = "@ + deps.deep_view()[i as int]
                + "\nAfter = "@ + deps.deep_view()[i as int]) + unit_deps_text(
                deps.deep_view(),
                strictness,
                i as int + 1,
            ) =~= before + unit_deps_text(deps.deep_view(), strictness, i as int));
        }
        i = i + 1;
    }
    proof {
        assert(out@ + Seq::<char>::empty() =~= out@);
    }
    let ghost mid = out@;
    let mut j: usize = 0;
    while j < env.len()
        invariant
            0 <= j <= env@.len(),
            out@ + unit_env_text(env.deep_view(), j as int) == mid + unit_env_text(
                env.deep_view(),
                0,
            ),
        decreases env@.len() - j,
    {
        let ghost before = out@;
        if j == 0 {
            out.append("\n\n[Service]\n");
        } else {
            out.append("\n");
        }
        out.append("Environment= ");
        out.append(env[j].as_str());
        proof {
            reveal_strlit("\n");
            assert(env.deep_view()[j as int] == env@[j as int]@);
            assert(out@ =~= before + ((if j == 0 {
                "\n\n[Service]\n"@
            } else {
                seq!['\n']
            }) + "Environment= "@ + env.deep_view()[j as int]));
            assert(before + ((if j == 0 {
                "\n\n[Service]\n"@
            } else {
                seq!['\n']
            }) + "Environment= "@ + env.deep_view()[j as int]) + unit_env_text(
                env.deep_view(),
                j as int + 1,
            ) =~= before + unit_env_text(env.deep_view(), j as int));
        }
        j = j + 1;
    }
    proof {
        assert(out@ + Seq::<char>::empty() =~= out@);
        assert(out@ =~= service_unit_text(
            escaped_name@,
            deps.deep_view(),
            strictness,
            env.deep_view(),
        ));
    }
    out
}

/// The strictness lines of the services target toward every generated
/// service.
pub open spec fn target_requires_text_from(
    required: Seq<Seq<char>>,
    strictness: Seq<char>,
    i: int,
) -> Seq<char>
    decreases required.len() - i,
{
    if i < 0 || i >= required.len() {
        Seq::empty()
    } else {
        seq!['\n'] + strictness + " = "@ + required[i] + target_requires_text_from(
            required,
            strictness,
            i + 1,
        )
    }
}

/// The services-target override: the configured strictness toward each
/// generated service.
pub open spec fn target_requires_text(required: Seq<Seq<char>>, strictness: Seq<char>) -> Seq<
    char,
> {
    "[Unit]"@ + target_requires_text_from(required, strictness, 0)
}

/// Renders the services-target override.
pub fn systemd_target_requires(required: &Vec<String>, systemd_settings: &SystemdSettings) -> (r:
    String)
    ensures
        r@ == target_requires_text(
            required.deep_view(),
            systemd_settings.target_as.spec_text(),
        ),
{
    let ghost strictness = systemd_settings.target_as.spec_text();
    let mut out = str_to_string("[Unit]");
    let ghost head = out@;
    let mut i: usize = 0;
    while i < required.len()
        invariant
            strictness == systemd_settings.target_as.spec_text(),
            0 <= i <= required@.len(),
            out@ + target_requires_text_from(required.deep_view(), strictness, i as int) == head
                + target_requires_text_from(required.deep_view(), strictness, 0),
        decreases required@.len() - i,
    {
        let ghost before = out@;
        out.append("\n");
        out.append(systemd_settings.target_as.text());
        out.append(" = ");
        out.append(required[i].as_str());
        proof {
            reveal_strlit("\n");
            assert(required.deep_view()[i as int] == required@[i as int]@);
            assert(out@ =~= before + (seq!['\n'] + strictness + " = "@ + required.deep_view()[
                i as int]));
            assert(before + (seq!['\n'] + strictness + " = "@ + required.deep_view()[i as int])
                + target_requires_text_from(required.deep_view(), strictness, i as int + 1)
                =~= before + target_requires_text_from(required.deep_view(), strictness, i as int));
        }
        i = i + 1;
    }
    proof {
        assert(out@ + Seq::<char>::empty() =~= out@);
    }
    out
}

} // verus!

verus! {

/// The first whitespace position in `s` at or after `i`.
pub open spec fn first_ws_from(s: Seq<char>, i: int) -> Option<int>
    decreases s.len() - i,
{
    if i < 0 || i >= s.len() {
        None
    } else if is_space(s[i]) {
        Some(i)
    } else {
        first_ws_from(s, i + 1)
    }
}

proof fn lemma_first_ws_from(s: Seq<char>, i: int)
    requires
        0 <= i <= s.len(),
    ensures
        match first_ws_from(s, i) {
            Some(w) => i <= w < s.len() && is_space(s[w]) && forall|j: int|
                i <= j < w ==> !is_space(s[j]),
            None => forall|j: int| i <= j < s.len() ==> !is_space(s[j]),
        },
    decreases s.len() - i,
{
    if i < s.len() && !is_space(s[i]) {
        lemma_first_ws_from(s, i + 1);
    }
}

/// The largest colon position within `lo..=hi` of `s`.
pub open spec fn last_colon_in(s: Seq<char>, lo: int, hi: int) -> Option<int>
    decreases hi - lo + 1,
{
    if hi < lo || hi >= s.len() || lo < 0 {
        None
    } else if s[hi] == ':' {
        Some(hi)
    } else {
        last_colon_in(s, lo, hi - 1)
    }
}

proof fn lemma_last_colon_in(s: Seq<char>, lo: int, hi: int)
    requires
        0 <= lo,
        hi < s.len(),
    ensures
        match last_colon_in(s, lo, hi) {
            Some(c) => lo <= c <= hi && s[c] == ':' && forall|j: int| c < j <= hi ==> s[j] != ':',
            None => forall|j: int| lo <= j <= hi ==> s[j] != ':',
        },
    decreases hi - lo + 1,
{
    if hi >= lo && s[hi] != ':' {
        lemma_last_colon_in(s, lo, hi - 1);
    }
}

/// The end of the whitespace run starting at `i`.
pub open spec fn ws_run_end(s: Seq<char>, i: int) -> int
    decreases s.len() - i,
{
    if 0 <= i < s.len() && is_space(s[i]) {
        ws_run_end(s, i + 1)
    } else {
        i
    }
}

proof fn lemma_ws_run_end(s: Seq<char>, i: int)
    requires
        0 <= i <= s.len(),
    ensures
        i <= ws_run_end(s, i) <= s.len(),
        forall|j: int| i <= j < ws_run_end(s, i) ==> is_space(s[j]),
        ws_run_end(s, i) < s.len() ==> !is_space(s[ws_run_end(s, i)]),
    decreases s.len() - i,
{
    if i < s.len() && is_space(s[i]) {
        lemma_ws_run_end(s, i + 1);
    }
}

/// An OCF descriptor split into vendor, agent and argument string, as the
/// anchored pattern `ocf:(\S+):(\S+)\s+((?s).*)` reads it: the first token
/// must spell `ocf:`, then the vendor up to the last usable colon, then the
/// agent, then at least one whitespace, then the arguments verbatim.
pub open spec fn ocf_parts(s: Seq<char>) -> Option<(Seq<char>, Seq<char>, Seq<char>)> {
    match first_ws_from(s, 0) {
        None => None,
        Some(w) => {
            if w >= 4 && s.take(4) == "ocf:"@ {
                match last_colon_in(s, 5, w - 2) {
                    Some(c) => {
                        let e = ws_run_end(s, w);
                        Some((s.subrange(4, c), s.subrange(c + 1, w), s.skip(e)))
                    },
                    None => None,
                }
            } else {
                None
            }
        },
    }
}

/// Splits an OCF descriptor into vendor, agent and argument string, if the
/// action has that shape.
pub fn parse_ocf_parts(s: &str) -> (r: Option<(String, String, String)>)
    ensures
        r.deep_view() == ocf_parts(s@),
{
    let len = s.unicode_len();
    let mut w: usize = 0;
    while w < len && !crate::strutil::space_char(s.get_char(w))
        invariant
            len == s@.len(),
            0 <= w <= len,
            forall|j: int| 0 <= j < w ==> !is_space(s@[j]),
        decreases len - w,
    {
        w = w + 1;
    }
    proof {
        lemma_first_ws_from(s@, 0);
    }
    if w == len {
        proof {
            if first_ws_from(s@, 0) is Some {
                let ww = first_ws_from(s@, 0).unwrap();
                assert(is_space(s@[ww]));
            }
        }
        return None;
    }
    proof {
        let fw = first_ws_from(s@, 0);
        assert(fw is Some);
        assert(fw.unwrap() == w as int);
    }
    if w < 4 {
        return None;
    }
    let prefix = substring(s, 0, 4);
    if !crate::strutil::str_eq(prefix.as_str(), "ocf:") {
        proof {
            assert(s@.take(4) =~= s@.subrange(0, 4));
        }
        return None;
    }
    proof {
        assert(s@.take(4) =~= s@.subrange(0, 4));
    }
    if w < 7 {
        proof {
            lemma_last_colon_in(s@, 5, w - 2);
            if last_colon_in(s@, 5, w - 2) is Some {
                let cc = last_colon_in(s@, 5, w - 2).unwrap();
                assert(5 <= cc <= w - 2);
            }
        }
        return None;
    }
    let mut c: usize = w - 1;
    let mut found: Option<usize> = None;
    while c >= 5
        invariant
            len == s@.len(),
            7 <= w < len,
            4 <= c <= w - 1,
            match found {
                Some(f) => 5 <= f <= w - 2 && s@[f as int] == ':' && forall|j: int|
                    f < j <= w - 2 ==> s@[j] != ':',
                None => forall|j: int| c < j <= w - 2 ==> s@[j] != ':',
            },
        decreases c,
    {
        if found.is_none() && c <= w - 2 && s.get_char(c) == ':' {
            found = Some(c);
        }
        c = c - 1;
    }
    proof {
        lemma_last_colon_in(s@, 5, w - 2);
    }
    match found {
        Some(f) => {
            proof {
                let lc = last_colon_in(s@, 5, w - 2);
                assert(lc is Some);
                assert(lc.unwrap() == f as int);
            }
            let mut e: usize = w;
            while e < len && crate::strutil::space_char(s.get_char(e))
                invariant
                    len == s@.len(),
                    w <= e <= len,
                    forall|j: int| w <= j < e ==> is_space(s@[j]),
                decreases len - e,
            {
                e = e + 1;
            }
            proof {
                lemma_ws_run_end(s@, w as int);
                assert(ws_run_end(s@, w as int) == e as int) by {
                    let we = ws_run_end(s@, w as int);
                    if we < e {
                        assert(is_space(s@[we]));
                    }
                    if we > e {
                        assert(is_space(s@[e as int]));
                    }
                }
            }
            let vendor = substring(s, 4, f);
            let agent = substring(s, f + 1, w);
            let args = substring(s, e, len);
            proof {
                assert(args@ =~= s@.skip(e as int));
            }
            Some((vendor, agent, args))
        },
        None => {
            proof {
                if last_colon_in(s@, 5, w - 2) is Some {
                    let cc = last_colon_in(s@, 5, w - 2).unwrap();
                    assert(s@[cc] == ':');
                }
            }
            None
        },
    }
}

} // verus!

verus! {

use crate::events::find_ch;
use crate::events::lemma_find_ch;

/// One unit drop-in file to be written under the service manager's runtime
/// directory, by temp-file and rename.
#[derive(Debug)]
pub struct UnitFile {
    pub dir: String,
    pub name: String,
    pub content: String,
}

/// Mathematical value of a [`UnitFile`].
#[verifier::ext_equal]
pub struct UnitFileView {
    pub dir: Seq<char>,
    pub name: Seq<char>,
    pub content: Seq<char>,
}

impl View for UnitFile {
    type V = UnitFileView;

    open spec fn view(&self) -> UnitFileView {
        UnitFileView { dir: self.dir@, name: self.name@, content: self.content@ }
    }
}

impl DeepView for UnitFile {
    type V = UnitFileView;

    open spec fn deep_view(&self) -> UnitFileView {
        self@
    }
}

/// Why unit generation was refused.
#[derive(Clone, Copy, PartialEq, Eq, Structural, Debug)]
pub enum TemplateError {
    /// An OCF descriptor's arguments do not tokenize, or name no agent.
    BadOcfArgs,
    /// A service name contains a slash and could overwrite unintended paths.
    SlashInServiceName,
    /// A service name is used twice in one stack.
    DuplicateServiceName,
}

impl TemplateError {
    /// A short message naming the refusal.
    pub fn text(&self) -> (r: &'static str)
        ensures
            r@ == self.spec_text(),
    {
        match self {
            TemplateError::BadOcfArgs => "could not parse OCF descriptor arguments",
            TemplateError::SlashInServiceName => "service name contains a '/'",
            TemplateError::DuplicateServiceName => "service name already used",
        }
    }

    pub open spec fn spec_text(&self) -> Seq<char> {
        match self {
            TemplateError::BadOcfArgs => "could not parse OCF descriptor arguments"@,
            TemplateError::SlashInServiceName => "service name contains a '/'"@,
            TemplateError::DuplicateServiceName => "service name already used"@,
        }
    }
}

/// The drop-in directory of one unit under the runtime prefix.
pub open spec fn unit_dir_spec(unit: Seq<char>) -> Seq<char> {
    "/run/systemd/system/"@ + unit + ".d"@
}

/// Builds the drop-in directory path of one unit.
pub fn unit_dir(unit: &str) -> (r: String)
    ensures
        r@ == unit_dir_spec(unit@),
{
    let mut out = str_to_string("/run/systemd/system/");
    out.append(unit);
    out.append(".d");
    proof {
        assert(out@ =~= unit_dir_spec(unit@));
    }
    out
}

/// A drop-in's full content: the generation warning, the body, a final
/// newline.
pub open spec fn file_content_spec(body: Seq<char>) -> Seq<char> {
    "# Auto-generated by drbd-reactor, DO NOT EDIT\n"@ + body + "\n"@
}

/// Wraps a drop-in body with the generation warning and final newline.
pub fn file_content(body: &str) -> (r: String)
    ensures
        r@ == file_content_spec(body@),
{
    let mut out = str_to_string("# Auto-generated by drbd-reactor, DO NOT EDIT\n");
    out.append(body);
    out.append("\n");
    proof {
        assert(out@ =~= file_content_spec(body@));
    }
    out
}

/// The promote unit instance of a resource.
pub open spec fn promote_unit_of(escaped: Seq<char>) -> Seq<char> {
    "drbd-promote@"@ + escaped + ".service"@
}

/// What one start entry of the stack becomes: its service name and its
/// environment lines; `None` when its OCF arguments are refused.
pub open spec fn action_name_env(resname: Seq<char>, action: Seq<char>) -> Option<
    (Seq<char>, Seq<Seq<char>>),
> {
    let a = trim_spec(action);
    match ocf_parts(a) {
        Some(parts) => match shell_split(parts.2) {
            None => None,
            Some(words) => if words.len() == 0 {
                None
            } else {
                Some((ocf_service_name_spec(resname, words[0]), ocf_env_spec(words, parts.0, parts.1)))
            },
        },
        None => Some((a, Seq::empty())),
    }
}

/// Whether a service unit is a mount unit.
pub open spec fn is_mount_unit(name: Seq<char>) -> bool {
    name.len() >= 6 && name.skip(name.len() - 6) == ".mount"@
}

/// The files generated for one start entry: a default-dependency override
/// for mount units, then the service override with its dependencies on the
/// promote unit and on the previous entry.
pub open spec fn action_files(
    escaped: Seq<char>,
    sname: Seq<char>,
    env: Seq<Seq<char>>,
    prev: Option<Seq<char>>,
    settings: SystemdSettings,
) -> Seq<UnitFileView> {
    let deps = match prev {
        Some(p) => seq![promote_unit_of(escaped), p],
        None => seq![promote_unit_of(escaped)],
    };
    let unit = UnitFileView {
        dir: unit_dir_spec(sname),
        name: "reactor.conf"@,
        content: file_content_spec(
            service_unit_text(escaped, deps, settings.dependencies_as.spec_text(), env),
        ),
    };
    if is_mount_unit(sname) {
        seq![
            UnitFileView {
                dir: unit_dir_spec(sname),
                name: "reactor-50-mount.conf"@,
                content: file_content_spec("[Unit]\nDefaultDependencies=no"@),
            },
            unit,
        ]
    } else {
        seq![unit]
    }
}

/// Processes the start entries from `i` on: each entry yields its files and
/// appends its service name to the target's requirement list.
pub open spec fn gen_actions(
    resname: Seq<char>,
    escaped: Seq<char>,
    actions: Seq<Seq<char>>,
    i: int,
    required: Seq<Seq<char>>,
    settings: SystemdSettings,
) -> Result<(Seq<UnitFileView>, Seq<Seq<char>>), TemplateError>
    decreases actions.len() - i,
{
    if i < 0 || i >= actions.len() {
        Ok((Seq::empty(), required))
    } else {
        match action_name_env(resname, actions[i]) {
            None => Err(TemplateError::BadOcfArgs),
            Some(ne) => {
                let sname = ne.0;
                if find_ch(sname, '/') is Some {
                    Err(TemplateError::SlashInServiceName)
                } else if seq_contains_str(required, sname) {
                    Err(TemplateError::DuplicateServiceName)
                } else {
                    let prev = if required.len() == 0 {
                        None
                    } else {
                        Some(required.last())
                    };
                    let fs = action_files(escaped, sname, ne.1, prev, settings);
                    match gen_actions(resname, escaped, actions, i + 1, required.push(sname), settings) {
                        Ok(rest) => Ok((fs + rest.0, rest.1)),
                        Err(e) => Err(e),
                    }
                }
            },
        }
    }
}

/// Everything generated for one resource's stack: the promote override, the
/// escalation override when an escalation is configured, the per-entry
/// files, the services-target override, and the shutdown-ordering override.
pub open spec fn gen_templates_spec(
    name: Seq<char>,
    actions: Seq<Seq<char>>,
    settings: SystemdSettings,
    secondary_force: bool,
) -> Result<(Seq<UnitFileView>, Seq<Seq<char>>), TemplateError> {
    let escaped = escape_name_spec(name);
    let head = seq![
        UnitFileView {
            dir: unit_dir_spec(promote_unit_of(escaped)),
            name: "reactor.conf"@,
            content: file_content_spec(
                promote_unit_text(
                    secondary_force,
                    settings.failure_action != SystemdFailureAction::NoAction,
                ),
            ),
        },
    ] + (if settings.failure_action != SystemdFailureAction::NoAction {
        seq![
            UnitFileView {
                dir: unit_dir_spec("drbd-demote-or-escalate@"@ + escaped + ".service"@),
                name: "reactor.conf"@,
                content: file_content_spec(
                    escalation_unit_text(settings.failure_action, secondary_force),
                ),
            },
        ]
    } else {
        Seq::<UnitFileView>::empty()
    });
    match gen_actions(name, escaped, actions, 0, Seq::empty(), settings) {
        Err(e) => Err(e),
        Ok(fr) => Ok(
            (
                head + fr.0 + seq![
                    UnitFileView {
                        dir: unit_dir_spec("drbd-services@"@ + escaped + ".target"@),
                        name: "reactor.conf"@,
                        content: file_content_spec(
                            target_requires_text(fr.1, settings.target_as.spec_text()),
                        ),
                    },
                    UnitFileView {
                        dir: unit_dir_spec("drbd-services@"@ + escaped + ".target"@),
                        name: "reactor-50-before.conf"@,
                        content: file_content_spec("[Unit]\nBefore=drbd-reactor.service"@),
                    },
                ],
                fr.1,
            ),
        ),
    }
}

/// Generates the unit drop-ins that express one resource's service stack,
/// and the list of generated service names in stack order. The caller
/// writes each file atomically and may warn when the top of the stack is a
/// mount unit.
#[verifier::rlimit(100)]
pub fn generate_systemd_templates(
    name: &str,
    actions: &Vec<String>,
    systemd_settings: &SystemdSettings,
    secondary_force: bool,
) -> (r: Result<(Vec<UnitFile>, Vec<String>), TemplateError>)
    ensures
        match r {
            Ok(p) => gen_templates_spec(name@, actions.deep_view(), *systemd_settings, secondary_force)
                == Ok::<_, TemplateError>((p.0.deep_view(), p.1.deep_view())),
            Err(e) => gen_templates_spec(
                name@,
                actions.deep_view(),
                *systemd_settings,
                secondary_force,
            ) == Err::<(Seq<UnitFileView>, Seq<Seq<char>>), _>(e),
        },
{
    let ghost actsv = actions.deep_view();
    let escaped = escape_name(name);
    let mut act_files: Vec<UnitFile> = Vec::new();
    let mut required: Vec<String> = Vec::new();
    let mut i: usize = 0;
    proof {
        assert(required.deep_view() =~= Seq::<Seq<char>>::empty());
        assert(act_files.deep_view() =~= Seq::<UnitFileView>::empty());
    }
    while i < actions.len()
        invariant
            actsv == actions.deep_view(),
            escaped@ == escape_name_spec(name@),
            0 <= i <= actsv.len(),
            gen_actions(name@, escaped@, actsv, 0, Seq::empty(), *systemd_settings) == (match
                gen_actions(name@, escaped@, actsv, i as int, required.deep_view(), *systemd_settings) {
                Ok(rest) => Ok::<_, TemplateError>(
                    (act_files.deep_view() + rest.0, rest.1),
                ),
                Err(e) => Err::<(Seq<UnitFileView>, Seq<Seq<char>>), _>(e),
            }),
        decreases actsv.len() - i,
    {
        let ghost reqv = required.deep_view();
        let ghost filesv = act_files.deep_view();
        let a = trim(actions[i].as_str());
        proof {
            assert(actsv[i as int] == actions@[i as int]@);
        }
        let parsed = parse_ocf_parts(a.as_str());
        let (sname, env): (String, Vec<String>) = match parsed {
            Some(p) => {
                match escaped_ocf_parse_to_env(name, p.0.as_str(), p.1.as_str(), p.2.as_str()) {
                    Ok(se) => se,
                    Err(_) => {
                        proof {
                            assert(action_name_env(name@, actsv[i as int]) is None);
                        }
                        return Err(TemplateError::BadOcfArgs);
                    },
                }
            },
            None => {
                proof {
                    assert(action_name_env(name@, actsv[i as int]) == Some(
                        (trim_spec(actsv[i as int]), Seq::<Seq<char>>::empty()),
                    ));
                }
                (a, Vec::new())
            },
        };
        proof {
            let ane = action_name_env(name@, actsv[i as int]);
            assert(ane is Some && ane.unwrap().0 == sname@ && ane.unwrap().1 == env.deep_view());
        }
        proof {
            lemma_find_ch(sname@, '/');
        }
        match find_char(sname.as_str(), '/') {
            Some(fi) => {
                proof {
                    assert(sname@[fi as int] == '/');
                    if find_ch(sname@, '/') is None {
                        assert(sname@[fi as int] != '/');
                    }
                }
                return Err(TemplateError::SlashInServiceName);
            },
            None => {
                proof {
                    if find_ch(sname@, '/') is Some {
                        let ii = find_ch(sname@, '/').unwrap();
                        assert(sname@[ii] == '/');
                    }
                }
            },
        }
        if contains_str(&required, sname.as_str()) {
            return Err(TemplateError::DuplicateServiceName);
        }
        let mut deps: Vec<String> = Vec::new();
        let mut promote = str_to_string("drbd-promote@");
        promote.append(escaped.as_str());
        promote.append(".service");
        proof {
            assert(promote@ =~= promote_unit_of(escaped@));
        }
        deps.push(promote);
        if required.len() > 0 {
            let prev = required[required.len() - 1].clone();
            proof {
                assert(prev@ == reqv.last());
            }
            deps.push(prev);
        }
        proof {
            if reqv.len() == 0 {
                assert(deps.deep_view() =~= seq![promote_unit_of(escaped@)]);
            } else {
                assert(deps.deep_view() =~= seq![promote_unit_of(escaped@), reqv.last()]);
            }
        }
        proof {
            if sname@.len() >= 6 {
                assert(sname@.subrange(sname@.len() - 6, sname@.len() as int) =~= sname@.skip(
                    sname@.len() - 6,
                ));
            }
        }
        let ghost prevopt = if reqv.len() == 0 {
            Option::<Seq<char>>::None
        } else {
            Some(reqv.last())
        };
        let ghost depsv = deps.deep_view();
        let ghost unitv = UnitFileView {
            dir: unit_dir_spec(sname@),
            name: "reactor.conf"@,
            content: file_content_spec(
                service_unit_text(
                    escaped@,
                    depsv,
                    systemd_settings.dependencies_as.spec_text(),
                    env.deep_view(),
                ),
            ),
        };
        let ghost mountv = UnitFileView {
            dir: unit_dir_spec(sname@),
            name: "reactor-50-mount.conf"@,
            content: file_content_spec("[Unit]\nDefaultDependencies=no"@),
        };
        let is_mount = ends_with(sname.as_str(), ".mount");
        proof {
            reveal_strlit(".mount");
            assert(is_mount == is_mount_unit(sname@));
        }
        if is_mount {
            let body = str_to_string("[Unit]\nDefaultDependencies=no");
            let f = UnitFile {
                dir: unit_dir(sname.as_str()),
                name: str_to_string("reactor-50-mount.conf"),
                content: file_content(body.as_str()),
            };
            proof {
                assert(f@ =~= mountv);
            }
            act_files.push(f);
        }
        let body = systemd_unit(escaped.as_str(), &deps, systemd_settings, &env);
        let f = UnitFile {
            dir: unit_dir(sname.as_str()),
            name: str_to_string("reactor.conf"),
            content: file_content(body.as_str()),
        };
        proof {
            assert(f@ =~= unitv);
        }
        act_files.push(f);
        proof {
            if is_mount {
                assert(act_files.deep_view() =~= filesv + seq![mountv, unitv]);
            } else {
                assert(act_files.deep_view() =~= filesv + seq![unitv]);
            }
            assert(action_files(escaped@, sname@, env.deep_view(), prevopt, *systemd_settings)
                == if is_mount_unit(sname@) {
                seq![mountv, unitv]
            } else {
                seq![unitv]
            });
            assert(act_files.deep_view() == filesv + action_files(
                escaped@,
                sname@,
                env.deep_view(),
                prevopt,
                *systemd_settings,
            ));
        }
        required.push(sname);
        proof {
            assert(required.deep_view() =~= reqv.push(
                action_name_env(name@, actsv[i as int]).unwrap().0,
            ));
        }
        i = i + 1;
        proof {
            let ghost snv = action_name_env(name@, actsv[i - 1]).unwrap().0;
            let ghost envv = action_name_env(name@, actsv[i - 1]).unwrap().1;
            let ghost prevopt = if reqv.len() == 0 {
                Option::<Seq<char>>::None
            } else {
                Some(reqv.last())
            };
            let ghost fs = action_files(escaped@, snv, envv, prevopt, *systemd_settings);
            match gen_actions(name@, escaped@, actsv, i as int, required.deep_view(), *systemd_settings) {
                Ok(rest) => {
                    assert((filesv + fs) + rest.0 =~= filesv + (fs + rest.0));
                },
                Err(_) => {
                },
            }
        }
    }
    let ghost spec_head = seq![
        UnitFileView {
            dir: unit_dir_spec(promote_unit_of(escaped@)),
            name: "reactor.conf"@,
            content: file_content_spec(
                promote_unit_text(
                    secondary_force,
                    systemd_settings.failure_action != SystemdFailureAction::NoAction,
                ),
            ),
        },
    ] + (if systemd_settings.failure_action != SystemdFailureAction::NoAction {
        seq![
            UnitFileView {
                dir: unit_dir_spec("drbd-demote-or-escalate@"@ + escaped@ + ".service"@),
                name: "reactor.conf"@,
                content: file_content_spec(
                    escalation_unit_text(systemd_settings.failure_action, secondary_force),
                ),
            },
        ]
    } else {
        Seq::<UnitFileView>::empty()
    });
    let mut files: Vec<UnitFile> = Vec::new();
    let mut promote_unit = str_to_string("drbd-promote@");
    promote_unit.append(escaped.as_str());
    promote_unit.append(".service");
    proof {
        assert(promote_unit@ =~= promote_unit_of(escaped@));
    }
    let body = drbd_promote(systemd_settings, secondary_force);
    files.push(
        UnitFile {
            dir: unit_dir(promote_unit.as_str()),
            name: str_to_string("reactor.conf"),
            content: file_content(body.as_str()),
        },
    );
    if !(systemd_settings.failure_action == SystemdFailureAction::NoAction) {
        let mut esc_unit = str_to_string("drbd-demote-or-escalate@");
        esc_unit.append(escaped.as_str());
        esc_unit.append(".service");
        proof {
            assert(esc_unit@ =~= "drbd-demote-or-escalate@"@ + escaped@ + ".service"@);
        }
        let body = escalation_unit(&systemd_settings.failure_action, secondary_force);
        files.push(
            UnitFile {
                dir: unit_dir(esc_unit.as_str()),
                name: str_to_string("reactor.conf"),
                content: file_content(body.as_str()),
            },
        );
    }
    proof {
        assert(files.deep_view() =~= spec_head);
    }
    let mut fi: usize = 0;
    let ghost headv = files.deep_view();
    let ghost headlen = files@.len();
    while fi < act_files.len()
        invariant
            0 <= fi <= act_files@.len(),
            files@.len() == headlen + fi,
            headv.len() == headlen,
            forall|j: int| 0 <= j < headlen ==> #[trigger] files@[j]@ == headv[j],
            forall|j: int| headlen <= j < headlen + fi ==> #[trigger] files@[j]@ == act_files@[
                j - headlen]@,
        decreases act_files@.len() - fi,
    {
        let f = &act_files[fi];
        let c = UnitFile { dir: f.dir.clone(), name: f.name.clone(), content: f.content.clone() };
        proof {
            assert(c@ == act_files@[fi as int]@);
        }
        files.push(c);
        fi = fi + 1;
    }
    proof {
        assert(forall|j: int| 0 <= j < act_files@.len() ==> #[trigger] act_files.deep_view()[j]
            == act_files@[j]@);
        assert(forall|j: int| 0 <= j < files@.len() ==> #[trigger] files.deep_view()[j]
            == files@[j]@);
        assert(files.deep_view() =~= headv + act_files.deep_view());
    }
    let mut target_unit = str_to_string("drbd-services@");
    target_unit.append(escaped.as_str());
    target_unit.append(".target");
    proof {
        assert(target_unit@ =~= "drbd-services@"@ + escaped@ + ".target"@);
    }
    let body = systemd_target_requires(&required, systemd_settings);
    files.push(
        UnitFile {
            dir: unit_dir(target_unit.as_str()),
            name: str_to_string("reactor.conf"),
            content: file_content(body.as_str()),
        },
    );
    let before_body = str_to_string("[Unit]\nBefore=drbd-reactor.service");
    files.push(
        UnitFile {
            dir: unit_dir(target_unit.as_str()),
            name: str_to_string("reactor-50-before.conf"),
            content: file_content(before_body.as_str()),
        },
    );
    proof {
        let targetv = UnitFileView {
            dir: unit_dir_spec("drbd-services@"@ + escaped@ + ".target"@),
            name: "reactor.conf"@,
            content: file_content_spec(
                target_requires_text(
                    required.deep_view(),
                    systemd_settings.target_as.spec_text(),
                ),
            ),
        };
        let beforev = UnitFileView {
            dir: unit_dir_spec("drbd-services@"@ + escaped@ + ".target"@),
            name: "reactor-50-before.conf"@,
            content: file_content_spec("[Unit]\nBefore=drbd-reactor.service"@),
        };
        assert(files.deep_view() =~= (headv + act_files.deep_view()) + seq![targetv, beforev]);
        let fin = gen_actions(
            name@,
            escaped@,
            actsv,
            actsv.len() as int,
            required.deep_view(),
            *systemd_settings,
        );
        assert(fin == Ok::<_, TemplateError>(
            (Seq::<UnitFileView>::empty(), required.deep_view()),
        ));
        assert(act_files.deep_view() + Seq::<UnitFileView>::empty() =~= act_files.deep_view());
        assert(headv == spec_head);
        assert((spec_head + act_files.deep_view()) + seq![targetv, beforev] =~= spec_head
            + act_files.deep_view() + seq![targetv, beforev]);
        assert(gen_templates_spec(name@, actsv, *systemd_settings, secondary_force)
            == Ok::<_, TemplateError>(
            (spec_head + act_files.deep_view() + seq![targetv, beforev], required.deep_view()),
        ));
    }
    Ok((files, required))
}

} // verus!

verus! {

use crate::strutil::str_eq;

/// One resource option that does not carry the value the promoter needs.
#[derive(Debug)]
pub struct OptionMismatch {
    pub what: String,
    pub expected: String,
    pub actual: String,
}

/// Mathematical value of an [`OptionMismatch`].
#[verifier::ext_equal]
pub struct OptionMismatchView {
    pub what: Seq<char>,
    pub expected: Seq<char>,
    pub actual: Seq<char>,
}

impl View for OptionMismatch {
    type V = OptionMismatchView;

    open spec fn view(&self) -> OptionMismatchView {
        OptionMismatchView { what: self.what@, expected: self.expected@, actual: self.actual@ }
    }
}

impl DeepView for OptionMismatch {
    type V = OptionMismatchView;

    open spec fn deep_view(&self) -> OptionMismatchView {
        self@
    }
}

/// The mismatch entry for one option, when its value differs from the wanted
/// one.
pub open spec fn mismatch_of(what: Seq<char>, expected: Seq<char>, actual: Seq<char>) -> Seq<
    OptionMismatchView,
> {
    if expected == actual {
        Seq::empty()
    } else {
        seq![OptionMismatchView { what: what, expected: expected, actual: actual }]
    }
}

/// The `rr-conflict` mismatches over the shown connections from `i` on.
pub open spec fn rr_conflict_mismatches(
    conns: Seq<crate::drbdstatus::ConnectionView>,
    i: int,
) -> Seq<OptionMismatchView>
    decreases conns.len() - i,
{
    if i < 0 || i >= conns.len() {
        Seq::empty()
    } else {
        mismatch_of("rr-conflict"@, "retry-connect"@, conns[i].net.rr_conflict)
            + rr_conflict_mismatches(conns, i + 1)
    }
}

/// The display form of the `auto-promote` boolean.
pub open spec fn yes_no(b: bool) -> Seq<char> {
    if b {
        "yes"@
    } else {
        "no"@
    }
}

/// The options the promoter requires of a resource, and what was found when
/// they differ: `auto-promote=no`, `quorum=majority`,
/// `on-suspended-primary-outdated=force-secondary`, `on-no-quorum` and
/// `on-no-data-accessible` by quorum-loss policy, and under the freeze
/// policy `rr-conflict=retry-connect` on every connection.
pub open spec fn option_mismatches(
    shown: crate::drbdstatus::ResourceView,
    on_quorum_loss: QuorumLossPolicy,
) -> Seq<OptionMismatchView> {
    let policy_value = if on_quorum_loss == QuorumLossPolicy::Shutdown {
        "io-error"@
    } else {
        "suspend-io"@
    };
    mismatch_of("auto-promote"@, "no"@, yes_no(shown.options.auto_promote)) + mismatch_of(
        "quorum"@,
        "majority"@,
        shown.options.quorum,
    ) + mismatch_of(
        "on-suspended-primary-outdated"@,
        "force-secondary"@,
        shown.options.on_suspended_primary_outdated,
    ) + mismatch_of("on-no-quorum"@, policy_value, shown.options.on_no_quorum) + mismatch_of(
        "on-no-data-accessible"@,
        policy_value,
        shown.options.on_no_data_accessible,
    ) + (if on_quorum_loss == QuorumLossPolicy::Freeze {
        rr_conflict_mismatches(shown.connections, 0)
    } else {
        Seq::<OptionMismatchView>::empty()
    })
}

/// Pushes a mismatch entry when the actual value differs from the expected
/// one.
fn push_mismatch(out: &mut Vec<OptionMismatch>, what: &str, expected: &str, actual: &str)
    ensures
        final(out).deep_view() == old(out).deep_view() + mismatch_of(what@, expected@, actual@),
{
    let ghost before = out.deep_view();
    if !str_eq(expected, actual) {
        out.push(
            OptionMismatch {
                what: str_to_string(what),
                expected: str_to_string(expected),
                actual: str_to_string(actual),
            },
        );
        proof {
            assert(out.deep_view() =~= before + mismatch_of(what@, expected@, actual@));
        }
    } else {
        proof {
            assert(out.deep_view() =~= before + mismatch_of(what@, expected@, actual@));
        }
    }
}

/// Checks the shown resource options against what the promoter needs under
/// the given quorum-loss policy, and returns every mismatch; the caller
/// turns each into a warning.
pub fn check_resource_options(
    shown: &crate::drbdstatus::Resource,
    on_quorum_loss: &QuorumLossPolicy,
) -> (r: Vec<OptionMismatch>)
    ensures
        r.deep_view() == option_mismatches(shown@, *on_quorum_loss),
{
    let mut out: Vec<OptionMismatch> = Vec::new();
    proof {
        assert(out.deep_view() =~= Seq::<OptionMismatchView>::empty());
    }
    let actual_auto = if shown.options.auto_promote {
        "yes"
    } else {
        "no"
    };
    push_mismatch(&mut out, "auto-promote", "no", actual_auto);
    let ghost m1 = out.deep_view();
    push_mismatch(&mut out, "quorum", "majority", shown.options.quorum.as_str());
    push_mismatch(
        &mut out,
        "on-suspended-primary-outdated",
        "force-secondary",
        shown.options.on_suspended_primary_outdated.as_str(),
    );
    let policy_value = if *on_quorum_loss == QuorumLossPolicy::Shutdown {
        "io-error"
    } else {
        "suspend-io"
    };
    push_mismatch(&mut out, "on-no-quorum", policy_value, shown.options.on_no_quorum.as_str());
    push_mismatch(
        &mut out,
        "on-no-data-accessible",
        policy_value,
        shown.options.on_no_data_accessible.as_str(),
    );
    let ghost base = out.deep_view();
    if *on_quorum_loss == QuorumLossPolicy::Freeze {
        let ghost conns = shown@.connections;
        let mut i: usize = 0;
        while i < shown.connections.len()
            invariant
                conns == shown@.connections,
                0 <= i <= conns.len(),
                out.deep_view() + rr_conflict_mismatches(conns, i as int) == base
                    + rr_conflict_mismatches(conns, 0),
            decreases conns.len() - i,
        {
            let ghost before = out.deep_view();
            proof {
                assert(conns[i as int] == shown.connections@[i as int]@);
            }
            push_mismatch(
                &mut out,
                "rr-conflict",
                "retry-connect",
                shown.connections[i].net.rr_conflict.as_str(),
            );
            proof {
                assert(before + mismatch_of(
                    "rr-conflict"@,
                    "retry-connect"@,
                    conns[i as int].net.rr_conflict,
                ) + rr_conflict_mismatches(conns, i as int + 1) =~= before + (mismatch_of(
                    "rr-conflict"@,
                    "retry-connect"@,
                    conns[i as int].net.rr_conflict,
                ) + rr_conflict_mismatches(conns, i as int + 1)));
            }
            i = i + 1;
        }
        proof {
            assert(out.deep_view() + Seq::<OptionMismatchView>::empty() =~= out.deep_view());
            assert(out.deep_view() =~= option_mismatches(shown@, *on_quorum_loss));
        }
    } else {
        proof {
            assert(base + Seq::<OptionMismatchView>::empty() =~= base);
            assert(out.deep_view() =~= option_mismatches(shown@, *on_quorum_loss));
        }
    }
    out
}

} // verus!
