//! The plugin layer: the configuration values that identify plugins, the
//! class of events each plugin wants, the filters applied to the update
//! stream, and the reload plan that starts, keeps and stops plugins.

use vstd::prelude::*;

pub mod agentx;
pub mod debugger;
pub mod prometheus;
pub mod promoter;
pub mod umh;

use crate::drbd::{EventType, PluginUpdate};
use crate::strutil::str_eq;

verus! {

/// Whether an update of the stream speaks of one of the given resources.
pub fn namefilter(names: &Vec<String>, up: &PluginUpdate) -> (r: bool)
    ensures
        r == exists|i: int| 0 <= i < names@.len() && up.spec_name() == names@[i]@,
{
    let mut i: usize = 0;
    while i < names.len()
        invariant
            0 <= i <= names@.len(),
            forall|j: int| 0 <= j < i ==> up.spec_name() != names@[j]@,
        decreases names@.len() - i,
    {
        if up.has_name(names[i].as_str()) {
            return true;
        }
        i = i + 1;
    }
    false
}

/// Whether an update carries the given event verb.
pub fn typefilter(ftype: &EventType, up: &PluginUpdate) -> (r: bool)
    ensures
        r == (up.spec_event_type() == *ftype),
{
    up.has_type(ftype)
}

} // verus!

verus! {

use crate::plugin::agentx::{AgentXConfig, AgentXConfigView};
use crate::plugin::debugger::DebuggerConfig;
use crate::plugin::promoter::{PromoterConfig, PromoterConfigView};
use crate::plugin::prometheus::{PrometheusConfig, PrometheusConfigView};
use crate::plugin::umh::{UMHConfig, UMHConfigView};

/// Which updates a plugin wants: meaningful changes, or every event line.
#[derive(Clone, Copy, PartialEq, Eq, Structural, Debug)]
pub enum PluginType {
    Change,
    Event,
}

/// A plugin's identity: its entire configuration value.
#[derive(Debug)]
pub enum PluginCfg {
    Promoter(PromoterConfig),
    Debugger(DebuggerConfig),
    UMH(UMHConfig),
    Prometheus(PrometheusConfig),
    AgentX(AgentXConfig),
}

/// Mathematical value of a [`PluginCfg`].
pub enum PluginCfgView {
    Promoter(PromoterConfigView),
    Debugger(Option<Seq<char>>),
    UMH(UMHConfigView),
    Prometheus(PrometheusConfigView),
    AgentX(AgentXConfigView),
}

impl View for PluginCfg {
    type V = PluginCfgView;

    open spec fn view(&self) -> PluginCfgView {
        match self {
            PluginCfg::Promoter(c) => PluginCfgView::Promoter(c@),
            PluginCfg::Debugger(c) => PluginCfgView::Debugger(c.spec_id()),
            PluginCfg::UMH(c) => PluginCfgView::UMH(c@),
            PluginCfg::Prometheus(c) => PluginCfgView::Prometheus(c@),
            PluginCfg::AgentX(c) => PluginCfgView::AgentX(c@),
        }
    }
}

impl DeepView for PluginCfg {
    type V = PluginCfgView;

    open spec fn deep_view(&self) -> PluginCfgView {
        self@
    }
}

impl Clone for PluginCfg {
    fn clone(&self) -> (r: Self)
        ensures
            r@ == self@,
    {
        match self {
            PluginCfg::Promoter(c) => PluginCfg::Promoter(c.clone()),
            PluginCfg::Debugger(c) => PluginCfg::Debugger(c.clone()),
            PluginCfg::UMH(c) => PluginCfg::UMH(c.clone()),
            PluginCfg::Prometheus(c) => PluginCfg::Prometheus(c.clone()),
            PluginCfg::AgentX(c) => PluginCfg::AgentX(c.clone()),
        }
    }
}

impl PartialEq for PluginCfg {
    fn eq(&self, other: &Self) -> (r: bool) {
        match (self, other) {
            (PluginCfg::Promoter(a), PluginCfg::Promoter(b)) => a == b,
            (PluginCfg::Debugger(a), PluginCfg::Debugger(b)) => a == b,
            (PluginCfg::UMH(a), PluginCfg::UMH(b)) => a == b,
            (PluginCfg::Prometheus(a), PluginCfg::Prometheus(b)) => a == b,
            (PluginCfg::AgentX(a), PluginCfg::AgentX(b)) => a == b,
            _ => false,
        }
    }
}

impl Eq for PluginCfg {

}

impl vstd::std_specs::cmp::PartialEqSpecImpl for PluginCfg {
    open spec fn obeys_eq_spec() -> bool {
        true
    }

    open spec fn eq_spec(&self, other: &Self) -> bool {
        self@ == other@
    }
}

impl PluginCfg {
    /// Which class of updates this plugin wants: the promoter, debugger and
    /// user-mode helper act on meaningful changes; the exporters see every
    /// event.
    pub fn plugin_type(&self) -> (r: PluginType)
        ensures
            r == self.spec_plugin_type(),
    {
        match self {
            PluginCfg::Promoter(_) => PluginType::Change,
            PluginCfg::Debugger(_) => PluginType::Change,
            PluginCfg::UMH(_) => PluginType::Change,
            PluginCfg::Prometheus(_) => PluginType::Event,
            PluginCfg::AgentX(_) => PluginType::Event,
        }
    }

    pub open spec fn spec_plugin_type(&self) -> PluginType {
        match self {
            PluginCfg::Promoter(_) => PluginType::Change,
            PluginCfg::Debugger(_) => PluginType::Change,
            PluginCfg::UMH(_) => PluginType::Change,
            PluginCfg::Prometheus(_) => PluginType::Event,
            PluginCfg::AgentX(_) => PluginType::Event,
        }
    }

    /// Whether the configuration still carries the retired `id` field, which
    /// is ignored and warned about.
    pub fn has_deprecated_id(&self) -> (r: bool)
        ensures
            r == self.spec_has_deprecated_id(),
    {
        match self {
            PluginCfg::Promoter(c) => c.id.is_some(),
            PluginCfg::Debugger(c) => c.id.is_some(),
            PluginCfg::UMH(c) => c.id.is_some(),
            PluginCfg::Prometheus(c) => c.id.is_some(),
            PluginCfg::AgentX(_) => false,
        }
    }

    pub open spec fn spec_has_deprecated_id(&self) -> bool {
        match self {
            PluginCfg::Promoter(c) => c.id is Some,
            PluginCfg::Debugger(c) => c.id is Some,
            PluginCfg::UMH(c) => c.id is Some,
            PluginCfg::Prometheus(c) => c.id is Some,
            PluginCfg::AgentX(_) => false,
        }
    }
}

/// The central configuration: each plugin kind may be configured many times.
#[derive(Debug)]
pub struct PluginConfig {
    pub promoter: Vec<PromoterConfig>,
    pub debugger: Vec<DebuggerConfig>,
    pub umh: Vec<UMHConfig>,
    pub prometheus: Vec<PrometheusConfig>,
    pub agentx: Vec<AgentXConfig>,
}

impl PluginConfig {
    /// The plugin identities this configuration asks for, in a fixed order.
    pub open spec fn spec_flat(&self) -> Seq<PluginCfgView> {
        Seq::new(self.debugger@.len(), |i: int| PluginCfgView::Debugger(self.debugger@[i].spec_id()))
            + Seq::new(
            self.promoter@.len(),
            |i: int| PluginCfgView::Promoter(self.promoter@[i]@),
        ) + Seq::new(self.umh@.len(), |i: int| PluginCfgView::UMH(self.umh@[i]@)) + Seq::new(
            self.prometheus@.len(),
            |i: int| PluginCfgView::Prometheus(self.prometheus@[i]@),
        ) + Seq::new(self.agentx@.len(), |i: int| PluginCfgView::AgentX(self.agentx@[i]@))
    }

    /// Flattens the configuration into one list of plugin identities.
    pub fn flatten(&self) -> (r: Vec<PluginCfg>)
        ensures
            r.deep_view() == self.spec_flat(),
    {
        let mut out: Vec<PluginCfg> = Vec::new();
        let mut i: usize = 0;
        while i < self.debugger.len()
            invariant
                0 <= i <= self.debugger@.len(),
                out@.len() == i,
                forall|j: int| 0 <= j < i ==> #[trigger] out@[j]@ == PluginCfgView::Debugger(
                    self.debugger@[j].spec_id(),
                ),
            decreases self.debugger@.len() - i,
        {
            out.push(PluginCfg::Debugger(self.debugger[i].clone()));
            i = i + 1;
        }
        let ghost n0 = out@.len() as int;
        let mut i: usize = 0;
        while i < self.promoter.len()
            invariant
                0 <= i <= self.promoter@.len(),
                out@.len() == n0 + i,
                n0 == self.debugger@.len(),
                forall|j: int| 0 <= j < n0 ==> #[trigger] out@[j]@ == PluginCfgView::Debugger(
                    self.debugger@[j].spec_id(),
                ),
                forall|j: int| n0 <= j < n0 + i ==> #[trigger] out@[j]@ == PluginCfgView::Promoter(
                    self.promoter@[j - n0]@,
                ),
            decreases self.promoter@.len() - i,
        {
            out.push(PluginCfg::Promoter(self.promoter[i].clone()));
            i = i + 1;
        }
        let ghost n1 = out@.len() as int;
        let mut i: usize = 0;
        while i < self.umh.len()
            invariant
                0 <= i <= self.umh@.len(),
                out@.len() == n1 + i,
                n0 == self.debugger@.len(),
                n1 == n0 + self.promoter@.len(),
                forall|j: int| 0 <= j < n0 ==> #[trigger] out@[j]@ == PluginCfgView::Debugger(
                    self.debugger@[j].spec_id(),
                ),
                forall|j: int| n0 <= j < n1 ==> #[trigger] out@[j]@ == PluginCfgView::Promoter(
                    self.promoter@[j - n0]@,
                ),
                forall|j: int| n1 <= j < n1 + i ==> #[trigger] out@[j]@ == PluginCfgView::UMH(
                    self.umh@[j - n1]@,
                ),
            decreases self.umh@.len() - i,
        {
            out.push(PluginCfg::UMH(self.umh[i].clone()));
            i = i + 1;
        }
        let ghost n2 = out@.len() as int;
        let mut i: usize = 0;
        while i < self.prometheus.len()
            invariant
                0 <= i <= self.prometheus@.len(),
                out@.len() == n2 + i,
                n0 == self.debugger@.len(),
                n1 == n0 + self.promoter@.len(),
                n2 == n1 + self.umh@.len(),
                forall|j: int| 0 <= j < n0 ==> #[trigger] out@[j]@ == PluginCfgView::Debugger(
                    self.debugger@[j].spec_id(),
                ),
                forall|j: int| n0 <= j < n1 ==> #[trigger] out@[j]@ == PluginCfgView::Promoter(
                    self.promoter@[j - n0]@,
                ),
                forall|j: int| n1 <= j < n2 ==> #[trigger] out@[j]@ == PluginCfgView::UMH(
                    self.umh@[j - n1]@,
                ),
                forall|j: int| n2 <= j < n2 + i ==> #[trigger] out@[j]@
                    == PluginCfgView::Prometheus(self.prometheus@[j - n2]@),
            decreases self.prometheus@.len() - i,
        {
            out.push(PluginCfg::Prometheus(self.prometheus[i].clone()));
            i = i + 1;
        }
        let ghost n3 = out@.len() as int;
        let mut i: usize = 0;
        while i < self.agentx.len()
            invariant
                0 <= i <= self.agentx@.len(),
                out@.len() == n3 + i,
                n0 == self.debugger@.len(),
                n1 == n0 + self.promoter@.len(),
                n2 == n1 + self.umh@.len(),
                n3 == n2 + self.prometheus@.len(),
                forall|j: int| 0 <= j < n0 ==> #[trigger] out@[j]@ == PluginCfgView::Debugger(
                    self.debugger@[j].spec_id(),
                ),
                forall|j: int| n0 <= j < n1 ==> #[trigger] out@[j]@ == PluginCfgView::Promoter(
                    self.promoter@[j - n0]@,
                ),
                forall|j: int| n1 <= j < n2 ==> #[trigger] out@[j]@ == PluginCfgView::UMH(
                    self.umh@[j - n1]@,
                ),
                forall|j: int| n2 <= j < n3 ==> #[trigger] out@[j]@
                    == PluginCfgView::Prometheus(self.prometheus@[j - n2]@),
                forall|j: int| n3 <= j < n3 + i ==> #[trigger] out@[j]@ == PluginCfgView::AgentX(
                    self.agentx@[j - n3]@,
                ),
            decreases self.agentx@.len() - i,
        {
            out.push(PluginCfg::AgentX(self.agentx[i].clone()));
            i = i + 1;
        }
        proof {
            assert(out.deep_view() =~= self.spec_flat());
        }
        out
    }
}

/// Whether the list holds the identity `v`.
pub open spec fn cfgs_contain(s: Seq<PluginCfgView>, v: PluginCfgView) -> bool {
    exists|i: int| 0 <= i < s.len() && s[i] == v
}

/// The members of `s` whose identity also stands in `t`, in order.
pub open spec fn cfgs_in(s: Seq<PluginCfgView>, t: Seq<PluginCfgView>) -> Seq<PluginCfgView>
    decreases s.len(),
{
    if s.len() == 0 {
        Seq::empty()
    } else {
        (if cfgs_contain(t, s[0]) {
            seq![s[0]]
        } else {
            Seq::<PluginCfgView>::empty()
        }) + cfgs_in(s.drop_first(), t)
    }
}

/// The members of `s` whose identity does not stand in `t`, in order.
pub open spec fn cfgs_not_in(s: Seq<PluginCfgView>, t: Seq<PluginCfgView>) -> Seq<PluginCfgView>
    decreases s.len(),
{
    if s.len() == 0 {
        Seq::empty()
    } else {
        (if cfgs_contain(t, s[0]) {
            Seq::<PluginCfgView>::empty()
        } else {
            seq![s[0]]
        }) + cfgs_not_in(s.drop_first(), t)
    }
}

/// Whether some identity stands twice in the list.
pub open spec fn cfgs_have_dup(s: Seq<PluginCfgView>) -> bool {
    exists|p: int, q: int| 0 <= p < q < s.len() && s[p] == s[q]
}

/// Why a reload was rejected.
#[derive(Clone, Copy, PartialEq, Eq, Structural, Debug)]
pub enum ReloadError {
    /// One configuration value was used for two plugins.
    DuplicateConfig,
}

impl ReloadError {
    /// A short message naming the rejection.
    pub fn text(&self) -> (r: &'static str)
        ensures
            r@ == self.spec_text(),
    {
        match self {
            ReloadError::DuplicateConfig => "duplicate config: a config was used multiple times",
        }
    }

    pub open spec fn spec_text(&self) -> Seq<char> {
        match self {
            ReloadError::DuplicateConfig => "duplicate config: a config was used multiple times"@,
        }
    }
}

/// What a reload does: which running plugins to keep, which to stop, and
/// which new ones to start.
#[derive(Debug)]
pub struct ReloadPlan {
    pub keep: Vec<PluginCfg>,
    pub stop: Vec<PluginCfg>,
    pub start: Vec<PluginCfg>,
}

/// Whether the list holds a configuration equal to `v`.
fn contains_cfg(list: &Vec<PluginCfg>, v: &PluginCfg) -> (r: bool)
    ensures
        r == cfgs_contain(list.deep_view(), v@),
{
    let mut i: usize = 0;
    while i < list.len()
        invariant
            0 <= i <= list@.len(),
            forall|j: int| 0 <= j < i ==> #[trigger] list@[j]@ != v@,
        decreases list@.len() - i,
    {
        if &list[i] == v {
            proof {
                assert(list.deep_view()[i as int] == v@);
            }
            return true;
        }
        i = i + 1;
    }
    proof {
        assert(forall|j: int| 0 <= j < list.deep_view().len() ==> #[trigger] list.deep_view()[j]
            == list@[j]@);
    }
    false
}

/// Plans a reload: a plugin is identified by its whole configuration value.
/// Two identical configurations in one reload are rejected; a running plugin
/// whose configuration is still asked for survives; the rest are stopped;
/// configurations not yet running are started.
pub fn plan_reload(running: &Vec<PluginCfg>, cfg: &PluginConfig) -> (r: Result<
    ReloadPlan,
    ReloadError,
>)
    ensures
        match r {
            Ok(plan) => !cfgs_have_dup(cfg.spec_flat()) && plan.keep.deep_view() == cfgs_in(
                running.deep_view(),
                cfg.spec_flat(),
            ) && plan.stop.deep_view() == cfgs_not_in(running.deep_view(), cfg.spec_flat())
                && plan.start.deep_view() == cfgs_not_in(cfg.spec_flat(), running.deep_view()),
            Err(e) => cfgs_have_dup(cfg.spec_flat()) && e == ReloadError::DuplicateConfig,
        },
{
    let new_cfgs = cfg.flatten();
    let ghost newv = cfg.spec_flat();
    let mut i: usize = 1;
    while i < new_cfgs.len()
        invariant
            newv == new_cfgs.deep_view(),
            newv == cfg.spec_flat(),
            1 <= i <= newv.len() || newv.len() == 0,
            forall|p: int, q: int| 0 <= p < q < i && q < newv.len() ==> newv[p] != newv[q],
        decreases newv.len() - i,
    {
        let mut j: usize = 0;
        while j < i
            invariant
                newv == new_cfgs.deep_view(),
                newv == cfg.spec_flat(),
                0 <= j <= i < newv.len(),
                forall|p: int| 0 <= p < j ==> #[trigger] newv[p] != newv[i as int],
            decreases i - j,
        {
            if &new_cfgs[j] == &new_cfgs[i] {
                proof {
                    assert(newv[j as int] == newv[i as int]);
                    let ghost pj = j as int;
                    let ghost qi = i as int;
                    assert(cfgs_have_dup(newv)) by {
                        assert(0 <= pj < qi < newv.len() && newv[pj] == newv[qi]);
                    }
                }
                return Err(ReloadError::DuplicateConfig);
            }
            j = j + 1;
        }
        i = i + 1;
    }
    let mut keep: Vec<PluginCfg> = Vec::new();
    let mut stop: Vec<PluginCfg> = Vec::new();
    let ghost runv = running.deep_view();
    let mut i: usize = 0;
    proof {
        assert(runv.skip(0) =~= runv);
        assert(keep.deep_view() =~= Seq::<PluginCfgView>::empty());
        assert(stop.deep_view() =~= Seq::<PluginCfgView>::empty());
    }
    while i < running.len()
        invariant
            runv == running.deep_view(),
            newv == new_cfgs.deep_view(),
            0 <= i <= runv.len(),
            keep.deep_view() + cfgs_in(runv.skip(i as int), newv) == cfgs_in(runv, newv),
            stop.deep_view() + cfgs_not_in(runv.skip(i as int), newv) == cfgs_not_in(runv, newv),
        decreases runv.len() - i,
    {
        let ghost tail = runv.skip(i as int);
        proof {
            assert(tail[0] == running@[i as int]@);
            assert(tail.drop_first() =~= runv.skip(i as int + 1));
        }
        let c = &running[i];
        let ghost keepv = keep.deep_view();
        let ghost stopv = stop.deep_view();
        if contains_cfg(&new_cfgs, c) {
            keep.push(c.clone());
            proof {
                assert(keep.deep_view() =~= keepv.push(tail[0]));
                assert(keepv.push(tail[0]) + cfgs_in(tail.drop_first(), newv) =~= keepv + (seq![
                    tail[0],
                ] + cfgs_in(tail.drop_first(), newv)));
                assert(stopv + (Seq::<PluginCfgView>::empty() + cfgs_not_in(
                    tail.drop_first(),
                    newv,
                )) =~= stopv + cfgs_not_in(tail.drop_first(), newv));
            }
        } else {
            stop.push(c.clone());
            proof {
                assert(stop.deep_view() =~= stopv.push(tail[0]));
                assert(stopv.push(tail[0]) + cfgs_not_in(tail.drop_first(), newv) =~= stopv + (seq![
                    tail[0],
                ] + cfgs_not_in(tail.drop_first(), newv)));
                assert(keepv + (Seq::<PluginCfgView>::empty() + cfgs_in(tail.drop_first(), newv))
                    =~= keepv + cfgs_in(tail.drop_first(), newv));
            }
        }
        i = i + 1;
    }
    proof {
        assert(runv.skip(runv.len() as int) =~= Seq::<PluginCfgView>::empty());
        assert(keep.deep_view() + Seq::<PluginCfgView>::empty() =~= keep.deep_view());
        assert(stop.deep_view() + Seq::<PluginCfgView>::empty() =~= stop.deep_view());
    }
    let mut start: Vec<PluginCfg> = Vec::new();
    let mut i: usize = 0;
    proof {
        assert(newv.skip(0) =~= newv);
        assert(start.deep_view() =~= Seq::<PluginCfgView>::empty());
    }
    while i < new_cfgs.len()
        invariant
            runv == running.deep_view(),
            newv == new_cfgs.deep_view(),
            0 <= i <= newv.len(),
            start.deep_view() + cfgs_not_in(newv.skip(i as int), runv) == cfgs_not_in(newv, runv),
        decreases newv.len() - i,
    {
        let ghost tail = newv.skip(i as int);
        proof {
            assert(tail[0] == new_cfgs@[i as int]@);
            assert(tail.drop_first() =~= newv.skip(i as int + 1));
        }
        let c = &new_cfgs[i];
        let ghost startv = start.deep_view();
        if !contains_cfg(running, c) {
            start.push(c.clone());
            proof {
                assert(start.deep_view() =~= startv.push(tail[0]));
                assert(startv.push(tail[0]) + cfgs_not_in(tail.drop_first(), runv) =~= startv + (
                seq![tail[0]] + cfgs_not_in(tail.drop_first(), runv)));
            }
        } else {
            proof {
                assert(startv + (Seq::<PluginCfgView>::empty() + cfgs_not_in(
                    tail.drop_first(),
                    runv,
                )) =~= startv + cfgs_not_in(tail.drop_first(), runv));
            }
        }
        i = i + 1;
    }
    proof {
        assert(newv.skip(newv.len() as int) =~= Seq::<PluginCfgView>::empty());
        assert(start.deep_view() + Seq::<PluginCfgView>::empty() =~= start.deep_view());
        assert(!cfgs_have_dup(newv));
    }
    Ok(ReloadPlan { keep, stop, start })
}

/// A reload with an unchanged plugin set stops nothing and starts nothing.
pub proof fn lemma_reload_unchanged(runv: Seq<PluginCfgView>, newv: Seq<PluginCfgView>)
    requires
        forall|i: int| 0 <= i < runv.len() ==> cfgs_contain(newv, #[trigger] runv[i]),
        forall|i: int| 0 <= i < newv.len() ==> cfgs_contain(runv, #[trigger] newv[i]),
    ensures
        cfgs_not_in(runv, newv) == Seq::<PluginCfgView>::empty(),
        cfgs_not_in(newv, runv) == Seq::<PluginCfgView>::empty(),
{
    lemma_cfgs_not_in_all_members(runv, newv);
    lemma_cfgs_not_in_all_members(newv, runv);
}

proof fn lemma_cfgs_not_in_all_members(s: Seq<PluginCfgView>, t: Seq<PluginCfgView>)
    requires
        forall|i: int| 0 <= i < s.len() ==> cfgs_contain(t, #[trigger] s[i]),
    ensures
        cfgs_not_in(s, t) == Seq::<PluginCfgView>::empty(),
    decreases s.len(),
{
    if s.len() > 0 {
        assert(cfgs_contain(t, s[0]));
        let rest = s.drop_first();
        assert(forall|i: int| 0 <= i < rest.len() ==> rest[i] == s[i + 1]);
        lemma_cfgs_not_in_all_members(rest, t);
        assert(cfgs_not_in(s, t) =~= Seq::<PluginCfgView>::empty());
    }
}

/// Changing one plugin's configuration stops exactly the old instance and
/// starts exactly the new one: with a shared base of surviving plugins, the
/// plan stops only the replaced configuration and starts only its
/// replacement.
pub proof fn lemma_reload_one_changed(
    base: Seq<PluginCfgView>,
    oldc: PluginCfgView,
    newc: PluginCfgView,
)
    requires
        !cfgs_contain(base.push(newc), oldc),
        !cfgs_contain(base.push(oldc), newc),
    ensures
        cfgs_not_in(base.push(oldc), base.push(newc)) == seq![oldc],
        cfgs_not_in(base.push(newc), base.push(oldc)) == seq![newc],
{
    assert(forall|i: int| 0 <= i < base.len() ==> cfgs_contain(
        base.push(newc),
        #[trigger] base[i],
    )) by {
        assert(forall|i: int| 0 <= i < base.len() ==> base.push(newc)[i] == base[i]);
    }
    assert(forall|i: int| 0 <= i < base.len() ==> cfgs_contain(
        base.push(oldc),
        #[trigger] base[i],
    )) by {
        assert(forall|i: int| 0 <= i < base.len() ==> base.push(oldc)[i] == base[i]);
    }
    lemma_not_in_push(base, oldc, base.push(newc));
    lemma_not_in_push(base, newc, base.push(oldc));
}

proof fn lemma_not_in_push(base: Seq<PluginCfgView>, a: PluginCfgView, t: Seq<PluginCfgView>)
    requires
        forall|i: int| 0 <= i < base.len() ==> cfgs_contain(t, #[trigger] base[i]),
        !cfgs_contain(t, a),
    ensures
        cfgs_not_in(base.push(a), t) == seq![a],
    decreases base.len(),
{
    let s = base.push(a);
    if base.len() == 0 {
        assert(s[0] == a);
        assert(s.drop_first() =~= Seq::<PluginCfgView>::empty());
        assert(cfgs_not_in(s.drop_first(), t) =~= Seq::<PluginCfgView>::empty());
        assert(seq![a] + Seq::<PluginCfgView>::empty() =~= seq![a]);
        assert(cfgs_not_in(s, t) == seq![s[0]] + cfgs_not_in(s.drop_first(), t));
        assert(cfgs_not_in(s, t) =~= seq![a]);
    } else {
        assert(s[0] == base[0]);
        assert(cfgs_contain(t, base[0]));
        let rest = base.drop_first();
        assert(forall|i: int| 0 <= i < rest.len() ==> rest[i] == base[i + 1]);
        assert(s.drop_first() =~= rest.push(a));
        lemma_not_in_push(rest, a, t);
        assert(cfgs_not_in(s, t) =~= Seq::<PluginCfgView>::empty() + cfgs_not_in(
            rest.push(a),
            t,
        ));
        assert(Seq::<PluginCfgView>::empty() + seq![a] =~= seq![a]);
    }
}

} // verus!
