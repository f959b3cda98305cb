//! Field-wise partial matching: a pattern is an all-optional sibling of a
//! value, an absent field matches anything, and each present field carries
//! an equality or inequality test.

use vstd::prelude::*;

use crate::drbd::{
    ConnectionPluginUpdate, ConnectionState, ConnectionUpdateState, DevicePluginUpdate,
    DeviceUpdateState, DiskState, EventType, PeerDevicePluginUpdate, PeerDeviceUpdateState,
    ReplicationState, ResourcePluginUpdate, ResourceUpdateState, Role,
};
use crate::strutil::str_eq;

verus! {

/// How a present pattern field compares.
#[derive(Clone, Copy, PartialEq, Eq, Structural, Debug)]
pub enum BasicPatternOperator {
    Equals,
    NotEquals,
}

impl Default for BasicPatternOperator {
    fn default() -> (r: Self)
        ensures
            r == BasicPatternOperator::Equals,
    {
        BasicPatternOperator::Equals
    }
}

/// A single-field pattern: a value to compare against, with an optional
/// explicit operator; the bare form means equality.
#[derive(Clone, Copy, PartialEq, Eq, Structural, Debug)]
pub enum BasicPattern<T> {
    WithOperator { value: T, operator: BasicPatternOperator },
    Plain(T),
}

/// Mathematical value of a [`BasicPattern`].
pub enum BasicPatternView<U> {
    WithOperator { value: U, operator: BasicPatternOperator },
    Plain(U),
}

impl<T: DeepView> DeepView for BasicPattern<T> {
    type V = BasicPatternView<T::V>;

    open spec fn deep_view(&self) -> BasicPatternView<T::V> {
        match self {
            BasicPattern::WithOperator { value, operator } => BasicPatternView::WithOperator {
                value: value.deep_view(),
                operator: *operator,
            },
            BasicPattern::Plain(v) => BasicPatternView::Plain(v.deep_view()),
        }
    }
}

/// Whether an equality test under the given operator holds.
pub open spec fn op_holds(eq: bool, op: BasicPatternOperator) -> bool {
    match op {
        BasicPatternOperator::Equals => eq,
        BasicPatternOperator::NotEquals => !eq,
    }
}

/// Matching a value against a partial pattern: absent fields match anything.
pub trait PartialMatchable {
    /// The pattern type for comparison to `Self`: an all-optional sibling.
    type Pattern;

    /// What it means for the value to match the pattern.
    spec fn spec_matches(&self, pattern: &Self::Pattern) -> bool;

    /// Tests the value against the pattern.
    fn matches(&self, pattern: &Self::Pattern) -> (r: bool)
        ensures
            r == self.spec_matches(pattern),
    ;
}

impl PartialMatchable for String {
    type Pattern = Option<BasicPattern<String>>;

    open spec fn spec_matches(&self, pattern: &Self::Pattern) -> bool {
        match pattern {
            None => true,
            Some(BasicPattern::Plain(v)) => self@ == v@,
            Some(BasicPattern::WithOperator { value, operator }) => op_holds(
                self@ == value@,
                *operator,
            ),
        }
    }

    fn matches(&self, pattern: &Self::Pattern) -> (r: bool) {
        match pattern {
            None => true,
            Some(BasicPattern::Plain(v)) => str_eq(self.as_str(), v.as_str()),
            Some(BasicPattern::WithOperator { value, operator }) => {
                let eq = str_eq(self.as_str(), value.as_str());
                match operator {
                    BasicPatternOperator::Equals => eq,
                    BasicPatternOperator::NotEquals => !eq,
                }
            },
        }
    }
}

impl PartialMatchable for bool {
    type Pattern = Option<BasicPattern<bool>>;

    open spec fn spec_matches(&self, pattern: &Self::Pattern) -> bool {
        match pattern {
            None => true,
            Some(BasicPattern::Plain(v)) => *self == *v,
            Some(BasicPattern::WithOperator { value, operator }) => op_holds(
                *self == *value,
                *operator,
            ),
        }
    }

    fn matches(&self, pattern: &Self::Pattern) -> (r: bool) {
        match pattern {
            None => true,
            Some(BasicPattern::Plain(v)) => *self == *v,
            Some(BasicPattern::WithOperator { value, operator }) => {
                let eq = *self == *value;
                match operator {
                    BasicPatternOperator::Equals => eq,
                    BasicPatternOperator::NotEquals => !eq,
                }
            },
        }
    }
}

impl PartialMatchable for i32 {
    type Pattern = Option<BasicPattern<i32>>;

    open spec fn spec_matches(&self, pattern: &Self::Pattern) -> bool {
        match pattern {
            None => true,
            Some(BasicPattern::Plain(v)) => *self == *v,
            Some(BasicPattern::WithOperator { value, operator }) => op_holds(
                *self == *value,
                *operator,
            ),
        }
    }

    fn matches(&self, pattern: &Self::Pattern) -> (r: bool) {
        match pattern {
            None => true,
            Some(BasicPattern::Plain(v)) => *self == *v,
            Some(BasicPattern::WithOperator { value, operator }) => {
                let eq = *self == *value;
                match operator {
                    BasicPatternOperator::Equals => eq,
                    BasicPatternOperator::NotEquals => !eq,
                }
            },
        }
    }
}

impl PartialMatchable for u64 {
    type Pattern = Option<BasicPattern<u64>>;

    open spec fn spec_matches(&self, pattern: &Self::Pattern) -> bool {
        match pattern {
            None => true,
            Some(BasicPattern::Plain(v)) => *self == *v,
            Some(BasicPattern::WithOperator { value, operator }) => op_holds(
                *self == *value,
                *operator,
            ),
        }
    }

    fn matches(&self, pattern: &Self::Pattern) -> (r: bool) {
        match pattern {
            None => true,
            Some(BasicPattern::Plain(v)) => *self == *v,
            Some(BasicPattern::WithOperator { value, operator }) => {
                let eq = *self == *value;
                match operator {
                    BasicPatternOperator::Equals => eq,
                    BasicPatternOperator::NotEquals => !eq,
                }
            },
        }
    }
}

} // verus!

verus! {

impl PartialMatchable for EventType {
    type Pattern = Option<BasicPattern<EventType>>;

    open spec fn spec_matches(&self, pattern: &Self::Pattern) -> bool {
        match pattern {
            None => true,
            Some(BasicPattern::Plain(v)) => *self == *v,
            Some(BasicPattern::WithOperator { value, operator }) => op_holds(
                *self == *value,
                *operator,
            ),
        }
    }

    fn matches(&self, pattern: &Self::Pattern) -> (r: bool) {
        match pattern {
            None => true,
            Some(BasicPattern::Plain(v)) => *self == *v,
            Some(BasicPattern::WithOperator { value, operator }) => {
                let eq = *self == *value;
                match operator {
                    BasicPatternOperator::Equals => eq,
                    BasicPatternOperator::NotEquals => !eq,
                }
            },
        }
    }
}

impl PartialMatchable for Role {
    type Pattern = Option<BasicPattern<Role>>;

    open spec fn spec_matches(&self, pattern: &Self::Pattern) -> bool {
        match pattern {
            None => true,
            Some(BasicPattern::Plain(v)) => *self == *v,
            Some(BasicPattern::WithOperator { value, operator }) => op_holds(
                *self == *value,
                *operator,
            ),
        }
    }

    fn matches(&self, pattern: &Self::Pattern) -> (r: bool) {
        match pattern {
            None => true,
            Some(BasicPattern::Plain(v)) => *self == *v,
            Some(BasicPattern::WithOperator { value, operator }) => {
                let eq = *self == *value;
                match operator {
                    BasicPatternOperator::Equals => eq,
                    BasicPatternOperator::NotEquals => !eq,
                }
            },
        }
    }
}

impl PartialMatchable for DiskState {
    type Pattern = Option<BasicPattern<DiskState>>;

    open spec fn spec_matches(&self, pattern: &Self::Pattern) -> bool {
        match pattern {
            None => true,
            Some(BasicPattern::Plain(v)) => *self == *v,
            Some(BasicPattern::WithOperator { value, operator }) => op_holds(
                *self == *value,
                *operator,
            ),
        }
    }

    fn matches(&self, pattern: &Self::Pattern) -> (r: bool) {
        match pattern {
            None => true,
            Some(BasicPattern::Plain(v)) => *self == *v,
            Some(BasicPattern::WithOperator { value, operator }) => {
                let eq = *self == *value;
                match operator {
                    BasicPatternOperator::Equals => eq,
                    BasicPatternOperator::NotEquals => !eq,
                }
            },
        }
    }
}

impl PartialMatchable for ConnectionState {
    type Pattern = Option<BasicPattern<ConnectionState>>;

    open spec fn spec_matches(&self, pattern: &Self::Pattern) -> bool {
        match pattern {
            None => true,
            Some(BasicPattern::Plain(v)) => *self == *v,
            Some(BasicPattern::WithOperator { value, operator }) => op_holds(
                *self == *value,
                *operator,
            ),
        }
    }

    fn matches(&self, pattern: &Self::Pattern) -> (r: bool) {
        match pattern {
            None => true,
            Some(BasicPattern::Plain(v)) => *self == *v,
            Some(BasicPattern::WithOperator { value, operator }) => {
                let eq = *self == *value;
                match operator {
                    BasicPatternOperator::Equals => eq,
                    BasicPatternOperator::NotEquals => !eq,
                }
            },
        }
    }
}

impl PartialMatchable for ReplicationState {
    type Pattern = Option<BasicPattern<ReplicationState>>;

    open spec fn spec_matches(&self, pattern: &Self::Pattern) -> bool {
        match pattern {
            None => true,
            Some(BasicPattern::Plain(v)) => *self == *v,
            Some(BasicPattern::WithOperator { value, operator }) => op_holds(
                *self == *value,
                *operator,
            ),
        }
    }

    fn matches(&self, pattern: &Self::Pattern) -> (r: bool) {
        match pattern {
            None => true,
            Some(BasicPattern::Plain(v)) => *self == *v,
            Some(BasicPattern::WithOperator { value, operator }) => {
                let eq = *self == *value;
                match operator {
                    BasicPatternOperator::Equals => eq,
                    BasicPatternOperator::NotEquals => !eq,
                }
            },
        }
    }
}

} // verus!

verus! {

/// Equality of two optional string patterns.
pub fn obp_string_eq(a: &Option<BasicPattern<String>>, b: &Option<BasicPattern<String>>) -> (r: bool)
    ensures
        r == (a.deep_view() == b.deep_view()),
{
    match (a, b) {
        (None, None) => true,
        (Some(BasicPattern::Plain(x)), Some(BasicPattern::Plain(y))) => str_eq(x.as_str(), y.as_str()),
        (
            Some(BasicPattern::WithOperator { value: x, operator: ox }),
            Some(BasicPattern::WithOperator { value: y, operator: oy }),
        ) => (str_eq(x.as_str(), y.as_str())) && *ox == *oy,
        _ => false,
    }
}

/// A copy of an optional string pattern.
pub fn obp_string_clone(a: &Option<BasicPattern<String>>) -> (r: Option<BasicPattern<String>>)
    ensures
        r.deep_view() == a.deep_view(),
{
    match a {
        None => None,
        Some(BasicPattern::Plain(x)) => Some(BasicPattern::Plain(x.clone())),
        Some(BasicPattern::WithOperator { value: x, operator: ox }) => Some(
            BasicPattern::WithOperator { value: x.clone(), operator: *ox },
        ),
    }
}

/// Equality of two optional integer patterns.
pub fn obp_i32_eq(a: &Option<BasicPattern<i32>>, b: &Option<BasicPattern<i32>>) -> (r: bool)
    ensures
        r == (a.deep_view() == b.deep_view()),
{
    match (a, b) {
        (None, None) => true,
        (Some(BasicPattern::Plain(x)), Some(BasicPattern::Plain(y))) => *x == *y,
        (
            Some(BasicPattern::WithOperator { value: x, operator: ox }),
            Some(BasicPattern::WithOperator { value: y, operator: oy }),
        ) => (*x == *y) && *ox == *oy,
        _ => false,
    }
}

/// A copy of an optional integer pattern.
pub fn obp_i32_clone(a: &Option<BasicPattern<i32>>) -> (r: Option<BasicPattern<i32>>)
    ensures
        r.deep_view() == a.deep_view(),
{
    match a {
        None => None,
        Some(BasicPattern::Plain(x)) => Some(BasicPattern::Plain(*x)),
        Some(BasicPattern::WithOperator { value: x, operator: ox }) => Some(
            BasicPattern::WithOperator { value: *x, operator: *ox },
        ),
    }
}

/// Equality of two optional counter patterns.
pub fn obp_u64_eq(a: &Option<BasicPattern<u64>>, b: &Option<BasicPattern<u64>>) -> (r: bool)
    ensures
        r == (a.deep_view() == b.deep_view()),
{
    match (a, b) {
        (None, None) => true,
        (Some(BasicPattern::Plain(x)), Some(BasicPattern::Plain(y))) => *x == *y,
        (
            Some(BasicPattern::WithOperator { value: x, operator: ox }),
            Some(BasicPattern::WithOperator { value: y, operator: oy }),
        ) => (*x == *y) && *ox == *oy,
        _ => false,
    }
}

/// A copy of an optional counter pattern.
pub fn obp_u64_clone(a: &Option<BasicPattern<u64>>) -> (r: Option<BasicPattern<u64>>)
    ensures
        r.deep_view() == a.deep_view(),
{
    match a {
        None => None,
        Some(BasicPattern::Plain(x)) => Some(BasicPattern::Plain(*x)),
        Some(BasicPattern::WithOperator { value: x, operator: ox }) => Some(
            BasicPattern::WithOperator { value: *x, operator: *ox },
        ),
    }
}

/// Equality of two optional boolean patterns.
pub fn obp_bool_eq(a: &Option<BasicPattern<bool>>, b: &Option<BasicPattern<bool>>) -> (r: bool)
    ensures
        r == (a.deep_view() == b.deep_view()),
{
    match (a, b) {
        (None, None) => true,
        (Some(BasicPattern::Plain(x)), Some(BasicPattern::Plain(y))) => *x == *y,
        (
            Some(BasicPattern::WithOperator { value: x, operator: ox }),
            Some(BasicPattern::WithOperator { value: y, operator: oy }),
        ) => (*x == *y) && *ox == *oy,
        _ => false,
    }
}

/// A copy of an optional boolean pattern.
pub fn obp_bool_clone(a: &Option<BasicPattern<bool>>) -> (r: Option<BasicPattern<bool>>)
    ensures
        r.deep_view() == a.deep_view(),
{
    match a {
        None => None,
        Some(BasicPattern::Plain(x)) => Some(BasicPattern::Plain(*x)),
        Some(BasicPattern::WithOperator { value: x, operator: ox }) => Some(
            BasicPattern::WithOperator { value: *x, operator: *ox },
        ),
    }
}

/// Equality of two optional event-type patterns.
pub fn obp_et_eq(a: &Option<BasicPattern<EventType>>, b: &Option<BasicPattern<EventType>>) -> (r: bool)
    ensures
        r == (a.deep_view() == b.deep_view()),
{
    match (a, b) {
        (None, None) => true,
        (Some(BasicPattern::Plain(x)), Some(BasicPattern::Plain(y))) => *x == *y,
        (
            Some(BasicPattern::WithOperator { value: x, operator: ox }),
            Some(BasicPattern::WithOperator { value: y, operator: oy }),
        ) => (*x == *y) && *ox == *oy,
        _ => false,
    }
}

/// A copy of an optional event-type pattern.
pub fn obp_et_clone(a: &Option<BasicPattern<EventType>>) -> (r: Option<BasicPattern<EventType>>)
    ensures
        r.deep_view() == a.deep_view(),
{
    match a {
        None => None,
        Some(BasicPattern::Plain(x)) => Some(BasicPattern::Plain(*x)),
        Some(BasicPattern::WithOperator { value: x, operator: ox }) => Some(
            BasicPattern::WithOperator { value: *x, operator: *ox },
        ),
    }
}

/// Equality of two optional role patterns.
pub fn obp_role_eq(a: &Option<BasicPattern<Role>>, b: &Option<BasicPattern<Role>>) -> (r: bool)
    ensures
        r == (a.deep_view() == b.deep_view()),
{
    match (a, b) {
        (None, None) => true,
        (Some(BasicPattern::Plain(x)), Some(BasicPattern::Plain(y))) => *x == *y,
        (
            Some(BasicPattern::WithOperator { value: x, operator: ox }),
            Some(BasicPattern::WithOperator { value: y, operator: oy }),
        ) => (*x == *y) && *ox == *oy,
        _ => false,
    }
}

/// A copy of an optional role pattern.
pub fn obp_role_clone(a: &Option<BasicPattern<Role>>) -> (r: Option<BasicPattern<Role>>)
    ensures
        r.deep_view() == a.deep_view(),
{
    match a {
        None => None,
        Some(BasicPattern::Plain(x)) => Some(BasicPattern::Plain(*x)),
        Some(BasicPattern::WithOperator { value: x, operator: ox }) => Some(
            BasicPattern::WithOperator { value: *x, operator: *ox },
        ),
    }
}

/// Equality of two optional disk-state patterns.
pub fn obp_disk_eq(a: &Option<BasicPattern<DiskState>>, b: &Option<BasicPattern<DiskState>>) -> (r: bool)
    ensures
        r == (a.deep_view() == b.deep_view()),
{
    match (a, b) {
        (None, None) => true,
        (Some(BasicPattern::Plain(x)), Some(BasicPattern::Plain(y))) => *x == *y,
        (
            Some(BasicPattern::WithOperator { value: x, operator: ox }),
            Some(BasicPattern::WithOperator { value: y, operator: oy }),
        ) => (*x == *y) && *ox == *oy,
        _ => false,
    }
}

/// A copy of an optional disk-state pattern.
pub fn obp_disk_clone(a: &Option<BasicPattern<DiskState>>) -> (r: Option<BasicPattern<DiskState>>)
    ensures
        r.deep_view() == a.deep_view(),
{
    match a {
        None => None,
        Some(BasicPattern::Plain(x)) => Some(BasicPattern::Plain(*x)),
        Some(BasicPattern::WithOperator { value: x, operator: ox }) => Some(
            BasicPattern::WithOperator { value: *x, operator: *ox },
        ),
    }
}

/// Equality of two optional connection-state patterns.
pub fn obp_conn_eq(a: &Option<BasicPattern<ConnectionState>>, b: &Option<BasicPattern<ConnectionState>>) -> (r: bool)
    ensures
        r == (a.deep_view() == b.deep_view()),
{
    match (a, b) {
        (None, None) => true,
        (Some(BasicPattern::Plain(x)), Some(BasicPattern::Plain(y))) => *x == *y,
        (
            Some(BasicPattern::WithOperator { value: x, operator: ox }),
            Some(BasicPattern::WithOperator { value: y, operator: oy }),
        ) => (*x == *y) && *ox == *oy,
        _ => false,
    }
}

/// A copy of an optional connection-state pattern.
pub fn obp_conn_clone(a: &Option<BasicPattern<ConnectionState>>) -> (r: Option<BasicPattern<ConnectionState>>)
    ensures
        r.deep_view() == a.deep_view(),
{
    match a {
        None => None,
        Some(BasicPattern::Plain(x)) => Some(BasicPattern::Plain(*x)),
        Some(BasicPattern::WithOperator { value: x, operator: ox }) => Some(
            BasicPattern::WithOperator { value: *x, operator: *ox },
        ),
    }
}

/// Equality of two optional replication-state patterns.
pub fn obp_repl_eq(a: &Option<BasicPattern<ReplicationState>>, b: &Option<BasicPattern<ReplicationState>>) -> (r: bool)
    ensures
        r == (a.deep_view() == b.deep_view()),
{
    match (a, b) {
        (None, None) => true,
        (Some(BasicPattern::Plain(x)), Some(BasicPattern::Plain(y))) => *x == *y,
        (
            Some(BasicPattern::WithOperator { value: x, operator: ox }),
            Some(BasicPattern::WithOperator { value: y, operator: oy }),
        ) => (*x == *y) && *ox == *oy,
        _ => false,
    }
}

/// A copy of an optional replication-state pattern.
pub fn obp_repl_clone(a: &Option<BasicPattern<ReplicationState>>) -> (r: Option<BasicPattern<ReplicationState>>)
    ensures
        r.deep_view() == a.deep_view(),
{
    match a {
        None => None,
        Some(BasicPattern::Plain(x)) => Some(BasicPattern::Plain(*x)),
        Some(BasicPattern::WithOperator { value: x, operator: ox }) => Some(
            BasicPattern::WithOperator { value: *x, operator: *ox },
        ),
    }
}
} // verus!

verus! {

/// The all-optional sibling of [`ResourceUpdateState`].
#[derive(Debug)]
pub struct ResourceUpdateStatePattern {
    pub role: Option<BasicPattern<Role>>,
    pub may_promote: Option<BasicPattern<bool>>,
    pub promotion_score: Option<BasicPattern<i32>>,
}

/// Mathematical value of a [`ResourceUpdateStatePattern`].
pub struct ResourceUpdateStatePatternView {
    pub role: Option<BasicPatternView<Role>>,
    pub may_promote: Option<BasicPatternView<bool>>,
    pub promotion_score: Option<BasicPatternView<i32>>,
}

impl DeepView for ResourceUpdateStatePattern {
    type V = ResourceUpdateStatePatternView;

    open spec fn deep_view(&self) -> ResourceUpdateStatePatternView {
        ResourceUpdateStatePatternView {
            role: self.role.deep_view(),
            may_promote: self.may_promote.deep_view(),
            promotion_score: self.promotion_score.deep_view(),
        }
    }
}

impl Clone for ResourceUpdateStatePattern {
    fn clone(&self) -> (r: Self)
        ensures
            r.deep_view() == self.deep_view(),
    {
        ResourceUpdateStatePattern {
            role: obp_role_clone(&self.role),
            may_promote: obp_bool_clone(&self.may_promote),
            promotion_score: obp_i32_clone(&self.promotion_score),
        }
    }
}

impl PartialEq for ResourceUpdateStatePattern {
    fn eq(&self, other: &Self) -> (r: bool) {
        obp_role_eq(&self.role, &other.role) && obp_bool_eq(&self.may_promote, &other.may_promote) && obp_i32_eq(&self.promotion_score, &other.promotion_score)
    }
}

impl Eq for ResourceUpdateStatePattern {

}

impl vstd::std_specs::cmp::PartialEqSpecImpl for ResourceUpdateStatePattern {
    open spec fn obeys_eq_spec() -> bool {
        true
    }

    open spec fn eq_spec(&self, other: &Self) -> bool {
        self.deep_view() == other.deep_view()
    }
}

impl PartialMatchable for ResourceUpdateState {
    type Pattern = Option<ResourceUpdateStatePattern>;

    open spec fn spec_matches(&self, pattern: &Self::Pattern) -> bool {
        match pattern {
            None => true,
            Some(p) => self.role.spec_matches(&p.role) && self.may_promote.spec_matches(&p.may_promote) && self.promotion_score.spec_matches(&p.promotion_score),
        }
    }

    fn matches(&self, pattern: &Self::Pattern) -> (r: bool) {
        match pattern {
            None => true,
            Some(p) => self.role.matches(&p.role) && self.may_promote.matches(&p.may_promote) && self.promotion_score.matches(&p.promotion_score),
        }
    }
}

/// The all-optional sibling of [`DeviceUpdateState`].
#[derive(Debug)]
pub struct DeviceUpdateStatePattern {
    pub disk_state: Option<BasicPattern<DiskState>>,
    pub client: Option<BasicPattern<bool>>,
    pub quorum: Option<BasicPattern<bool>>,
    pub size: Option<BasicPattern<u64>>,
}

/// Mathematical value of a [`DeviceUpdateStatePattern`].
pub struct DeviceUpdateStatePatternView {
    pub disk_state: Option<BasicPatternView<DiskState>>,
    pub client: Option<BasicPatternView<bool>>,
    pub quorum: Option<BasicPatternView<bool>>,
    pub size: Option<BasicPatternView<u64>>,
}

impl DeepView for DeviceUpdateStatePattern {
    type V = DeviceUpdateStatePatternView;

    open spec fn deep_view(&self) -> DeviceUpdateStatePatternView {
        DeviceUpdateStatePatternView {
            disk_state: self.disk_state.deep_view(),
            client: self.client.deep_view(),
            quorum: self.quorum.deep_view(),
            size: self.size.deep_view(),
        }
    }
}

impl Clone for DeviceUpdateStatePattern {
    fn clone(&self) -> (r: Self)
        ensures
            r.deep_view() == self.deep_view(),
    {
        DeviceUpdateStatePattern {
            disk_state: obp_disk_clone(&self.disk_state),
            client: obp_bool_clone(&self.client),
            quorum: obp_bool_clone(&self.quorum),
            size: obp_u64_clone(&self.size),
        }
    }
}

impl PartialEq for DeviceUpdateStatePattern {
    fn eq(&self, other: &Self) -> (r: bool) {
        obp_disk_eq(&self.disk_state, &other.disk_state) && obp_bool_eq(&self.client, &other.client) && obp_bool_eq(&self.quorum, &other.quorum) && obp_u64_eq(&self.size, &other.size)
    }
}

impl Eq for DeviceUpdateStatePattern {

}

impl vstd::std_specs::cmp::PartialEqSpecImpl for DeviceUpdateStatePattern {
    open spec fn obeys_eq_spec() -> bool {
        true
    }

    open spec fn eq_spec(&self, other: &Self) -> bool {
        self.deep_view() == other.deep_view()
    }
}

impl PartialMatchable for DeviceUpdateState {
    type Pattern = Option<DeviceUpdateStatePattern>;

    open spec fn spec_matches(&self, pattern: &Self::Pattern) -> bool {
        match pattern {
            None => true,
            Some(p) => self.disk_state.spec_matches(&p.disk_state) && self.client.spec_matches(&p.client) && self.quorum.spec_matches(&p.quorum) && self.size.spec_matches(&p.size),
        }
    }

    fn matches(&self, pattern: &Self::Pattern) -> (r: bool) {
        match pattern {
            None => true,
            Some(p) => self.disk_state.matches(&p.disk_state) && self.client.matches(&p.client) && self.quorum.matches(&p.quorum) && self.size.matches(&p.size),
        }
    }
}

/// The all-optional sibling of [`PeerDeviceUpdateState`].
#[derive(Debug)]
pub struct PeerDeviceUpdateStatePattern {
    pub replication_state: Option<BasicPattern<ReplicationState>>,
    pub peer_disk_state: Option<BasicPattern<DiskState>>,
    pub peer_client: Option<BasicPattern<bool>>,
    pub resync_suspended: Option<BasicPattern<bool>>,
}

/// Mathematical value of a [`PeerDeviceUpdateStatePattern`].
pub struct PeerDeviceUpdateStatePatternView {
    pub replication_state: Option<BasicPatternView<ReplicationState>>,
    pub peer_disk_state: Option<BasicPatternView<DiskState>>,
    pub peer_client: Option<BasicPatternView<bool>>,
    pub resync_suspended: Option<BasicPatternView<bool>>,
}

impl DeepView for PeerDeviceUpdateStatePattern {
    type V = PeerDeviceUpdateStatePatternView;

    open spec fn deep_view(&self) -> PeerDeviceUpdateStatePatternView {
        PeerDeviceUpdateStatePatternView {
            replication_state: self.replication_state.deep_view(),
            peer_disk_state: self.peer_disk_state.deep_view(),
            peer_client: self.peer_client.deep_view(),
            resync_suspended: self.resync_suspended.deep_view(),
        }
    }
}

impl Clone for PeerDeviceUpdateStatePattern {
    fn clone(&self) -> (r: Self)
        ensures
            r.deep_view() == self.deep_view(),
    {
        PeerDeviceUpdateStatePattern {
            replication_state: obp_repl_clone(&self.replication_state),
            peer_disk_state: obp_disk_clone(&self.peer_disk_state),
            peer_client: obp_bool_clone(&self.peer_client),
            resync_suspended: obp_bool_clone(&self.resync_suspended),
        }
    }
}

impl PartialEq for PeerDeviceUpdateStatePattern {
    fn eq(&self, other: &Self) -> (r: bool) {
        obp_repl_eq(&self.replication_state, &other.replication_state) && obp_disk_eq(&self.peer_disk_state, &other.peer_disk_state) && obp_bool_eq(&self.peer_client, &other.peer_client) && obp_bool_eq(&self.resync_suspended, &other.resync_suspended)
    }
}

impl Eq for PeerDeviceUpdateStatePattern {

}

impl vstd::std_specs::cmp::PartialEqSpecImpl for PeerDeviceUpdateStatePattern {
    open spec fn obeys_eq_spec() -> bool {
        true
    }

    open spec fn eq_spec(&self, other: &Self) -> bool {
        self.deep_view() == other.deep_view()
    }
}

impl PartialMatchable for PeerDeviceUpdateState {
    type Pattern = Option<PeerDeviceUpdateStatePattern>;

    open spec fn spec_matches(&self, pattern: &Self::Pattern) -> bool {
        match pattern {
            None => true,
            Some(p) => self.replication_state.spec_matches(&p.replication_state) && self.peer_disk_state.spec_matches(&p.peer_disk_state) && self.peer_client.spec_matches(&p.peer_client) && self.resync_suspended.spec_matches(&p.resync_suspended),
        }
    }

    fn matches(&self, pattern: &Self::Pattern) -> (r: bool) {
        match pattern {
            None => true,
            Some(p) => self.replication_state.matches(&p.replication_state) && self.peer_disk_state.matches(&p.peer_disk_state) && self.peer_client.matches(&p.peer_client) && self.resync_suspended.matches(&p.resync_suspended),
        }
    }
}

/// The all-optional sibling of [`ConnectionUpdateState`].
#[derive(Debug)]
pub struct ConnectionUpdateStatePattern {
    pub conn_name: Option<BasicPattern<String>>,
    pub connection_state: Option<BasicPattern<ConnectionState>>,
    pub peer_role: Option<BasicPattern<Role>>,
    pub congested: Option<BasicPattern<bool>>,
}

/// Mathematical value of a [`ConnectionUpdateStatePattern`].
pub struct ConnectionUpdateStatePatternView {
    pub conn_name: Option<BasicPatternView<Seq<char>>>,
    pub connection_state: Option<BasicPatternView<ConnectionState>>,
    pub peer_role: Option<BasicPatternView<Role>>,
    pub congested: Option<BasicPatternView<bool>>,
}

impl DeepView for ConnectionUpdateStatePattern {
    type V = ConnectionUpdateStatePatternView;

    open spec fn deep_view(&self) -> ConnectionUpdateStatePatternView {
        ConnectionUpdateStatePatternView {
            conn_name: self.conn_name.deep_view(),
            connection_state: self.connection_state.deep_view(),
            peer_role: self.peer_role.deep_view(),
            congested: self.congested.deep_view(),
        }
    }
}

impl Clone for ConnectionUpdateStatePattern {
    fn clone(&self) -> (r: Self)
        ensures
            r.deep_view() == self.deep_view(),
    {
        ConnectionUpdateStatePattern {
            conn_name: obp_string_clone(&self.conn_name),
            connection_state: obp_conn_clone(&self.connection_state),
            peer_role: obp_role_clone(&self.peer_role),
            congested: obp_bool_clone(&self.congested),
        }
    }
}

impl PartialEq for ConnectionUpdateStatePattern {
    fn eq(&self, other: &Self) -> (r: bool) {
        obp_string_eq(&self.conn_name, &other.conn_name) && obp_conn_eq(&self.connection_state, &other.connection_state) && obp_role_eq(&self.peer_role, &other.peer_role) && obp_bool_eq(&self.congested, &other.congested)
    }
}

impl Eq for ConnectionUpdateStatePattern {

}

impl vstd::std_specs::cmp::PartialEqSpecImpl for ConnectionUpdateStatePattern {
    open spec fn obeys_eq_spec() -> bool {
        true
    }

    open spec fn eq_spec(&self, other: &Self) -> bool {
        self.deep_view() == other.deep_view()
    }
}

impl PartialMatchable for ConnectionUpdateState {
    type Pattern = Option<ConnectionUpdateStatePattern>;

    open spec fn spec_matches(&self, pattern: &Self::Pattern) -> bool {
        match pattern {
            None => true,
            Some(p) => self.conn_name.spec_matches(&p.conn_name) && self.connection_state.spec_matches(&p.connection_state) && self.peer_role.spec_matches(&p.peer_role) && self.congested.spec_matches(&p.congested),
        }
    }

    fn matches(&self, pattern: &Self::Pattern) -> (r: bool) {
        match pattern {
            None => true,
            Some(p) => self.conn_name.matches(&p.conn_name) && self.connection_state.matches(&p.connection_state) && self.peer_role.matches(&p.peer_role) && self.congested.matches(&p.congested),
        }
    }
}
} // verus!

verus! {

impl DeepView for EventType {
    type V = EventType;

    open spec fn deep_view(&self) -> EventType {
        *self
    }
}

impl DeepView for Role {
    type V = Role;

    open spec fn deep_view(&self) -> Role {
        *self
    }
}

impl DeepView for DiskState {
    type V = DiskState;

    open spec fn deep_view(&self) -> DiskState {
        *self
    }
}

impl DeepView for ConnectionState {
    type V = ConnectionState;

    open spec fn deep_view(&self) -> ConnectionState {
        *self
    }
}

impl DeepView for ReplicationState {
    type V = ReplicationState;

    open spec fn deep_view(&self) -> ReplicationState {
        *self
    }
}
} // verus!

verus! {

/// Equality of two optional [`ResourceUpdateStatePattern`]s.
pub fn osp_eq_resourceupdatestate(a: &Option<ResourceUpdateStatePattern>, b: &Option<ResourceUpdateStatePattern>) -> (r: bool)
    ensures
        r == (a.deep_view() == b.deep_view()),
{
    match (a, b) {
        (None, None) => true,
        (Some(x), Some(y)) => x == y,
        _ => false,
    }
}

/// A copy of an optional [`ResourceUpdateStatePattern`].
pub fn osp_clone_resourceupdatestate(a: &Option<ResourceUpdateStatePattern>) -> (r: Option<ResourceUpdateStatePattern>)
    ensures
        r.deep_view() == a.deep_view(),
{
    match a {
        None => None,
        Some(x) => Some(x.clone()),
    }
}

/// Equality of two optional [`DeviceUpdateStatePattern`]s.
pub fn osp_eq_deviceupdatestate(a: &Option<DeviceUpdateStatePattern>, b: &Option<DeviceUpdateStatePattern>) -> (r: bool)
    ensures
        r == (a.deep_view() == b.deep_view()),
{
    match (a, b) {
        (None, None) => true,
        (Some(x), Some(y)) => x == y,
        _ => false,
    }
}

/// A copy of an optional [`DeviceUpdateStatePattern`].
pub fn osp_clone_deviceupdatestate(a: &Option<DeviceUpdateStatePattern>) -> (r: Option<DeviceUpdateStatePattern>)
    ensures
        r.deep_view() == a.deep_view(),
{
    match a {
        None => None,
        Some(x) => Some(x.clone()),
    }
}

/// Equality of two optional [`PeerDeviceUpdateStatePattern`]s.
pub fn osp_eq_peerdeviceupdatestate(a: &Option<PeerDeviceUpdateStatePattern>, b: &Option<PeerDeviceUpdateStatePattern>) -> (r: bool)
    ensures
        r == (a.deep_view() == b.deep_view()),
{
    match (a, b) {
        (None, None) => true,
        (Some(x), Some(y)) => x == y,
        _ => false,
    }
}

/// A copy of an optional [`PeerDeviceUpdateStatePattern`].
pub fn osp_clone_peerdeviceupdatestate(a: &Option<PeerDeviceUpdateStatePattern>) -> (r: Option<PeerDeviceUpdateStatePattern>)
    ensures
        r.deep_view() == a.deep_view(),
{
    match a {
        None => None,
        Some(x) => Some(x.clone()),
    }
}

/// Equality of two optional [`ConnectionUpdateStatePattern`]s.
pub fn osp_eq_connectionupdatestate(a: &Option<ConnectionUpdateStatePattern>, b: &Option<ConnectionUpdateStatePattern>) -> (r: bool)
    ensures
        r == (a.deep_view() == b.deep_view()),
{
    match (a, b) {
        (None, None) => true,
        (Some(x), Some(y)) => x == y,
        _ => false,
    }
}

/// A copy of an optional [`ConnectionUpdateStatePattern`].
pub fn osp_clone_connectionupdatestate(a: &Option<ConnectionUpdateStatePattern>) -> (r: Option<ConnectionUpdateStatePattern>)
    ensures
        r.deep_view() == a.deep_view(),
{
    match a {
        None => None,
        Some(x) => Some(x.clone()),
    }
}

/// The all-optional pattern over a [`ResourcePluginUpdate`]; the carried resource snapshot
/// takes no part in matching.
#[derive(Debug)]
pub struct ResourcePluginUpdatePattern {
    pub event_type: Option<BasicPattern<EventType>>,
    pub resource_name: Option<BasicPattern<String>>,
    pub old: Option<ResourceUpdateStatePattern>,
    pub new: Option<ResourceUpdateStatePattern>,
}

/// Mathematical value of a [`ResourcePluginUpdatePattern`].
pub struct ResourcePluginUpdatePatternView {
    pub event_type: Option<BasicPatternView<EventType>>,
    pub resource_name: Option<BasicPatternView<Seq<char>>>,
    pub old: Option<ResourceUpdateStatePatternView>,
    pub new: Option<ResourceUpdateStatePatternView>,
}

impl DeepView for ResourcePluginUpdatePattern {
    type V = ResourcePluginUpdatePatternView;

    open spec fn deep_view(&self) -> ResourcePluginUpdatePatternView {
        ResourcePluginUpdatePatternView {
            event_type: self.event_type.deep_view(),
            resource_name: self.resource_name.deep_view(),
            old: self.old.deep_view(),
            new: self.new.deep_view(),
        }
    }
}

impl Clone for ResourcePluginUpdatePattern {
    fn clone(&self) -> (r: Self)
        ensures
            r.deep_view() == self.deep_view(),
    {
        ResourcePluginUpdatePattern {
            event_type: obp_et_clone(&self.event_type),
            resource_name: obp_string_clone(&self.resource_name),
            old: osp_clone_resourceupdatestate(&self.old),
            new: osp_clone_resourceupdatestate(&self.new),
        }
    }
}

impl PartialEq for ResourcePluginUpdatePattern {
    fn eq(&self, other: &Self) -> (r: bool) {
        obp_et_eq(&self.event_type, &other.event_type) && obp_string_eq(&self.resource_name, &other.resource_name) && osp_eq_resourceupdatestate(&self.old, &other.old) && osp_eq_resourceupdatestate(&self.new, &other.new)
    }
}

impl Eq for ResourcePluginUpdatePattern {

}

impl vstd::std_specs::cmp::PartialEqSpecImpl for ResourcePluginUpdatePattern {
    open spec fn obeys_eq_spec() -> bool {
        true
    }

    open spec fn eq_spec(&self, other: &Self) -> bool {
        self.deep_view() == other.deep_view()
    }
}

impl PartialMatchable for ResourcePluginUpdate {
    type Pattern = Option<ResourcePluginUpdatePattern>;

    open spec fn spec_matches(&self, pattern: &Self::Pattern) -> bool {
        match pattern {
            None => true,
            Some(p) => self.event_type.spec_matches(&p.event_type) && self.resource_name.spec_matches(&p.resource_name) && self.old.spec_matches(&p.old) && self.new.spec_matches(&p.new),
        }
    }

    fn matches(&self, pattern: &Self::Pattern) -> (r: bool) {
        match pattern {
            None => true,
            Some(p) => self.event_type.matches(&p.event_type) && self.resource_name.matches(&p.resource_name) && self.old.matches(&p.old) && self.new.matches(&p.new),
        }
    }
}

/// The all-optional pattern over a [`DevicePluginUpdate`]; the carried resource snapshot
/// takes no part in matching.
#[derive(Debug)]
pub struct DevicePluginUpdatePattern {
    pub event_type: Option<BasicPattern<EventType>>,
    pub resource_name: Option<BasicPattern<String>>,
    pub volume: Option<BasicPattern<i32>>,
    pub old: Option<DeviceUpdateStatePattern>,
    pub new: Option<DeviceUpdateStatePattern>,
}

/// Mathematical value of a [`DevicePluginUpdatePattern`].
pub struct DevicePluginUpdatePatternView {
    pub event_type: Option<BasicPatternView<EventType>>,
    pub resource_name: Option<BasicPatternView<Seq<char>>>,
    pub volume: Option<BasicPatternView<i32>>,
    pub old: Option<DeviceUpdateStatePatternView>,
    pub new: Option<DeviceUpdateStatePatternView>,
}

impl DeepView for DevicePluginUpdatePattern {
    type V = DevicePluginUpdatePatternView;

    open spec fn deep_view(&self) -> DevicePluginUpdatePatternView {
        DevicePluginUpdatePatternView {
            event_type: self.event_type.deep_view(),
            resource_name: self.resource_name.deep_view(),
            volume: self.volume.deep_view(),
            old: self.old.deep_view(),
            new: self.new.deep_view(),
        }
    }
}

impl Clone for DevicePluginUpdatePattern {
    fn clone(&self) -> (r: Self)
        ensures
            r.deep_view() == self.deep_view(),
    {
        DevicePluginUpdatePattern {
            event_type: obp_et_clone(&self.event_type),
            resource_name: obp_string_clone(&self.resource_name),
            volume: obp_i32_clone(&self.volume),
            old: osp_clone_deviceupdatestate(&self.old),
            new: osp_clone_deviceupdatestate(&self.new),
        }
    }
}

impl PartialEq for DevicePluginUpdatePattern {
    fn eq(&self, other: &Self) -> (r: bool) {
        obp_et_eq(&self.event_type, &other.event_type) && obp_string_eq(&self.resource_name, &other.resource_name) && obp_i32_eq(&self.volume, &other.volume) && osp_eq_deviceupdatestate(&self.old, &other.old) && osp_eq_deviceupdatestate(&self.new, &other.new)
    }
}

impl Eq for DevicePluginUpdatePattern {

}

impl vstd::std_specs::cmp::PartialEqSpecImpl for DevicePluginUpdatePattern {
    open spec fn obeys_eq_spec() -> bool {
        true
    }

    open spec fn eq_spec(&self, other: &Self) -> bool {
        self.deep_view() == other.deep_view()
    }
}

impl PartialMatchable for DevicePluginUpdate {
    type Pattern = Option<DevicePluginUpdatePattern>;

    open spec fn spec_matches(&self, pattern: &Self::Pattern) -> bool {
        match pattern {
            None => true,
            Some(p) => self.event_type.spec_matches(&p.event_type) && self.resource_name.spec_matches(&p.resource_name) && self.volume.spec_matches(&p.volume) && self.old.spec_matches(&p.old) && self.new.spec_matches(&p.new),
        }
    }

    fn matches(&self, pattern: &Self::Pattern) -> (r: bool) {
        match pattern {
            None => true,
            Some(p) => self.event_type.matches(&p.event_type) && self.resource_name.matches(&p.resource_name) && self.volume.matches(&p.volume) && self.old.matches(&p.old) && self.new.matches(&p.new),
        }
    }
}

/// The all-optional pattern over a [`PeerDevicePluginUpdate`]; the carried resource snapshot
/// takes no part in matching.
#[derive(Debug)]
pub struct PeerDevicePluginUpdatePattern {
    pub event_type: Option<BasicPattern<EventType>>,
    pub resource_name: Option<BasicPattern<String>>,
    pub volume: Option<BasicPattern<i32>>,
    pub peer_node_id: Option<BasicPattern<i32>>,
    pub old: Option<PeerDeviceUpdateStatePattern>,
    pub new: Option<PeerDeviceUpdateStatePattern>,
}

/// Mathematical value of a [`PeerDevicePluginUpdatePattern`].
pub struct PeerDevicePluginUpdatePatternView {
    pub event_type: Option<BasicPatternView<EventType>>,
    pub resource_name: Option<BasicPatternView<Seq<char>>>,
    pub volume: Option<BasicPatternView<i32>>,
    pub peer_node_id: Option<BasicPatternView<i32>>,
    pub old: Option<PeerDeviceUpdateStatePatternView>,
    pub new: Option<PeerDeviceUpdateStatePatternView>,
}

impl DeepView for PeerDevicePluginUpdatePattern {
    type V = PeerDevicePluginUpdatePatternView;

    open spec fn deep_view(&self) -> PeerDevicePluginUpdatePatternView {
        PeerDevicePluginUpdatePatternView {
            event_type: self.event_type.deep_view(),
            resource_name: self.resource_name.deep_view(),
            volume: self.volume.deep_view(),
            peer_node_id: self.peer_node_id.deep_view(),
            old: self.old.deep_view(),
            new: self.new.deep_view(),
        }
    }
}

impl Clone for PeerDevicePluginUpdatePattern {
    fn clone(&self) -> (r: Self)
        ensures
            r.deep_view() == self.deep_view(),
    {
        PeerDevicePluginUpdatePattern {
            event_type: obp_et_clone(&self.event_type),
            resource_name: obp_string_clone(&self.resource_name),
            volume: obp_i32_clone(&self.volume),
            peer_node_id: obp_i32_clone(&self.peer_node_id),
            old: osp_clone_peerdeviceupdatestate(&self.old),
            new: osp_clone_peerdeviceupdatestate(&self.new),
        }
    }
}

impl PartialEq for PeerDevicePluginUpdatePattern {
    fn eq(&self, other: &Self) -> (r: bool) {
        obp_et_eq(&self.event_type, &other.event_type) && obp_string_eq(&self.resource_name, &other.resource_name) && obp_i32_eq(&self.volume, &other.volume) && obp_i32_eq(&self.peer_node_id, &other.peer_node_id) && osp_eq_peerdeviceupdatestate(&self.old, &other.old) && osp_eq_peerdeviceupdatestate(&self.new, &other.new)
    }
}

impl Eq for PeerDevicePluginUpdatePattern {

}

impl vstd::std_specs::cmp::PartialEqSpecImpl for PeerDevicePluginUpdatePattern {
    open spec fn obeys_eq_spec() -> bool {
        true
    }

    open spec fn eq_spec(&self, other: &Self) -> bool {
        self.deep_view() == other.deep_view()
    }
}

impl PartialMatchable for PeerDevicePluginUpdate {
    type Pattern = Option<PeerDevicePluginUpdatePattern>;

    open spec fn spec_matches(&self, pattern: &Self::Pattern) -> bool {
        match pattern {
            None => true,
            Some(p) => self.event_type.spec_matches(&p.event_type) && self.resource_name.spec_matches(&p.resource_name) && self.volume.spec_matches(&p.volume) && self.peer_node_id.spec_matches(&p.peer_node_id) && self.old.spec_matches(&p.old) && self.new.spec_matches(&p.new),
        }
    }

    fn matches(&self, pattern: &Self::Pattern) -> (r: bool) {
        match pattern {
            None => true,
            Some(p) => self.event_type.matches(&p.event_type) && self.resource_name.matches(&p.resource_name) && self.volume.matches(&p.volume) && self.peer_node_id.matches(&p.peer_node_id) && self.old.matches(&p.old) && self.new.matches(&p.new),
        }
    }
}

/// The all-optional pattern over a [`ConnectionPluginUpdate`]; the carried resource snapshot
/// takes no part in matching.
#[derive(Debug)]
pub struct ConnectionPluginUpdatePattern {
    pub event_type: Option<BasicPattern<EventType>>,
    pub resource_name: Option<BasicPattern<String>>,
    pub peer_node_id: Option<BasicPattern<i32>>,
    pub old: Option<ConnectionUpdateStatePattern>,
    pub new: Option<ConnectionUpdateStatePattern>,
}

/// Mathematical value of a [`ConnectionPluginUpdatePattern`].
pub struct ConnectionPluginUpdatePatternView {
    pub event_type: Option<BasicPatternView<EventType>>,
    pub resource_name: Option<BasicPatternView<Seq<char>>>,
    pub peer_node_id: Option<BasicPatternView<i32>>,
    pub old: Option<ConnectionUpdateStatePatternView>,
    pub new: Option<ConnectionUpdateStatePatternView>,
}

impl DeepView for ConnectionPluginUpdatePattern {
    type V = ConnectionPluginUpdatePatternView;

    open spec fn deep_view(&self) -> ConnectionPluginUpdatePatternView {
        ConnectionPluginUpdatePatternView {
            event_type: self.event_type.deep_view(),
            resource_name: self.resource_name.deep_view(),
            peer_node_id: self.peer_node_id.deep_view(),
            old: self.old.deep_view(),
            new: self.new.deep_view(),
        }
    }
}

impl Clone for ConnectionPluginUpdatePattern {
    fn clone(&self) -> (r: Self)
        ensures
            r.deep_view() == self.deep_view(),
    {
        ConnectionPluginUpdatePattern {
            event_type: obp_et_clone(&self.event_type),
            resource_name: obp_string_clone(&self.resource_name),
            peer_node_id: obp_i32_clone(&self.peer_node_id),
            old: osp_clone_connectionupdatestate(&self.old),
            new: osp_clone_connectionupdatestate(&self.new),
        }
    }
}

impl PartialEq for ConnectionPluginUpdatePattern {
    fn eq(&self, other: &Self) -> (r: bool) {
        obp_et_eq(&self.event_type, &other.event_type) && obp_string_eq(&self.resource_name, &other.resource_name) && obp_i32_eq(&self.peer_node_id, &other.peer_node_id) && osp_eq_connectionupdatestate(&self.old, &other.old) && osp_eq_connectionupdatestate(&self.new, &other.new)
    }
}

impl Eq for ConnectionPluginUpdatePattern {

}

impl vstd::std_specs::cmp::PartialEqSpecImpl for ConnectionPluginUpdatePattern {
    open spec fn obeys_eq_spec() -> bool {
        true
    }

    open spec fn eq_spec(&self, other: &Self) -> bool {
        self.deep_view() == other.deep_view()
    }
}

impl PartialMatchable for ConnectionPluginUpdate {
    type Pattern = Option<ConnectionPluginUpdatePattern>;

    open spec fn spec_matches(&self, pattern: &Self::Pattern) -> bool {
        match pattern {
            None => true,
            Some(p) => self.event_type.spec_matches(&p.event_type) && self.resource_name.spec_matches(&p.resource_name) && self.peer_node_id.spec_matches(&p.peer_node_id) && self.old.spec_matches(&p.old) && self.new.spec_matches(&p.new),
        }
    }

    fn matches(&self, pattern: &Self::Pattern) -> (r: bool) {
        match pattern {
            None => true,
            Some(p) => self.event_type.matches(&p.event_type) && self.resource_name.matches(&p.resource_name) && self.peer_node_id.matches(&p.peer_node_id) && self.old.matches(&p.old) && self.new.matches(&p.new),
        }
    }
}
} // verus!
