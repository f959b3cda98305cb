//! The parser for the kernel tool's event stream: one typed event per line,
//! `<verb> <object> [<key>:<value> ...]`, with a strict per-object key
//! whitelist.

use vstd::prelude::*;

use crate::drbd::{
    BackingDevice, Connection, ConnectionState, Device, DiskState, EventType, Path, PeerDevice,
    ReplicationState, Resource, Role,
};
use crate::strutil::{
    find_char, i32_parse, parse_i32, parse_u64, split_whitespace, split_ws, str_eq, substring,
    u64_parse,
};

verus! {

/// A typed event read from the stream, or a control directive.
#[derive(Debug)]
pub enum EventUpdate {
    Resource(EventType, Resource),
    Device(EventType, Device),
    PeerDevice(EventType, PeerDevice),
    Connection(EventType, Connection),
    Path(EventType, Path),
    Stop,
    Reload,
    Flush,
}

/// Mathematical value of an [`EventUpdate`].
pub enum EventUpdateView {
    Resource(EventType, crate::drbd::ResourceView),
    Device(EventType, crate::drbd::DeviceView),
    PeerDevice(EventType, crate::drbd::PeerDeviceView),
    Connection(EventType, crate::drbd::ConnectionView),
    Path(EventType, crate::drbd::PathView),
    Stop,
    Reload,
    Flush,
}

impl View for EventUpdate {
    type V = EventUpdateView;

    open spec fn view(&self) -> EventUpdateView {
        match self {
            EventUpdate::Resource(et, r) => EventUpdateView::Resource(*et, r@),
            EventUpdate::Device(et, d) => EventUpdateView::Device(*et, d@),
            EventUpdate::PeerDevice(et, d) => EventUpdateView::PeerDevice(*et, d@),
            EventUpdate::Connection(et, c) => EventUpdateView::Connection(*et, c@),
            EventUpdate::Path(et, p) => EventUpdateView::Path(*et, p@),
            EventUpdate::Stop => EventUpdateView::Stop,
            EventUpdate::Reload => EventUpdateView::Reload,
            EventUpdate::Flush => EventUpdateView::Flush,
        }
    }
}

impl PartialEq for EventUpdate {
    fn eq(&self, other: &Self) -> (r: bool) {
        match (self, other) {
            (EventUpdate::Resource(a, x), EventUpdate::Resource(b, y)) => *a == *b && x == y,
            (EventUpdate::Device(a, x), EventUpdate::Device(b, y)) => *a == *b && x == y,
            (EventUpdate::PeerDevice(a, x), EventUpdate::PeerDevice(b, y)) => *a == *b && x == y,
            (EventUpdate::Connection(a, x), EventUpdate::Connection(b, y)) => *a == *b && x == y,
            (EventUpdate::Path(a, x), EventUpdate::Path(b, y)) => *a == *b && x == y,
            (EventUpdate::Stop, EventUpdate::Stop) => true,
            (EventUpdate::Reload, EventUpdate::Reload) => true,
            (EventUpdate::Flush, EventUpdate::Flush) => true,
            _ => false,
        }
    }
}

impl Eq for EventUpdate {

}

impl vstd::std_specs::cmp::PartialEqSpecImpl for EventUpdate {
    open spec fn obeys_eq_spec() -> bool {
        true
    }

    open spec fn eq_spec(&self, other: &Self) -> bool {
        self@ == other@
    }
}

/// Why an event line was rejected.
#[derive(Clone, Copy, PartialEq, Eq, Structural, Debug)]
pub enum ParseError {
    /// The first word is none of `exists`, `create`, `destroy`, `change`.
    UnknownEventType,
    /// The second word is none of the five object kinds.
    UnknownObject,
    /// A key is not whitelisted for the object, or a value does not parse.
    BadKeyValue,
}

impl ParseError {
    /// A short message naming the reason.
    pub fn text(&self) -> (r: &'static str)
        ensures
            r@ == self.spec_text(),
    {
        match self {
            ParseError::UnknownEventType => "unknown events type",
            ParseError::UnknownObject => "unknown object keyword",
            ParseError::BadKeyValue => "unknown keyword or malformed value",
        }
    }

    pub open spec fn spec_text(&self) -> Seq<char> {
        match self {
            ParseError::UnknownEventType => "unknown events type"@,
            ParseError::UnknownObject => "unknown object keyword"@,
            ParseError::BadKeyValue => "unknown keyword or malformed value"@,
        }
    }
}

/// `yes` and `true` are the two spellings of truth in the event stream.
pub open spec fn spec_str_to_bool(s: Seq<char>) -> bool {
    s == "yes"@ || s == "true"@
}

/// Reads a boolean of the event stream: `yes` and `true` hold, everything
/// else does not.
pub fn str_to_bool(s: &str) -> (r: bool)
    ensures
        r == spec_str_to_bool(s@),
{
    str_eq(s, "yes") || str_eq(s, "true")
}

/// The first position of `c` in `w`.
pub open spec fn find_ch(w: Seq<char>, c: char) -> Option<int>
    decreases w.len(),
{
    if w.len() == 0 {
        None
    } else if w[0] == c {
        Some(0)
    } else {
        match find_ch(w.drop_first(), c) {
            Some(i) => Some(i + 1),
            None => None,
        }
    }
}

pub proof fn lemma_find_ch(w: Seq<char>, c: char)
    ensures
        match find_ch(w, c) {
            Some(i) => 0 <= i < w.len() && w[i] == c && forall|j: int| 0 <= j < i ==> w[j] != c,
            None => forall|j: int| 0 <= j < w.len() ==> w[j] != c,
        },
    decreases w.len(),
{
    if w.len() > 0 && w[0] != c {
        lemma_find_ch(w.drop_first(), c);
        let rest = w.drop_first();
        assert(forall|j: int| 0 <= j < rest.len() ==> rest[j] == w[j + 1]);
        match find_ch(rest, c) {
            Some(i) => {
                assert(find_ch(w, c) == Some(i + 1));
                assert(w[i + 1] == rest[i]);
                assert(forall|j: int| 1 <= j < i + 1 ==> w[j] == rest[j - 1] && rest[j - 1] != c);
                assert(forall|j: int| 0 <= j < i + 1 ==> w[j] != c);
            },
            None => {
                assert(find_ch(w, c) is None);
                assert(forall|j: int| 1 <= j < w.len() ==> w[j] == rest[j - 1] && rest[j - 1]
                    != c);
                assert(forall|j: int| 0 <= j < w.len() ==> w[j] != c);
            },
        }
    }
}

/// A word split at its first colon into key and value.
pub open spec fn kv_of(w: Seq<char>) -> Option<(Seq<char>, Seq<char>)> {
    match find_ch(w, ':') {
        Some(i) => Some((w.take(i), w.skip(i + 1))),
        None => None,
    }
}

/// Splits a `key:value` word at the first colon; a word without a colon
/// carries no key-value pair and is skipped by the parser.
pub fn parse_kv(item: &str) -> (r: Option<(String, String)>)
    ensures
        r.deep_view() == kv_of(item@),
{
    let len = item.unicode_len();
    match find_char(item, ':') {
        Some(i) => {
            proof {
                lemma_find_ch(item@, ':');
                let fi = find_ch(item@, ':');
                assert(fi is Some);
                let ii = fi.unwrap();
                assert(item@[ii] == ':' && forall|j: int| 0 <= j < ii ==> item@[j] != ':');
                assert(ii == i as int);
            }
            let k = substring(item, 0, i);
            let v = substring(item, i + 1, len);
            proof {
                assert(item@.subrange(0, i as int) =~= item@.take(i as int));
                assert(item@.subrange(i + 1, item@.len() as int) =~= item@.skip(i + 1));
            }
            Some((k, v))
        },
        None => {
            proof {
                lemma_find_ch(item@, ':');
                if find_ch(item@, ':') is Some {
                    let ii = find_ch(item@, ':').unwrap();
                    assert(item@[ii] == ':');
                }
            }
            None
        },
    }
}

/// The key-value pairs of the words, in order; words without a colon are
/// dropped.
pub open spec fn kvs_of(words: Seq<Seq<char>>) -> Seq<(Seq<char>, Seq<char>)>
    decreases words.len(),
{
    if words.len() == 0 {
        Seq::empty()
    } else {
        match kv_of(words[0]) {
            Some(kv) => seq![kv] + kvs_of(words.drop_first()),
            None => kvs_of(words.drop_first()),
        }
    }
}

} // verus!

verus! {

use crate::drbd::{resource_default, ResourceView};

/// One whitelisted resource key applied to the value built so far; `None`
/// for a key outside the whitelist or a value that does not parse.
pub open spec fn resource_apply_kv(r: ResourceView, k: Seq<char>, v: Seq<char>) -> Option<
    ResourceView,
> {
    if k == "name"@ {
        Some(ResourceView { name: v, ..r })
    } else if k == "role"@ {
        match Role::spec_from_str(v) {
            Some(x) => Some(ResourceView { role: x, ..r }),
            None => None,
        }
    } else if k == "suspended"@ {
        Some(ResourceView { suspended: spec_str_to_bool(v), ..r })
    } else if k == "write-ordering"@ {
        Some(ResourceView { write_ordering: v, ..r })
    } else if k == "may_promote"@ {
        Some(ResourceView { may_promote: spec_str_to_bool(v), ..r })
    } else if k == "promotion_score"@ {
        match i32_parse(v) {
            Some(n) => Some(ResourceView { promotion_score: n as int, ..r }),
            None => None,
        }
    } else {
        None
    }
}

/// The resource read from a key-value list, left to right.
pub open spec fn resource_from_kvs(kvs: Seq<(Seq<char>, Seq<char>)>, acc: ResourceView) -> Option<
    ResourceView,
>
    decreases kvs.len(),
{
    if kvs.len() == 0 {
        Some(acc)
    } else {
        match resource_apply_kv(acc, kvs[0].0, kvs[0].1) {
            Some(x) => resource_from_kvs(kvs.drop_first(), x),
            None => None,
        }
    }
}

/// Parses the key-value words of a resource event, `start` words in.
fn parse_resource_words(words: &Vec<String>, start: usize) -> (r: Result<Resource, ParseError>)
    requires
        start <= words@.len(),
    ensures
        ({
            let kvs = kvs_of(words.deep_view().skip(start as int));
            match r {
                Ok(res) => resource_from_kvs(kvs, resource_default()) == Some(res@) && res.wf(),
                Err(e) => resource_from_kvs(kvs, resource_default()) is None && e
                    == ParseError::BadKeyValue,
            }
        }),
{
    let ghost all = words.deep_view();
    let mut res = Resource::default();
    proof {
        assert(res@.devices =~= Seq::<crate::drbd::DeviceView>::empty());
        assert(res@.connections =~= Seq::<crate::drbd::ConnectionView>::empty());
    }
    let mut i: usize = start;
    while i < words.len()
        invariant
            start <= i <= all.len(),
            all == words.deep_view(),
            res@.devices.len() == 0,
            res@.connections.len() == 0,
            resource_from_kvs(kvs_of(all.skip(start as int)), resource_default())
                == resource_from_kvs(kvs_of(all.skip(i as int)), res@),
        decreases all.len() - i,
    {
        let ghost tail = all.skip(i as int);
        proof {
            assert(tail[0] == words@[i as int]@);
            assert(tail.drop_first() =~= all.skip(i as int + 1));
        }
        let w = &words[i];
        match parse_kv(w.as_str()) {
            None => {
                proof {
                    assert(kv_of(tail[0]) is None);
                    assert(kvs_of(tail) == kvs_of(tail.drop_first()));
                }
            },
            Some((k, v)) => {
                let ghost kv = (k@, v@);
                proof {
                    assert(kv_of(tail[0]) == Some(kv));
                    assert(kvs_of(tail) == seq![kv] + kvs_of(tail.drop_first()));
                    assert((seq![kv] + kvs_of(tail.drop_first()))[0] == kv);
                    assert((seq![kv] + kvs_of(tail.drop_first())).drop_first() =~= kvs_of(
                        tail.drop_first(),
                    ));
                }
                if str_eq(k.as_str(), "name") {
                    res.name = v;
                } else if str_eq(k.as_str(), "role") {
                    match Role::from_str(v.as_str()) {
                        Ok(x) => {
                            res.role = x;
                        },
                        Err(_) => {
                            return Err(ParseError::BadKeyValue);
                        },
                    }
                } else if str_eq(k.as_str(), "suspended") {
                    res.suspended = str_to_bool(v.as_str());
                } else if str_eq(k.as_str(), "write-ordering") {
                    res.write_ordering = v;
                } else if str_eq(k.as_str(), "may_promote") {
                    res.may_promote = str_to_bool(v.as_str());
                } else if str_eq(k.as_str(), "promotion_score") {
                    match parse_i32(v.as_str()) {
                        Some(n) => {
                            res.promotion_score = n;
                        },
                        None => {
                            return Err(ParseError::BadKeyValue);
                        },
                    }
                } else {
                    return Err(ParseError::BadKeyValue);
                }
            },
        }
        i = i + 1;
    }
    proof {
        assert(all.skip(all.len() as int) =~= Seq::<Seq<char>>::empty());
        assert(res.wf());
    }
    Ok(res)
}

} // verus!

verus! {
use crate::drbd::{device_default, connection_default, peerdevice_default, path_default, spec_backing_device, DeviceView, ConnectionView, PeerDeviceView, PathView, cv_wf, rv_wf};
/// One whitelisted device key applied to the value built so far;
/// `None` for a key outside the whitelist or a value that does not parse.
pub open spec fn device_apply_kv(d: DeviceView, k: Seq<char>, v: Seq<char>) -> Option<DeviceView> {
    if k == "name"@ {
        Some(DeviceView { name: v, ..d })
    } else if k == "volume"@ {
        match i32_parse(v) {
            Some(n) => Some(DeviceView { volume: n as int, ..d }),
            None => None,
        }
    } else if k == "minor"@ {
        match i32_parse(v) {
            Some(n) => Some(DeviceView { minor: n as int, ..d }),
            None => None,
        }
    } else if k == "disk"@ {
        match DiskState::spec_from_str(v) {
            Some(x) => Some(DeviceView { disk_state: x, ..d }),
            None => None,
        }
    } else if k == "client"@ {
        Some(DeviceView { client: spec_str_to_bool(v), ..d })
    } else if k == "backing_dev"@ {
        Some(DeviceView { backing_dev: spec_backing_device(v), ..d })
    } else if k == "quorum"@ {
        Some(DeviceView { quorum: spec_str_to_bool(v), ..d })
    } else if k == "size"@ {
        match u64_parse(v) {
            Some(n) => Some(DeviceView { size: n as nat, ..d }),
            None => None,
        }
    } else if k == "read"@ {
        match u64_parse(v) {
            Some(n) => Some(DeviceView { read: n as nat, ..d }),
            None => None,
        }
    } else if k == "written"@ {
        match u64_parse(v) {
            Some(n) => Some(DeviceView { written: n as nat, ..d }),
            None => None,
        }
    } else if k == "al-writes"@ {
        match u64_parse(v) {
            Some(n) => Some(DeviceView { al_writes: n as nat, ..d }),
            None => None,
        }
    } else if k == "bm-writes"@ {
        match u64_parse(v) {
            Some(n) => Some(DeviceView { bm_writes: n as nat, ..d }),
            None => None,
        }
    } else if k == "upper-pending"@ {
        match u64_parse(v) {
            Some(n) => Some(DeviceView { upper_pending: n as nat, ..d }),
            None => None,
        }
    } else if k == "lower-pending"@ {
        match u64_parse(v) {
            Some(n) => Some(DeviceView { lower_pending: n as nat, ..d }),
            None => None,
        }
    } else if k == "al-suspended"@ {
        Some(DeviceView { al_suspended: spec_str_to_bool(v), ..d })
    } else if k == "blocked"@ {
        Some(DeviceView { blocked: v, ..d })
    } else {
        None
    }
}

/// The device read from a key-value list, left to right.
pub open spec fn device_from_kvs(kvs: Seq<(Seq<char>, Seq<char>)>, acc: DeviceView) -> Option<DeviceView>
    decreases kvs.len(),
{
    if kvs.len() == 0 {
        Some(acc)
    } else {
        match device_apply_kv(acc, kvs[0].0, kvs[0].1) {
            Some(x) => device_from_kvs(kvs.drop_first(), x),
            None => None,
        }
    }
}
/// Parses the key-value words of a device event, `start` words in.
fn parse_device_words(words: &Vec<String>, start: usize) -> (r: Result<Device, ParseError>)
    requires
        start <= words@.len(),
    ensures
        ({
            let kvs = kvs_of(words.deep_view().skip(start as int));
            match r {
                Ok(res) => device_from_kvs(kvs, device_default()) == Some(res@),
                Err(e) => device_from_kvs(kvs, device_default()) is None && e == ParseError::BadKeyValue,
            }
        }),
{
    let ghost all = words.deep_view();
    let mut res = Device::default();
    let mut i: usize = start;
    while i < words.len()
        invariant
            start <= i <= all.len(),
            all == words.deep_view(),
            device_from_kvs(kvs_of(all.skip(start as int)), device_default())
                == device_from_kvs(kvs_of(all.skip(i as int)), res@),
        decreases all.len() - i,
    {
        let ghost tail = all.skip(i as int);
        proof {
            assert(tail[0] == words@[i as int]@);
            assert(tail.drop_first() =~= all.skip(i as int + 1));
        }
        let w = &words[i];
        match parse_kv(w.as_str()) {
            None => {
                proof {
                    assert(kv_of(tail[0]) is None);
                    assert(kvs_of(tail) == kvs_of(tail.drop_first()));
                }
            },
            Some((k, v)) => {
                let ghost kv = (k@, v@);
                proof {
                    assert(kv_of(tail[0]) == Some(kv));
                    assert(kvs_of(tail) == seq![kv] + kvs_of(tail.drop_first()));
                    assert((seq![kv] + kvs_of(tail.drop_first()))[0] == kv);
                    assert((seq![kv] + kvs_of(tail.drop_first())).drop_first() =~= kvs_of(
                        tail.drop_first(),
                    ));
                }
                if str_eq(k.as_str(), "name") {
                    res.name = v;
                } else if str_eq(k.as_str(), "volume") {
                    match parse_i32(v.as_str()) {
                        Some(n) => {
                            res.volume = n;
                        },
                        None => {
                            return Err(ParseError::BadKeyValue);
                        },
                    }
                } else if str_eq(k.as_str(), "minor") {
                    match parse_i32(v.as_str()) {
                        Some(n) => {
                            res.minor = n;
                        },
                        None => {
                            return Err(ParseError::BadKeyValue);
                        },
                    }
                } else if str_eq(k.as_str(), "disk") {
                    match DiskState::from_str(v.as_str()) {
                        Ok(x) => {
                            res.disk_state = x;
                        },
                        Err(_) => {
                            return Err(ParseError::BadKeyValue);
                        },
                    }
                } else if str_eq(k.as_str(), "client") {
                    res.client = str_to_bool(v.as_str());
                } else if str_eq(k.as_str(), "backing_dev") {
                    res.backing_dev = BackingDevice::from_str(v.as_str());
                } else if str_eq(k.as_str(), "quorum") {
                    res.quorum = str_to_bool(v.as_str());
                } else if str_eq(k.as_str(), "size") {
                    match parse_u64(v.as_str()) {
                        Some(n) => {
                            res.size = n;
                        },
                        None => {
                            return Err(ParseError::BadKeyValue);
                        },
                    }
                } else if str_eq(k.as_str(), "read") {
                    match parse_u64(v.as_str()) {
                        Some(n) => {
                            res.read = n;
                        },
                        None => {
                            return Err(ParseError::BadKeyValue);
                        },
                    }
                } else if str_eq(k.as_str(), "written") {
                    match parse_u64(v.as_str()) {
                        Some(n) => {
                            res.written = n;
                        },
                        None => {
                            return Err(ParseError::BadKeyValue);
                        },
                    }
                } else if str_eq(k.as_str(), "al-writes") {
                    match parse_u64(v.as_str()) {
                        Some(n) => {
                            res.al_writes = n;
                        },
                        None => {
                            return Err(ParseError::BadKeyValue);
                        },
                    }
                } else if str_eq(k.as_str(), "bm-writes") {
                    match parse_u64(v.as_str()) {
                        Some(n) => {
                            res.bm_writes = n;
                        },
                        None => {
                            return Err(ParseError::BadKeyValue);
                        },
                    }
                } else if str_eq(k.as_str(), "upper-pending") {
                    match parse_u64(v.as_str()) {
                        Some(n) => {
                            res.upper_pending = n;
                        },
                        None => {
                            return Err(ParseError::BadKeyValue);
                        },
                    }
                } else if str_eq(k.as_str(), "lower-pending") {
                    match parse_u64(v.as_str()) {
                        Some(n) => {
                            res.lower_pending = n;
                        },
                        None => {
                            return Err(ParseError::BadKeyValue);
                        },
                    }
                } else if str_eq(k.as_str(), "al-suspended") {
                    res.al_suspended = str_to_bool(v.as_str());
                } else if str_eq(k.as_str(), "blocked") {
                    res.blocked = v;
                } else {
                    return Err(ParseError::BadKeyValue);
                }
            },
        }
        i = i + 1;
    }
    proof {
        assert(all.skip(all.len() as int) =~= Seq::<Seq<char>>::empty());
    }
    Ok(res)
}

/// One whitelisted connection key applied to the value built so far;
/// `None` for a key outside the whitelist or a value that does not parse.
pub open spec fn connection_apply_kv(d: ConnectionView, k: Seq<char>, v: Seq<char>) -> Option<ConnectionView> {
    if k == "name"@ {
        Some(ConnectionView { name: v, ..d })
    } else if k == "peer-node-id"@ {
        match i32_parse(v) {
            Some(n) => Some(ConnectionView { peer_node_id: n as int, ..d }),
            None => None,
        }
    } else if k == "conn-name"@ {
        Some(ConnectionView { conn_name: v, ..d })
    } else if k == "connection"@ {
        match ConnectionState::spec_from_str(v) {
            Some(x) => Some(ConnectionView { connection: x, ..d }),
            None => None,
        }
    } else if k == "role"@ {
        match Role::spec_from_str(v) {
            Some(x) => Some(ConnectionView { peer_role: x, ..d }),
            None => None,
        }
    } else if k == "congested"@ {
        Some(ConnectionView { congested: spec_str_to_bool(v), ..d })
    } else if k == "ap-in-flight"@ {
        match u64_parse(v) {
            Some(n) => Some(ConnectionView { ap_in_flight: n as nat, ..d }),
            None => None,
        }
    } else if k == "rs-in-flight"@ {
        match u64_parse(v) {
            Some(n) => Some(ConnectionView { rs_in_flight: n as nat, ..d }),
            None => None,
        }
    } else {
        None
    }
}

/// The connection read from a key-value list, left to right.
pub open spec fn connection_from_kvs(kvs: Seq<(Seq<char>, Seq<char>)>, acc: ConnectionView) -> Option<ConnectionView>
    decreases kvs.len(),
{
    if kvs.len() == 0 {
        Some(acc)
    } else {
        match connection_apply_kv(acc, kvs[0].0, kvs[0].1) {
            Some(x) => connection_from_kvs(kvs.drop_first(), x),
            None => None,
        }
    }
}
/// Parses the key-value words of a connection event, `start` words in.
fn parse_connection_words(words: &Vec<String>, start: usize) -> (r: Result<Connection, ParseError>)
    requires
        start <= words@.len(),
    ensures
        ({
            let kvs = kvs_of(words.deep_view().skip(start as int));
            match r {
                Ok(res) => connection_from_kvs(kvs, connection_default()) == Some(res@) && res@.peerdevices.len() == 0 && res@.paths.len() == 0 && cv_wf(res@),
                Err(e) => connection_from_kvs(kvs, connection_default()) is None && e == ParseError::BadKeyValue,
            }
        }),
{
    let ghost all = words.deep_view();
    let mut res = Connection::default();
    proof {
        assert(res@.peerdevices =~= Seq::<PeerDeviceView>::empty());
        assert(res@.paths =~= Seq::<PathView>::empty());
    }
    let mut i: usize = start;
    while i < words.len()
        invariant
            start <= i <= all.len(),
            all == words.deep_view(),
            res@.peerdevices.len() == 0,
            res@.paths.len() == 0,
            connection_from_kvs(kvs_of(all.skip(start as int)), connection_default())
                == connection_from_kvs(kvs_of(all.skip(i as int)), res@),
        decreases all.len() - i,
    {
        let ghost tail = all.skip(i as int);
        proof {
            assert(tail[0] == words@[i as int]@);
            assert(tail.drop_first() =~= all.skip(i as int + 1));
        }
        let w = &words[i];
        match parse_kv(w.as_str()) {
            None => {
                proof {
                    assert(kv_of(tail[0]) is None);
                    assert(kvs_of(tail) == kvs_of(tail.drop_first()));
                }
            },
            Some((k, v)) => {
                let ghost kv = (k@, v@);
                proof {
                    assert(kv_of(tail[0]) == Some(kv));
                    assert(kvs_of(tail) == seq![kv] + kvs_of(tail.drop_first()));
                    assert((seq![kv] + kvs_of(tail.drop_first()))[0] == kv);
                    assert((seq![kv] + kvs_of(tail.drop_first())).drop_first() =~= kvs_of(
                        tail.drop_first(),
                    ));
                }
                if str_eq(k.as_str(), "name") {
                    res.name = v;
                } else if str_eq(k.as_str(), "peer-node-id") {
                    match parse_i32(v.as_str()) {
                        Some(n) => {
                            res.peer_node_id = n;
                        },
                        None => {
                            return Err(ParseError::BadKeyValue);
                        },
                    }
                } else if str_eq(k.as_str(), "conn-name") {
                    res.conn_name = v;
                } else if str_eq(k.as_str(), "connection") {
                    match ConnectionState::from_str(v.as_str()) {
                        Ok(x) => {
                            res.connection = x;
                        },
                        Err(_) => {
                            return Err(ParseError::BadKeyValue);
                        },
                    }
                } else if str_eq(k.as_str(), "role") {
                    match Role::from_str(v.as_str()) {
                        Ok(x) => {
                            res.peer_role = x;
                        },
                        Err(_) => {
                            return Err(ParseError::BadKeyValue);
                        },
                    }
                } else if str_eq(k.as_str(), "congested") {
                    res.congested = str_to_bool(v.as_str());
                } else if str_eq(k.as_str(), "ap-in-flight") {
                    match parse_u64(v.as_str()) {
                        Some(n) => {
                            res.ap_in_flight = n;
                        },
                        None => {
                            return Err(ParseError::BadKeyValue);
                        },
                    }
                } else if str_eq(k.as_str(), "rs-in-flight") {
                    match parse_u64(v.as_str()) {
                        Some(n) => {
                            res.rs_in_flight = n;
                        },
                        None => {
                            return Err(ParseError::BadKeyValue);
                        },
                    }
                } else {
                    return Err(ParseError::BadKeyValue);
                }
            },
        }
        i = i + 1;
    }
    proof {
        assert(all.skip(all.len() as int) =~= Seq::<Seq<char>>::empty());
    }
    Ok(res)
}

/// One whitelisted peer device key applied to the value built so far;
/// `None` for a key outside the whitelist or a value that does not parse.
pub open spec fn peerdevice_apply_kv(d: PeerDeviceView, k: Seq<char>, v: Seq<char>) -> Option<PeerDeviceView> {
    if k == "name"@ {
        Some(PeerDeviceView { name: v, ..d })
    } else if k == "conn-name"@ {
        Some(PeerDeviceView { conn_name: v, ..d })
    } else if k == "volume"@ {
        match i32_parse(v) {
            Some(n) => Some(PeerDeviceView { volume: n as int, ..d }),
            None => None,
        }
    } else if k == "peer-node-id"@ {
        match i32_parse(v) {
            Some(n) => Some(PeerDeviceView { peer_node_id: n as int, ..d }),
            None => None,
        }
    } else if k == "replication"@ {
        match ReplicationState::spec_from_str(v) {
            Some(x) => Some(PeerDeviceView { replication_state: x, ..d }),
            None => None,
        }
    } else if k == "peer-disk"@ {
        match DiskState::spec_from_str(v) {
            Some(x) => Some(PeerDeviceView { peer_disk_state: x, ..d }),
            None => None,
        }
    } else if k == "peer-client"@ {
        Some(PeerDeviceView { peer_client: spec_str_to_bool(v), ..d })
    } else if k == "resync-suspended"@ {
        Some(PeerDeviceView { resync_suspended: spec_str_to_bool(v), ..d })
    } else if k == "received"@ {
        match u64_parse(v) {
            Some(n) => Some(PeerDeviceView { received: n as nat, ..d }),
            None => None,
        }
    } else if k == "sent"@ {
        match u64_parse(v) {
            Some(n) => Some(PeerDeviceView { sent: n as nat, ..d }),
            None => None,
        }
    } else if k == "out-of-sync"@ {
        match u64_parse(v) {
            Some(n) => Some(PeerDeviceView { out_of_sync: n as nat, ..d }),
            None => None,
        }
    } else if k == "pending"@ {
        match u64_parse(v) {
            Some(n) => Some(PeerDeviceView { pending: n as nat, ..d }),
            None => None,
        }
    } else if k == "unacked"@ {
        match u64_parse(v) {
            Some(n) => Some(PeerDeviceView { unacked: n as nat, ..d }),
            None => None,
        }
    } else if k == "done"@ {
        Some(d)
    } else if k == "eta"@ {
        Some(d)
    } else if k == "dbdt1"@ {
        Some(d)
    } else {
        None
    }
}

/// The peer device read from a key-value list, left to right.
pub open spec fn peerdevice_from_kvs(kvs: Seq<(Seq<char>, Seq<char>)>, acc: PeerDeviceView) -> Option<PeerDeviceView>
    decreases kvs.len(),
{
    if kvs.len() == 0 {
        Some(acc)
    } else {
        match peerdevice_apply_kv(acc, kvs[0].0, kvs[0].1) {
            Some(x) => peerdevice_from_kvs(kvs.drop_first(), x),
            None => None,
        }
    }
}
/// Parses the key-value words of a peer device event, `start` words in.
fn parse_peerdevice_words(words: &Vec<String>, start: usize) -> (r: Result<PeerDevice, ParseError>)
    requires
        start <= words@.len(),
    ensures
        ({
            let kvs = kvs_of(words.deep_view().skip(start as int));
            match r {
                Ok(res) => peerdevice_from_kvs(kvs, peerdevice_default()) == Some(res@),
                Err(e) => peerdevice_from_kvs(kvs, peerdevice_default()) is None && e == ParseError::BadKeyValue,
            }
        }),
{
    let ghost all = words.deep_view();
    let mut res = PeerDevice::default();
    let mut i: usize = start;
    while i < words.len()
        invariant
            start <= i <= all.len(),
            all == words.deep_view(),
            peerdevice_from_kvs(kvs_of(all.skip(start as int)), peerdevice_default())
                == peerdevice_from_kvs(kvs_of(all.skip(i as int)), res@),
        decreases all.len() - i,
    {
        let ghost tail = all.skip(i as int);
        proof {
            assert(tail[0] == words@[i as int]@);
            assert(tail.drop_first() =~= all.skip(i as int + 1));
        }
        let w = &words[i];
        match parse_kv(w.as_str()) {
            None => {
                proof {
                    assert(kv_of(tail[0]) is None);
                    assert(kvs_of(tail) == kvs_of(tail.drop_first()));
                }
            },
            Some((k, v)) => {
                let ghost kv = (k@, v@);
                proof {
                    assert(kv_of(tail[0]) == Some(kv));
                    assert(kvs_of(tail) == seq![kv] + kvs_of(tail.drop_first()));
                    assert((seq![kv] + kvs_of(tail.drop_first()))[0] == kv);
                    assert((seq![kv] + kvs_of(tail.drop_first())).drop_first() =~= kvs_of(
                        tail.drop_first(),
                    ));
                }
                if str_eq(k.as_str(), "name") {
                    res.name = v;
                } else if str_eq(k.as_str(), "conn-name") {
                    res.conn_name = v;
                } else if str_eq(k.as_str(), "volume") {
                    match parse_i32(v.as_str()) {
                        Some(n) => {
                            res.volume = n;
                        },
                        None => {
                            return Err(ParseError::BadKeyValue);
                        },
                    }
                } else if str_eq(k.as_str(), "peer-node-id") {
                    match parse_i32(v.as_str()) {
                        Some(n) => {
                            res.peer_node_id = n;
                        },
                        None => {
                            return Err(ParseError::BadKeyValue);
                        },
                    }
                } else if str_eq(k.as_str(), "replication") {
                    match ReplicationState::from_str(v.as_str()) {
                        Ok(x) => {
                            res.replication_state = x;
                        },
                        Err(_) => {
                            return Err(ParseError::BadKeyValue);
                        },
                    }
                } else if str_eq(k.as_str(), "peer-disk") {
                    match DiskState::from_str(v.as_str()) {
                        Ok(x) => {
                            res.peer_disk_state = x;
                        },
                        Err(_) => {
                            return Err(ParseError::BadKeyValue);
                        },
                    }
                } else if str_eq(k.as_str(), "peer-client") {
                    res.peer_client = str_to_bool(v.as_str());
                } else if str_eq(k.as_str(), "resync-suspended") {
                    res.resync_suspended = str_to_bool(v.as_str());
                } else if str_eq(k.as_str(), "received") {
                    match parse_u64(v.as_str()) {
                        Some(n) => {
                            res.received = n;
                        },
                        None => {
                            return Err(ParseError::BadKeyValue);
                        },
                    }
                } else if str_eq(k.as_str(), "sent") {
                    match parse_u64(v.as_str()) {
                        Some(n) => {
                            res.sent = n;
                        },
                        None => {
                            return Err(ParseError::BadKeyValue);
                        },
                    }
                } else if str_eq(k.as_str(), "out-of-sync") {
                    match parse_u64(v.as_str()) {
                        Some(n) => {
                            res.out_of_sync = n;
                        },
                        None => {
                            return Err(ParseError::BadKeyValue);
                        },
                    }
                } else if str_eq(k.as_str(), "pending") {
                    match parse_u64(v.as_str()) {
                        Some(n) => {
                            res.pending = n;
                        },
                        None => {
                            return Err(ParseError::BadKeyValue);
                        },
                    }
                } else if str_eq(k.as_str(), "unacked") {
                    match parse_u64(v.as_str()) {
                        Some(n) => {
                            res.unacked = n;
                        },
                        None => {
                            return Err(ParseError::BadKeyValue);
                        },
                    }
                } else if str_eq(k.as_str(), "done") {
                    
                } else if str_eq(k.as_str(), "eta") {
                    
                } else if str_eq(k.as_str(), "dbdt1") {
                    
                } else {
                    return Err(ParseError::BadKeyValue);
                }
            },
        }
        i = i + 1;
    }
    proof {
        assert(all.skip(all.len() as int) =~= Seq::<Seq<char>>::empty());
    }
    Ok(res)
}

/// One whitelisted path key applied to the value built so far;
/// `None` for a key outside the whitelist or a value that does not parse.
pub open spec fn path_apply_kv(d: PathView, k: Seq<char>, v: Seq<char>) -> Option<PathView> {
    if k == "name"@ {
        Some(PathView { name: v, ..d })
    } else if k == "peer-node-id"@ {
        match i32_parse(v) {
            Some(n) => Some(PathView { peer_node_id: n as int, ..d }),
            None => None,
        }
    } else if k == "conn-name"@ {
        Some(PathView { conn_name: v, ..d })
    } else if k == "local"@ {
        Some(PathView { local: v, ..d })
    } else if k == "peer"@ {
        Some(PathView { peer: v, ..d })
    } else if k == "established"@ {
        Some(PathView { established: spec_str_to_bool(v), ..d })
    } else {
        None
    }
}

/// The path read from a key-value list, left to right.
pub open spec fn path_from_kvs(kvs: Seq<(Seq<char>, Seq<char>)>, acc: PathView) -> Option<PathView>
    decreases kvs.len(),
{
    if kvs.len() == 0 {
        Some(acc)
    } else {
        match path_apply_kv(acc, kvs[0].0, kvs[0].1) {
            Some(x) => path_from_kvs(kvs.drop_first(), x),
            None => None,
        }
    }
}
/// Parses the key-value words of a path event, `start` words in.
fn parse_path_words(words: &Vec<String>, start: usize) -> (r: Result<Path, ParseError>)
    requires
        start <= words@.len(),
    ensures
        ({
            let kvs = kvs_of(words.deep_view().skip(start as int));
            match r {
                Ok(res) => path_from_kvs(kvs, path_default()) == Some(res@),
                Err(e) => path_from_kvs(kvs, path_default()) is None && e == ParseError::BadKeyValue,
            }
        }),
{
    let ghost all = words.deep_view();
    let mut res = Path::default();
    let mut i: usize = start;
    while i < words.len()
        invariant
            start <= i <= all.len(),
            all == words.deep_view(),
            path_from_kvs(kvs_of(all.skip(start as int)), path_default())
                == path_from_kvs(kvs_of(all.skip(i as int)), res@),
        decreases all.len() - i,
    {
        let ghost tail = all.skip(i as int);
        proof {
            assert(tail[0] == words@[i as int]@);
            assert(tail.drop_first() =~= all.skip(i as int + 1));
        }
        let w = &words[i];
        match parse_kv(w.as_str()) {
            None => {
                proof {
                    assert(kv_of(tail[0]) is None);
                    assert(kvs_of(tail) == kvs_of(tail.drop_first()));
                }
            },
            Some((k, v)) => {
                let ghost kv = (k@, v@);
                proof {
                    assert(kv_of(tail[0]) == Some(kv));
                    assert(kvs_of(tail) == seq![kv] + kvs_of(tail.drop_first()));
                    assert((seq![kv] + kvs_of(tail.drop_first()))[0] == kv);
                    assert((seq![kv] + kvs_of(tail.drop_first())).drop_first() =~= kvs_of(
                        tail.drop_first(),
                    ));
                }
                if str_eq(k.as_str(), "name") {
                    res.name = v;
                } else if str_eq(k.as_str(), "peer-node-id") {
                    match parse_i32(v.as_str()) {
                        Some(n) => {
                            res.peer_node_id = n;
                        },
                        None => {
                            return Err(ParseError::BadKeyValue);
                        },
                    }
                } else if str_eq(k.as_str(), "conn-name") {
                    res.conn_name = v;
                } else if str_eq(k.as_str(), "local") {
                    res.local = v;
                } else if str_eq(k.as_str(), "peer") {
                    res.peer = v;
                } else if str_eq(k.as_str(), "established") {
                    res.established = str_to_bool(v.as_str());
                } else {
                    return Err(ParseError::BadKeyValue);
                }
            },
        }
        i = i + 1;
    }
    proof {
        assert(all.skip(all.len() as int) =~= Seq::<Seq<char>>::empty());
    }
    Ok(res)
}

} // verus!

verus! {

/// What a full event line means: the verb, the object kind, then the
/// object read from the key-value words; or the reason it is rejected.
pub open spec fn spec_parse_line(s: Seq<char>) -> Result<EventUpdateView, ParseError> {
    let words = split_ws(s);
    let verb = if words.len() >= 1 {
        words[0]
    } else {
        Seq::empty()
    };
    match EventType::spec_from_str(verb) {
        None => Err(ParseError::UnknownEventType),
        Some(et) => {
            let what = if words.len() >= 2 {
                words[1]
            } else {
                Seq::empty()
            };
            let kvs = kvs_of(
                if words.len() >= 2 {
                    words.skip(2)
                } else {
                    Seq::empty()
                },
            );
            if what == "resource"@ {
                match resource_from_kvs(kvs, resource_default()) {
                    Some(v) => Ok(EventUpdateView::Resource(et, v)),
                    None => Err(ParseError::BadKeyValue),
                }
            } else if what == "device"@ {
                match device_from_kvs(kvs, device_default()) {
                    Some(v) => Ok(EventUpdateView::Device(et, v)),
                    None => Err(ParseError::BadKeyValue),
                }
            } else if what == "connection"@ {
                match connection_from_kvs(kvs, connection_default()) {
                    Some(v) => Ok(EventUpdateView::Connection(et, v)),
                    None => Err(ParseError::BadKeyValue),
                }
            } else if what == "peer-device"@ {
                match peerdevice_from_kvs(kvs, peerdevice_default()) {
                    Some(v) => Ok(EventUpdateView::PeerDevice(et, v)),
                    None => Err(ParseError::BadKeyValue),
                }
            } else if what == "path"@ {
                match path_from_kvs(kvs, path_default()) {
                    Some(v) => Ok(EventUpdateView::Path(et, v)),
                    None => Err(ParseError::BadKeyValue),
                }
            } else {
                Err(ParseError::UnknownObject)
            }
        },
    }
}

/// Parses one line of the event stream: `<verb> <object> [<key>:<value>...]`,
/// with the object's strict key whitelist. A parse error is reported to the
/// caller, which logs it and reads on; the stream is not torn down.
pub fn parse_events2_line(line: &str) -> (r: Result<EventUpdate, ParseError>)
    ensures
        match r {
            Ok(u) => spec_parse_line(line@) == Ok::<EventUpdateView, ParseError>(u@) && rv_wf(
                u.spec_resource_part(),
            ) && match u {
                EventUpdate::Connection(_, c) => cv_wf(c@),
                _ => true,
            },
            Err(e) => spec_parse_line(line@) == Err::<EventUpdateView, ParseError>(e),
        },
{
    let words = split_whitespace(line);
    let ghost wordsv = split_ws(line@);
    proof {
        reveal_strlit("");
        assert(""@ =~= Seq::<char>::empty());
    }
    let verb = if words.len() > 0 {
        proof {
            assert(wordsv[0] == words@[0]@);
        }
        words[0].as_str()
    } else {
        ""
    };
    let et = match EventType::from_str(verb) {
        Ok(et) => et,
        Err(_) => {
            return Err(ParseError::UnknownEventType);
        },
    };
    let what = if words.len() > 1 {
        proof {
            assert(wordsv[1] == words@[1]@);
        }
        words[1].as_str()
    } else {
        ""
    };
    let start = if words.len() > 2 {
        2
    } else {
        words.len()
    };
    proof {
        if wordsv.len() >= 2 {
            assert(words.deep_view().skip(start as int) =~= wordsv.skip(2));
        } else {
            assert(words.deep_view().skip(start as int) =~= Seq::<Seq<char>>::empty());
        }
    }
    if str_eq(what, "resource") {
        match parse_resource_words(&words, start) {
            Ok(v) => Ok(EventUpdate::Resource(et, v)),
            Err(e) => Err(e),
        }
    } else if str_eq(what, "device") {
        match parse_device_words(&words, start) {
            Ok(v) => {
                let u = EventUpdate::Device(et, v);
                proof {
                    assert(rv_wf(u.spec_resource_part()));
                }
                Ok(u)
            },
            Err(e) => Err(e),
        }
    } else if str_eq(what, "connection") {
        match parse_connection_words(&words, start) {
            Ok(v) => {
                let u = EventUpdate::Connection(et, v);
                proof {
                    assert(rv_wf(u.spec_resource_part()));
                }
                Ok(u)
            },
            Err(e) => Err(e),
        }
    } else if str_eq(what, "peer-device") {
        match parse_peerdevice_words(&words, start) {
            Ok(v) => {
                let u = EventUpdate::PeerDevice(et, v);
                proof {
                    assert(rv_wf(u.spec_resource_part()));
                }
                Ok(u)
            },
            Err(e) => Err(e),
        }
    } else if str_eq(what, "path") {
        match parse_path_words(&words, start) {
            Ok(v) => {
                let u = EventUpdate::Path(et, v);
                proof {
                    assert(rv_wf(u.spec_resource_part()));
                }
                Ok(u)
            },
            Err(e) => Err(e),
        }
    } else {
        Err(ParseError::UnknownObject)
    }
}

impl EventUpdate {
    /// The resource view a data event carries, for well-formedness talk; the
    /// empty resource for control directives.
    pub open spec fn spec_resource_part(&self) -> crate::drbd::ResourceView {
        match self {
            EventUpdate::Resource(_, r) => r@,
            EventUpdate::Device(_, _) => crate::drbd::resource_default(),
            EventUpdate::PeerDevice(_, _) => crate::drbd::resource_default(),
            EventUpdate::Connection(_, _) => crate::drbd::resource_default(),
            EventUpdate::Path(_, _) => crate::drbd::resource_default(),
            EventUpdate::Stop => crate::drbd::resource_default(),
            EventUpdate::Reload => crate::drbd::resource_default(),
            EventUpdate::Flush => crate::drbd::resource_default(),
        }
    }
}

} // verus!

verus! {

use crate::drbd::{spec_version_from_code, version_from_code, Version};
use crate::strutil::{all_hex_digits, hex_val, parse_hex_u32, starts_with, str_to_string};

/// A line without its one optional trailing carriage return.
pub open spec fn strip_cr(l: Seq<char>) -> Seq<char> {
    if l.len() > 0 && l.last() == '\r' {
        l.drop_last()
    } else {
        l
    }
}

/// The lines of a text, as `str::lines` cuts them: split at every newline,
/// one trailing carriage return per line removed, no empty line after a
/// final newline.
pub open spec fn spec_lines(s: Seq<char>) -> Seq<Seq<char>>
    decreases s.len(),
{
    if s.len() == 0 {
        Seq::empty()
    } else {
        match find_ch(s, '\n') {
            Some(i) => if 0 <= i < s.len() {
                seq![strip_cr(s.take(i))] + spec_lines(s.skip(i + 1))
            } else {
                seq![strip_cr(s)]
            },
            None => seq![strip_cr(s)],
        }
    }
}

/// Splits a text into its lines.
pub fn split_lines(s: &str) -> (r: Vec<String>)
    ensures
        r.deep_view() == spec_lines(s@),
{
    let mut lines: Vec<String> = Vec::new();
    let mut rest = str_to_string(s);
    proof {
        assert(lines.deep_view() =~= Seq::<Seq<char>>::empty());
        assert(lines.deep_view() + spec_lines(rest@) =~= spec_lines(s@));
    }
    loop
        invariant_except_break
            lines.deep_view() + spec_lines(rest@) == spec_lines(s@),
        ensures
            lines.deep_view() == spec_lines(s@),
        decreases rest@.len(),
    {
        let len = rest.as_str().unicode_len();
        if len == 0 {
            proof {
                assert(spec_lines(rest@) =~= Seq::<Seq<char>>::empty());
                assert(lines.deep_view() + Seq::<Seq<char>>::empty() =~= lines.deep_view());
            }
            break;
        }
        let ghost prev = lines.deep_view();
        match find_char(rest.as_str(), '\n') {
            Some(i) => {
                proof {
                    lemma_find_ch(rest@, '\n');
                    let fi = find_ch(rest@, '\n');
                    assert(fi is Some);
                    assert(fi.unwrap() == i as int);
                }
                let line = if i > 0 && rest.as_str().get_char(i - 1) == '\r' {
                    substring(rest.as_str(), 0, i - 1)
                } else {
                    substring(rest.as_str(), 0, i)
                };
                proof {
                    assert(rest@.take(i as int).len() == i);
                    if i > 0 && rest@[i as int - 1] == '\r' {
                        assert(rest@.take(i as int).last() == rest@[i as int - 1]);
                        assert(strip_cr(rest@.take(i as int)) =~= rest@.subrange(0, i as int - 1));
                    } else {
                        if rest@.take(i as int).len() > 0 {
                            assert(rest@.take(i as int).last() == rest@[i as int - 1]);
                        }
                        assert(strip_cr(rest@.take(i as int)) =~= rest@.subrange(0, i as int));
                    }
                }
                let tail = substring(rest.as_str(), i + 1, len);
                lines.push(line);
                proof {
                    assert(lines.deep_view() =~= prev.push(strip_cr(rest@.take(i as int))));
                    assert(tail@ =~= rest@.skip(i as int + 1));
                    assert(spec_lines(rest@) == seq![strip_cr(rest@.take(i as int))] + spec_lines(
                        tail@,
                    ));
                    assert(prev.push(strip_cr(rest@.take(i as int))) + spec_lines(tail@)
                        =~= prev + (seq![strip_cr(rest@.take(i as int))] + spec_lines(tail@)));
                }
                rest = tail;
            },
            None => {
                proof {
                    lemma_find_ch(rest@, '\n');
                    if find_ch(rest@, '\n') is Some {
                        let ii = find_ch(rest@, '\n').unwrap();
                        assert(rest@[ii] == '\n');
                    }
                }
                let line = if rest.as_str().get_char(len - 1) == '\r' {
                    substring(rest.as_str(), 0, len - 1)
                } else {
                    substring(rest.as_str(), 0, len)
                };
                proof {
                    assert(rest@.last() == rest@[len - 1]);
                    if rest@[len - 1] == '\r' {
                        assert(strip_cr(rest@) =~= rest@.subrange(0, len - 1));
                    } else {
                        assert(strip_cr(rest@) =~= rest@.subrange(0, len as int));
                    }
                }
                lines.push(line);
                proof {
                    assert(lines.deep_view() =~= prev.push(strip_cr(rest@)));
                    assert(spec_lines(rest@) == seq![strip_cr(rest@)]);
                    assert(prev.push(strip_cr(rest@)) =~= prev + seq![strip_cr(rest@)]);
                }
                rest = String::new();
                proof {
                    assert(spec_lines(rest@) =~= Seq::<Seq<char>>::empty());
                    assert(lines.deep_view() + Seq::<Seq<char>>::empty() =~= lines.deep_view());
                }
                break;
            },
        }
    }
    lines
}

/// The hex digits of a version line `<key>=0x<digits>`, when the whole line
/// has exactly that shape.
pub open spec fn version_code_digits(line: Seq<char>, key: Seq<char>) -> Option<Seq<char>> {
    let prefix = key + "=0x"@;
    if line.len() > prefix.len() && line.take(prefix.len() as int) == prefix && all_hex_digits(
        line.skip(prefix.len() as int),
    ) {
        Some(line.skip(prefix.len() as int))
    } else {
        None
    }
}

/// The digits of the first line of the text that carries the keyed version
/// code.
pub open spec fn first_version_code(ls: Seq<Seq<char>>, key: Seq<char>) -> Option<Seq<char>>
    decreases ls.len(),
{
    if ls.len() == 0 {
        None
    } else {
        match version_code_digits(ls[0], key) {
            Some(d) => Some(d),
            None => first_version_code(ls.drop_first(), key),
        }
    }
}

/// Why a version could not be read from the kernel tool's output.
#[derive(Clone, Copy, PartialEq, Eq, Structural, Debug)]
pub enum VersionError {
    /// No line of the output carries the keyed version code.
    NoVersionLine,
    /// The version code does not fit in 32 bits.
    CodeTooLarge,
    /// The major part is below the wanted one.
    MajorTooSmall,
    /// Majors equal, the minor part below the wanted one.
    MinorTooSmall,
    /// Majors and minors equal, the patch part below the wanted one.
    PatchTooSmall,
}

impl VersionError {
    /// A short message naming the reason.
    pub fn text(&self) -> (r: &'static str)
        ensures
            r@ == self.spec_text(),
    {
        match self {
            VersionError::NoVersionLine => "Could not determine version from pattern",
            VersionError::CodeTooLarge => "version code does not fit in 32 bits",
            VersionError::MajorTooSmall => "Major version too small",
            VersionError::MinorTooSmall => "Minor version too small",
            VersionError::PatchTooSmall => "Patch version too small",
        }
    }

    pub open spec fn spec_text(&self) -> Seq<char> {
        match self {
            VersionError::NoVersionLine => "Could not determine version from pattern"@,
            VersionError::CodeTooLarge => "version code does not fit in 32 bits"@,
            VersionError::MajorTooSmall => "Major version too small"@,
            VersionError::MinorTooSmall => "Minor version too small"@,
            VersionError::PatchTooSmall => "Patch version too small"@,
        }
    }
}

/// Whether a line has the shape `<key>=0x<digits>`, returning the digits.
fn capture_version_code(line: &str, key: &str) -> (r: Option<String>)
    ensures
        r.deep_view() == version_code_digits(line@, key@),
{
    let mut prefix = str_to_string(key);
    prefix.append("=0x");
    let plen = prefix.as_str().unicode_len();
    let llen = line.unicode_len();
    if !starts_with(line, prefix.as_str()) || llen <= plen {
        proof {
            assert(prefix@ == key@ + "=0x"@);
            if line@.len() > plen {
                assert(line@.take(plen as int) =~= line@.subrange(0, plen as int));
            }
        }
        return None;
    }
    let digits = substring(line, plen, llen);
    proof {
        assert(digits@ =~= line@.skip(plen as int));
    }
    let dlen = digits.as_str().unicode_len();
    let mut i: usize = 0;
    while i < dlen
        invariant
            dlen == digits@.len(),
            0 <= i <= dlen,
            digits@ == line@.skip(plen as int),
            prefix@ == key@ + "=0x"@,
            plen == prefix@.len(),
            line@.len() > plen,
            forall|j: int| 0 <= j < i ==> crate::strutil::is_hex_digit(#[trigger] digits@[j]),
        decreases dlen - i,
    {
        let c = digits.as_str().get_char(i);
        let cv = c as u32;
        let ok = (cv >= '0' as u32 && cv <= '9' as u32) || (cv >= 'a' as u32 && cv <= 'f' as u32)
            || (cv >= 'A' as u32 && cv <= 'F' as u32);
        if !ok {
            proof {
                assert(!crate::strutil::is_hex_digit(digits@[i as int]));
                assert(!all_hex_digits(line@.skip(plen as int)));
                assert(prefix@ == key@ + "=0x"@);
            }
            return None;
        }
        i = i + 1;
    }
    proof {
        assert(all_hex_digits(line@.skip(plen as int)));
        assert(line@.take(plen as int) =~= line@.subrange(0, plen as int));
    }
    Some(digits)
}

/// Reads the keyed version code out of the kernel tool's `--version` output:
/// the first line `<key>=0x<hex>` wins, and the code is unpacked into its
/// three parts.
pub fn split_version(key: &str, text: &str) -> (r: Result<Version, VersionError>)
    ensures
        match r {
            Ok(v) => ({
                let d = first_version_code(spec_lines(text@), key@);
                d is Some && hex_val(d.unwrap()) <= u32::MAX && v == spec_version_from_code(
                    hex_val(d.unwrap()) as u32,
                )
            }),
            Err(e) => match e {
                VersionError::NoVersionLine => first_version_code(spec_lines(text@), key@)
                    is None,
                VersionError::CodeTooLarge => ({
                    let d = first_version_code(spec_lines(text@), key@);
                    d is Some && hex_val(d.unwrap()) > u32::MAX
                }),
                _ => false,
            },
        },
{
    let lines = split_lines(text);
    let ghost ls = spec_lines(text@);
    let mut i: usize = 0;
    proof {
        assert(ls.skip(0) =~= ls);
    }
    while i < lines.len()
        invariant
            ls == spec_lines(text@),
            lines.deep_view() == ls,
            0 <= i <= ls.len(),
            first_version_code(ls, key@) == first_version_code(ls.skip(i as int), key@),
        decreases ls.len() - i,
    {
        let ghost tail = ls.skip(i as int);
        proof {
            assert(tail[0] == lines@[i as int]@);
            assert(tail.drop_first() =~= ls.skip(i as int + 1));
        }
        match capture_version_code(lines[i].as_str(), key) {
            Some(digits) => {
                proof {
                    assert(version_code_digits(tail[0], key@) == Some(digits@));
                    assert(first_version_code(tail, key@) == Some(digits@));
                }
                match parse_hex_u32(digits.as_str()) {
                    Some(code) => {
                        return Ok(version_from_code(code));
                    },
                    None => {
                        proof {
                            assert(digits@.len() > 0 && all_hex_digits(digits@));
                        }
                        return Err(VersionError::CodeTooLarge);
                    },
                }
            },
            None => {
                proof {
                    assert(version_code_digits(tail[0], key@) is None);
                    assert(first_version_code(tail, key@) == first_version_code(
                        tail.drop_first(),
                        key@,
                    ));
                }
            },
        }
        i = i + 1;
    }
    proof {
        assert(ls.skip(ls.len() as int) =~= Seq::<Seq<char>>::empty());
    }
    Err(VersionError::NoVersionLine)
}

/// Whether `have` reaches `want`, compared part by part.
pub open spec fn version_at_least(have: (u8, u8, u8), want: (u8, u8, u8)) -> bool {
    have.0 > want.0 || (have.0 == want.0 && (have.1 > want.1 || (have.1 == want.1 && have.2
        >= want.2)))
}

/// Checks a version triple against a required minimum, naming the part that
/// falls short.
pub fn min_version(have: (u8, u8, u8), want: (u8, u8, u8)) -> (r: Result<(), VersionError>)
    ensures
        match r {
            Ok(_) => version_at_least(have, want),
            Err(e) => !version_at_least(have, want) && match e {
                VersionError::MajorTooSmall => have.0 < want.0,
                VersionError::MinorTooSmall => have.0 == want.0 && have.1 < want.1,
                VersionError::PatchTooSmall => have.0 == want.0 && have.1 == want.1 && have.2
                    < want.2,
                _ => false,
            },
        },
{
    if have.0 > want.0 {
        return Ok(());
    }
    if have.0 < want.0 {
        return Err(VersionError::MajorTooSmall);
    }
    if have.1 > want.1 {
        return Ok(());
    }
    if have.1 < want.1 {
        return Err(VersionError::MinorTooSmall);
    }
    if have.2 > want.2 {
        return Ok(());
    }
    if have.2 < want.2 {
        return Err(VersionError::PatchTooSmall);
    }
    Ok(())
}

/// What the event reader decides before entering its read loop: whether the
/// utilities are recent enough for `--poll`, and whether backing device
/// information will be present in the stream.
pub fn events2_preflight(utils: (u8, u8, u8), kmod: (u8, u8, u8)) -> (r: Result<
    bool,
    VersionError,
>)
    ensures
        match r {
            Ok(has_backing_dev) => version_at_least(utils, (9, 18, 0)) && has_backing_dev == (
            version_at_least(kmod, (9, 1, 1)) || (version_at_least(kmod, (9, 0, 28)) && !(kmod.0
                == 9 && kmod.1 == 1 && kmod.2 == 0))),
            Err(_) => !version_at_least(utils, (9, 18, 0)),
        },
{
    if let Err(e) = min_version(utils, (9, 18, 0)) {
        return Err(e);
    }
    let drbd90 = min_version(kmod, (9, 0, 28)).is_ok();
    let drbd911plus = min_version(kmod, (9, 1, 1)).is_ok();
    let has_backing_dev = drbd911plus || (drbd90 && !(kmod.0 == 9 && kmod.1 == 1 && kmod.2 == 0));
    Ok(has_backing_dev)
}

} // verus!
