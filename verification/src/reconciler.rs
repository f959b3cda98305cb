//! The reconciler: it owns the in-memory map of resources, applies every raw
//! event to it, and produces the change update to fan out to plugins.
//! Resources are created lazily on first mention and removed wholesale by a
//! resource-level destroy.

use vstd::prelude::*;

use crate::drbd::{
    connections_apply_merge, connections_apply_path, connections_apply_peerdevice,
    connections_delete_path, connections_delete_peerdevice, connection_at, connection_update_default,
    devices_apply, device_at, device_update_default, has_connection, has_device, has_peerdevice,
    peerdevice_at, peerdevice_update_default, proj_connection, proj_device, proj_peerdevice,
    proj_resource, resource_update_default, rv_named, rv_updated, rv_wf, rv_with_connections,
    rv_with_devices, EventType, PluginUpdate, Resource, ResourceView,
};
use crate::events::EventUpdate;

verus! {

/// Whether some resource of `rs` carries the name.
pub open spec fn has_res(rs: Seq<ResourceView>, name: Seq<char>) -> bool {
    exists|i: int| 0 <= i < rs.len() && rs[i].name == name
}

/// The index of the resource with the name; unique under well-formedness.
pub open spec fn res_idx(rs: Seq<ResourceView>, name: Seq<char>) -> int {
    choose|i: int| 0 <= i < rs.len() && rs[i].name == name
}

/// The resource the event falls on: the stored one, or a fresh one carrying
/// only the name.
pub open spec fn base_res(rs: Seq<ResourceView>, name: Seq<char>) -> ResourceView {
    if has_res(rs, name) {
        rs[res_idx(rs, name)]
    } else {
        rv_named(name)
    }
}

/// The map with the named resource replaced, or appended when new.
pub open spec fn put_res(rs: Seq<ResourceView>, name: Seq<char>, r: ResourceView) -> Seq<
    ResourceView,
> {
    if has_res(rs, name) {
        rs.update(res_idx(rs, name), r)
    } else {
        rs.push(r)
    }
}

/// The map without the named resource.
pub open spec fn del_res(rs: Seq<ResourceView>, name: Seq<char>) -> Seq<ResourceView> {
    if has_res(rs, name) {
        rs.remove(res_idx(rs, name))
    } else {
        rs
    }
}

/// The reconciler's state: every resource seen so far, each under its unique
/// name.
#[derive(Debug)]
pub struct Core {
    pub resources: Vec<Resource>,
}

impl Core {
    /// Names unique, every resource well formed.
    pub open spec fn wf(&self) -> bool {
        &&& forall|i: int, j: int|
            0 <= i < j < self.resources.deep_view().len() ==> self.resources.deep_view()[i].name
                != self.resources.deep_view()[j].name
        &&& forall|i: int|
            0 <= i < self.resources.deep_view().len() ==> rv_wf(
                #[trigger] self.resources.deep_view()[i],
            )
    }

    /// An empty reconciler: it stores nothing until it runs.
    pub fn new() -> (r: Core)
        ensures
            r.resources.deep_view() == Seq::<ResourceView>::empty(),
            r.wf(),
    {
        let c = Core { resources: Vec::new() };
        proof {
            assert(c.resources.deep_view() =~= Seq::<ResourceView>::empty());
        }
        c
    }

    /// Forgets every resource: a flush expects a later reload or a fresh
    /// event stream to rebuild the state.
    pub fn flush(&mut self)
        ensures
            final(self).resources.deep_view() == Seq::<ResourceView>::empty(),
            final(self).wf(),
    {
        self.resources = Vec::new();
        proof {
            assert(self.resources.deep_view() =~= Seq::<ResourceView>::empty());
        }
    }

    /// First index of the named resource.
    fn find_res_index(&self, name: &str) -> (r: Option<usize>)
        ensures
            match r {
                Some(i) => i < self.resources.deep_view().len()
                    && self.resources.deep_view()[i as int].name == name@ && forall|j: int|
                    0 <= j < i ==> self.resources.deep_view()[j].name != name@,
                None => !has_res(self.resources.deep_view(), name@),
            },
    {
        let mut i: usize = 0;
        while i < self.resources.len()
            invariant
                0 <= i <= self.resources@.len(),
                forall|j: int| 0 <= j < i ==> #[trigger] self.resources@[j]@.name != name@,
            decreases self.resources@.len() - i,
        {
            if crate::strutil::str_eq(self.resources[i].name.as_str(), name) {
                proof {
                    assert(self.resources.deep_view()[i as int] == self.resources@[i as int]@);
                }
                return Some(i);
            }
            i = i + 1;
        }
        proof {
            assert(forall|j: int| 0 <= j < self.resources.deep_view().len()
                ==> #[trigger] self.resources.deep_view()[j] == self.resources@[j]@);
        }
        None
    }

    /// Applies one raw event to the model and returns the change update to
    /// fan out, if the event moved the projected state or destroyed
    /// something. Control directives leave the model alone; the caller acts
    /// on them.
    #[verifier::rlimit(100)]
    pub fn apply(&mut self, up: &EventUpdate) -> (r: Option<PluginUpdate>)
        requires
            old(self).wf(),
            up matches EventUpdate::Connection(_, c) ==> crate::drbd::cv_wf(c@),
        ensures
            final(self).wf(),
            ({
                let rs = old(self).resources.deep_view();
                let rs1 = final(self).resources.deep_view();
                match up {
                    EventUpdate::Resource(et, res) => {
                        let name = res@.name;
                        let base = base_res(rs, name);
                        let o = proj_resource(base);
                        let n = proj_resource(res@);
                        &&& (*et == EventType::Destroy ==> rs1 == del_res(rs, name))
                        &&& (*et != EventType::Destroy ==> rs1 == put_res(
                            rs,
                            name,
                            rv_updated(base, res@),
                        ))
                        &&& if o == n && *et != EventType::Destroy {
                            r is None
                        } else {
                            r matches Some(PluginUpdate::Resource(u)) && u.event_type == *et
                                && u.resource_name@ == name && u.old == o && u.new == n && (*et
                                != EventType::Destroy ==> u.resource@ == rv_updated(base, res@))
                                && (*et == EventType::Destroy ==> u.resource@ == base)
                        }
                    },
                    EventUpdate::Device(et, d) => {
                        let name = d@.name;
                        let base = base_res(rs, name);
                        let r1 = rv_with_devices(base, devices_apply(base.devices, *et, d@));
                        let vol = d@.volume;
                        let had = has_device(base.devices, vol);
                        let o = if had {
                            proj_device(device_at(base.devices, vol))
                        } else {
                            device_update_default()
                        };
                        let n = proj_device(d@);
                        &&& rs1 == put_res(rs, name, r1)
                        &&& if (had && o == n && *et != EventType::Destroy) || (!had && *et
                            == EventType::Destroy) {
                            r is None
                        } else {
                            r matches Some(PluginUpdate::Device(u)) && u.event_type == *et
                                && u.resource_name@ == name && u.volume as int == vol && u.old == o
                                && u.new == n && u.resource@ == r1
                        }
                    },
                    EventUpdate::Connection(et, c) => {
                        let name = c@.name;
                        let base = base_res(rs, name);
                        let r1 = rv_with_connections(
                            base,
                            connections_apply_merge(base.connections, *et, c@),
                        );
                        let id = c@.peer_node_id;
                        let had = has_connection(base.connections, id);
                        let o = if had {
                            proj_connection(connection_at(base.connections, id))
                        } else {
                            connection_update_default()
                        };
                        let n = proj_connection(c@);
                        &&& rs1 == put_res(rs, name, r1)
                        &&& if (had && o == n && *et != EventType::Destroy) || (!had && *et
                            == EventType::Destroy) {
                            r is None
                        } else {
                            r matches Some(PluginUpdate::Connection(u)) && u.event_type == *et
                                && u.resource_name@ == name && u.peer_node_id as int == id && u.old@
                                == o && u.new@ == n && u.resource@ == r1
                        }
                    },
                    EventUpdate::PeerDevice(et, d) => {
                        let name = d@.name;
                        let base = base_res(rs, name);
                        let id = d@.peer_node_id;
                        let vol = d@.volume;
                        let r1 = rv_with_connections(
                            base,
                            if *et == EventType::Destroy {
                                connections_delete_peerdevice(base.connections, id, vol)
                            } else {
                                connections_apply_peerdevice(base.connections, d@)
                            },
                        );
                        let had = has_connection(base.connections, id) && has_peerdevice(
                            connection_at(base.connections, id).peerdevices,
                            vol,
                        );
                        let o = if had {
                            proj_peerdevice(
                                peerdevice_at(connection_at(base.connections, id).peerdevices, vol),
                            )
                        } else {
                            peerdevice_update_default()
                        };
                        let n = proj_peerdevice(d@);
                        &&& rs1 == put_res(rs, name, r1)
                        &&& if (had && o == n && *et != EventType::Destroy) || (!had && *et
                            == EventType::Destroy) {
                            r is None
                        } else {
                            r matches Some(PluginUpdate::PeerDevice(u)) && u.event_type == *et
                                && u.resource_name@ == name && u.volume as int == vol
                                && u.peer_node_id as int == id && u.old == o && u.new == n
                                && u.resource@ == r1
                        }
                    },
                    EventUpdate::Path(et, p) => {
                        let name = p@.name;
                        let base = base_res(rs, name);
                        let r1 = rv_with_connections(
                            base,
                            if *et == EventType::Destroy {
                                connections_delete_path(base.connections, p@.peer_node_id, p@.local, p@.peer)
                            } else {
                                connections_apply_path(base.connections, p@)
                            },
                        );
                        rs1 == put_res(rs, name, r1) && r is None
                    },
                    _ => rs1 == rs && r is None,
                }
            }),
    {
        let ghost rs = self.resources.deep_view();
        match up {
            EventUpdate::Resource(et, res) => {
                let (idx, ghost_existed) = self.get_or_create(res.name.as_str());
                let mut cur = self.resources[idx].clone();
                proof {
                    assert(cur@ == base_res(rs, res@.name));
                }
                let u = cur.get_resource_update(et, res);
                if *et == EventType::Destroy {
                    self.resources.remove(idx);
                    proof {
                        if ghost_existed@ {
                            assert(self.resources.deep_view() =~= rs.remove(idx as int));
                        } else {
                            assert(self.resources.deep_view() =~= rs.push(rv_named(
                                res@.name,
                            )).remove(idx as int));
                        }
                        self.lemma_after_remove(rs, res@.name, idx as int, ghost_existed);
                    }
                } else {
                    self.resources.set(idx, cur);
                    proof {
                        if ghost_existed@ {
                            assert(self.resources.deep_view() =~= rs.update(
                                idx as int,
                                self.resources.deep_view()[idx as int],
                            ));
                        } else {
                            assert(self.resources.deep_view() =~= rs.push(rv_named(
                                self.resources.deep_view()[idx as int].name,
                            )).update(idx as int, self.resources.deep_view()[idx as int]));
                        }
                        self.lemma_after_set(rs, res@.name, idx as int, ghost_existed);
                    }
                }
                u
            },
            EventUpdate::Device(et, d) => {
                let (idx, ghost_existed) = self.get_or_create(d.name.as_str());
                let mut cur = self.resources[idx].clone();
                proof {
                    assert(cur@ == base_res(rs, d@.name));
                }
                let u = cur.get_device_update(et, d);
                self.resources.set(idx, cur);
                proof {
                    if ghost_existed@ {
                        assert(self.resources.deep_view() =~= rs.update(
                            idx as int,
                            self.resources.deep_view()[idx as int],
                        ));
                    } else {
                        assert(self.resources.deep_view() =~= rs.push(rv_named(
                            self.resources.deep_view()[idx as int].name,
                        )).update(idx as int, self.resources.deep_view()[idx as int]));
                    }
                    self.lemma_after_set(rs, d@.name, idx as int, ghost_existed);
                }
                u
            },
            EventUpdate::Connection(et, c) => {
                let (idx, ghost_existed) = self.get_or_create(c.name.as_str());
                let mut cur = self.resources[idx].clone();
                proof {
                    assert(cur@ == base_res(rs, c@.name));
                }
                let u = cur.get_connection_update(et, c);
                self.resources.set(idx, cur);
                proof {
                    if ghost_existed@ {
                        assert(self.resources.deep_view() =~= rs.update(
                            idx as int,
                            self.resources.deep_view()[idx as int],
                        ));
                    } else {
                        assert(self.resources.deep_view() =~= rs.push(rv_named(
                            self.resources.deep_view()[idx as int].name,
                        )).update(idx as int, self.resources.deep_view()[idx as int]));
                    }
                    self.lemma_after_set(rs, c@.name, idx as int, ghost_existed);
                }
                u
            },
            EventUpdate::PeerDevice(et, d) => {
                let (idx, ghost_existed) = self.get_or_create(d.name.as_str());
                let mut cur = self.resources[idx].clone();
                proof {
                    assert(cur@ == base_res(rs, d@.name));
                }
                let u = cur.get_peerdevice_update(et, d);
                self.resources.set(idx, cur);
                proof {
                    if ghost_existed@ {
                        assert(self.resources.deep_view() =~= rs.update(
                            idx as int,
                            self.resources.deep_view()[idx as int],
                        ));
                    } else {
                        assert(self.resources.deep_view() =~= rs.push(rv_named(
                            self.resources.deep_view()[idx as int].name,
                        )).update(idx as int, self.resources.deep_view()[idx as int]));
                    }
                    self.lemma_after_set(rs, d@.name, idx as int, ghost_existed);
                }
                u
            },
            EventUpdate::Path(et, p) => {
                let (idx, ghost_existed) = self.get_or_create(p.name.as_str());
                let mut cur = self.resources[idx].clone();
                proof {
                    assert(cur@ == base_res(rs, p@.name));
                }
                let u = cur.get_path_update(et, p);
                self.resources.set(idx, cur);
                proof {
                    if ghost_existed@ {
                        assert(self.resources.deep_view() =~= rs.update(
                            idx as int,
                            self.resources.deep_view()[idx as int],
                        ));
                    } else {
                        assert(self.resources.deep_view() =~= rs.push(rv_named(
                            self.resources.deep_view()[idx as int].name,
                        )).update(idx as int, self.resources.deep_view()[idx as int]));
                    }
                    self.lemma_after_set(rs, p@.name, idx as int, ghost_existed);
                }
                u
            },
            EventUpdate::Stop => None,
            EventUpdate::Reload => None,
            EventUpdate::Flush => None,
        }
    }

    /// Finds the named resource, creating a bare one when absent, and
    /// returns its index.
    fn get_or_create(&mut self, name: &str) -> (r: (usize, Ghost<bool>))
        requires
            old(self).wf(),
        ensures
            final(self).wf(),
            r.1@ == has_res(old(self).resources.deep_view(), name@),
            r.1@ ==> final(self).resources.deep_view() == old(self).resources.deep_view()
                && r.0 as int == res_idx(old(self).resources.deep_view(), name@),
            !r.1@ ==> final(self).resources.deep_view() == old(self).resources.deep_view().push(
                rv_named(name@),
            ) && r.0 as int == old(self).resources.deep_view().len(),
            r.0 < final(self).resources.deep_view().len(),
            final(self).resources.deep_view()[r.0 as int] == base_res(
                old(self).resources.deep_view(),
                name@,
            ),
            forall|j: int|
                0 <= j < final(self).resources.deep_view().len() && j != r.0 as int
                    ==> final(self).resources.deep_view()[j].name != name@,
    {
        let ghost rs = self.resources.deep_view();
        match self.find_res_index(name) {
            Some(i) => {
                proof {
                    assert(has_res(rs, name@));
                    let k = res_idx(rs, name@);
                    assert(0 <= k < rs.len() && rs[k].name == name@);
                    assert(k == i);
                }
                (i, Ghost(true))
            },
            None => {
                let fresh = Resource::with_name(name);
                let idx = self.resources.len();
                self.resources.push(fresh);
                proof {
                    assert(self.resources.deep_view() =~= rs.push(rv_named(name@)));
                }
                (idx, Ghost(false))
            },
        }
    }

    /// After replacing the slot of the named resource with a well-formed
    /// value that keeps the name, the map semantics is `put_res`.
    proof fn lemma_after_set(&self, rs: Seq<ResourceView>, name: Seq<char>, idx: int, existed:
        Ghost<bool>)
        requires
            0 <= idx < self.resources.deep_view().len(),
            existed@ == has_res(rs, name),
            existed@ ==> idx == res_idx(rs, name) && self.resources.deep_view() == rs.update(
                idx,
                self.resources.deep_view()[idx],
            ),
            !existed@ ==> idx == rs.len() && self.resources.deep_view() == rs.push(
                rv_named(name),
            ).update(idx, self.resources.deep_view()[idx]),
            self.resources.deep_view()[idx].name == name,
            rv_wf(self.resources.deep_view()[idx]),
            forall|i: int, j: int| 0 <= i < j < rs.len() ==> rs[i].name != rs[j].name,
            forall|i: int| 0 <= i < rs.len() ==> rv_wf(#[trigger] rs[i]),
        ensures
            self.resources.deep_view() == put_res(rs, name, self.resources.deep_view()[idx]),
            self.wf(),
    {
        let rs1 = self.resources.deep_view();
        if existed@ {
            assert(rs1 =~= put_res(rs, name, rs1[idx]));
        } else {
            assert(rs1 =~= rs.push(rs1[idx]));
            assert(rs1 =~= put_res(rs, name, rs1[idx]));
        }
    }

    /// After removing the slot of the named resource, the map semantics is
    /// `del_res`.
    proof fn lemma_after_remove(&self, rs: Seq<ResourceView>, name: Seq<char>, idx: int, existed:
        Ghost<bool>)
        requires
            existed@ == has_res(rs, name),
            existed@ ==> idx == res_idx(rs, name) && 0 <= idx < rs.len()
                && self.resources.deep_view() == rs.remove(idx),
            !existed@ ==> idx == rs.len() && self.resources.deep_view() == rs.push(
                rv_named(name),
            ).remove(idx),
            forall|i: int, j: int| 0 <= i < j < rs.len() ==> rs[i].name != rs[j].name,
            forall|i: int| 0 <= i < rs.len() ==> rv_wf(#[trigger] rs[i]),
        ensures
            self.resources.deep_view() == del_res(rs, name),
            self.wf(),
    {
        let rs1 = self.resources.deep_view();
        if existed@ {
            assert(rs1 =~= del_res(rs, name));
        } else {
            assert(rs1 =~= rs);
            assert(rs1 =~= del_res(rs, name));
        }
    }
}

} // verus!

verus! {

/// Destroying a resource removes exactly that name: it is absent afterward,
/// and every other resource is still present, untouched.
pub proof fn lemma_resource_destroy_semantics(rs: Seq<ResourceView>, name: Seq<char>)
    requires
        forall|i: int, j: int| 0 <= i < j < rs.len() ==> rs[i].name != rs[j].name,
    ensures
        !has_res(del_res(rs, name), name),
        forall|n: Seq<char>| n != name ==> has_res(del_res(rs, name), n) == has_res(rs, n),
{
    let out = del_res(rs, name);
    if has_res(rs, name) {
        let k = res_idx(rs, name);
        assert(0 <= k < rs.len() && rs[k].name == name);
        assert(forall|i: int| 0 <= i < out.len() ==> out[i] == (if i < k {
            rs[i]
        } else {
            rs[i + 1]
        }));
        assert(!has_res(out, name)) by {
            if has_res(out, name) {
                let i = choose|i: int| 0 <= i < out.len() && out[i].name == name;
                if i < k {
                    assert(rs[i].name == name);
                } else {
                    assert(rs[i + 1].name == name);
                }
            }
        }
        assert forall|n: Seq<char>| n != name implies has_res(out, n) == has_res(rs, n) by {
            if has_res(rs, n) {
                let i = choose|i: int| 0 <= i < rs.len() && rs[i].name == n;
                assert(i != k);
                if i < k {
                    assert(out[i].name == n);
                } else {
                    assert(out[i - 1].name == n);
                }
            }
            if has_res(out, n) {
                let i = choose|i: int| 0 <= i < out.len() && out[i].name == n;
                if i < k {
                    assert(rs[i].name == n);
                } else {
                    assert(rs[i + 1].name == n);
                }
            }
        }
    }
}

} // verus!
