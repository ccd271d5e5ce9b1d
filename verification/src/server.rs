use vstd::prelude::*;

use crate::config::PeerConfig;
use crate::hex::decode_hex;
use crate::peer_id::from_hex;
use crate::screen::{Layout, MonitorGeometry, ScreenEdge, VirtualDesktop, bounding_box_of, geometry_of_box, opposite_edge};
use crate::text::spec_trim;
use crate::types::DeviceId;
use crate::wayland::{BarrierSpec, barrier_bounds_ok, barrier_for_edge, spec_barrier};

verus! {

broadcast use vstd::array::group_array_axioms;

/// A neighbour of the settings whose device id is well formed.
pub struct ConfiguredPeer {
    pub device: DeviceId,
    pub name: String,
    pub edge: ScreenEdge,
}

/// The neighbours of `peers` whose device id reads as 32 hexadecimal
/// characters, in order, as (device bytes, name, edge).
pub open spec fn configured(peers: Seq<PeerConfig>) -> Seq<(Seq<u8>, Seq<char>, ScreenEdge)>
    decreases peers.len(),
{
    if peers.len() == 0 {
        Seq::empty()
    } else {
        let rest = configured(peers.drop_last());
        let p = peers.last();
        match decode_hex(spec_trim(p.device_id@), 16) {
            Some(b) => rest.push((b, p.name@, p.edge)),
            None => rest,
        }
    }
}

pub open spec fn configured_view(c: Seq<ConfiguredPeer>) -> Seq<(Seq<u8>, Seq<char>, ScreenEdge)> {
    c.map_values(|p: ConfiguredPeer| (p.device.bytes@, p.name@, p.edge))
}

/// The neighbours of the settings that name a valid device (the others are
/// skipped).
pub fn configured_peers(peers: &Vec<PeerConfig>) -> (r: Vec<ConfiguredPeer>)
    ensures
        configured_view(r@) == configured(peers@),
{
    let mut r: Vec<ConfiguredPeer> = Vec::new();
    let mut i: usize = 0;
    while i < peers.len()
        invariant
            0 <= i <= peers@.len(),
            configured_view(r@) == configured(peers@.take(i as int)),
        decreases peers@.len() - i,
    {
        let p = &peers[i];
        assert(peers@.take(i + 1).drop_last() =~= peers@.take(i as int));
        assert(peers@.take(i + 1).last() == *p);
        match from_hex(p.device_id.as_str()) {
            Some(device) => {
                let ghost before = configured_view(r@);
                r.push(ConfiguredPeer { device, name: p.name.clone(), edge: p.edge });
                assert(configured_view(r@) =~= before.push((device.bytes@, p.name@, p.edge)));
            },
            None => {},
        }
        i = i + 1;
    }
    assert(peers@.take(peers@.len() as int) =~= peers@);
    r
}

/// The machine linked beyond `edge` of the local screen: the last
/// configured one for that edge.
pub open spec fn last_for_edge(c: Seq<ConfiguredPeer>, edge: ScreenEdge) -> Option<DeviceId>
    decreases c.len(),
{
    if c.len() == 0 {
        None
    } else if c.last().edge == edge {
        Some(c.last().device)
    } else {
        last_for_edge(c.drop_last(), edge)
    }
}

/// Where `edge` of `device` leads once `local` is linked, in order, to each
/// configured neighbour beyond its edge and back: the last link made for
/// that side wins.
pub open spec fn chained_neighbor(local: DeviceId, c: Seq<ConfiguredPeer>, device: DeviceId, edge: ScreenEdge) -> Option<DeviceId>
    decreases c.len(),
{
    if c.len() == 0 {
        None
    } else if device == c.last().device && edge == opposite_edge(c.last().edge) {
        Some(local)
    } else if device == local && edge == c.last().edge {
        Some(c.last().device)
    } else {
        chained_neighbor(local, c.drop_last(), device, edge)
    }
}

/// Whether `device` is configured beyond the edge whose opposite is `edge`
/// (so that its `edge` leads back to the local machine).
pub open spec fn links_back(c: Seq<ConfiguredPeer>, device: DeviceId, edge: ScreenEdge) -> bool {
    exists|i: int| 0 <= i < c.len() && (#[trigger] c[i]).device == device && opposite_edge(c[i].edge) == edge
}

/// The desktop assumed for a machine: one monitor of `geometry`.
pub fn peer_desktop(geometry: MonitorGeometry) -> (d: VirtualDesktop)
    requires
        geometry.wf(),
    ensures
        d.wf(),
        d.monitors@ == seq![geometry],
{
    let d = VirtualDesktop::new(vec![geometry]);
    assert(d.monitors@ =~= seq![geometry]);
    d
}

proof fn lemma_single_bounds(g: MonitorGeometry)
    requires
        g.wf(),
    ensures
        bounding_box_of(seq![g]) matches Some(b) && geometry_of_box(b) == g,
{
    assert(seq![g].drop_last() =~= Seq::<MonitorGeometry>::empty());
    assert(bounding_box_of(Seq::<MonitorGeometry>::empty()) is None);
    assert(seq![g].last() == g);
    assert(bounding_box_of(seq![g]) == Some((g.x as int, g.y as int, g.spec_right(), g.spec_bottom())));
}

/// What the `i`-th step of [`build_layout`] keeps true of the bounds.
proof fn lemma_bounds_step(before: Layout, after: Layout, peers: Seq<ConfiguredPeer>, i: int, local: DeviceId, geometry: MonitorGeometry)
    requires
        0 <= i < peers.len(),
        forall|j: int| 0 <= j < i ==> before.spec_bounds_of((#[trigger] peers[j]).device) == Some(Some(geometry)),
        forall|d: DeviceId| d != local && !(exists|j: int| 0 <= j < i && (#[trigger] peers[j]).device == d)
            ==> before.spec_bounds_of(d) is None,
        after.spec_bounds_of(peers[i].device) == Some(Some(geometry)),
        forall|d: DeviceId| d != peers[i].device ==> after.spec_bounds_of(d) == before.spec_bounds_of(d),
    ensures
        forall|j: int| 0 <= j < i + 1 ==> after.spec_bounds_of((#[trigger] peers[j]).device) == Some(Some(geometry)),
        forall|d: DeviceId| d != local && !(exists|j: int| 0 <= j < i + 1 && (#[trigger] peers[j]).device == d)
            ==> after.spec_bounds_of(d) is None,
{
    assert forall|j: int| 0 <= j < i + 1 implies after.spec_bounds_of((#[trigger] peers[j]).device) == Some(Some(geometry)) by {
        if j < i && peers[j].device != peers[i].device {
            assert(before.spec_bounds_of(peers[j].device) == Some(Some(geometry)));
        }
    }
    assert forall|d: DeviceId| d != local && !(exists|j: int| 0 <= j < i + 1 && (#[trigger] peers[j]).device == d)
        implies after.spec_bounds_of(d) is None by {
        if d == peers[i].device {
            assert(peers[i].device == d);
            assert(false);
        }
        if exists|j: int| 0 <= j < i && (#[trigger] peers[j]).device == d {
            let j = choose|j: int| 0 <= j < i && (#[trigger] peers[j]).device == d;
            assert(0 <= j < i + 1 && peers[j].device == d);
            assert(false);
        }
        assert(before.spec_bounds_of(d) is None);
    }
}

/// What the `i`-th step of [`build_layout`] keeps true of the links.
proof fn lemma_links_step(before: Layout, after: Layout, peers: Seq<ConfiguredPeer>, i: int, local: DeviceId)
    requires
        0 <= i < peers.len(),
        peers[i].device != local,
        forall|e: ScreenEdge| before.spec_neighbor(local, e) == last_for_edge(peers.take(i), e),
        forall|d: DeviceId, e: ScreenEdge| #![trigger before.spec_neighbor(d, e)] d != local ==> before.spec_neighbor(d, e) == (if links_back(peers.take(i), d, e) {
            Some(local)
        } else {
            None
        }),
        after.spec_neighbor(peers[i].device, opposite_edge(peers[i].edge)) == Some(local),
        after.spec_neighbor(local, peers[i].edge) == Some(peers[i].device),
        forall|d: DeviceId, e: ScreenEdge|
            !(d == local && e == peers[i].edge) && !(d == peers[i].device && e == opposite_edge(peers[i].edge))
                ==> after.spec_neighbor(d, e) == before.spec_neighbor(d, e),
    ensures
        forall|e: ScreenEdge| after.spec_neighbor(local, e) == last_for_edge(peers.take(i + 1), e),
        forall|d: DeviceId, e: ScreenEdge| #![trigger after.spec_neighbor(d, e)] d != local ==> after.spec_neighbor(d, e) == (if links_back(peers.take(i + 1), d, e) {
            Some(local)
        } else {
            None
        }),
{
    let t = peers.take(i + 1);
    let p = peers[i];
    assert(t.drop_last() =~= peers.take(i));
    assert(t.last() == p);
    assert forall|e: ScreenEdge| after.spec_neighbor(local, e) == last_for_edge(t, e) by {
        if e != p.edge {
            assert(after.spec_neighbor(local, e) == before.spec_neighbor(local, e));
        }
    }
    assert forall|d: DeviceId, e: ScreenEdge| #![trigger after.spec_neighbor(d, e)] d != local implies after.spec_neighbor(d, e) == (if links_back(t, d, e) {
        Some(local)
    } else {
        None
    }) by {
        if d == p.device && e == opposite_edge(p.edge) {
            assert(t[i] == p);
            assert(links_back(t, d, e));
        } else {
            assert(after.spec_neighbor(d, e) == before.spec_neighbor(d, e));
            assert(links_back(t, d, e) == links_back(peers.take(i), d, e)) by {
                if links_back(t, d, e) {
                    let j = choose|j: int| 0 <= j < t.len() && (#[trigger] t[j]).device == d && opposite_edge(t[j].edge) == e;
                    if j == i {
                        assert(t[j] == p);
                        assert(false);
                    } else {
                        assert(peers.take(i)[j] == t[j]);
                    }
                }
                if links_back(peers.take(i), d, e) {
                    let j = choose|j: int| 0 <= j < i && (#[trigger] peers.take(i)[j]).device == d
                        && opposite_edge(peers.take(i)[j].edge) == e;
                    assert(t[j] == peers.take(i)[j]);
                }
            }
        }
    }
}

/// The screen layout of the server: its own desktop and every configured
/// neighbour's assumed to be `geometry`, and each neighbour linked beyond
/// its edge (and back).
pub fn build_layout(local: DeviceId, geometry: MonitorGeometry, peers: &Vec<ConfiguredPeer>) -> (l: Layout)
    requires
        geometry.wf(),
    ensures
        l.wf(),
        l.spec_bounds_of(local) == Some(Some(geometry)),
        forall|i: int| 0 <= i < peers@.len() ==> l.spec_bounds_of((#[trigger] peers@[i]).device) == Some(Some(geometry)),
        forall|d: DeviceId| d != local && !(exists|i: int| 0 <= i < peers@.len() && (#[trigger] peers@[i]).device == d)
            ==> l.spec_bounds_of(d) is None,
        forall|d: DeviceId, e: ScreenEdge| #[trigger] l.spec_neighbor(d, e) == chained_neighbor(local, peers@, d, e),
        (forall|i: int| 0 <= i < peers@.len() ==> (#[trigger] peers@[i]).device != local) ==> {
            &&& forall|e: ScreenEdge| l.spec_neighbor(local, e) == last_for_edge(peers@, e)
            &&& forall|d: DeviceId, e: ScreenEdge| #![trigger l.spec_neighbor(d, e)] d != local ==> l.spec_neighbor(d, e) == (if links_back(peers@, d, e) {
                Some(local)
            } else {
                None
            })
        },
{
    proof {
        lemma_single_bounds(geometry);
    }
    let mut l = Layout::new();
    l.set_desktop(local, peer_desktop(geometry));
    let mut i: usize = 0;
    while i < peers.len()
        invariant
            0 <= i <= peers@.len(),
            geometry.wf(),
            bounding_box_of(seq![geometry]) matches Some(b) && geometry_of_box(b) == geometry,
            l.wf(),
            l.spec_bounds_of(local) == Some(Some(geometry)),
            forall|j: int| 0 <= j < i ==> l.spec_bounds_of((#[trigger] peers@[j]).device) == Some(Some(geometry)),
            forall|d: DeviceId| d != local && !(exists|j: int| 0 <= j < i && (#[trigger] peers@[j]).device == d)
                ==> l.spec_bounds_of(d) is None,
            forall|d: DeviceId, e: ScreenEdge| #[trigger] l.spec_neighbor(d, e) == chained_neighbor(local, peers@.take(i as int), d, e),
            (forall|j: int| 0 <= j < peers@.len() ==> (#[trigger] peers@[j]).device != local) ==> {
                &&& forall|e: ScreenEdge| l.spec_neighbor(local, e) == last_for_edge(peers@.take(i as int), e)
                &&& forall|d: DeviceId, e: ScreenEdge| #![trigger l.spec_neighbor(d, e)] d != local ==> l.spec_neighbor(d, e) == (if links_back(
                    peers@.take(i as int),
                    d,
                    e,
                ) {
                    Some(local)
                } else {
                    None
                })
            },
        decreases peers@.len() - i,
    {
        let p = &peers[i];
        let ghost before = l;
        l.set_desktop(p.device, peer_desktop(geometry));
        let ghost mid = l;
        l.link_mirrored(local, p.edge, p.device);
        proof {
            assert(l.desktops@ == mid.desktops@);
            assert(forall|d: DeviceId| l.spec_bounds_of(d) == mid.spec_bounds_of(d));
            assert(mid.links@ == before.links@);
            assert(forall|d: DeviceId, e: ScreenEdge| mid.spec_neighbor(d, e) == before.spec_neighbor(d, e));
            lemma_bounds_step(before, l, peers@, i as int, local, geometry);
            let t = peers@.take(i + 1);
            assert(t.drop_last() =~= peers@.take(i as int));
            assert(t.last() == peers@[i as int]);
            assert forall|d: DeviceId, e: ScreenEdge| #[trigger] l.spec_neighbor(d, e) == chained_neighbor(local, t, d, e) by {
                if !(d == local && e == p.edge) && !(d == p.device && e == opposite_edge(p.edge)) {
                    assert(l.spec_neighbor(d, e) == before.spec_neighbor(d, e));
                }
            }
            if forall|j: int| 0 <= j < peers@.len() ==> (#[trigger] peers@[j]).device != local {
                assert(peers@[i as int].device != local);
                lemma_links_step(before, l, peers@, i as int, local);
            }
        }
        i = i + 1;
    }
    assert(peers@.take(peers@.len() as int) =~= peers@);
    l
}

/// Whether `device` is one of the configured neighbours.
pub fn is_known_peer(peers: &Vec<ConfiguredPeer>, device: &DeviceId) -> (r: bool)
    ensures
        r == exists|i: int| 0 <= i < peers@.len() && (#[trigger] peers@[i]).device == *device,
{
    let mut i: usize = 0;
    while i < peers.len()
        invariant
            0 <= i <= peers@.len(),
            forall|j: int| 0 <= j < i ==> (#[trigger] peers@[j]).device != *device,
        decreases peers@.len() - i,
    {
        if peers[i].device.same_as(device) {
            return true;
        }
        i = i + 1;
    }
    false
}

/// The capture barriers of the configured neighbours: the `i`-th one gets
/// id `i + 1` and runs along its edge of `geometry`.
pub fn barriers_for(peers: &Vec<ConfiguredPeer>, geometry: MonitorGeometry) -> (r: Vec<BarrierSpec>)
    requires
        peers@.len() < u32::MAX,
        barrier_bounds_ok(geometry),
    ensures
        r@.len() == peers@.len(),
        forall|i: int| 0 <= i < r@.len() ==> #[trigger] r@[i] == spec_barrier((i + 1) as u32, geometry, peers@[i].edge),
{
    let mut r: Vec<BarrierSpec> = Vec::new();
    let mut i: usize = 0;
    while i < peers.len()
        invariant
            0 <= i <= peers@.len(),
            peers@.len() < u32::MAX,
            barrier_bounds_ok(geometry),
            r@.len() == i,
            forall|j: int| 0 <= j < i ==> #[trigger] r@[j] == spec_barrier((j + 1) as u32, geometry, peers@[j].edge),
        decreases peers@.len() - i,
    {
        let id = (i as u32) + 1;
        r.push(barrier_for_edge(id, geometry, peers[i].edge));
        i = i + 1;
    }
    r
}

/// The desktop a peer reports for itself: one monitor of its size.
pub fn reported_desktop(width: u32, height: u32) -> (d: VirtualDesktop)
    requires
        width <= i32::MAX,
        height <= i32::MAX,
    ensures
        d.wf(),
        d.monitors@ == seq![MonitorGeometry { x: 0, y: 0, width, height }],
{
    peer_desktop(MonitorGeometry::new(0, 0, width, height))
}

} // verus!
