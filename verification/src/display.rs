use vstd::prelude::*;

use crate::screen::{MonitorGeometry, bounding_box_of, geometry_of_box};
use crate::text::str_eq;
use crate::wayland::{CaptureZone, zone_geometries, zones_bounding_box};

verus! {

/// Width assumed for the local screen when its real size cannot be asked.
pub const FALLBACK_WIDTH: u32 = 1920;

/// Height assumed for the local screen when its real size cannot be asked.
pub const FALLBACK_HEIGHT: u32 = 1080;

pub open spec fn spec_fallback_geometry() -> MonitorGeometry {
    MonitorGeometry { x: 0, y: 0, width: FALLBACK_WIDTH, height: FALLBACK_HEIGHT }
}

/// The screen assumed when the real one cannot be asked: 1920x1080 at the
/// origin.
pub fn fallback_geometry() -> (g: MonitorGeometry)
    ensures
        g == spec_fallback_geometry(),
{
    MonitorGeometry::new(0, 0, FALLBACK_WIDTH, FALLBACK_HEIGHT)
}

/// Which capture mechanism a server uses. `S` is the handle of an open
/// portal capture session. `Unsupported` keeps the server listening and
/// authenticating peers, with nothing to capture or forward.
pub enum CaptureBackend<S> {
    X11,
    Wayland(S),
    Unsupported,
}

/// The local screen's geometry and the capture mechanism that goes with it.
pub struct LocalDisplay<S> {
    pub geometry: MonitorGeometry,
    pub backend: CaptureBackend<S>,
}

/// Whether the session type reported by the desktop asks for the portal
/// capture path: exactly `"wayland"`.
pub fn wants_wayland(session_type: &str) -> (r: bool)
    ensures
        r == (session_type@ == "wayland"@),
{
    str_eq(session_type, "wayland")
}

/// The display of an X11 session, from the root window's size when it could
/// be asked (`None` when the query failed).
pub fn x11_display<S>(root_size: Option<(u32, u32)>) -> (d: LocalDisplay<S>)
    ensures
        d.backend is X11,
        d.geometry == (match root_size {
            Some((w, h)) => MonitorGeometry { x: 0, y: 0, width: w, height: h },
            None => spec_fallback_geometry(),
        }),
{
    let geometry = match root_size {
        Some((w, h)) => MonitorGeometry::new(0, 0, w, h),
        None => fallback_geometry(),
    };
    LocalDisplay { geometry, backend: CaptureBackend::X11 }
}

/// Whether every zone's edges are representable, the condition under which
/// [`wayland_display`] can take their bounding box.
pub fn zones_representable(zones: &[CaptureZone]) -> (r: bool)
    ensures
        r == (forall|i: int| 0 <= i < zones@.len() ==> (#[trigger] zones@[i]).wf()),
{
    let mut i: usize = 0;
    while i < zones.len()
        invariant
            0 <= i <= zones@.len(),
            forall|k: int| 0 <= k < i ==> (#[trigger] zones@[k]).wf(),
        decreases zones@.len() - i,
    {
        let z = zones[i];
        if z.width > 0x7fff_ffff || z.height > 0x7fff_ffff {
            return false;
        }
        if z.x as i64 + z.width as i64 > 0x7fff_ffff || z.y as i64 + z.height as i64 > 0x7fff_ffff {
            return false;
        }
        i = i + 1;
    }
    true
}

/// The geometry a portal session's zones give: their bounding box, or the
/// fallback when there are none or they could not be asked.
pub open spec fn spec_wayland_geometry(zones: Option<Seq<CaptureZone>>) -> MonitorGeometry {
    match zones {
        Some(zs) => match bounding_box_of(zone_geometries(zs)) {
            Some(b) => geometry_of_box(b),
            None => spec_fallback_geometry(),
        },
        None => spec_fallback_geometry(),
    }
}

/// The display of a Wayland session. `session` is the portal capture
/// session, `None` when it could not be negotiated (the permission was
/// refused, say): the server then captures nothing. `zones` are the zones
/// the session reported, `None` when the query failed.
pub fn wayland_display<S>(session: Option<S>, zones: Option<&[CaptureZone]>) -> (d: LocalDisplay<S>)
    requires
        zones matches Some(zs) ==> forall|i: int| 0 <= i < zs@.len() ==> (#[trigger] zs@[i]).wf(),
    ensures
        match session {
            None => d.backend is Unsupported && d.geometry == spec_fallback_geometry(),
            Some(s) => d.backend == CaptureBackend::Wayland(s) && d.geometry == spec_wayland_geometry(
                match zones {
                    Some(zs) => Some(zs@),
                    None => None,
                },
            ),
        },
{
    match session {
        None => LocalDisplay { geometry: fallback_geometry(), backend: CaptureBackend::Unsupported },
        Some(s) => {
            let geometry = match zones {
                Some(zs) => match zones_bounding_box(zs) {
                    Some(g) => g,
                    None => fallback_geometry(),
                },
                None => fallback_geometry(),
            };
            LocalDisplay { geometry, backend: CaptureBackend::Wayland(s) }
        },
    }
}

} // verus!
