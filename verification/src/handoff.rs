use vstd::prelude::*;
use crate::types::DeviceId;
use crate::screen::{Layout, MonitorGeometry, VirtualDesktop, clamp_int, bounding_box_of, geometry_of_box};

verus! {

/// Who owns the pointer and keyboard right now.
#[derive(Clone, Copy, Debug, PartialEq, Eq)]
pub enum Active {
    /// This machine: nothing is intercepted.
    Local,
    /// A remote machine: local input is grabbed and forwarded to it.
    Remote(DeviceId),
}

/// What to do in response to a position report.
#[derive(Clone, Copy, Debug, PartialEq, Eq)]
pub enum HandoffAction {
    /// Start (or keep) forwarding to `device`, reappearing at `(x, y)` there.
    ForwardTo { device: DeviceId, x: i32, y: i32 },
    /// Give control back to this machine, reappearing at `(x, y)` here.
    ReturnLocal { x: i32, y: i32 },
}

/// Decides, from the pointer position and the screen layout, when control
/// passes to another machine and to which one.
pub struct HandoffState {
    pub layout: Layout,
    pub local_device: DeviceId,
    pub active: Active,
}

impl HandoffState {
    pub open spec fn wf(&self) -> bool {
        self.layout.wf()
    }

    /// The machine whose desktop the current position refers to.
    pub open spec fn current_device(&self) -> DeviceId {
        match self.active {
            Active::Local => self.local_device,
            Active::Remote(d) => d,
        }
    }

    /// The action a crossing to `target` at `(x, y)` produces.
    pub open spec fn action_for(&self, target: DeviceId, x: int, y: int) -> HandoffAction {
        if target == self.local_device {
            HandoffAction::ReturnLocal { x: x as i32, y: y as i32 }
        } else {
            HandoffAction::ForwardTo { device: target, x: x as i32, y: y as i32 }
        }
    }

    /// Owner of control after a crossing to `target`.
    pub open spec fn active_for(&self, target: DeviceId) -> Active {
        if target == self.local_device {
            Active::Local
        } else {
            Active::Remote(target)
        }
    }

    pub fn new(layout: Layout, local_device: DeviceId) -> (s: HandoffState)
        requires
            layout.wf(),
        ensures
            s.wf(),
            s.layout == layout,
            s.local_device == local_device,
            s.active == Active::Local,
    {
        HandoffState { layout, local_device, active: Active::Local }
    }

    pub fn active(&self) -> (a: Active)
        ensures
            a == self.active,
    {
        self.active
    }

    /// Process a position report: absolute on this machine while control is
    /// local, accumulated on the active machine while it is remote.
    pub fn on_position(&mut self, x: i32, y: i32) -> (r: Option<HandoffAction>)
        requires
            old(self).wf(),
        ensures
            final(self).wf(),
            final(self).layout == old(self).layout,
            final(self).local_device == old(self).local_device,
            match old(self).layout.spec_crossing(old(self).current_device(), x as int, y as int) {
                None => r is None && final(self).active == old(self).active,
                Some(c) => r == Some(old(self).action_for(c.0, c.1, c.2)) && final(self).active
                    == old(self).active_for(c.0),
            },
    {
        let current = match self.active {
            Active::Local => self.local_device,
            Active::Remote(device) => device,
        };
        let handoff = match self.layout.detect_crossing(current, x, y) {
            Some(h) => h,
            None => return None,
        };
        if handoff.target_device.same_as(&self.local_device) {
            self.active = Active::Local;
            Some(HandoffAction::ReturnLocal { x: handoff.x, y: handoff.y })
        } else {
            self.active = Active::Remote(handoff.target_device);
            Some(HandoffAction::ForwardTo { device: handoff.target_device, x: handoff.x, y: handoff.y })
        }
    }

    /// Force control back to this machine if it is currently given to
    /// `device`; `false` (and nothing changes) otherwise.
    pub fn reclaim_if_remote(&mut self, device: DeviceId) -> (reclaimed: bool)
        ensures
            final(self).layout == old(self).layout,
            final(self).local_device == old(self).local_device,
            reclaimed == (old(self).active == Active::Remote(device)),
            reclaimed ==> final(self).active == Active::Local,
            !reclaimed ==> final(self).active == old(self).active,
    {
        let matches_device = match self.active {
            Active::Remote(current) => current.same_as(&device),
            Active::Local => false,
        };
        if matches_device {
            self.active = Active::Local;
            true
        } else {
            false
        }
    }

    /// Pin `(x, y)` inside the desktop of the machine that owns control;
    /// unchanged when that desktop is unknown or has no monitors.
    pub fn clamp_to_active_desktop(&self, x: i32, y: i32) -> (p: (i32, i32))
        requires
            self.wf(),
        ensures
            match self.layout.spec_bounds_of(self.current_device()) {
                Some(Some(b)) => p.0 == clamp_int(x as int, b.x as int, b.last_x()) && p.1
                    == clamp_int(y as int, b.y as int, b.last_y()),
                _ => p == (x, y),
            },
    {
        let device = match self.active {
            Active::Local => self.local_device,
            Active::Remote(device) => device,
        };
        match self.layout.bounds_of(device) {
            Some(Some(bounds)) => bounds.clamp_point(x, y),
            _ => (x, y),
        }
    }

    /// Replace the desktop known for `device` (e.g. when a peer reports its
    /// real resolution).
    pub fn update_peer_geometry(&mut self, device: DeviceId, desktop: VirtualDesktop)
        requires
            old(self).wf(),
            desktop.wf(),
        ensures
            final(self).wf(),
            final(self).active == old(self).active,
            final(self).local_device == old(self).local_device,
            final(self).layout.spec_bounds_of(device) == Some(
                match bounding_box_of(desktop.monitors@) {
                    Some(b) => Some(geometry_of_box(b)),
                    None => None,
                },
            ),
            forall|d: DeviceId|
                d != device ==> final(self).layout.spec_bounds_of(d) == old(self).layout.spec_bounds_of(d),
            forall|d, e| final(self).layout.spec_neighbor(d, e) == old(self).layout.spec_neighbor(d, e),
    {
        self.layout.set_desktop(device, desktop);
    }
}

} // verus!
