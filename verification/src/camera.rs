use vstd::prelude::*;
use crate::geometry::{normalize, normalize_spec, Vec3};

verus! {

/// Largest coordinate magnitude accepted for camera vectors, chosen so
/// that differences of two camera points stay in the geometric kernels'
/// range.
pub const CAMERA_LIMIT: i64 = 0x2000_0000;

/// The orbiting viewpoint: where the eye sits, what it looks at, which
/// way is up, and whether anything moved since the last frame.
#[derive(Clone, Copy, PartialEq, Eq, Structural, Debug)]
pub struct Camera {
    pub eye: Vec3,
    pub center: Vec3,
    pub up: Vec3,
    pub changed: bool,
}

impl Camera {
    pub fn new(eye: Vec3, center: Vec3, up: Vec3) -> (c: Camera)
        ensures
            c.eye == eye,
            c.center == center,
            c.up == up,
            c.changed,
    {
        Camera { eye, center, up, changed: true }
    }

    /// Whether the camera moved since `reset_change` last ran.
    pub fn has_changed(&self) -> (b: bool)
        ensures
            b == self.changed,
    {
        self.changed
    }

    /// Forget that the camera moved.
    pub fn reset_change(&mut self)
        ensures
            final(self).changed == false,
            final(self).eye == old(self).eye,
            final(self).center == old(self).center,
            final(self).up == old(self).up,
    {
        self.changed = false;
    }

    /// The unit direction the camera looks along: from the eye toward the
    /// center.
    pub fn direction(&self) -> (d: Vec3)
        requires
            self.eye.bounded(CAMERA_LIMIT as int),
            self.center.bounded(CAMERA_LIMIT as int),
        ensures
            d == normalize_spec(
                Vec3 {
                    x: (self.center.x - self.eye.x) as i64,
                    y: (self.center.y - self.eye.y) as i64,
                    z: (self.center.z - self.eye.z) as i64,
                },
            ),
            d.bounded(crate::fixed::FX_ONE as int),
    {
        let v = Vec3 {
            x: self.center.x - self.eye.x,
            y: self.center.y - self.eye.y,
            z: self.center.z - self.eye.z,
        };
        normalize(&v)
    }
}

} // verus!
