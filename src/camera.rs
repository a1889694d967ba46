use vstd::prelude::*;

use crate::geometry::Float3;

verus! {

/// Bit pattern of 1.0.
pub const FLOAT_ONE: u32 = 0x3f80_0000;

/// Bit pattern of -1.0.
pub const FLOAT_MINUS_ONE: u32 = 0xbf80_0000;

/// Bit pattern of 90.0, the default vertical field of view in degrees.
pub const DEFAULT_FOV: u32 = 0x42b4_0000;

/// A pinhole or thin-lens camera; every float is held as its bit pattern.
#[derive(Clone, Copy, Debug, PartialEq, Eq, Structural)]
pub struct Camera {
    pub pos: Float3,
    pub center: Float3,
    pub up: Float3,
    /// Vertical field of view, in degrees.
    pub fov: u32,
    pub focus_dist: u32,
    pub lens_angle: u32,
}

/// The camera a builder starts from: at the origin, looking down -z with +y
/// up, a 90 degree field of view, focus at distance 1 and a pinhole lens.
pub open spec fn default_camera() -> Camera {
    Camera {
        pos: Float3 { x: 0, y: 0, z: 0 },
        center: Float3 { x: 0, y: 0, z: FLOAT_MINUS_ONE },
        up: Float3 { x: 0, y: FLOAT_ONE, z: 0 },
        fov: DEFAULT_FOV,
        focus_dist: FLOAT_ONE,
        lens_angle: 0,
    }
}

/// Builds a `Camera` from the fields that are supplied, defaulting the rest.
pub struct CameraBuilder {
    camera: Camera,
}

impl View for CameraBuilder {
    type V = Camera;

    closed spec fn view(&self) -> Camera {
        self.camera
    }
}

impl CameraBuilder {
    pub fn new() -> (r: CameraBuilder)
        ensures
            r@ == default_camera(),
    {
        CameraBuilder {
            camera: Camera {
                pos: Float3 { x: 0, y: 0, z: 0 },
                center: Float3 { x: 0, y: 0, z: FLOAT_MINUS_ONE },
                up: Float3 { x: 0, y: FLOAT_ONE, z: 0 },
                fov: DEFAULT_FOV,
                focus_dist: FLOAT_ONE,
                lens_angle: 0,
            },
        }
    }

    pub fn pos(&mut self, pos: Float3)
        ensures
            final(self)@ == (Camera { pos, ..old(self)@ }),
    {
        self.camera.pos = pos;
    }

    pub fn center(&mut self, center: Float3)
        ensures
            final(self)@ == (Camera { center, ..old(self)@ }),
    {
        self.camera.center = center;
    }

    pub fn up(&mut self, up: Float3)
        ensures
            final(self)@ == (Camera { up, ..old(self)@ }),
    {
        self.camera.up = up;
    }

    pub fn fov(&mut self, fov: u32)
        ensures
            final(self)@ == (Camera { fov, ..old(self)@ }),
    {
        self.camera.fov = fov;
    }

    pub fn focus_dist(&mut self, focus_dist: u32)
        ensures
            final(self)@ == (Camera { focus_dist, ..old(self)@ }),
    {
        self.camera.focus_dist = focus_dist;
    }

    pub fn lens_angle(&mut self, lens_angle: u32)
        ensures
            final(self)@ == (Camera { lens_angle, ..old(self)@ }),
    {
        self.camera.lens_angle = lens_angle;
    }

    pub fn build(&self) -> (r: Camera)
        ensures
            r == self@,
    {
        self.camera
    }
}

/// The camera fields a scene description sets; `None` keeps the default.
#[derive(Clone, Copy, Debug, PartialEq, Eq, Structural)]
pub struct CameraConfig {
    pub pos: Option<Float3>,
    pub center: Option<Float3>,
    pub up: Option<Float3>,
    pub fov: Option<u32>,
    pub focus_dist: Option<u32>,
    pub lens_angle: Option<u32>,
}

impl CameraConfig {
    /// A description that sets no field.
    pub fn unset() -> (r: CameraConfig)
        ensures
            r == CameraConfig::spec_unset(),
    {
        CameraConfig {
            pos: None,
            center: None,
            up: None,
            fov: None,
            focus_dist: None,
            lens_angle: None,
        }
    }

    pub open spec fn spec_unset() -> CameraConfig {
        CameraConfig {
            pos: None,
            center: None,
            up: None,
            fov: None,
            focus_dist: None,
            lens_angle: None,
        }
    }
}

pub open spec fn or_default<T>(o: Option<T>, d: T) -> T {
    match o {
        Some(v) => v,
        None => d,
    }
}

/// The camera a description yields: each field it sets, the default elsewhere.
pub open spec fn camera_of(cfg: CameraConfig) -> Camera {
    let d = default_camera();
    Camera {
        pos: or_default(cfg.pos, d.pos),
        center: or_default(cfg.center, d.center),
        up: or_default(cfg.up, d.up),
        fov: or_default(cfg.fov, d.fov),
        focus_dist: or_default(cfg.focus_dist, d.focus_dist),
        lens_angle: or_default(cfg.lens_angle, d.lens_angle),
    }
}

/// Builds the camera of a scene description, applying only the fields it sets.
pub fn load(cfg: &CameraConfig) -> (r: Camera)
    ensures
        r == camera_of(*cfg),
{
    let mut builder = CameraBuilder::new();
    if let Some(pos) = cfg.pos {
        builder.pos(pos);
    }
    if let Some(center) = cfg.center {
        builder.center(center);
    }
    if let Some(up) = cfg.up {
        builder.up(up);
    }
    if let Some(fov) = cfg.fov {
        builder.fov(fov);
    }
    if let Some(focus_dist) = cfg.focus_dist {
        builder.focus_dist(focus_dist);
    }
    if let Some(lens_angle) = cfg.lens_angle {
        builder.lens_angle(lens_angle);
    }
    builder.build()
}

/// A description that sets only the field of view yields the default camera
/// with that field of view; one that sets nothing yields the default camera.
pub proof fn lemma_camera_defaulting(fov: u32)
    ensures
        camera_of(CameraConfig { fov: Some(fov), ..CameraConfig::spec_unset() }) == (Camera {
            fov,
            ..default_camera()
        }),
        camera_of(CameraConfig::spec_unset()) == default_camera(),
{
}

} // verus!
