//! Light data carried by probes: environment maps, runtime-filtered
//! environment maps, and irradiance volumes.
//!
//! Image data itself lives in the surrounding asset store; this crate keeps
//! only opaque integer handles to it, together with the plain sampling
//! parameters.  Intensity is a non-negative fixed-point scalar in
//! thousandths (`1000` is unit gain); a rotation is a quaternion in
//! fixed-point with `ROTATION_ONE` as 1.  Neither is interpreted here: both
//! are applied at sample time by the shading stage, which is why changing
//! them never re-triggers filtering.

use vstd::prelude::*;

verus! {

/// Marker for a light probe: a cuboid region that provides indirect
/// illumination to the fragments inside it.  A probe has no effect on its
/// own; it takes effect when registered together with a transform and
/// either an [`EnvironmentMapLight`] or an [`IrradianceVolume`].
#[derive(Clone, Copy, Debug, Default, PartialEq, Eq, Structural)]
pub struct LightProbe;

impl LightProbe {
    /// Creates a new light probe component.
    pub fn new() -> Self {
        Self
    }
}

/// Fixed-point one for quaternion components.
pub const ROTATION_ONE: i32 = 65536;

/// A unit quaternion in fixed-point, applied to the sampling direction
/// before an environment-map lookup.
#[derive(Clone, Copy, Debug, PartialEq, Eq, Structural)]
pub struct Rotation {
    pub x: i32,
    pub y: i32,
    pub z: i32,
    pub w: i32,
}

impl Rotation {
    /// The identity rotation.
    pub fn identity() -> (r: Rotation)
        ensures
            r.x == 0 && r.y == 0 && r.z == 0 && r.w == ROTATION_ONE,
    {
        Rotation { x: 0, y: 0, z: 0, w: ROTATION_ONE }
    }
}

/// A pair of cubemap textures that represent the surroundings of a
/// specific area in space: a blurry diffuse radiance map and a mipmapped
/// specular radiance map.
#[derive(Clone, Copy, Debug, PartialEq, Eq, Structural)]
pub struct EnvironmentMapLight {
    /// Handle of the diffuse irradiance cubemap.
    pub diffuse_map: u64,
    /// Handle of the mipmapped specular cubemap.
    pub specular_map: u64,
    /// Fixed-point scale factor applied to both maps; zero is a valid
    /// "off" state.
    pub intensity: u32,
    /// World-space rotation applied to the cubemaps.
    pub rotation: Rotation,
    /// Whether this map contributes diffuse lighting to meshes with
    /// lightmaps.  False avoids counting radiance twice when the baking
    /// tool already folded this light into the lightmaps.
    pub affects_lightmapped_mesh_diffuse: bool,
}

impl Default for EnvironmentMapLight {
    fn default() -> (r: Self)
        ensures
            r.diffuse_map == 0 && r.specular_map == 0,
            r.intensity == 0,
            r.rotation.x == 0 && r.rotation.y == 0 && r.rotation.z == 0,
            r.rotation.w == ROTATION_ONE,
            r.affects_lightmapped_mesh_diffuse,
    {
        EnvironmentMapLight {
            diffuse_map: 0,
            specular_map: 0,
            intensity: 0,
            rotation: Rotation::identity(),
            affects_lightmapped_mesh_diffuse: true,
        }
    }
}

/// An environment map that is filtered at runtime from a single source
/// cubemap.  The source face edge must be a power of two; filtering turns
/// it into an [`EnvironmentMapLight`]-shaped pair of maps, and until that
/// work completes the owning probe contributes nothing.
#[derive(Clone, Copy, Debug, PartialEq, Eq, Structural)]
pub struct GeneratedEnvironmentMapLight {
    /// Handle of the source cubemap to be filtered.
    pub environment_map: u64,
    /// Fixed-point scale factor applied to the filtered maps.
    pub intensity: u32,
    /// World-space rotation applied to the filtered maps.
    pub rotation: Rotation,
    /// Whether the filtered light contributes diffuse lighting to meshes
    /// that already have baked lightmaps.
    pub affects_lightmapped_mesh_diffuse: bool,
}

impl Default for GeneratedEnvironmentMapLight {
    fn default() -> (r: Self)
        ensures
            r.environment_map == 0,
            r.intensity == 0,
            r.rotation.x == 0 && r.rotation.y == 0 && r.rotation.z == 0,
            r.rotation.w == ROTATION_ONE,
            r.affects_lightmapped_mesh_diffuse,
    {
        GeneratedEnvironmentMapLight {
            environment_map: 0,
            intensity: 0,
            rotation: Rotation::identity(),
            affects_lightmapped_mesh_diffuse: true,
        }
    }
}

/// An irradiance volume: a 3D texture of ambient cubes sampled for diffuse
/// light.  It has no bounds of its own; it always decorates a probe volume,
/// which the registry enforces by construction.
#[derive(Clone, Copy, Debug, PartialEq, Eq, Structural)]
pub struct IrradianceVolume {
    /// Handle of the 3D texture that holds the ambient cubes.
    pub voxels: u64,
    /// Fixed-point scale factor applied to the sampled light.
    pub intensity: u32,
    /// Whether this volume affects meshes with lightmaps; false avoids
    /// counting baked irradiance twice.
    pub affects_lightmapped_meshes: bool,
}

impl Default for IrradianceVolume {
    fn default() -> (r: Self)
        ensures
            r.voxels == 0,
            r.intensity == 0,
            r.affects_lightmapped_meshes,
    {
        IrradianceVolume { voxels: 0, intensity: 0, affects_lightmapped_meshes: true }
    }
}

/// The sampling parameters of a generated map carried over to the filtered
/// result: once the filter pipeline publishes a diffuse and a specular map
/// for `g`, the probe behaves exactly like a precomputed environment map
/// with those handles.  Intensity, rotation and the lightmap flag are
/// applied at sample time, never baked into the maps, so they carry over
/// unchanged.
pub fn completed_environment_map(
    g: &GeneratedEnvironmentMapLight,
    diffuse_map: u64,
    specular_map: u64,
) -> (r: EnvironmentMapLight)
    ensures
        r.diffuse_map == diffuse_map,
        r.specular_map == specular_map,
        r.intensity == g.intensity,
        r.rotation == g.rotation,
        r.affects_lightmapped_mesh_diffuse == g.affects_lightmapped_mesh_diffuse,
{
    EnvironmentMapLight {
        diffuse_map,
        specular_map,
        intensity: g.intensity,
        rotation: g.rotation,
        affects_lightmapped_mesh_diffuse: g.affects_lightmapped_mesh_diffuse,
    }
}

} // verus!
