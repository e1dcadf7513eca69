//! Registry and resolver behaviour on concrete scenes.

use light_probe::probe::{EnvironmentMapLight, IrradianceVolume, LightProbe, Rotation};
use light_probe::registry::{LoadedAssets, ProbeKind, ProbeRegistry};
use light_probe::resolve::{DiffuseSource, SpecularSource};
use light_probe::transform::{AffineTransform, Point3};
use light_probe::LightProbeError;

fn env_light(diffuse_map: u64, specular_map: u64, affects: bool) -> EnvironmentMapLight {
    EnvironmentMapLight {
        diffuse_map,
        specular_map,
        intensity: 1000,
        rotation: Rotation::identity(),
        affects_lightmapped_mesh_diffuse: affects,
    }
}

fn irradiance(voxels: u64, affects: bool) -> IrradianceVolume {
    IrradianceVolume { voxels, intensity: 1000, affects_lightmapped_meshes: affects }
}

fn loaded_all() -> LoadedAssets {
    let mut loaded = LoadedAssets::new();
    for h in 1..10u64 {
        loaded.insert(h);
    }
    loaded
}

fn point(x: i64, y: i64, z: i64) -> Point3 {
    Point3 { x, y, z }
}

#[test]
fn light_probe_marker_constructs() {
    let a = LightProbe::new();
    let b = LightProbe::default();
    assert_eq!(a, b);
}

#[test]
fn outside_every_volume_only_fallbacks_apply() {
    let mut reg = ProbeRegistry::new();
    let t = AffineTransform::scaled_box(10, 10, 10, 1, 0, 0, 0);
    reg.add(t, ProbeKind::Reflection(env_light(1, 2, true))).unwrap();
    reg.add(t, ProbeKind::Irradiance(irradiance(3, true))).unwrap();
    let loaded = loaded_all();
    let view = Some(env_light(4, 5, true));

    let r = reg.resolve(point(50, 0, 0), false, false, view, &loaded);
    assert_eq!(r.diffuse, DiffuseSource::ViewEnvironmentMap);
    assert_eq!(r.specular, SpecularSource::ViewEnvironmentMap);

    let r2 = reg.resolve(point(50, 0, 0), false, false, None, &loaded);
    assert_eq!(r2.diffuse, DiffuseSource::AmbientOnly);
    assert_eq!(r2.specular, SpecularSource::AmbientOnly);
}

#[test]
fn single_reflection_probe_wins_both_chains() {
    let mut reg = ProbeRegistry::new();
    let t = AffineTransform::scaled_box(10, 10, 10, 1, 0, 0, 0);
    let id = reg.add(t, ProbeKind::Reflection(env_light(1, 2, true))).unwrap();
    let loaded = loaded_all();
    let view = Some(env_light(4, 5, true));

    let r = reg.resolve(point(0, 0, 0), false, false, view, &loaded);
    assert_eq!(r.diffuse, DiffuseSource::ReflectionProbe(id));
    assert_eq!(r.specular, SpecularSource::ReflectionProbe(id));
}

#[test]
fn irradiance_volume_outranks_reflection_probe_for_diffuse() {
    let mut reg = ProbeRegistry::new();
    let t = AffineTransform::scaled_box(10, 10, 10, 1, 0, 0, 0);
    let refl = reg.add(t, ProbeKind::Reflection(env_light(1, 2, true))).unwrap();
    let irr = reg.add(t, ProbeKind::Irradiance(irradiance(3, true))).unwrap();
    let loaded = loaded_all();

    let r = reg.resolve(point(0, 0, 0), false, false, None, &loaded);
    assert_eq!(r.diffuse, DiffuseSource::IrradianceVolume(irr));
    assert_eq!(r.specular, SpecularSource::ReflectionProbe(refl));
}

#[test]
fn smaller_volume_wins_at_eight_to_one() {
    // Two nested reflection probes whose volumes differ by 8:1 in scale:
    // the smaller (inner) one wins whichever was registered first.
    let small = AffineTransform::scaled_box(10, 10, 10, 1, 0, 0, 0);
    let big = AffineTransform::scaled_box(20, 20, 20, 1, 0, 0, 0);
    let loaded = loaded_all();

    let mut reg = ProbeRegistry::new();
    let id_small = reg.add(small, ProbeKind::Reflection(env_light(1, 2, true))).unwrap();
    let _id_big = reg.add(big, ProbeKind::Reflection(env_light(1, 2, true))).unwrap();
    let r = reg.resolve(point(0, 0, 0), false, false, None, &loaded);
    assert_eq!(r.specular, SpecularSource::ReflectionProbe(id_small));

    let mut reg2 = ProbeRegistry::new();
    let _id_big2 = reg2.add(big, ProbeKind::Reflection(env_light(1, 2, true))).unwrap();
    let id_small2 = reg2.add(small, ProbeKind::Reflection(env_light(1, 2, true))).unwrap();
    let r2 = reg2.resolve(point(0, 0, 0), false, false, None, &loaded);
    assert_eq!(r2.specular, SpecularSource::ReflectionProbe(id_small2));
}

#[test]
fn equal_volumes_tie_break_by_registration_order() {
    let t = AffineTransform::scaled_box(10, 10, 10, 1, 0, 0, 0);
    let loaded = loaded_all();
    let mut reg = ProbeRegistry::new();
    let first = reg.add(t, ProbeKind::Reflection(env_light(1, 2, true))).unwrap();
    let _second = reg.add(t, ProbeKind::Reflection(env_light(1, 2, true))).unwrap();
    let r = reg.resolve(point(0, 0, 0), false, false, None, &loaded);
    assert_eq!(r.specular, SpecularSource::ReflectionProbe(first));
}

#[test]
fn suppressed_probe_falls_through_to_view_environment_map() {
    // A lightmap is present and the only candidate reflection probe does
    // not affect lightmapped diffuse: the diffuse chain falls through to
    // the view environment map while specular still takes the probe.
    let mut reg = ProbeRegistry::new();
    let t = AffineTransform::scaled_box(10, 10, 10, 1, 0, 0, 0);
    let id = reg.add(t, ProbeKind::Reflection(env_light(1, 2, false))).unwrap();
    let loaded = loaded_all();
    let view = Some(env_light(4, 5, true));

    let r = reg.resolve(point(0, 0, 0), true, false, view, &loaded);
    assert_eq!(r.diffuse, DiffuseSource::ViewEnvironmentMap);
    assert_eq!(r.specular, SpecularSource::ReflectionProbe(id));
}

#[test]
fn suppressed_irradiance_falls_through_to_reflection_probe() {
    let mut reg = ProbeRegistry::new();
    let t = AffineTransform::scaled_box(10, 10, 10, 1, 0, 0, 0);
    let refl = reg.add(t, ProbeKind::Reflection(env_light(1, 2, true))).unwrap();
    let _irr = reg.add(t, ProbeKind::Irradiance(irradiance(3, false))).unwrap();
    let loaded = loaded_all();

    let r = reg.resolve(point(0, 0, 0), true, false, None, &loaded);
    assert_eq!(r.diffuse, DiffuseSource::ReflectionProbe(refl));
}

#[test]
fn lightmap_is_diffuse_source_when_everything_else_is_suppressed() {
    let mut reg = ProbeRegistry::new();
    let t = AffineTransform::scaled_box(10, 10, 10, 1, 0, 0, 0);
    reg.add(t, ProbeKind::Reflection(env_light(1, 2, false))).unwrap();
    let loaded = loaded_all();

    let r = reg.resolve(point(0, 0, 0), true, false, None, &loaded);
    assert_eq!(r.diffuse, DiffuseSource::Lightmap);
}

#[test]
fn lightmap_encoding_specular_tops_the_specular_chain() {
    let mut reg = ProbeRegistry::new();
    let t = AffineTransform::scaled_box(10, 10, 10, 1, 0, 0, 0);
    reg.add(t, ProbeKind::Reflection(env_light(1, 2, true))).unwrap();
    let loaded = loaded_all();

    let r = reg.resolve(point(0, 0, 0), true, true, None, &loaded);
    assert_eq!(r.specular, SpecularSource::Lightmap);
}

#[test]
fn unloaded_handles_mean_the_probe_is_absent() {
    let mut reg = ProbeRegistry::new();
    let t = AffineTransform::scaled_box(10, 10, 10, 1, 0, 0, 0);
    reg.add(t, ProbeKind::Reflection(env_light(100, 101, true))).unwrap();
    let loaded = loaded_all();  // handles 1..9 only

    let r = reg.resolve(point(0, 0, 0), false, false, None, &loaded);
    assert_eq!(r.diffuse, DiffuseSource::AmbientOnly);
    assert_eq!(r.specular, SpecularSource::AmbientOnly);
}

#[test]
fn boundary_point_counts_as_inside() {
    let mut reg = ProbeRegistry::new();
    let t = AffineTransform::scaled_box(10, 10, 10, 1, 0, 0, 0);
    let id = reg.add(t, ProbeKind::Reflection(env_light(1, 2, true))).unwrap();
    let loaded = loaded_all();

    let on_face = reg.resolve(point(10, 0, 0), false, false, None, &loaded);
    assert_eq!(on_face.specular, SpecularSource::ReflectionProbe(id));
    let on_corner = reg.resolve(point(10, 10, 10), false, false, None, &loaded);
    assert_eq!(on_corner.specular, SpecularSource::ReflectionProbe(id));
    let outside = reg.resolve(point(11, 0, 0), false, false, None, &loaded);
    assert_eq!(outside.specular, SpecularSource::AmbientOnly);
}

#[test]
fn rotated_anisotropic_volume_contains_the_right_points() {
    // A box of half extents 20 (local x) and 10 (local y), rotated a
    // quarter turn: world x spans [-10, 10], world y spans [-20, 20].
    let t = AffineTransform {
        m00: 0,
        m01: -20,
        m02: 0,
        m10: 40,
        m11: 0,
        m12: 0,
        m20: 0,
        m21: 0,
        m22: 20,
        den: 1,
        tx: 0,
        ty: 0,
        tz: 0,
    };
    let mut reg = ProbeRegistry::new();
    let id = reg.add(t, ProbeKind::Reflection(env_light(1, 2, true))).unwrap();
    let loaded = loaded_all();

    let inside = reg.resolve(point(9, 19, 0), false, false, None, &loaded);
    assert_eq!(inside.specular, SpecularSource::ReflectionProbe(id));
    let outside = reg.resolve(point(19, 9, 0), false, false, None, &loaded);
    assert_eq!(outside.specular, SpecularSource::AmbientOnly);
}

#[test]
fn singular_transform_is_rejected_at_registration() {
    let singular = AffineTransform {
        m00: 1,
        m01: 0,
        m02: 0,
        m10: 2,
        m11: 0,
        m12: 0,
        m20: 0,
        m21: 0,
        m22: 5,
        den: 1,
        tx: 0,
        ty: 0,
        tz: 0,
    };
    let mut reg = ProbeRegistry::new();
    let r = reg.add(singular, ProbeKind::Reflection(env_light(1, 2, true)));
    assert_eq!(r, Err(LightProbeError::InvalidTransform));
    assert_eq!(reg.probe_count(), 0);
}

#[test]
fn update_rebounds_a_probe_in_place() {
    let far = AffineTransform::scaled_box(10, 10, 10, 1, 1000, 0, 0);
    let near = AffineTransform::scaled_box(10, 10, 10, 1, 0, 0, 0);
    let singular = AffineTransform {
        m00: 0,
        m01: 0,
        m02: 0,
        m10: 0,
        m11: 0,
        m12: 0,
        m20: 0,
        m21: 0,
        m22: 0,
        den: 1,
        tx: 0,
        ty: 0,
        tz: 0,
    };
    let mut reg = ProbeRegistry::new();
    let id = reg.add(far, ProbeKind::Reflection(env_light(1, 2, true))).unwrap();
    let loaded = loaded_all();

    let before = reg.resolve(point(0, 0, 0), false, false, None, &loaded);
    assert_eq!(before.specular, SpecularSource::AmbientOnly);

    assert_eq!(reg.update(id, near), Ok(true));
    let after = reg.resolve(point(0, 0, 0), false, false, None, &loaded);
    assert_eq!(after.specular, SpecularSource::ReflectionProbe(id));

    assert_eq!(reg.update(id + 7, near), Ok(false));
    assert_eq!(reg.update(id, singular), Err(LightProbeError::InvalidTransform));
    let unchanged = reg.resolve(point(0, 0, 0), false, false, None, &loaded);
    assert_eq!(unchanged.specular, SpecularSource::ReflectionProbe(id));
}

#[test]
fn register_then_remove_leaves_no_residual_state() {
    let keep = AffineTransform::scaled_box(10, 10, 10, 1, 0, 0, 0);
    let extra = AffineTransform::scaled_box(5, 5, 5, 1, 0, 0, 0);
    let loaded = loaded_all();

    let mut reg = ProbeRegistry::new();
    let kept = reg.add(keep, ProbeKind::Reflection(env_light(1, 2, true))).unwrap();
    let transient = reg.add(extra, ProbeKind::Reflection(env_light(1, 2, true))).unwrap();
    assert!(reg.remove(transient));
    assert!(!reg.remove(transient));

    let mut fresh = ProbeRegistry::new();
    let fresh_id = fresh.add(keep, ProbeKind::Reflection(env_light(1, 2, true))).unwrap();
    assert_eq!(kept, fresh_id);

    for p in [point(0, 0, 0), point(7, -3, 2), point(50, 0, 0)] {
        for has_lightmap in [false, true] {
            let a = reg.resolve(p, has_lightmap, false, None, &loaded);
            let b = fresh.resolve(p, has_lightmap, false, None, &loaded);
            assert_eq!(a, b);
        }
    }
    assert_eq!(reg.probe_count(), fresh.probe_count());
}
