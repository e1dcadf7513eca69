//! Filter pipeline behaviour on concrete cubemaps.

use light_probe::filter::{filter_environment_map, Color, Cubemap};
use light_probe::pipeline::{FilterPipeline, JobStatus};
use light_probe::probe::{completed_environment_map, GeneratedEnvironmentMapLight, Rotation};
use light_probe::LightProbeError;

fn color(r: u32, g: u32, b: u32) -> Color {
    Color { r, g, b }
}

#[test]
fn uniform_source_filters_to_the_same_color_everywhere() {
    let c = color(123, 456, 789);
    let src = Cubemap::filled(4, c);
    let maps = filter_environment_map(&src).unwrap();

    for f in 0..6 {
        assert_eq!(maps.diffuse.texel_at(f, 0, 0), c);
    }
    // 4 -> 2 -> 1: three specular mip levels, all uniformly c.
    assert_eq!(maps.specular_mips.len(), 3);
    let mut edge = 4;
    for mip in &maps.specular_mips {
        for f in 0..6 {
            for y in 0..edge {
                for x in 0..edge {
                    assert_eq!(mip.texel_at(f, x, y), c);
                }
            }
        }
        edge /= 2;
    }
}

#[test]
fn non_power_of_two_source_is_rejected() {
    let src = Cubemap::filled(100, color(9, 9, 9));
    let r = filter_environment_map(&src);
    assert!(matches!(r, Err(LightProbeError::InvalidSourceDimensions)));
}

#[test]
fn non_power_of_two_source_schedules_and_publishes_nothing() {
    let mut pipeline = FilterPipeline::new();
    let src = Cubemap::filled(100, color(9, 9, 9));
    let r = pipeline.schedule(77, src);
    assert_eq!(r, Err(LightProbeError::InvalidSourceDimensions));
    assert_eq!(pipeline.job_count(), 0);
    assert_eq!(pipeline.status_of(0), None);
    assert!(pipeline.output_of(0).is_none());
}

#[test]
fn averaging_is_exact_integer_division() {
    // One 2x2 face pattern on all six faces: texels 1, 3, 5, 7 per
    // channel average to (1+3+5+7)/4 = 4 exactly.
    let mut faces: Vec<Vec<Color>> = Vec::new();
    for _ in 0..6 {
        faces.push(vec![color(1, 2, 3), color(3, 4, 5), color(5, 6, 7), color(7, 8, 9)]);
    }
    let src = Cubemap::from_faces(2, faces).unwrap();
    let maps = filter_environment_map(&src).unwrap();

    for f in 0..6 {
        assert_eq!(maps.diffuse.texel_at(f, 0, 0), color(4, 5, 6));
    }
    assert_eq!(maps.specular_mips.len(), 2);
    // Mip zero is the source itself.
    assert_eq!(maps.specular_mips[0].texel_at(0, 1, 0), color(3, 4, 5));
    // Mip one is the 2x2 box average.
    assert_eq!(maps.specular_mips[1].texel_at(0, 0, 0), color(4, 5, 6));
}

#[test]
fn integer_averages_round_down() {
    let mut faces: Vec<Vec<Color>> = Vec::new();
    for _ in 0..6 {
        faces.push(vec![color(0, 1, 2), color(0, 1, 2), color(0, 1, 2), color(1, 2, 3)]);
    }
    let src = Cubemap::from_faces(2, faces).unwrap();
    let maps = filter_environment_map(&src).unwrap();
    // (0+0+0+1)/4 = 0, (1+1+1+2)/4 = 1, (2+2+2+3)/4 = 2.
    assert_eq!(maps.specular_mips[1].texel_at(0, 0, 0), color(0, 1, 2));
}

#[test]
fn mismatched_face_sizes_are_rejected() {
    let mut faces: Vec<Vec<Color>> = Vec::new();
    for _ in 0..6 {
        faces.push(vec![color(1, 1, 1); 3]);
    }
    assert!(Cubemap::from_faces(2, faces).is_none());
}

#[test]
fn one_texel_source_is_a_valid_power_of_two() {
    let c = color(42, 43, 44);
    let src = Cubemap::filled(1, c);
    let maps = filter_environment_map(&src).unwrap();
    assert_eq!(maps.specular_mips.len(), 1);
    assert_eq!(maps.specular_mips[0].texel_at(5, 0, 0), c);
    assert_eq!(maps.diffuse.texel_at(5, 0, 0), c);
}

#[test]
fn pipeline_runs_a_pending_job_to_completion() {
    let mut pipeline = FilterPipeline::new();
    let c = color(10, 20, 30);
    let id = pipeline.schedule(7, Cubemap::filled(2, c)).unwrap();
    assert_eq!(pipeline.status_of(id), Some(JobStatus::Pending));
    assert!(pipeline.output_of(id).is_none());

    assert!(pipeline.run_job(id));
    assert_eq!(pipeline.status_of(id), Some(JobStatus::Complete));
    let maps = pipeline.output_of(id).unwrap();
    assert_eq!(maps.diffuse.texel_at(0, 0, 0), c);

    // Running again publishes nothing new.
    assert!(!pipeline.run_job(id));
}

#[test]
fn rescheduling_supersedes_the_pending_job_and_never_publishes_it() {
    let mut pipeline = FilterPipeline::new();
    let first = pipeline.schedule(7, Cubemap::filled(2, color(1, 1, 1))).unwrap();
    let second = pipeline.schedule(7, Cubemap::filled(4, color(2, 2, 2))).unwrap();
    assert_ne!(first, second);

    assert_eq!(pipeline.status_of(first), Some(JobStatus::Superseded));
    assert_eq!(pipeline.status_of(second), Some(JobStatus::Pending));

    // A superseded job cannot run and never publishes.
    assert!(!pipeline.run_job(first));
    assert!(pipeline.output_of(first).is_none());
    assert_eq!(pipeline.status_of(first), Some(JobStatus::Superseded));

    assert!(pipeline.run_job(second));
    assert_eq!(pipeline.output_of(second).unwrap().diffuse.texel_at(0, 0, 0), color(2, 2, 2));

    // Another owner's pending job is untouched by rescheduling.
    let other = pipeline.schedule(8, Cubemap::filled(2, color(3, 3, 3))).unwrap();
    let _third = pipeline.schedule(7, Cubemap::filled(2, color(4, 4, 4))).unwrap();
    assert_eq!(pipeline.status_of(other), Some(JobStatus::Pending));
}

#[test]
fn unknown_job_ids_do_nothing() {
    let mut pipeline = FilterPipeline::new();
    assert!(!pipeline.run_job(99));
    assert_eq!(pipeline.status_of(99), None);
    assert!(pipeline.output_of(99).is_none());
}

#[test]
fn completed_map_keeps_sampling_parameters() {
    let g = GeneratedEnvironmentMapLight {
        environment_map: 11,
        intensity: 2500,
        rotation: Rotation { x: 1, y: 2, z: 3, w: 60000 },
        affects_lightmapped_mesh_diffuse: false,
    };
    let e = completed_environment_map(&g, 21, 22);
    assert_eq!(e.diffuse_map, 21);
    assert_eq!(e.specular_map, 22);
    assert_eq!(e.intensity, 2500);
    assert_eq!(e.rotation, Rotation { x: 1, y: 2, z: 3, w: 60000 });
    assert!(!e.affects_lightmapped_mesh_diffuse);
}

#[test]
fn defaults_are_the_off_state() {
    let e = light_probe::probe::EnvironmentMapLight::default();
    assert_eq!(e.intensity, 0);
    assert_eq!(e.rotation, Rotation::identity());
    assert!(e.affects_lightmapped_mesh_diffuse);

    let g = GeneratedEnvironmentMapLight::default();
    assert_eq!(g.intensity, 0);
    assert!(g.affects_lightmapped_mesh_diffuse);

    let iv = light_probe::probe::IrradianceVolume::default();
    assert_eq!(iv.intensity, 0);
    assert!(iv.affects_lightmapped_meshes);
}
