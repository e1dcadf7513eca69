//! Per-fragment priority resolution of indirect-illumination sources.
//!
//! For one fragment the resolver picks a diffuse source and a specular
//! source independently, from the registry snapshot, the fragment's
//! lightmap state, and the view-level environment map.
//!
//! Specular ranking: a lightmap that itself encodes specular, then the
//! reflection probe containing the point, then the view environment map.
//!
//! Diffuse ranking among dynamic sources: irradiance volume, then
//! reflection probe, then view environment map.  A surface with a lightmap
//! already carries its baked diffuse light, so while a lightmap is present
//! a source whose affects-lightmapped flag is false is suppressed — skipped
//! even if it would otherwise be the best match, falling through to the
//! next-ranked source — and the lightmap itself is reported as the diffuse
//! source when every dynamic source is suppressed or absent.  The
//! suppression flags never gate the specular chain.
//!
//! When several probes of one kind contain the point, the probe whose
//! transformed cube has the strictly smallest volume wins, so nested
//! probes override enclosing ones; exact volume ties go to the earliest
//! registered probe, never to an arbitrary iteration order.  A probe whose
//! asset handles are not loaded yet is treated as absent, not as an error;
//! resolution itself never fails, it degrades to ambient-only.

use crate::probe::EnvironmentMapLight;
use crate::registry::{LoadedAssets, ProbeKind, ProbeRecord, ProbeRegistry};
use crate::transform::{contains_point, lemma_vol_lt_compat, vol_lt, volume_lt, Point3};
use vstd::prelude::*;

verus! {

/// The diffuse source selected for a fragment.
#[derive(Clone, Copy, Debug, PartialEq, Eq, Structural)]
pub enum DiffuseSource {
    /// The fragment's baked lightmap.
    Lightmap,
    /// The irradiance volume with this probe id.
    IrradianceVolume(u64),
    /// The reflection probe with this probe id.
    ReflectionProbe(u64),
    /// The view-level environment map.
    ViewEnvironmentMap,
    /// No source applies; only ambient light remains.
    AmbientOnly,
}

/// The specular source selected for a fragment.
#[derive(Clone, Copy, Debug, PartialEq, Eq, Structural)]
pub enum SpecularSource {
    /// The fragment's baked lightmap (only when it encodes specular).
    Lightmap,
    /// The reflection probe with this probe id.
    ReflectionProbe(u64),
    /// The view-level environment map.
    ViewEnvironmentMap,
    /// No source applies; only ambient light remains.
    AmbientOnly,
}

/// Both selections for one fragment.
#[derive(Clone, Copy, Debug, PartialEq, Eq, Structural)]
pub struct ResolvedSources {
    pub diffuse: DiffuseSource,
    pub specular: SpecularSource,
}

/// The three candidate roles a probe can compete in.
#[derive(Clone, Copy, Debug, PartialEq, Eq, Structural)]
pub enum Candidacy {
    /// An irradiance volume competing for the diffuse chain.
    DiffuseIrradiance,
    /// A reflection probe competing for the diffuse chain.
    DiffuseReflection,
    /// A reflection probe competing for the specular chain.
    SpecularReflection,
}

/// Whether the probe's image data is loaded; unloaded data means the probe
/// is currently absent.
pub open spec fn probe_ready(k: ProbeKind, loaded: LoadedAssets) -> bool {
    match k {
        ProbeKind::Reflection(e) => loaded.has(e.diffuse_map) && loaded.has(e.specular_map),
        ProbeKind::Irradiance(iv) => loaded.has(iv.voxels),
    }
}

/// Whether a record competes in the given role for this fragment: it
/// contains the point, its data is ready, it is of the right kind, and it
/// is not suppressed by a present lightmap.
pub open spec fn candidate(
    mode: Candidacy,
    r: ProbeRecord,
    p: Point3,
    has_lightmap: bool,
    loaded: LoadedAssets,
) -> bool {
    &&& contains_point(r.transform, p)
    &&& probe_ready(r.kind, loaded)
    &&& match mode {
        Candidacy::DiffuseIrradiance => match r.kind {
            ProbeKind::Irradiance(iv) => !has_lightmap || iv.affects_lightmapped_meshes,
            _ => false,
        },
        Candidacy::DiffuseReflection => match r.kind {
            ProbeKind::Reflection(e) => !has_lightmap || e.affects_lightmapped_mesh_diffuse,
            _ => false,
        },
        Candidacy::SpecularReflection => r.kind is Reflection,
    }
}

/// Index of the winning candidate among the first `n` records: the one
/// with the strictly smallest transformed volume, earliest registration
/// breaking exact ties.  A left-to-right scan that replaces the running
/// winner only on a strictly smaller volume.
pub open spec fn best_upto(
    s: Seq<ProbeRecord>,
    mode: Candidacy,
    p: Point3,
    has_lightmap: bool,
    loaded: LoadedAssets,
    n: int,
) -> Option<int>
    decreases n,
{
    if n <= 0 {
        Option::None
    } else {
        let prev = best_upto(s, mode, p, has_lightmap, loaded, n - 1);
        if candidate(mode, s[n - 1], p, has_lightmap, loaded) {
            match prev {
                Option::None => Option::Some(n - 1),
                Option::Some(j) => if vol_lt(s[n - 1].transform, s[j].transform) {
                    Option::Some(n - 1)
                } else {
                    Option::Some(j)
                },
            }
        } else {
            prev
        }
    }
}

/// The winning candidate over the whole snapshot.
pub open spec fn best_probe(
    s: Seq<ProbeRecord>,
    mode: Candidacy,
    p: Point3,
    has_lightmap: bool,
    loaded: LoadedAssets,
) -> Option<int> {
    best_upto(s, mode, p, has_lightmap, loaded, s.len() as int)
}

/// Whether the view-level environment map is present with loaded data.
pub open spec fn view_env_ready(view_env: Option<EnvironmentMapLight>, loaded: LoadedAssets) -> bool {
    match view_env {
        Option::Some(e) => loaded.has(e.diffuse_map) && loaded.has(e.specular_map),
        Option::None => false,
    }
}

/// The diffuse source the resolver must select.
pub open spec fn spec_diffuse(
    s: Seq<ProbeRecord>,
    p: Point3,
    has_lightmap: bool,
    view_env: Option<EnvironmentMapLight>,
    loaded: LoadedAssets,
) -> DiffuseSource {
    match best_probe(s, Candidacy::DiffuseIrradiance, p, has_lightmap, loaded) {
        Option::Some(i) => DiffuseSource::IrradianceVolume(s[i].id),
        Option::None => match best_probe(s, Candidacy::DiffuseReflection, p, has_lightmap, loaded) {
            Option::Some(i) => DiffuseSource::ReflectionProbe(s[i].id),
            Option::None => {
                let view_applies = match view_env {
                    Option::Some(e) => loaded.has(e.diffuse_map) && loaded.has(e.specular_map) && (
                    !has_lightmap || e.affects_lightmapped_mesh_diffuse),
                    Option::None => false,
                };
                if view_applies {
                    DiffuseSource::ViewEnvironmentMap
                } else if has_lightmap {
                    DiffuseSource::Lightmap
                } else {
                    DiffuseSource::AmbientOnly
                }
            },
        },
    }
}

/// The specular source the resolver must select.
pub open spec fn spec_specular(
    s: Seq<ProbeRecord>,
    p: Point3,
    has_lightmap: bool,
    lightmap_encodes_specular: bool,
    view_env: Option<EnvironmentMapLight>,
    loaded: LoadedAssets,
) -> SpecularSource {
    if has_lightmap && lightmap_encodes_specular {
        SpecularSource::Lightmap
    } else {
        match best_probe(s, Candidacy::SpecularReflection, p, has_lightmap, loaded) {
            Option::Some(i) => SpecularSource::ReflectionProbe(s[i].id),
            Option::None => if view_env_ready(view_env, loaded) {
                SpecularSource::ViewEnvironmentMap
            } else {
                SpecularSource::AmbientOnly
            },
        }
    }
}

/// Whether a record competes in the given role for this fragment.
pub fn is_candidate(
    r: &ProbeRecord,
    mode: Candidacy,
    p: Point3,
    has_lightmap: bool,
    loaded: &LoadedAssets,
) -> (b: bool)
    requires
        r.transform.wf(),
        p.bounded(),
    ensures
        b == candidate(mode, *r, p, has_lightmap, *loaded),
{
    if !r.transform.contains(p) {
        return false;
    }
    match mode {
        Candidacy::DiffuseIrradiance => match &r.kind {
            ProbeKind::Irradiance(iv) => loaded.contains(iv.voxels) && (!has_lightmap
                || iv.affects_lightmapped_meshes),
            _ => false,
        },
        Candidacy::DiffuseReflection => match &r.kind {
            ProbeKind::Reflection(e) => loaded.contains(e.diffuse_map) && loaded.contains(
                e.specular_map,
            ) && (!has_lightmap || e.affects_lightmapped_mesh_diffuse),
            _ => false,
        },
        Candidacy::SpecularReflection => match &r.kind {
            ProbeKind::Reflection(e) => loaded.contains(e.diffuse_map) && loaded.contains(
                e.specular_map,
            ),
            _ => false,
        },
    }
}

/// A running winner as the exec scan sees it.
spec fn as_int_opt(o: Option<usize>) -> Option<int> {
    match o {
        Option::Some(k) => Option::Some(k as int),
        Option::None => Option::None,
    }
}

impl ProbeRegistry {
    /// Select the diffuse and the specular source for one fragment.
    ///
    /// `has_lightmap` says whether the fragment carries a baked lightmap
    /// and `lightmap_encodes_specular` whether that lightmap stores a
    /// specular term; `view_env` is the view-level fallback environment
    /// map, and `loaded` the set of asset handles the store has finished
    /// loading.  Resolution never fails: with nothing applicable both
    /// outputs are ambient-only.
    pub fn resolve(
        &self,
        p: Point3,
        has_lightmap: bool,
        lightmap_encodes_specular: bool,
        view_env: Option<EnvironmentMapLight>,
        loaded: &LoadedAssets,
    ) -> (r: ResolvedSources)
        requires
            self.wf(),
            p.bounded(),
        ensures
            r.diffuse == spec_diffuse(self.records@, p, has_lightmap, view_env, *loaded),
            r.specular == spec_specular(
                self.records@,
                p,
                has_lightmap,
                lightmap_encodes_specular,
                view_env,
                *loaded,
            ),
    {
        let s = Ghost(self.records@);
        let mut best_di: Option<usize> = None;
        let mut best_dr: Option<usize> = None;
        let mut best_sr: Option<usize> = None;
        let mut i: usize = 0;
        while i < self.records.len()
            invariant
                self.wf(),
                p.bounded(),
                s@ == self.records@,
                0 <= i <= self.records@.len(),
                as_int_opt(best_di) == best_upto(
                    s@,
                    Candidacy::DiffuseIrradiance,
                    p,
                    has_lightmap,
                    *loaded,
                    i as int,
                ),
                as_int_opt(best_dr) == best_upto(
                    s@,
                    Candidacy::DiffuseReflection,
                    p,
                    has_lightmap,
                    *loaded,
                    i as int,
                ),
                as_int_opt(best_sr) == best_upto(
                    s@,
                    Candidacy::SpecularReflection,
                    p,
                    has_lightmap,
                    *loaded,
                    i as int,
                ),
                best_di matches Option::Some(k) ==> k < i,
                best_dr matches Option::Some(k) ==> k < i,
                best_sr matches Option::Some(k) ==> k < i,
            decreases self.records@.len() - i,
        {
            let rec = self.records[i];
            if is_candidate(&rec, Candidacy::DiffuseIrradiance, p, has_lightmap, loaded) {
                best_di = match best_di {
                    None => Some(i),
                    Some(j) => if volume_lt(&rec.transform, &self.records[j].transform) {
                        Some(i)
                    } else {
                        Some(j)
                    },
                };
            }
            if is_candidate(&rec, Candidacy::DiffuseReflection, p, has_lightmap, loaded) {
                best_dr = match best_dr {
                    None => Some(i),
                    Some(j) => if volume_lt(&rec.transform, &self.records[j].transform) {
                        Some(i)
                    } else {
                        Some(j)
                    },
                };
            }
            if is_candidate(&rec, Candidacy::SpecularReflection, p, has_lightmap, loaded) {
                best_sr = match best_sr {
                    None => Some(i),
                    Some(j) => if volume_lt(&rec.transform, &self.records[j].transform) {
                        Some(i)
                    } else {
                        Some(j)
                    },
                };
            }
            i += 1;
        }

        let view_ready = match &view_env {
            Some(e) => loaded.contains(e.diffuse_map) && loaded.contains(e.specular_map),
            None => false,
        };
        let view_diffuse_allowed = match &view_env {
            Some(e) => !has_lightmap || e.affects_lightmapped_mesh_diffuse,
            None => false,
        };

        let diffuse = if let Some(k) = best_di {
            DiffuseSource::IrradianceVolume(self.records[k].id)
        } else if let Some(k) = best_dr {
            DiffuseSource::ReflectionProbe(self.records[k].id)
        } else if view_ready && view_diffuse_allowed {
            DiffuseSource::ViewEnvironmentMap
        } else if has_lightmap {
            DiffuseSource::Lightmap
        } else {
            DiffuseSource::AmbientOnly
        };

        let specular = if has_lightmap && lightmap_encodes_specular {
            SpecularSource::Lightmap
        } else if let Some(k) = best_sr {
            SpecularSource::ReflectionProbe(self.records[k].id)
        } else if view_ready {
            SpecularSource::ViewEnvironmentMap
        } else {
            SpecularSource::AmbientOnly
        };

        ResolvedSources { diffuse, specular }
    }
}

/// The winning candidate is a candidate, no candidate has a strictly
/// smaller volume, and any candidate of the same volume was registered no
/// earlier; with no winner there is no candidate at all.
pub proof fn lemma_best_upto_props(
    s: Seq<ProbeRecord>,
    mode: Candidacy,
    p: Point3,
    has_lightmap: bool,
    loaded: LoadedAssets,
    n: int,
)
    requires
        0 <= n <= s.len(),
        forall|k: int| 0 <= k < s.len() ==> (#[trigger] s[k]).transform.wf(),
    ensures
        match best_upto(s, mode, p, has_lightmap, loaded, n) {
            Option::None => forall|j: int|
                0 <= j < n ==> !candidate(mode, #[trigger] s[j], p, has_lightmap, loaded),
            Option::Some(i) => {
                &&& 0 <= i < n
                &&& candidate(mode, s[i], p, has_lightmap, loaded)
                &&& forall|j: int|
                    0 <= j < n && candidate(mode, #[trigger] s[j], p, has_lightmap, loaded)
                        ==> !vol_lt(s[j].transform, s[i].transform)
                &&& forall|j: int|
                    0 <= j < n && candidate(mode, #[trigger] s[j], p, has_lightmap, loaded)
                        && !vol_lt(s[i].transform, s[j].transform) ==> i <= j
            },
        },
    decreases n,
{
    if n > 0 {
        lemma_best_upto_props(s, mode, p, has_lightmap, loaded, n - 1);
        let prev = best_upto(s, mode, p, has_lightmap, loaded, n - 1);
        if candidate(mode, s[n - 1], p, has_lightmap, loaded) {
            match prev {
                Option::None => {},
                Option::Some(j0) => {
                    if vol_lt(s[n - 1].transform, s[j0].transform) {
                        assert forall|j: int|
                            0 <= j < n - 1 && candidate(
                                mode,
                                #[trigger] s[j],
                                p,
                                has_lightmap,
                                loaded,
                            ) implies vol_lt(s[n - 1].transform, s[j].transform) by {
                            lemma_vol_lt_compat(
                                s[n - 1].transform,
                                s[j0].transform,
                                s[j].transform,
                            );
                        }
                    }
                },
            }
        }
    }
}

/// The selection policy over the whole snapshot, as one law: whichever
/// candidate the resolver picks for a role has minimal transformed volume
/// among all candidates, and beats equal-volume candidates only by earlier
/// registration; and a role with no winner has no candidate.
pub proof fn lemma_selected_probe_minimal(
    s: Seq<ProbeRecord>,
    mode: Candidacy,
    p: Point3,
    has_lightmap: bool,
    loaded: LoadedAssets,
)
    requires
        forall|k: int| 0 <= k < s.len() ==> (#[trigger] s[k]).transform.wf(),
    ensures
        match best_probe(s, mode, p, has_lightmap, loaded) {
            Option::None => forall|j: int|
                0 <= j < s.len() ==> !candidate(mode, #[trigger] s[j], p, has_lightmap, loaded),
            Option::Some(i) => {
                &&& 0 <= i < s.len()
                &&& candidate(mode, s[i], p, has_lightmap, loaded)
                &&& forall|j: int|
                    0 <= j < s.len() && candidate(mode, #[trigger] s[j], p, has_lightmap, loaded)
                        ==> !vol_lt(s[j].transform, s[i].transform)
                &&& forall|j: int|
                    0 <= j < s.len() && candidate(mode, #[trigger] s[j], p, has_lightmap, loaded)
                        && !vol_lt(s[i].transform, s[j].transform) ==> i <= j
            },
        },
{
    lemma_best_upto_props(s, mode, p, has_lightmap, loaded, s.len() as int);
}

/// Outside every probe volume, nothing probe-sourced is selected: the
/// diffuse and specular outputs can only be the lightmap, the view
/// environment map, or ambient-only.
pub proof fn lemma_outside_all_probes(
    s: Seq<ProbeRecord>,
    p: Point3,
    has_lightmap: bool,
    lightmap_encodes_specular: bool,
    view_env: Option<EnvironmentMapLight>,
    loaded: LoadedAssets,
)
    requires
        forall|k: int| 0 <= k < s.len() ==> (#[trigger] s[k]).transform.wf(),
        forall|k: int| 0 <= k < s.len() ==> !contains_point((#[trigger] s[k]).transform, p),
    ensures
        !(spec_diffuse(s, p, has_lightmap, view_env, loaded) is IrradianceVolume),
        !(spec_diffuse(s, p, has_lightmap, view_env, loaded) is ReflectionProbe),
        !(spec_specular(s, p, has_lightmap, lightmap_encodes_specular, view_env, loaded)
            is ReflectionProbe),
{
    lemma_selected_probe_minimal(s, Candidacy::DiffuseIrradiance, p, has_lightmap, loaded);
    lemma_selected_probe_minimal(s, Candidacy::DiffuseReflection, p, has_lightmap, loaded);
    lemma_selected_probe_minimal(s, Candidacy::SpecularReflection, p, has_lightmap, loaded);
}

/// With no lightmap and exactly one containing reflection probe, the
/// specular chain always selects that probe, and the diffuse chain selects
/// it exactly when no irradiance volume also contains the point.
pub proof fn lemma_single_reflection_probe(
    s: Seq<ProbeRecord>,
    p: Point3,
    view_env: Option<EnvironmentMapLight>,
    loaded: LoadedAssets,
    i: int,
)
    requires
        forall|k: int| 0 <= k < s.len() ==> (#[trigger] s[k]).transform.wf(),
        0 <= i < s.len(),
        candidate(Candidacy::SpecularReflection, s[i], p, false, loaded),
        forall|j: int|
            0 <= j < s.len() && candidate(Candidacy::SpecularReflection, #[trigger] s[j], p, false, loaded)
                ==> j == i,
    ensures
        spec_specular(s, p, false, false, view_env, loaded) == SpecularSource::ReflectionProbe(
            s[i].id,
        ),
        (spec_diffuse(s, p, false, view_env, loaded) == DiffuseSource::ReflectionProbe(s[i].id))
            <==> (forall|j: int|
            0 <= j < s.len() ==> !candidate(
                Candidacy::DiffuseIrradiance,
                #[trigger] s[j],
                p,
                false,
                loaded,
            )),
{
    lemma_selected_probe_minimal(s, Candidacy::DiffuseIrradiance, p, false, loaded);
    lemma_selected_probe_minimal(s, Candidacy::DiffuseReflection, p, false, loaded);
    lemma_selected_probe_minimal(s, Candidacy::SpecularReflection, p, false, loaded);
    assert forall|j: int| 0 <= j < s.len() implies candidate(
        Candidacy::DiffuseReflection,
        #[trigger] s[j],
        p,
        false,
        loaded,
    ) == candidate(Candidacy::SpecularReflection, s[j], p, false, loaded) by {
        match s[j].kind {
            ProbeKind::Reflection(_) => {},
            ProbeKind::Irradiance(_) => {},
        }
    }
    match best_probe(s, Candidacy::SpecularReflection, p, false, loaded) {
        Option::None => {
            assert(false);
        },
        Option::Some(b) => {
            assert(b == i);
        },
    }
    if forall|j: int|
        0 <= j < s.len() ==> !candidate(Candidacy::DiffuseIrradiance, #[trigger] s[j], p, false, loaded) {
        match best_probe(s, Candidacy::DiffuseIrradiance, p, false, loaded) {
            Option::None => {},
            Option::Some(b) => {
                assert(false);
            },
        }
        match best_probe(s, Candidacy::DiffuseReflection, p, false, loaded) {
            Option::None => {
                assert(false);
            },
            Option::Some(b) => {
                assert(b == i);
            },
        }
    } else {
        assert(exists|j: int|
            0 <= j < s.len() && candidate(
                Candidacy::DiffuseIrradiance,
                #[trigger] s[j],
                p,
                false,
                loaded,
            ));
        match best_probe(s, Candidacy::DiffuseIrradiance, p, false, loaded) {
            Option::None => {
                assert(false);
            },
            Option::Some(b) => {},
        }
    }
}

/// Suppression falls through: with a lightmap present, a sole containing
/// reflection probe whose diffuse flag is off is skipped for diffuse — the
/// diffuse chain falls through to the view environment map — while the
/// specular chain still selects that probe, since the flag only gates
/// diffuse.
pub proof fn lemma_suppressed_probe_falls_through(
    s: Seq<ProbeRecord>,
    p: Point3,
    ve: EnvironmentMapLight,
    loaded: LoadedAssets,
    i: int,
)
    requires
        forall|k: int| 0 <= k < s.len() ==> (#[trigger] s[k]).transform.wf(),
        0 <= i < s.len(),
        candidate(Candidacy::SpecularReflection, s[i], p, true, loaded),
        s[i].kind matches ProbeKind::Reflection(e) && !e.affects_lightmapped_mesh_diffuse,
        forall|j: int|
            0 <= j < s.len() && candidate(Candidacy::SpecularReflection, #[trigger] s[j], p, true, loaded)
                ==> j == i,
        forall|j: int|
            0 <= j < s.len() ==> !candidate(
                Candidacy::DiffuseIrradiance,
                #[trigger] s[j],
                p,
                true,
                loaded,
            ),
        loaded.has(ve.diffuse_map),
        loaded.has(ve.specular_map),
        ve.affects_lightmapped_mesh_diffuse,
    ensures
        spec_diffuse(s, p, true, Option::Some(ve), loaded) == DiffuseSource::ViewEnvironmentMap,
        spec_specular(s, p, true, false, Option::Some(ve), loaded)
            == SpecularSource::ReflectionProbe(s[i].id),
{
    lemma_selected_probe_minimal(s, Candidacy::DiffuseIrradiance, p, true, loaded);
    lemma_selected_probe_minimal(s, Candidacy::DiffuseReflection, p, true, loaded);
    lemma_selected_probe_minimal(s, Candidacy::SpecularReflection, p, true, loaded);
    assert forall|j: int| 0 <= j < s.len() implies !candidate(
        Candidacy::DiffuseReflection,
        #[trigger] s[j],
        p,
        true,
        loaded,
    ) by {
        if candidate(Candidacy::DiffuseReflection, s[j], p, true, loaded) {
            assert(candidate(Candidacy::SpecularReflection, s[j], p, true, loaded));
            assert(j == i);
        }
    }
    match best_probe(s, Candidacy::DiffuseIrradiance, p, true, loaded) {
        Option::None => {},
        Option::Some(b) => {
            assert(false);
        },
    }
    match best_probe(s, Candidacy::DiffuseReflection, p, true, loaded) {
        Option::None => {},
        Option::Some(b) => {
            assert(false);
        },
    }
    match best_probe(s, Candidacy::SpecularReflection, p, true, loaded) {
        Option::None => {
            assert(false);
        },
        Option::Some(b) => {
            assert(b == i);
        },
    }
}

/// Registering a probe and then removing it restores the record sequence
/// exactly; since resolution is a function of the record sequence alone,
/// `resolve` then behaves as if the probe had never been registered.
pub proof fn lemma_register_then_remove_is_noop(s: Seq<ProbeRecord>, rec: ProbeRecord, i: int)
    requires
        forall|k: int| 0 <= k < s.len() ==> (#[trigger] s[k]).id != rec.id,
        0 <= i < s.push(rec).len(),
        s.push(rec)[i].id == rec.id,
    ensures
        s.push(rec).remove(i) == s,
{
    if i < s.len() {
        assert(s.push(rec)[i] == s[i]);
        assert(false);
    }
    s.push(rec).remove_ensures(i);
    assert(s.push(rec).remove(i) =~= s);
}

} // verus!
