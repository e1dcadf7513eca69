//! The probe registry: the frame-pinned snapshot of active probe volumes.
//!
//! Each record pairs one volume transform with its kind and light data, so
//! an irradiance volume can never exist without bounds.  Records carry a
//! stable integer id assigned at registration; ids grow with registration
//! order, which gives the resolver its deterministic tie-break.  Scene
//! logic mutates the registry between frames; during a frame the resolver
//! only reads it.

use crate::probe::{EnvironmentMapLight, IrradianceVolume};
use crate::transform::{det, AffineTransform};
use crate::LightProbeError;
use vstd::prelude::*;

verus! {

/// What a probe volume supplies: specular (and optionally diffuse)
/// radiance from an environment map, or diffuse radiance from a voxel
/// grid.
#[derive(Clone, Copy, Debug, PartialEq, Eq, Structural)]
pub enum ProbeKind {
    Reflection(EnvironmentMapLight),
    Irradiance(IrradianceVolume),
}

/// One registered probe: a volume, its kind, and its stable id.
#[derive(Clone, Copy, Debug, PartialEq, Eq, Structural)]
pub struct ProbeRecord {
    pub id: u64,
    pub transform: AffineTransform,
    pub kind: ProbeKind,
}

/// Which opaque asset handles the surrounding store has finished loading.
/// A probe whose handles are not in this set is treated as currently
/// absent by the resolver — not as an error.
pub struct LoadedAssets {
    pub handles: Vec<u64>,
}

impl LoadedAssets {
    pub open spec fn has(self, h: u64) -> bool {
        self.handles@.contains(h)
    }

    pub fn new() -> (r: LoadedAssets)
        ensures
            r.handles@ =~= Seq::<u64>::empty(),
    {
        LoadedAssets { handles: Vec::new() }
    }

    /// Record that the asset behind `h` is now loaded.
    pub fn insert(&mut self, h: u64)
        ensures
            final(self).handles@ == old(self).handles@.push(h),
            final(self).has(h),
    {
        self.handles.push(h);
        proof {
            assert(self.handles@[self.handles@.len() - 1] == h);
        }
    }

    /// Whether the asset behind `h` is loaded.
    pub fn contains(&self, h: u64) -> (r: bool)
        ensures
            r == self.has(h),
    {
        let mut i: usize = 0;
        while i < self.handles.len()
            invariant
                0 <= i <= self.handles@.len(),
                forall|j: int| 0 <= j < i ==> self.handles@[j] != h,
            decreases self.handles@.len() - i,
        {
            if self.handles[i] == h {
                return true;
            }
            i += 1;
        }
        false
    }
}

/// The registry of active probes.
pub struct ProbeRegistry {
    pub records: Vec<ProbeRecord>,
    pub next_id: u64,
}

impl ProbeRegistry {
    /// Well-formedness: every stored transform is in range and invertible
    /// (a singular transform never enters the registry), and ids strictly
    /// grow with position, so they are unique, reflect registration order,
    /// and stay below the id counter.
    pub open spec fn wf(self) -> bool {
        &&& forall|i: int|
            0 <= i < self.records@.len() ==> (#[trigger] self.records@[i]).transform.wf()
        &&& forall|i: int| 0 <= i < self.records@.len() ==> det(#[trigger] self.records@[i].transform) != 0
        &&& forall|i: int, j: int|
            0 <= i < j < self.records@.len() ==> (#[trigger] self.records@[i].id)
                < (#[trigger] self.records@[j].id)
        &&& forall|i: int| 0 <= i < self.records@.len() ==> (#[trigger] self.records@[i].id) < self.next_id
    }

    /// An empty registry.
    pub fn new() -> (r: ProbeRegistry)
        ensures
            r.records@ =~= Seq::<ProbeRecord>::empty(),
            r.next_id == 0,
            r.wf(),
    {
        ProbeRegistry { records: Vec::new(), next_id: 0 }
    }

    /// Number of registered probes.
    pub fn probe_count(&self) -> (n: usize)
        ensures
            n == self.records@.len(),
    {
        self.records.len()
    }

    /// Register a probe.  A singular transform is rejected synchronously
    /// with [`LightProbeError::InvalidTransform`] and the registry is left
    /// unchanged — the probe contributes nothing until a corrected
    /// transform is registered.  Otherwise the record is appended under a
    /// fresh id, which is returned.
    pub fn add(&mut self, transform: AffineTransform, kind: ProbeKind) -> (r: Result<
        u64,
        LightProbeError,
    >)
        requires
            old(self).wf(),
            transform.wf(),
            old(self).next_id < u64::MAX,
        ensures
            final(self).wf(),
            det(transform) == 0 ==> r == Err::<u64, LightProbeError>(
                LightProbeError::InvalidTransform,
            ) && final(self).records@ == old(self).records@
                && final(self).next_id == old(self).next_id,
            det(transform) != 0 ==> r == Ok::<u64, LightProbeError>(old(self).next_id)
                && final(self).records@ == old(self).records@.push(
                ProbeRecord { id: old(self).next_id, transform, kind },
            ) && final(self).next_id == old(self).next_id + 1,
    {
        let d = crate::transform::determinant(&transform);
        if d == 0 {
            return Err(LightProbeError::InvalidTransform);
        }
        let id = self.next_id;
        self.records.push(ProbeRecord { id, transform, kind });
        self.next_id = id + 1;
        Ok(id)
    }

    /// Remove the probe with the given id, if present; reports whether one
    /// was removed.  With `add`, removal is exact: adding a probe and then
    /// removing it restores the record sequence, so resolution behaves as
    /// if the probe had never been registered
    /// (see `crate::resolve::lemma_register_then_remove_is_noop`).
    pub fn remove(&mut self, id: u64) -> (found: bool)
        requires
            old(self).wf(),
        ensures
            final(self).wf(),
            final(self).next_id == old(self).next_id,
            found ==> exists|i: int|
                0 <= i < old(self).records@.len() && old(self).records@[i].id == id
                    && final(self).records@ == old(self).records@.remove(i),
            !found ==> final(self).records@ == old(self).records@ && forall|i: int|
                0 <= i < old(self).records@.len() ==> (#[trigger] old(self).records@[i].id) != id,
    {
        match self.find_index(id) {
            Option::None => false,
            Option::Some(i) => {
                self.records.remove(i);
                proof {
                    old(self).records@.remove_ensures(i as int);
                    assert forall|a: int, b: int|
                        0 <= a < b < self.records@.len() implies (#[trigger] self.records@[a].id)
                        < (#[trigger] self.records@[b].id) by {
                        assert(self.records@[a] == if a < i {
                            old(self).records@[a]
                        } else {
                            old(self).records@[a + 1]
                        });
                        assert(self.records@[b] == if b < i {
                            old(self).records@[b]
                        } else {
                            old(self).records@[b + 1]
                        });
                    }
                }
                true
            },
        }
    }

    /// Position of the probe with the given id, if any.
    fn find_index(&self, id: u64) -> (r: Option<usize>)
        ensures
            match r {
                Option::Some(i) => i < self.records@.len() && self.records@[i as int].id == id,
                Option::None => forall|j: int|
                    0 <= j < self.records@.len() ==> (#[trigger] self.records@[j].id) != id,
            },
    {
        let mut i: usize = 0;
        while i < self.records.len()
            invariant
                0 <= i <= self.records@.len(),
                forall|j: int| 0 <= j < i ==> (#[trigger] self.records@[j].id) != id,
            decreases self.records@.len() - i,
        {
            if self.records[i].id == id {
                return Some(i);
            }
            i += 1;
        }
        None
    }

    /// Replace the transform of the probe with the given id.  A singular
    /// transform is rejected with [`LightProbeError::InvalidTransform`]
    /// and nothing changes; otherwise `Ok(true)` means the probe was
    /// re-bounded in place (id, kind and registration order kept), and
    /// `Ok(false)` that no probe has this id.
    pub fn update(&mut self, id: u64, transform: AffineTransform) -> (r: Result<
        bool,
        LightProbeError,
    >)
        requires
            old(self).wf(),
            transform.wf(),
        ensures
            final(self).wf(),
            final(self).next_id == old(self).next_id,
            det(transform) == 0 ==> r == Err::<bool, LightProbeError>(
                LightProbeError::InvalidTransform,
            ) && final(self).records@ == old(self).records@,
            det(transform) != 0 && (exists|i: int|
                0 <= i < old(self).records@.len() && old(self).records@[i].id == id) ==> r
                == Ok::<bool, LightProbeError>(true) && exists|i: int|
                0 <= i < old(self).records@.len() && old(self).records@[i].id == id
                    && final(self).records@ == old(self).records@.update(
                    i,
                    ProbeRecord { id, transform, kind: old(self).records@[i].kind },
                ),
            det(transform) != 0 && (forall|i: int|
                0 <= i < old(self).records@.len() ==> (#[trigger] old(self).records@[i].id)
                    != id) ==> r == Ok::<bool, LightProbeError>(false) && final(self).records@
                == old(self).records@,
    {
        let d = crate::transform::determinant(&transform);
        if d == 0 {
            return Err(LightProbeError::InvalidTransform);
        }
        match self.find_index(id) {
            Option::None => Ok(false),
            Option::Some(i) => {
                let kind = self.records[i].kind;
                self.records[i] = ProbeRecord { id, transform, kind };
                proof {
                    assert forall|a: int, b: int|
                        0 <= a < b < self.records@.len() implies (#[trigger] self.records@[a].id)
                        < (#[trigger] self.records@[b].id) by {
                        assert(old(self).records@[a].id < old(self).records@[b].id);
                    }
                }
                Ok(true)
            },
        }
    }
}

} // verus!
