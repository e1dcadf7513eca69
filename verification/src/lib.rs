//! Light-probe selection and environment-map filtering.
//!
//! A light probe is a cuboid region of space — the canonical unit cube
//! `[-1/2, 1/2]^3` carried into world space by an affine transform — that
//! supplies indirect illumination (a reflection probe's environment map, or
//! an irradiance volume's voxel grid) to every fragment inside it.  This
//! crate keeps a registry of such probes, resolves per fragment which
//! diffuse and which specular source applies under a fixed quality ranking,
//! and filters a runtime-supplied cubemap into the diffuse and specular maps
//! that a reflection probe samples.
//!
//! All geometry is exact fixed-point arithmetic: coordinates, matrix entries
//! and translations are integers at a caller-chosen scale, and containment
//! and volume comparison are decided without rounding.

use vstd::prelude::*;

pub mod transform;
pub mod probe;
pub mod registry;
pub mod resolve;
pub mod filter;
pub mod pipeline;

verus! {

/// The errors this crate reports.
///
/// A handle that is not yet loaded is deliberately *not* an error: the
/// resolver treats such a source as currently absent.
#[derive(Clone, Copy, Debug, PartialEq, Eq, Structural)]
pub enum LightProbeError {
    /// A probe transform whose matrix is singular: the unit cube collapses
    /// and no world point has a well-defined local preimage.  Reported at
    /// registration or update; the probe stays out of the registry until a
    /// corrected transform arrives.
    InvalidTransform,
    /// A filter source cubemap whose face edge is not a power of two.
    /// Reported when a filter job is requested; no job is scheduled.
    InvalidSourceDimensions,
}

} // verus!
