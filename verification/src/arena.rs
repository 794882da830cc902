//! The arena-backed buffers that the integrator writes to.
//!
//! The buffers are `bumpalo::collections::Vec`. Verus does not look inside
//! them: what one holds is named by a function without a body, and the
//! functions here say what each call does to it. None of that is proved.
use vstd::prelude::*;
use bumpalo::collections::Vec as BumpVec;
use crate::film::ChannelSample;
use crate::math::Vec2u;
use crate::ray::Ray;

verus! {

#[verifier::external_type_specification]
#[verifier::external_body]
#[verifier::reject_recursive_types(T)]
pub struct ExBumpVec<'bump, T>(BumpVec<'bump, T>);

/// The rays that a buffer holds, first pushed first.
pub uninterp spec fn ray_items(rays: BumpVec<'_, Ray>) -> Seq<Ray>;

/// The samples that a buffer holds, first pushed first.
pub uninterp spec fn sample_items(samples: BumpVec<'_, (Vec2u, ChannelSample)>) -> Seq<
    (Vec2u, ChannelSample),
>;

/// `bumpalo::collections::Vec::push` on a buffer of rays: the ray is added
/// behind those already there, which stay as they are. The call panics when
/// the count of items would pass `usize::MAX`, which `requires` leaves out.
/// Like any allocation it ends the process when the arena gets no more
/// memory; the contract does not speak of that.
#[verifier::external_body]
pub(crate) fn push_ray(rays: &mut BumpVec<'_, Ray>, ray: Ray)
    requires
        ray_items(*old(rays)).len() < usize::MAX,
    ensures
        ray_items(*final(rays)) == ray_items(*old(rays)).push(ray),
{
    rays.push(ray);
}

/// `bumpalo::collections::Vec::push` on a buffer of samples: the sample is
/// added behind those already there, which stay as they are. Panics and
/// memory as for [`push_ray`].
#[verifier::external_body]
pub(crate) fn push_sample(
    samples: &mut BumpVec<'_, (Vec2u, ChannelSample)>,
    sample: (Vec2u, ChannelSample),
)
    requires
        sample_items(*old(samples)).len() < usize::MAX,
    ensures
        sample_items(*final(samples)) == sample_items(*old(samples)).push(sample),
{
    samples.push(sample);
}

/// `bumpalo::collections::Vec::len` on a buffer of rays: the count of items.
#[verifier::external_body]
pub(crate) fn ray_len(rays: &BumpVec<'_, Ray>) -> (n: usize)
    ensures
        n == ray_items(*rays).len(),
{
    rays.len()
}

/// `bumpalo::collections::Vec::len` on a buffer of samples: the count of
/// items.
#[verifier::external_body]
pub(crate) fn sample_len(samples: &BumpVec<'_, (Vec2u, ChannelSample)>) -> (n: usize)
    ensures
        n == sample_items(*samples).len(),
{
    samples.len()
}

} // verus!
