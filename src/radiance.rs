use vstd::prelude::*;

verus! {

/// What the radiance estimator does with a traced ray.
#[derive(Clone, Copy, Debug, PartialEq, Eq, Structural)]
pub enum Step {
    /// The ray hit nothing: the background colour.
    Background,
    /// The ray hit a pure emitter, or the bounce limit is reached: the object's emission alone.
    Emission,
    /// The emission plus the albedo-weighted estimate over this many requested bounces.
    Scatter(u32),
}

/// The step for a ray, from what it hit and how deep in the path it is.
pub open spec fn step_of(
    hit: bool,
    emitter: bool,
    depth: u32,
    bounce_limit: u32,
    scaled_samples: i32,
) -> Step {
    if !hit {
        Step::Background
    } else if emitter || depth >= bounce_limit {
        Step::Emission
    } else if scaled_samples < 1 {
        Step::Scatter(1)
    } else {
        Step::Scatter(scaled_samples as u32)
    }
}

/// Decides how the estimator continues after the nearest-hit search.
///
/// `hit` tells whether any object was hit, `emitter` whether its albedo is zero, and
/// `scaled_samples` is the base bounce sample count scaled by the path's importance and rounded.
/// A path that can still contribute always requests at least one bounce.
pub fn next_step(
    hit: bool,
    emitter: bool,
    depth: u32,
    bounce_limit: u32,
    scaled_samples: i32,
) -> (r: Step)
    ensures
        r == step_of(hit, emitter, depth, bounce_limit, scaled_samples),
        r matches Step::Scatter(n) ==> n >= 1,
{
    if !hit {
        Step::Background
    } else if emitter || depth >= bounce_limit {
        Step::Emission
    } else if scaled_samples < 1 {
        Step::Scatter(1)
    } else {
        Step::Scatter(scaled_samples as u32)
    }
}

/// Finds the nearest hit among `objects` by an incremental scan.
///
/// `probe(o, bound)` tests one object against the ray, where `bound` is the hit kept so far; a
/// shape answers only with a hit no farther than the bound, so the hit kept last is the nearest.
/// The result is the index of that object and its hit. When nothing is kept, every object was
/// probed without a bound and answered nothing; otherwise the kept hit is an answer of its object
/// and every later object, probed with it as the bound, answered nothing.
pub fn closest_hit<T, H, F: Fn(&T, Option<&H>) -> Option<H>>(objects: &Vec<T>, probe: F) -> (r:
    Option<(usize, H)>)
    requires
        forall|o: &T, b: Option<&H>| #[trigger] probe.requires((o, b)),
    ensures
        r is None ==> forall|j: int|
            0 <= j < objects.len() ==> probe.ensures((&#[trigger] objects@[j], None::<&H>), None),
        r matches Some((i, h)) ==> {
            &&& i < objects.len()
            &&& exists|b: Option<&H>| probe.ensures((&objects@[i as int], b), Some(h))
            &&& forall|j: int|
                i < j < objects.len() ==> probe.ensures(
                    (&#[trigger] objects@[j], Some(&h)),
                    None,
                )
        },
{
    let mut best: Option<(usize, H)> = None;
    let mut k: usize = 0;
    while k < objects.len()
        invariant
            k <= objects.len(),
            forall|o: &T, b: Option<&H>| #[trigger] probe.requires((o, b)),
            best is None ==> forall|j: int|
                0 <= j < k ==> probe.ensures((&#[trigger] objects@[j], None::<&H>), None),
            best matches Some((i, h)) ==> {
                &&& i < k
                &&& exists|b: Option<&H>| probe.ensures((&objects@[i as int], b), Some(h))
                &&& forall|j: int|
                    i < j < k ==> probe.ensures((&#[trigger] objects@[j], Some(&h)), None)
            },
        decreases objects.len() - k,
    {
        let bound: Option<&H> = match &best {
            Some((_, h)) => Some(h),
            None => None,
        };
        let found = probe(&objects[k], bound);
        if let Some(h) = found {
            best = Some((k, h));
            assert(probe.ensures((&objects@[k as int], bound), Some(best->Some_0.1)));
        } else {
            assert(best is Some ==> bound == Some(&best->Some_0.1));
        }
        k = k + 1;
    }
    best
}

} // verus!
