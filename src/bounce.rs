use vstd::prelude::*;

verus! {

/// Where a surface's specular coefficient lies in `[0, 1]`.
#[derive(Clone, Copy, Debug, PartialEq, Eq, Structural)]
pub enum Finish {
    /// Specular coefficient 0: pure diffuse scattering.
    Matte,
    /// Specular coefficient strictly between 0 and 1: diffuse directions pulled toward the
    /// mirror direction.
    Glossy,
    /// Specular coefficient 1: a perfect mirror.
    Mirror,
}

/// What the refractive branch found at a hit, before any direction is produced.
#[derive(Clone, Copy, Debug, PartialEq, Eq, Structural)]
pub struct Fresnel {
    /// The Schlick reflectance reached 1 (grazing or back-facing incidence).
    pub saturated: bool,
    /// Snell's law has no solution: total internal reflection.
    pub total_internal: bool,
    /// The Bernoulli draw on the reflectance, used when a single sample is requested,
    /// chose reflection.
    pub draws_reflection: bool,
}

/// The weight that a bounce carries in the Monte Carlo estimate.
#[derive(Clone, Copy, Debug, PartialEq, Eq, Structural)]
pub enum Probability {
    /// The only outcome.
    One,
    /// One of `n` equally weighted samples: `1 / n`.
    OneIn(u32),
    /// The Fresnel reflectance `R` of the hit.
    Reflectance,
    /// What the reflectance leaves to refraction: `1 - R`.
    Transmittance,
}

/// The outgoing direction of a bounce, by how it is derived from the hit.
#[derive(Clone, Copy, Debug, PartialEq, Eq, Structural)]
pub enum Direction {
    /// The mirror reflection of the incident direction about the normal.
    Mirror,
    /// A uniform sample of the hemisphere about the normal.
    Diffuse,
    /// A hemisphere sample spherically interpolated toward the mirror direction by the
    /// specular fraction.
    Glossy,
    /// The direction refracted through the surface.
    Refracted,
}

/// One candidate outgoing direction and its weight.
#[derive(Clone, Copy, Debug, PartialEq, Eq, Structural)]
pub struct Bounce {
    pub probability: Probability,
    pub direction: Direction,
}

/// The single bounce of probability 1 along `direction`.
pub open spec fn certain(direction: Direction) -> Bounce {
    Bounce { probability: Probability::One, direction }
}

/// `samples` copies of a direction, each weighted `1 / samples`.
pub open spec fn spread(direction: Direction, samples: u32) -> Seq<Bounce> {
    Seq::new(samples as nat, |i: int| Bounce { probability: Probability::OneIn(samples), direction })
}

/// The bounces produced at a hit.
///
/// `refractive` is the outcome of the draw on the material's refraction coefficient; the
/// reflective branch depends on the finish alone, the refractive one on what Fresnel found and
/// on whether a single sample was requested.
pub open spec fn planned(refractive: bool, finish: Finish, fresnel: Fresnel, samples: u32) -> Seq<
    Bounce,
> {
    if !refractive {
        match finish {
            Finish::Mirror => seq![certain(Direction::Mirror)],
            Finish::Matte => spread(Direction::Diffuse, samples),
            Finish::Glossy => spread(Direction::Glossy, samples),
        }
    } else if fresnel.saturated || (samples == 1 && fresnel.draws_reflection)
        || fresnel.total_internal {
        seq![certain(Direction::Mirror)]
    } else if samples == 1 {
        seq![certain(Direction::Refracted)]
    } else {
        seq![
            Bounce { probability: Probability::Reflectance, direction: Direction::Mirror },
            Bounce { probability: Probability::Transmittance, direction: Direction::Refracted },
        ]
    }
}

fn repeated(bounce: Bounce, samples: u32) -> (r: Vec<Bounce>)
    ensures
        r@ == Seq::new(samples as nat, |i: int| bounce),
{
    let mut r: Vec<Bounce> = Vec::new();
    let mut i: u32 = 0;
    while i < samples
        invariant
            i <= samples,
            r@ == Seq::new(i as nat, |k: int| bounce),
        decreases samples - i,
    {
        r.push(bounce);
        i = i + 1;
        assert(r@ =~= Seq::new(i as nat, |k: int| bounce));
    }
    r
}

/// Decides how light leaves a surface: which directions to follow and how to weight them.
///
/// On the reflective branch a mirror gives one certain reflection, and any other finish gives
/// `samples` diffuse or glossy directions of weight `1 / samples`. On the refractive branch a
/// saturated reflectance, total internal reflection or, for a single sample, a draw that chose
/// reflection gives one certain reflection; otherwise a single sample refracts for certain and
/// more samples split into reflection and refraction weighted by the reflectance.
pub fn bounces(refractive: bool, finish: Finish, fresnel: Fresnel, samples: u32) -> (r: Vec<
    Bounce,
>)
    requires
        samples >= 1,
    ensures
        r@ == planned(refractive, finish, fresnel, samples),
{
    let mirror = Bounce { probability: Probability::One, direction: Direction::Mirror };
    if !refractive {
        match finish {
            Finish::Mirror => vec![mirror],
            Finish::Matte => repeated(
                Bounce { probability: Probability::OneIn(samples), direction: Direction::Diffuse },
                samples,
            ),
            Finish::Glossy => repeated(
                Bounce { probability: Probability::OneIn(samples), direction: Direction::Glossy },
                samples,
            ),
        }
    } else if fresnel.saturated || (samples == 1 && fresnel.draws_reflection)
        || fresnel.total_internal {
        vec![mirror]
    } else if samples == 1 {
        vec![Bounce { probability: Probability::One, direction: Direction::Refracted }]
    } else {
        vec![
            Bounce { probability: Probability::Reflectance, direction: Direction::Mirror },
            Bounce { probability: Probability::Transmittance, direction: Direction::Refracted },
        ]
    }
}

/// The value of a weight, given the Fresnel reflectance of the hit.
pub open spec fn probability_value(p: Probability, reflectance: real) -> real {
    match p {
        Probability::One => 1real,
        Probability::OneIn(n) => 1real / (n as real),
        Probability::Reflectance => reflectance,
        Probability::Transmittance => 1real - reflectance,
    }
}

/// The sum of the weights of a list of bounces.
pub open spec fn total_probability(s: Seq<Bounce>, reflectance: real) -> real
    decreases s.len(),
{
    if s.len() == 0 {
        0real
    } else {
        total_probability(s.drop_last(), reflectance) + probability_value(
            s.last().probability,
            reflectance,
        )
    }
}

proof fn lemma_spread_total(direction: Direction, samples: u32, k: nat, reflectance: real)
    requires
        samples >= 1,
        k <= samples,
    ensures
        total_probability(spread(direction, samples).take(k as int), reflectance) == (k as real)
            * (1real / (samples as real)),
    decreases k,
{
    let s = spread(direction, samples).take(k as int);
    if k > 0 {
        let j = (k - 1) as nat;
        lemma_spread_total(direction, samples, j, reflectance);
        assert(s.drop_last() =~= spread(direction, samples).take(j as int));
        let w = 1real / (samples as real);
        assert(s.len() == k);
        assert(probability_value(s.last().probability, reflectance) == w);
        assert(total_probability(s, reflectance) == total_probability(s.drop_last(), reflectance)
            + w);
        assert((j as real) * w + w == (k as real) * w) by (nonlinear_arith)
            requires
                k == j + 1,
        ;
    } else {
        assert(s.len() == 0);
        assert((k as real) * (1real / (samples as real)) == 0real) by (nonlinear_arith)
            requires
                k == 0,
        ;
    }
}

/// A perfect mirror on the reflective branch returns exactly one bounce, of probability 1, along
/// the mirror reflection.
pub proof fn lemma_mirror_reflects_once(fresnel: Fresnel, samples: u32)
    requires
        samples >= 1,
    ensures
        planned(false, Finish::Mirror, fresnel, samples) == seq![certain(Direction::Mirror)],
{
}

/// The reflective branch never refracts and never weights a bounce by the reflectance: each
/// bounce is either the single certain one or one of `samples` equal shares.
pub proof fn lemma_reflective_branch_never_refracts(
    finish: Finish,
    fresnel: Fresnel,
    samples: u32,
)
    requires
        samples >= 1,
    ensures
        forall|i: int|
            0 <= i < planned(false, finish, fresnel, samples).len() ==> {
                let b = #[trigger] planned(false, finish, fresnel, samples)[i];
                &&& b.direction != Direction::Refracted
                &&& (b.probability == Probability::One || b.probability == Probability::OneIn(
                    samples,
                ))
            },
{
}

/// Whatever the branch, the finish, the Fresnel outcome and the reflectance, the probabilities of
/// the bounces returned sum to 1.
pub proof fn lemma_probabilities_sum_to_one(
    refractive: bool,
    finish: Finish,
    fresnel: Fresnel,
    samples: u32,
    reflectance: real,
)
    requires
        samples >= 1,
    ensures
        total_probability(planned(refractive, finish, fresnel, samples), reflectance) == 1real,
{
    let s = planned(refractive, finish, fresnel, samples);
    if !refractive && finish != Finish::Mirror {
        let direction = if finish == Finish::Matte {
            Direction::Diffuse
        } else {
            Direction::Glossy
        };
        assert(s == spread(direction, samples));
        lemma_spread_total(direction, samples, samples as nat, reflectance);
        assert(spread(direction, samples).take(samples as int) =~= s);
        let n = samples as real;
        assert(n * (1real / n) == 1real) by (nonlinear_arith)
            requires
                n >= 1real,
        ;
    } else if s.len() == 1 {
        assert(s.drop_last() =~= Seq::<Bounce>::empty());
        assert(s.last().probability == Probability::One);
        assert(total_probability(s.drop_last(), reflectance) == 0real);
        assert(total_probability(s, reflectance) == 1real);
    } else {
        assert(s.drop_last() =~= seq![s[0]]);
        assert(s.drop_last().drop_last() =~= Seq::<Bounce>::empty());
        assert(s.drop_last().last().probability == Probability::Reflectance);
        assert(total_probability(s.drop_last().drop_last(), reflectance) == 0real);
        assert(total_probability(s.drop_last(), reflectance) == reflectance);
    }
}

/// When the reflectance is positive and, unless Fresnel saturated, below 1, every returned
/// probability lies in `(0, 1]`.
pub proof fn lemma_probabilities_in_unit_interval(
    refractive: bool,
    finish: Finish,
    fresnel: Fresnel,
    samples: u32,
    reflectance: real,
)
    requires
        samples >= 1,
        0real < reflectance,
        fresnel.saturated || reflectance < 1real,
    ensures
        forall|i: int|
            0 <= i < planned(refractive, finish, fresnel, samples).len() ==> {
                let v = probability_value(
                    #[trigger] planned(refractive, finish, fresnel, samples)[i].probability,
                    reflectance,
                );
                0real < v <= 1real
            },
{
    let n = samples as real;
    assert(0real < 1real / n <= 1real) by (nonlinear_arith)
        requires
            n >= 1real,
    ;
}

} // verus!
