//! The integrator: pairwise forces from one snapshot of the positions, then
//! momenta, then positions from the new momenta.

use vstd::prelude::*;
use crate::arith::{
    div_toward_zero,
    lemma_floor_sqrt_bounds,
    lemma_mul_bounds,
    lemma_trunc_div_bounds,
    trunc_div,
};
use crate::body::{
    body_views,
    Body,
    SpecBody,
    StepError,
    MASS_LIMIT,
    MOMENTUM_LIMIT,
    POSITION_LIMIT,
};
use crate::vector::{Vec2, Vector};

verus! {

/// Largest gravitational constant.
pub const GRAVITY_LIMIT: i128 = 1_000_000_000_000_000_000_000;

/// The constant 10000 in the units of the bodies' fields: a force is a
/// momentum per time, so the constant is scaled by the cube of the length
/// unit over the mass unit.
pub const CANONICAL_GRAVITY: i128 = 10_000_000_000_000_000_000;

/// Largest numerator and denominator of the timestep.
pub const TIMESTEP_LIMIT: i128 = 1_000;

/// Largest magnitude of a component of the force between two bodies in range.
pub const FORCE_LIMIT: i128 = 1_000_000_000_000_000_000_000_000_000_000_000;

/// The size of the force between two bodies: `g * a.mass * b.mass` over the
/// exact squared distance, rounded down.
pub open spec fn force_size(g: int, a: SpecBody, b: SpecBody) -> int {
    trunc_div(g * a.mass * b.mass, b.position.minus(a.position).norm_sq())
}

/// The force that goes with the pair `(a, b)`: of size `force_size`, along
/// the line from `a` to `b`, pointing back toward `a`. The direction is the
/// separation over its length; the length is rounded down and each component
/// is rounded toward zero.
pub open spec fn pair_force(g: int, a: SpecBody, b: SpecBody) -> Vector {
    let r = b.position.minus(a.position);
    let size = force_size(g, a, b);
    let d = r.magnitude() as int;
    Vector { x: trunc_div(-(size * r.x), d), y: trunc_div(-(size * r.y), d) }
}

/// `v` times `num / den`, each component rounded toward zero.
pub open spec fn scaled(v: Vector, num: int, den: int) -> Vector {
    Vector { x: trunc_div(v.x * num, den), y: trunc_div(v.y * num, den) }
}

/// The net force on each of three bodies, from the three pair forces.
pub open spec fn net_forces(g: int, s: Seq<SpecBody>) -> Seq<Vector>
    recommends
        s.len() == 3,
{
    let f12 = pair_force(g, s[0], s[1]);
    let f21 = f12.negated();
    let f13 = pair_force(g, s[0], s[2]);
    let f23 = pair_force(g, s[1], s[2]);
    seq![f21.minus(f13), f12.minus(f23), f13.plus(f23)]
}

/// A body after one tick under the net force `net` and the timestep
/// `num / den`: the momentum gains the impulse, then the position moves by
/// the new momentum over the mass.
pub open spec fn advance_body(b: SpecBody, net: Vector, num: int, den: int) -> SpecBody {
    let momentum = b.momentum.plus(scaled(net, num, den));
    SpecBody {
        position: b.position.plus(scaled(momentum, num, den * b.mass)),
        momentum,
        mass: b.mass,
    }
}

/// Three bodies after one tick, all forces taken from `s` itself.
pub open spec fn advance(g: int, num: int, den: int, s: Seq<SpecBody>) -> Seq<SpecBody>
    recommends
        s.len() == 3,
{
    let nets = net_forces(g, s);
    seq![
        advance_body(s[0], nets[0], num, den),
        advance_body(s[1], nets[1], num, den),
        advance_body(s[2], nets[2], num, den),
    ]
}

/// Whether two of three bodies share a position.
pub open spec fn has_collision(s: Seq<SpecBody>) -> bool
    recommends
        s.len() == 3,
{
    s[0].position == s[1].position || s[0].position == s[2].position || s[1].position
        == s[2].position
}

/// What asking for the force of the pair `(a, b)` yields.
pub open spec fn force_outcome(g: int, a: SpecBody, b: SpecBody) -> Result<Vector, StepError> {
    if a.mass <= 0 || b.mass <= 0 {
        Err(StepError::InvalidMass)
    } else if !a.in_range() || !b.in_range() {
        Err(StepError::OutOfRange)
    } else if a.position == b.position {
        Err(StepError::Singularity)
    } else {
        Ok(pair_force(g, a, b))
    }
}

/// What one tick yields: the bodies after it, or why it was not carried out.
pub open spec fn step_outcome(g: int, num: int, den: int, s: Seq<SpecBody>) -> Result<
    Seq<SpecBody>,
    StepError,
> {
    if s.len() != 3 {
        Err(StepError::InvalidBodyCount)
    } else if s[0].mass <= 0 || s[1].mass <= 0 || s[2].mass <= 0 {
        Err(StepError::InvalidMass)
    } else if !s[0].in_range() || !s[1].in_range() || !s[2].in_range() {
        Err(StepError::OutOfRange)
    } else if has_collision(s) {
        Err(StepError::Singularity)
    } else {
        let t = advance(g, num, den, s);
        if t[0].in_range() && t[1].in_range() && t[2].in_range() {
            Ok(t)
        } else {
            Err(StepError::OutOfRange)
        }
    }
}

/// What `ticks` ticks in a row yield: the first tick that fails ends the run.
pub open spec fn run_outcome(g: int, num: int, den: int, s: Seq<SpecBody>, ticks: nat) -> Result<
    Seq<SpecBody>,
    StepError,
>
    decreases ticks,
{
    if ticks == 0 {
        Ok(s)
    } else {
        match step_outcome(g, num, den, s) {
            Ok(t) => run_outcome(g, num, den, t, (ticks - 1) as nat),
            Err(e) => Err(e),
        }
    }
}

/// The sum of the momenta of three bodies.
pub open spec fn total_momentum(s: Seq<SpecBody>) -> Vector
    recommends
        s.len() == 3,
{
    s[0].momentum.plus(s[1].momentum).plus(s[2].momentum)
}

/// Gravitational constant and timestep of a simulation. The timestep is the
/// fraction `dt_num / dt_den`.
#[derive(Clone, Copy, Debug)]
pub struct GravityIntegrator {
    g: i128,
    dt_num: i128,
    dt_den: i128,
}

impl GravityIntegrator {
    pub closed spec fn gravity(&self) -> int {
        self.g as int
    }

    pub closed spec fn dt_num(&self) -> int {
        self.dt_num as int
    }

    pub closed spec fn dt_den(&self) -> int {
        self.dt_den as int
    }

    /// The constants are positive and within their limits.
    pub open spec fn well_formed(&self) -> bool {
        &&& 0 < self.gravity() <= GRAVITY_LIMIT
        &&& 0 < self.dt_num() <= TIMESTEP_LIMIT
        &&& 0 < self.dt_den() <= TIMESTEP_LIMIT
    }

    /// An integrator with the given constants, if each is positive and
    /// within its limit.
    pub fn new(g: i128, dt_num: i128, dt_den: i128) -> (r: Option<GravityIntegrator>)
        ensures
            r is Some <==> 0 < g <= GRAVITY_LIMIT && 0 < dt_num <= TIMESTEP_LIMIT && 0 < dt_den
                <= TIMESTEP_LIMIT,
            r matches Some(c) ==> c.well_formed() && c.gravity() == g && c.dt_num() == dt_num
                && c.dt_den() == dt_den,
    {
        if 0 < g && g <= GRAVITY_LIMIT && 0 < dt_num && dt_num <= TIMESTEP_LIMIT && 0 < dt_den
            && dt_den <= TIMESTEP_LIMIT {
            Some(GravityIntegrator { g, dt_num, dt_den })
        } else {
            None
        }
    }

    /// Gravitational constant 10000, in the units of the bodies' fields,
    /// and a timestep of one tenth.
    pub fn canonical() -> (c: GravityIntegrator)
        ensures
            c.well_formed(),
            c.gravity() == CANONICAL_GRAVITY,
            c.dt_num() == 1,
            c.dt_den() == 10,
    {
        GravityIntegrator { g: CANONICAL_GRAVITY, dt_num: 1, dt_den: 10 }
    }

    /// The gravitational constant.
    pub fn g(&self) -> (g: i128)
        ensures
            g == self.gravity(),
    {
        self.g
    }

    /// The timestep, as numerator and denominator.
    pub fn timestep(&self) -> (dt: (i128, i128))
        ensures
            dt.0 == self.dt_num(),
            dt.1 == self.dt_den(),
    {
        (self.dt_num, self.dt_den)
    }

    /// The pair force between two bodies known to be valid and apart.
    fn force_between(&self, a: &Body, b: &Body) -> (f: Vec2)
        requires
            self.well_formed(),
            a.mass > 0,
            b.mass > 0,
            a@.in_range(),
            b@.in_range(),
            a@.position != b@.position,
        ensures
            f@ == pair_force(self.gravity(), a@, b@),
            f@.within(FORCE_LIMIT as int),
    {
        let r: Vec2 = b.position.minus(&a.position);
        proof {
            lemma_mul_bounds(r.x as int, r.x as int, 2 * POSITION_LIMIT, 2 * POSITION_LIMIT);
            lemma_mul_bounds(r.y as int, r.y as int, 2 * POSITION_LIMIT, 2 * POSITION_LIMIT);
            assert(r.x * r.x >= r.x && r.x * r.x >= -r.x && (r.x != 0 ==> r.x * r.x >= 1))
                by (nonlinear_arith);
            assert(r.y * r.y >= r.y && r.y * r.y >= -r.y && (r.y != 0 ==> r.y * r.y >= 1))
                by (nonlinear_arith);
        }
        let d2: i128 = r.x * r.x + r.y * r.y;
        let root: u128 = r.magnitude();
        proof {
            lemma_floor_sqrt_bounds(d2 as nat);
            assert(root >= 1) by (nonlinear_arith)
                requires
                    d2 >= 1,
                    root >= 0,
                    d2 < (root + 1) * (root + 1),
            ;
            lemma_mul_bounds(self.g as int, a.mass as int, GRAVITY_LIMIT as int, MASS_LIMIT as int);
            lemma_mul_bounds(
                self.g * a.mass,
                b.mass as int,
                GRAVITY_LIMIT * MASS_LIMIT,
                MASS_LIMIT as int,
            );
            assert(self.g * a.mass * b.mass > 0) by (nonlinear_arith)
                requires
                    self.g > 0,
                    a.mass > 0,
                    b.mass > 0,
            ;
        }
        let d: i128 = root as i128;
        let pull: i128 = self.g * a.mass * b.mass;
        proof {
            lemma_trunc_div_bounds(pull as int, d2 as int);
        }
        let size: i128 = div_toward_zero(pull, d2);
        proof {
            lemma_mul_bounds(size as int, r.x as int, size as int, d2 as int);
            lemma_mul_bounds(size as int, r.y as int, size as int, d2 as int);
        }
        let tx: i128 = size * r.x;
        let ty: i128 = size * r.y;
        proof {
            lemma_trunc_div_bounds(-tx as int, d as int);
            lemma_trunc_div_bounds(-ty as int, d as int);
        }
        Vec2 { x: div_toward_zero(-tx, d), y: div_toward_zero(-ty, d) }
    }

    /// The force that goes with the pair `(a, b)`, or why there is none.
    pub fn force(&self, a: &Body, b: &Body) -> (r: Result<Vec2, StepError>)
        requires
            self.well_formed(),
        ensures
            match r {
                Ok(f) => force_outcome(self.gravity(), a@, b@) == Ok::<Vector, StepError>(f@)
                    && f@.within(FORCE_LIMIT as int),
                Err(e) => force_outcome(self.gravity(), a@, b@) == Err::<Vector, StepError>(e),
            },
    {
        if a.mass <= 0 || b.mass <= 0 {
            Err(StepError::InvalidMass)
        } else if !a.in_range() || !b.in_range() {
            Err(StepError::OutOfRange)
        } else if same_place(a, b) {
            Err(StepError::Singularity)
        } else {
            Ok(self.force_between(a, b))
        }
    }

    /// `v` times the fraction `num / den`.
    fn scale(v: &Vec2, num: i128, den: i128) -> (w: Vec2)
        requires
            v@.within(2 * FORCE_LIMIT),
            0 < num <= TIMESTEP_LIMIT,
            0 < den,
        ensures
            w@ == scaled(v@, num as int, den as int),
            w@.within(2 * FORCE_LIMIT * TIMESTEP_LIMIT),
    {
        proof {
            lemma_mul_bounds(
                v.x as int,
                num as int,
                2 * FORCE_LIMIT,
                TIMESTEP_LIMIT as int,
            );
            lemma_mul_bounds(
                v.y as int,
                num as int,
                2 * FORCE_LIMIT,
                TIMESTEP_LIMIT as int,
            );
            lemma_trunc_div_bounds(v.x * num, den as int);
            lemma_trunc_div_bounds(v.y * num, den as int);
        }
        Vec2 { x: div_toward_zero(v.x * num, den), y: div_toward_zero(v.y * num, den) }
    }

    /// One body after a tick under the net force `net`, unless it leaves the
    /// supported limits.
    fn advance_one(&self, b: &Body, net: &Vec2) -> (r: Option<Body>)
        requires
            self.well_formed(),
            b.mass > 0,
            b@.in_range(),
            net@.within(2 * FORCE_LIMIT),
        ensures
            r is Some <==> advance_body(b@, net@, self.dt_num(), self.dt_den()).in_range(),
            r matches Some(n) ==> n@ == advance_body(b@, net@, self.dt_num(), self.dt_den()),
    {
        let impulse: Vec2 = Self::scale(net, self.dt_num, self.dt_den);
        let momentum: Vec2 = b.momentum.plus(&impulse);
        if !momentum.within(MOMENTUM_LIMIT) {
            return None;
        }
        proof {
            assert(self.dt_den * b.mass > 0) by (nonlinear_arith)
                requires
                    self.dt_den > 0,
                    b.mass > 0,
            ;
            lemma_mul_bounds(
                self.dt_den as int,
                b.mass as int,
                TIMESTEP_LIMIT as int,
                MASS_LIMIT as int,
            );
        }
        let shift: Vec2 = Self::scale(&momentum, self.dt_num, self.dt_den * b.mass);
        let position: Vec2 = b.position.plus(&shift);
        if !position.within(POSITION_LIMIT) {
            return None;
        }
        Some(Body { position, momentum, mass: b.mass })
    }

    /// Advances exactly three bodies by one tick. Any other count, a mass
    /// that is not positive, two bodies at one position, or a value outside
    /// the supported limits before or after the tick is reported, and the
    /// bodies are then left as they were.
    pub fn step(&self, bodies: &mut Vec<Body>) -> (r: Result<(), StepError>)
        requires
            self.well_formed(),
        ensures
            match r {
                Ok(()) => step_outcome(
                    self.gravity(),
                    self.dt_num(),
                    self.dt_den(),
                    body_views(old(bodies)@),
                ) == Ok::<Seq<SpecBody>, StepError>(body_views(final(bodies)@)),
                Err(e) => step_outcome(
                    self.gravity(),
                    self.dt_num(),
                    self.dt_den(),
                    body_views(old(bodies)@),
                ) == Err::<Seq<SpecBody>, StepError>(e) && final(bodies)@ == old(bodies)@,
            },
    {
        if bodies.len() != 3 {
            return Err(StepError::InvalidBodyCount);
        }
        let a: Body = bodies[0];
        let b: Body = bodies[1];
        let c: Body = bodies[2];
        let ghost s = body_views(bodies@);
        if a.mass <= 0 || b.mass <= 0 || c.mass <= 0 {
            return Err(StepError::InvalidMass);
        }
        if !a.in_range() || !b.in_range() || !c.in_range() {
            return Err(StepError::OutOfRange);
        }
        if same_place(&a, &b) || same_place(&a, &c) || same_place(&b, &c) {
            return Err(StepError::Singularity);
        }
        let f12: Vec2 = self.force_between(&a, &b);
        let f21: Vec2 = f12.negated();
        let f13: Vec2 = self.force_between(&a, &c);
        let f23: Vec2 = self.force_between(&b, &c);
        let net_a: Vec2 = f21.minus(&f13);
        let net_b: Vec2 = f12.minus(&f23);
        let net_c: Vec2 = f13.plus(&f23);
        let next_a: Option<Body> = self.advance_one(&a, &net_a);
        let next_b: Option<Body> = self.advance_one(&b, &net_b);
        let next_c: Option<Body> = self.advance_one(&c, &net_c);
        let ghost t = advance(self.gravity(), self.dt_num(), self.dt_den(), s);
        match (next_a, next_b, next_c) {
            (Some(na), Some(nb), Some(nc)) => {
                bodies.set(0, na);
                bodies.set(1, nb);
                bodies.set(2, nc);
                assert(body_views(bodies@) =~= t);
                Ok(())
            },
            _ => Err(StepError::OutOfRange),
        }
    }

    /// Advances three bodies by `ticks` ticks. The first tick that cannot be
    /// carried out ends the run with its reason, and the bodies are then
    /// left as they were before the run.
    pub fn run(&self, bodies: &mut Vec<Body>, ticks: u64) -> (r: Result<(), StepError>)
        requires
            self.well_formed(),
        ensures
            match r {
                Ok(()) => run_outcome(
                    self.gravity(),
                    self.dt_num(),
                    self.dt_den(),
                    body_views(old(bodies)@),
                    ticks as nat,
                ) == Ok::<Seq<SpecBody>, StepError>(body_views(final(bodies)@)),
                Err(e) => run_outcome(
                    self.gravity(),
                    self.dt_num(),
                    self.dt_den(),
                    body_views(old(bodies)@),
                    ticks as nat,
                ) == Err::<Seq<SpecBody>, StepError>(e) && final(bodies)@ == old(bodies)@,
            },
    {
        if ticks == 0 {
            return Ok(());
        }
        if bodies.len() != 3 {
            return Err(StepError::InvalidBodyCount);
        }
        let a: Body = bodies[0];
        let b: Body = bodies[1];
        let c: Body = bodies[2];
        let ghost start = bodies@;
        let mut done: u64 = 0;
        while done < ticks
            invariant
                done <= ticks,
                self.well_formed(),
                bodies.len() == 3,
                start == old(bodies)@,
                start.len() == 3,
                start[0] == a && start[1] == b && start[2] == c,
                run_outcome(
                    self.gravity(),
                    self.dt_num(),
                    self.dt_den(),
                    body_views(start),
                    ticks as nat,
                ) == run_outcome(
                    self.gravity(),
                    self.dt_num(),
                    self.dt_den(),
                    body_views(bodies@),
                    (ticks - done) as nat,
                ),
            decreases ticks - done,
        {
            match self.step(bodies) {
                Ok(()) => {
                    done = done + 1;
                },
                Err(e) => {
                    bodies.set(0, a);
                    bodies.set(1, b);
                    bodies.set(2, c);
                    assert(bodies@ =~= start);
                    return Err(e);
                },
            }
        }
        Ok(())
    }
}

/// Whether two bodies share a position.
fn same_place(a: &Body, b: &Body) -> (r: bool)
    ensures
        r == (a@.position == b@.position),
{
    a.position.x == b.position.x && a.position.y == b.position.y
}

} // verus!
