//! What holds of the integrator on every input.

use vstd::prelude::*;
use crate::arith::{
    lemma_floor_sqrt_bounds,
    lemma_floor_sqrt_zero,
    lemma_trunc_div_bounds,
    lemma_trunc_div_neg,
    trunc_div,
};
use crate::body::{SpecBody, StepError};
use crate::integrator::{
    advance,
    advance_body,
    force_size,
    has_collision,
    net_forces,
    pair_force,
    run_outcome,
    step_outcome,
    total_momentum,
};
use crate::vector::Vector;

verus! {

/// The length of a vector is the length of its opposite.
pub proof fn lemma_magnitude_symmetric(v: Vector)
    ensures
        v.negated().magnitude() == v.magnitude(),
{
    let w = v.negated();
    assert(w.x * w.x + w.y * w.y == v.x * v.x + v.y * v.y) by (nonlinear_arith)
        requires
            w.x == -v.x,
            w.y == -v.y,
    ;
}

/// The length of a vector is zero for the zero vector and for no other, so a
/// zero distance picks out exactly the bodies that share a position.
pub proof fn lemma_magnitude_zero(v: Vector)
    ensures
        v.norm_sq() >= 0,
        v.magnitude() == 0 <==> v == (Vector { x: 0, y: 0 }),
{
    assert(v.x * v.x >= 0 && v.y * v.y >= 0 && (v.x * v.x == 0 ==> v.x == 0) && (v.y * v.y == 0
        ==> v.y == 0)) by (nonlinear_arith);
    lemma_floor_sqrt_zero(v.norm_sq() as nat);
}

/// Two bodies apart: the force of the pair taken one way round is the exact
/// opposite of the force of the pair taken the other way round.
pub proof fn lemma_pair_force_antisymmetric(g: int, a: SpecBody, b: SpecBody)
    requires
        a.position != b.position,
    ensures
        pair_force(g, b, a) == pair_force(g, a, b).negated(),
{
    let r = b.position.minus(a.position);
    let q = a.position.minus(b.position);
    assert(q == r.negated());
    lemma_magnitude_symmetric(r);
    lemma_magnitude_zero(r);
    let d = r.magnitude() as int;
    assert(q.norm_sq() == r.norm_sq()) by (nonlinear_arith)
        requires
            q.x == -r.x,
            q.y == -r.y,
            q.norm_sq() == q.x * q.x + q.y * q.y,
            r.norm_sq() == r.x * r.x + r.y * r.y,
    ;
    assert(g * b.mass * a.mass == g * a.mass * b.mass) by (nonlinear_arith);
    let size = force_size(g, a, b);
    assert(force_size(g, b, a) == size);
    assert(size * q.x == -(size * r.x) && size * q.y == -(size * r.y)) by (nonlinear_arith)
        requires
            q.x == -r.x,
            q.y == -r.y,
    ;
    lemma_trunc_div_neg(-(size * r.x), d);
    lemma_trunc_div_neg(-(size * r.y), d);
}

/// Two bodies apart, with positive masses and a positive constant: the force
/// of the pair `(a, b)` never points away from `a`, component by component,
/// so it pulls `b` toward `a`.
pub proof fn lemma_pair_force_attracts(g: int, a: SpecBody, b: SpecBody)
    requires
        g > 0,
        a.mass > 0,
        b.mass > 0,
        a.position != b.position,
    ensures
        b.position.x >= a.position.x ==> pair_force(g, a, b).x <= 0,
        b.position.x <= a.position.x ==> pair_force(g, a, b).x >= 0,
        b.position.y >= a.position.y ==> pair_force(g, a, b).y <= 0,
        b.position.y <= a.position.y ==> pair_force(g, a, b).y >= 0,
{
    let r = b.position.minus(a.position);
    lemma_pair_force_rounding(g, a, b);
    let d = r.magnitude() as int;
    let size = force_size(g, a, b);
    assert((r.x >= 0 ==> size * r.x >= 0) && (r.x <= 0 ==> size * r.x <= 0) && (r.y >= 0 ==> size
        * r.y >= 0) && (r.y <= 0 ==> size * r.y <= 0)) by (nonlinear_arith)
        requires
            size >= 0,
    ;
    lemma_trunc_div_bounds(-(size * r.x), d);
    lemma_trunc_div_bounds(-(size * r.y), d);
}

/// How far the rounded force is from the exact one. With `d` the rounded
/// length and `size` the rounded size: the exact length lies in
/// `[d, d + 1)`, the exact size in `[size, size + 1)`, and each component
/// times `d` misses `size` times the separation by less than `d`. So a
/// component is short of the exact one by less than one unit for the size and
/// one for the direction, and over it by a factor below `(d + 1) / d`.
pub proof fn lemma_pair_force_rounding(g: int, a: SpecBody, b: SpecBody)
    requires
        g > 0,
        a.mass > 0,
        b.mass > 0,
        a.position != b.position,
    ensures
        ({
            let r = b.position.minus(a.position);
            let d = r.magnitude() as int;
            let size = force_size(g, a, b);
            let f = pair_force(g, a, b);
            &&& d >= 1
            &&& d * d <= r.norm_sq() < (d + 1) * (d + 1)
            &&& 0 <= size
            &&& size * r.norm_sq() <= g * a.mass * b.mass < (size + 1) * r.norm_sq()
            &&& -d < f.x * d + size * r.x < d
            &&& -d < f.y * d + size * r.y < d
        }),
{
    let r = b.position.minus(a.position);
    let d2 = r.norm_sq();
    lemma_magnitude_zero(r);
    lemma_floor_sqrt_bounds(d2 as nat);
    let d = r.magnitude() as int;
    let pull = g * a.mass * b.mass;
    assert(pull > 0) by (nonlinear_arith)
        requires
            g > 0,
            a.mass > 0,
            b.mass > 0,
            pull == g * a.mass * b.mass,
    ;
    let size = force_size(g, a, b);
    lemma_trunc_div_bounds(pull, d2);
    assert((size + 1) * d2 == size * d2 + d2) by (nonlinear_arith);
    lemma_trunc_div_bounds(-(size * r.x), d);
    lemma_trunc_div_bounds(-(size * r.y), d);
}

/// Three bodies apart: the net force on each is the sum of the two forces
/// that pull it toward the others.
pub proof fn lemma_net_force_sums_attractions(g: int, s: Seq<SpecBody>)
    requires
        s.len() == 3,
        !has_collision(s),
    ensures
        net_forces(g, s)[0] == pair_force(g, s[1], s[0]).plus(pair_force(g, s[2], s[0])),
        net_forces(g, s)[1] == pair_force(g, s[0], s[1]).plus(pair_force(g, s[2], s[1])),
        net_forces(g, s)[2] == pair_force(g, s[0], s[2]).plus(pair_force(g, s[1], s[2])),
{
    lemma_pair_force_antisymmetric(g, s[0], s[1]);
    lemma_pair_force_antisymmetric(g, s[0], s[2]);
    lemma_pair_force_antisymmetric(g, s[1], s[2]);
}

/// How far a tick's rounding takes a body from the exact update. With the
/// timestep `num / den`: the gain in momentum times `den` misses the net
/// force times `num` by less than `den`, and the shift in position times
/// `den * mass` misses the new momentum times `num` by less than
/// `den * mass`. So the new momentum and the new position each lie within one
/// unit of `momentum + net * num / den` and of
/// `position + momentum * num / (den * mass)`, taken with the new momentum.
pub proof fn lemma_advance_rounding(b: SpecBody, net: Vector, num: int, den: int)
    requires
        den > 0,
        b.mass > 0,
    ensures
        ({
            let n = advance_body(b, net, num, den);
            let gain = n.momentum.minus(b.momentum);
            let shift = n.position.minus(b.position);
            let span = den * b.mass;
            &&& n.mass == b.mass
            &&& span > 0
            &&& -den < gain.x * den - net.x * num < den
            &&& -den < gain.y * den - net.y * num < den
            &&& -span < shift.x * span - n.momentum.x * num < span
            &&& -span < shift.y * span - n.momentum.y * num < span
        }),
{
    let n = advance_body(b, net, num, den);
    let span = den * b.mass;
    assert(span > 0) by (nonlinear_arith)
        requires
            den > 0,
            b.mass > 0,
            span == den * b.mass,
    ;
    lemma_trunc_div_bounds(net.x * num, den);
    lemma_trunc_div_bounds(net.y * num, den);
    lemma_trunc_div_bounds(n.momentum.x * num, span);
    lemma_trunc_div_bounds(n.momentum.y * num, span);
}

/// Three numbers that sum to zero, each scaled by `num / den` and rounded
/// toward zero, sum to at most two in magnitude.
pub proof fn lemma_rounded_sum(x0: int, x1: int, x2: int, num: int, den: int)
    requires
        den > 0,
        x0 + x1 + x2 == 0,
    ensures
        -2 <= trunc_div(x0 * num, den) + trunc_div(x1 * num, den) + trunc_div(x2 * num, den) <= 2,
        den == 1 ==> trunc_div(x0 * num, den) + trunc_div(x1 * num, den) + trunc_div(
            x2 * num,
            den,
        ) == 0,
{
    let t0 = trunc_div(x0 * num, den);
    let t1 = trunc_div(x1 * num, den);
    let t2 = trunc_div(x2 * num, den);
    lemma_trunc_div_bounds(x0 * num, den);
    lemma_trunc_div_bounds(x1 * num, den);
    lemma_trunc_div_bounds(x2 * num, den);
    assert(x0 * num + x1 * num + x2 * num == 0) by (nonlinear_arith)
        requires
            x0 + x1 + x2 == 0,
    ;
    let t = t0 + t1 + t2;
    assert(t * den == t0 * den + t1 * den + t2 * den) by (nonlinear_arith)
        requires
            t == t0 + t1 + t2,
    ;
    assert(-3 < t < 3) by (nonlinear_arith)
        requires
            -3 * den < t * den < 3 * den,
            den > 0,
    ;
    if den == 1 {
        assert(t * den == t) by (nonlinear_arith)
            requires
                den == 1,
        ;
        assert(t0 * den == t0 && t1 * den == t1 && t2 * den == t2) by (nonlinear_arith)
            requires
                den == 1,
        ;
    }
}

/// The three net forces of a tick cancel: each pair force enters once with
/// each sign.
pub proof fn lemma_net_forces_cancel(g: int, s: Seq<SpecBody>)
    requires
        s.len() == 3,
    ensures
        net_forces(g, s)[0].plus(net_forces(g, s)[1]).plus(net_forces(g, s)[2]) == (Vector {
            x: 0,
            y: 0,
        }),
{
}

/// One tick changes each component of the total momentum by at most two
/// units of rounding, and by nothing when the timestep is a whole number.
pub proof fn lemma_step_momentum_drift(g: int, num: int, den: int, s: Seq<SpecBody>)
    requires
        s.len() == 3,
        den > 0,
    ensures
        total_momentum(advance(g, num, den, s)).minus(total_momentum(s)).within(2),
        den == 1 ==> total_momentum(advance(g, num, den, s)) == total_momentum(s),
{
    let nets = net_forces(g, s);
    lemma_net_forces_cancel(g, s);
    lemma_rounded_sum(nets[0].x, nets[1].x, nets[2].x, num, den);
    lemma_rounded_sum(nets[0].y, nets[1].y, nets[2].y, num, den);
}

/// Over a run that succeeds, each component of the total momentum drifts by
/// at most two units per tick.
pub proof fn lemma_run_momentum_drift(g: int, num: int, den: int, s: Seq<SpecBody>, ticks: nat)
    requires
        den > 0,
        s.len() == 3,
        run_outcome(g, num, den, s, ticks) is Ok,
    ensures
        total_momentum(run_outcome(g, num, den, s, ticks)->Ok_0).minus(total_momentum(s)).within(
            2 * (ticks as int),
        ),
        run_outcome(g, num, den, s, ticks)->Ok_0.len() == 3,
    decreases ticks,
{
    if ticks > 0 {
        let t = step_outcome(g, num, den, s)->Ok_0;
        assert(t == advance(g, num, den, s));
        lemma_step_momentum_drift(g, num, den, s);
        lemma_run_momentum_drift(g, num, den, t, (ticks - 1) as nat);
    }
}

/// A tick on three valid bodies in range of which two share a position is
/// refused as a singularity, and a tick that succeeds leaves every body in
/// range with its mass unchanged.
pub proof fn lemma_singularity_guard(g: int, num: int, den: int, s: Seq<SpecBody>)
    requires
        s.len() == 3,
    ensures
        s[0].mass > 0 && s[1].mass > 0 && s[2].mass > 0 && s[0].in_range() && s[1].in_range()
            && s[2].in_range() && has_collision(s) ==> step_outcome(g, num, den, s) == Err::<
            Seq<SpecBody>,
            StepError,
        >(StepError::Singularity),
        step_outcome(g, num, den, s) matches Ok(t) ==> t.len() == 3 && !has_collision(s)
            && forall|i: int| 0 <= i < 3 ==> (#[trigger] t[i]).in_range() && t[i].mass == s[i].mass,
{
}

/// Running `m` ticks and then `n` more is running `m + n` ticks at once: a
/// run depends on nothing but the bodies it starts from and the tick count.
pub proof fn lemma_run_composes(g: int, num: int, den: int, s: Seq<SpecBody>, m: nat, n: nat)
    ensures
        run_outcome(g, num, den, s, m + n) == (match run_outcome(g, num, den, s, m) {
            Ok(t) => run_outcome(g, num, den, t, n),
            Err(e) => Err(e),
        }),
    decreases m,
{
    if m > 0 {
        match step_outcome(g, num, den, s) {
            Ok(t) => {
                lemma_run_composes(g, num, den, t, (m - 1) as nat, n);
                assert((m + n - 1) as nat == (m - 1) as nat + n);
            },
            Err(e) => {},
        }
    }
}

} // verus!
