//! Point masses, the limits within which they are integrated, and the
//! conditions that stop an integration.

use vstd::prelude::*;
use crate::vector::{Vec2, Vector};

verus! {

/// Units of position per unit of length: positions carry six decimal
/// places.
pub const LENGTH_UNIT: i128 = 1_000_000;

/// Units of mass per unit mass: masses carry three decimal places.
pub const MASS_UNIT: i128 = 1_000;

/// Units of momentum per unit of momentum, the product of the two above.
pub const MOMENTUM_UNIT: i128 = 1_000_000_000;

/// Largest magnitude of a position component.
pub const POSITION_LIMIT: i128 = 1_000_000_000_000;

/// Largest magnitude of a momentum component.
pub const MOMENTUM_LIMIT: i128 = 1_000_000_000_000_000_000_000;

/// Largest mass.
pub const MASS_LIMIT: i128 = 1_000_000;

/// Smallest mass that the controls hand on: one unit mass.
pub const CONTROL_MASS_MIN: i128 = 1_000;

/// Largest mass that the controls hand on: a hundred unit masses.
pub const CONTROL_MASS_MAX: i128 = 100_000;

/// The mass in the controls' range that is nearest to `requested`.
pub open spec fn clamp_mass(requested: int) -> int {
    if requested < CONTROL_MASS_MIN {
        CONTROL_MASS_MIN as int
    } else if requested > CONTROL_MASS_MAX {
        CONTROL_MASS_MAX as int
    } else {
        requested
    }
}

/// Why a body was refused or a tick was not carried out.
#[derive(Clone, Copy, Debug, PartialEq, Eq, Structural)]
pub enum StepError {
    /// The group does not hold exactly three bodies.
    InvalidBodyCount,
    /// A mass is zero or negative.
    InvalidMass,
    /// Two bodies share a position, so the force between them is undefined.
    Singularity,
    /// A position, momentum or mass lies outside the supported limits.
    OutOfRange,
}

/// A point mass as contracts see it.
pub struct SpecBody {
    pub position: Vector,
    pub momentum: Vector,
    pub mass: int,
}

impl SpecBody {
    pub open spec fn in_range(self) -> bool {
        &&& self.position.within(POSITION_LIMIT as int)
        &&& self.momentum.within(MOMENTUM_LIMIT as int)
        &&& self.mass <= MASS_LIMIT
    }

    /// What constructing or re-weighing a body with these fields yields.
    pub open spec fn checked(self) -> Result<SpecBody, StepError> {
        if self.mass <= 0 {
            Err(StepError::InvalidMass)
        } else if !self.in_range() {
            Err(StepError::OutOfRange)
        } else {
            Ok(self)
        }
    }
}

/// A point mass: where it is, its momentum (mass times velocity), its mass.
#[derive(Clone, Copy, Debug, PartialEq, Eq, Structural)]
pub struct Body {
    pub position: Vec2,
    pub momentum: Vec2,
    pub mass: i128,
}

impl View for Body {
    type V = SpecBody;

    open spec fn view(&self) -> SpecBody {
        SpecBody { position: self.position@, momentum: self.momentum@, mass: self.mass as int }
    }
}

/// The models of a sequence of bodies, in order.
pub open spec fn body_views(s: Seq<Body>) -> Seq<SpecBody> {
    Seq::new(s.len(), |i: int| s[i]@)
}

impl Body {
    /// A body with the given fields, refused when the mass is not positive
    /// or a field lies outside the supported limits.
    pub fn new(position: Vec2, momentum: Vec2, mass: i128) -> (r: Result<Body, StepError>)
        ensures
            match r {
                Ok(b) => b.position == position && b.momentum == momentum && b.mass == mass
                    && b@.checked() == Ok::<SpecBody, StepError>(b@),
                Err(e) => (Body { position, momentum, mass })@.checked() == Err::<
                    SpecBody,
                    StepError,
                >(e),
            },
    {
        let b = Body { position, momentum, mass };
        if mass <= 0 {
            Err(StepError::InvalidMass)
        } else if !b.in_range() {
            Err(StepError::OutOfRange)
        } else {
            Ok(b)
        }
    }

    /// Whether every field lies within the supported limits.
    pub fn in_range(&self) -> (b: bool)
        ensures
            b == self@.in_range(),
    {
        self.position.within(POSITION_LIMIT) && self.momentum.within(MOMENTUM_LIMIT) && self.mass
            <= MASS_LIMIT
    }

    /// Replaces the mass by the nearest one in the controls' range, so that
    /// whatever is asked for, the mass stays positive and within the limits.
    pub fn adjust_mass(&mut self, requested: i128)
        ensures
            *final(self) == (Body { mass: final(self).mass, ..*old(self) }),
            final(self).mass == clamp_mass(requested as int),
            CONTROL_MASS_MIN <= final(self).mass <= CONTROL_MASS_MAX,
    {
        if requested < CONTROL_MASS_MIN {
            self.mass = CONTROL_MASS_MIN;
        } else if requested > CONTROL_MASS_MAX {
            self.mass = CONTROL_MASS_MAX;
        } else {
            self.mass = requested;
        }
    }

    /// Replaces the mass, or refuses the new one and leaves the body as it was.
    pub fn set_mass(&mut self, mass: i128) -> (r: Result<(), StepError>)
        ensures
            match r {
                Ok(()) => *final(self) == (Body { mass, ..*old(self) }) && 0 < mass <= MASS_LIMIT,
                Err(e) => *final(self) == *old(self) && (if mass <= 0 {
                    e == StepError::InvalidMass
                } else {
                    e == StepError::OutOfRange && mass > MASS_LIMIT
                }),
            },
    {
        if mass <= 0 {
            Err(StepError::InvalidMass)
        } else if mass > MASS_LIMIT {
            Err(StepError::OutOfRange)
        } else {
            self.mass = mass;
            Ok(())
        }
    }
}

/// The three bodies every simulation starts from: a body of mass 1 at
/// (200, 0) with momentum (0, 20), one of mass 10 at the origin with momentum
/// (5, 0), and one of mass 1 at (-200, 0) with momentum (0, -20).
pub open spec fn preset() -> Seq<SpecBody> {
    seq![
        SpecBody {
            position: Vector { x: 200 * LENGTH_UNIT, y: 0 },
            momentum: Vector { x: 0, y: 20 * MOMENTUM_UNIT },
            mass: 1 * MASS_UNIT,
        },
        SpecBody {
            position: Vector { x: 0, y: 0 },
            momentum: Vector { x: 5 * MOMENTUM_UNIT, y: 0 },
            mass: 10 * MASS_UNIT,
        },
        SpecBody {
            position: Vector { x: -200 * LENGTH_UNIT, y: 0 },
            momentum: Vector { x: 0, y: -20 * MOMENTUM_UNIT },
            mass: 1 * MASS_UNIT,
        },
    ]
}

/// A fresh copy of the starting configuration.
pub fn preset_bodies() -> (bodies: Vec<Body>)
    ensures
        bodies@.len() == 3,
        body_views(bodies@) == preset(),
        forall|i: int| 0 <= i < 3 ==> (#[trigger] preset()[i]).checked() == Ok::<
            SpecBody,
            StepError,
        >(preset()[i]),
{
    let mut bodies: Vec<Body> = Vec::new();
    bodies.push(
        Body {
            position: Vec2::new(200 * LENGTH_UNIT, 0),
            momentum: Vec2::new(0, 20 * MOMENTUM_UNIT),
            mass: MASS_UNIT,
        },
    );
    bodies.push(
        Body {
            position: Vec2::new(0, 0),
            momentum: Vec2::new(5 * MOMENTUM_UNIT, 0),
            mass: 10 * MASS_UNIT,
        },
    );
    bodies.push(
        Body {
            position: Vec2::new(-200 * LENGTH_UNIT, 0),
            momentum: Vec2::new(0, -20 * MOMENTUM_UNIT),
            mass: MASS_UNIT,
        },
    );
    assert(body_views(bodies@) =~= preset());
    bodies
}

} // verus!
