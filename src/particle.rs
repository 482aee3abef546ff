use crate::color::{lighten, lightened, relit, set_lightness, Color};
use crate::random::random_range;
use vstd::prelude::*;

verus! {

/// The most energy a particle can hold, in hundredths: energy runs from
/// `0` (spent) to `MAX_ENERGY` (full).
pub const MAX_ENERGY: u8 = 100;

/// The material of a cell. `OutOfBounds` is what reads outside the grid
/// return; it is never stored in a grid.
#[derive(Clone, Copy, PartialEq, Eq, Debug, Hash, Structural)]
pub enum Kind {
    Sand,
    Plant,
    Fire,
    Water,
    Empty,
    OutOfBounds,
}

impl Kind {
    /// The kind's ordinal, in declaration order.
    pub open spec fn ordinal(self) -> int {
        match self {
            Kind::Sand => 0,
            Kind::Plant => 1,
            Kind::Fire => 2,
            Kind::Water => 3,
            Kind::Empty => 4,
            Kind::OutOfBounds => 5,
        }
    }

    /// The kind's 0-based ordinal (Sand = 0, ..., OutOfBounds = 5).
    pub fn value(&self) -> (r: i32)
        ensures
            r == self.ordinal(),
    {
        match self {
            Kind::Sand => 0,
            Kind::Plant => 1,
            Kind::Fire => 2,
            Kind::Water => 3,
            Kind::Empty => 4,
            Kind::OutOfBounds => 5,
        }
    }
}

/// What a particle carries besides its kind: its color and its energy, in
/// hundredths.
#[derive(Clone, Copy, PartialEq, Eq, Debug, Default, Structural)]
pub struct Extra {
    pub color: Color,
    pub energy: u8,
}

pub open spec fn black() -> Color {
    Color { r: 0, g: 0, b: 0 }
}

pub open spec fn sand_base() -> Color {
    Color { r: 237, g: 201, b: 175 }
}

pub open spec fn plant_base() -> Color {
    Color { r: 0, g: 200, b: 0 }
}

pub open spec fn fire_base() -> Color {
    Color { r: 200, g: 0, b: 0 }
}

pub open spec fn water_base() -> Color {
    Color { r: 0, g: 0, b: 200 }
}

/// The energy that a freshly made particle of `kind` starts with.
pub open spec fn initial_energy(kind: Kind) -> u8 {
    match kind {
        Kind::Plant | Kind::Fire | Kind::Water => MAX_ENERGY,
        _ => 0,
    }
}

/// The lightness, in percent, of a fire with `energy` hundredths left.
pub open spec fn fire_lightness(energy: int) -> int {
    energy * 4 / 5
}

/// `e` is what `Extra::from(kind)` may return: the kind's starting energy, and
/// its base color (for sand and plants, lightened by a jitter in `[-4, 4)`).
pub open spec fn fresh_extra(kind: Kind, e: Extra) -> bool {
    &&& e.energy == initial_energy(kind)
    &&& match kind {
        Kind::Sand => exists|j: int| -4 <= j < 4 && e.color == lightened(sand_base(), j),
        Kind::Plant => exists|j: int| -4 <= j < 4 && e.color == lightened(plant_base(), j),
        Kind::Fire => e.color == fire_base(),
        Kind::Water => e.color == water_base(),
        _ => e.color == black(),
    }
}

impl Extra {
    /// A fresh `Extra` for a new particle of `kind`.
    pub fn from(kind: Kind) -> (r: Extra)
        ensures
            fresh_extra(kind, r),
    {
        match kind {
            Kind::Sand => {
                let jitter = random_range(-4, 4);
                let color = lighten(Color { r: 237, g: 201, b: 175 }, jitter as i16);
                assert(color == lightened(sand_base(), jitter as int));
                Extra { color, energy: 0 }
            },
            Kind::Plant => {
                let jitter = random_range(-4, 4);
                let color = lighten(Color { r: 0, g: 200, b: 0 }, jitter as i16);
                assert(color == lightened(plant_base(), jitter as int));
                Extra { color, energy: MAX_ENERGY }
            },
            Kind::Fire => Extra { color: Color { r: 200, g: 0, b: 0 }, energy: MAX_ENERGY },
            Kind::Water => Extra { color: Color { r: 0, g: 0, b: 200 }, energy: MAX_ENERGY },
            _ => Extra { color: Color { r: 0, g: 0, b: 0 }, energy: 0 },
        }
    }

    /// The extra after a change of energy: a fire's color follows its energy,
    /// other kinds keep theirs.
    pub open spec fn updated(self, kind: Kind) -> Extra {
        if kind == Kind::Fire {
            Extra { color: relit(self.color, fire_lightness(self.energy as int)), ..self }
        } else {
            self
        }
    }

    /// Recomputes what depends on the energy: a fire's lightness.
    pub fn update(&mut self, kind: Kind)
        ensures
            *final(self) == old(self).updated(kind),
    {
        if kind == Kind::Fire {
            let lightness = (self.energy as u16 * 4 / 5) as u8;
            self.color = set_lightness(self.color, lightness);
        }
    }
}

/// One cell of the grid: its kind, its extra, and the tick at which it was
/// last written (`clock`). Writing a particle into a grid overwrites its
/// `clock` with the grid's.
#[derive(Clone, Copy, PartialEq, Eq, Debug, Structural)]
pub struct Particle {
    pub kind: Kind,
    pub extra: Extra,
    pub clock: u8,
}

/// `e` clamped into `[0, MAX_ENERGY]`.
pub open spec fn clamp_energy(e: int) -> int {
    if e < 0 {
        0
    } else if e > MAX_ENERGY {
        MAX_ENERGY as int
    } else {
        e
    }
}

impl Particle {
    /// The sentinel that reads outside the grid return.
    pub open spec fn out_of_bounds_spec() -> Particle {
        Particle { kind: Kind::OutOfBounds, extra: Extra { color: black(), energy: 0 }, clock: 0 }
    }

    /// An empty cell.
    pub open spec fn empty_spec() -> Particle {
        Particle { kind: Kind::Empty, extra: Extra { color: black(), energy: 0 }, clock: 0 }
    }

    /// A particle may be stored in a grid: its energy is in range and it is not
    /// the out-of-bounds sentinel.
    pub open spec fn wf(self) -> bool {
        self.extra.energy <= MAX_ENERGY && self.kind != Kind::OutOfBounds
    }

    /// The particle stamped with `clock`.
    pub open spec fn stamped(self, clock: u8) -> Particle {
        Particle { clock, ..self }
    }

    /// The particle with its energy set to `e`, clamped into range.
    pub open spec fn with_energy_spec(self, e: int) -> Particle {
        Particle {
            extra: Extra { energy: clamp_energy(e) as u8, ..self.extra }.updated(self.kind),
            ..self
        }
    }

    /// The out-of-bounds sentinel.
    pub fn out_of_bounds() -> (r: Particle)
        ensures
            r == Particle::out_of_bounds_spec(),
    {
        Particle {
            kind: Kind::OutOfBounds,
            extra: Extra { color: Color { r: 0, g: 0, b: 0 }, energy: 0 },
            clock: 0,
        }
    }

    /// An empty cell.
    pub fn empty() -> (r: Particle)
        ensures
            r == Particle::empty_spec(),
    {
        Particle {
            kind: Kind::Empty,
            extra: Extra { color: Color { r: 0, g: 0, b: 0 }, energy: 0 },
            clock: 0,
        }
    }

    /// A fresh particle of `kind`, with a fresh extra.
    pub fn new(kind: Kind) -> (r: Particle)
        ensures
            r.kind == kind,
            r.clock == 0,
            fresh_extra(kind, r.extra),
    {
        Particle { kind, extra: Extra::from(kind), clock: 0 }
    }

    /// The kind's ordinal.
    pub fn get_kind(&self) -> (r: i32)
        ensures
            r == self.kind.ordinal(),
    {
        self.kind.value()
    }

    /// The tick at which this particle was last written.
    pub fn get_clock(&self) -> (r: i32)
        ensures
            r == self.clock,
    {
        self.clock as i32
    }

    /// The particle's energy, in hundredths.
    pub fn energy(&self) -> (r: u8)
        ensures
            r == self.extra.energy,
    {
        self.extra.energy
    }

    /// A copy with its energy set to `energy` hundredths, clamped into
    /// `[0, MAX_ENERGY]`; a fire's color follows its new energy.
    pub fn with_energy(&self, energy: i32) -> (r: Particle)
        ensures
            r == self.with_energy_spec(energy as int),
            r.extra.energy <= MAX_ENERGY,
    {
        let mut new = *self;
        new.extra.energy = if energy < 0 {
            0
        } else if energy > MAX_ENERGY as i32 {
            MAX_ENERGY
        } else {
            energy as u8
        };
        new.extra.update(self.kind);
        new
    }
}

} // verus!
