use crate::particle::{Kind, Particle};
use vstd::prelude::*;

verus! {

/// What a grid holds: its size, the current tick, and its cells in row-major
/// order.
pub struct WorldModel {
    pub width: int,
    pub height: int,
    pub clock: u8,
    pub cells: Seq<Particle>,
}

impl WorldModel {
    pub open spec fn in_bounds(self, x: int, y: int) -> bool {
        0 <= x < self.width && 0 <= y < self.height
    }

    /// The position of cell `(x, y)` in `cells`.
    pub open spec fn index(self, x: int, y: int) -> int {
        y * self.width + x
    }

    /// The particle at `(x, y)`; the out-of-bounds sentinel off the grid.
    pub open spec fn get(self, x: int, y: int) -> Particle {
        if self.in_bounds(x, y) {
            self.cells[self.index(x, y)]
        } else {
            Particle::out_of_bounds_spec()
        }
    }

    /// The grid after writing `p` at `(x, y)`, stamped with the current tick;
    /// the same grid when `(x, y)` is off it.
    pub open spec fn put(self, x: int, y: int, p: Particle) -> WorldModel {
        if self.in_bounds(x, y) {
            WorldModel { cells: self.cells.update(self.index(x, y), p.stamped(self.clock)), ..self }
        } else {
            self
        }
    }

    /// The size is not negative, the cells can be counted in a `usize`, and
    /// there is one cell per position.
    pub open spec fn sized(self) -> bool {
        &&& 0 <= self.width
        &&& 0 <= self.height
        &&& self.width * self.height <= usize::MAX
        &&& self.cells.len() == self.width * self.height
    }

    /// The grid is sized and each cell holds a particle that may be stored.
    pub open spec fn wf(self) -> bool {
        &&& self.sized()
        &&& forall|i: int| 0 <= i < self.cells.len() ==> (#[trigger] self.cells[i]).wf()
    }

    pub open spec fn same_shape(self, other: WorldModel) -> bool {
        &&& self.width == other.width
        &&& self.height == other.height
        &&& self.clock == other.clock
    }
}

/// Each position of the grid has its own place in `cells`.
pub proof fn lemma_index(w: WorldModel, x: int, y: int)
    requires
        w.in_bounds(x, y),
    ensures
        0 <= w.index(x, y) < w.width * w.height,
{
    assert(0 <= y * w.width + x < w.width * w.height) by (nonlinear_arith)
        requires
            0 <= x < w.width,
            0 <= y < w.height,
    ;
}

/// Two positions of the grid share no place in `cells`.
pub proof fn lemma_index_distinct(w: WorldModel, x1: int, y1: int, x2: int, y2: int)
    requires
        w.in_bounds(x1, y1),
        w.in_bounds(x2, y2),
        x1 != x2 || y1 != y2,
    ensures
        w.index(x1, y1) != w.index(x2, y2),
{
    if y1 == y2 {
    } else if y1 < y2 {
        assert(y1 * w.width + x1 < y2 * w.width + x2) by (nonlinear_arith)
            requires
                0 <= x1 < w.width,
                0 <= x2,
                y1 < y2,
        ;
    } else {
        assert(y2 * w.width + x2 < y1 * w.width + x1) by (nonlinear_arith)
            requires
                0 <= x2 < w.width,
                0 <= x1,
                y2 < y1,
        ;
    }
}

/// Reading after a write: the written cell holds the stamped particle, every
/// other cell is unchanged, and the grid keeps its shape.
pub proof fn lemma_get_put(w: WorldModel, x: int, y: int, p: Particle, a: int, b: int)
    requires
        w.cells.len() == w.width * w.height,
    ensures
        w.put(x, y, p).same_shape(w),
        w.put(x, y, p).cells.len() == w.cells.len(),
        w.put(x, y, p).get(a, b) == if w.in_bounds(x, y) && a == x && b == y {
            p.stamped(w.clock)
        } else {
            w.get(a, b)
        },
{
    if w.in_bounds(x, y) {
        lemma_index(w, x, y);
        if w.in_bounds(a, b) && (a != x || b != y) {
            lemma_index(w, a, b);
            lemma_index_distinct(w, x, y, a, b);
        }
    }
}

/// A write of a storable particle keeps the grid well formed.
pub proof fn lemma_put_wf(w: WorldModel, x: int, y: int, p: Particle)
    requires
        w.wf(),
        p.wf(),
    ensures
        w.put(x, y, p).wf(),
        w.put(x, y, p).same_shape(w),
{
    if w.in_bounds(x, y) {
        lemma_index(w, x, y);
        let n = w.put(x, y, p);
        assert forall|i: int| 0 <= i < n.cells.len() implies (#[trigger] n.cells[i]).wf() by {
            if i != w.index(x, y) {
                assert(n.cells[i] == w.cells[i]);
            }
        }
    }
}

/// The grid: `width * height` particles in row-major order, and the current
/// tick, which every write stamps on the particle written.
pub struct World {
    width: i32,
    height: i32,
    data: Vec<Particle>,
    clock: u8,
}

impl View for World {
    type V = WorldModel;

    closed spec fn view(&self) -> WorldModel {
        WorldModel {
            width: self.width as int,
            height: self.height as int,
            clock: self.clock,
            cells: self.data@,
        }
    }
}

impl World {
    /// A `width` by `height` grid of empty cells, at tick 0.
    pub fn new(width: i32, height: i32) -> (r: World)
        requires
            0 <= width,
            0 <= height,
            width * height <= usize::MAX,
        ensures
            r@.wf(),
            r@.width == width,
            r@.height == height,
            r@.clock == 0,
            forall|i: int| 0 <= i < r@.cells.len() ==> #[trigger] r@.cells[i] == Particle::empty_spec(),
    {
        let n = (width as usize) * (height as usize);
        let mut data: Vec<Particle> = Vec::new();
        let mut i: usize = 0;
        while i < n
            invariant
                i <= n,
                data@.len() == i,
                forall|j: int| 0 <= j < i ==> #[trigger] data@[j] == Particle::empty_spec(),
            decreases n - i,
        {
            data.push(Particle::empty());
            i = i + 1;
        }
        World { width, height, data, clock: 0 }
    }

    pub fn width(&self) -> (r: i32)
        ensures
            r == self@.width,
    {
        self.width
    }

    pub fn height(&self) -> (r: i32)
        ensures
            r == self@.height,
    {
        self.height
    }

    /// The current tick.
    pub fn clock(&self) -> (r: u8)
        ensures
            r == self@.clock,
    {
        self.clock
    }

    /// The cells, row by row.
    pub fn cells(&self) -> (r: &[Particle])
        ensures
            r@ == self@.cells,
    {
        self.data.as_slice()
    }

    /// Moves the clock on to `clock`.
    pub fn set_clock(&mut self, clock: u8)
        ensures
            final(self)@ == (WorldModel { clock, ..old(self)@ }),
    {
        self.clock = clock;
    }

    pub fn is_out_of_bounds(&self, x: i32, y: i32) -> (r: bool)
        ensures
            r == !self@.in_bounds(x as int, y as int),
    {
        x < 0 || x >= self.width || y < 0 || y >= self.height
    }

    /// The position of `(x, y)` in the cells.
    pub fn get_index(&self, x: i32, y: i32) -> (r: usize)
        requires
            self@.sized(),
            self@.in_bounds(x as int, y as int),
        ensures
            r == self@.index(x as int, y as int),
            r < self@.cells.len(),
    {
        proof {
            lemma_index(self@, x as int, y as int);
            assert(0 <= y * self.width <= y * self.width + x) by (nonlinear_arith)
                requires
                    0 <= x,
                    0 <= y,
                    0 <= self.width,
            ;
        }
        (y as usize) * (self.width as usize) + (x as usize)
    }

    /// The particle at `(x, y)`, for coordinates of any size.
    pub(crate) fn get_wide(&self, x: i64, y: i64) -> (r: Particle)
        requires
            self@.sized(),
        ensures
            r == self@.get(x as int, y as int),
    {
        if x < 0 || x >= self.width as i64 || y < 0 || y >= self.height as i64 {
            Particle::out_of_bounds()
        } else {
            self.data[self.get_index(x as i32, y as i32)]
        }
    }

    /// Writes `particle` at `(x, y)`, for coordinates of any size.
    pub(crate) fn set_wide(&mut self, x: i64, y: i64, particle: Particle)
        requires
            old(self)@.sized(),
        ensures
            final(self)@ == old(self)@.put(x as int, y as int, particle),
            final(self)@.sized(),
    {
        if x < 0 || x >= self.width as i64 || y < 0 || y >= self.height as i64 {
            return;
        }
        let index = self.get_index(x as i32, y as i32);
        let mut stamped = particle;
        stamped.clock = self.clock;
        self.data.set(index, stamped);
    }

    /// The particle at `(x, y)`: the out-of-bounds sentinel off the grid.
    pub fn get(&self, x: i32, y: i32) -> (r: Particle)
        requires
            self@.sized(),
        ensures
            r == self@.get(x as int, y as int),
            !self@.in_bounds(x as int, y as int) ==> r.kind == Kind::OutOfBounds,
    {
        self.get_wide(x as i64, y as i64)
    }

    /// Writes `particle` at `(x, y)`, stamped with the current tick whatever
    /// clock it carried; does nothing off the grid.
    pub fn set(&mut self, x: i32, y: i32, particle: Particle)
        requires
            old(self)@.sized(),
        ensures
            final(self)@ == old(self)@.put(x as int, y as int, particle),
            final(self)@.sized(),
            !old(self)@.in_bounds(x as int, y as int) ==> final(self)@ == old(self)@,
    {
        self.set_wide(x as i64, y as i64, particle)
    }
}

/// A view of the grid centred on one cell, the focus: rules address cells by
/// their offset from it.
#[derive(Clone, Copy, Debug)]
pub struct WorldView {
    pub x: i32,
    pub y: i32,
}

impl WorldView {
    /// A view focused on `(x, y)`.
    pub fn new(x: i32, y: i32) -> (r: WorldView)
        ensures
            r.x == x,
            r.y == y,
    {
        WorldView { x, y }
    }

    /// The particle at offset `(d_x, d_y)` from the focus.
    pub fn get(&self, world: &World, d_x: i32, d_y: i32) -> (r: Particle)
        requires
            world@.sized(),
        ensures
            r == world@.get(self.x + d_x, self.y + d_y),
    {
        world.get_wide(self.x as i64 + d_x as i64, self.y as i64 + d_y as i64)
    }

    /// Writes `particle` at offset `(d_x, d_y)` from the focus.
    pub fn set(&self, world: &mut World, d_x: i32, d_y: i32, particle: Particle)
        requires
            old(world)@.sized(),
        ensures
            final(world)@ == old(world)@.put(self.x + d_x, self.y + d_y, particle),
            final(world)@.sized(),
    {
        world.set_wide(self.x as i64 + d_x as i64, self.y as i64 + d_y as i64, particle)
    }

    /// Moves the focus to `(x, y)`.
    pub fn set_viewport(&mut self, x: i32, y: i32)
        ensures
            final(self).x == x,
            final(self).y == y,
    {
        self.x = x;
        self.y = y;
    }
}

} // verus!
