use crate::particle::{Kind, Particle, MAX_ENERGY};
use crate::random::{random_range, random_ratio, shuffle};
use crate::world::{lemma_put_wf, World, WorldModel, WorldView};
use vstd::prelude::*;

verus! {

/// The energy, in hundredths, that a fire loses each tick.
pub const FIRE_COST: u8 = 10;

/// The energy, in hundredths, that a plant hands on less to a child it grows;
/// a growth attempt that finds no room costs half of it.
pub const GROWTH_COST: u8 = 2;

/// A plant with more plant neighbors than this, in the 5x5 window around it,
/// stops growing.
pub const CROWD_LIMIT: u8 = 20;

/// A plant with `e` hundredths of energy tries to grow with chance
/// `e / GROWTH_CHANCE_DENOMINATOR`: five percent of its energy read as a
/// fraction of one, with no base chance added.
pub const GROWTH_CHANCE_DENOMINATOR: u32 = 2000;

/// A falling particle may move into a cell of kind `k`: an empty one, or, for
/// water, a fire, which it puts out.
pub open spec fn displaceable(k: Kind, through_fire: bool) -> bool {
    k == Kind::Empty || (through_fire && k == Kind::Fire)
}

/// The grid after a falling particle `cur` at `(x, y)` takes its turn: it moves
/// one cell down if it can, else one cell down and `side` across, else stays.
pub open spec fn fall_next(
    w: WorldModel,
    x: int,
    y: int,
    cur: Particle,
    side: int,
    through_fire: bool,
) -> WorldModel {
    if displaceable(w.get(x, y + 1).kind, through_fire) {
        w.put(x, y + 1, cur).put(x, y, Particle::empty_spec())
    } else if displaceable(w.get(x + side, y + 1).kind, through_fire) {
        w.put(x + side, y + 1, cur).put(x, y, Particle::empty_spec())
    } else {
        w.put(x, y, cur)
    }
}

/// The grid after a fire `cur` at `(x, y)` takes its turn: spent, it leaves an
/// empty cell; else it burns `FIRE_COST` of its energy and spreads towards the
/// offset `(dx, dy)`: into an empty cell with what it has left, into a plant at
/// full energy.
pub open spec fn fire_next(w: WorldModel, x: int, y: int, cur: Particle, dx: int, dy: int) -> WorldModel {
    if cur.extra.energy == 0 {
        w.put(x, y, Particle::empty_spec())
    } else {
        let burnt = cur.with_energy_spec(cur.extra.energy - FIRE_COST);
        let w1 = w.put(x, y, burnt);
        if dx == 0 && dy == 0 {
            w1
        } else if w1.get(x + dx, y + dy).kind == Kind::Empty {
            w1.put(x + dx, y + dy, burnt)
        } else if w1.get(x + dx, y + dy).kind == Kind::Plant {
            w1.put(x + dx, y + dy, cur.with_energy_spec(MAX_ENERGY as int))
        } else {
            w1
        }
    }
}

/// The offset of the `k`-th cell of the 5x5 window, row by row; the 13th
/// (`k == 12`) is the centre.
pub open spec fn window_offset(k: int) -> (int, int) {
    (k % 5 - 2, k / 5 - 2)
}

/// The plants among the first `k` cells of the 5x5 window around `(x, y)`,
/// leaving out the centre.
pub open spec fn plants_in_window(w: WorldModel, x: int, y: int, k: int) -> int
    decreases k,
{
    if k <= 0 {
        0
    } else {
        let (dx, dy) = window_offset(k - 1);
        plants_in_window(w, x, y, k - 1) + if k - 1 != 12 && w.get(x + dx, y + dy).kind
            == Kind::Plant {
            1int
        } else {
            0int
        }
    }
}

/// The plants among the 24 neighbors of `(x, y)` at Chebyshev distance at most 2.
pub open spec fn plants_near(w: WorldModel, x: int, y: int) -> int {
    plants_in_window(w, x, y, 25)
}

/// A plant may grow into a cell of kind `k`: an empty one, or water, which
/// refreshes it.
pub open spec fn growable(k: Kind) -> bool {
    k == Kind::Empty || k == Kind::Water
}

/// The first offset of `order`, from the `i`-th on, at which a plant at
/// `(x, y)` may grow.
pub open spec fn growth_spot(w: WorldModel, x: int, y: int, order: Seq<(i32, i32)>, i: int) -> Option<(i32, i32)>
    decreases order.len() - i,
{
    if i < 0 || i >= order.len() {
        None
    } else if growable(w.get(x + order[i].0, y + order[i].1).kind) {
        Some(order[i])
    } else {
        growth_spot(w, x, y, order, i + 1)
    }
}

/// The grid after a plant `cur` at `(x, y)` takes its turn. Spent, it stays.
/// Crowded by more than `CROWD_LIMIT` plants, it loses all its energy.
/// Otherwise, when `grow` is drawn, it grows into the first cell of `order`
/// that holds room or water: the child has `GROWTH_COST` less energy than the
/// parent (full energy on water) and the parent is spent. If no cell has room
/// the attempt costs the parent half of `GROWTH_COST`.
pub open spec fn plant_next(
    w: WorldModel,
    x: int,
    y: int,
    cur: Particle,
    grow: bool,
    order: Seq<(i32, i32)>,
) -> WorldModel {
    if cur.extra.energy == 0 {
        w.put(x, y, cur)
    } else if plants_near(w, x, y) > CROWD_LIMIT {
        w.put(x, y, cur.with_energy_spec(0))
    } else if !grow {
        w.put(x, y, cur)
    } else {
        match growth_spot(w, x, y, order, 0) {
            Some(spot) => {
                let (cx, cy) = (x + spot.0, y + spot.1);
                let child = if w.get(cx, cy).kind == Kind::Water {
                    cur.with_energy_spec(MAX_ENERGY as int)
                } else {
                    cur.with_energy_spec(cur.extra.energy - GROWTH_COST)
                };
                w.put(cx, cy, child).put(x, y, cur.with_energy_spec(0))
            },
            None => w.put(x, y, cur.with_energy_spec(cur.extra.energy - GROWTH_COST / 2)),
        }
    }
}

/// Moves a falling particle; see `fall_next`.
fn fall(world: &mut World, view: &WorldView, current: Particle, side: i32, through_fire: bool)
    requires
        old(world)@.sized(),
    ensures
        final(world)@ == fall_next(old(world)@, view.x as int, view.y as int, current, side as int, through_fire),
{
    let below = view.get(world, 0, 1);
    if below.kind == Kind::Empty || (through_fire && below.kind == Kind::Fire) {
        view.set(world, 0, 1, current);
        view.set(world, 0, 0, Particle::empty());
        return;
    }
    let beside = view.get(world, side, 1);
    if beside.kind == Kind::Empty || (through_fire && beside.kind == Kind::Fire) {
        view.set(world, side, 1, current);
        view.set(world, 0, 0, Particle::empty());
    } else {
        view.set(world, 0, 0, current);
    }
}

/// Sand takes its turn at the view's focus: it falls straight down into an
/// empty cell, else down and `side` across, else stays.
pub fn update_sand(world: &mut World, view: &WorldView, current: Particle, side: i32)
    requires
        old(world)@.sized(),
    ensures
        final(world)@ == fall_next(old(world)@, view.x as int, view.y as int, current, side as int, false),
{
    fall(world, view, current, side, false)
}

/// Water takes its turn at the view's focus: it moves as sand does, and may
/// also move into a fire, which it puts out.
pub fn update_water(world: &mut World, view: &WorldView, current: Particle, side: i32)
    requires
        old(world)@.sized(),
    ensures
        final(world)@ == fall_next(old(world)@, view.x as int, view.y as int, current, side as int, true),
{
    fall(world, view, current, side, true)
}

/// A fire takes its turn at the view's focus, spreading towards `(d_x, d_y)`;
/// see `fire_next`. A spent fire leaves an empty cell and does nothing else.
pub fn update_fire(world: &mut World, view: &WorldView, current: Particle, d_x: i32, d_y: i32)
    requires
        old(world)@.sized(),
    ensures
        final(world)@ == fire_next(old(world)@, view.x as int, view.y as int, current, d_x as int, d_y as int),
        current.extra.energy == 0 ==> final(world)@ == old(world)@.put(
            view.x as int,
            view.y as int,
            Particle::empty_spec(),
        ),
{
    if current.extra.energy == 0 {
        view.set(world, 0, 0, Particle::empty());
        return;
    }
    let burnt = current.with_energy(current.extra.energy as i32 - FIRE_COST as i32);
    view.set(world, 0, 0, burnt);
    if d_x == 0 && d_y == 0 {
        return;
    }
    let next = view.get(world, d_x, d_y);
    if next.kind == Kind::Empty {
        view.set(world, d_x, d_y, burnt);
    } else if next.kind == Kind::Plant {
        view.set(world, d_x, d_y, current.with_energy(MAX_ENERGY as i32));
    }
}

/// The plants among the 24 neighbors of the view's focus.
pub fn count_plants(world: &World, view: &WorldView) -> (r: u8)
    requires
        world@.sized(),
    ensures
        r == plants_near(world@, view.x as int, view.y as int),
{
    let mut count: u8 = 0;
    let mut k: i32 = 0;
    while k < 25
        invariant
            0 <= k <= 25,
            world@.sized(),
            count == plants_in_window(world@, view.x as int, view.y as int, k as int),
            count <= k,
        decreases 25 - k,
    {
        let d_x = k % 5 - 2;
        let d_y = k / 5 - 2;
        if k != 12 && view.get(world, d_x, d_y).kind == Kind::Plant {
            count = count + 1;
        }
        k = k + 1;
    }
    count
}

/// A plant takes its turn at the view's focus; `grow` is whether it tries to
/// grow this tick and `order` the offsets it tries, in turn. See `plant_next`.
/// A crowded plant is spent and changes nothing else.
pub fn update_plant(world: &mut World, view: &WorldView, current: Particle, grow: bool, order: &Vec<(i32, i32)>)
    requires
        old(world)@.sized(),
        current.kind == Kind::Plant,
    ensures
        final(world)@ == plant_next(old(world)@, view.x as int, view.y as int, current, grow, order@),
        plants_near(old(world)@, view.x as int, view.y as int) > CROWD_LIMIT ==> final(world)@
            == old(world)@.put(view.x as int, view.y as int, current.with_energy_spec(0)),
{
    if current.extra.energy == 0 {
        view.set(world, 0, 0, current);
        return;
    }
    let nearby = count_plants(world, view);
    if nearby > CROWD_LIMIT {
        view.set(world, 0, 0, current.with_energy(0));
        return;
    }
    if !grow {
        view.set(world, 0, 0, current);
        return;
    }
    let mut i: usize = 0;
    while i < order.len()
        invariant
            i <= order@.len(),
            world@ == old(world)@,
            grow,
            current.kind == Kind::Plant,
            current.extra.energy != 0,
            nearby == plants_near(world@, view.x as int, view.y as int),
            nearby <= CROWD_LIMIT,
            world@.sized(),
            growth_spot(world@, view.x as int, view.y as int, order@, 0) == growth_spot(
                world@,
                view.x as int,
                view.y as int,
                order@,
                i as int,
            ),
        decreases order@.len() - i,
    {
        let (d_x, d_y) = order[i];
        let spot = view.get(world, d_x, d_y);
        if spot.kind == Kind::Empty || spot.kind == Kind::Water {
            let child = if spot.kind == Kind::Water {
                current.with_energy(MAX_ENERGY as i32)
            } else {
                current.with_energy(current.extra.energy as i32 - GROWTH_COST as i32)
            };
            view.set(world, d_x, d_y, child);
            view.set(world, 0, 0, current.with_energy(0));
            return;
        }
        i = i + 1;
    }
    view.set(world, 0, 0, current.with_energy(current.extra.energy as i32 - (GROWTH_COST / 2) as i32));
}

/// The offsets, from a plant, of the cells it may grow into: the two upper
/// diagonals, the two sides, and the cell above.
pub open spec fn growth_offsets() -> Seq<(i32, i32)> {
    seq![(-1i32, -1i32), (1i32, -1i32), (-1i32, 0i32), (1i32, 0i32), (0i32, -1i32)]
}

/// The growth offsets, in their listed order.
pub fn growth_offsets_vec() -> (r: Vec<(i32, i32)>)
    ensures
        r@ == growth_offsets(),
{
    let mut v: Vec<(i32, i32)> = Vec::new();
    v.push((-1, -1));
    v.push((1, -1));
    v.push((-1, 0));
    v.push((1, 0));
    v.push((0, -1));
    assert(v@ =~= growth_offsets());
    v
}

/// The chance draws a particle's rule may use in one turn: the side a falling
/// particle tries, the offset a fire spreads towards, whether a plant tries to
/// grow, and the order in which it tries the growth offsets.
pub struct Roll {
    pub side: i32,
    pub spread_x: i32,
    pub spread_y: i32,
    pub grow: bool,
    pub order: Vec<(i32, i32)>,
}

/// What a `Roll` holds.
pub struct RollModel {
    pub side: int,
    pub spread_x: int,
    pub spread_y: int,
    pub grow: bool,
    pub order: Seq<(i32, i32)>,
}

impl RollModel {
    /// The side is left or right, the spread offset is among the eight
    /// neighbors or the cell itself, and the order holds each growth offset
    /// once.
    pub open spec fn valid(self) -> bool {
        &&& (self.side == -1 || self.side == 1)
        &&& -1 <= self.spread_x <= 1
        &&& -1 <= self.spread_y <= 1
        &&& self.order.to_multiset() == growth_offsets().to_multiset()
    }

    /// A valid roll that draws nothing, for a cell that does not take a turn.
    pub open spec fn idle() -> RollModel {
        RollModel { side: 1, spread_x: 0, spread_y: 0, grow: false, order: growth_offsets() }
    }
}

impl View for Roll {
    type V = RollModel;

    open spec fn view(&self) -> RollModel {
        RollModel {
            side: self.side as int,
            spread_x: self.spread_x as int,
            spread_y: self.spread_y as int,
            grow: self.grow,
            order: self.order@,
        }
    }
}

impl Roll {
    /// Draws what the rule of `current`'s kind uses: a side for sand and water,
    /// a spread offset for fire, and for a plant whether it tries to grow (with
    /// chance `energy / GROWTH_CHANCE_DENOMINATOR`) and, if so, a shuffled order
    /// of the growth offsets.
    pub fn draw(current: &Particle) -> (r: Roll)
        ensures
            r@.valid(),
            r.grow ==> current.kind == Kind::Plant && current.extra.energy > 0,
    {
        let mut roll = Roll { side: 1, spread_x: 0, spread_y: 0, grow: false, order: growth_offsets_vec() };
        match current.kind {
            Kind::Sand | Kind::Water => {
                roll.side = if random_range(0, 2) == 0 {
                    -1
                } else {
                    1
                };
            },
            Kind::Fire => {
                roll.spread_x = random_range(-1, 2);
                roll.spread_y = random_range(-1, 2);
            },
            Kind::Plant => {
                roll.grow = random_ratio(current.extra.energy as u32, GROWTH_CHANCE_DENOMINATOR);
                if roll.grow {
                    shuffle(&mut roll.order);
                }
            },
            _ => {},
        }
        roll
    }
}

/// The grid after `cur`, at `(x, y)`, takes its turn under the rule of its kind
/// with the draws `r`. Other kinds change nothing.
pub open spec fn rule_next(w: WorldModel, x: int, y: int, cur: Particle, r: RollModel) -> WorldModel {
    match cur.kind {
        Kind::Sand => fall_next(w, x, y, cur, r.side, false),
        Kind::Water => fall_next(w, x, y, cur, r.side, true),
        Kind::Fire => fire_next(w, x, y, cur, r.spread_x, r.spread_y),
        Kind::Plant => plant_next(w, x, y, cur, r.grow, r.order),
        _ => w,
    }
}

/// Runs the rule of `current`'s kind at the view's focus with the draws `roll`.
pub fn apply_rule(world: &mut World, view: &WorldView, current: Particle, roll: &Roll)
    requires
        old(world)@.sized(),
    ensures
        final(world)@ == rule_next(old(world)@, view.x as int, view.y as int, current, roll@),
{
    match current.kind {
        Kind::Sand => update_sand(world, view, current, roll.side),
        Kind::Water => update_water(world, view, current, roll.side),
        Kind::Fire => update_fire(world, view, current, roll.spread_x, roll.spread_y),
        Kind::Plant => update_plant(world, view, current, roll.grow, &roll.order),
        _ => {},
    }
}

/// A turn of a storable particle keeps the grid well formed and its shape.
pub proof fn lemma_rule_wf(w: WorldModel, x: int, y: int, cur: Particle, r: RollModel)
    requires
        w.wf(),
        cur.wf(),
    ensures
        rule_next(w, x, y, cur, r).wf(),
        rule_next(w, x, y, cur, r).same_shape(w),
{
    let empty = Particle::empty_spec();
    match cur.kind {
        Kind::Sand | Kind::Water => {
            let tf = cur.kind == Kind::Water;
            if displaceable(w.get(x, y + 1).kind, tf) {
                lemma_put_wf(w, x, y + 1, cur);
                lemma_put_wf(w.put(x, y + 1, cur), x, y, empty);
            } else if displaceable(w.get(x + r.side, y + 1).kind, tf) {
                lemma_put_wf(w, x + r.side, y + 1, cur);
                lemma_put_wf(w.put(x + r.side, y + 1, cur), x, y, empty);
            } else {
                lemma_put_wf(w, x, y, cur);
            }
        },
        Kind::Fire => {
            if cur.extra.energy == 0 {
                lemma_put_wf(w, x, y, empty);
            } else {
                let burnt = cur.with_energy_spec(cur.extra.energy - FIRE_COST);
                let w1 = w.put(x, y, burnt);
                lemma_put_wf(w, x, y, burnt);
                lemma_put_wf(w1, x + r.spread_x, y + r.spread_y, burnt);
                lemma_put_wf(w1, x + r.spread_x, y + r.spread_y, cur.with_energy_spec(MAX_ENERGY as int));
            }
        },
        Kind::Plant => {
            lemma_put_wf(w, x, y, cur);
            lemma_put_wf(w, x, y, cur.with_energy_spec(0));
            lemma_put_wf(w, x, y, cur.with_energy_spec(cur.extra.energy - GROWTH_COST / 2));
            match growth_spot(w, x, y, r.order, 0) {
                Some(spot) => {
                    let (cx, cy) = (x + spot.0, y + spot.1);
                    let child = if w.get(cx, cy).kind == Kind::Water {
                        cur.with_energy_spec(MAX_ENERGY as int)
                    } else {
                        cur.with_energy_spec(cur.extra.energy - GROWTH_COST)
                    };
                    lemma_put_wf(w, cx, cy, child);
                    lemma_put_wf(w.put(cx, cy, child), x, y, cur.with_energy_spec(0));
                },
                None => {},
            }
        },
        _ => {},
    }
}

} // verus!
