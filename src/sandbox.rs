use crate::particle::{fresh_extra, Extra, Kind, Particle, MAX_ENERGY};
use crate::rules::{apply_rule, displaceable, fall_next, lemma_rule_wf, rule_next, Roll, RollModel};
use crate::world::{
    lemma_get_put, lemma_index, lemma_index_distinct, lemma_put_wf, World, WorldModel, WorldView,
};
use vstd::prelude::*;

verus! {

/// A request to paint the square of cells within `size` of `(x, y)`, on both
/// axes, with fresh particles of `kind`.
#[derive(Clone, Copy, PartialEq, Eq, Debug)]
pub struct UserEvent {
    pub x: i32,
    pub y: i32,
    pub kind: Kind,
    pub size: u32,
}

/// A particle together with the cell it stands in.
#[derive(Clone, Copy, PartialEq, Eq, Debug)]
pub struct ParticlePoint {
    pub x: i32,
    pub y: i32,
    pub particle: Particle,
}

/// The tick after `c`, wrapping round after 255.
pub open spec fn next_clock(c: u8) -> u8 {
    if c == 255 {
        0
    } else {
        (c + 1) as u8
    }
}

/// The grid with its clock moved on by one tick.
pub open spec fn advanced(w: WorldModel) -> WorldModel {
    WorldModel { clock: next_clock(w.clock), ..w }
}

/// The grid after the scan reaches `(x, y)`: an empty cell, or one already
/// written this tick, is passed over; any other takes its turn with the draws
/// `r`.
pub open spec fn visit(w: WorldModel, x: int, y: int, r: RollModel) -> WorldModel {
    let cur = w.get(x, y);
    if cur.kind == Kind::Empty || cur.clock == w.clock {
        w
    } else {
        rule_next(w, x, y, cur, r)
    }
}

/// The column of the `i`-th cell that the scan reaches in a row: right to left
/// on even ticks, left to right on odd ones.
pub open spec fn scan_x(width: int, clock: u8, i: int) -> int {
    if clock % 2 == 0 {
        width - 1 - i
    } else {
        i
    }
}

/// The grid after the scan has visited the first `i` cells of row `y`, the
/// `k`-th with the draws `row[k]`.
pub open spec fn scan_row(w: WorldModel, y: int, row: Seq<RollModel>, i: int) -> WorldModel
    decreases i,
{
    if i <= 0 {
        w
    } else {
        visit(scan_row(w, y, row, i - 1), scan_x(w.width, w.clock, i - 1), y, row[i - 1])
    }
}

/// The grid after the scan has visited the first `y` rows, top to bottom, row
/// `j` with the draws `rolls[j]`.
pub open spec fn scan_rows(w: WorldModel, rolls: Seq<Seq<RollModel>>, y: int) -> WorldModel
    decreases y,
{
    if y <= 0 {
        w
    } else {
        scan_row(scan_rows(w, rolls, y - 1), y - 1, rolls[y - 1], w.width)
    }
}

/// The grid after one full scan with the draws `rolls`.
pub open spec fn scan(w: WorldModel, rolls: Seq<Seq<RollModel>>) -> WorldModel {
    scan_rows(w, rolls, w.height)
}

/// `rolls` holds one valid draw per cell of a `width` by `height` grid.
pub open spec fn rolls_valid(rolls: Seq<Seq<RollModel>>, width: int, height: int) -> bool {
    &&& rolls.len() == height
    &&& forall|j: int| 0 <= j < height ==> (#[trigger] rolls[j]).len() == width
    &&& forall|j: int, i: int| 0 <= j < height && 0 <= i < width ==> (#[trigger] rolls[j][i]).valid()
}

/// The event's brush covers `(x, y)`.
pub open spec fn in_brush(e: UserEvent, x: int, y: int) -> bool {
    &&& e.x - e.size <= x <= e.x + e.size
    &&& e.y - e.size <= y <= e.y + e.size
}

/// `p` is a fresh particle of `kind` written at tick `clock`.
pub open spec fn painted(p: Particle, kind: Kind, clock: u8) -> bool {
    &&& p.kind == kind
    &&& p.clock == clock
    &&& fresh_extra(kind, p.extra)
}

/// `after` is `before` with the event's brush applied: each cell of the grid
/// under the brush holds a fresh particle of the event's kind, and every other
/// cell is unchanged. A brush of the out-of-bounds kind paints nothing.
pub open spec fn brushed(before: WorldModel, after: WorldModel, e: UserEvent) -> bool {
    &&& after.same_shape(before)
    &&& after.cells.len() == before.cells.len()
    &&& forall|x: int, y: int|
        #![trigger after.get(x, y)]
        after.in_bounds(x, y) ==> if e.kind != Kind::OutOfBounds && in_brush(e, x, y) {
            painted(after.get(x, y), e.kind, after.clock)
        } else {
            after.get(x, y) == before.get(x, y)
        }
}

/// Paints the event's brush onto the grid; see `brushed`.
fn paint(world: &mut World, event: &UserEvent)
    requires
        old(world)@.wf(),
    ensures
        final(world)@.wf(),
        brushed(old(world)@, final(world)@, *event),
{
    if event.kind == Kind::OutOfBounds {
        return;
    }
    let ghost before = world@;
    let size = event.size as i64;
    let width = world.width() as i64;
    let height = world.height() as i64;
    let x0 = if event.x as i64 - size < 0 { 0 } else { event.x as i64 - size };
    let x1 = if event.x as i64 + size > width - 1 { width - 1 } else { event.x as i64 + size };
    let y0 = if event.y as i64 - size < 0 { 0 } else { event.y as i64 - size };
    let y1 = if event.y as i64 + size > height - 1 { height - 1 } else { event.y as i64 + size };
    let mut y = y0;
    while y <= y1
        invariant
            y0 <= y,
            0 <= y0,
            y1 < height,
            y <= y1 + 1 || y == y0,
            0 <= x0,
            x1 < width,
            width == before.width,
            height == before.height,
            width <= i32::MAX,
            height <= i32::MAX,
            event.kind != Kind::OutOfBounds,
            x0 == (if event.x - event.size < 0 { 0 } else { event.x - event.size }),
            x1 == (if event.x + event.size > width - 1 { width - 1 } else { event.x + event.size }),
            y0 == (if event.y - event.size < 0 { 0 } else { event.y - event.size }),
            y1 == (if event.y + event.size > height - 1 { height - 1 } else { event.y + event.size }),
            world@.wf(),
            world@.same_shape(before),
            world@.cells.len() == before.cells.len(),
            forall|a: int, b: int|
                #![trigger world@.get(a, b)]
                world@.in_bounds(a, b) ==> if y0 <= b < y && x0 <= a <= x1 {
                    painted(world@.get(a, b), event.kind, world@.clock)
                } else {
                    world@.get(a, b) == before.get(a, b)
                },
        decreases y1 + 1 - y,
    {
        let mut x = x0;
        while x <= x1
            invariant
                x0 <= x,
                x <= x1 + 1 || x == x0,
                0 <= x0,
                x1 < width,
                y0 <= y <= y1,
                0 <= y0,
                y1 < height,
                width == before.width,
                height == before.height,
                width <= i32::MAX,
                height <= i32::MAX,
                event.kind != Kind::OutOfBounds,
                world@.wf(),
                world@.same_shape(before),
                world@.cells.len() == before.cells.len(),
                forall|a: int, b: int|
                    #![trigger world@.get(a, b)]
                    world@.in_bounds(a, b) ==> if (y0 <= b < y && x0 <= a <= x1) || (b == y && x0
                        <= a < x) {
                        painted(world@.get(a, b), event.kind, world@.clock)
                    } else {
                        world@.get(a, b) == before.get(a, b)
                    },
            decreases x1 + 1 - x,
        {
            let extra = Extra::from(event.kind);
            let fresh = Particle { kind: event.kind, extra, clock: 0 };
            let ghost w0 = world@;
            proof {
                lemma_put_wf(w0, x as int, y as int, fresh);
            }
            world.set(x as i32, y as i32, fresh);
            proof {
                assert forall|a: int, b: int| #![trigger world@.get(a, b)] world@.in_bounds(a, b) implies if (y0 <= b < y
                    && x0 <= a <= x1) || (b == y && x0 <= a < x + 1) {
                    painted(world@.get(a, b), event.kind, world@.clock)
                } else {
                    world@.get(a, b) == before.get(a, b)
                } by {
                    lemma_get_put(w0, x as int, y as int, fresh, a, b);
                }
            }
            x = x + 1;
        }
        y = y + 1;
    }
}

/// A visit keeps the grid well formed and its shape.
pub proof fn lemma_visit_wf(w: WorldModel, x: int, y: int, r: RollModel)
    requires
        w.wf(),
    ensures
        visit(w, x, y, r).wf(),
        visit(w, x, y, r).same_shape(w),
{
    if w.in_bounds(x, y) {
        lemma_index(w, x, y);
        lemma_rule_wf(w, x, y, w.get(x, y), r);
    }
}

/// The first `i` visits of a row use only the first `i` draws.
proof fn lemma_row_prefix(w: WorldModel, y: int, row: Seq<RollModel>, r: RollModel, i: int)
    requires
        0 <= i <= row.len(),
    ensures
        scan_row(w, y, row.push(r), i) == scan_row(w, y, row, i),
    decreases i,
{
    if i > 0 {
        lemma_row_prefix(w, y, row, r, i - 1);
    }
}

/// The first `y` rows of a scan use only the first `y` rows of draws.
proof fn lemma_rows_prefix(w: WorldModel, rolls: Seq<Seq<RollModel>>, row: Seq<RollModel>, y: int)
    requires
        0 <= y <= rolls.len(),
    ensures
        scan_rows(w, rolls.push(row), y) == scan_rows(w, rolls, y),
    decreases y,
{
    if y > 0 {
        lemma_rows_prefix(w, rolls, row, y - 1);
    }
}

/// The kinds of the grid's cells, in order.
pub open spec fn kinds(w: WorldModel) -> Seq<Kind> {
    w.cells.map_values(|p: Particle| p.kind)
}

/// Every cell holds sand, water, or nothing.
pub open spec fn only_sand_water(w: WorldModel) -> bool {
    forall|i: int|
        0 <= i < w.cells.len() ==> #[trigger] w.cells[i].kind == Kind::Sand || w.cells[i].kind
            == Kind::Water || w.cells[i].kind == Kind::Empty
}

/// Exchanging two entries keeps the multiset of a sequence.
proof fn lemma_swap_multiset(s: Seq<Kind>, i: int, j: int)
    requires
        0 <= i < s.len(),
        0 <= j < s.len(),
        i != j,
    ensures
        s.update(i, s[j]).update(j, s[i]).to_multiset() == s.to_multiset(),
{
    broadcast use vstd::seq_lib::group_to_multiset_ensures;
    broadcast use vstd::multiset::group_multiset_axioms;

    let s1 = s.update(i, s[j]);
    vstd::seq_lib::to_multiset_update(s, i, s[j]);
    vstd::seq_lib::to_multiset_update(s1, j, s[i]);
    assert(s.contains(s[i]));
    assert(s.contains(s[j]));
    assert(s.update(i, s[j]).update(j, s[i]).to_multiset() =~= s.to_multiset());
}

/// A sequence of sand, water and nothing is counted out by its three kinds.
proof fn lemma_three_kinds(s: Seq<Kind>)
    requires
        forall|i: int|
            0 <= i < s.len() ==> #[trigger] s[i] == Kind::Sand || s[i] == Kind::Water || s[i]
                == Kind::Empty,
    ensures
        s.to_multiset().count(Kind::Sand) + s.to_multiset().count(Kind::Water)
            + s.to_multiset().count(Kind::Empty) == s.len(),
    decreases s.len(),
{
    broadcast use vstd::seq_lib::group_to_multiset_ensures;
    broadcast use vstd::multiset::group_multiset_axioms;

    if s.len() > 0 {
        let t = s.drop_last();
        assert(forall|i: int| 0 <= i < t.len() ==> t[i] == s[i]);
        lemma_three_kinds(t);
        assert(t.push(s.last()) =~= s);
    }
}

/// A visit in a grid of sand, water and nothing only moves particles about.
proof fn lemma_visit_conserves(w: WorldModel, x: int, y: int, r: RollModel)
    requires
        w.sized(),
        only_sand_water(w),
    ensures
        visit(w, x, y, r).sized(),
        only_sand_water(visit(w, x, y, r)),
        kinds(visit(w, x, y, r)).to_multiset() == kinds(w).to_multiset(),
{
    let cur = w.get(x, y);
    if w.in_bounds(x, y) && cur.kind != Kind::Empty && cur.clock != w.clock {
        lemma_index(w, x, y);
        let tf = cur.kind == Kind::Water;
        let is = w.index(x, y);
        let empty = Particle::empty_spec();
        assert(rule_next(w, x, y, cur, r) == fall_next(w, x, y, cur, r.side, tf));
        let (tx, ty) = if displaceable(w.get(x, y + 1).kind, tf) {
            (x, y + 1)
        } else {
            (x + r.side, y + 1)
        };
        if displaceable(w.get(tx, ty).kind, tf) && (displaceable(w.get(x, y + 1).kind, tf) || tx
            == x + r.side) {
            assert(w.in_bounds(tx, ty));
            lemma_index(w, tx, ty);
            lemma_index_distinct(w, x, y, tx, ty);
            let it = w.index(tx, ty);
            let w1 = w.put(tx, ty, cur);
            let w2 = w1.put(x, y, empty);
            assert(w2.cells =~= w.cells.update(it, cur.stamped(w.clock)).update(is, empty.stamped(w.clock)));
            let k = kinds(w);
            assert(k[it] == Kind::Empty);
            assert(kinds(w2) =~= k.update(it, k[is]).update(is, k[it]));
            lemma_swap_multiset(k, it, is);
        } else {
            let w1 = w.put(x, y, cur);
            assert(kinds(w1) =~= kinds(w));
        }
    }
}

/// The first `i` visits of a row only move particles about.
proof fn lemma_scan_row_conserves(w: WorldModel, y: int, row: Seq<RollModel>, i: int)
    requires
        w.sized(),
        only_sand_water(w),
    ensures
        scan_row(w, y, row, i).sized(),
        only_sand_water(scan_row(w, y, row, i)),
        kinds(scan_row(w, y, row, i)).to_multiset() == kinds(w).to_multiset(),
        scan_row(w, y, row, i).same_shape(w),
    decreases i,
{
    if i > 0 {
        lemma_scan_row_conserves(w, y, row, i - 1);
        let prev = scan_row(w, y, row, i - 1);
        lemma_visit_conserves(prev, scan_x(w.width, w.clock, i - 1), y, row[i - 1]);
        lemma_visit_shape(prev, scan_x(w.width, w.clock, i - 1), y, row[i - 1]);
    }
}

/// A visit keeps the grid's shape.
proof fn lemma_visit_shape(w: WorldModel, x: int, y: int, r: RollModel)
    requires
        w.sized(),
        only_sand_water(w),
    ensures
        visit(w, x, y, r).same_shape(w),
{
    let cur = w.get(x, y);
    if w.in_bounds(x, y) && cur.kind != Kind::Empty && cur.clock != w.clock {
        lemma_index(w, x, y);
    }
}

/// The first `y` rows of a scan only move particles about.
proof fn lemma_scan_rows_conserves(w: WorldModel, rolls: Seq<Seq<RollModel>>, y: int)
    requires
        w.sized(),
        only_sand_water(w),
    ensures
        scan_rows(w, rolls, y).sized(),
        only_sand_water(scan_rows(w, rolls, y)),
        kinds(scan_rows(w, rolls, y)).to_multiset() == kinds(w).to_multiset(),
        scan_rows(w, rolls, y).same_shape(w),
    decreases y,
{
    if y > 0 {
        lemma_scan_rows_conserves(w, rolls, y - 1);
        lemma_scan_row_conserves(scan_rows(w, rolls, y - 1), y - 1, rolls[y - 1], w.width);
    }
}

/// Conservation: in a grid of sand, water and nothing, a scan only moves
/// particles about, whatever is drawn. The grid still holds only sand, water
/// and nothing, as many of each as before, and so the three counts still add
/// up to `width * height`.
pub proof fn lemma_scan_conserves(w: WorldModel, rolls: Seq<Seq<RollModel>>)
    requires
        w.sized(),
        only_sand_water(w),
    ensures
        only_sand_water(scan(w, rolls)),
        kinds(scan(w, rolls)).to_multiset() == kinds(w).to_multiset(),
        kinds(scan(w, rolls)).to_multiset().count(Kind::Sand) + kinds(scan(w, rolls)).to_multiset().count(
            Kind::Water,
        ) + kinds(scan(w, rolls)).to_multiset().count(Kind::Empty) == w.width * w.height,
{
    lemma_scan_rows_conserves(w, rolls, w.height);
    let after = scan(w, rolls);
    assert forall|i: int| 0 <= i < kinds(after).len() implies #[trigger] kinds(after)[i] == Kind::Sand
        || kinds(after)[i] == Kind::Water || kinds(after)[i] == Kind::Empty by {
        assert(after.cells[i].kind == kinds(after)[i]);
    }
    lemma_three_kinds(kinds(after));
}

/// Clock-stamp rule: the scan passes over an empty cell and over a cell
/// already written this tick, such as one that a particle moved into earlier
/// in the same scan, leaving the grid as it is.
pub proof fn lemma_written_cell_skipped(w: WorldModel, x: int, y: int, r: RollModel)
    requires
        w.get(x, y).kind == Kind::Empty || w.get(x, y).clock == w.clock,
    ensures
        visit(w, x, y, r) == w,
{
}

/// `(x, y)` holds a spent fire that has not been written this tick, and every
/// other cell of the grid is empty.
pub open spec fn lone_spent_fire(w: WorldModel, x: int, y: int) -> bool {
    &&& w.sized()
    &&& w.in_bounds(x, y)
    &&& w.get(x, y).kind == Kind::Fire
    &&& w.get(x, y).extra.energy == 0
    &&& w.get(x, y).clock != w.clock
    &&& forall|a: int, b: int|
        w.in_bounds(a, b) && (a != x || b != y) ==> #[trigger] w.get(a, b).kind == Kind::Empty
}

/// The scan has reached `(x, y)` once it has visited the first `i` cells of
/// row `yy`.
pub open spec fn reached(w: WorldModel, x: int, y: int, yy: int, i: int) -> bool {
    yy > y || (yy == y && if w.clock % 2 == 0 {
        w.width - i <= x
    } else {
        x < i
    })
}

/// A visit to a grid with a lone spent fire: the fire goes out when its own
/// cell is visited, and nothing else happens.
proof fn lemma_visit_lone_fire(w0: WorldModel, x: int, y: int, s: WorldModel, a: int, b: int, r: RollModel)
    requires
        lone_spent_fire(w0, x, y),
        s == w0 || s == w0.put(x, y, Particle::empty_spec()),
    ensures
        visit(s, a, b, r) == if s == w0 && a == x && b == y {
            w0.put(x, y, Particle::empty_spec())
        } else {
            s
        },
{
    let empty = Particle::empty_spec();
    lemma_get_put(w0, x, y, empty, a, b);
    lemma_get_put(w0, x, y, empty, x, y);
    if w0.in_bounds(a, b) && (a != x || b != y) {
        assert(w0.get(a, b).kind == Kind::Empty);
    }
}

/// Row `yy` of a scan of a grid with a lone spent fire.
proof fn lemma_row_lone_fire(w0: WorldModel, x: int, y: int, yy: int, row: Seq<RollModel>, i: int)
    requires
        lone_spent_fire(w0, x, y),
        0 <= i <= w0.width,
    ensures
        scan_row(if yy > y { w0.put(x, y, Particle::empty_spec()) } else { w0 }, yy, row, i) == if reached(
            w0,
            x,
            y,
            yy,
            i,
        ) {
            w0.put(x, y, Particle::empty_spec())
        } else {
            w0
        },
    decreases i,
{
    let t = w0.put(x, y, Particle::empty_spec());
    lemma_get_put(w0, x, y, Particle::empty_spec(), x, y);
    if i > 0 {
        lemma_row_lone_fire(w0, x, y, yy, row, i - 1);
        let start = if yy > y { t } else { w0 };
        let prev = scan_row(start, yy, row, i - 1);
        lemma_visit_lone_fire(w0, x, y, prev, scan_x(start.width, start.clock, i - 1), yy, row[i - 1]);
    }
}

/// The first `r` rows of a scan of a grid with a lone spent fire.
proof fn lemma_rows_lone_fire(w0: WorldModel, x: int, y: int, rolls: Seq<Seq<RollModel>>, r: int)
    requires
        lone_spent_fire(w0, x, y),
        0 <= r,
    ensures
        scan_rows(w0, rolls, r) == if r > y {
            w0.put(x, y, Particle::empty_spec())
        } else {
            w0
        },
    decreases r,
{
    if r > 0 {
        lemma_rows_lone_fire(w0, x, y, rolls, r - 1);
        lemma_row_lone_fire(w0, x, y, r - 1, rolls[r - 1], w0.width);
    }
}

/// Fire extinction: a spent fire, alone on the grid, goes out during the scan
/// whatever is drawn, leaving an empty cell, and nothing else changes: it
/// neither spreads nor ignites anything.
pub proof fn lemma_spent_fire_goes_out(w: WorldModel, rolls: Seq<Seq<RollModel>>, x: int, y: int)
    requires
        lone_spent_fire(w, x, y),
    ensures
        scan(w, rolls) == w.put(x, y, Particle::empty_spec()),
{
    lemma_rows_lone_fire(w, x, y, rolls, w.height);
}

/// Grid `w` held sand at `(x, y)` or in one of the three cells of the row
/// above that are at most one column away.
pub open spec fn sand_source(w: WorldModel, x: int, y: int) -> bool {
    ||| w.get(x, y).kind == Kind::Sand
    ||| w.get(x, y - 1).kind == Kind::Sand
    ||| w.get(x - 1, y - 1).kind == Kind::Sand
    ||| w.get(x + 1, y - 1).kind == Kind::Sand
}

/// Every sand cell of `s` has a source in `w0`, and one not yet written this
/// tick held sand in `w0` already.
pub open spec fn sand_tracked(w0: WorldModel, s: WorldModel) -> bool {
    forall|a: int, b: int|
        s.in_bounds(a, b) && (#[trigger] s.get(a, b)).kind == Kind::Sand ==> sand_source(w0, a, b)
            && (s.get(a, b).clock != s.clock ==> w0.get(a, b).kind == Kind::Sand)
}

/// A visit keeps every sand cell tracked to its source.
proof fn lemma_visit_tracks_sand(w0: WorldModel, s: WorldModel, x: int, y: int, r: RollModel)
    requires
        s.sized(),
        only_sand_water(s),
        sand_tracked(w0, s),
        r.valid(),
    ensures
        sand_tracked(w0, visit(s, x, y, r)),
{
    let cur = s.get(x, y);
    if s.in_bounds(x, y) && cur.kind != Kind::Empty && cur.clock != s.clock {
        lemma_index(s, x, y);
        let tf = cur.kind == Kind::Water;
        let empty = Particle::empty_spec();
        assert(visit(s, x, y, r) == fall_next(s, x, y, cur, r.side, tf));
        let n = fall_next(s, x, y, cur, r.side, tf);
        if displaceable(s.get(x, y + 1).kind, tf) || displaceable(s.get(x + r.side, y + 1).kind, tf) {
            let (tx, ty) = if displaceable(s.get(x, y + 1).kind, tf) {
                (x, y + 1)
            } else {
                (x + r.side, y + 1)
            };
            let s1 = s.put(tx, ty, cur);
            lemma_get_put(s, tx, ty, cur, tx, ty);
            assert forall|a: int, b: int|
                n.in_bounds(a, b) && (#[trigger] n.get(a, b)).kind == Kind::Sand implies sand_source(w0, a, b)
                && (n.get(a, b).clock != n.clock ==> w0.get(a, b).kind == Kind::Sand) by {
                lemma_get_put(s, tx, ty, cur, a, b);
                lemma_get_put(s1, x, y, empty, a, b);
                if a == tx && b == ty {
                    assert(w0.get(x, y).kind == Kind::Sand);
                } else {
                    assert(n.get(a, b) == s.get(a, b));
                }
            }
        } else {
            assert forall|a: int, b: int|
                n.in_bounds(a, b) && (#[trigger] n.get(a, b)).kind == Kind::Sand implies sand_source(w0, a, b)
                && (n.get(a, b).clock != n.clock ==> w0.get(a, b).kind == Kind::Sand) by {
                lemma_get_put(s, x, y, cur, a, b);
                if a != x || b != y {
                    assert(n.get(a, b) == s.get(a, b));
                }
            }
        }
    }
}

/// The first `i` visits of a row keep every sand cell tracked to its source.
proof fn lemma_row_tracks_sand(w0: WorldModel, s: WorldModel, y: int, row: Seq<RollModel>, i: int)
    requires
        s.sized(),
        only_sand_water(s),
        sand_tracked(w0, s),
        forall|k: int| 0 <= k < i ==> (#[trigger] row[k]).valid(),
    ensures
        sand_tracked(w0, scan_row(s, y, row, i)),
    decreases i,
{
    if i > 0 {
        lemma_row_tracks_sand(w0, s, y, row, i - 1);
        lemma_scan_row_conserves(s, y, row, i - 1);
        let prev = scan_row(s, y, row, i - 1);
        lemma_visit_tracks_sand(w0, prev, scan_x(s.width, s.clock, i - 1), y, row[i - 1]);
    }
}

/// The first `y` rows of a scan keep every sand cell tracked to its source.
proof fn lemma_rows_tracks_sand(w: WorldModel, rolls: Seq<Seq<RollModel>>, y: int)
    requires
        w.sized(),
        only_sand_water(w),
        rolls_valid(rolls, w.width, w.height),
        y <= w.height,
    ensures
        sand_tracked(w, scan_rows(w, rolls, y)),
    decreases y,
{
    if y > 0 {
        lemma_rows_tracks_sand(w, rolls, y - 1);
        lemma_scan_rows_conserves(w, rolls, y - 1);
        let prev = scan_rows(w, rolls, y - 1);
        assert forall|k: int| 0 <= k < w.width implies (#[trigger] rolls[y - 1][k]).valid() by {}
        lemma_row_tracks_sand(w, prev, y - 1, rolls[y - 1], w.width);
    }
}

/// Sand moves at most one step per tick: in a grid of sand, water and nothing,
/// every cell that holds sand after a scan held sand before it, or lies one row
/// below a cell that held sand and at most one column away from it.
pub proof fn lemma_sand_moves_one_step(w: WorldModel, rolls: Seq<Seq<RollModel>>)
    requires
        w.sized(),
        only_sand_water(w),
        rolls_valid(rolls, w.width, w.height),
    ensures
        forall|a: int, b: int|
            w.in_bounds(a, b) && (#[trigger] scan(w, rolls).get(a, b)).kind == Kind::Sand ==> sand_source(w, a, b),
{
    lemma_rows_tracks_sand(w, rolls, w.height);
    lemma_scan_rows_conserves(w, rolls, w.height);
}

/// The simulation: a grid that `tick` moves on one step at a time.
pub struct Sandbox {
    world: World,
}

impl View for Sandbox {
    type V = WorldModel;

    closed spec fn view(&self) -> WorldModel {
        self.world@
    }
}

impl Sandbox {
    #[verifier::type_invariant]
    spec fn inv(self) -> bool {
        self.world@.wf()
    }

    /// A `width` by `height` sandbox of empty cells, at tick 0.
    pub fn new(width: i32, height: i32) -> (r: Sandbox)
        requires
            0 <= width,
            0 <= height,
            width * height <= usize::MAX,
        ensures
            r@.wf(),
            r@.width == width,
            r@.height == height,
            r@.clock == 0,
            forall|i: int| 0 <= i < r@.cells.len() ==> #[trigger] r@.cells[i] == Particle::empty_spec(),
            r@.cells.len() == width * height,
    {
        Sandbox { world: World::new(width, height) }
    }

    /// The cells, row by row, for a renderer to read between ticks.
    pub fn world(&self) -> (r: &[Particle])
        ensures
            r@ == self@.cells,
    {
        self.world.cells()
    }

    /// The particle at `(x, y)`: the out-of-bounds sentinel off the grid.
    pub fn get(&self, x: i32, y: i32) -> (r: Particle)
        ensures
            r == self@.get(x as int, y as int),
            r.extra.energy <= MAX_ENERGY,
    {
        proof {
            use_type_invariant(self);
            if self@.in_bounds(x as int, y as int) {
                lemma_index(self@, x as int, y as int);
            }
        }
        self.world.get(x, y)
    }

    /// Advances the simulation by one step. The clock moves on one tick; the
    /// scan then visits every row from the top, each row right to left on even
    /// ticks and left to right on odd ones, and gives each cell that is neither
    /// empty nor already written this tick its turn, with freshly drawn
    /// `Roll`s. Last, the event's brush, if any, is painted.
    pub fn tick(&mut self, user_event: Option<UserEvent>)
        ensures
            final(self)@.wf(),
            final(self)@.width == old(self)@.width,
            final(self)@.height == old(self)@.height,
            final(self)@.clock == next_clock(old(self)@.clock),
            exists|rolls: Seq<Seq<RollModel>>|
                #![trigger rolls_valid(rolls, old(self)@.width, old(self)@.height)]
                rolls_valid(rolls, old(self)@.width, old(self)@.height) && match user_event {
                    None => final(self)@ == scan(advanced(old(self)@), rolls),
                    Some(e) => brushed(scan(advanced(old(self)@), rolls), final(self)@, e),
                },
            user_event.is_none() && only_sand_water(old(self)@) ==> only_sand_water(final(self)@)
                && kinds(final(self)@).to_multiset() == kinds(old(self)@).to_multiset(),
            user_event.is_none() && only_sand_water(old(self)@) ==> forall|a: int, b: int|
                old(self)@.in_bounds(a, b) && (#[trigger] final(self)@.get(a, b)).kind == Kind::Sand
                    ==> sand_source(old(self)@, a, b),
            user_event.is_none() ==> forall|x: int, y: int|
                #[trigger] lone_spent_fire(advanced(old(self)@), x, y) ==> final(self)@ == advanced(
                    old(self)@,
                ).put(x, y, Particle::empty_spec()),
    {
        proof {
            use_type_invariant(&*self);
        }
        let mut world = World::new(0, 0);
        std::mem::swap(&mut world, &mut self.world);
        let clock: u8 = if world.clock() == 255 {
            0
        } else {
            world.clock() + 1
        };
        world.set_clock(clock);
        let ghost start = world@;
        assert(start == advanced(old(self)@));
        let width = world.width();
        let height = world.height();
        let ghost mut rolls: Seq<Seq<RollModel>> = Seq::empty();
        let mut y: i32 = 0;
        while y < height
            invariant
                0 <= y <= height,
                width == start.width,
                height == start.height,
                clock == start.clock,
                start.wf(),
                world@ == scan_rows(start, rolls, y as int),
                world@.wf(),
                world@.same_shape(start),
                rolls.len() == y,
                forall|j: int| 0 <= j < y ==> (#[trigger] rolls[j]).len() == width,
                forall|j: int, i: int| 0 <= j < y && 0 <= i < width ==> (#[trigger] rolls[j][i]).valid(),
            decreases height - y,
        {
            let ghost mut row: Seq<RollModel> = Seq::empty();
            let ghost row_start = world@;
            let mut i: i32 = 0;
            while i < width
                invariant
                    0 <= i <= width,
                    0 <= y < height,
                    width == start.width,
                    height == start.height,
                    clock == start.clock,
                    row_start == scan_rows(start, rolls, y as int),
                    row_start.same_shape(start),
                    world@ == scan_row(row_start, y as int, row, i as int),
                    world@.wf(),
                    world@.same_shape(start),
                    row.len() == i,
                    forall|k: int| 0 <= k < i ==> (#[trigger] row[k]).valid(),
                decreases width - i,
            {
                let x = if clock % 2 == 0 {
                    width - 1 - i
                } else {
                    i
                };
                let current = world.get(x, y);
                proof {
                    lemma_row_prefix(row_start, y as int, row, RollModel::idle(), i as int);
                }
                if current.kind == Kind::Empty || current.clock == clock {
                    proof {
                        row = row.push(RollModel::idle());
                    }
                } else {
                    let roll = Roll::draw(&current);
                    let view = WorldView::new(x, y);
                    proof {
                        lemma_row_prefix(row_start, y as int, row, roll@, i as int);
                        lemma_visit_wf(world@, x as int, y as int, roll@);
                    }
                    apply_rule(&mut world, &view, current, &roll);
                    proof {
                        row = row.push(roll@);
                    }
                }
                i = i + 1;
            }
            proof {
                lemma_rows_prefix(start, rolls, row, y as int);
                rolls = rolls.push(row);
            }
            y = y + 1;
        }
        assert(rolls_valid(rolls, old(self)@.width, old(self)@.height));
        proof {
            if only_sand_water(old(self)@) {
                assert(kinds(start) == kinds(old(self)@));
                lemma_scan_conserves(start, rolls);
                lemma_sand_moves_one_step(start, rolls);
                assert forall|a: int, b: int| #[trigger] sand_source(start, a, b) == sand_source(
                    old(self)@,
                    a,
                    b,
                ) by {}
            }
            assert forall|x: int, y: int| #[trigger] lone_spent_fire(start, x, y) implies scan(start, rolls)
                == start.put(x, y, Particle::empty_spec()) by {
                lemma_spent_fire_goes_out(start, rolls, x, y);
            }
        }
        match user_event {
            Some(e) => paint(&mut world, &e),
            None => {},
        }
        self.world = world;
    }
}

} // verus!
