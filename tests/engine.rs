use sandbox::color::Color;
use sandbox::gui::GuiState;
use sandbox::particle::{Extra, Kind, Particle, MAX_ENERGY};
use sandbox::rules::{
    apply_rule, count_plants, growth_offsets_vec, update_fire, update_plant, update_sand,
    update_water, Roll,
};
use sandbox::sandbox::{Sandbox, UserEvent};
use sandbox::world::{World, WorldView};

fn kinds_of(world: &World) -> Vec<Kind> {
    world.cells().iter().map(|p| p.kind).collect()
}

fn sandbox_kind(sandbox: &Sandbox, x: i32, y: i32) -> Kind {
    sandbox.get(x, y).kind
}

fn count(sandbox: &Sandbox, kind: Kind) -> usize {
    sandbox.world().iter().filter(|p| p.kind == kind).count()
}

fn paint(x: i32, y: i32, kind: Kind, size: u32) -> Option<UserEvent> {
    Some(UserEvent { x, y, kind, size })
}

#[test]
fn kind_values_follow_declaration_order() {
    assert_eq!(Kind::Sand.value(), 0);
    assert_eq!(Kind::Plant.value(), 1);
    assert_eq!(Kind::Fire.value(), 2);
    assert_eq!(Kind::Water.value(), 3);
    assert_eq!(Kind::Empty.value(), 4);
    assert_eq!(Kind::OutOfBounds.value(), 5);
    assert_eq!(Particle::new(Kind::Water).get_kind(), 3);
}

#[test]
fn reads_off_the_grid_are_out_of_bounds() {
    let world = World::new(3, 2);
    for (x, y) in [(-1, 0), (3, 0), (0, -1), (0, 2), (i32::MIN, i32::MAX)] {
        assert_eq!(world.get(x, y).kind, Kind::OutOfBounds);
        assert!(world.is_out_of_bounds(x, y));
    }
    assert_eq!(world.get(2, 1).kind, Kind::Empty);
    let sandbox = Sandbox::new(3, 2);
    assert_eq!(sandbox.get(-1, 1).kind, Kind::OutOfBounds);
}

#[test]
fn writes_off_the_grid_change_nothing() {
    let mut world = World::new(3, 2);
    world.set(1, 1, Particle::new(Kind::Sand));
    let before: Vec<Particle> = world.cells().to_vec();
    for (x, y) in [(-1, 0), (3, 0), (0, -1), (0, 2), (i32::MAX, 0)] {
        world.set(x, y, Particle::new(Kind::Water));
    }
    assert_eq!(world.cells().to_vec(), before);
}

#[test]
fn writes_stamp_the_current_tick() {
    let mut world = World::new(2, 2);
    world.set_clock(7);
    let mut p = Particle::new(Kind::Sand);
    p.clock = 99;
    world.set(1, 0, p);
    assert_eq!(world.get(1, 0).get_clock(), 7);
    assert_eq!(world.get_index(1, 1), 3);
    assert_eq!(world.get_index(1, 0), 1);
}

#[test]
fn grid_is_row_major() {
    let mut world = World::new(3, 2);
    world.set(2, 0, Particle::new(Kind::Sand));
    world.set(0, 1, Particle::new(Kind::Water));
    let kinds = kinds_of(&world);
    assert_eq!(kinds[2], Kind::Sand);
    assert_eq!(kinds[3], Kind::Water);
    assert_eq!(world.get_index(0, 1), 3);
}

#[test]
fn energy_is_clamped_into_range() {
    let plant = Particle::new(Kind::Plant);
    assert_eq!(plant.energy(), MAX_ENERGY);
    assert_eq!(plant.with_energy(150).energy(), 100);
    assert_eq!(plant.with_energy(-5).energy(), 0);
    assert_eq!(plant.with_energy(42).energy(), 42);
    let sandbox = {
        let mut s = Sandbox::new(4, 4);
        s.tick(paint(1, 1, Kind::Fire, 1));
        s.tick(paint(2, 2, Kind::Plant, 1));
        for _ in 0..30 {
            s.tick(None);
        }
        s
    };
    for p in sandbox.world() {
        assert!(p.energy() <= MAX_ENERGY);
        assert_ne!(p.kind, Kind::OutOfBounds);
    }
}

#[test]
fn fresh_extras_start_with_their_kind_energy() {
    assert_eq!(Extra::from(Kind::Sand).energy, 0);
    assert_eq!(Extra::from(Kind::Plant).energy, 100);
    assert_eq!(Extra::from(Kind::Fire).energy, 100);
    assert_eq!(Extra::from(Kind::Water).energy, 100);
    assert_eq!(Extra::from(Kind::Fire).color, Color { r: 200, g: 0, b: 0 });
    assert_eq!(Extra::from(Kind::Water).color, Color { r: 0, g: 0, b: 200 });
    assert_eq!(Extra::from(Kind::Empty).color, Color { r: 0, g: 0, b: 0 });
}

#[test]
fn sand_color_is_jittered_near_its_base() {
    let base = Color { r: 237, g: 201, b: 175 };
    let mut differs = false;
    for _ in 0..64 {
        let c = Extra::from(Kind::Sand).color;
        assert!((c.r as i32 - base.r as i32).abs() <= 32);
        assert!((c.g as i32 - base.g as i32).abs() <= 32);
        assert!((c.b as i32 - base.b as i32).abs() <= 32);
        if c != base {
            differs = true;
        }
    }
    assert!(differs);
}

#[test]
fn fire_color_follows_its_energy() {
    let fire = Particle::new(Kind::Fire);
    let dimmer = fire.with_energy(50);
    assert_ne!(dimmer.extra.color, fire.extra.color);
    assert_eq!(dimmer.extra.color.g, 0);
    assert_eq!(dimmer.extra.color.b, 0);
    let sand = Particle::new(Kind::Sand);
    assert_eq!(sand.with_energy(50).extra.color, sand.extra.color);
}

#[test]
fn sand_and_water_are_conserved_without_events() {
    let mut sandbox = Sandbox::new(9, 6);
    sandbox.tick(paint(1, 1, Kind::Sand, 1));
    sandbox.tick(paint(7, 1, Kind::Water, 1));
    let sand = count(&sandbox, Kind::Sand);
    let water = count(&sandbox, Kind::Water);
    assert_eq!(sand, 9);
    assert_eq!(water, 9);
    for _ in 0..20 {
        sandbox.tick(None);
        assert_eq!(count(&sandbox, Kind::Sand), sand);
        assert_eq!(count(&sandbox, Kind::Water), water);
        assert_eq!(count(&sandbox, Kind::Sand) + count(&sandbox, Kind::Water) + count(&sandbox, Kind::Empty), 54);
    }
}

#[test]
fn sand_falls_one_row_per_tick() {
    let mut sandbox = Sandbox::new(1, 5);
    sandbox.tick(paint(0, 0, Kind::Sand, 0));
    assert_eq!(sandbox_kind(&sandbox, 0, 0), Kind::Sand);
    sandbox.tick(None);
    assert_eq!(sandbox_kind(&sandbox, 0, 0), Kind::Empty);
    assert_eq!(sandbox_kind(&sandbox, 0, 1), Kind::Sand);
    for y in 2..5 {
        assert_eq!(sandbox_kind(&sandbox, 0, y), Kind::Empty);
    }
}

#[test]
fn a_moved_particle_is_not_visited_again_in_the_same_tick() {
    let mut sandbox = Sandbox::new(1, 5);
    sandbox.tick(paint(0, 0, Kind::Sand, 0));
    for step in 1..5 {
        sandbox.tick(None);
        for y in 0..5 {
            let expected = if y == step { Kind::Sand } else { Kind::Empty };
            assert_eq!(sandbox_kind(&sandbox, 0, y), expected);
        }
    }
    sandbox.tick(None);
    assert_eq!(sandbox_kind(&sandbox, 0, 4), Kind::Sand);
}

#[test]
fn brush_paints_a_square() {
    let mut sandbox = Sandbox::new(5, 5);
    sandbox.tick(paint(2, 2, Kind::Water, 1));
    for y in 0..5 {
        for x in 0..5 {
            let inside = (1..=3).contains(&x) && (1..=3).contains(&y);
            let expected = if inside { Kind::Water } else { Kind::Empty };
            assert_eq!(sandbox_kind(&sandbox, x, y), expected);
        }
    }
    assert_eq!(sandbox.get(2, 2).energy(), 100);
}

#[test]
fn brush_is_clipped_at_the_edges() {
    let mut sandbox = Sandbox::new(4, 3);
    sandbox.tick(paint(0, 0, Kind::Plant, 1));
    assert_eq!(count(&sandbox, Kind::Plant), 4);
    let mut big = Sandbox::new(3, 3);
    big.tick(paint(1, 1, Kind::Sand, u32::MAX));
    assert_eq!(count(&big, Kind::Sand), 9);
    let mut off = Sandbox::new(3, 3);
    off.tick(paint(-10, 1, Kind::Sand, 2));
    assert_eq!(count(&off, Kind::Empty), 9);
    let mut sentinel = Sandbox::new(3, 3);
    sentinel.tick(paint(1, 1, Kind::OutOfBounds, 1));
    assert_eq!(count(&sentinel, Kind::Empty), 9);
}

#[test]
fn spent_fire_goes_out() {
    let mut world = World::new(3, 3);
    world.set(1, 1, Particle::new(Kind::Fire).with_energy(0));
    world.set(2, 1, Particle::new(Kind::Plant));
    let view = WorldView::new(1, 1);
    let current = world.get(1, 1);
    update_fire(&mut world, &view, current, 1, 0);
    assert_eq!(world.get(1, 1).kind, Kind::Empty);
    assert_eq!(world.get(2, 1).kind, Kind::Plant);
    assert_eq!(world.get(2, 1).energy(), 100);
}

#[test]
fn fire_burns_down_then_goes_out() {
    let mut sandbox = Sandbox::new(1, 1);
    sandbox.tick(paint(0, 0, Kind::Fire, 0));
    assert_eq!(sandbox.get(0, 0).energy(), 100);
    for left in (0..10).rev() {
        sandbox.tick(None);
        assert_eq!(sandbox_kind(&sandbox, 0, 0), Kind::Fire);
        assert_eq!(sandbox.get(0, 0).energy(), left * 10);
    }
    sandbox.tick(None);
    assert_eq!(sandbox_kind(&sandbox, 0, 0), Kind::Empty);
}

#[test]
fn fire_spreads_into_empty_cells_and_plants() {
    let mut world = World::new(3, 3);
    world.set(1, 1, Particle::new(Kind::Fire));
    let view = WorldView::new(1, 1);
    let current = world.get(1, 1);
    update_fire(&mut world, &view, current, 1, 1);
    assert_eq!(world.get(1, 1).energy(), 90);
    assert_eq!(world.get(2, 2).kind, Kind::Fire);
    assert_eq!(world.get(2, 2).energy(), 90);

    let mut world = World::new(3, 3);
    world.set(1, 1, Particle::new(Kind::Fire).with_energy(30));
    world.set(0, 1, Particle::new(Kind::Plant));
    let current = world.get(1, 1);
    update_fire(&mut world, &view, current, -1, 0);
    assert_eq!(world.get(1, 1).energy(), 20);
    assert_eq!(world.get(0, 1).kind, Kind::Fire);
    assert_eq!(world.get(0, 1).energy(), 100);

    let mut world = World::new(3, 3);
    world.set(1, 1, Particle::new(Kind::Fire));
    world.set(1, 0, Particle::new(Kind::Sand));
    let current = world.get(1, 1);
    update_fire(&mut world, &view, current, 0, -1);
    assert_eq!(world.get(1, 0).kind, Kind::Sand);
    let current = world.get(1, 1);
    update_fire(&mut world, &view, current, 0, 0);
    assert_eq!(world.get(1, 1).energy(), 80);
    assert_eq!(kinds_of(&world).iter().filter(|k| **k == Kind::Fire).count(), 1);
}

#[test]
fn crowded_plant_stops_growing() {
    let mut world = World::new(5, 5);
    for y in 0..5 {
        for x in 0..5 {
            world.set(x, y, Particle::new(Kind::Plant));
        }
    }
    let view = WorldView::new(2, 2);
    assert_eq!(count_plants(&world, &view), 24);
    let before = kinds_of(&world);
    let current = world.get(2, 2);
    update_plant(&mut world, &view, current, true, &growth_offsets_vec());
    assert_eq!(world.get(2, 2).energy(), 0);
    assert_eq!(world.get(2, 2).kind, Kind::Plant);
    assert_eq!(kinds_of(&world), before);
    for y in 0..5 {
        for x in 0..5 {
            if (x, y) != (2, 2) {
                assert_eq!(world.get(x, y).energy(), 100);
            }
        }
    }
}

#[test]
fn plant_with_room_for_children_keeps_growing() {
    let mut world = World::new(5, 5);
    for y in 0..5 {
        for x in 0..5 {
            if (x + y) % 4 != 0 {
                world.set(x, y, Particle::new(Kind::Plant));
            }
        }
    }
    let view = WorldView::new(2, 2);
    assert_eq!(count_plants(&world, &view), 18);
}

#[test]
fn plant_grows_into_the_first_open_offset() {
    let mut world = World::new(3, 3);
    world.set(1, 1, Particle::new(Kind::Plant));
    world.set(0, 0, Particle::new(Kind::Sand));
    let view = WorldView::new(1, 1);
    let order = vec![(-1, -1), (1, -1), (-1, 0), (1, 0), (0, -1)];
    let current = world.get(1, 1);
    update_plant(&mut world, &view, current, true, &order);
    assert_eq!(world.get(0, 0).kind, Kind::Sand);
    assert_eq!(world.get(2, 0).kind, Kind::Plant);
    assert_eq!(world.get(2, 0).energy(), 98);
    assert_eq!(world.get(1, 1).energy(), 0);
    assert_eq!(world.get(0, 1).kind, Kind::Empty);
}

#[test]
fn plant_drinks_water() {
    let mut world = World::new(3, 3);
    world.set(1, 1, Particle::new(Kind::Plant).with_energy(40));
    world.set(1, 0, Particle::new(Kind::Water));
    let view = WorldView::new(1, 1);
    let order = vec![(0, -1), (-1, 0)];
    let current = world.get(1, 1);
    update_plant(&mut world, &view, current, true, &order);
    assert_eq!(world.get(1, 0).kind, Kind::Plant);
    assert_eq!(world.get(1, 0).energy(), 100);
    assert_eq!(world.get(1, 1).energy(), 0);
    assert_eq!(world.get(0, 1).kind, Kind::Empty);
}

#[test]
fn plant_without_room_pays_half_the_cost() {
    let mut world = World::new(3, 2);
    world.set(1, 1, Particle::new(Kind::Plant).with_energy(50));
    world.set(0, 1, Particle::new(Kind::Sand));
    world.set(2, 1, Particle::new(Kind::Sand));
    world.set(0, 0, Particle::new(Kind::Sand));
    world.set(1, 0, Particle::new(Kind::Sand));
    world.set(2, 0, Particle::new(Kind::Sand));
    let view = WorldView::new(1, 1);
    let current = world.get(1, 1);
    update_plant(&mut world, &view, current, true, &growth_offsets_vec());
    assert_eq!(world.get(1, 1).energy(), 49);
    let current = world.get(1, 1);
    update_plant(&mut world, &view, current, false, &growth_offsets_vec());
    assert_eq!(world.get(1, 1).energy(), 49);
    let mut spent = World::new(3, 3);
    spent.set(1, 1, Particle::new(Kind::Plant).with_energy(0));
    let view = WorldView::new(1, 1);
    let current = spent.get(1, 1);
    update_plant(&mut spent, &view, current, true, &growth_offsets_vec());
    assert_eq!(kinds_of(&spent).iter().filter(|k| **k == Kind::Plant).count(), 1);
}

#[test]
fn sand_falls_down_then_sideways() {
    let mut world = World::new(3, 3);
    world.set(1, 0, Particle::new(Kind::Sand));
    let mut view = WorldView::new(1, 0);
    let current = world.get(1, 0);
    update_sand(&mut world, &view, current, 1);
    assert_eq!(world.get(1, 1).kind, Kind::Sand);
    assert_eq!(world.get(1, 0).kind, Kind::Empty);

    world.set(1, 2, Particle::new(Kind::Sand));
    view.set_viewport(1, 1);
    let current = world.get(1, 1);
    update_sand(&mut world, &view, current, -1);
    assert_eq!(world.get(0, 2).kind, Kind::Sand);
    assert_eq!(world.get(1, 1).kind, Kind::Empty);

    world.set(1, 1, Particle::new(Kind::Sand));
    world.set(2, 2, Particle::new(Kind::Water));
    let current = world.get(1, 1);
    update_sand(&mut world, &view, current, 1);
    assert_eq!(world.get(1, 1).kind, Kind::Sand);
    assert_eq!(world.get(2, 2).kind, Kind::Water);
}

#[test]
fn water_puts_out_fire() {
    let mut world = World::new(3, 3);
    world.set(1, 0, Particle::new(Kind::Water));
    world.set(1, 1, Particle::new(Kind::Fire));
    let view = WorldView::new(1, 0);
    let current = world.get(1, 0);
    update_water(&mut world, &view, current, 1);
    assert_eq!(world.get(1, 1).kind, Kind::Water);
    assert_eq!(world.get(1, 0).kind, Kind::Empty);
    assert!(!kinds_of(&world).contains(&Kind::Fire));

    let mut world = World::new(3, 3);
    world.set(1, 1, Particle::new(Kind::Sand));
    world.set(1, 2, Particle::new(Kind::Sand));
    world.set(0, 2, Particle::new(Kind::Fire));
    let view = WorldView::new(1, 1);
    update_water(&mut world, &view, Particle::new(Kind::Water), -1);
    assert_eq!(world.get(0, 2).kind, Kind::Water);
    assert_eq!(world.get(1, 1).kind, Kind::Empty);
}

#[test]
fn rolls_are_valid_draws() {
    let expected = growth_offsets_vec();
    for _ in 0..20 {
        let roll = Roll::draw(&Particle::new(Kind::Sand));
        assert!(roll.side == -1 || roll.side == 1);
        let roll = Roll::draw(&Particle::new(Kind::Fire));
        assert!((-1..=1).contains(&roll.spread_x) && (-1..=1).contains(&roll.spread_y));
        let roll = Roll::draw(&Particle::new(Kind::Plant).with_energy(0));
        assert!(!roll.grow);
        let roll = Roll::draw(&Particle::new(Kind::Plant));
        let mut sorted = roll.order.clone();
        sorted.sort();
        let mut base = expected.clone();
        base.sort();
        assert_eq!(sorted, base);
    }
}

#[test]
fn apply_rule_dispatches_by_kind() {
    let mut world = World::new(1, 3);
    world.set(0, 0, Particle::new(Kind::Water));
    let view = WorldView::new(0, 0);
    let roll = Roll { side: 1, spread_x: 0, spread_y: 0, grow: false, order: growth_offsets_vec() };
    let current = world.get(0, 0);
    apply_rule(&mut world, &view, current, &roll);
    assert_eq!(world.get(0, 1).kind, Kind::Water);
    let before = world.cells().to_vec();
    apply_rule(&mut world, &view, Particle::empty(), &roll);
    assert_eq!(world.cells().to_vec(), before);
}

#[test]
fn new_sandbox_is_empty() {
    let sandbox = Sandbox::new(4, 3);
    assert_eq!(sandbox.world().len(), 12);
    assert!(sandbox.world().iter().all(|p| *p == Particle::empty()));
    let none = Sandbox::new(0, 0);
    assert_eq!(none.world().len(), 0);
}

#[test]
fn gui_state_turns_keys_and_pointer_into_events() {
    let mut gui = GuiState::new();
    assert_eq!(gui.kind, Kind::Sand);
    assert_eq!(gui.size, 25);
    assert_eq!(gui.user_event(10, 10), None);
    gui.press_key('3', 100);
    assert_eq!(gui.kind, Kind::Fire);
    gui.press_key('e', 100);
    assert_eq!(gui.kind, Kind::Empty);
    gui.press_key('4', 100);
    gui.press_key('0', 100);
    assert_eq!(gui.kind, Kind::Empty);
    gui.press_key('1', 100);
    assert_eq!(gui.kind, Kind::Sand);
    gui.press_key('+', 26);
    gui.press_key('+', 26);
    assert_eq!(gui.size, 26);
    gui.press_key('x', 26);
    assert_eq!(gui.kind, Kind::Sand);
    gui.move_pointer(3, 4);
    gui.set_down(true);
    assert_eq!(gui.user_event(10, 10), Some(UserEvent { x: 3, y: 4, kind: Kind::Sand, size: 26 }));
    assert_eq!(gui.user_event(3, 10), None);
    gui.size = 2;
    gui.press_key('-', 26);
    gui.press_key('-', 26);
    assert_eq!(gui.size, 1);
}

#[test]
fn plant_rolls_vary() {
    let base = growth_offsets_vec();
    let full = Particle::new(Kind::Plant);
    let mut grew = 0;
    let mut reordered = false;
    for _ in 0..1000 {
        let roll = Roll::draw(&full);
        if roll.grow {
            grew += 1;
            if roll.order != base {
                reordered = true;
            }
        } else {
            assert_eq!(roll.order, base);
        }
    }
    assert!(grew > 0 && grew < 1000);
    assert!(reordered);
}
