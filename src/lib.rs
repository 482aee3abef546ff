//! A falling-sand cellular automaton: a grid of particles (sand, water,
//! plants and fire) advanced one tick at a time by per-kind rules.
//!
//! - `particle`: kinds, colors, energy, and the particle written in a cell.
//!   Energy is counted in hundredths, from `0` to `MAX_ENERGY`.
//! - `world`: the grid, its model `WorldModel`, and the focus-relative
//!   `WorldView` that rules read and write through. Reads off the grid see
//!   the out-of-bounds sentinel; writes off it do nothing; every write stamps
//!   the current tick.
//! - `rules`: one rule per kind, each taking its chance draws (`Roll`) as
//!   arguments and specified exactly by a spec function of the grid.
//! - `sandbox`: the scheduler. Each tick scans rows from the top, alternating
//!   the direction along a row with the tick's parity, skips empty cells and
//!   cells already written this tick, and paints the user's brush last.
//!   Water treats a fire as room both below and to the side.
//! - `gui`: the pointer and key state that a host turns into brush events.
//! - `color` and `random`: the calls into `colors_transform` and `rand`.

pub mod color;
pub mod particle;
mod random;
pub mod world;
pub mod rules;
pub mod sandbox;
pub mod gui;
