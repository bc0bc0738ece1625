//! Simulation core of a small tower-defense game: a player, the towers it
//! places, monsters that hunt the player or its towers, and the bullets the
//! towers fire. Positions are fixed-point integers (see `geometry`) and time is
//! counted in whole milliseconds, so every rule of the game is exact.
//! `world::World::tick` advances the whole simulation by one frame.

pub mod geometry;
pub mod entity;
pub mod targeting;
pub mod world;
pub mod render;
