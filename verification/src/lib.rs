//! Game rules and bookkeeping of a networked asteroid shooter: toroidal chunk
//! maps, shadow copies of objects near the map's seams, spawn placement,
//! ship shapes, client and bot registries, console commands and menus.

pub mod outside;
pub mod text;
pub mod ship;
pub mod world;
pub mod puppets;
pub mod components;
pub mod clients;
pub mod maps;
pub mod bots;
pub mod spawning;
pub mod asteroids;
pub mod visibility;
pub mod sync;
pub mod combat;
pub mod console;
pub mod menu;
pub mod labels;
