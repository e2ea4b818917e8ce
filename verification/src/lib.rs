//! Simulation core of a small top-down arcade shooter.
//!
//! The heart of it is collision detection: the geometry of boxes and the
//! separating-axis test (`geometry`), a spatial hash that sorts the boxes
//! into the bins of a grid (`spatial_hash`, with the bin size from
//! `bin_size`), detection on the boxes that share a bin (`detection`, with
//! its results in `collisions`), and the engine that tells handlers of what
//! was detected (`collision_system`, `handler`).
//!
//! Around it are the entities and their store (`entity`, `shape`, `world`),
//! the rules of the game and what happens in a frame (`rules`,
//! `game_logic`), the levels (`levels`), and the decisions of the program
//! that runs it all (`engine`, `render`, `text`). `helpers` holds what is
//! of use anywhere.
//!
//! Shapes here move but do not turn, and times are whole milliseconds.

pub mod bin_size;
pub mod collision_system;
pub mod collisions;
pub mod detection;
pub mod engine;
pub mod entity;
pub mod game_logic;
pub mod geometry;
pub mod handler;
pub mod helpers;
pub mod levels;
pub mod render;
pub mod rules;
pub mod shape;
pub mod spatial_hash;
pub mod text;
pub mod world;
