//! The engine of a turn-based dungeon crawler.
//!
//! The game state is one value that every subsystem works on: a world
//! store with one table for each kind of component, the map, the message
//! log, and what a turn needs to keep track of. On it work the field of
//! view, which is computed by shadowcasting; the damage and death pipeline,
//! which removes the dead only when a turn is over; the turn scheduler; and
//! the stack of interactive modes, which turns input events into turns and
//! says what is to be drawn.
//!
//! Windows, input devices and renderers are not part of the engine: it
//! takes input events and hands out layouts and lists of draw calls.

pub mod bitgrid;
pub mod clear_view;
pub mod components;
pub mod damage;
pub mod gamekey;
pub mod geometry;
pub mod map;
pub mod message;
pub mod modes;
pub mod monster;
pub mod movement;
pub mod render;
pub mod rng;
pub mod spawn;
pub mod state;
pub mod text;
pub mod turn;
pub mod ui;
pub mod vision;
pub mod world;
