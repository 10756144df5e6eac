//! Simulation core of a tick-driven, grid-based dig-and-chase platform game.
pub mod ai;
pub mod buttons;
pub mod config;
pub mod entity;
pub mod event;
pub mod level;
pub mod levelfile;
pub mod lifecycle;
pub mod physics;
pub mod rules;
pub mod save;
pub mod savefile;
pub mod step;
pub mod tile;
pub mod world;
