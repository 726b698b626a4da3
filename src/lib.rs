//! The physics core of a ball-and-paddle arcade game.
//!
//! All quantities are fixed-point integers: lengths are thousandths of a
//! pixel, speeds are thousandths of a pixel per second, accelerations are
//! thousandths of a pixel per second squared, and time steps are
//! microseconds. Every step of the simulation is stated as a spec function
//! and the executable code is proved to compute exactly that.
pub mod objects;
pub mod geometry;
pub mod collision;
pub mod maps;
pub mod game;
pub mod scene;
