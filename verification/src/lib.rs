//! A keyboard-driven terminal menu: a bounds-safe layout engine that turns a
//! rectangular region and a list of entries into draw commands, a renderer
//! plan that clips those commands to the live surface, and the state machine
//! that drives the draw/poll cycle and resolves key presses to a selection.

pub mod commands;
pub mod events;
pub mod geometry;
pub mod layout;
pub mod menu;
pub mod render;
pub mod tasks;
