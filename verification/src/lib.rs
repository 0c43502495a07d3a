//! The rules of a Space Invaders game: the menu and its tabs, the settings a
//! player can change, the layout of the alien fleet, and the decisions taken
//! once per frame. Drawing, input polling and the floating-point physics of
//! the playfield live in the program around this library.

pub mod menu;
pub mod settings;
pub mod fleet;
pub mod alive;
pub mod hits;
pub mod game;
