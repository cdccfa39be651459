//! A two-color raster-bitmap editor: a pixel grid with geometric drawing
//! operations, a textual command interpreter, and a session recorder that can
//! dump and replay command scripts.

pub mod image;
pub mod flood;
pub mod draw;
pub mod render;
pub mod text;
pub mod command;
pub mod session;
