//! World generation on a terminal: a tile map coloured by noise generators,
//! a menu of scenes with selectable buttons, and the decisions of the main loop.
pub mod text;
pub mod clock;
pub mod map;
pub mod terminal;
