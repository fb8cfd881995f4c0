//! Rendering of directory entries for a terminal: ANSI text styles, the
//! type and permission glyphs of a file, byte sizes with magnitude prefixes
//! and the colour chosen for an entry's name.

pub mod text;
pub mod colours;
pub mod size;
pub mod entry;
pub mod option;
pub mod listing;
pub mod escapes;
