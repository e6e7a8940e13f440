//! Turns a directory listing of image files into the source text of an
//! `Icon` enum whose variants name the files, with a `path` method that maps
//! each variant back to its file.
pub mod accents;
pub mod catalog;
pub mod enum_text;
pub mod icons;
pub mod laws;
pub mod path_parts;
pub mod text;

pub use catalog::Icon;
pub use enum_text::{assemble_enum_text, create_enum_text, normalize_path};
pub use icons::{is_valid_icon, remove_extension, sanitize_filename, sanitize_stem};
