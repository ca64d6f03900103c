//! Computed CSS styles and the declarations that change them.
pub mod types;
pub mod value;
pub mod grid;
pub mod keywords;
pub mod declaration;
pub mod border;
pub mod box_declaration;
pub mod flex;
pub mod typography;
pub mod shadow;
pub mod apply;
pub mod element;
pub mod text_style;
pub mod geometry;
