use vstd::prelude::*;

pub mod container;
pub mod control_paint;
pub mod controls;
pub mod document;
pub mod flow;
pub mod focus;
pub mod grid_measure;
pub mod inline_measure;
pub mod intrinsic;
pub mod laws;
pub mod layout;
pub mod length;
pub mod line_fit;
pub mod measurement_cache;
pub mod media;
pub mod navigation;
pub mod number;
pub mod paint;
pub mod paint_order;
pub mod pointer;
pub mod position;
pub mod style;
pub mod styled_wrap;
pub mod svg_size;
pub mod text;
pub mod tokens;
pub mod unicode;
pub mod wrap;

verus! {
}
