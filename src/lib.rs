//! Structural layout reports for composite types: total size, alignment and
//! the byte offset and nested layout of every field, sorted in memory order,
//! with a plain-text table rendering.

mod decimal;
mod model;
mod render;
mod resolve;

pub use decimal::{dec_seq, decimal, digit_char};
pub use model::{Field, Layout, LayoutInfo};
pub use render::{
    centered, fill, header_text, left_aligned, lemma_render_determined, render_text, row_text,
    rows_text, rule_text, same_row_values, title_text, type_cell,
};
pub use resolve::{
    arrange_fields, arranges, describes, field_name, leaf, lemma_fields_within_bounds,
    lemma_nested_layouts_kept, lemma_positional_names, named_by_position, resolve, resolve_type,
    resolves, shape_fields, sorted_by_offset, stable_sorted_fields, FieldShape, Shape,
};
