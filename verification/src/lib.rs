//! A small immediate-mode GUI toolkit core: integer geometry, a paint
//! surface that queues draw primitives, and a widget tree (labels, buttons,
//! stack layouts) that measures, draws and dispatches events over it.
//!
//! Lengths and positions are whole pixels (`i64`). Scale factors, corner
//! radii and border widths are in thousandths of a pixel, so a scale factor
//! of one is `SCALE_ONE` (1000). Text shaping is delegated to a font
//! backend; everything else is verified.

mod button;
mod color;
mod geometry;
mod host;
mod label;
mod stacks;
mod surface;
mod widget;

pub use button::Button;
pub use button::ButtonOptions;
pub use button::button_after_event;
pub use button::button_content_wh;
pub use button::button_event_effects;
pub use button::button_hitbox_spec;
pub use button::button_prims;
pub use button::button_size_spec;
pub use button::lemma_button_press_once;
pub use button::wf_button;
pub use color::Color;
pub use geometry::BBox;
pub use geometry::LEN_LIMIT;
pub use geometry::SCALE_LIMIT;
pub use geometry::SCALE_ONE;
pub use geometry::Vector2;
pub use geometry::compute_scale_factor;
pub use geometry::contains_spec;
pub use geometry::div2_trunc;
pub use geometry::div_i64;
pub use geometry::div_trunc;
pub use geometry::floor_sqrt;
pub use geometry::lemma_add_sub_cancel;
pub use geometry::lemma_contains_corners;
pub use geometry::lemma_from_wh_size_roundtrip;
pub use geometry::lemma_scale_len_bounds;
pub use geometry::lemma_tuple_roundtrip;
pub use geometry::scale_len;
pub use geometry::scale_len_spec;
pub use host::ButtonClickEvent;
pub use host::CursorIcon;
pub use host::GUIEvent;
pub use host::Host;
pub use label::Label;
pub use label::label_prims;
pub use label::label_px_spec;
pub use label::label_size_spec;
pub use label::lemma_label_size_range;
pub use label::wf_label;
pub use stacks::HorizontalStack;
pub use stacks::LayoutCommonOptions;
pub use stacks::VerticalStack;
pub use stacks::lemma_stack_size_bounds;
pub use stacks::stack_size_spec;
pub use stacks::wf_stack_options;
pub use surface::Primitive;
pub use surface::Quad;
pub use surface::TextRun;
pub use surface::UniversalBrush;
pub use surface::clamp_len;
pub use surface::text_dims;
pub use surface::text_size_spec;
pub use widget::CHILD_LIMIT;
pub use widget::Font;
pub use widget::FontWeight;
pub use widget::Globals;
pub use widget::NODE_LIMIT;
pub use widget::OFFSET_LIMIT;
pub use widget::SIZE_UNIT;
pub use widget::Widget;
pub use widget::children_event_rel;
pub use widget::ev_ok;
pub use widget::ev_pos;
pub use widget::event_widget_rel;
pub use widget::lemma_children_preserve_layout;
pub use widget::lemma_draw_measure_agree;
pub use widget::lemma_event_preserves_layout;
pub use widget::lemma_measure_idempotent;
pub use widget::lemma_size_bounds;
pub use widget::lemma_size_nonneg;
pub use widget::lemma_run_nonneg;
pub use widget::lemma_stack_case_nonneg;
pub use widget::nodes_seq;
pub use widget::nodes_spec;
pub use widget::off_ok;
pub use widget::off_ok_axis;
pub use widget::pos_ok;
pub use widget::scale_ok;
pub use widget::stack_event_effects;
pub use widget::stack_prims;
pub use widget::stack_run;
pub use widget::wf_children;
pub use widget::wf_widget;
pub use widget::widget_event_effects;
pub use widget::widget_prims;
pub use widget::widget_size;
