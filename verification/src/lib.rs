//! Terminal user interface building blocks: scrolling, text layout, ANSI
//! parsing, views and their events, and the components made of them.

pub mod ansi;
pub mod bidi;
pub mod border;
pub mod boxes;
pub mod button;
pub mod canvas;
pub mod checkbox;
pub mod context;
pub mod element;
pub mod error_boundary;
pub mod error_overview;
pub mod event;
pub mod event_dispatch;
pub mod focus_scope;
pub mod link;
pub mod math;
pub mod mixed_segments;
pub mod mixed_text;
pub mod raw_ansi;
pub mod raw_ansi_line;
pub mod render_loop;
pub mod retained;
pub mod scroll_box;
pub mod scroll_drain;
pub mod scroll_handle;
pub mod scroll_keys;
pub mod scroll_motion;
pub mod scroll_offset;
pub mod scroll_view;
pub mod segmented_string;
pub mod sgr;
pub mod strings;
pub mod style;
pub mod text;
pub mod text_wrap;
pub mod view;
pub mod view_context;
pub mod view_event;
pub mod view_props;
pub mod view_registry;
pub mod view_style;
pub mod virtual_scroll;
pub mod virtual_scroll_state;
pub mod wheel_accel;
pub mod whitespace;
