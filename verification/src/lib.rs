//! Widget logic of the Horizon Lattice toolkit: documents, editing history,
//! tab, table, tool bar and time models, with their contracts.

pub mod system_tray;
pub mod selection;
pub mod tab_bar;
pub mod tab_widget;
pub mod table_view;
pub mod table_widget;
pub mod timezone;
pub mod time_edit;
pub mod decimal;
pub mod tool_bar;
pub mod tool_box;
pub mod action;
pub mod text_edit;
pub mod text_edit_toolbar;
pub mod undo;
pub mod tool_button;
pub mod char_format;
pub mod lines;
pub mod style_runs;
pub mod styled_document;
pub mod utf8_text;
