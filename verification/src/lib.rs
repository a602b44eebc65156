//! A verified core for a terminal user-interface toolkit: styles, CSS-like
//! parsing, layout constraints, widget identity, navigation and event logic.

pub mod text;
pub mod style;
pub mod layout;
pub mod css;
pub mod theme;
pub mod navigation;
pub mod event;
pub mod keyboard;
pub mod geometry;
pub mod interactive;
pub mod widget_id;
pub mod tag;
pub mod lifecycle;
pub mod spacer;
pub mod handler;
pub mod width;
pub mod widget_state;
pub mod checkbox;
pub mod choice;
pub mod checkbox_group;
pub mod radio;
pub mod button;
pub mod list;
pub mod select;
pub mod code_block;
pub mod divider;
pub mod label;
pub mod dialog;
pub mod table;
pub mod tabs;
pub mod widgets;
pub mod text_input;
pub mod textarea;
pub mod tree;
pub mod progress;
pub mod any;
pub mod tree_view;
pub mod enhanced;
