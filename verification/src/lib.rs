//! The logic of a typing trainer for source code: text in colors, its
//! layout into a viewport, the glyph atlas and the geometry for a renderer,
//! and the bookkeeping of a typing session.
//!
//! Text is modeled by [`text`], laid out by [`surface`] with the glyphs of
//! [`atlas`] and the measures of [`font`], and turned into quads by
//! [`geometry`]. The views that the program shows are composed in
//! [`ui_blocks`], [`ui`] and [`screens`], and colored by [`syntax`]. What a
//! key does is decided in [`typing_handler`] on the state of [`code_state`];
//! [`progress_storage`] and [`progress_helper`] remember how far each file
//! was typed.
//!
//! The library neither reads files nor draws. Lengths are whole numbers of
//! 1/64 pixel and colors have whole channels, so that everything here can be
//! stated exactly.

pub mod atlas;
pub mod char_utils;
pub mod code_state;
pub mod color;
pub mod config;
pub mod font;
pub mod format;
pub mod geometry;
pub mod input;
pub mod progress_helper;
pub mod progress_storage;
pub mod screens;
pub mod session_state;
pub mod std_specs;
pub mod strings;
pub mod surface;
pub mod syntax;
pub mod text;
pub mod typing_handler;
pub mod ui;
pub mod ui_blocks;
