//! Local image conversion and optimization: format rules, output naming,
//! per-format encoding, context-menu registry layout and self-update decisions.

pub mod cli;
pub mod text;
pub mod pathname;
pub mod optimize;
pub mod convert;
pub mod pipeline;
pub mod context_menu;
pub mod expand;
pub mod update;
