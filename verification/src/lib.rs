//! Verified core of the Leon boot toolkit.
use vstd::prelude::*;

pub mod boot_config;
pub mod bytes;
pub mod cli_args;
pub mod cmd_tree;
pub mod crc;
pub mod discovery;
pub mod display;
pub mod dump;
pub mod fat;
pub mod fat_alloc;
pub mod fat_dir;
pub mod fat_image;
pub mod fat_names;
pub mod geometry;
pub mod firmware;
pub mod gpt;
pub mod help_index;
pub mod image_plan;
pub mod lbc_dispatch;
pub mod lbc_tree;
pub mod lbt_dispatch;
pub mod lbt_tree;
pub mod menu;
pub mod paths;
pub mod reports;
pub mod screen;
pub mod text;
pub mod tui_app;
pub mod tui_view;

verus! {

} // verus!
