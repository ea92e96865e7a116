use vstd::prelude::*;

pub mod color;
pub mod small_list;
pub mod ids;
pub mod reactive;
pub mod text;
pub mod hyprland;
pub mod sys_info;
pub mod theme;
pub mod window;
pub mod image;
pub mod asset_loader;
pub mod image_cache;
pub mod widgets;
pub mod workspaces;
pub mod image_widget;
pub mod tray;
pub mod pulse;
pub mod static_ptr;
pub mod monitor;
pub mod tray_watcher;
pub mod client;
pub mod loader_cache;
pub mod workspace_reply;
