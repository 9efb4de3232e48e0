//! Verified policy core of a desktop compositor.

pub mod actions;
pub mod appmenu;
pub mod bbox;
pub mod buttons;
pub mod calendar;
pub mod capture;
pub mod clients;
pub mod commit;
pub mod cursor;
pub mod debug;
pub mod decoration;
pub mod dmabuf;
pub mod dock;
pub mod drag;
pub mod focus;
pub mod frame;
pub mod hotkeys;
pub mod idle;
pub mod ipc;
pub mod keyboard;
pub mod layer_shell;
pub mod menu;
pub mod num;
pub mod order;
pub mod outputs;
pub mod panel;
pub mod pixels;
pub mod popup;
pub mod positioner;
pub mod presentation;
pub mod render;
pub mod requests;
pub mod resize;
pub mod rows;
pub mod scene;
pub mod screencopy;
pub mod session_lock;
pub mod shell;
pub mod snap;
pub mod state;
pub mod surface;
pub mod surface_import;
pub mod surface_tree;
pub mod text;
pub mod theme;
pub mod tray;
pub mod wallpaper;
pub mod window_items;
pub mod windows;
pub mod xdg_shell;
pub mod xwayland;
