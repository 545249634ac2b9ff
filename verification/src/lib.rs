//! The verified core of x-desk, a desktop wallpaper orchestrator for
//! Windows: the wallpaper configuration and the settings window's rules,
//! which docks are occluded, how desktop events turn into refreshes and
//! resets, the docks and their content processes, the command lines and
//! pipe protocol of those processes, what the web view shows, and the text,
//! number, path and UTF-16 handling that all of it is stated over.
pub mod args;
pub mod config;
pub mod content;
pub mod desktop;
pub mod docks;
pub mod hooks;
pub mod hyperlink;
pub mod main_ui;
pub mod main_window;
pub mod numbers;
pub mod occlusion;
pub mod single_instance;
pub mod text;
pub mod theme;
pub mod vec_util;
pub mod video_config;
pub mod watcher;
pub mod webview;
pub mod wide_string;
pub mod win_path;
