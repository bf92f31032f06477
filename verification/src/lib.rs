//! Desktop environment utilities: the app catalog and registry, clipboard,
//! crash tracking, developer tools, extensions, plugins, packages, logging,
//! profiling, the SDK surface, directory listings and window animation.

pub mod text;
pub mod search;
pub mod keyed;

pub mod app_query;
pub mod app_catalog;
pub mod app_db;
pub mod app_registry;
pub mod clipboard_service;
pub mod crash_diagnostics;
pub mod crash_manager;
pub mod developer;
pub mod extension;
pub mod plugin;
pub mod package;
pub mod log;
pub mod profiler;
pub mod sdk;
pub mod vfs;
pub mod window;
