//! Loading of plugins from dynamic libraries at run time.
//!
//! A module is a dynamic library that exports one well-known entry point. The
//! loader opens the library image, has the entry point produce the plugin
//! object, and keeps image and object together in one handle, so that the
//! object's code stays mapped for as long as the object can be reached.
//!
//! [`dyn_api`] holds the entry-point contract, the handle and the loading of a
//! single module. [`mod_loader`] holds the scan of a directory of modules and
//! the registry that the scan fills.
//!
//! Resolving the entry point in an image and calling it cannot be checked: a
//! module whose export has another signature than the declared one corrupts
//! the process. That step is therefore never made here. The loader takes it as
//! a function from its caller, hands it the opened image and the symbol name,
//! and decides on what comes back.

pub mod dyn_api;
pub mod mod_loader;

pub use crate::dyn_api::{
    create_rdyn_sym_str, debug_with, load_opened, load_rdyn_plugin, RustDynPlugin,
    CREATE_RDYN_SYM_NAME,
};
pub use crate::mod_loader::{
    candidate_paths, integrate_loaded, load_mod, load_mods, ModEntry, ModLoaderData, ModScan, ScanAction,
    ScanView,
};
