//! Bundling of CLAP plugin libraries into OS- and format-specific plugin
//! bundles (CLAP, VST3 and AUv2).
//!
//! The library decides what a bundle looks like: its output path, the
//! directories and files to create, the generated `Info.plist` text, the
//! parsing of AUv2 identifiers and of version strings, and where libraries
//! and plugin directories are found. Performing the file system work is left
//! to the caller.

pub mod bundle;
pub mod cli;
pub mod paths;
pub mod plist;
pub mod scan;
pub mod text;
pub mod tree;
pub mod util;
pub mod version;
pub mod xml;

pub use bundle::{BundleError, BundleOptions, BundlePlan, BundleStep, ExistingOutput, OutputRemoval};
pub use scan::{clap_plugin_info_as_auv2, PluginInfo, PluginLibrary};
pub use util::{AUv2Id, AUv2IdError, Architecture, OperatingSystem, PlatformError, PluginFormat};
