//! The decisions of the command line tool.
use vstd::prelude::*;

use crate::paths::{file_name, join, spec_file_name, spec_join};

verus! {

/// Why the command line cannot be acted on.
#[derive(Debug, Clone, Copy, PartialEq, Eq, Hash, Structural)]
pub enum ArgumentError {
    /// No library was given.
    NoInputFiles,
    /// An AUv2 identifier was given together with several libraries.
    Auv2IdNeedsSingleLibrary,
}

impl ArgumentError {
    /// The human-readable message for this error.
    pub fn message(&self) -> (r: &'static str)
        ensures
            r@ == self.spec_message(),
    {
        match self {
            ArgumentError::NoInputFiles => "no input files provided",
            ArgumentError::Auv2IdNeedsSingleLibrary => "--auv2-id option can only be used when bundling a single plugin",
        }
    }

    pub open spec fn spec_message(&self) -> Seq<char> {
        match self {
            ArgumentError::NoInputFiles => "no input files provided"@,
            ArgumentError::Auv2IdNeedsSingleLibrary => "--auv2-id option can only be used when bundling a single plugin"@,
        }
    }
}

/// Checks the command line: at least one library must be given, and an AUv2
/// identifier only together with exactly one library.
pub fn check_arguments(library_count: usize, has_auv2_id: bool) -> (r: Result<(), ArgumentError>)
    ensures
        library_count == 0 ==> r == Err::<(), ArgumentError>(ArgumentError::NoInputFiles),
        library_count > 0 && has_auv2_id && library_count != 1 ==> r == Err::<(), ArgumentError>(
            ArgumentError::Auv2IdNeedsSingleLibrary,
        ),
        library_count > 0 && !(has_auv2_id && library_count != 1) ==> r is Ok,
{
    if library_count == 0 {
        Err(ArgumentError::NoInputFiles)
    } else if has_auv2_id && library_count != 1 {
        Err(ArgumentError::Auv2IdNeedsSingleLibrary)
    } else {
        Ok(())
    }
}

/// The exit status of a run: 100 when some library or bundle failed, 0 otherwise.
pub fn exit_status(failed: bool) -> (r: i32)
    ensures
        r == (if failed {
            100i32
        } else {
            0i32
        }),
{
    if failed {
        100
    } else {
        0
    }
}

/// Where a bundle is installed: in the plugin directory, under the bundle's
/// own file name; `None` when the bundle path has no file name.
pub fn install_path(bundle_path: &str, plugin_dir: &str) -> (r: Option<String>)
    ensures
        match spec_file_name(bundle_path@) {
            Some(f) => r matches Some(p) && p@ == spec_join(plugin_dir@, f),
            None => r is None,
        },
{
    match file_name(bundle_path) {
        Some(f) => Some(join(plugin_dir, f.as_str())),
        None => None,
    }
}

} // verus!
