//! What a plugin bundle looks like: where it goes and what it holds.
use vstd::prelude::*;

use crate::paths::{
    file_name, forward_slashes, has_file_name, join, to_forward_slashes, law_with_extension_names_file,
    lemma_file_in_subdir_within, lemma_file_name_trim, lemma_join_last_component, lemma_join_within,
    lemma_last_component, lemma_within_trans, owned, spec_file_name, spec_file_stem, spec_join,
    spec_with_extension, with_extension, within,
};
use crate::text::holds_char;
use crate::plist::{spec_info_plist_auv2, spec_info_plist_generic};
use crate::scan::PluginLibrary;
use crate::util::{arch_named, parent_or_current, AUv2Id, Architecture, OperatingSystem, PluginFormat};

pub use crate::plist::{info_plist_auv2, info_plist_generic};
pub use crate::version::parse_version_auv2;

verus! {

/// Which of the three AUv2 codes is at fault.
#[derive(Debug, Clone, Copy, PartialEq, Eq, Hash, Structural)]
pub enum Auv2CodeKind {
    Manufacturer,
    Subtype,
    Type,
}

/// Why a bundle cannot be made.
#[derive(Debug, Clone, PartialEq, Eq)]
pub enum BundleError {
    /// An AUv2 bundle was asked for a library without the AUv2 entry point.
    MissingAuv2Entry,
    /// A VST3 bundle was asked for a library without the VST3 entry point.
    MissingVst3Entry,
    /// The library holds no plugin.
    NoPlugins,
    /// The output path exists and may not be overwritten.
    OutputExists(String),
    /// An AUv2 bundle was asked for another OS than macOS.
    Auv2RequiresMacOS,
    /// The named plugin has no AUv2 identifier, or one of its codes is not text.
    InvalidAuv2Code(String, Auv2CodeKind),
    /// The output path has no file name to name the bundle executable after.
    InvalidOutputPath,
    /// An AUv2 identifier was given for a library with several plugins.
    Auv2OverrideNeedsSinglePlugin,
}

/// A [`BundleError`] with its texts as character sequences.
pub enum BundleFailure {
    MissingAuv2Entry,
    MissingVst3Entry,
    NoPlugins,
    OutputExists(Seq<char>),
    Auv2RequiresMacOS,
    InvalidAuv2Code(Seq<char>, Auv2CodeKind),
    InvalidOutputPath,
    Auv2OverrideNeedsSinglePlugin,
}

impl View for BundleError {
    type V = BundleFailure;

    open spec fn view(&self) -> BundleFailure {
        match self {
            BundleError::MissingAuv2Entry => BundleFailure::MissingAuv2Entry,
            BundleError::MissingVst3Entry => BundleFailure::MissingVst3Entry,
            BundleError::NoPlugins => BundleFailure::NoPlugins,
            BundleError::OutputExists(p) => BundleFailure::OutputExists(p@),
            BundleError::Auv2RequiresMacOS => BundleFailure::Auv2RequiresMacOS,
            BundleError::InvalidAuv2Code(n, k) => BundleFailure::InvalidAuv2Code(n@, *k),
            BundleError::InvalidOutputPath => BundleFailure::InvalidOutputPath,
            BundleError::Auv2OverrideNeedsSinglePlugin => BundleFailure::Auv2OverrideNeedsSinglePlugin,
        }
    }
}


impl BundleError {
    /// The human-readable message for this error.
    pub fn message(&self) -> (r: String)
        ensures
            r@ == self@.message(),
    {
        match self {
            BundleError::MissingAuv2Entry => String::from_str(
                "Plugin library does not contain an AUv2 entry point",
            ),
            BundleError::MissingVst3Entry => String::from_str(
                "Plugin library does not contain a VST3 entry point",
            ),
            BundleError::NoPlugins => String::from_str("Plugin library contains no plugins"),
            BundleError::OutputExists(p) => {
                let mut r = String::from_str("Output path ");
                r.append(p.as_str());
                r.append(" already exists");
                r
            },
            BundleError::Auv2RequiresMacOS => String::from_str("AUv2 is only supported on macOS"),
            BundleError::InvalidAuv2Code(n, k) => {
                let mut r = String::from_str("Plugin ");
                r.append(n.as_str());
                r.append(" has an invalid or missing AUv2 ");
                r.append(k.name());
                r.append(" code");
                r
            },
            BundleError::InvalidOutputPath => String::from_str("Invalid output path"),
            BundleError::Auv2OverrideNeedsSinglePlugin => String::from_str(
                "An AUv2 ID can only be given for a library that exports a single plugin",
            ),
        }
    }
}

impl Auv2CodeKind {
    /// The name of the code.
    pub fn name(&self) -> (r: &'static str)
        ensures
            r@ == self.spec_name(),
    {
        match self {
            Auv2CodeKind::Manufacturer => "manufacturer",
            Auv2CodeKind::Subtype => "subtype",
            Auv2CodeKind::Type => "type",
        }
    }

    pub open spec fn spec_name(&self) -> Seq<char> {
        match self {
            Auv2CodeKind::Manufacturer => "manufacturer"@,
            Auv2CodeKind::Subtype => "subtype"@,
            Auv2CodeKind::Type => "type"@,
        }
    }
}

impl BundleFailure {
    pub open spec fn message(&self) -> Seq<char> {
        match self {
            BundleFailure::MissingAuv2Entry => "Plugin library does not contain an AUv2 entry point"@,
            BundleFailure::MissingVst3Entry => "Plugin library does not contain a VST3 entry point"@,
            BundleFailure::NoPlugins => "Plugin library contains no plugins"@,
            BundleFailure::OutputExists(p) => "Output path "@ + *p + " already exists"@,
            BundleFailure::Auv2RequiresMacOS => "AUv2 is only supported on macOS"@,
            BundleFailure::InvalidAuv2Code(n, k) => "Plugin "@ + *n + " has an invalid or missing AUv2 "@
                + k.spec_name() + " code"@,
            BundleFailure::InvalidOutputPath => "Invalid output path"@,
            BundleFailure::Auv2OverrideNeedsSinglePlugin => "An AUv2 ID can only be given for a library that exports a single plugin"@,
        }
    }
}

/// The options of one bundle: the library, the format and the target platform.
#[derive(Debug, Clone)]
pub struct BundleOptions<'a> {
    pub dylib_path: &'a str,
    pub output_dir: &'a str,
    pub library: &'a PluginLibrary,
    pub format: PluginFormat,
    pub os: OperatingSystem,
    pub arch: Architecture,
    pub vst3_single_file: bool,
    pub overwrite_existing: bool,
    pub auv2_override_id: Option<AUv2Id>,
}

/// One thing to do on the file system to create a bundle.
#[derive(Debug, Clone, PartialEq, Eq)]
pub enum BundleStep {
    /// Create the directory and its missing parents.
    CreateDir(String),
    /// Write the text to the file.
    WriteFile(String, String),
    /// Copy (or reflink) the plugin library to the path.
    CopyLibrary(String),
}

/// A [`BundleStep`] with its texts as character sequences.
pub enum StepSpec {
    CreateDir(Seq<char>),
    WriteFile(Seq<char>, Seq<char>),
    CopyLibrary(Seq<char>),
}

impl View for BundleStep {
    type V = StepSpec;

    open spec fn view(&self) -> StepSpec {
        match self {
            BundleStep::CreateDir(p) => StepSpec::CreateDir(p@),
            BundleStep::WriteFile(p, t) => StepSpec::WriteFile(p@, t@),
            BundleStep::CopyLibrary(p) => StepSpec::CopyLibrary(p@),
        }
    }
}

/// The steps as character sequences.
pub open spec fn steps_view(steps: Seq<BundleStep>) -> Seq<StepSpec> {
    steps.map_values(|s: BundleStep| s@)
}

/// How a bundle is made: what to remove at the output path, the file system
/// steps that follow in order, and the error that ends the work after them.
#[derive(Debug, Clone, PartialEq, Eq)]
pub struct BundlePlan {
    pub removal: OutputRemoval,
    pub steps: Vec<BundleStep>,
    pub error: Option<BundleError>,
}

/// A [`BundlePlan`] with its texts as character sequences.
pub struct PlanSpec {
    pub removal: OutputRemoval,
    pub steps: Seq<StepSpec>,
    pub error: Option<BundleFailure>,
}

impl View for BundlePlan {
    type V = PlanSpec;

    open spec fn view(&self) -> PlanSpec {
        PlanSpec {
            removal: self.removal,
            steps: steps_view(self.steps@),
            error: match self.error {
                Some(e) => Some(e@),
                None => None,
            },
        }
    }
}

/// What is at the output path before the bundle is made.
#[derive(Debug, Clone, Copy, PartialEq, Eq, Hash, Structural)]
pub enum ExistingOutput {
    Absent,
    File,
    Directory,
}

/// What to remove before the bundle is made.
#[derive(Debug, Clone, Copy, PartialEq, Eq, Hash, Structural)]
pub enum OutputRemoval {
    Nothing,
    RemoveFile,
    RemoveDirectory,
}

/// The extension of a bundle of the format.
pub open spec fn format_extension(f: PluginFormat) -> Seq<char> {
    match f {
        PluginFormat::Clap => "clap"@,
        PluginFormat::Vst3 => "vst3"@,
        PluginFormat::Auv2 => "component"@,
    }
}

fn extension_of(f: PluginFormat) -> (r: &'static str)
    ensures
        r@ == format_extension(f),
{
    match f {
        PluginFormat::Clap => "clap",
        PluginFormat::Vst3 => "vst3",
        PluginFormat::Auv2 => "component",
    }
}

/// The directory of a VST3 bundle that holds the library for the platform.
pub open spec fn vst3_platform_dir(os: OperatingSystem, arch: Architecture) -> Seq<char> {
    match (os, arch) {
        (OperatingSystem::Windows, Architecture::X86) => "x86-win"@,
        (OperatingSystem::Windows, Architecture::X86_64) => "x86_64-win"@,
        (OperatingSystem::Windows, Architecture::Arm) => "arm-win"@,
        (OperatingSystem::Windows, Architecture::Aarch64) => "arm64-win"@,
        (OperatingSystem::Linux, Architecture::X86) => "i386-linux"@,
        (OperatingSystem::Linux, Architecture::X86_64) => "x86_64-linux"@,
        _ => "MacOS"@,
    }
}

/// Whether the VST3 layout knows a directory for the platform.
pub open spec fn vst3_platform_known(os: OperatingSystem, arch: Architecture) -> bool {
    !(os == OperatingSystem::Linux && (arch == Architecture::Arm || arch == Architecture::Aarch64))
}

fn platform_dir(os: OperatingSystem, arch: Architecture) -> (r: &'static str)
    requires
        vst3_platform_known(os, arch),
    ensures
        r@ == vst3_platform_dir(os, arch),
{
    match (os, arch) {
        (OperatingSystem::Windows, Architecture::X86) => "x86-win",
        (OperatingSystem::Windows, Architecture::X86_64) => "x86_64-win",
        (OperatingSystem::Windows, Architecture::Arm) => "arm-win",
        (OperatingSystem::Windows, Architecture::Aarch64) => "arm64-win",
        (OperatingSystem::Linux, Architecture::X86) => "i386-linux",
        (OperatingSystem::Linux, Architecture::X86_64) => "x86_64-linux",
        _ => "MacOS",
    }
}

/// The extension of the library inside a VST3 bundle on the OS.
pub open spec fn vst3_library_extension(os: OperatingSystem) -> Seq<char> {
    match os {
        OperatingSystem::Windows => "dll"@,
        OperatingSystem::Linux => "so"@,
        OperatingSystem::MacOS => Seq::empty(),
    }
}

fn library_extension(os: OperatingSystem) -> (r: &'static str)
    ensures
        r@ == vst3_library_extension(os),
{
    match os {
        OperatingSystem::Windows => "dll",
        OperatingSystem::Linux => "so",
        OperatingSystem::MacOS => {
            proof {
                reveal_strlit("");
                assert(""@ =~= Seq::<char>::empty());
            }
            ""
        },
    }
}

impl<'a> BundleOptions<'a> {
    /// The options the command line tool bundles a library with: the bundle
    /// goes into the directory that holds the library, whatever is already at
    /// the output path is overwritten, and a VST3 bundle on Windows is a single
    /// file unless a folder is asked for.
    pub fn from_command_line(
        dylib_path: &'a str,
        output_dir: &'a str,
        library: &'a PluginLibrary,
        format: PluginFormat,
        os: OperatingSystem,
        arch: Architecture,
        vst3_folder: bool,
        auv2_override_id: Option<AUv2Id>,
    ) -> (r: BundleOptions<'a>)
        requires
            output_dir@ == parent_or_current(dylib_path@),
        ensures
            r.dylib_path == dylib_path,
            r.output_dir == output_dir,
            r.output_dir@ == parent_or_current(r.dylib_path@),
            r.library == library,
            r.format == format,
            r.os == os,
            r.arch == arch,
            r.vst3_single_file == !vst3_folder,
            r.overwrite_existing,
            r.auv2_override_id == auv2_override_id,
    {
        BundleOptions {
            dylib_path,
            output_dir,
            library,
            format,
            os,
            arch,
            vst3_single_file: !vst3_folder,
            overwrite_existing: true,
            auv2_override_id,
        }
    }

    /// What keeps the library from being bundled in the format, if anything.
    pub open spec fn library_problem(&self) -> Option<BundleFailure> {
        if self.format == PluginFormat::Auv2 && !self.library.has_auv2_entry {
            Some(BundleFailure::MissingAuv2Entry)
        } else if self.format == PluginFormat::Vst3 && !self.library.has_vst3_entry {
            Some(BundleFailure::MissingVst3Entry)
        } else if self.library.plugins@.len() == 0 {
            Some(BundleFailure::NoPlugins)
        } else {
            None
        }
    }

    /// The first plugin's name read as a path on the target OS: on Windows,
    /// where `\` separates components as `/` does, each `\` is made a `/`.
    pub open spec fn spec_name_path(&self) -> Seq<char> {
        let name = self.library.plugins@[0].clap_name@;
        if self.os == OperatingSystem::Windows {
            forward_slashes(name)
        } else {
            name
        }
    }

    fn name_path(&self) -> (r: String)
        requires
            self.library.plugins@.len() > 0,
        ensures
            r@ == self.spec_name_path(),
    {
        let name = self.library.plugins[0].clap_name.as_str();
        if self.os == OperatingSystem::Windows {
            to_forward_slashes(name)
        } else {
            owned(name)
        }
    }

    /// The path of the bundle: the first plugin's name in the output
    /// directory, with the format's extension.
    pub open spec fn spec_output_path(&self) -> Seq<char> {
        spec_with_extension(spec_join(self.output_dir@, self.spec_name_path()), format_extension(self.format))
    }

    /// The path of the bundle, or why the library cannot be bundled in the
    /// format.
    pub fn output_path(&self) -> (r: Result<String, BundleError>)
        ensures
            match r {
                Ok(p) => self.library_problem() is None && p@ == self.spec_output_path(),
                Err(e) => self.library_problem() == Some(e@),
            },
    {
        if self.format == PluginFormat::Auv2 && !self.library.has_auv2_entry {
            return Err(BundleError::MissingAuv2Entry);
        }
        if self.format == PluginFormat::Vst3 && !self.library.has_vst3_entry {
            return Err(BundleError::MissingVst3Entry);
        }
        if self.library.plugins.len() == 0 {
            return Err(BundleError::NoPlugins);
        }
        let name = self.name_path();
        let joined = join(self.output_dir, name.as_str());
        Ok(with_extension(joined.as_str(), extension_of(self.format)))
    }

    /// What to do about what is already at the output path: nothing when it is
    /// absent, remove it when overwriting is allowed, an error otherwise.
    pub open spec fn spec_existing_output_action(&self, output_path: Seq<char>, existing: ExistingOutput) -> Result<
        OutputRemoval,
        BundleFailure,
    > {
        match existing {
            ExistingOutput::Absent => Ok(OutputRemoval::Nothing),
            ExistingOutput::File => if self.overwrite_existing {
                Ok(OutputRemoval::RemoveFile)
            } else {
                Err(BundleFailure::OutputExists(output_path))
            },
            ExistingOutput::Directory => if self.overwrite_existing {
                Ok(OutputRemoval::RemoveDirectory)
            } else {
                Err(BundleFailure::OutputExists(output_path))
            },
        }
    }

    /// What to do about what is already at the output path: nothing when it is
    /// absent, remove it when overwriting is allowed, an error otherwise.
    pub fn existing_output_action(&self, output_path: &str, existing: ExistingOutput) -> (r: Result<
        OutputRemoval,
        BundleError,
    >)
        ensures
            match (r, self.spec_existing_output_action(output_path@, existing)) {
                (Ok(a), Ok(b)) => a == b,
                (Err(e), Err(f)) => e@ == f,
                _ => false,
            },
    {
        match existing {
            ExistingOutput::Absent => Ok(OutputRemoval::Nothing),
            ExistingOutput::File => {
                if self.overwrite_existing {
                    Ok(OutputRemoval::RemoveFile)
                } else {
                    Err(BundleError::OutputExists(owned(output_path)))
                }
            },
            ExistingOutput::Directory => {
                if self.overwrite_existing {
                    Ok(OutputRemoval::RemoveDirectory)
                } else {
                    Err(BundleError::OutputExists(owned(output_path)))
                }
            },
        }
    }

    /// The `Info.plist` text of a macOS bundle.
    pub open spec fn spec_plist(&self) -> Result<Seq<char>, BundleFailure> {
        let plugin = self.library.plugins@[0];
        if self.format == PluginFormat::Auv2 {
            if self.auv2_override_id is Some && self.library.plugins@.len() != 1 {
                Err(BundleFailure::Auv2OverrideNeedsSinglePlugin)
            } else {
                spec_info_plist_auv2(plugin, *self.library, self.auv2_override_id)
            }
        } else {
            Ok(spec_info_plist_generic(plugin))
        }
    }

    /// The steps that lay out the bundle once the output path is clear, and
    /// the error that stops the work after them, if any. On macOS the
    /// directories and the two files are made before the bundle executable is
    /// named, so an output path without a file name fails after them.
    pub open spec fn spec_layout(&self) -> (Seq<StepSpec>, Option<BundleFailure>) {
        let out = self.spec_output_path();
        if self.os == OperatingSystem::MacOS {
            match self.spec_plist() {
                Err(e) => (Seq::empty(), Some(e)),
                Ok(text) => {
                    let made = seq![
                        StepSpec::CreateDir(out),
                        StepSpec::CreateDir(spec_join(out, "Contents/MacOS"@)),
                        StepSpec::WriteFile(spec_join(out, "Contents/PkgInfo"@), "BNDL????"@),
                        StepSpec::WriteFile(spec_join(out, "Contents/Info.plist"@), text),
                    ];
                    match spec_file_name(spec_with_extension(out, Seq::empty())) {
                        None => (made, Some(BundleFailure::InvalidOutputPath)),
                        Some(exe) => (
                            made.push(StepSpec::CopyLibrary(spec_join(spec_join(out, "Contents/MacOS"@), exe))),
                            None,
                        ),
                    }
                },
            }
        } else if self.format == PluginFormat::Auv2 {
            (Seq::empty(), Some(BundleFailure::Auv2RequiresMacOS))
        } else if self.format == PluginFormat::Clap || (self.os == OperatingSystem::Windows
            && self.vst3_single_file) {
            (seq![StepSpec::CopyLibrary(out)], None)
        } else {
            let dir = spec_join(spec_join(out, "Contents"@), vst3_platform_dir(self.os, self.arch));
            (
                seq![
                    StepSpec::CreateDir(out),
                    StepSpec::CreateDir(dir),
                    StepSpec::CopyLibrary(
                        spec_with_extension(spec_join(dir, self.spec_name_path()), vst3_library_extension(self.os)),
                    ),
                ],
                None,
            )
        }
    }

    /// The whole plan of a bundle, given what is at the output path: what to
    /// remove there, the steps that follow, and the error that ends the work
    /// after them, if any.
    pub open spec fn spec_bundle(&self, existing: ExistingOutput) -> PlanSpec {
        match self.library_problem() {
            Some(f) => PlanSpec { removal: OutputRemoval::Nothing, steps: Seq::empty(), error: Some(f) },
            None => match self.spec_existing_output_action(self.spec_output_path(), existing) {
                Err(e) => PlanSpec { removal: OutputRemoval::Nothing, steps: Seq::empty(), error: Some(e) },
                Ok(r) => {
                    let (steps, error) = self.spec_layout();
                    PlanSpec { removal: r, steps, error }
                },
            },
        }
    }

    /// The bundle's layout is known for the target: a VST3 bundle for Linux on
    /// ARM has none.
    pub open spec fn layout_known(&self) -> bool {
        self.library_problem() is None && self.os != OperatingSystem::MacOS && self.format
            == PluginFormat::Vst3 ==> vst3_platform_known(self.os, self.arch)
    }

    fn plist_text(&self) -> (r: Result<String, BundleError>)
        requires
            self.library.plugins@.len() > 0,
        ensures
            match (r, self.spec_plist()) {
                (Ok(s), Ok(t)) => s@ == t,
                (Err(e), Err(f)) => e@ == f,
                _ => false,
            },
    {
        let plugin = &self.library.plugins[0];
        if self.format == PluginFormat::Auv2 {
            if self.auv2_override_id.is_some() && self.library.plugins.len() != 1 {
                Err(BundleError::Auv2OverrideNeedsSinglePlugin)
            } else {
                info_plist_auv2(plugin, self.library, self.auv2_override_id)
            }
        } else {
            Ok(info_plist_generic(plugin))
        }
    }

    /// The steps that lay out the bundle, and the error that follows them.
    fn layout(&self) -> (r: (Vec<BundleStep>, Option<BundleError>))
        requires
            self.library_problem() is None,
            self.layout_known(),
        ensures
            steps_view(r.0@) == self.spec_layout().0,
            match (r.1, self.spec_layout().1) {
                (None, None) => true,
                (Some(e), Some(f)) => e@ == f,
                _ => false,
            },
    {
        let out = match self.output_path() {
            Ok(p) => p,
            Err(e) => return (Vec::new(), Some(e)),
        };
        let mut steps: Vec<BundleStep> = Vec::new();
        let mut error: Option<BundleError> = None;
        if self.os == OperatingSystem::MacOS {
            let text = match self.plist_text() {
                Ok(t) => t,
                Err(e) => {
                    assert(steps_view(steps@) =~= Seq::<StepSpec>::empty());
                    return (steps, Some(e));
                },
            };
            proof {
                reveal_strlit("");
                assert(""@ =~= Seq::<char>::empty());
            }
            let stem_path = with_extension(out.as_str(), "");
            let exe = file_name(stem_path.as_str());
            let macos_dir = join(out.as_str(), "Contents/MacOS");
            let pkg_info = join(out.as_str(), "Contents/PkgInfo");
            let info_plist = join(out.as_str(), "Contents/Info.plist");
            steps.push(BundleStep::CreateDir(out));
            steps.push(BundleStep::CreateDir(String::from_str(macos_dir.as_str())));
            steps.push(BundleStep::WriteFile(pkg_info, String::from_str("BNDL????")));
            steps.push(BundleStep::WriteFile(info_plist, text));
            match exe {
                Some(exe) => {
                    let target = join(macos_dir.as_str(), exe.as_str());
                    steps.push(BundleStep::CopyLibrary(target));
                },
                None => {
                    error = Some(BundleError::InvalidOutputPath);
                },
            }
        } else if self.format == PluginFormat::Auv2 {
            error = Some(BundleError::Auv2RequiresMacOS);
        } else if self.format == PluginFormat::Clap || (self.os == OperatingSystem::Windows
            && self.vst3_single_file) {
            steps.push(BundleStep::CopyLibrary(out));
        } else {
            let contents = join(out.as_str(), "Contents");
            let dir = join(contents.as_str(), platform_dir(self.os, self.arch));
            let name = self.name_path();
            let named = join(dir.as_str(), name.as_str());
            let target = with_extension(named.as_str(), library_extension(self.os));
            steps.push(BundleStep::CreateDir(out));
            steps.push(BundleStep::CreateDir(dir));
            steps.push(BundleStep::CopyLibrary(target));
        }
        proof {
            assert(steps_view(steps@) =~= self.spec_layout().0);
        }
        (steps, error)
    }

    /// The plan of the bundle, given what is at the output path: what to
    /// remove there first, the file system steps in order, and the error that
    /// ends the work after those steps, if any.
    pub fn bundle(&self, existing: ExistingOutput) -> (r: BundlePlan)
        requires
            self.layout_known(),
        ensures
            r@ == self.spec_bundle(existing),
    {
        let out = match self.output_path() {
            Ok(p) => p,
            Err(e) => {
                let r = BundlePlan { removal: OutputRemoval::Nothing, steps: Vec::new(), error: Some(e) };
                assert(steps_view(r.steps@) =~= Seq::<StepSpec>::empty());
                return r;
            },
        };
        let removal = match self.existing_output_action(out.as_str(), existing) {
            Ok(r) => r,
            Err(e) => {
                let r = BundlePlan { removal: OutputRemoval::Nothing, steps: Vec::new(), error: Some(e) };
                assert(steps_view(r.steps@) =~= Seq::<StepSpec>::empty());
                return r;
            },
        };
        let (steps, error) = self.layout();
        BundlePlan { removal, steps, error }
    }
}

/// What a bundle needs of the library: an AUv2 bundle the AUv2 entry point, a
/// VST3 bundle the VST3 entry point, a CLAP bundle neither, and every bundle a
/// plugin. So a library with a plugin can always be bundled as CLAP.
pub proof fn law_bundle_needs_entry_points<'a>(opts: BundleOptions<'a>)
    ensures
        opts.library_problem() == Some(BundleFailure::MissingVst3Entry) <==> (opts.format
            == PluginFormat::Vst3 && !opts.library.has_vst3_entry),
        opts.library_problem() == Some(BundleFailure::MissingAuv2Entry) <==> (opts.format
            == PluginFormat::Auv2 && !opts.library.has_auv2_entry),
        opts.library_problem() == Some(BundleFailure::NoPlugins) ==> opts.library.plugins@.len() == 0,
        opts.library_problem() is None ==> opts.library.plugins@.len() > 0,
        opts.format == PluginFormat::Clap ==> (opts.library_problem() is None <==> opts.library.plugins@.len()
            > 0),
{
}

/// On Windows and Linux, each architecture with a VST3 layout has a directory
/// of its own in the bundle.
pub proof fn law_vst3_platform_dirs_differ(os: OperatingSystem, a: Architecture, b: Architecture)
    requires
        os != OperatingSystem::MacOS,
        vst3_platform_known(os, a),
        vst3_platform_known(os, b),
        a != b,
    ensures
        vst3_platform_dir(os, a) != vst3_platform_dir(os, b),
{
    reveal_strlit("x86-win");
    reveal_strlit("x86_64-win");
    reveal_strlit("arm-win");
    reveal_strlit("arm64-win");
    reveal_strlit("i386-linux");
    reveal_strlit("x86_64-linux");
    let da = vst3_platform_dir(os, a);
    let db = vst3_platform_dir(os, b);
    if da.len() == db.len() {
        assert(da[0] != db[0] || da[3] != db[3]);
    }
}

/// The VST3 directory of a platform names its architecture: on Windows the
/// Rust `target_arch` name followed by `-win` (with `aarch64` called
/// `arm64`), on Linux `x86_64-linux` for `x86_64` and `i386-linux` for `x86`.
pub proof fn law_vst3_platform_dir_names_arch(target_arch: Seq<char>, a: Architecture)
    requires
        arch_named(target_arch) == Some(a),
    ensures
        a != Architecture::Aarch64 ==> vst3_platform_dir(OperatingSystem::Windows, a) == target_arch
            + "-win"@,
        a == Architecture::Aarch64 ==> vst3_platform_dir(OperatingSystem::Windows, a) == "arm64"@
            + "-win"@,
        a == Architecture::X86_64 ==> vst3_platform_dir(OperatingSystem::Linux, a) == target_arch
            + "-linux"@,
        a == Architecture::X86 ==> vst3_platform_dir(OperatingSystem::Linux, a) == "i386"@ + "-linux"@,
{
    reveal_strlit("x86");
    reveal_strlit("x86_64");
    reveal_strlit("arm");
    reveal_strlit("aarch64");
    reveal_strlit("arm64");
    reveal_strlit("i386");
    reveal_strlit("-win");
    reveal_strlit("-linux");
    reveal_strlit("x86-win");
    reveal_strlit("x86_64-win");
    reveal_strlit("arm-win");
    reveal_strlit("arm64-win");
    reveal_strlit("i386-linux");
    reveal_strlit("x86_64-linux");
    assert("x86"@ + "-win"@ =~= "x86-win"@);
    assert("x86_64"@ + "-win"@ =~= "x86_64-win"@);
    assert("arm"@ + "-win"@ =~= "arm-win"@);
    assert("arm64"@ + "-win"@ =~= "arm64-win"@);
    assert("i386"@ + "-linux"@ =~= "i386-linux"@);
    assert("x86_64"@ + "-linux"@ =~= "x86_64-linux"@);
}

/// A bundle is named after its first plugin: its file name is the stem of the
/// plugin's name, read as a path on the target OS, followed by the format's
/// extension, when that path is relative and has a file name.
pub proof fn law_bundle_named_after_plugin<'a>(opts: BundleOptions<'a>)
    requires
        opts.library_problem() is None,
        has_file_name(opts.spec_name_path()),
        !(opts.spec_name_path().len() > 0 && opts.spec_name_path()[0] == '/'),
    ensures
        spec_file_name(opts.spec_output_path()) == Some(
            spec_file_stem(opts.spec_name_path()) + seq!['.'] + format_extension(opts.format),
        ),
{
    let name = opts.spec_name_path();
    let q = spec_join(opts.output_dir@, name);
    lemma_last_component(name);
    lemma_file_name_trim(name);
    lemma_join_last_component(opts.output_dir@, name);
    assert(has_file_name(q));
    assert(spec_file_stem(q) == spec_file_stem(name));
    let ext = format_extension(opts.format);
    reveal_strlit("clap");
    reveal_strlit("vst3");
    reveal_strlit("component");
    assert(ext.len() > 0);
    assert(!holds_char(ext, '/'));
    law_with_extension_names_file(q, ext);
}

/// The path a step works on.
pub open spec fn step_path(s: StepSpec) -> Seq<char> {
    match s {
        StepSpec::CreateDir(p) => p,
        StepSpec::WriteFile(p, _) => p,
        StepSpec::CopyLibrary(p) => p,
    }
}

/// Everything a bundle creates lies within its output path, when the first
/// plugin's name, read as a path on the target OS, is relative.
pub proof fn law_bundle_stays_inside<'a>(opts: BundleOptions<'a>)
    requires
        opts.library_problem() is None,
        !(opts.spec_name_path().len() > 0 && opts.spec_name_path()[0] == '/'),
    ensures
        forall|i: int|
            0 <= i < opts.spec_layout().0.len() ==> within(
                #[trigger] step_path(opts.spec_layout().0[i]),
                opts.spec_output_path(),
            ),
{
    let out = opts.spec_output_path();
    let name = opts.spec_name_path();
    assert(within(out, out)) by {
        assert(out.take(out.len() as int) =~= out);
    }
    reveal_strlit("Contents/MacOS");
    reveal_strlit("Contents/PkgInfo");
    reveal_strlit("Contents/Info.plist");
    reveal_strlit("Contents");
    {
        if opts.os == OperatingSystem::MacOS {
            let macos = spec_join(out, "Contents/MacOS"@);
            lemma_join_within(out, "Contents/MacOS"@);
            lemma_join_within(out, "Contents/PkgInfo"@);
            lemma_join_within(out, "Contents/Info.plist"@);
            if let Some(exe) = spec_file_name(spec_with_extension(out, Seq::empty())) {
                lemma_last_component(spec_with_extension(out, Seq::empty()));
                assert(exe[0] != '/') by {
                    if exe[0] == '/' {
                        assert(holds_char(exe, '/'));
                    }
                }
                lemma_join_within(macos, exe);
                lemma_within_trans(spec_join(macos, exe), macos, out);
            }
        } else if opts.format == PluginFormat::Vst3 && !(opts.os == OperatingSystem::Windows
            && opts.vst3_single_file) {
            let contents = spec_join(out, "Contents"@);
            lemma_join_within(out, "Contents"@);
            let tag = vst3_platform_dir(opts.os, opts.arch);
            reveal_strlit("x86-win");
            reveal_strlit("x86_64-win");
            reveal_strlit("arm-win");
            reveal_strlit("arm64-win");
            reveal_strlit("i386-linux");
            reveal_strlit("x86_64-linux");
            reveal_strlit("MacOS");
            assert(tag.len() > 0);
            assert(!holds_char(tag, '/'));
            assert(tag.last() != '.');
            assert(contents.len() > 0 && contents.last() != '/');
            lemma_join_within(contents, tag);
            lemma_within_trans(spec_join(contents, tag), contents, out);
            lemma_file_in_subdir_within(contents, tag, name, vst3_library_extension(opts.os));
            lemma_within_trans(
                spec_with_extension(spec_join(spec_join(contents, tag), name), vst3_library_extension(opts.os)),
                contents,
                out,
            );
        }
    }
}

/// With overwriting allowed, whatever is at the output path is removed: a
/// file as a file, a directory with all it holds.
pub proof fn law_overwrite_removes_existing<'a>(
    opts: BundleOptions<'a>,
    output_path: Seq<char>,
    existing: ExistingOutput,
)
    requires
        opts.overwrite_existing,
    ensures
        opts.spec_existing_output_action(output_path, existing) == Ok::<OutputRemoval, BundleFailure>(
            match existing {
                ExistingOutput::Absent => OutputRemoval::Nothing,
                ExistingOutput::File => OutputRemoval::RemoveFile,
                ExistingOutput::Directory => OutputRemoval::RemoveDirectory,
            },
        ),
{
}

} // verus!
