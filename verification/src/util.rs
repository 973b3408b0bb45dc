use vstd::prelude::*;

use crate::paths::{
    ends_in_dot_component, file_name, join, law_join_keeps_file_name, law_parent_of_join,
    lemma_last_component, lemma_plain_name, owned,
    parent, spec_file_name, spec_join, spec_parent, spec_with_extension, with_extension,
};
use crate::text::{
    after_first, before_first, holds_char, index_of_from, lemma_no_split, lemma_split_at_first,
    same_text,
};
use vstd::utf8::encode_utf8;

verus! {

/// The plugin formats a bundle can be made for.
#[derive(Debug, Clone, Copy, PartialEq, Eq, Hash, Structural)]
pub enum PluginFormat {
    Clap,
    Vst3,
    Auv2,
}

/// The operating systems the bundler knows how to lay out bundles for.
#[derive(Debug, Clone, Copy, PartialEq, Eq, Hash, Structural)]
pub enum OperatingSystem {
    Windows,
    MacOS,
    Linux,
}

/// The processor architectures the bundler knows about.
#[derive(Debug, Clone, Copy, PartialEq, Eq, Hash, Structural)]
pub enum Architecture {
    X86,
    X86_64,
    Arm,
    Aarch64,
}

/// The target platform is not one the bundler supports.
#[derive(Debug, Clone, Copy, PartialEq, Eq, Hash, Structural)]
pub enum PlatformError {
    UnsupportedArchitecture,
    UnsupportedOperatingSystem,
}

impl PlatformError {
    /// The human-readable message for this error.
    pub fn message(&self) -> (r: &'static str)
        ensures
            r@ == self.spec_message(),
    {
        match self {
            PlatformError::UnsupportedArchitecture => "Unsupported architecture",
            PlatformError::UnsupportedOperatingSystem => "Unsupported operating system",
        }
    }

    pub open spec fn spec_message(&self) -> Seq<char> {
        match self {
            PlatformError::UnsupportedArchitecture => "Unsupported architecture"@,
            PlatformError::UnsupportedOperatingSystem => "Unsupported operating system"@,
        }
    }
}

/// The architecture named by a Rust `target_arch` value, if the bundler supports it.
pub open spec fn arch_named(target_arch: Seq<char>) -> Option<Architecture> {
    if target_arch == "x86"@ {
        Some(Architecture::X86)
    } else if target_arch == "x86_64"@ {
        Some(Architecture::X86_64)
    } else if target_arch == "arm"@ {
        Some(Architecture::Arm)
    } else if target_arch == "aarch64"@ {
        Some(Architecture::Aarch64)
    } else {
        None
    }
}

/// The operating system named by a Rust `target_os` value, if the bundler supports it.
pub open spec fn os_named(target_os: Seq<char>) -> Option<OperatingSystem> {
    if target_os == "windows"@ {
        Some(OperatingSystem::Windows)
    } else if target_os == "macos"@ {
        Some(OperatingSystem::MacOS)
    } else if target_os == "linux"@ {
        Some(OperatingSystem::Linux)
    } else {
        None
    }
}

impl Architecture {
    /// The architecture of the build target whose `target_arch` value is given
    /// (for the running program, `std::env::consts::ARCH`), or an error if the
    /// architecture is not supported.
    pub fn current(target_arch: &str) -> (r: Result<Architecture, PlatformError>)
        ensures
            r == (match arch_named(target_arch@) {
                Some(a) => Ok(a),
                None => Err(PlatformError::UnsupportedArchitecture),
            }),
    {
        if same_text(target_arch, "x86") {
            Ok(Architecture::X86)
        } else if same_text(target_arch, "x86_64") {
            Ok(Architecture::X86_64)
        } else if same_text(target_arch, "arm") {
            Ok(Architecture::Arm)
        } else if same_text(target_arch, "aarch64") {
            Ok(Architecture::Aarch64)
        } else {
            Err(PlatformError::UnsupportedArchitecture)
        }
    }
}

impl OperatingSystem {
    /// The operating system of the build target whose `target_os` value is
    /// given (for the running program, `std::env::consts::OS`), or an error if
    /// the operating system is not supported.
    pub fn current(target_os: &str) -> (r: Result<OperatingSystem, PlatformError>)
        ensures
            r == (match os_named(target_os@) {
                Some(o) => Ok(o),
                None => Err(PlatformError::UnsupportedOperatingSystem),
            }),
    {
        if same_text(target_os, "windows") {
            Ok(OperatingSystem::Windows)
        } else if same_text(target_os, "macos") {
            Ok(OperatingSystem::MacOS)
        } else if same_text(target_os, "linux") {
            Ok(OperatingSystem::Linux)
        } else {
            Err(PlatformError::UnsupportedOperatingSystem)
        }
    }
}


impl PluginFormat {
    /// The display name of the format.
    pub fn name(&self) -> (r: &'static str)
        ensures
            r@ == self.spec_name(),
    {
        match self {
            PluginFormat::Clap => "CLAP",
            PluginFormat::Vst3 => "VST3",
            PluginFormat::Auv2 => "AUv2",
        }
    }

    pub open spec fn spec_name(&self) -> Seq<char> {
        match self {
            PluginFormat::Clap => "CLAP"@,
            PluginFormat::Vst3 => "VST3"@,
            PluginFormat::Auv2 => "AUv2"@,
        }
    }
}

/// The file name the operating system gives a dynamic library called `name`.
pub open spec fn spec_os_dylib_filename(name: Seq<char>, os: OperatingSystem) -> Seq<char> {
    match os {
        OperatingSystem::Windows => name + ".dll"@,
        OperatingSystem::MacOS => "lib"@ + name + ".dylib"@,
        OperatingSystem::Linux => "lib"@ + name + ".so"@,
    }
}

/// The file name the operating system gives a dynamic library called `name`:
/// `name.dll`, `libname.dylib` or `libname.so`.
pub fn os_dylib_filename(name: &str, os: OperatingSystem) -> (r: String)
    ensures
        r@ == spec_os_dylib_filename(name@, os),
{
    match os {
        OperatingSystem::Windows => {
            let mut r = String::from_str(name);
            r.append(".dll");
            r
        },
        OperatingSystem::MacOS => {
            let mut r = String::from_str("lib");
            r.append(name);
            r.append(".dylib");
            r
        },
        OperatingSystem::Linux => {
            let mut r = String::from_str("lib");
            r.append(name);
            r.append(".so");
            r
        },
    }
}

/// The parent of `p`, or `.` when it has none.
pub open spec fn parent_or_current(p: Seq<char>) -> Seq<char> {
    match spec_parent(p) {
        Some(q) => q,
        None => "."@,
    }
}

/// The parent of `p`, or `.` when it has none: the directory that holds the
/// library at `p`, where its bundles are written.
pub fn parent_or_current_dir(p: &str) -> (r: String)
    ensures
        r@ == parent_or_current(p@),
{
    match parent(p) {
        Some(q) => q,
        None => String::from_str("."),
    }
}

/// The bundles of a library are written into the directory that holds it: a
/// library file named inside a directory path (one that ends neither in `/`
/// nor in a `.` component) has that directory as its output directory.
pub proof fn law_bundles_go_next_to_library(dir: Seq<char>, file: Seq<char>)
    requires
        dir.len() > 0,
        dir.last() != '/',
        !ends_in_dot_component(dir),
        file.len() > 0,
        !holds_char(file, '/'),
        file != seq!['.'],
    ensures
        parent_or_current(spec_join(dir, file)) == dir,
{
    law_parent_of_join(dir, file);
}

/// The path of the library that a path given as a bare name stands for: the
/// file name of `path` without its extension, with the OS-specific library
/// prefix and suffix, in the directory of `path`.
pub open spec fn spec_dylib_candidate(path: Seq<char>, os: OperatingSystem) -> Option<Seq<char>> {
    match spec_file_name(spec_with_extension(path, Seq::empty())) {
        Some(f) => Some(spec_join(parent_or_current(path), spec_os_dylib_filename(f, os))),
        None => None,
    }
}

/// The path of the library that a path given as a bare name stands for
/// (`my_plugin` becomes `libmy_plugin.so` on Linux), when the path has a file
/// name.
pub fn dylib_candidate(path: &str, os: OperatingSystem) -> (r: Option<String>)
    ensures
        r matches Some(c) ==> spec_dylib_candidate(path@, os) == Some(c@),
        r is None ==> spec_dylib_candidate(path@, os) is None,
{
    let stem_path = with_extension(path, "");
    proof {
        reveal_strlit("");
        assert(""@ =~= Seq::<char>::empty());
    }
    match file_name(stem_path.as_str()) {
        Some(f) => {
            let dir = parent_or_current_dir(path);
            let lib = os_dylib_filename(f.as_str(), os);
            Some(join(dir.as_str(), lib.as_str()))
        },
        None => None,
    }
}

/// Resolves a library path given on the command line: when `path` does not
/// exist but the library it names with the OS-specific prefix and suffix
/// (see [`dylib_candidate`]) does, that path; otherwise `path` itself.
/// `path_exists` and `candidate_exists` say whether `path` and the candidate
/// exist on disk.
pub fn fix_dylib_path(path: &str, os: OperatingSystem, path_exists: bool, candidate_exists: bool) -> (r: String)
    ensures
        r@ == (match spec_dylib_candidate(path@, os) {
            Some(c) => if path_exists || !candidate_exists {
                path@
            } else {
                c
            },
            None => path@,
        }),
{
    match dylib_candidate(path, os) {
        Some(c) => {
            if path_exists || !candidate_exists {
                owned(path)
            } else {
                c
            }
        },
        None => owned(path),
    }
}

/// The global plugin directory of `format` on `os`, below the user's home
/// directory (`home`) or, on Windows, below the local application data
/// directory (`local_app_data`); `None` where the format has no such
/// directory or the base directory is unknown.
pub open spec fn spec_os_plugin_dir(
    format: PluginFormat,
    os: OperatingSystem,
    home: Option<Seq<char>>,
    local_app_data: Option<Seq<char>>,
) -> Option<Seq<char>> {
    let (base, sub) = match (format, os) {
        (PluginFormat::Clap, OperatingSystem::Windows) => (local_app_data, "Programs/Common/CLAP/"@),
        (PluginFormat::Clap, OperatingSystem::MacOS) => (home, "Library/Audio/Plug-Ins/CLAP/"@),
        (PluginFormat::Clap, OperatingSystem::Linux) => (home, ".clap/"@),
        (PluginFormat::Vst3, OperatingSystem::Windows) => (local_app_data, "Programs/Common/VST3/"@),
        (PluginFormat::Vst3, OperatingSystem::MacOS) => (home, "Library/Audio/Plug-Ins/VST3/"@),
        (PluginFormat::Vst3, OperatingSystem::Linux) => (home, ".vst3/"@),
        (PluginFormat::Auv2, OperatingSystem::MacOS) => (home, "Library/Audio/Plug-Ins/Components/"@),
        (PluginFormat::Auv2, _) => (None, Seq::empty()),
    };
    match base {
        Some(b) => Some(spec_join(b, sub)),
        None => None,
    }
}

/// The text of an optional string slice.
pub open spec fn text_view(o: Option<&str>) -> Option<Seq<char>> {
    match o {
        Some(s) => Some(s@),
        None => None,
    }
}

fn join_under(base: Option<&str>, sub: &str) -> (r: Option<String>)
    ensures
        r matches Some(s) ==> base matches Some(b) && s@ == spec_join(b@, sub@),
        r is None ==> base is None,
{
    match base {
        Some(b) => Some(join(b, sub)),
        None => None,
    }
}

/// The OS-specific global plugin directory for `format`, given the home
/// directory and, for Windows, the local application data directory.
pub fn os_plugin_dir(
    format: PluginFormat,
    os: OperatingSystem,
    home: Option<&str>,
    local_app_data: Option<&str>,
) -> (r: Option<String>)
    ensures
        r matches Some(s) ==> spec_os_plugin_dir(
            format,
            os,
            text_view(home),
            text_view(local_app_data),
        ) == Some(s@),
        r is None ==> spec_os_plugin_dir(
            format,
            os,
            text_view(home),
            text_view(local_app_data),
        ) is None,
{
    match (format, os) {
        (PluginFormat::Clap, OperatingSystem::Windows) => join_under(local_app_data, "Programs/Common/CLAP/"),
        (PluginFormat::Clap, OperatingSystem::MacOS) => join_under(home, "Library/Audio/Plug-Ins/CLAP/"),
        (PluginFormat::Clap, OperatingSystem::Linux) => join_under(home, ".clap/"),
        (PluginFormat::Vst3, OperatingSystem::Windows) => join_under(local_app_data, "Programs/Common/VST3/"),
        (PluginFormat::Vst3, OperatingSystem::MacOS) => join_under(home, "Library/Audio/Plug-Ins/VST3/"),
        (PluginFormat::Vst3, OperatingSystem::Linux) => join_under(home, ".vst3/"),
        (PluginFormat::Auv2, OperatingSystem::MacOS) => join_under(home, "Library/Audio/Plug-Ins/Components/"),
        (PluginFormat::Auv2, _) => None,
    }
}


/// An AUv2 component identifier: three four-byte codes.
#[derive(Debug, Clone, Copy, PartialEq, Eq)]
pub struct AUv2Id {
    pub manufacturer: [u8; 4],
    pub subtype: [u8; 4],
    pub type_: [u8; 4],
}

/// Why a `type:subt:manu` text is not an AUv2 identifier.
#[derive(Debug, Clone, Copy, PartialEq, Eq, Hash, Structural)]
pub enum AUv2IdError {
    TypeLength,
    MissingSubtype,
    SubtypeLength,
    MissingManufacturer,
    ManufacturerLength,
}

impl AUv2IdError {
    /// The human-readable message for this error.
    pub fn message(&self) -> (r: &'static str)
        ensures
            r@ == self.spec_message(),
    {
        match self {
            AUv2IdError::TypeLength => "Type code must be 4 characters",
            AUv2IdError::MissingSubtype => "Missing subtype code",
            AUv2IdError::SubtypeLength => "Subtype code must be 4 characters",
            AUv2IdError::MissingManufacturer => "Missing manufacturer code",
            AUv2IdError::ManufacturerLength => "Manufacturer code must be 4 characters",
        }
    }

    pub open spec fn spec_message(&self) -> Seq<char> {
        match self {
            AUv2IdError::TypeLength => "Type code must be 4 characters"@,
            AUv2IdError::MissingSubtype => "Missing subtype code"@,
            AUv2IdError::SubtypeLength => "Subtype code must be 4 characters"@,
            AUv2IdError::MissingManufacturer => "Missing manufacturer code"@,
            AUv2IdError::ManufacturerLength => "Manufacturer code must be 4 characters"@,
        }
    }
}

/// The codes of an AUv2 identifier written `type:subt:manu`, as the UTF-8
/// bytes of the type, subtype and manufacturer; each must be four bytes long.
/// Text after a third `:` is ignored.
pub open spec fn spec_parse_auv2_id(s: Seq<char>) -> Result<(Seq<u8>, Seq<u8>, Seq<u8>), AUv2IdError> {
    let t = encode_utf8(before_first(s, ':'));
    if t.len() != 4 {
        Err(AUv2IdError::TypeLength)
    } else {
        match after_first(s, ':') {
            None => Err(AUv2IdError::MissingSubtype),
            Some(r1) => {
                let st = encode_utf8(before_first(r1, ':'));
                if st.len() != 4 {
                    Err(AUv2IdError::SubtypeLength)
                } else {
                    match after_first(r1, ':') {
                        None => Err(AUv2IdError::MissingManufacturer),
                        Some(r2) => {
                            let m = encode_utf8(before_first(r2, ':'));
                            if m.len() != 4 {
                                Err(AUv2IdError::ManufacturerLength)
                            } else {
                                Ok((t, st, m))
                            }
                        },
                    }
                }
            },
        }
    }
}

/// Whether `id` holds the codes `codes` (type, subtype, manufacturer).
pub open spec fn id_has_codes(id: AUv2Id, codes: (Seq<u8>, Seq<u8>, Seq<u8>)) -> bool {
    &&& id.type_@ == codes.0
    &&& id.subtype@ == codes.1
    &&& id.manufacturer@ == codes.2
}

/// The four-byte code between `start` and the next `:` (or the end), and
/// where that segment ends.
fn code_segment(s: &str, start: usize, err: AUv2IdError) -> (r: Result<([u8; 4], usize), AUv2IdError>)
    requires
        start <= s@.len(),
    ensures
        ({
            let rest = s@.skip(start as int);
            let seg = encode_utf8(before_first(rest, ':'));
            match r {
                Ok((code, end)) => {
                    &&& seg.len() == 4
                    &&& code@ == seg
                    &&& start <= end <= s@.len()
                    &&& end == s@.len() <==> after_first(rest, ':') is None
                    &&& end < s@.len() ==> after_first(rest, ':') == Some(s@.skip(end + 1))
                },
                Err(e) => e == err && seg.len() != 4,
            }
        }),
{
    let end = index_of_from(s, start, ':');
    let part = s.substring_char(start, end);
    let ghost rest = s@.skip(start as int);
    assert(part@ =~= before_first(rest, ':'));
    let bytes = part.as_bytes();
    if bytes.len() != 4 {
        return Err(err);
    }
    let code: [u8; 4] = [bytes[0], bytes[1], bytes[2], bytes[3]];
    assert(code@ =~= bytes@);
    proof {
        if end < s@.len() {
            assert(rest.skip(end - start + 1) =~= s@.skip(end + 1));
        }
    }
    Ok((code, end))
}

impl AUv2Id {
    /// Parses an AUv2 identifier written `type:subt:manu`, each code being
    /// four bytes of UTF-8 text.
    pub fn from_str(s: &str) -> (r: Result<AUv2Id, AUv2IdError>)
        ensures
            match (r, spec_parse_auv2_id(s@)) {
                (Ok(id), Ok(codes)) => id_has_codes(id, codes),
                (Err(e), Err(f)) => e == f,
                _ => false,
            },
    {
        let n = s.unicode_len();
        let (type_, e1) = match code_segment(s, 0, AUv2IdError::TypeLength) {
            Ok(x) => x,
            Err(e) => {
                assert(s@.skip(0) =~= s@);
                return Err(e);
            },
        };
        assert(s@.skip(0) =~= s@);
        if e1 == n {
            return Err(AUv2IdError::MissingSubtype);
        }
        let (subtype, e2) = match code_segment(s, e1 + 1, AUv2IdError::SubtypeLength) {
            Ok(x) => x,
            Err(e) => return Err(e),
        };
        if e2 == n {
            return Err(AUv2IdError::MissingManufacturer);
        }
        let (manufacturer, _e3) = match code_segment(s, e2 + 1, AUv2IdError::ManufacturerLength) {
            Ok(x) => x,
            Err(e) => return Err(e),
        };
        Ok(AUv2Id { manufacturer, subtype, type_ })
    }

    /// The identifier made of the three codes, when all are known.
    pub fn from_codes(
        manufacturer: Option<[u8; 4]>,
        type_: Option<[u8; 4]>,
        subtype: Option<[u8; 4]>,
    ) -> (r: Option<AUv2Id>)
        ensures
            r == (match (manufacturer, type_, subtype) {
                (Some(m), Some(t), Some(st)) => Some(AUv2Id { manufacturer: m, subtype: st, type_: t }),
                _ => None,
            }),
    {
        match (manufacturer, type_, subtype) {
            (Some(m), Some(t), Some(st)) => Some(AUv2Id { manufacturer: m, subtype: st, type_: t }),
            _ => None,
        }
    }
}

/// An identifier written `type:subt:manu`, with codes of four bytes that hold
/// no `:`, is read back as those three codes.
pub proof fn law_auv2_id_text(type_: Seq<char>, subtype: Seq<char>, manufacturer: Seq<char>)
    requires
        !holds_char(type_, ':'),
        !holds_char(subtype, ':'),
        !holds_char(manufacturer, ':'),
        encode_utf8(type_).len() == 4,
        encode_utf8(subtype).len() == 4,
        encode_utf8(manufacturer).len() == 4,
    ensures
        spec_parse_auv2_id(type_ + seq![':'] + subtype + seq![':'] + manufacturer) == Ok::<
            (Seq<u8>, Seq<u8>, Seq<u8>),
            AUv2IdError,
        >((encode_utf8(type_), encode_utf8(subtype), encode_utf8(manufacturer))),
{
    let rest = subtype + seq![':'] + manufacturer;
    assert(type_ + seq![':'] + subtype + seq![':'] + manufacturer =~= type_ + seq![':'] + rest);
    lemma_split_at_first(type_, ':', rest);
    lemma_split_at_first(subtype, ':', manufacturer);
    lemma_no_split(manufacturer, ':');
}

/// A library given by its bare name is looked for under the OS-specific file
/// name made from that name: `name.dll`, `libname.dylib` or `libname.so`.
pub proof fn law_dylib_candidate_file_name(path: Seq<char>, os: OperatingSystem)
    ensures
        match spec_file_name(spec_with_extension(path, Seq::empty())) {
            Some(f) => spec_dylib_candidate(path, os) matches Some(c) && spec_file_name(c) == Some(
                spec_os_dylib_filename(f, os),
            ),
            None => spec_dylib_candidate(path, os) is None,
        },
{
    let q = spec_with_extension(path, Seq::empty());
    if let Some(f) = spec_file_name(q) {
        lemma_last_component(q);
        reveal_strlit("lib");
        reveal_strlit(".dll");
        reveal_strlit(".dylib");
        reveal_strlit(".so");
        let l = spec_os_dylib_filename(f, os);
        assert(!holds_char(l, '/')) by {
            assert forall|i: int| 0 <= i < l.len() implies l[i] != '/' by {
                match os {
                    OperatingSystem::Windows => {
                        if i < f.len() {
                            assert(l[i] == f[i]);
                        }
                    },
                    _ => {
                        if 3 <= i < 3 + f.len() {
                            assert(l[i] == f[i - 3]);
                        }
                    },
                }
            }
        }
        lemma_plain_name(l);
        law_join_keeps_file_name(parent_or_current(path), l);
    }
}

} // verus!
