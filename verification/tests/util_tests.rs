use clap_wrapper_bundler::util::{
    dylib_candidate, fix_dylib_path, os_dylib_filename, os_plugin_dir, parent_or_current_dir,
};
use clap_wrapper_bundler::{AUv2Id, AUv2IdError, Architecture, OperatingSystem, PlatformError, PluginFormat};

#[test]
fn current_architecture_from_target_name() {
    assert_eq!(Architecture::current("x86"), Ok(Architecture::X86));
    assert_eq!(Architecture::current("x86_64"), Ok(Architecture::X86_64));
    assert_eq!(Architecture::current("arm"), Ok(Architecture::Arm));
    assert_eq!(Architecture::current("aarch64"), Ok(Architecture::Aarch64));
    assert_eq!(Architecture::current("riscv64"), Err(PlatformError::UnsupportedArchitecture));
    assert_eq!(PlatformError::UnsupportedArchitecture.message(), "Unsupported architecture");
}

#[test]
fn current_os_from_target_name() {
    assert_eq!(OperatingSystem::current("windows"), Ok(OperatingSystem::Windows));
    assert_eq!(OperatingSystem::current("macos"), Ok(OperatingSystem::MacOS));
    assert_eq!(OperatingSystem::current("linux"), Ok(OperatingSystem::Linux));
    assert_eq!(OperatingSystem::current("freebsd"), Err(PlatformError::UnsupportedOperatingSystem));
    assert_eq!(
        PlatformError::UnsupportedOperatingSystem.message(),
        "Unsupported operating system"
    );
}

#[test]
fn format_names() {
    assert_eq!(PluginFormat::Clap.name(), "CLAP");
    assert_eq!(PluginFormat::Vst3.name(), "VST3");
    assert_eq!(PluginFormat::Auv2.name(), "AUv2");
}

#[test]
fn auv2_id_is_type_subtype_manufacturer() {
    let id = AUv2Id::from_str("aufx:abcd:Manu").unwrap();
    assert_eq!(&id.type_, b"aufx");
    assert_eq!(&id.subtype, b"abcd");
    assert_eq!(&id.manufacturer, b"Manu");
}

#[test]
fn auv2_id_ignores_text_after_third_code() {
    let id = AUv2Id::from_str("aumu:syn1:Blep:extra").unwrap();
    assert_eq!(&id.manufacturer, b"Blep");
}

#[test]
fn auv2_id_errors() {
    assert_eq!(AUv2Id::from_str(""), Err(AUv2IdError::TypeLength));
    assert_eq!(AUv2Id::from_str("auf:abcd:Manu"), Err(AUv2IdError::TypeLength));
    assert_eq!(AUv2Id::from_str("aufx"), Err(AUv2IdError::MissingSubtype));
    assert_eq!(AUv2Id::from_str("aufx:abcde:Manu"), Err(AUv2IdError::SubtypeLength));
    assert_eq!(AUv2Id::from_str("aufx:abcd"), Err(AUv2IdError::MissingManufacturer));
    assert_eq!(AUv2Id::from_str("aufx:abcd:"), Err(AUv2IdError::ManufacturerLength));
    assert_eq!(AUv2IdError::MissingSubtype.message(), "Missing subtype code");
    assert_eq!(AUv2IdError::ManufacturerLength.message(), "Manufacturer code must be 4 characters");
}

#[test]
fn auv2_id_counts_bytes() {
    // "é" is two bytes of UTF-8: "aé" is three bytes, "aéb" four.
    assert_eq!(AUv2Id::from_str("aé:abcd:Manu"), Err(AUv2IdError::TypeLength));
    let id = AUv2Id::from_str("aéb:abcd:Manu").unwrap();
    assert_eq!(&id.type_, "aéb".as_bytes());
}

#[test]
fn auv2_id_from_codes() {
    let id = AUv2Id::from_codes(Some(*b"Manu"), Some(*b"aufx"), Some(*b"abcd")).unwrap();
    assert_eq!(&id.manufacturer, b"Manu");
    assert_eq!(&id.type_, b"aufx");
    assert_eq!(&id.subtype, b"abcd");
    assert_eq!(AUv2Id::from_codes(Some(*b"Manu"), None, Some(*b"abcd")), None);
}

#[test]
fn dylib_file_names() {
    assert_eq!(os_dylib_filename("my_plugin", OperatingSystem::Windows), "my_plugin.dll");
    assert_eq!(os_dylib_filename("my_plugin", OperatingSystem::MacOS), "libmy_plugin.dylib");
    assert_eq!(os_dylib_filename("my_plugin", OperatingSystem::Linux), "libmy_plugin.so");
}

#[test]
fn dylib_candidate_from_bare_name() {
    assert_eq!(
        dylib_candidate("target/release/my_plugin", OperatingSystem::Linux).as_deref(),
        Some("target/release/libmy_plugin.so")
    );
    assert_eq!(dylib_candidate("my_plugin", OperatingSystem::Windows).as_deref(), Some("my_plugin.dll"));
    assert_eq!(
        dylib_candidate("out/my_plugin.so", OperatingSystem::MacOS).as_deref(),
        Some("out/libmy_plugin.dylib")
    );
    assert_eq!(dylib_candidate("..", OperatingSystem::Linux), None);
}

#[test]
fn fix_dylib_path_prefers_existing_path() {
    let os = OperatingSystem::Linux;
    assert_eq!(fix_dylib_path("out/my_plugin", os, true, true), "out/my_plugin");
    assert_eq!(fix_dylib_path("out/my_plugin", os, false, false), "out/my_plugin");
    assert_eq!(fix_dylib_path("out/my_plugin", os, false, true), "out/libmy_plugin.so");
    assert_eq!(fix_dylib_path("..", os, false, true), "..");
}

#[test]
fn output_directory_of_a_library() {
    assert_eq!(parent_or_current_dir("out/libfoo.so"), "out");
    assert_eq!(parent_or_current_dir("libfoo.so"), "");
    assert_eq!(parent_or_current_dir(""), ".");
}

#[test]
fn plugin_directories() {
    let home = Some("/home/me");
    let local = Some("C:/Users/me/AppData/Local");
    assert_eq!(
        os_plugin_dir(PluginFormat::Clap, OperatingSystem::Linux, home, local).as_deref(),
        Some("/home/me/.clap/")
    );
    assert_eq!(
        os_plugin_dir(PluginFormat::Vst3, OperatingSystem::Linux, home, local).as_deref(),
        Some("/home/me/.vst3/")
    );
    assert_eq!(
        os_plugin_dir(PluginFormat::Clap, OperatingSystem::MacOS, home, local).as_deref(),
        Some("/home/me/Library/Audio/Plug-Ins/CLAP/")
    );
    assert_eq!(
        os_plugin_dir(PluginFormat::Vst3, OperatingSystem::MacOS, home, local).as_deref(),
        Some("/home/me/Library/Audio/Plug-Ins/VST3/")
    );
    assert_eq!(
        os_plugin_dir(PluginFormat::Auv2, OperatingSystem::MacOS, home, local).as_deref(),
        Some("/home/me/Library/Audio/Plug-Ins/Components/")
    );
    assert_eq!(
        os_plugin_dir(PluginFormat::Clap, OperatingSystem::Windows, home, local).as_deref(),
        Some("C:/Users/me/AppData/Local/Programs/Common/CLAP/")
    );
    assert_eq!(
        os_plugin_dir(PluginFormat::Vst3, OperatingSystem::Windows, home, local).as_deref(),
        Some("C:/Users/me/AppData/Local/Programs/Common/VST3/")
    );
    assert_eq!(os_plugin_dir(PluginFormat::Auv2, OperatingSystem::Linux, home, local), None);
    assert_eq!(os_plugin_dir(PluginFormat::Auv2, OperatingSystem::Windows, home, local), None);
    assert_eq!(os_plugin_dir(PluginFormat::Clap, OperatingSystem::Linux, None, local), None);
    assert_eq!(os_plugin_dir(PluginFormat::Vst3, OperatingSystem::Windows, home, None), None);
}
