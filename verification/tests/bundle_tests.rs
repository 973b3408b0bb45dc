use clap_wrapper_bundler::bundle::{info_plist_auv2, info_plist_generic, Auv2CodeKind};
use clap_wrapper_bundler::{
    AUv2Id, Architecture, BundleError, BundleOptions, BundlePlan, BundleStep, ExistingOutput, OperatingSystem,
    OutputRemoval, PluginFormat, PluginInfo, PluginLibrary,
};

fn plugin(name: &str, version: Option<&str>, auv2: Option<&str>) -> PluginInfo {
    PluginInfo::new(
        Some(format!("com.example.{}", name.to_lowercase())),
        Some(name.to_string()),
        Some("Example Audio".to_string()),
        version.map(|v| v.to_string()),
        Some(format!("The {name} plugin")),
        auv2.map(|a| AUv2Id::from_str(a).unwrap()),
    )
}

fn library(plugins: Vec<PluginInfo>) -> PluginLibrary {
    PluginLibrary::from_plugins(plugins, true, true).unwrap()
}

fn options<'a>(lib: &'a PluginLibrary, format: PluginFormat, os: OperatingSystem) -> BundleOptions<'a> {
    BundleOptions {
        dylib_path: "target/release/libsynth.so",
        output_dir: "target/release",
        library: lib,
        format,
        os,
        arch: Architecture::X86_64,
        vst3_single_file: true,
        overwrite_existing: true,
        auv2_override_id: None,
    }
}

fn generic_plist(name: &str, id: &str, version: &str, vendor: &str) -> String {
    format!(
        r#"<?xml version="1.0" encoding="UTF-8"?>
<!DOCTYPE plist PUBLIC "-//Apple//DTD PLIST 1.0//EN" "http://www.apple.com/DTDs/PropertyList-1.0.dtd">
<plist>
  <dict>
    <key>CFBundleExecutable</key>
    <string>{}</string>
    <key>CFBundleIconFile</key>
    <string></string>
    <key>CFBundleIdentifier</key>
    <string>{}</string>
    <key>CFBundleName</key>
    <string>{}</string>
    <key>CFBundleDisplayName</key>
    <string>{}</string>
    <key>CFBundlePackageType</key>
    <string>BNDL</string>
    <key>CFBundleSignature</key>
    <string>????</string>
    <key>CFBundleShortVersionString</key>
    <string>{}</string>
    <key>CFBundleVersion</key>
    <string>{}</string>
    <key>CFBundleSupportedPlatforms</key>
	<array>
	  <string>MacOSX</string>
	</array>
    <key>NSHumanReadableCopyright</key>
    <string>{}</string>
    <key>NSHighResolutionCapable</key>
    <true/>
  </dict>
</plist>"#,
        name, id, name, name, version, version, vendor,
    )
}

fn auv2_head(name: &str, id: &str, version: &str, vendor: &str) -> String {
    format!(
        r#"<?xml version="1.0" encoding="UTF-8"?>
<!DOCTYPE plist PUBLIC "-//Apple//DTD PLIST 1.0//EN" "http://www.apple.com/DTDs/PropertyList-1.0.dtd">
<plist>
  <dict>
    <key>CFBundleExecutable</key>
    <string>{}</string>
    <key>CFBundleIconFile</key>
    <string></string>
    <key>CFBundleIdentifier</key>
    <string>{}</string>
    <key>CFBundleName</key>
    <string>{}</string>
    <key>CFBundleDisplayName</key>
    <string>{}</string>
    <key>CFBundlePackageType</key>
    <string>BNDL</string>
    <key>CFBundleSignature</key>
    <string>????</string>
    <key>CFBundleShortVersionString</key>
    <string>{}</string>
    <key>CFBundleVersion</key>
    <string>{}</string>
    <key>CFBundleSupportedPlatforms</key>
    <array>
      <string>MacOSX</string>
    </array>
    <key>NSHumanReadableCopyright</key>
    <string>{}</string>
    <key>NSHighResolutionCapable</key>
    <true/>
    <key>NSPrincipalClass</key>
    <string/>
    <key>AudioComponents</key>
    <array>
"#,
        name, id, name, name, version, version, vendor,
    )
}

fn auv2_component(name: &str, description: &str, index: usize, manu: &str, subt: &str, typ: &str, version: u32) -> String {
    format!(
        r#"
      <dict>
        <key>name</key>
        <string>{}</string>
        <key>description</key>
        <string>{}</string>
        <key>factoryFunction</key>
        <string>GetPluginFactoryAUV2_{}</string>
        <key>manufacturer</key>
        <string>{}</string>
        <key>subtype</key>
        <string>{}</string>
        <key>type</key>
        <string>{}</string>
        <key>version</key>
        <integer>{}</integer>
        <key>sandboxSafe</key>
        <true/>
        <key>resourceUsage</key>
        <dict>
           <key>network.client</key>
           <true/>
           <key>temporary-exception.files.all.read-write</key>
           <true/>
        </dict>
      </dict>"#,
        name, description, index, manu, subt, typ, version
    )
}

const AUV2_END: &str = r#"
    </array>
  </dict>
</plist>"#;

#[test]
fn generic_plist_text() {
    let p = plugin("Synth", Some("1.2.3"), None);
    assert_eq!(info_plist_generic(&p), generic_plist("Synth", "com.example.synth", "1.2.3", "Example Audio"));
}

#[test]
fn generic_plist_defaults() {
    let p = PluginInfo::new(Some("id".to_string()), Some("N".to_string()), None, None, None, None);
    assert_eq!(info_plist_generic(&p), generic_plist("N", "id", "0.0.0", ""));
}

#[test]
fn auv2_plist_lists_components() {
    let a = plugin("Synth", Some("v1.2.3"), Some("aumu:syn1:Exmp"));
    let b = plugin("Delay", None, Some("aufx:dly1:Exmp"));
    let lib = library(vec![a.clone(), b]);
    let expected = auv2_head("Synth", "com.example.synth", "v1.2.3", "Example Audio")
        + &auv2_component("Synth", "The Synth plugin", 0, "Exmp", "syn1", "aumu", 0x010203)
        + &auv2_component("Delay", "The Delay plugin", 1, "Exmp", "dly1", "aufx", 0)
        + AUV2_END;
    assert_eq!(info_plist_auv2(&a, &lib, None), Ok(expected));
}

#[test]
fn auv2_plist_lists_at_most_four_plugins() {
    let plugins: Vec<PluginInfo> =
        (0..6).map(|i| plugin(&format!("P{i}"), Some("2.0.0"), Some("aufx:abcd:Exmp"))).collect();
    let lib = library(plugins.clone());
    let text = info_plist_auv2(&plugins[0], &lib, None).unwrap();
    assert!(text.contains("GetPluginFactoryAUV2_3"));
    assert!(!text.contains("GetPluginFactoryAUV2_4"));
    assert_eq!(text.matches("<key>sandboxSafe</key>").count(), 4);
}

#[test]
fn auv2_plist_needs_an_id() {
    let a = plugin("Synth", None, Some("aumu:syn1:Exmp"));
    let b = plugin("Delay", None, None);
    let lib = library(vec![a.clone(), b]);
    let err = info_plist_auv2(&a, &lib, None).unwrap_err();
    assert_eq!(err, BundleError::InvalidAuv2Code("Delay".to_string(), Auv2CodeKind::Manufacturer));
    assert_eq!(err.message(), "Plugin Delay has an invalid or missing AUv2 manufacturer code");
}

#[test]
fn auv2_plist_codes_must_be_text() {
    let mut id = AUv2Id::from_str("aumu:syn1:Exmp").unwrap();
    id.subtype = [0xff, b'a', b'b', b'c'];
    let a = PluginInfo::new(Some("i".to_string()), Some("Synth".to_string()), None, None, None, Some(id));
    let lib = library(vec![a.clone()]);
    let err = info_plist_auv2(&a, &lib, None).unwrap_err();
    assert_eq!(err, BundleError::InvalidAuv2Code("Synth".to_string(), Auv2CodeKind::Subtype));
    assert_eq!(err.message(), "Plugin Synth has an invalid or missing AUv2 subtype code");
}

#[test]
fn auv2_plist_uses_the_override() {
    let a = plugin("Synth", Some("1.0.0"), None);
    let lib = library(vec![a.clone()]);
    let id = AUv2Id::from_str("aumu:abcd:Ovrd").unwrap();
    let text = info_plist_auv2(&a, &lib, Some(id)).unwrap();
    assert!(text.contains("<string>Ovrd</string>"));
    assert!(text.contains("<integer>65536</integer>"));
}

#[test]
fn output_path_is_named_after_the_first_plugin() {
    let lib = library(vec![plugin("My Synth", None, None), plugin("Other", None, None)]);
    assert_eq!(options(&lib, PluginFormat::Clap, OperatingSystem::Linux).output_path().unwrap(), "target/release/My Synth.clap");
    assert_eq!(options(&lib, PluginFormat::Vst3, OperatingSystem::Linux).output_path().unwrap(), "target/release/My Synth.vst3");
    assert_eq!(options(&lib, PluginFormat::Auv2, OperatingSystem::MacOS).output_path().unwrap(), "target/release/My Synth.component");
}

#[test]
fn output_path_errors() {
    let lib = PluginLibrary::from_plugins(vec![plugin("A", None, None)], false, false).unwrap();
    assert_eq!(options(&lib, PluginFormat::Auv2, OperatingSystem::MacOS).output_path(), Err(BundleError::MissingAuv2Entry));
    assert_eq!(options(&lib, PluginFormat::Vst3, OperatingSystem::MacOS).output_path(), Err(BundleError::MissingVst3Entry));
    assert_eq!(BundleError::MissingAuv2Entry.message(), "Plugin library does not contain an AUv2 entry point");
    assert_eq!(BundleError::MissingVst3Entry.message(), "Plugin library does not contain a VST3 entry point");
    assert_eq!(BundleError::NoPlugins.message(), "Plugin library contains no plugins");
}

#[test]
fn existing_output() {
    let lib = library(vec![plugin("A", None, None)]);
    let mut o = options(&lib, PluginFormat::Clap, OperatingSystem::Linux);
    assert_eq!(o.existing_output_action("x.clap", ExistingOutput::Absent), Ok(OutputRemoval::Nothing));
    assert_eq!(o.existing_output_action("x.clap", ExistingOutput::File), Ok(OutputRemoval::RemoveFile));
    assert_eq!(o.existing_output_action("x.clap", ExistingOutput::Directory), Ok(OutputRemoval::RemoveDirectory));
    o.overwrite_existing = false;
    assert_eq!(o.existing_output_action("x.clap", ExistingOutput::Absent), Ok(OutputRemoval::Nothing));
    let err = o.existing_output_action("x.clap", ExistingOutput::Directory).unwrap_err();
    assert_eq!(err, BundleError::OutputExists("x.clap".to_string()));
    assert_eq!(err.message(), "Output path x.clap already exists");
}

fn made(steps: Vec<BundleStep>) -> BundlePlan {
    BundlePlan { removal: OutputRemoval::Nothing, steps, error: None }
}

fn refused(error: BundleError) -> BundlePlan {
    BundlePlan { removal: OutputRemoval::Nothing, steps: vec![], error: Some(error) }
}

#[test]
fn clap_bundle_is_a_copy_outside_macos() {
    let lib = library(vec![plugin("Synth", None, None)]);
    assert_eq!(
        options(&lib, PluginFormat::Clap, OperatingSystem::Linux).bundle(ExistingOutput::Absent),
        made(vec![BundleStep::CopyLibrary("target/release/Synth.clap".to_string())])
    );
}

#[test]
fn vst3_bundle_on_linux() {
    let lib = library(vec![plugin("Synth", None, None)]);
    assert_eq!(
        options(&lib, PluginFormat::Vst3, OperatingSystem::Linux).bundle(ExistingOutput::Absent),
        made(vec![
            BundleStep::CreateDir("target/release/Synth.vst3".to_string()),
            BundleStep::CreateDir("target/release/Synth.vst3/Contents/x86_64-linux".to_string()),
            BundleStep::CopyLibrary("target/release/Synth.vst3/Contents/x86_64-linux/Synth.so".to_string()),
        ])
    );
}

#[test]
fn vst3_bundle_on_windows() {
    let lib = library(vec![plugin("Synth", None, None)]);
    let mut o = options(&lib, PluginFormat::Vst3, OperatingSystem::Windows);
    assert_eq!(
        o.bundle(ExistingOutput::Absent),
        made(vec![BundleStep::CopyLibrary("target/release/Synth.vst3".to_string())])
    );
    o.vst3_single_file = false;
    o.arch = Architecture::Aarch64;
    assert_eq!(
        o.bundle(ExistingOutput::Absent),
        made(vec![
            BundleStep::CreateDir("target/release/Synth.vst3".to_string()),
            BundleStep::CreateDir("target/release/Synth.vst3/Contents/arm64-win".to_string()),
            BundleStep::CopyLibrary("target/release/Synth.vst3/Contents/arm64-win/Synth.dll".to_string()),
        ])
    );
}

#[test]
fn backslashes_in_plugin_names_separate_only_on_windows() {
    let lib = library(vec![plugin("Sub\\Synth", None, None)]);
    let mut o = options(&lib, PluginFormat::Vst3, OperatingSystem::Windows);
    assert_eq!(o.output_path().unwrap(), "target/release/Sub/Synth.vst3");
    o.vst3_single_file = false;
    assert_eq!(
        o.bundle(ExistingOutput::Absent),
        made(vec![
            BundleStep::CreateDir("target/release/Sub/Synth.vst3".to_string()),
            BundleStep::CreateDir("target/release/Sub/Synth.vst3/Contents/x86_64-win".to_string()),
            BundleStep::CopyLibrary("target/release/Sub/Synth.vst3/Contents/x86_64-win/Sub/Synth.dll".to_string()),
        ])
    );
    let linux = options(&lib, PluginFormat::Clap, OperatingSystem::Linux);
    assert_eq!(linux.output_path().unwrap(), "target/release/Sub\\Synth.clap");
}

#[test]
fn macos_bundle_layout() {
    let p = plugin("Synth", Some("1.0.0"), None);
    let lib = library(vec![p.clone()]);
    assert_eq!(
        options(&lib, PluginFormat::Vst3, OperatingSystem::MacOS).bundle(ExistingOutput::Absent),
        made(vec![
            BundleStep::CreateDir("target/release/Synth.vst3".to_string()),
            BundleStep::CreateDir("target/release/Synth.vst3/Contents/MacOS".to_string()),
            BundleStep::WriteFile("target/release/Synth.vst3/Contents/PkgInfo".to_string(), "BNDL????".to_string()),
            BundleStep::WriteFile("target/release/Synth.vst3/Contents/Info.plist".to_string(), info_plist_generic(&p)),
            BundleStep::CopyLibrary("target/release/Synth.vst3/Contents/MacOS/Synth".to_string()),
        ])
    );
}

#[test]
fn auv2_bundle_on_macos() {
    let p = plugin("Synth", Some("1.0.0"), Some("aumu:syn1:Exmp"));
    let lib = library(vec![p.clone()]);
    let plan = options(&lib, PluginFormat::Auv2, OperatingSystem::MacOS).bundle(ExistingOutput::Absent);
    assert_eq!(plan.error, None);
    assert_eq!(
        plan.steps[3],
        BundleStep::WriteFile(
            "target/release/Synth.component/Contents/Info.plist".to_string(),
            info_plist_auv2(&p, &lib, None).unwrap()
        )
    );
    assert_eq!(plan.steps[4], BundleStep::CopyLibrary("target/release/Synth.component/Contents/MacOS/Synth".to_string()));
}

#[test]
fn auv2_bundle_errors() {
    let p = plugin("Synth", None, None);
    let lib = library(vec![p.clone()]);
    assert_eq!(
        options(&lib, PluginFormat::Auv2, OperatingSystem::Linux).bundle(ExistingOutput::Absent),
        refused(BundleError::Auv2RequiresMacOS)
    );
    assert_eq!(BundleError::Auv2RequiresMacOS.message(), "AUv2 is only supported on macOS");
    assert_eq!(
        options(&lib, PluginFormat::Auv2, OperatingSystem::MacOS).bundle(ExistingOutput::Absent),
        refused(BundleError::InvalidAuv2Code("Synth".to_string(), Auv2CodeKind::Manufacturer))
    );
    let two = library(vec![p.clone(), plugin("Other", None, None)]);
    let mut o = options(&two, PluginFormat::Auv2, OperatingSystem::MacOS);
    o.auv2_override_id = Some(AUv2Id::from_str("aumu:syn1:Exmp").unwrap());
    assert_eq!(o.bundle(ExistingOutput::Absent), refused(BundleError::Auv2OverrideNeedsSinglePlugin));
    assert_eq!(
        BundleError::Auv2OverrideNeedsSinglePlugin.message(),
        "An AUv2 ID can only be given for a library that exports a single plugin"
    );
    let mut o = options(&lib, PluginFormat::Auv2, OperatingSystem::MacOS);
    o.auv2_override_id = Some(AUv2Id::from_str("aumu:syn1:Exmp").unwrap());
    assert_eq!(o.bundle(ExistingOutput::Absent).error, None);
}

#[test]
fn bundle_without_file_name_is_an_error() {
    let lib = library(vec![plugin("..", None, None)]);
    let plan = options(&lib, PluginFormat::Clap, OperatingSystem::MacOS).bundle(ExistingOutput::Absent);
    let out = "target/release/..";
    assert_eq!(
        plan,
        BundlePlan {
            removal: OutputRemoval::Nothing,
            steps: vec![
                BundleStep::CreateDir(out.to_string()),
                BundleStep::CreateDir(format!("{out}/Contents/MacOS")),
                BundleStep::WriteFile(format!("{out}/Contents/PkgInfo"), "BNDL????".to_string()),
                BundleStep::WriteFile(
                    format!("{out}/Contents/Info.plist"),
                    info_plist_generic(&plugin("..", None, None))
                ),
            ],
            error: Some(BundleError::InvalidOutputPath),
        }
    );
    assert_eq!(BundleError::InvalidOutputPath.message(), "Invalid output path");
}

#[test]
fn absolute_plugin_name_leaves_the_output_directory() {
    let lib = library(vec![plugin("/tmp/Synth", None, None)]);
    assert_eq!(
        options(&lib, PluginFormat::Clap, OperatingSystem::Linux).bundle(ExistingOutput::Absent),
        made(vec![BundleStep::CopyLibrary("/tmp/Synth.clap".to_string())])
    );
}

#[test]
fn library_without_plugins_cannot_be_bundled() {
    let mut lib = library(vec![plugin("A", None, None)]);
    lib.plugins.clear();
    assert_eq!(options(&lib, PluginFormat::Clap, OperatingSystem::Linux).output_path(), Err(BundleError::NoPlugins));
    assert_eq!(
        options(&lib, PluginFormat::Clap, OperatingSystem::Linux).bundle(ExistingOutput::Absent),
        refused(BundleError::NoPlugins)
    );
}

#[test]
fn library_problems_come_before_the_existing_output() {
    let lib = PluginLibrary::from_plugins(vec![plugin("A", None, None)], false, false).unwrap();
    let mut o = options(&lib, PluginFormat::Vst3, OperatingSystem::Linux);
    o.overwrite_existing = false;
    assert_eq!(o.bundle(ExistingOutput::Directory), refused(BundleError::MissingVst3Entry));
}

#[test]
fn existing_output_in_the_plan() {
    let lib = library(vec![plugin("Synth", None, None)]);
    let mut o = options(&lib, PluginFormat::Clap, OperatingSystem::Linux);
    let copy = vec![BundleStep::CopyLibrary("target/release/Synth.clap".to_string())];
    assert_eq!(
        o.bundle(ExistingOutput::File),
        BundlePlan { removal: OutputRemoval::RemoveFile, steps: copy.clone(), error: None }
    );
    assert_eq!(
        o.bundle(ExistingOutput::Directory),
        BundlePlan { removal: OutputRemoval::RemoveDirectory, steps: copy, error: None }
    );
    o.overwrite_existing = false;
    assert_eq!(
        o.bundle(ExistingOutput::File),
        refused(BundleError::OutputExists("target/release/Synth.clap".to_string()))
    );
    assert_eq!(
        o.bundle(ExistingOutput::Directory).error.unwrap().message(),
        "Output path target/release/Synth.clap already exists"
    );
}

#[test]
fn bundling_twice_plans_the_same_steps() {
    let lib = library(vec![plugin("Synth", Some("1.0"), None)]);
    let o = options(&lib, PluginFormat::Vst3, OperatingSystem::MacOS);
    let first = o.bundle(ExistingOutput::Absent);
    let second = o.bundle(ExistingOutput::Directory);
    assert_eq!(second.removal, OutputRemoval::RemoveDirectory);
    assert_eq!(second.steps, first.steps);
    assert_eq!(second.error, first.error);
}

#[test]
fn command_line_options() {
    let lib = library(vec![plugin("Synth", None, None)]);
    let o = BundleOptions::from_command_line(
        "target/release/libsynth.so",
        "target/release",
        &lib,
        PluginFormat::Vst3,
        OperatingSystem::Windows,
        Architecture::X86_64,
        false,
        None,
    );
    assert!(o.vst3_single_file);
    assert!(o.overwrite_existing);
    assert_eq!(o.output_dir, "target/release");
    assert_eq!(o.format, PluginFormat::Vst3);
    assert_eq!(
        o.bundle(ExistingOutput::Absent),
        made(vec![BundleStep::CopyLibrary("target/release/Synth.vst3".to_string())])
    );
    let id = AUv2Id::from_str("aumu:syn1:Exmp").unwrap();
    let folder = BundleOptions::from_command_line(
        "libsynth.so",
        ".",
        &lib,
        PluginFormat::Auv2,
        OperatingSystem::MacOS,
        Architecture::Aarch64,
        true,
        Some(id),
    );
    assert!(!folder.vst3_single_file);
    assert_eq!(folder.auv2_override_id, Some(id));
    assert_eq!(folder.arch, Architecture::Aarch64);
}

fn step_path(step: &BundleStep) -> &str {
    match step {
        BundleStep::CreateDir(p) => p,
        BundleStep::WriteFile(p, _) => p,
        BundleStep::CopyLibrary(p) => p,
    }
}

#[test]
fn bundles_stay_inside_their_output_path() {
    let lib = library(vec![plugin("Synth.v2", Some("1.0"), Some("aumu:syn1:Exmp"))]);
    for os in [OperatingSystem::Windows, OperatingSystem::MacOS, OperatingSystem::Linux] {
        for format in [PluginFormat::Clap, PluginFormat::Vst3, PluginFormat::Auv2] {
            let mut o = options(&lib, format, os);
            o.vst3_single_file = false;
            let out = o.output_path().unwrap();
            for step in &o.bundle(ExistingOutput::Absent).steps {
                assert!(step_path(step).starts_with(&out), "{step:?} outside {out}");
            }
        }
    }
}

#[test]
fn plist_texts_are_escaped() {
    let p = PluginInfo::new(
        Some("ex.fd".to_string()),
        Some("Fuzz & Drive".to_string()),
        Some("<Acme> \"Audio\"".to_string()),
        Some("1.0 & up".to_string()),
        None,
        None,
    );
    assert_eq!(
        info_plist_generic(&p),
        generic_plist("Fuzz &amp; Drive", "ex.fd", "1.0 &amp; up", "&lt;Acme&gt; &quot;Audio&quot;")
    );
    assert!(info_plist_generic(&p).contains("<key>CFBundleName</key>\n    <string>Fuzz &amp; Drive</string>"));
}

#[test]
fn auv2_component_texts_are_escaped() {
    let a = PluginInfo::new(
        Some("ex.a".to_string()),
        Some("A<B".to_string()),
        None,
        None,
        Some("x & y".to_string()),
        Some(AUv2Id::from_str("au&x:ab<d:M>nu").unwrap()),
    );
    let lib = library(vec![a.clone()]);
    let expected = auv2_head("A&lt;B", "ex.a", "0.0.0", "")
        + &auv2_component("A&lt;B", "x &amp; y", 0, "M&gt;nu", "ab&lt;d", "au&amp;x", 0)
        + AUV2_END;
    assert_eq!(info_plist_auv2(&a, &lib, None), Ok(expected));
}

#[test]
fn plist_starts_with_the_xml_declaration() {
    let p = plugin("Synth", None, None);
    assert!(info_plist_generic(&p).starts_with("<?xml version=\"1.0\""));
}
