use clap_wrapper_bundler::scan::{parse_auv2_code, Auv2CodeError, ScanError};

use clap_wrapper_bundler::{clap_plugin_info_as_auv2, AUv2Id, PluginFormat, PluginInfo, PluginLibrary};

fn plugin(name: &str) -> PluginInfo {
    PluginInfo::new(Some(format!("com.example.{name}")), Some(name.to_string()), None, None, None, None)
}

#[test]
fn four_byte_codes() {
    assert_eq!(parse_auv2_code(b"aufx\0"), Ok(Some(*b"aufx")));
    assert_eq!(parse_auv2_code(b"aufxyz"), Ok(Some(*b"aufx")));
    assert_eq!(parse_auv2_code(b"\0abc"), Ok(None));
    assert_eq!(parse_auv2_code(b"\0"), Ok(None));
    assert_eq!(parse_auv2_code(b"ab\0"), Err(Auv2CodeError::NulInCode));
    assert_eq!(Auv2CodeError::NulInCode.message(), "AUv2 code contains a null byte");
}

#[test]
fn factory_info_codes() {
    let info = clap_plugin_info_as_auv2 { au_type: *b"aumu\0", au_subt: *b"sy\0\0\0" };
    assert_eq!(info.type_code(), Ok(Some(*b"aumu")));
    assert_eq!(info.subtype_code(), Err(Auv2CodeError::NulInCode));
    let empty = clap_plugin_info_as_auv2 { au_type: [0; 5], au_subt: [0; 5] };
    assert_eq!(empty.type_code(), Ok(None));
}

#[test]
fn plugin_info_defaults() {
    let p = PluginInfo::new(None, None, Some("Vendor".to_string()), Some("1.0".to_string()), None, None);
    assert_eq!(p.clap_id, "");
    assert_eq!(p.clap_name, "");
    assert_eq!(p.clap_vendor.as_deref(), Some("Vendor"));
    assert_eq!(p.clap_version.as_deref(), Some("1.0"));
    assert_eq!(p.clap_description, None);
    let id = AUv2Id::from_str("aufx:abcd:Manu").unwrap();
    let q = PluginInfo::new(None, Some("X".to_string()), None, None, None, Some(id));
    assert_eq!(q.auv2_id, Some(id));
}

#[test]
fn empty_library_is_an_error() {
    assert_eq!(PluginLibrary::from_plugins(vec![], true, true).err(), Some(ScanError::NoPlugins));
    assert_eq!(
        ScanError::NoPlugins.message(),
        "clap_plugin_factory::get_plugin_count returned 0"
    );
}

#[test]
fn library_formats() {
    let lib = PluginLibrary::from_plugins(vec![plugin("A")], false, false).unwrap();
    assert_eq!(lib.formats(), vec![PluginFormat::Clap]);
    let lib = PluginLibrary::from_plugins(vec![plugin("A")], true, false).unwrap();
    assert_eq!(lib.formats(), vec![PluginFormat::Clap, PluginFormat::Vst3]);
    let lib = PluginLibrary::from_plugins(vec![plugin("A")], true, true).unwrap();
    assert_eq!(lib.formats(), vec![PluginFormat::Clap, PluginFormat::Vst3, PluginFormat::Auv2]);
    let lib = PluginLibrary::from_plugins(vec![plugin("A")], false, true).unwrap();
    assert_eq!(lib.formats(), vec![PluginFormat::Clap, PluginFormat::Auv2]);
    assert_eq!(lib.plugins.len(), 1);
    assert!(lib.has_auv2_entry && !lib.has_vst3_entry);
}

#[test]
fn plugin_from_raw_values() {
    let info = clap_plugin_info_as_auv2 { au_type: *b"aumu\0", au_subt: *b"syn1\0" };
    let p = PluginInfo::from_raw(
        Some("com.ex.s".to_string()),
        None,
        None,
        Some("1.0".to_string()),
        None,
        Some(info),
        Some(b"Exmp".to_vec()),
    )
    .unwrap();
    assert_eq!(p.clap_id, "com.ex.s");
    assert_eq!(p.clap_name, "");
    let id = p.auv2_id.unwrap();
    assert_eq!((&id.type_, &id.subtype, &id.manufacturer), (b"aumu", b"syn1", b"Exmp"));

    let without_manufacturer =
        PluginInfo::from_raw(None, None, None, None, None, Some(info), None).unwrap();
    assert_eq!(without_manufacturer.auv2_id, None);
    let without_info =
        PluginInfo::from_raw(None, None, None, None, None, None, Some(b"Exmp".to_vec())).unwrap();
    assert_eq!(without_info.auv2_id, None);
    let empty_code = PluginInfo::from_raw(None, None, None, None, None, Some(info), Some(vec![0])).unwrap();
    assert_eq!(empty_code.auv2_id, None);
}

#[test]
fn plugin_from_raw_bad_codes() {
    let bad_subtype = clap_plugin_info_as_auv2 { au_type: *b"aumu\0", au_subt: *b"sy\0\0\0" };
    assert_eq!(
        PluginInfo::from_raw(None, None, None, None, None, Some(bad_subtype), None).err(),
        Some(Auv2CodeError::NulInCode)
    );
    let info = clap_plugin_info_as_auv2 { au_type: *b"aumu\0", au_subt: *b"syn1\0" };
    assert_eq!(
        PluginInfo::from_raw(None, None, None, None, None, Some(info), Some(b"Ex\0".to_vec())).err(),
        Some(Auv2CodeError::NulInCode)
    );
}
