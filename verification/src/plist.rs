//! The `Info.plist` files of macOS bundles.
use vstd::prelude::*;

use crate::bundle::{Auv2CodeKind, BundleError, BundleFailure};
use crate::scan::{PluginInfo, PluginLibrary};
use crate::text::{decimal, decimal_text, str_from_utf8};
use crate::util::AUv2Id;
use crate::version::{parse_version_auv2, spec_parse_version_auv2};
use crate::xml::{escape_xml, xml_escape};
use vstd::utf8::{decode_utf8, encode_utf8_decode_utf8, valid_utf8};

verus! {

/// The plist text up to the bundle executable name.
pub const PLIST_START: &'static str = "<?xml version=\"1.0\" encoding=\"UTF-8\"?>\n<!DOCTYPE plist PUBLIC \"-//Apple//DTD PLIST 1.0//EN\" \"http://www.apple.com/DTDs/PropertyList-1.0.dtd\">\n<plist>\n  <dict>\n    <key>CFBundleExecutable</key>\n    <string>";

/// Between the executable name and the bundle identifier.
pub const PLIST_BEFORE_IDENTIFIER: &'static str = "</string>\n    <key>CFBundleIconFile</key>\n    <string></string>\n    <key>CFBundleIdentifier</key>\n    <string>";

/// Between the bundle identifier and the bundle name.
pub const PLIST_BEFORE_NAME: &'static str = "</string>\n    <key>CFBundleName</key>\n    <string>";

/// Between the bundle name and the display name.
pub const PLIST_BEFORE_DISPLAY_NAME: &'static str = "</string>\n    <key>CFBundleDisplayName</key>\n    <string>";

/// Between the display name and the short version string.
pub const PLIST_BEFORE_SHORT_VERSION: &'static str = "</string>\n    <key>CFBundlePackageType</key>\n    <string>BNDL</string>\n    <key>CFBundleSignature</key>\n    <string>????</string>\n    <key>CFBundleShortVersionString</key>\n    <string>";

/// Between the short version string and the bundle version.
pub const PLIST_BEFORE_VERSION: &'static str = "</string>\n    <key>CFBundleVersion</key>\n    <string>";

/// Between the bundle version and the copyright of a generic plist.
pub const GENERIC_BEFORE_COPYRIGHT: &'static str = "</string>\n    <key>CFBundleSupportedPlatforms</key>\n\t<array>\n\t  <string>MacOSX</string>\n\t</array>\n    <key>NSHumanReadableCopyright</key>\n    <string>";

/// After the copyright of a generic plist.
pub const GENERIC_END: &'static str = "</string>\n    <key>NSHighResolutionCapable</key>\n    <true/>\n  </dict>\n</plist>";

/// Between the bundle version and the copyright of an AUv2 plist.
pub const AUV2_BEFORE_COPYRIGHT: &'static str = "</string>\n    <key>CFBundleSupportedPlatforms</key>\n    <array>\n      <string>MacOSX</string>\n    </array>\n    <key>NSHumanReadableCopyright</key>\n    <string>";

/// After the copyright of an AUv2 plist, opening the list of audio components.
pub const AUV2_BEFORE_COMPONENTS: &'static str = "</string>\n    <key>NSHighResolutionCapable</key>\n    <true/>\n    <key>NSPrincipalClass</key>\n    <string/>\n    <key>AudioComponents</key>\n    <array>\n";

/// Closes the list of audio components and the plist.
pub const AUV2_END: &'static str = "\n    </array>\n  </dict>\n</plist>";

/// An audio component up to its name.
pub const COMPONENT_START: &'static str = "\n      <dict>\n        <key>name</key>\n        <string>";

/// Between the component name and its description.
pub const COMPONENT_BEFORE_DESCRIPTION: &'static str = "</string>\n        <key>description</key>\n        <string>";

/// Between the description and the index of the factory function.
pub const COMPONENT_BEFORE_FACTORY_INDEX: &'static str = "</string>\n        <key>factoryFunction</key>\n        <string>GetPluginFactoryAUV2_";

/// Between the factory function and the manufacturer code.
pub const COMPONENT_BEFORE_MANUFACTURER: &'static str = "</string>\n        <key>manufacturer</key>\n        <string>";

/// Between the manufacturer code and the subtype code.
pub const COMPONENT_BEFORE_SUBTYPE: &'static str = "</string>\n        <key>subtype</key>\n        <string>";

/// Between the subtype code and the type code.
pub const COMPONENT_BEFORE_TYPE: &'static str = "</string>\n        <key>type</key>\n        <string>";

/// Between the type code and the version number.
pub const COMPONENT_BEFORE_VERSION: &'static str = "</string>\n        <key>version</key>\n        <integer>";

/// After the version number, closing the component.
pub const COMPONENT_END: &'static str = "</integer>\n        <key>sandboxSafe</key>\n        <true/>\n        <key>resourceUsage</key>\n        <dict>\n           <key>network.client</key>\n           <true/>\n           <key>temporary-exception.files.all.read-write</key>\n           <true/>\n        </dict>\n      </dict>";

/// The plugin's version text, or `0.0.0` when it has none.
pub open spec fn version_text(p: PluginInfo) -> Seq<char> {
    match p.clap_version {
        Some(v) => v@,
        None => "0.0.0"@,
    }
}

/// The text of an optional string, or the empty text.
pub open spec fn text_or_empty(o: Option<String>) -> Seq<char> {
    match o {
        Some(v) => v@,
        None => Seq::empty(),
    }
}

/// The part of a plist shared by both kinds, up to the bundle version; every
/// text of the plugin is XML-escaped.
pub open spec fn plist_head(p: PluginInfo) -> Seq<char> {
    let name = xml_escape(p.clap_name@);
    let version = xml_escape(version_text(p));
    PLIST_START@ + name + PLIST_BEFORE_IDENTIFIER@ + xml_escape(p.clap_id@) + PLIST_BEFORE_NAME@
        + name + PLIST_BEFORE_DISPLAY_NAME@ + name + PLIST_BEFORE_SHORT_VERSION@ + version
        + PLIST_BEFORE_VERSION@ + version
}

/// The generic `Info.plist` of a bundle for the plugin.
pub open spec fn spec_info_plist_generic(p: PluginInfo) -> Seq<char> {
    plist_head(p) + GENERIC_BEFORE_COPYRIGHT@ + xml_escape(text_or_empty(p.clap_vendor))
        + GENERIC_END@
}

fn version_or_default(p: &PluginInfo) -> (r: &str)
    ensures
        r@ == version_text(*p),
{
    match &p.clap_version {
        Some(v) => v.as_str(),
        None => "0.0.0",
    }
}

fn text_or_empty_str(o: &Option<String>) -> (r: &str)
    ensures
        r@ == text_or_empty(*o),
{
    match o {
        Some(v) => v.as_str(),
        None => {
            proof {
                reveal_strlit("");
                assert(""@ =~= Seq::<char>::empty());
            }
            ""
        },
    }
}

fn head_text(p: &PluginInfo) -> (r: String)
    ensures
        r@ == plist_head(*p),
{
    let version = escape_xml(version_or_default(p));
    let name = escape_xml(p.clap_name.as_str());
    let id = escape_xml(p.clap_id.as_str());
    let mut r = String::from_str(PLIST_START);
    r.append(name.as_str());
    r.append(PLIST_BEFORE_IDENTIFIER);
    r.append(id.as_str());
    r.append(PLIST_BEFORE_NAME);
    r.append(name.as_str());
    r.append(PLIST_BEFORE_DISPLAY_NAME);
    r.append(name.as_str());
    r.append(PLIST_BEFORE_SHORT_VERSION);
    r.append(version.as_str());
    r.append(PLIST_BEFORE_VERSION);
    r.append(version.as_str());
    r
}

/// Generates the generic macOS bundle `Info.plist` file for the plugin.
pub fn info_plist_generic(plugin: &PluginInfo) -> (r: String)
    ensures
        r@ == spec_info_plist_generic(*plugin),
{
    let mut r = head_text(plugin);
    r.append(GENERIC_BEFORE_COPYRIGHT);
    let vendor = escape_xml(text_or_empty_str(&plugin.clap_vendor));
    r.append(vendor.as_str());
    r.append(GENERIC_END);
    r
}

/// A four-byte AUv2 code read as UTF-8 text, when it is valid UTF-8.
pub open spec fn code_text(code: Seq<u8>) -> Option<Seq<char>> {
    if valid_utf8(code) {
        Some(decode_utf8(code))
    } else {
        None
    }
}

/// The identifier used for a plugin: the override when one is given, else the
/// plugin's own.
pub open spec fn effective_id(p: PluginInfo, id_override: Option<AUv2Id>) -> Option<AUv2Id> {
    match id_override {
        Some(id) => Some(id),
        None => p.auv2_id,
    }
}

/// The audio component entry of the plugin at `index` of the library.
pub open spec fn spec_component(p: PluginInfo, index: nat, id_override: Option<AUv2Id>) -> Result<
    Seq<char>,
    BundleFailure,
> {
    match effective_id(p, id_override) {
        None => Err(BundleFailure::InvalidAuv2Code(p.clap_name@, Auv2CodeKind::Manufacturer)),
        Some(id) => match code_text(id.manufacturer@) {
            None => Err(BundleFailure::InvalidAuv2Code(p.clap_name@, Auv2CodeKind::Manufacturer)),
            Some(manu) => match code_text(id.subtype@) {
                None => Err(BundleFailure::InvalidAuv2Code(p.clap_name@, Auv2CodeKind::Subtype)),
                Some(subt) => match code_text(id.type_@) {
                    None => Err(BundleFailure::InvalidAuv2Code(p.clap_name@, Auv2CodeKind::Type)),
                    Some(typ) => Ok(
                        COMPONENT_START@ + xml_escape(p.clap_name@) + COMPONENT_BEFORE_DESCRIPTION@
                            + xml_escape(text_or_empty(p.clap_description))
                            + COMPONENT_BEFORE_FACTORY_INDEX@ + decimal(index)
                            + COMPONENT_BEFORE_MANUFACTURER@ + xml_escape(manu)
                            + COMPONENT_BEFORE_SUBTYPE@ + xml_escape(subt) + COMPONENT_BEFORE_TYPE@
                            + xml_escape(typ)
                            + COMPONENT_BEFORE_VERSION@ + decimal(
                            spec_parse_version_auv2(version_text(p)) as nat,
                        ) + COMPONENT_END@,
                    ),
                },
            },
        },
    }
}

/// An identifier given as an override stands in for the plugin's own: the
/// component entry made with the override is the one made, without an
/// override, for the plugin reporting that identifier itself; whatever
/// identifier the plugin reports does not change it.
pub proof fn law_override_replaces_plugin_id(p: PluginInfo, index: nat, id: AUv2Id, own: Option<AUv2Id>)
    ensures
        spec_component(p, index, Some(id)) == spec_component(PluginInfo { auv2_id: Some(id), ..p }, index, None),
        spec_component(p, index, Some(id)) == spec_component(PluginInfo { auv2_id: own, ..p }, index, Some(id)),
{
}

/// The audio component entries of the plugins, in order; the first plugin
/// whose entry fails decides the error.
pub open spec fn spec_components(ps: Seq<PluginInfo>, id_override: Option<AUv2Id>) -> Result<
    Seq<char>,
    BundleFailure,
>
    decreases ps.len(),
{
    if ps.len() == 0 {
        Ok(Seq::empty())
    } else {
        match spec_components(ps.drop_last(), id_override) {
            Err(e) => Err(e),
            Ok(t) => match spec_component(ps.last(), (ps.len() - 1) as nat, id_override) {
                Err(e) => Err(e),
                Ok(u) => Ok(t + u),
            },
        }
    }
}

/// At most this many plugins of a library are listed in an AUv2 bundle.
pub const MAX_AUV2_COMPONENTS: usize = 4;

/// The plugins of the library that an AUv2 bundle lists.
pub open spec fn listed_plugins(library: PluginLibrary) -> Seq<PluginInfo> {
    let n = library.plugins@.len();
    library.plugins@.take(if n < MAX_AUV2_COMPONENTS { n as int } else { MAX_AUV2_COMPONENTS as int })
}

/// The `Info.plist` of an AUv2 bundle for `plugin`, listing the first plugins
/// of the library as audio components.
pub open spec fn spec_info_plist_auv2(
    plugin: PluginInfo,
    library: PluginLibrary,
    id_override: Option<AUv2Id>,
) -> Result<Seq<char>, BundleFailure> {
    match spec_components(listed_plugins(library), id_override) {
        Err(e) => Err(e),
        Ok(t) => Ok(
            plist_head(plugin) + AUV2_BEFORE_COPYRIGHT@ + xml_escape(text_or_empty(plugin.clap_vendor))
                + AUV2_BEFORE_COMPONENTS@ + t + AUV2_END@,
        ),
    }
}

fn code_str(code: &[u8; 4]) -> (r: Option<&str>)
    ensures
        match r {
            Some(s) => code_text(code@) == Some(s@),
            None => code_text(code@) is None,
        },
{
    let r = str_from_utf8(code.as_slice());
    proof {
        if let Some(s) = r {
            encode_utf8_decode_utf8(s@);
        }
    }
    r
}

fn component_text(p: &PluginInfo, index: usize, id_override: Option<AUv2Id>) -> (r: Result<String, BundleError>)
    requires
        index < 10,
    ensures
        match (r, spec_component(*p, index as nat, id_override)) {
            (Ok(s), Ok(t)) => s@ == t,
            (Err(e), Err(f)) => e@ == f,
            _ => false,
        },
{
    let id = match id_override {
        Some(id) => id,
        None => match p.auv2_id {
            Some(id) => id,
            None => return Err(
                BundleError::InvalidAuv2Code(p.clap_name.clone(), Auv2CodeKind::Manufacturer),
            ),
        },
    };
    let manu = match code_str(&id.manufacturer) {
        Some(s) => s,
        None => return Err(
            BundleError::InvalidAuv2Code(p.clap_name.clone(), Auv2CodeKind::Manufacturer),
        ),
    };
    let subt = match code_str(&id.subtype) {
        Some(s) => s,
        None => return Err(BundleError::InvalidAuv2Code(p.clap_name.clone(), Auv2CodeKind::Subtype)),
    };
    let typ = match code_str(&id.type_) {
        Some(s) => s,
        None => return Err(BundleError::InvalidAuv2Code(p.clap_name.clone(), Auv2CodeKind::Type)),
    };
    let version = parse_version_auv2(version_or_default(p));
    let index_text = decimal_text(index as u32);
    let version_number = decimal_text(version);
    let name = escape_xml(p.clap_name.as_str());
    let description = escape_xml(text_or_empty_str(&p.clap_description));
    let manu = escape_xml(manu);
    let subt = escape_xml(subt);
    let typ = escape_xml(typ);
    let mut r = String::from_str(COMPONENT_START);
    r.append(name.as_str());
    r.append(COMPONENT_BEFORE_DESCRIPTION);
    r.append(description.as_str());
    r.append(COMPONENT_BEFORE_FACTORY_INDEX);
    r.append(index_text.as_str());
    r.append(COMPONENT_BEFORE_MANUFACTURER);
    r.append(manu.as_str());
    r.append(COMPONENT_BEFORE_SUBTYPE);
    r.append(subt.as_str());
    r.append(COMPONENT_BEFORE_TYPE);
    r.append(typ.as_str());
    r.append(COMPONENT_BEFORE_VERSION);
    r.append(version_number.as_str());
    r.append(COMPONENT_END);
    Ok(r)
}

proof fn lemma_components_error_persists(ps: Seq<PluginInfo>, i: int, j: int, id_override: Option<AUv2Id>)
    requires
        0 <= i <= j <= ps.len(),
        spec_components(ps.take(i), id_override) is Err,
    ensures
        spec_components(ps.take(j), id_override) == spec_components(ps.take(i), id_override),
    decreases j - i,
{
    if j > i {
        lemma_components_error_persists(ps, i, j - 1, id_override);
        assert(ps.take(j).drop_last() =~= ps.take(j - 1));
    }
}

/// Generates the `Info.plist` of an AUv2 bundle for `plugin`, listing the
/// first (at most four) plugins of the library as audio components. The AUv2
/// identifier of each is `id_override` when given, else the plugin's own; a
/// plugin without an identifier or with a code that is not UTF-8 text is an
/// error.
pub fn info_plist_auv2(plugin: &PluginInfo, library: &PluginLibrary, id_override: Option<AUv2Id>) -> (r:
    Result<String, BundleError>)
    ensures
        match (r, spec_info_plist_auv2(*plugin, *library, id_override)) {
            (Ok(s), Ok(t)) => s@ == t,
            (Err(e), Err(f)) => e@ == f,
            _ => false,
        },
{
    let n = library.plugins.len();
    let count = if n < MAX_AUV2_COMPONENTS {
        n
    } else {
        MAX_AUV2_COMPONENTS
    };
    let ghost listed = listed_plugins(*library);
    let mut components = String::new();
    let mut i: usize = 0;
    while i < count
        invariant
            count <= n == library.plugins@.len(),
            count <= MAX_AUV2_COMPONENTS,
            listed == library.plugins@.take(count as int),
            listed == listed_plugins(*library),
            i <= count,
            spec_components(listed.take(i as int), id_override) == Ok::<Seq<char>, BundleFailure>(
                components@,
            ),
        decreases count - i,
    {
        assert(listed.take(i + 1).drop_last() =~= listed.take(i as int));
        assert(listed.take(i + 1).last() == library.plugins@[i as int]);
        match component_text(&library.plugins[i], i, id_override) {
            Ok(t) => {
                components.append(t.as_str());
            },
            Err(e) => {
                proof {
                    assert(spec_components(listed.take(i + 1), id_override) == Err::<
                        Seq<char>,
                        BundleFailure,
                    >(e@));
                    lemma_components_error_persists(listed, i + 1, count as int, id_override);
                    assert(listed.take(count as int) =~= listed);
                }
                return Err(e);
            },
        }
        i = i + 1;
    }
    assert(listed.take(count as int) =~= listed);
    let mut r = head_text(plugin);
    r.append(AUV2_BEFORE_COPYRIGHT);
    let vendor = escape_xml(text_or_empty_str(&plugin.clap_vendor));
    r.append(vendor.as_str());
    r.append(AUV2_BEFORE_COMPONENTS);
    r.append(components.as_str());
    r.append(AUV2_END);
    Ok(r)
}

} // verus!
