//! What a scan of a plugin library found, and the decisions made on the raw
//! values that the library's entry points report.
use vstd::prelude::*;

use crate::util::{AUv2Id, PluginFormat};

verus! {

/// The plugins and extra entry points found in a CLAP plugin library.
#[derive(Debug, Clone)]
#[non_exhaustive]
pub struct PluginLibrary {
    pub plugins: Vec<PluginInfo>,
    pub has_vst3_entry: bool,
    pub has_auv2_entry: bool,
}

/// Information about a CLAP plugin.
#[derive(Debug, Clone)]
#[non_exhaustive]
pub struct PluginInfo {
    pub clap_id: String,
    pub clap_name: String,
    pub clap_vendor: Option<String>,
    pub clap_version: Option<String>,
    pub clap_description: Option<String>,
    pub auv2_id: Option<AUv2Id>,
}

/// The AUv2 type and subtype codes that a plugin factory reports for a plugin,
/// each a NUL-terminated code of at most four bytes.
#[allow(non_camel_case_types)]
#[derive(Debug, Copy, Clone)]
pub struct clap_plugin_info_as_auv2 {
    pub au_type: [u8; 5],
    pub au_subt: [u8; 5],
}

/// An AUv2 code that is neither empty nor four bytes long.
#[derive(Debug, Clone, Copy, PartialEq, Eq, Hash, Structural)]
pub enum Auv2CodeError {
    NulInCode,
}

impl Auv2CodeError {
    /// The human-readable message for this error.
    pub fn message(&self) -> (r: &'static str)
        ensures
            r@ == "AUv2 code contains a null byte"@,
    {
        "AUv2 code contains a null byte"
    }
}

/// A scan found no plugin in the library.
#[derive(Debug, Clone, Copy, PartialEq, Eq, Hash, Structural)]
pub enum ScanError {
    NoPlugins,
}

impl ScanError {
    /// The human-readable message for this error.
    pub fn message(&self) -> (r: &'static str)
        ensures
            r@ == "clap_plugin_factory::get_plugin_count returned 0"@,
    {
        "clap_plugin_factory::get_plugin_count returned 0"
    }
}

/// The length of a NUL-terminated code read at most four bytes far: the index
/// of the first NUL among the first four bytes, or 4.
pub open spec fn code_len(code: Seq<u8>) -> int {
    code_len_from(code, 0)
}

pub open spec fn code_len_from(code: Seq<u8>, i: int) -> int
    decreases 4 - i,
{
    if i >= 4 {
        4
    } else if i < code.len() && code[i] == 0 {
        i
    } else {
        code_len_from(code, i + 1)
    }
}

/// The bytes hold a NUL within their first four, or at least four bytes.
pub open spec fn readable_code(code: Seq<u8>) -> bool {
    code.len() >= 4 || exists|i: int| 0 <= i < code.len() && code[i] == 0
}

/// What a NUL-terminated AUv2 code says: four bytes make a code, an empty code
/// is no code, and any other length is an error.
pub open spec fn spec_parse_auv2_code(code: Seq<u8>) -> Result<Option<Seq<u8>>, Auv2CodeError> {
    let n = code_len(code);
    if n == 4 {
        Ok(Some(code.take(4)))
    } else if n == 0 {
        Ok(None)
    } else {
        Err(Auv2CodeError::NulInCode)
    }
}

proof fn lemma_code_len_from(code: Seq<u8>, i: int)
    requires
        0 <= i <= 4,
        forall|k: int| 0 <= k < i && k < code.len() ==> code[k] != 0,
    ensures
        i <= code_len_from(code, i) <= 4,
        code_len_from(code, i) < 4 ==> code_len_from(code, i) < code.len() && code[code_len_from(code, i)] == 0,
        forall|k: int| i <= k < code_len_from(code, i) && k < code.len() ==> code[k] != 0,
    decreases 4 - i,
{
    if i < 4 && !(i < code.len() && code[i] == 0) {
        lemma_code_len_from(code, i + 1);
    }
}

/// Reads a NUL-terminated AUv2 code of at most four bytes: `Some` of the four
/// bytes when there is no NUL among them, `None` when the code is empty, and an
/// error when it is between one and three bytes long.
pub fn parse_auv2_code(code: &[u8]) -> (r: Result<Option<[u8; 4]>, Auv2CodeError>)
    requires
        readable_code(code@),
    ensures
        match (r, spec_parse_auv2_code(code@)) {
            (Ok(Some(c)), Ok(Some(s))) => c@ == s,
            (Ok(None), Ok(None)) => true,
            (Err(e), Err(f)) => e == f,
            _ => false,
        },
{
    let mut i: usize = 0;
    while i < 4 && (i >= code.len() || code[i] != 0)
        invariant
            i <= 4,
            readable_code(code@),
            forall|k: int| 0 <= k < i && k < code@.len() ==> code@[k] != 0,
            code_len(code@) == code_len_from(code@, i as int),
        decreases 4 - i,
    {
        i = i + 1;
    }
    proof {
        lemma_code_len_from(code@, i as int);
    }
    if i == 4 {
        let c: [u8; 4] = [code[0], code[1], code[2], code[3]];
        assert(c@ =~= code@.take(4));
        Ok(Some(c))
    } else if i == 0 {
        Ok(None)
    } else {
        Err(Auv2CodeError::NulInCode)
    }
}

impl clap_plugin_info_as_auv2 {
    /// The AUv2 type code.
    pub fn type_code(&self) -> (r: Result<Option<[u8; 4]>, Auv2CodeError>)
        ensures
            match (r, spec_parse_auv2_code(self.au_type@)) {
                (Ok(Some(c)), Ok(Some(s))) => c@ == s,
                (Ok(None), Ok(None)) => true,
                (Err(e), Err(f)) => e == f,
                _ => false,
            },
    {
        parse_auv2_code(self.au_type.as_slice())
    }

    /// The AUv2 subtype code.
    pub fn subtype_code(&self) -> (r: Result<Option<[u8; 4]>, Auv2CodeError>)
        ensures
            match (r, spec_parse_auv2_code(self.au_subt@)) {
                (Ok(Some(c)), Ok(Some(s))) => c@ == s,
                (Ok(None), Ok(None)) => true,
                (Err(e), Err(f)) => e == f,
                _ => false,
            },
    {
        parse_auv2_code(self.au_subt.as_slice())
    }
}

impl PluginInfo {
    /// The information of a plugin from what its descriptor holds; a missing
    /// id or name becomes empty.
    pub fn new(
        clap_id: Option<String>,
        clap_name: Option<String>,
        clap_vendor: Option<String>,
        clap_version: Option<String>,
        clap_description: Option<String>,
        auv2_id: Option<AUv2Id>,
    ) -> (r: PluginInfo)
        ensures
            r.clap_id@ == (match clap_id {
                Some(s) => s@,
                None => Seq::empty(),
            }),
            r.clap_name@ == (match clap_name {
                Some(s) => s@,
                None => Seq::empty(),
            }),
            r.clap_vendor == clap_vendor,
            r.clap_version == clap_version,
            r.clap_description == clap_description,
            r.auv2_id == auv2_id,
    {
        let clap_id = match clap_id {
            Some(s) => s,
            None => String::new(),
        };
        let clap_name = match clap_name {
            Some(s) => s,
            None => String::new(),
        };
        PluginInfo { clap_id, clap_name, clap_vendor, clap_version, clap_description, auv2_id }
    }
}

impl PluginLibrary {
    /// The library found by a scan; a library without plugins is an error.
    pub fn from_plugins(plugins: Vec<PluginInfo>, has_vst3_entry: bool, has_auv2_entry: bool) -> (r:
        Result<PluginLibrary, ScanError>)
        ensures
            plugins@.len() == 0 ==> r == Err::<PluginLibrary, ScanError>(ScanError::NoPlugins),
            plugins@.len() > 0 ==> r == Ok::<PluginLibrary, ScanError>(
                PluginLibrary { plugins, has_vst3_entry, has_auv2_entry },
            ),
    {
        if plugins.len() == 0 {
            Err(ScanError::NoPlugins)
        } else {
            Ok(PluginLibrary { plugins, has_vst3_entry, has_auv2_entry })
        }
    }

    /// The formats the library can be bundled as, in order: always CLAP, then
    /// VST3 and AUv2 when the library has their entry points.
    pub open spec fn spec_formats(&self) -> Seq<PluginFormat> {
        seq![PluginFormat::Clap] + (if self.has_vst3_entry {
            seq![PluginFormat::Vst3]
        } else {
            Seq::empty()
        }) + (if self.has_auv2_entry {
            seq![PluginFormat::Auv2]
        } else {
            Seq::empty()
        })
    }

    /// The formats the library can be bundled as.
    pub fn formats(&self) -> (r: Vec<PluginFormat>)
        ensures
            r@ == self.spec_formats(),
    {
        let mut r = Vec::new();
        r.push(PluginFormat::Clap);
        if self.has_vst3_entry {
            r.push(PluginFormat::Vst3);
        }
        if self.has_auv2_entry {
            r.push(PluginFormat::Auv2);
        }
        assert(r@ =~= self.spec_formats());
        r
    }
}

/// What a NUL-terminated code that may be missing says.
pub open spec fn spec_optional_code(code: Option<Seq<u8>>) -> Result<Option<Seq<u8>>, Auv2CodeError> {
    match code {
        None => Ok(None),
        Some(c) => spec_parse_auv2_code(c),
    }
}

/// The AUv2 codes (subtype, type, manufacturer) that a plugin factory
/// reports, read in that order; the first bad code is the error.
pub open spec fn spec_raw_codes(
    auv2_info: Option<clap_plugin_info_as_auv2>,
    manufacturer_code: Option<Seq<u8>>,
) -> Result<(Option<Seq<u8>>, Option<Seq<u8>>, Option<Seq<u8>>), Auv2CodeError> {
    let subtype = match auv2_info {
        Some(info) => spec_parse_auv2_code(info.au_subt@),
        None => Ok(None),
    };
    let type_ = match auv2_info {
        Some(info) => spec_parse_auv2_code(info.au_type@),
        None => Ok(None),
    };
    match subtype {
        Err(e) => Err(e),
        Ok(st) => match type_ {
            Err(e) => Err(e),
            Ok(t) => match spec_optional_code(manufacturer_code) {
                Err(e) => Err(e),
                Ok(m) => Ok((st, t, m)),
            },
        },
    }
}

fn optional_code(code: &Option<Vec<u8>>) -> (r: Result<Option<[u8; 4]>, Auv2CodeError>)
    requires
        code matches Some(c) ==> readable_code(c@),
    ensures
        match (r, spec_optional_code(
            match code {
                Some(c) => Some(c@),
                None => None,
            },
        )) {
            (Ok(Some(c)), Ok(Some(s))) => c@ == s,
            (Ok(None), Ok(None)) => true,
            (Err(e), Err(f)) => e == f,
            _ => false,
        },
{
    match code {
        Some(c) => parse_auv2_code(c.as_slice()),
        None => Ok(None),
    }
}

impl PluginInfo {
    /// The information of a plugin from the raw values a library reports: the
    /// descriptor's texts, the AUv2 type and subtype codes when the factory
    /// reported them, and the manufacturer code when the factory has one (the
    /// bytes up to its NUL, at most four). The identifier is known when all
    /// three codes are; a code of one to three bytes is an error.
    pub fn from_raw(
        clap_id: Option<String>,
        clap_name: Option<String>,
        clap_vendor: Option<String>,
        clap_version: Option<String>,
        clap_description: Option<String>,
        auv2_info: Option<clap_plugin_info_as_auv2>,
        manufacturer_code: Option<Vec<u8>>,
    ) -> (r: Result<PluginInfo, Auv2CodeError>)
        requires
            manufacturer_code matches Some(c) ==> readable_code(c@),
        ensures
            match (r, spec_raw_codes(
                auv2_info,
                match manufacturer_code {
                    Some(c) => Some(c@),
                    None => None,
                },
            )) {
                (Ok(p), Ok((st, t, m))) => {
                    &&& p.clap_id@ == (match clap_id {
                        Some(s) => s@,
                        None => Seq::empty(),
                    })
                    &&& p.clap_name@ == (match clap_name {
                        Some(s) => s@,
                        None => Seq::empty(),
                    })
                    &&& p.clap_vendor == clap_vendor
                    &&& p.clap_version == clap_version
                    &&& p.clap_description == clap_description
                    &&& (p.auv2_id is Some <==> (st is Some && t is Some && m is Some))
                    &&& (p.auv2_id matches Some(id) ==> (id.subtype@ == st->0 && id.type_@ == t->0
                        && id.manufacturer@ == m->0))
                },
                (Err(e), Err(f)) => e == f,
                _ => false,
            },
    {
        let subtype = match &auv2_info {
            Some(info) => match info.subtype_code() {
                Ok(c) => c,
                Err(e) => return Err(e),
            },
            None => None,
        };
        let type_ = match &auv2_info {
            Some(info) => match info.type_code() {
                Ok(c) => c,
                Err(e) => return Err(e),
            },
            None => None,
        };
        let manufacturer = match optional_code(&manufacturer_code) {
            Ok(c) => c,
            Err(e) => return Err(e),
        };
        let id = AUv2Id::from_codes(manufacturer, type_, subtype);
        Ok(PluginInfo::new(clap_id, clap_name, clap_vendor, clap_version, clap_description, id))
    }
}

} // verus!
