//! Import-style detection: whether the project's manifest declares an
//! ESM or a CJS module layout. Detected once per run and passed to every
//! instrumentation request.

use vstd::prelude::*;

use crate::jsonio::{is_valid_json, json_as_str, json_get, parse_manifest};
use crate::strutil::str_eq;

verus! {

/// The project's import style, as the manifest declares it.
#[derive(Clone, Copy, Debug, PartialEq, Eq, Structural)]
pub enum ImportStyle {
    /// ECMAScript modules.
    Esm,
    /// CommonJS modules.
    Cjs,
}

/// Why the import style could not be read from a manifest.
#[derive(Clone, Copy, Debug, PartialEq, Eq, Structural)]
pub enum ManifestError {
    /// The manifest is not well-formed JSON.
    InvalidJson,
}

/// The import style that a manifest with these findings declares: ESM when
/// its `type` is `module`, or when it has an `exports` or a `module` field;
/// CJS otherwise.
pub open spec fn spec_import_style(
    type_is_module: bool,
    has_exports: bool,
    has_module: bool,
) -> ImportStyle {
    if type_is_module || has_exports || has_module {
        ImportStyle::Esm
    } else {
        ImportStyle::Cjs
    }
}

/// Decides the import style from what was found in the manifest.
pub fn import_style_of_manifest(
    type_is_module: bool,
    has_exports: bool,
    has_module: bool,
) -> (r: ImportStyle)
    ensures
        r == spec_import_style(type_is_module, has_exports, has_module),
{
    if type_is_module || has_exports || has_module {
        ImportStyle::Esm
    } else {
        ImportStyle::Cjs
    }
}

/// Detects the project's import style from the bytes of its `package.json`,
/// or from its absence. A project without a manifest is CJS; a manifest
/// that is not well-formed JSON is rejected; otherwise the style follows
/// `spec_import_style` on the manifest's `type`, `exports` and `module`
/// fields.
pub fn detect_project_import_style(package_json: Option<&Vec<u8>>) -> (r: Result<
    ImportStyle,
    ManifestError,
>)
    ensures
        package_json.is_none() ==> r == Ok::<ImportStyle, ManifestError>(ImportStyle::Cjs),
        match package_json {
            Some(c) => {
                &&& r.is_err() <==> !is_valid_json(c@)
                &&& r.is_err() ==> r == Err::<ImportStyle, ManifestError>(
                    ManifestError::InvalidJson,
                )
            },
            None => true,
        },
{
    match package_json {
        None => Ok(ImportStyle::Cjs),
        Some(c) => {
            match parse_manifest(c) {
                None => Err(ManifestError::InvalidJson),
                Some(v) => {
                    let type_is_module = match json_get(&v, "type") {
                        Some(t) => match json_as_str(t) {
                            Some(s) => str_eq(s, "module"),
                            None => false,
                        },
                        None => false,
                    };
                    let has_exports = json_get(&v, "exports").is_some();
                    let has_module = json_get(&v, "module").is_some();
                    Ok(import_style_of_manifest(type_is_module, has_exports, has_module))
                },
            }
        },
    }
}

} // verus!
