//! File names of the built library and of the Ruby extension, taken from
//! `Cargo.toml` and `RubyExt.toml`.

use vstd::prelude::*;
use vstd::string::StringExecFns;
use crate::text::opt_string_view;

verus! {

/// The platform that the library is built for, as far as file names go.
#[derive(Clone, Copy, Debug, PartialEq, Eq, Structural)]
pub enum Platform {
    /// A Unix other than macOS.
    Unix,
    MacOs,
    Windows,
}

/// The prefix that Cargo gives a `cdylib` file.
pub open spec fn cdylib_prefix_of(p: Platform) -> Seq<char> {
    match p {
        Platform::Windows => ""@,
        _ => "lib"@,
    }
}

/// The extension that Cargo gives a `cdylib` file.
pub open spec fn cdylib_ext_of(p: Platform) -> Seq<char> {
    match p {
        Platform::Unix => "so"@,
        Platform::MacOs => "dylib"@,
        Platform::Windows => "dll"@,
    }
}

/// The extension that Ruby loads extension libraries by.
pub open spec fn ruby_dlext_of(p: Platform) -> Seq<char> {
    match p {
        Platform::MacOs => "bundle"@,
        _ => "so"@,
    }
}

/// The prefix that Cargo gives a `cdylib` file.
pub fn cdylib_prefix(p: Platform) -> (r: &'static str)
    ensures
        r@ == cdylib_prefix_of(p),
{
    match p {
        Platform::Windows => "",
        _ => "lib",
    }
}

/// The extension that Cargo gives a `cdylib` file.
pub fn cdylib_ext(p: Platform) -> (r: &'static str)
    ensures
        r@ == cdylib_ext_of(p),
{
    match p {
        Platform::Unix => "so",
        Platform::MacOs => "dylib",
        Platform::Windows => "dll",
    }
}

/// The extension that Ruby loads extension libraries by.
pub fn ruby_dlext(p: Platform) -> (r: &'static str)
    ensures
        r@ == ruby_dlext_of(p),
{
    match p {
        Platform::MacOs => "bundle",
        _ => "so",
    }
}

/// The file that Cargo builds for the library `name`.
pub open spec fn cdylib_file_name_of(name: Seq<char>, p: Platform) -> Seq<char> {
    cdylib_prefix_of(p) + name + "."@ + cdylib_ext_of(p)
}

/// The file that Cargo builds for the library `name`, such as `libfoo.so`.
pub fn cdylib_file_name(name: &str, p: Platform) -> (r: String)
    ensures
        r@ == cdylib_file_name_of(name@, p),
{
    let mut r = String::from_str(cdylib_prefix(p));
    r.append(name);
    r.append(".");
    r.append(cdylib_ext(p));
    r
}

/// The library's name: `lib.name` when `Cargo.toml` sets it, else `package.name`.
pub open spec fn chosen_library_name(lib_name: Option<Seq<char>>, package_name: Option<Seq<char>>) -> Option<Seq<char>> {
    match lib_name {
        Some(n) => Some(n),
        None => package_name,
    }
}

/// The `cdylib` file for the names that `Cargo.toml` gives: `lib.name`
/// when set, else `package.name`; `None` when neither is.
pub fn cdylib_name_from(lib_name: Option<String>, package_name: Option<String>, p: Platform) -> (r: Option<String>)
    ensures
        match chosen_library_name(opt_string_view(lib_name), opt_string_view(package_name)) {
            Some(n) => r matches Some(f) && f@ == cdylib_file_name_of(n, p),
            None => r is None,
        },
{
    match lib_name {
        Some(n) => Some(cdylib_file_name(n.as_str(), p)),
        None => match package_name {
            Some(n) => Some(cdylib_file_name(n.as_str(), p)),
            None => None,
        },
    }
}

/// What `toml::from_str::<toml::Value>` gives for `document`, looked up
/// at `table`, then `key`, as a string: `None` when the document does not
/// parse, `Some(None)` when the entry is missing or is no string.
pub uninterp spec fn toml_string_at(document: Seq<char>, table: Seq<char>, key: Seq<char>) -> Option<Option<Seq<char>>>;

/// The `Debug` text of the error that `toml::from_str::<toml::Value>` gives
/// for `document`, when it does not parse.
pub uninterp spec fn toml_parse_error_text(document: Seq<char>) -> Seq<char>;

/// `toml::from_str::<toml::Value>`, then `Value::get` of `table`, `Value::get`
/// of `key` and `Value::as_str`; a parse error comes back as its `Debug`
/// text. The contract names the outcome by `toml_string_at` and the error
/// text by `toml_parse_error_text`, and claims nothing of which documents parse.
#[verifier::external_body]
fn toml_table_string(document: &str, table: &str, key: &str) -> (r: Result<Option<String>, String>)
    ensures
        r is Err <==> toml_string_at(document@, table@, key@) is None,
        r matches Ok(v) ==> toml_string_at(document@, table@, key@) == Some(opt_string_view(v)),
        r matches Err(m) ==> m@ == toml_parse_error_text(document@),
{
    let value = match toml::from_str::<toml::Value>(document) {
        Ok(v) => v,
        Err(e) => return Err(format!("{:?}", e)),
    };
    let entry = match value.get(table) {
        Some(t) => t.get(key),
        None => None,
    };
    match entry {
        Some(v) => Ok(v.as_str().map(String::from)),
        None => Ok(None),
    }
}

/// Why no library file name came out of `Cargo.toml`.
#[derive(Debug)]
pub enum ManifestError {
    /// The manifest is no TOML document; the parser's message.
    Unparsable(String),
    /// Neither `lib.name` nor `package.name` is a string.
    NoLibraryName,
}

/// The library's name in the manifest text: `None` when it does not parse,
/// `Some(None)` when neither `lib.name` nor `package.name` is a string.
pub open spec fn manifest_library_name(manifest: Seq<char>) -> Option<Option<Seq<char>>> {
    match toml_string_at(manifest, "lib"@, "name"@) {
        None => None,
        Some(Some(n)) => Some(Some(n)),
        Some(None) => toml_string_at(manifest, "package"@, "name"@),
    }
}

/// The `cdylib` file that Cargo builds for the package whose `Cargo.toml`
/// holds `manifest`.
pub fn cdylib_name(manifest: &str, p: Platform) -> (r: Result<String, ManifestError>)
    ensures
        match manifest_library_name(manifest@) {
            None => r matches Err(ManifestError::Unparsable(m)) && m@ == toml_parse_error_text(manifest@),
            Some(None) => r matches Err(ManifestError::NoLibraryName),
            Some(Some(n)) => r matches Ok(f) && f@ == cdylib_file_name_of(n, p),
        },
{
    let lib_name = match toml_table_string(manifest, "lib", "name") {
        Ok(v) => v,
        Err(m) => {
            return Err(ManifestError::Unparsable(m));
        },
    };
    let package_name = if lib_name.is_some() {
        None
    } else {
        match toml_table_string(manifest, "package", "name") {
            Ok(v) => v,
            Err(m) => {
                return Err(ManifestError::Unparsable(m));
            },
        }
    };
    match cdylib_name_from(lib_name, package_name, p) {
        Some(f) => Ok(f),
        None => Err(ManifestError::NoLibraryName),
    }
}

/// The `[extension]` table of `RubyExt.toml`.
pub struct Extension {
    pub name: String,
}

/// The contents of `RubyExt.toml`.
pub struct RubyExt {
    pub extension: Extension,
}

/// The file name that Ruby loads the extension by.
pub open spec fn extension_file_name_of(name: Seq<char>, p: Platform) -> Seq<char> {
    name + "."@ + ruby_dlext_of(p)
}

/// The file name that Ruby loads the extension described by `ext` by,
/// such as `my_ext.so`.
pub fn extension_name(ext: &RubyExt, p: Platform) -> (r: String)
    ensures
        r@ == extension_file_name_of(ext.extension.name@, p),
{
    let mut r = ext.extension.name.clone();
    r.append(".");
    r.append(ruby_dlext(p));
    r
}

} // verus!
