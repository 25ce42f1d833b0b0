//! Native sources and compilers: what a file is by its extension, and which
//! command line a compiler takes.
use vstd::prelude::*;

use crate::path::{extension, has_extension, program_name, program_name_of, PathRule};
use crate::text::{ascii_lowered, lowercase_ascii, same_text, Text};

verus! {

/// The two kinds of command lines.
#[derive(Clone, Copy, Debug, PartialEq, Eq, Structural)]
pub enum NativeCompilerFamily {
    /// Options as `gcc` and `clang` take them.
    GnuLike,
    /// Options as `cl.exe` takes them.
    MsvcLike,
}

/// The languages of native sources.
#[derive(Clone, Copy, Debug, PartialEq, Eq, Structural)]
pub enum NativeSourceLanguage {
    /// C.
    C,
    /// C++.
    Cpp,
}

/// A path whose extension is one of C++ sources.
pub open spec fn is_cpp_source(path: Text) -> bool {
    ||| extension(path) == Some("cpp"@)
    ||| extension(path) == Some("cc"@)
    ||| extension(path) == Some("cxx"@)
}

/// A path whose extension is that of C sources.
pub open spec fn is_c_source(path: Text) -> bool {
    extension(path) == Some("c"@)
}

/// A path whose extension is one of C or C++ sources.
pub open spec fn is_native_source(path: Text) -> bool {
    is_c_source(path) || is_cpp_source(path)
}

/// A path whose extension is one of C or C++ headers.
pub open spec fn is_native_header(path: Text) -> bool {
    ||| extension(path) == Some("h"@)
    ||| extension(path) == Some("hh"@)
    ||| extension(path) == Some("hpp"@)
    ||| extension(path) == Some("hxx"@)
    ||| extension(path) == Some("inc"@)
    ||| extension(path) == Some("ipp"@)
    ||| extension(path) == Some("tpp"@)
}

/// The language of a source file.
pub open spec fn language_of(path: Text) -> Option<NativeSourceLanguage> {
    if is_c_source(path) {
        Some(NativeSourceLanguage::C)
    } else if is_cpp_source(path) {
        Some(NativeSourceLanguage::Cpp)
    } else {
        None
    }
}

/// The language of a source file, by its extension.
pub fn source_language(path: &str) -> (r: Option<NativeSourceLanguage>)
    ensures
        r == language_of(path@),
{
    if has_extension(path, "c") {
        Some(NativeSourceLanguage::C)
    } else if has_extension(path, "cpp") || has_extension(path, "cc") || has_extension(
        path,
        "cxx",
    ) {
        Some(NativeSourceLanguage::Cpp)
    } else {
        None
    }
}

/// Whether a path is that of a C or C++ source, by its extension.
pub fn is_native_source_path(path: &str) -> (r: bool)
    ensures
        r == is_native_source(path@),
{
    match source_language(path) {
        Some(_) => true,
        None => false,
    }
}

/// Whether a path is that of a C or C++ header, by its extension.
pub fn is_native_header_path(path: &str) -> (r: bool)
    ensures
        r == is_native_header(path@),
{
    has_extension(path, "h") || has_extension(path, "hh") || has_extension(path, "hpp")
        || has_extension(path, "hxx") || has_extension(path, "inc") || has_extension(path, "ipp")
        || has_extension(path, "tpp")
}

/// What the language of a source file is called.
pub open spec fn language_label(path: Text) -> Text {
    if is_c_source(path) {
        "C"@
    } else if is_cpp_source(path) {
        "C++"@
    } else {
        "native"@
    }
}

/// What the language of a source file is called.
pub fn native_source_language(path: &str) -> (r: &'static str)
    ensures
        r@ == language_label(path@),
{
    match source_language(path) {
        Some(NativeSourceLanguage::C) => "C",
        Some(NativeSourceLanguage::Cpp) => "C++",
        None => "native",
    }
}

/// The compilers, by the lower case of their file name, that take options as
/// `cl.exe` does.
pub open spec fn is_msvc_name(name: Text) -> bool {
    ||| name == "cl.exe"@
    ||| name == "cl"@
    ||| name == "clang-cl.exe"@
    ||| name == "clang-cl"@
    ||| name == "llvm-cl.exe"@
    ||| name == "llvm-cl"@
}

/// The family of a compiler, by its file name.
pub open spec fn family_of(cxx: Text, rule: PathRule) -> NativeCompilerFamily {
    let name = match program_name(cxx, rule) {
        Some(name) => name,
        None => Seq::empty(),
    };
    if is_msvc_name(ascii_lowered(name)) {
        NativeCompilerFamily::MsvcLike
    } else {
        NativeCompilerFamily::GnuLike
    }
}

/// The family of a compiler, by its file name.
pub fn compiler_family(cxx: &str, rule: PathRule) -> (r: NativeCompilerFamily)
    ensures
        r == family_of(cxx@, rule),
{
    let name = match program_name_of(cxx, rule) {
        Some(name) => name,
        None => String::new(),
    };
    let name = lowercase_ascii(name.as_str());
    let n = name.as_str();
    if same_text(n, "cl.exe") || same_text(n, "cl") || same_text(n, "clang-cl.exe") || same_text(
        n,
        "clang-cl",
    ) || same_text(n, "llvm-cl.exe") || same_text(n, "llvm-cl") {
        NativeCompilerFamily::MsvcLike
    } else {
        NativeCompilerFamily::GnuLike
    }
}

/// Each native source has a language, and nothing else has one.
pub proof fn lemma_language(path: Text)
    ensures
        is_native_source(path) <==> language_of(path) is Some,
{
}

} // verus!
