//! Targets of a package, out of a manifest in which all is explicit.
use vstd::prelude::*;

use crate::discover::{is_header_only, is_header_only_native_path};
use crate::env::first_of;
use crate::fs::FsView;
use crate::manifest::{build_scripts, edition_named, is_normalized_build, normalized_build};
use crate::manifest::{opt_build, parse_edition, tomls_view, Edition, TomlPackageBuild, TomlTarget};
use crate::manifest::TomlTargetView;
use crate::native::{is_native_source, is_native_source_path, language_label};
use crate::native::native_source_language;
use crate::normalize::opt_toml;
use crate::path::{file_stem, file_stem_of, join_path, joined};
use crate::text::{copy_list, copy_opt, copy_opt_list, join_list, join_texts, list_holds, no_texts};
use crate::text::lemma_append_associative;
use crate::text::{one_text, opt_text, opt_texts, push_text, res_text, res_texts, same_text, text2};
use crate::text::{text3, text5, text7, texts, Text};
use crate::validate::{script_stem, unique_names, unique_scripts, validate_unique_build_scripts};
use crate::validate::validate_unique_names;

verus! {

/// What a target is made as.
#[derive(Clone, Copy, Debug, PartialEq, Eq, Structural)]
pub enum TargetShape {
    /// A Rust library.
    Lib,
    /// A native library.
    NativeLib,
    /// A library of headers.
    HeaderOnlyLib,
    /// A Rust binary.
    Bin,
    /// A native binary.
    NativeBin,
    /// An example.
    Example,
    /// A test.
    Test,
    /// A benchmark.
    Bench,
    /// A build script.
    CustomBuild,
    /// A build script that is made up out of build dependencies.
    Metabuild,
}

/// Whether examples are taken from a target for documentation.
#[derive(Clone, Copy, Debug, PartialEq, Eq, Structural)]
pub enum ScrapeExamples {
    /// It is not said.
    Unset,
    /// They are not.
    Disabled,
    /// They are.
    Enabled,
}

/// A target of a package. A switch that is `None` has the value that targets of its
/// shape have by default.
#[derive(Debug)]
pub struct Target {
    /// What it is made as.
    pub shape: TargetShape,
    /// Its name.
    pub name: String,
    /// The name of the file that a binary is put in, where that is not its own.
    pub filename: Option<String>,
    /// Its source; none where that is made up.
    pub path: Option<String>,
    /// The kinds of crates.
    pub crate_types: Vec<String>,
    /// The features that it needs.
    pub required_features: Option<Vec<String>>,
    /// Its edition; none where its shape decides.
    pub edition: Option<Edition>,
    /// Whether its name was inferred.
    pub name_inferred: bool,
    /// Whether it is tested.
    pub tested: Option<bool>,
    /// Whether it is documented.
    pub documented: Option<bool>,
    /// Whether its documentation is tested.
    pub doctested: Option<bool>,
    /// Whether it is a benchmark.
    pub benched: Option<bool>,
    /// Whether it is run by the test harness.
    pub harness: Option<bool>,
    /// Whether it holds procedural macros.
    pub proc_macro: Option<bool>,
    /// Whether it is built for the host.
    pub for_host: Option<bool>,
    /// Whether examples are taken from it.
    pub doc_scrape_examples: ScrapeExamples,
    /// The directory of its public headers.
    pub native_include_root: Option<String>,
    /// The directory of its further sources.
    pub native_sources_root: Option<String>,
    /// Further include directories.
    pub native_include_dirs: Vec<String>,
    /// Macros to define.
    pub native_defines: Vec<String>,
    /// Directories that libraries are looked for in.
    pub native_link_search: Vec<String>,
    /// Libraries to link.
    pub native_link_libraries: Vec<String>,
    /// Linker options.
    pub native_link_args: Vec<String>,
}

/// What a target holds.
#[verifier::ext_equal]
pub struct TargetView {
    /// What it is made as.
    pub shape: TargetShape,
    /// Its name.
    pub name: Text,
    /// The name of the file that a binary is put in, where that is not its own.
    pub filename: Option<Text>,
    /// Its source; none where that is made up.
    pub path: Option<Text>,
    /// The kinds of crates.
    pub crate_types: Seq<Text>,
    /// The features that it needs.
    pub required_features: Option<Seq<Text>>,
    /// Its edition; none where its shape decides.
    pub edition: Option<Edition>,
    /// Whether its name was inferred.
    pub name_inferred: bool,
    /// Whether it is tested.
    pub tested: Option<bool>,
    /// Whether it is documented.
    pub documented: Option<bool>,
    /// Whether its documentation is tested.
    pub doctested: Option<bool>,
    /// Whether it is a benchmark.
    pub benched: Option<bool>,
    /// Whether it is run by the test harness.
    pub harness: Option<bool>,
    /// Whether it holds procedural macros.
    pub proc_macro: Option<bool>,
    /// Whether it is built for the host.
    pub for_host: Option<bool>,
    /// Whether examples are taken from it.
    pub doc_scrape_examples: ScrapeExamples,
    /// The directory of its public headers.
    pub native_include_root: Option<Text>,
    /// The directory of its further sources.
    pub native_sources_root: Option<Text>,
    /// Further include directories.
    pub native_include_dirs: Seq<Text>,
    /// Macros to define.
    pub native_defines: Seq<Text>,
    /// Directories that libraries are looked for in.
    pub native_link_search: Seq<Text>,
    /// Libraries to link.
    pub native_link_libraries: Seq<Text>,
    /// Linker options.
    pub native_link_args: Seq<Text>,
}

impl View for Target {
    type V = TargetView;

    open spec fn view(&self) -> TargetView {
        TargetView {
            shape: self.shape,
            name: self.name@,
            filename: opt_text(self.filename),
            path: opt_text(self.path),
            crate_types: texts(self.crate_types@),
            required_features: opt_texts(self.required_features),
            edition: self.edition,
            name_inferred: self.name_inferred,
            tested: self.tested,
            documented: self.documented,
            doctested: self.doctested,
            benched: self.benched,
            harness: self.harness,
            proc_macro: self.proc_macro,
            for_host: self.for_host,
            doc_scrape_examples: self.doc_scrape_examples,
            native_include_root: opt_text(self.native_include_root),
            native_sources_root: opt_text(self.native_sources_root),
            native_include_dirs: texts(self.native_include_dirs@),
            native_defines: texts(self.native_defines@),
            native_link_search: texts(self.native_link_search@),
            native_link_libraries: texts(self.native_link_libraries@),
            native_link_args: texts(self.native_link_args@),
        }
    }
}

/// What targets hold.
pub open spec fn targets_view(list: Seq<Target>) -> Seq<TargetView> {
    list.map_values(|t: Target| t@)
}

impl TargetView {
    /// A target of which nothing but its shape, name, source and edition is said.
    pub open spec fn plain(
        shape: TargetShape,
        name: Text,
        path: Option<Text>,
        edition: Option<Edition>,
    ) -> TargetView {
        TargetView {
            shape,
            name,
            filename: None,
            path,
            crate_types: Seq::empty(),
            required_features: None,
            edition,
            name_inferred: false,
            tested: None,
            documented: None,
            doctested: None,
            benched: None,
            harness: None,
            proc_macro: None,
            for_host: None,
            doc_scrape_examples: ScrapeExamples::Unset,
            native_include_root: None,
            native_sources_root: None,
            native_include_dirs: Seq::empty(),
            native_defines: Seq::empty(),
            native_link_search: Seq::empty(),
            native_link_libraries: Seq::empty(),
            native_link_args: Seq::empty(),
        }
    }

    /// It is native: its source is a native source, or it consists of headers.
    pub open spec fn is_native(self) -> bool {
        self.is_header_only() || (self.path matches Some(path) && is_native_source(path))
    }

    /// It consists of headers.
    pub open spec fn is_header_only(self) -> bool {
        self.shape == TargetShape::HeaderOnlyLib
    }

    /// It is a static library.
    pub open spec fn is_staticlib(self) -> bool {
        (self.shape == TargetShape::Lib || self.shape == TargetShape::NativeLib)
            && self.crate_types.contains("staticlib"@)
    }
}

impl Target {
    /// A target of which nothing but its shape, name, source and edition is said.
    pub fn plain(
        shape: TargetShape,
        name: &str,
        path: Option<String>,
        edition: Option<Edition>,
    ) -> (r: Target)
        ensures
            r@ == TargetView::plain(shape, name@, opt_text(path), edition),
    {
        Target {
            shape,
            name: name.to_owned(),
            filename: None,
            path,
            crate_types: no_texts(),
            required_features: None,
            edition,
            name_inferred: false,
            tested: None,
            documented: None,
            doctested: None,
            benched: None,
            harness: None,
            proc_macro: None,
            for_host: None,
            doc_scrape_examples: ScrapeExamples::Unset,
            native_include_root: None,
            native_sources_root: None,
            native_include_dirs: no_texts(),
            native_defines: no_texts(),
            native_link_search: no_texts(),
            native_link_libraries: no_texts(),
            native_link_args: no_texts(),
        }
    }

    /// Whether it is native.
    pub fn is_native(&self) -> (r: bool)
        ensures
            r == self@.is_native(),
    {
        self.shape == TargetShape::HeaderOnlyLib || match &self.path {
            Some(path) => is_native_source_path(path.as_str()),
            None => false,
        }
    }

    /// Whether it consists of headers.
    pub fn is_header_only(&self) -> (r: bool)
        ensures
            r == self@.is_header_only(),
    {
        self.shape == TargetShape::HeaderOnlyLib
    }

    /// Whether it is a static library.
    pub fn is_staticlib(&self) -> (r: bool)
        ensures
            r == self@.is_staticlib(),
    {
        (self.shape == TargetShape::Lib || self.shape == TargetShape::NativeLib) && list_holds(
            &self.crate_types,
            "staticlib",
        )
    }
}

/// A switch that is set anew, or stays as it was.
pub open spec fn switch(new: Option<bool>, old_value: Option<bool>) -> Option<bool> {
    match new {
        Some(_) => new,
        None => old_value,
    }
}

fn switched(new: Option<bool>, old_value: Option<bool>) -> (r: Option<bool>)
    ensures
        r == switch(new, old_value),
{
    match new {
        Some(b) => Some(b),
        None => old_value,
    }
}

/// Whether examples are taken from a target, as a manifest says.
pub open spec fn scrape_of(set: Option<bool>) -> ScrapeExamples {
    match set {
        None => ScrapeExamples::Unset,
        Some(on) => if on {
            ScrapeExamples::Enabled
        } else {
            ScrapeExamples::Disabled
        },
    }
}

/// A target with the switches of the manifest.
pub open spec fn with_switches(toml: TomlTargetView, target: TargetView) -> TargetView {
    TargetView {
        tested: switch(toml.test, target.tested),
        documented: switch(toml.doc, target.documented),
        doctested: switch(toml.doctest, target.doctested),
        benched: switch(toml.bench, target.benched),
        harness: switch(toml.harness, target.harness),
        proc_macro: switch(toml.is_proc_macro(), target.proc_macro),
        for_host: switch(toml.is_proc_macro(), target.for_host),
        doc_scrape_examples: scrape_of(toml.doc_scrape_examples),
        ..target
    }
}

/// A target with the switches and the edition of the manifest.
pub open spec fn configured(toml: TomlTargetView, target: TargetView) -> Result<
    TargetView,
    Text,
> {
    match toml.edition {
        None => Ok(with_switches(toml, target)),
        Some(edition) => match edition_named(edition) {
            Some(edition) => Ok(
                TargetView { edition: Some(edition), ..with_switches(toml, target) },
            ),
            None => Err("failed to parse the `edition` key"@),
        },
    }
}

/// What is warned of where a target has an edition of its own.
pub open spec fn configure_warnings(
    toml: TomlTargetView,
    name: Text,
    human: Text,
) -> Seq<Text> {
    match toml.edition {
        None => Seq::empty(),
        Some(_) => seq!["`edition` is set on "@ + human + " `"@ + name + "` which is deprecated"@],
    }
}

/// Gives a target the switches and the edition of the manifest.
pub fn configure(
    toml: &TomlTarget,
    target: &mut Target,
    target_kind_human: &str,
    warnings: &mut Vec<String>,
) -> (r: Result<(), String>)
    ensures
        match r {
            Ok(_) => configured(toml@, old(target)@) == Ok::<TargetView, Text>(final(target)@),
            Err(e) => configured(toml@, old(target)@) == Err::<TargetView, Text>(e@)
                && final(target)@ == with_switches(toml@, old(target)@),
        },
        texts(final(warnings)@) == texts(old(warnings)@) + configure_warnings(
            toml@,
            old(target)@.name,
            target_kind_human@,
        ),
{
    let ghost start = texts(warnings@);
    assert(start + Seq::<Text>::empty() =~= start);
    target.tested = switched(toml.test, target.tested);
    target.documented = switched(toml.doc, target.documented);
    target.doctested = switched(toml.doctest, target.doctested);
    target.benched = switched(toml.bench, target.benched);
    target.harness = switched(toml.harness, target.harness);
    target.proc_macro = switched(toml.proc_macro(), target.proc_macro);
    target.for_host = switched(toml.proc_macro(), target.for_host);
    target.doc_scrape_examples = match toml.doc_scrape_examples {
        None => ScrapeExamples::Unset,
        Some(on) => if on {
            ScrapeExamples::Enabled
        } else {
            ScrapeExamples::Disabled
        },
    };
    match &toml.edition {
        None => Ok(()),
        Some(edition) => {
            push_text(
                warnings,
                text5(
                    "`edition` is set on ",
                    target_kind_human,
                    " `",
                    target.name.as_str(),
                    "` which is deprecated",
                ),
            );
            assert(texts(warnings@) =~= start + seq![texts(warnings@).last()]);
            match parse_edition(edition.as_str()) {
                Some(edition) => {
                    target.edition = Some(edition);
                    Ok(())
                },
                None => Err("failed to parse the `edition` key".to_owned()),
            }
        },
    }
}

/// The manifest sets something that only native targets have.
pub open spec fn sets_native_keys(toml: TomlTargetView) -> bool {
    ||| toml.native_include_root is Some
    ||| toml.native_sources_root is Some
    ||| toml.native_include_dirs is Some
    ||| toml.native_defines is Some
    ||| toml.native_link_search is Some
    ||| toml.native_link_libraries is Some
    ||| toml.native_link_args is Some
}

/// Where a path that should be a directory is none.
pub open spec fn not_dir_message(name: Text, setting: Text, path: Text, close: Text) -> Text {
    "target `"@ + name + "` specifies `"@ + setting + path + close
        + "`, but that path is not a directory"@
}

fn not_dir_text(name: &str, setting: &str, path: &str, close: &str) -> (r: String)
    ensures
        r@ == not_dir_message(name@, setting@, path@, close@),
{
    text7(
        "target `",
        name,
        "` specifies `",
        setting,
        path,
        close,
        "`, but that path is not a directory",
    )
}

/// The first path of a list that is no directory of the package.
pub open spec fn first_not_dir(package_root: Text, fs: FsView, paths: Seq<Text>) -> Option<Text>
    decreases paths.len(),
{
    if paths.len() == 0 {
        None
    } else if !fs.has_dir(joined(package_root, paths[0])) {
        Some(paths[0])
    } else {
        first_not_dir(package_root, fs, paths.skip(1))
    }
}

fn find_not_dir(package_root: &str, fs: &FsView, paths: &Vec<String>) -> (r: Option<String>)
    ensures
        opt_text(r) == first_not_dir(package_root@, *fs, texts(paths@)),
{
    let ghost all = texts(paths@);
    let mut i: usize = 0;
    assert(all.skip(0) =~= all);
    while i < paths.len()
        invariant
            i <= paths@.len(),
            all == texts(paths@),
            first_not_dir(package_root@, *fs, all) == first_not_dir(
                package_root@,
                *fs,
                all.skip(i as int),
            ),
        decreases paths@.len() - i,
    {
        assert(all.skip(i as int)[0] == paths@[i as int]@);
        let at = join_path(package_root, paths[i].as_str());
        if !fs.is_dir(at.as_str()) {
            return Some(paths[i].clone());
        }
        assert(all.skip(i as int).skip(1) =~= all.skip(i + 1));
        i = i + 1;
    }
    None
}

/// Some text of a list is empty.
pub open spec fn some_empty(list: Seq<Text>) -> bool {
    exists|i: int| 0 <= i < list.len() && (#[trigger] list[i]).len() == 0
}

fn has_empty(list: &Vec<String>) -> (r: bool)
    ensures
        r == some_empty(texts(list@)),
{
    let ghost all = texts(list@);
    let mut i: usize = 0;
    while i < list.len()
        invariant
            i <= list@.len(),
            all == texts(list@),
            forall|k: int| 0 <= k < i ==> (#[trigger] all[k]).len() > 0,
        decreases list@.len() - i,
    {
        assert(all[i as int] == list@[i as int]@);
        if list[i].as_str().is_empty() {
            return true;
        }
        i = i + 1;
    }
    false
}

/// What is wrong with the directory of public headers: it is something else than a
/// directory.
pub open spec fn include_root_error(
    toml: TomlTargetView,
    package_root: Text,
    fs: FsView,
) -> Option<Text> {
    match toml.native_include_root {
        None => None,
        Some(path) => {
            let at = joined(package_root, path);
            if fs.has(at) && !fs.has_dir(at) {
                Some(
                    not_dir_message(
                        toml.name_text(),
                        "native-include-root = \""@,
                        path,
                        "\""@,
                    ),
                )
            } else {
                None
            }
        },
    }
}

/// Where a library of headers sets a key that it cannot have.
pub open spec fn header_only_message(name: Text, keys: Text) -> Text {
    "header-only native library `"@ + name + "` cannot set "@ + keys
}

/// What is wrong with the directory of further sources.
pub open spec fn sources_root_error(
    toml: TomlTargetView,
    header_only: bool,
    package_root: Text,
    fs: FsView,
) -> Option<Text> {
    match toml.native_sources_root {
        None => None,
        Some(path) => if header_only {
            Some(header_only_message(toml.name_text(), "`native-sources-root`"@))
        } else if !fs.has_dir(joined(package_root, path)) {
            Some(
                not_dir_message(toml.name_text(), "native-sources-root = \""@, path, "\""@),
            )
        } else {
            None
        },
    }
}

/// What is wrong with the further include directories.
pub open spec fn include_dirs_error(
    toml: TomlTargetView,
    header_only: bool,
    package_root: Text,
    fs: FsView,
) -> Option<Text> {
    match toml.native_include_dirs {
        None => None,
        Some(dirs) => if header_only {
            Some(header_only_message(toml.name_text(), "`native-include-dirs`"@))
        } else {
            match first_not_dir(package_root, fs, dirs) {
                Some(path) => Some(
                    not_dir_message(
                        toml.name_text(),
                        "native-include-dirs = [\""@,
                        path,
                        "\"]"@,
                    ),
                ),
                None => None,
            }
        },
    }
}

/// What is wrong with the macros to define.
pub open spec fn defines_error(toml: TomlTargetView, header_only: bool) -> Option<Text> {
    match toml.native_defines {
        None => None,
        Some(defines) => if header_only {
            Some(header_only_message(toml.name_text(), "`native-defines`"@))
        } else if some_empty(defines) {
            Some(
                "target `"@ + toml.name_text()
                    + "` specifies `native-defines`, but defines cannot be empty strings"@,
            )
        } else {
            None
        },
    }
}

/// What is wrong with setting anything for the linker.
pub open spec fn link_keys_error(
    toml: TomlTargetView,
    header_only: bool,
    staticlib: bool,
) -> Option<Text> {
    if toml.native_link_search is Some || toml.native_link_libraries is Some
        || toml.native_link_args is Some {
        if header_only {
            Some(header_only_message(toml.name_text(), "native link manifest keys"@))
        } else if staticlib {
            Some(
                "static native library `"@ + toml.name_text()
                    + "` cannot set native link manifest keys because static libraries are archived rather than linked"@,
            )
        } else {
            None
        }
    } else {
        None
    }
}

/// What is wrong with the directories that libraries are looked for in.
pub open spec fn link_search_error(
    toml: TomlTargetView,
    package_root: Text,
    fs: FsView,
) -> Option<Text> {
    match toml.native_link_search {
        None => None,
        Some(dirs) => match first_not_dir(package_root, fs, dirs) {
            Some(path) => Some(
                not_dir_message(
                    toml.name_text(),
                    "native-link-search = [\""@,
                    path,
                    "\"]"@,
                ),
            ),
            None => None,
        },
    }
}

/// What is wrong with the libraries to link.
pub open spec fn link_libraries_error(toml: TomlTargetView) -> Option<Text> {
    match toml.native_link_libraries {
        Some(list) => if some_empty(list) {
            Some(
                "target `"@ + toml.name_text()
                    + "` specifies `native-link-libraries`, but library names cannot be empty strings"@,
            )
        } else {
            None
        },
        None => None,
    }
}

/// What is wrong with the linker options.
pub open spec fn link_args_error(toml: TomlTargetView) -> Option<Text> {
    match toml.native_link_args {
        Some(list) => if some_empty(list) {
            Some(
                "target `"@ + toml.name_text()
                    + "` specifies `native-link-args`, but linker arguments cannot be empty strings"@,
            )
        } else {
            None
        },
        None => None,
    }
}

/// Where a target that is not native sets keys of native targets.
pub open spec fn not_native_message(name: Text) -> Text {
    "target `"@ + name
        + "` sets native-only manifest keys, but those keys are only supported for native C/C++ targets"@
}

/// The first thing that is wrong with the native keys of a manifest.
pub open spec fn native_keys_error(
    toml: TomlTargetView,
    target: TargetView,
    package_root: Text,
    fs: FsView,
) -> Option<Text> {
    let header_only = target.is_header_only();
    if !sets_native_keys(toml) {
        None
    } else if !target.is_native() {
        Some(not_native_message(toml.name_text()))
    } else {
        first_of(
            include_root_error(toml, package_root, fs),
            first_of(
                sources_root_error(toml, header_only, package_root, fs),
                first_of(
                    include_dirs_error(toml, header_only, package_root, fs),
                    first_of(
                        defines_error(toml, header_only),
                        first_of(
                            link_keys_error(toml, header_only, target.is_staticlib()),
                            first_of(
                                link_search_error(toml, package_root, fs),
                                first_of(link_libraries_error(toml), link_args_error(toml)),
                            ),
                        ),
                    ),
                ),
            ),
        )
    }
}

/// Paths below a directory.
pub open spec fn all_joined(package_root: Text, paths: Seq<Text>) -> Seq<Text> {
    paths.map_values(|p: Text| joined(package_root, p))
}

/// A target with what the manifest sets for native targets.
pub open spec fn with_native_keys(
    toml: TomlTargetView,
    target: TargetView,
    package_root: Text,
) -> TargetView {
    TargetView {
        native_include_root: match toml.native_include_root {
            Some(path) => Some(joined(package_root, path)),
            None => target.native_include_root,
        },
        native_sources_root: match toml.native_sources_root {
            Some(path) => Some(joined(package_root, path)),
            None => target.native_sources_root,
        },
        native_include_dirs: match toml.native_include_dirs {
            Some(dirs) => all_joined(package_root, dirs),
            None => target.native_include_dirs,
        },
        native_defines: match toml.native_defines {
            Some(defines) => defines,
            None => target.native_defines,
        },
        native_link_search: match toml.native_link_search {
            Some(dirs) => all_joined(package_root, dirs),
            None => target.native_link_search,
        },
        native_link_libraries: match toml.native_link_libraries {
            Some(list) => list,
            None => target.native_link_libraries,
        },
        native_link_args: match toml.native_link_args {
            Some(list) => list,
            None => target.native_link_args,
        },
        ..target
    }
}

fn check_include_root(toml: &TomlTarget, package_root: &str, fs: &FsView) -> (r: Option<String>)
    ensures
        opt_text(r) == include_root_error(toml@, package_root@, *fs),
{
    match &toml.native_include_root {
        None => None,
        Some(path) => {
            let at = join_path(package_root, path.as_str());
            if fs.exists_at(at.as_str()) && !fs.is_dir(at.as_str()) {
                Some(
                    not_dir_text(
                        toml.name_str(),
                        "native-include-root = \"",
                        path.as_str(),
                        "\"",
                    ),
                )
            } else {
                None
            }
        },
    }
}

fn header_only_text(name: &str, keys: &str) -> (r: String)
    ensures
        r@ == header_only_message(name@, keys@),
{
    let mut r = text3("header-only native library `", name, "` cannot set ");
    r.append(keys);
    r
}

fn check_sources_root(
    toml: &TomlTarget,
    header_only: bool,
    package_root: &str,
    fs: &FsView,
) -> (r: Option<String>)
    ensures
        opt_text(r) == sources_root_error(toml@, header_only, package_root@, *fs),
{
    match &toml.native_sources_root {
        None => None,
        Some(path) => {
            let at = join_path(package_root, path.as_str());
            if header_only {
                Some(header_only_text(toml.name_str(), "`native-sources-root`"))
            } else if !fs.is_dir(at.as_str()) {
                Some(
                    not_dir_text(
                        toml.name_str(),
                        "native-sources-root = \"",
                        path.as_str(),
                        "\"",
                    ),
                )
            } else {
                None
            }
        },
    }
}

fn check_include_dirs(
    toml: &TomlTarget,
    header_only: bool,
    package_root: &str,
    fs: &FsView,
) -> (r: Option<String>)
    ensures
        opt_text(r) == include_dirs_error(toml@, header_only, package_root@, *fs),
{
    match &toml.native_include_dirs {
        None => None,
        Some(dirs) => {
            if header_only {
                return Some(header_only_text(toml.name_str(), "`native-include-dirs`"));
            }
            match find_not_dir(package_root, fs, dirs) {
                Some(path) => Some(
                    not_dir_text(
                        toml.name_str(),
                        "native-include-dirs = [\"",
                        path.as_str(),
                        "\"]",
                    ),
                ),
                None => None,
            }
        },
    }
}

fn check_defines(toml: &TomlTarget, header_only: bool) -> (r: Option<String>)
    ensures
        opt_text(r) == defines_error(toml@, header_only),
{
    match &toml.native_defines {
        None => None,
        Some(defines) => {
            if header_only {
                Some(header_only_text(toml.name_str(), "`native-defines`"))
            } else if has_empty(defines) {
                Some(
                    text3(
                        "target `",
                        toml.name_str(),
                        "` specifies `native-defines`, but defines cannot be empty strings",
                    ),
                )
            } else {
                None
            }
        },
    }
}

fn check_link_keys(toml: &TomlTarget, header_only: bool, staticlib: bool) -> (r: Option<String>)
    ensures
        opt_text(r) == link_keys_error(toml@, header_only, staticlib),
{
    if toml.native_link_search.is_some() || toml.native_link_libraries.is_some()
        || toml.native_link_args.is_some() {
        if header_only {
            Some(header_only_text(toml.name_str(), "native link manifest keys"))
        } else if staticlib {
            Some(
                text3(
                    "static native library `",
                    toml.name_str(),
                    "` cannot set native link manifest keys because static libraries are archived rather than linked",
                ),
            )
        } else {
            None
        }
    } else {
        None
    }
}

fn check_link_search(toml: &TomlTarget, package_root: &str, fs: &FsView) -> (r: Option<String>)
    ensures
        opt_text(r) == link_search_error(toml@, package_root@, *fs),
{
    match &toml.native_link_search {
        None => None,
        Some(dirs) => match find_not_dir(package_root, fs, dirs) {
            Some(path) => Some(
                not_dir_text(
                    toml.name_str(),
                    "native-link-search = [\"",
                    path.as_str(),
                    "\"]",
                ),
            ),
            None => None,
        },
    }
}

fn check_link_libraries(toml: &TomlTarget) -> (r: Option<String>)
    ensures
        opt_text(r) == link_libraries_error(toml@),
{
    match &toml.native_link_libraries {
        Some(list) => if has_empty(list) {
            Some(
                text3(
                    "target `",
                    toml.name_str(),
                    "` specifies `native-link-libraries`, but library names cannot be empty strings",
                ),
            )
        } else {
            None
        },
        None => None,
    }
}

fn check_link_args(toml: &TomlTarget) -> (r: Option<String>)
    ensures
        opt_text(r) == link_args_error(toml@),
{
    match &toml.native_link_args {
        Some(list) => if has_empty(list) {
            Some(
                text3(
                    "target `",
                    toml.name_str(),
                    "` specifies `native-link-args`, but linker arguments cannot be empty strings",
                ),
            )
        } else {
            None
        },
        None => None,
    }
}

fn check_native_keys(toml: &TomlTarget, target: &Target, package_root: &str, fs: &FsView) -> (r:
    Option<String>)
    ensures
        opt_text(r) == native_keys_error(toml@, target@, package_root@, *fs),
{
    if toml.native_include_root.is_none() && toml.native_sources_root.is_none()
        && toml.native_include_dirs.is_none() && toml.native_defines.is_none()
        && toml.native_link_search.is_none() && toml.native_link_libraries.is_none()
        && toml.native_link_args.is_none() {
        return None;
    }
    if !target.is_native() {
        return Some(
            text3(
                "target `",
                toml.name_str(),
                "` sets native-only manifest keys, but those keys are only supported for native C/C++ targets",
            ),
        );
    }
    let header_only = target.is_header_only();
    match check_include_root(toml, package_root, fs) {
        Some(e) => {
            return Some(e);
        },
        None => {},
    }
    match check_sources_root(toml, header_only, package_root, fs) {
        Some(e) => {
            return Some(e);
        },
        None => {},
    }
    match check_include_dirs(toml, header_only, package_root, fs) {
        Some(e) => {
            return Some(e);
        },
        None => {},
    }
    match check_defines(toml, header_only) {
        Some(e) => {
            return Some(e);
        },
        None => {},
    }
    match check_link_keys(toml, header_only, target.is_staticlib()) {
        Some(e) => {
            return Some(e);
        },
        None => {},
    }
    match check_link_search(toml, package_root, fs) {
        Some(e) => {
            return Some(e);
        },
        None => {},
    }
    match check_link_libraries(toml) {
        Some(e) => {
            return Some(e);
        },
        None => {},
    }
    check_link_args(toml)
}

fn join_all(package_root: &str, paths: &Vec<String>) -> (r: Vec<String>)
    ensures
        texts(r@) == all_joined(package_root@, texts(paths@)),
{
    let ghost want = all_joined(package_root@, texts(paths@));
    let mut r: Vec<String> = no_texts();
    let mut i: usize = 0;
    while i < paths.len()
        invariant
            i <= paths@.len(),
            want == all_joined(package_root@, texts(paths@)),
            texts(r@) == want.take(i as int),
        decreases paths@.len() - i,
    {
        push_text(&mut r, join_path(package_root, paths[i].as_str()));
        assert(want[i as int] == joined(package_root@, paths@[i as int]@));
        assert(want.take(i + 1) =~= want.take(i as int).push(want[i as int]));
        i = i + 1;
    }
    assert(want.take(i as int) =~= want);
    r
}

/// Gives a target what the manifest sets for native targets. Where something is
/// wrong with that, the target stays as it was.
pub fn apply_native_manifest_overrides(
    toml: &TomlTarget,
    target: &mut Target,
    package_root: &str,
    fs: &FsView,
) -> (r: Result<(), String>)
    requires
        native_keys_error(toml@, old(target)@, package_root@, *fs) is Some ==> toml@.name is Some,
    ensures
        match r {
            Ok(_) => native_keys_error(toml@, old(target)@, package_root@, *fs) is None
                && final(target)@ == with_native_keys(toml@, old(target)@, package_root@),
            Err(e) => native_keys_error(toml@, old(target)@, package_root@, *fs) == Some(e@)
                && final(target)@ == old(target)@,
        },
{
    match check_native_keys(toml, target, package_root, fs) {
        Some(e) => {
            return Err(e);
        },
        None => {},
    }
    match &toml.native_include_root {
        Some(path) => {
            target.native_include_root = Some(join_path(package_root, path.as_str()));
        },
        None => {},
    }
    match &toml.native_sources_root {
        Some(path) => {
            target.native_sources_root = Some(join_path(package_root, path.as_str()));
        },
        None => {},
    }
    match &toml.native_include_dirs {
        Some(dirs) => {
            target.native_include_dirs = join_all(package_root, dirs);
        },
        None => {},
    }
    match &toml.native_defines {
        Some(defines) => {
            target.native_defines = copy_list(defines);
        },
        None => {},
    }
    match &toml.native_link_search {
        Some(dirs) => {
            target.native_link_search = join_all(package_root, dirs);
        },
        None => {},
    }
    match &toml.native_link_libraries {
        Some(list) => {
            target.native_link_libraries = copy_list(list);
        },
        None => {},
    }
    match &toml.native_link_args {
        Some(list) => {
            target.native_link_args = copy_list(list);
        },
        None => {},
    }
    Ok(())
}

/// A target with all that the manifest says of it.
pub open spec fn finished(
    toml: TomlTargetView,
    target: TargetView,
    package_root: Text,
    fs: FsView,
) -> Result<TargetView, Text> {
    match configured(toml, target) {
        Err(e) => Err(e),
        Ok(target) => match native_keys_error(toml, target, package_root, fs) {
            Some(e) => Err(e),
            None => Ok(with_native_keys(toml, target, package_root)),
        },
    }
}

/// What a result that is a target or a message holds.
pub open spec fn target_result(r: Result<Target, String>) -> Result<TargetView, Text> {
    match r {
        Ok(t) => Ok(t@),
        Err(e) => Err(e@),
    }
}

fn finish_target(
    toml: &TomlTarget,
    target: Target,
    human: &str,
    package_root: &str,
    fs: &FsView,
    warnings: &mut Vec<String>,
) -> (r: Result<Target, String>)
    requires
        toml@.name is Some,
    ensures
        target_result(r) == finished(toml@, target@, package_root@, *fs),
        texts(final(warnings)@) == texts(old(warnings)@) + configure_warnings(
            toml@,
            target@.name,
            human@,
        ),
{
    let mut target = target;
    match configure(toml, &mut target, human, warnings) {
        Ok(_) => {},
        Err(e) => {
            return Err(e);
        },
    }
    match apply_native_manifest_overrides(toml, &mut target, package_root, fs) {
        Ok(_) => Ok(target),
        Err(e) => Err(e),
    }
}

/// The target has a name and a path.
pub open spec fn is_ready(toml: TomlTargetView) -> bool {
    toml.name is Some && toml.path is Some
}

/// Where the source of a target stands.
pub open spec fn source_of(toml: TomlTargetView, package_root: Text) -> Text {
    match toml.path {
        Some(path) => joined(package_root, path),
        None => package_root,
    }
}

fn source_path(toml: &TomlTarget, package_root: &str) -> (r: String)
    requires
        is_ready(toml@),
    ensures
        r@ == source_of(toml@, package_root@),
{
    match &toml.path {
        Some(path) => join_path(package_root, path.as_str()),
        None => package_root.to_owned(),
    }
}

/// The kind of crate of a native library: a static one, unless the manifest asks
/// for a shared one.
pub open spec fn native_crate_type(toml: TomlTargetView, label: Text) -> Result<Text, Text> {
    match toml.crate_types() {
        None => Ok("staticlib"@),
        Some(types) => if types.len() == 0 {
            Ok("staticlib"@)
        } else if types.len() == 1 {
            if types[0] == "staticlib"@ {
                Ok("staticlib"@)
            } else if types[0] == "cdylib"@ {
                Ok("cdylib"@)
            } else {
                Err(
                    label + " library `"@ + toml.name_text()
                        + "` only supports crate-type `staticlib` or `cdylib`, found `"@ + types[0]
                        + "`"@,
                )
            }
        } else {
            Err(
                label + " library `"@ + toml.name_text()
                    + "` must specify at most one crate-type, found `"@ + join_texts(
                    types,
                    ", "@,
                ) + "`"@,
            )
        },
    }
}

fn native_crate_type_of(toml: &TomlTarget, label: &str) -> (r: Result<String, String>)
    ensures
        res_text(r) == native_crate_type(toml@, label@),
{
    match toml.crate_types() {
        None => Ok("staticlib".to_owned()),
        Some(types) => {
            assert(texts(types@).len() == types@.len());
            if types.len() == 0 {
                Ok("staticlib".to_owned())
            } else if types.len() == 1 {
                assert(texts(types@)[0] == types@[0]@);
                if same_text(types[0].as_str(), "staticlib") {
                    Ok("staticlib".to_owned())
                } else if same_text(types[0].as_str(), "cdylib") {
                    Ok("cdylib".to_owned())
                } else {
                    let mut e = text5(
                        label,
                        " library `",
                        toml.name_str(),
                        "` only supports crate-type `staticlib` or `cdylib`, found `",
                        types[0].as_str(),
                    );
                    e.append("`");
                    Err(e)
                }
            } else {
                let list = join_list(types, ", ");
                let mut e = text5(
                    label,
                    " library `",
                    toml.name_str(),
                    "` must specify at most one crate-type, found `",
                    list.as_str(),
                );
                e.append("`");
                Err(e)
            }
        },
    }
}

/// The kinds of crates of a Rust library, and what is warned of.
pub open spec fn rust_crate_types(toml: TomlTargetView) -> (Result<Seq<Text>, Text>, Seq<Text>) {
    match toml.crate_types() {
        Some(kinds) => if kinds.contains("dylib"@) && kinds.contains("cdylib"@) {
            (
                Err(
                    "library `"@ + toml.name_text()
                        + "` cannot set the crate type of both `dylib` and `cdylib`"@,
                ),
                Seq::empty(),
            )
        } else if kinds.contains("proc-macro"@) {
            (
                if kinds.len() > 1 {
                    Err("cannot mix `proc-macro` crate type with others"@)
                } else {
                    Ok(seq!["proc-macro"@])
                },
                seq![
                    "library `"@ + toml.name_text()
                        + "` should only specify `proc-macro = true` instead of setting `crate-type`"@,
                ],
            )
        } else {
            (Ok(kinds), Seq::empty())
        },
        None => if toml.is_proc_macro() == Some(true) {
            (Ok(seq!["proc-macro"@]), Seq::empty())
        } else {
            (Ok(seq!["lib"@]), Seq::empty())
        },
    }
}

fn rust_crate_types_of(toml: &TomlTarget, warnings: &mut Vec<String>) -> (r: Result<
    Vec<String>,
    String,
>)
    ensures
        res_texts(r) == rust_crate_types(toml@).0,
        texts(final(warnings)@) == texts(old(warnings)@) + rust_crate_types(toml@).1,
{
    let ghost start = texts(warnings@);
    assert(start + Seq::<Text>::empty() =~= start);
    match toml.crate_types() {
        Some(kinds) => {
            assert(texts(kinds@).len() == kinds@.len());
            if list_holds(kinds, "dylib") && list_holds(kinds, "cdylib") {
                return Err(
                    text3(
                        "library `",
                        toml.name_str(),
                        "` cannot set the crate type of both `dylib` and `cdylib`",
                    ),
                );
            }
            if list_holds(kinds, "proc-macro") {
                push_text(
                    warnings,
                    text3(
                        "library `",
                        toml.name_str(),
                        "` should only specify `proc-macro = true` instead of setting `crate-type`",
                    ),
                );
                assert(texts(warnings@) =~= start + seq![texts(warnings@).last()]);
                if kinds.len() > 1 {
                    return Err("cannot mix `proc-macro` crate type with others".to_owned());
                }
                let one = one_text("proc-macro".to_owned());
                assert(texts(one@) =~= seq!["proc-macro"@]);
                return Ok(one);
            }
            Ok(copy_list(kinds))
        },
        None => {
            let one = if toml.proc_macro() == Some(true) {
                one_text("proc-macro".to_owned())
            } else {
                one_text("lib".to_owned())
            };
            Ok(one)
        },
    }
}

/// Where a library of headers has a kind of crate.
pub open spec fn header_only_crate_type_message(name: Text) -> Text {
    "header-only native library `"@ + name
        + "` cannot set `crate-type`; remove it or point `lib.path` to a compilable source file"@
}

/// The library of a package and what is warned of. By its source it is native, a
/// library of headers, or a Rust library.
pub open spec fn lib_target(
    name_inferred: bool,
    lib: TomlTargetView,
    package_root: Text,
    edition: Edition,
    fs: FsView,
) -> (Result<TargetView, Text>, Seq<Text>) {
    let path = source_of(lib, package_root);
    let name = lib.name_text();
    let warned = configure_warnings(lib, name, "library"@);
    if is_native_source(path) {
        match native_crate_type(lib, language_label(path)) {
            Err(e) => (Err(e), Seq::empty()),
            Ok(crate_type) => (
                match finished(
                    lib,
                    TargetView {
                        crate_types: seq![crate_type],
                        ..TargetView::plain(TargetShape::NativeLib, name, Some(path), Some(edition))
                    },
                    package_root,
                    fs,
                ) {
                    Ok(t) => Ok(TargetView { name_inferred, ..t }),
                    Err(e) => Err(e),
                },
                warned,
            ),
        }
    } else if is_header_only(path, fs) {
        if lib.crate_types() matches Some(types) && types.len() > 0 {
            (Err(header_only_crate_type_message(name)), Seq::empty())
        } else {
            (
                match finished(
                    lib,
                    TargetView::plain(TargetShape::HeaderOnlyLib, name, Some(path), Some(edition)),
                    package_root,
                    fs,
                ) {
                    Ok(t) => Ok(TargetView { name_inferred, ..t }),
                    Err(e) => Err(e),
                },
                warned,
            )
        }
    } else {
        let (types, more) = rust_crate_types(lib);
        match types {
            Err(e) => (Err(e), more),
            Ok(crate_types) => (
                match configured(
                    lib,
                    TargetView {
                        crate_types,
                        ..TargetView::plain(TargetShape::Lib, name, Some(path), Some(edition))
                    },
                ) {
                    Ok(t) => Ok(TargetView { name_inferred, ..t }),
                    Err(e) => Err(e),
                },
                more + warned,
            ),
        }
    }
}

/// The name of a library was inferred: the manifest has no library, or none with a
/// name.
pub open spec fn lib_name_inferred(original: Option<TomlTargetView>) -> bool {
    original matches Some(lib) ==> lib.name is None
}

/// What a result that is a target, if any, or a message holds.
pub open spec fn opt_target_result(r: Result<Option<Target>, String>) -> Result<
    Option<TargetView>,
    Text,
> {
    match r {
        Ok(Some(t)) => Ok(Some(t@)),
        Ok(None) => Ok(None),
        Err(e) => Err(e@),
    }
}

/// The library of a package, if it has one.
pub open spec fn opt_lib_target(
    original: Option<TomlTargetView>,
    lib: Option<TomlTargetView>,
    package_root: Text,
    edition: Edition,
    fs: FsView,
) -> (Result<Option<TargetView>, Text>, Seq<Text>) {
    match lib {
        None => (Ok(None), Seq::empty()),
        Some(lib) => {
            let (target, warned) = lib_target(
                lib_name_inferred(original),
                lib,
                package_root,
                edition,
                fs,
            );
            (
                match target {
                    Ok(t) => Ok(Some(t)),
                    Err(e) => Err(e),
                },
                warned,
            )
        },
    }
}

/// The library of a package.
pub fn to_lib_target(
    original_lib: &Option<TomlTarget>,
    normalized_lib: &Option<TomlTarget>,
    package_root: &str,
    edition: Edition,
    fs: &FsView,
    warnings: &mut Vec<String>,
) -> (r: Result<Option<Target>, String>)
    requires
        opt_toml(*normalized_lib) matches Some(lib) ==> is_ready(lib),
    ensures
        opt_target_result(r) == opt_lib_target(
            opt_toml(*original_lib),
            opt_toml(*normalized_lib),
            package_root@,
            edition,
            *fs,
        ).0,
        texts(final(warnings)@) == texts(old(warnings)@) + opt_lib_target(
            opt_toml(*original_lib),
            opt_toml(*normalized_lib),
            package_root@,
            edition,
            *fs,
        ).1,
{
    let ghost start = texts(warnings@);
    assert(start + Seq::<Text>::empty() =~= start);
    let lib = match normalized_lib {
        Some(lib) => lib,
        None => {
            return Ok(None);
        },
    };
    let name_inferred = match original_lib {
        Some(lib) => lib.name.is_none(),
        None => true,
    };
    let path = source_path(lib, package_root);
    if is_native_source_path(path.as_str()) {
        let label = native_source_language(path.as_str());
        let crate_type = match native_crate_type_of(lib, label) {
            Ok(crate_type) => crate_type,
            Err(e) => {
                return Err(e);
            },
        };
        let mut target = Target::plain(
            TargetShape::NativeLib,
            lib.name_str(),
            Some(path),
            Some(edition),
        );
        target.crate_types = one_text(crate_type);
        assert(texts(target.crate_types@) =~= seq![crate_type@]);
        return match finish_target(lib, target, "library", package_root, fs, warnings) {
            Ok(t) => {
                let mut t = t;
                t.name_inferred = name_inferred;
                Ok(Some(t))
            },
            Err(e) => Err(e),
        };
    }
    if is_header_only_native_path(path.as_str(), fs) {
        match lib.crate_types() {
            Some(types) => {
                assert(texts(types@).len() == types@.len());
                if types.len() > 0 {
                    return Err(
                        text3(
                            "header-only native library `",
                            lib.name_str(),
                            "` cannot set `crate-type`; remove it or point `lib.path` to a compilable source file",
                        ),
                    );
                }
            },
            None => {},
        }
        let target = Target::plain(
            TargetShape::HeaderOnlyLib,
            lib.name_str(),
            Some(path),
            Some(edition),
        );
        return match finish_target(lib, target, "library", package_root, fs, warnings) {
            Ok(t) => {
                let mut t = t;
                t.name_inferred = name_inferred;
                Ok(Some(t))
            },
            Err(e) => Err(e),
        };
    }
    let crate_types = match rust_crate_types_of(lib, warnings) {
        Ok(types) => types,
        Err(e) => {
            return Err(e);
        },
    };
    let mut target = Target::plain(TargetShape::Lib, lib.name_str(), Some(path), Some(edition));
    target.crate_types = crate_types;
    let r = configure(lib, &mut target, "library", warnings);
    assert(texts(warnings@) =~= start + opt_lib_target(
        opt_toml(*original_lib),
        opt_toml(*normalized_lib),
        package_root@,
        edition,
        *fs,
    ).1);
    match r {
        Ok(_) => {
            target.name_inferred = name_inferred;
            Ok(Some(target))
        },
        Err(e) => Err(e),
    }
}

/// The groups of targets besides the library.
#[derive(Clone, Copy, Debug, PartialEq, Eq, Structural)]
pub enum TargetGroup {
    /// Binaries.
    Bins,
    /// Examples.
    Examples,
    /// Tests.
    Tests,
    /// Benchmarks.
    Benches,
}

impl TargetGroup {
    /// What targets of the group are called.
    pub open spec fn human(self) -> Text {
        match self {
            TargetGroup::Bins => "binary"@,
            TargetGroup::Examples => "example"@,
            TargetGroup::Tests => "test"@,
            TargetGroup::Benches => "benchmark"@,
        }
    }

    /// What targets of the group are called where two of them have one name.
    pub open spec fn unique_kind(self) -> Text {
        match self {
            TargetGroup::Bins => "binary"@,
            TargetGroup::Examples => "example"@,
            TargetGroup::Tests => "test"@,
            TargetGroup::Benches => "bench"@,
        }
    }

    fn human_str(self) -> (r: &'static str)
        ensures
            r@ == self.human(),
    {
        match self {
            TargetGroup::Bins => "binary",
            TargetGroup::Examples => "example",
            TargetGroup::Tests => "test",
            TargetGroup::Benches => "benchmark",
        }
    }

    fn unique_kind_str(self) -> (r: &'static str)
        ensures
            r@ == self.unique_kind(),
    {
        match self {
            TargetGroup::Bins => "binary",
            TargetGroup::Examples => "example",
            TargetGroup::Tests => "test",
            TargetGroup::Benches => "bench",
        }
    }
}

/// Each kind of crate is a binary.
pub open spec fn each_bin(list: Seq<Text>) -> bool {
    forall|i: int| 0 <= i < list.len() ==> #[trigger] list[i] == "bin"@
}

/// The kinds of crates are those of an example that can be run.
pub open spec fn only_bin(types: Option<Seq<Text>>) -> bool {
    match types {
        None => true,
        Some(list) => each_bin(list),
    }
}

fn has_only_bin(types: &Option<Vec<String>>) -> (r: bool)
    ensures
        r == only_bin(opt_texts(*types)),
{
    match types {
        None => true,
        Some(list) => all_bin(list),
    }
}

fn all_bin(list: &Vec<String>) -> (r: bool)
    ensures
        r == each_bin(texts(list@)),
{
    let ghost all = texts(list@);
    let mut i: usize = 0;
    while i < list.len()
        invariant
            i <= list@.len(),
            all == texts(list@),
            forall|k: int| 0 <= k < i ==> #[trigger] all[k] == "bin"@,
        decreases list@.len() - i,
    {
        assert(all[i as int] == list@[i as int]@);
        if !same_text(list[i].as_str(), "bin") {
            return false;
        }
        i = i + 1;
    }
    true
}

/// Where a native example cannot be run.
pub open spec fn example_message(name: Text) -> Text {
    "native C/C++ example `"@ + name
        + "` must be an executable target; remove `crate-type` or use only `bin`"@
}

/// A target of a group, before the manifest's switches and native keys are applied.
pub open spec fn base_target(
    group: TargetGroup,
    toml: TomlTargetView,
    package_root: Text,
    edition: Edition,
) -> Result<TargetView, Text> {
    let path = source_of(toml, package_root);
    let name = toml.name_text();
    match group {
        TargetGroup::Bins => Ok(
            TargetView {
                filename: toml.filename,
                required_features: toml.required_features,
                ..TargetView::plain(
                    if is_native_source(path) {
                        TargetShape::NativeBin
                    } else {
                        TargetShape::Bin
                    },
                    name,
                    Some(path),
                    Some(edition),
                )
            },
        ),
        TargetGroup::Examples => if is_native_source(path) && !only_bin(toml.crate_types()) {
            Err(example_message(name))
        } else {
            Ok(
                TargetView {
                    crate_types: match toml.crate_types() {
                        Some(types) => types,
                        None => Seq::empty(),
                    },
                    required_features: toml.required_features,
                    ..TargetView::plain(TargetShape::Example, name, Some(path), Some(edition))
                },
            )
        },
        TargetGroup::Tests => Ok(
            TargetView {
                required_features: toml.required_features,
                ..TargetView::plain(TargetShape::Test, name, Some(path), Some(edition))
            },
        ),
        TargetGroup::Benches => Ok(
            TargetView {
                required_features: toml.required_features,
                ..TargetView::plain(TargetShape::Bench, name, Some(path), Some(edition))
            },
        ),
    }
}

/// A target of a group, and what is warned of.
pub open spec fn group_target(
    group: TargetGroup,
    toml: TomlTargetView,
    package_root: Text,
    edition: Edition,
    fs: FsView,
) -> (Result<TargetView, Text>, Seq<Text>) {
    match base_target(group, toml, package_root, edition) {
        Err(e) => (Err(e), Seq::empty()),
        Ok(target) => (
            finished(toml, target, package_root, fs),
            configure_warnings(toml, toml.name_text(), group.human()),
        ),
    }
}

fn make_base_target(
    group: TargetGroup,
    toml: &TomlTarget,
    package_root: &str,
    edition: Edition,
) -> (r: Result<Target, String>)
    requires
        is_ready(toml@),
    ensures
        target_result(r) == base_target(group, toml@, package_root@, edition),
        r matches Ok(t) ==> t@.name == toml@.name_text(),
{
    let path = source_path(toml, package_root);
    let is_native = is_native_source_path(path.as_str());
    let name = toml.name_str();
    match group {
        TargetGroup::Bins => {
            let shape = if is_native {
                TargetShape::NativeBin
            } else {
                TargetShape::Bin
            };
            let mut target = Target::plain(shape, name, Some(path), Some(edition));
            target.filename = copy_opt(&toml.filename);
            target.required_features = copy_opt_list(&toml.required_features);
            Ok(target)
        },
        TargetGroup::Examples => {
            if is_native && !has_only_bin(toml.crate_types()) {
                return Err(
                    text3(
                        "native C/C++ example `",
                        name,
                        "` must be an executable target; remove `crate-type` or use only `bin`",
                    ),
                );
            }
            let mut target = Target::plain(TargetShape::Example, name, Some(path), Some(edition));
            match toml.crate_types() {
                Some(types) => {
                    target.crate_types = copy_list(types);
                },
                None => {},
            }
            target.required_features = copy_opt_list(&toml.required_features);
            Ok(target)
        },
        TargetGroup::Tests => {
            let mut target = Target::plain(TargetShape::Test, name, Some(path), Some(edition));
            target.required_features = copy_opt_list(&toml.required_features);
            Ok(target)
        },
        TargetGroup::Benches => {
            let mut target = Target::plain(TargetShape::Bench, name, Some(path), Some(edition));
            target.required_features = copy_opt_list(&toml.required_features);
            Ok(target)
        },
    }
}

fn make_target(
    group: TargetGroup,
    toml: &TomlTarget,
    package_root: &str,
    edition: Edition,
    fs: &FsView,
    warnings: &mut Vec<String>,
) -> (r: Result<Target, String>)
    requires
        is_ready(toml@),
    ensures
        target_result(r) == group_target(group, toml@, package_root@, edition, *fs).0,
        texts(final(warnings)@) == texts(old(warnings)@) + group_target(
            group,
            toml@,
            package_root@,
            edition,
            *fs,
        ).1,
{
    let ghost start = texts(warnings@);
    assert(start + Seq::<Text>::empty() =~= start);
    match make_base_target(group, toml, package_root, edition) {
        Err(e) => Err(e),
        Ok(target) => finish_target(
            toml,
            target,
            group.human_str(),
            package_root,
            fs,
            warnings,
        ),
    }
}

/// The first `n` targets of a group, or the message of the first that fails; and
/// what is warned of up to there.
pub open spec fn group_targets(
    group: TargetGroup,
    tomls: Seq<TomlTargetView>,
    package_root: Text,
    edition: Edition,
    fs: FsView,
    n: nat,
) -> (Result<Seq<TargetView>, Text>, Seq<Text>)
    decreases n,
{
    if n == 0 {
        (Ok(Seq::empty()), Seq::empty())
    } else {
        let (before, warned) = group_targets(
            group,
            tomls,
            package_root,
            edition,
            fs,
            (n - 1) as nat,
        );
        match before {
            Err(e) => (Err(e), warned),
            Ok(list) => {
                let (target, more) = group_target(
                    group,
                    tomls[n - 1],
                    package_root,
                    edition,
                    fs,
                );
                (
                    match target {
                        Ok(t) => Ok(list.push(t)),
                        Err(e) => Err(e),
                    },
                    warned + more,
                )
            },
        }
    }
}

proof fn lemma_group_failed(
    group: TargetGroup,
    tomls: Seq<TomlTargetView>,
    package_root: Text,
    edition: Edition,
    fs: FsView,
    k: nat,
    n: nat,
)
    requires
        k <= n,
        group_targets(group, tomls, package_root, edition, fs, k).0 is Err,
    ensures
        group_targets(group, tomls, package_root, edition, fs, n) == group_targets(
            group,
            tomls,
            package_root,
            edition,
            fs,
            k,
        ),
    decreases n,
{
    if k < n {
        lemma_group_failed(group, tomls, package_root, edition, fs, k, (n - 1) as nat);
    }
}

/// What a result that is targets or a message holds.
pub open spec fn targets_result(r: Result<Vec<Target>, String>) -> Result<Seq<TargetView>, Text> {
    match r {
        Ok(list) => Ok(targets_view(list@)),
        Err(e) => Err(e@),
    }
}

/// The targets of a group: their names are unique, and each is made in turn.
pub open spec fn all_group_targets(
    group: TargetGroup,
    tomls: Seq<TomlTargetView>,
    package_root: Text,
    edition: Edition,
    fs: FsView,
) -> (Result<Seq<TargetView>, Text>, Seq<Text>) {
    match unique_names(tomls, group.unique_kind()) {
        Err(e) => (Err(e), Seq::empty()),
        Ok(_) => group_targets(group, tomls, package_root, edition, fs, tomls.len()),
    }
}

/// Each target of a list has a name and a path.
pub open spec fn all_ready(tomls: Seq<TomlTarget>) -> bool {
    forall|i: int| 0 <= i < tomls.len() ==> is_ready((#[trigger] tomls[i])@)
}

fn push_target(list: &mut Vec<Target>, target: Target)
    ensures
        targets_view(final(list)@) == targets_view(old(list)@).push(target@),
{
    let ghost before = list@;
    list.push(target);
    assert(targets_view(list@) =~= targets_view(before).push(target@));
}

fn make_targets(
    group: TargetGroup,
    tomls: &Vec<TomlTarget>,
    package_root: &str,
    edition: Edition,
    fs: &FsView,
    warnings: &mut Vec<String>,
) -> (r: Result<Vec<Target>, String>)
    requires
        all_ready(tomls@),
    ensures
        targets_result(r) == all_group_targets(
            group,
            tomls_view(tomls@),
            package_root@,
            edition,
            *fs,
        ).0,
        texts(final(warnings)@) == texts(old(warnings)@) + all_group_targets(
            group,
            tomls_view(tomls@),
            package_root@,
            edition,
            *fs,
        ).1,
{
    let ghost start = texts(warnings@);
    let ghost all = tomls_view(tomls@);
    proof {
        lemma_append_associative(start, Seq::empty(), Seq::empty());
    }
    match validate_unique_names(tomls, group.unique_kind_str()) {
        Ok(_) => {},
        Err(e) => {
            return Err(e);
        },
    }
    let mut result: Vec<Target> = Vec::new();
    let mut i: usize = 0;
    assert(targets_view(result@) =~= Seq::empty());
    assert(all.len() == tomls@.len());
    while i < tomls.len()
        invariant
            i <= tomls@.len(),
            all_ready(tomls@),
            all == tomls_view(tomls@),
            all.len() == tomls@.len(),
            start == texts(old(warnings)@),
            unique_names(all, group.unique_kind()) is Ok,
            group_targets(
                group,
                all,
                package_root@,
                edition,
                *fs,
                i as nat,
            ).0 == Ok::<Seq<TargetView>, Text>(targets_view(result@)),
            texts(warnings@) == start + group_targets(
                group,
                all,
                package_root@,
                edition,
                *fs,
                i as nat,
            ).1,
        decreases tomls@.len() - i,
    {
        let ghost warned = group_targets(group, all, package_root@, edition, *fs, i as nat).1;
        assert(all[i as int] == tomls@[i as int]@);
        let made = make_target(group, &tomls[i], package_root, edition, fs, warnings);
        proof {
            lemma_append_associative(
                start,
                warned,
                group_target(group, all[i as int], package_root@, edition, *fs).1,
            );
        }
        match made {
            Ok(t) => push_target(&mut result, t),
            Err(e) => {
                proof {
                    lemma_group_failed(
                        group,
                        all,
                        package_root@,
                        edition,
                        *fs,
                        (i + 1) as nat,
                        all.len(),
                    );
                }
                return Err(e);
            },
        }
        i = i + 1;
    }
    Ok(result)
}

/// Some binary is put in a file of another name.
pub open spec fn some_filename(bins: Seq<TomlTargetView>) -> bool {
    exists|i: int| 0 <= i < bins.len() && (#[trigger] bins[i]).filename is Some
}

fn has_filename(bins: &Vec<TomlTarget>) -> (r: bool)
    ensures
        r == some_filename(tomls_view(bins@)),
{
    let ghost all = tomls_view(bins@);
    let mut i: usize = 0;
    while i < bins.len()
        invariant
            i <= bins@.len(),
            all == tomls_view(bins@),
            forall|k: int| 0 <= k < i ==> (#[trigger] all[k]).filename is None,
        decreases bins@.len() - i,
    {
        assert(all[i as int] == bins@[i as int]@);
        if bins[i].filename.is_some() {
            return true;
        }
        i = i + 1;
    }
    false
}

/// The binaries of a package. Where files of another name are not switched on,
/// `filename_gate` is the message that says so.
pub open spec fn bin_targets(
    filename_gate: Option<Text>,
    bins: Seq<TomlTargetView>,
    package_root: Text,
    edition: Edition,
    fs: FsView,
) -> (Result<Seq<TargetView>, Text>, Seq<Text>) {
    if some_filename(bins) && filename_gate is Some {
        (Err(filename_gate->0), Seq::empty())
    } else {
        all_group_targets(TargetGroup::Bins, bins, package_root, edition, fs)
    }
}

/// The binaries of a package.
pub fn to_bin_targets(
    filename_gate: &Option<String>,
    bins: &Vec<TomlTarget>,
    package_root: &str,
    edition: Edition,
    fs: &FsView,
    warnings: &mut Vec<String>,
) -> (r: Result<Vec<Target>, String>)
    requires
        all_ready(bins@),
    ensures
        targets_result(r) == bin_targets(
            opt_text(*filename_gate),
            tomls_view(bins@),
            package_root@,
            edition,
            *fs,
        ).0,
        texts(final(warnings)@) == texts(old(warnings)@) + bin_targets(
            opt_text(*filename_gate),
            tomls_view(bins@),
            package_root@,
            edition,
            *fs,
        ).1,
{
    proof {
        lemma_append_associative(texts(warnings@), Seq::empty(), Seq::empty());
    }
    match filename_gate {
        Some(e) => {
            if has_filename(bins) {
                return Err(e.clone());
            }
        },
        None => {},
    }
    make_targets(TargetGroup::Bins, bins, package_root, edition, fs, warnings)
}

/// The examples of a package.
pub fn to_example_targets(
    targets: &Vec<TomlTarget>,
    package_root: &str,
    edition: Edition,
    fs: &FsView,
    warnings: &mut Vec<String>,
) -> (r: Result<Vec<Target>, String>)
    requires
        all_ready(targets@),
    ensures
        targets_result(r) == all_group_targets(
            TargetGroup::Examples,
            tomls_view(targets@),
            package_root@,
            edition,
            *fs,
        ).0,
        texts(final(warnings)@) == texts(old(warnings)@) + all_group_targets(
            TargetGroup::Examples,
            tomls_view(targets@),
            package_root@,
            edition,
            *fs,
        ).1,
{
    make_targets(TargetGroup::Examples, targets, package_root, edition, fs, warnings)
}

/// The tests of a package.
pub fn to_test_targets(
    targets: &Vec<TomlTarget>,
    package_root: &str,
    edition: Edition,
    fs: &FsView,
    warnings: &mut Vec<String>,
) -> (r: Result<Vec<Target>, String>)
    requires
        all_ready(targets@),
    ensures
        targets_result(r) == all_group_targets(
            TargetGroup::Tests,
            tomls_view(targets@),
            package_root@,
            edition,
            *fs,
        ).0,
        texts(final(warnings)@) == texts(old(warnings)@) + all_group_targets(
            TargetGroup::Tests,
            tomls_view(targets@),
            package_root@,
            edition,
            *fs,
        ).1,
{
    make_targets(TargetGroup::Tests, targets, package_root, edition, fs, warnings)
}

/// The benchmarks of a package.
pub fn to_bench_targets(
    targets: &Vec<TomlTarget>,
    package_root: &str,
    edition: Edition,
    fs: &FsView,
    warnings: &mut Vec<String>,
) -> (r: Result<Vec<Target>, String>)
    requires
        all_ready(targets@),
    ensures
        targets_result(r) == all_group_targets(
            TargetGroup::Benches,
            tomls_view(targets@),
            package_root@,
            edition,
            *fs,
        ).0,
        texts(final(warnings)@) == texts(old(warnings)@) + all_group_targets(
            TargetGroup::Benches,
            tomls_view(targets@),
            package_root@,
            edition,
            *fs,
        ).1,
{
    make_targets(TargetGroup::Benches, targets, package_root, edition, fs, warnings)
}

/// The target of a build script.
pub open spec fn script_target(script: Text, package_root: Text, edition: Edition) -> TargetView {
    TargetView::plain(
        TargetShape::CustomBuild,
        "build-script-"@ + script_stem(script),
        Some(joined(package_root, script)),
        Some(edition),
    )
}

/// The targets of build scripts.
pub open spec fn script_targets(
    scripts: Seq<Text>,
    package_root: Text,
    edition: Edition,
) -> Seq<TargetView> {
    scripts.map_values(|s: Text| script_target(s, package_root, edition))
}

/// The first name that is not in a list.
pub open spec fn first_missing(names: Seq<Text>, list: Seq<Text>) -> Option<Text>
    decreases names.len(),
{
    if names.len() == 0 {
        None
    } else if !list.contains(names[0]) {
        Some(names[0])
    } else {
        first_missing(names.skip(1), list)
    }
}

/// The targets of the build scripts of a package.
pub open spec fn build_targets(
    scripts: Option<Seq<Text>>,
    metabuild: Option<Seq<Text>>,
    build_dependencies: Seq<Text>,
    package_name: Text,
    package_root: Text,
    edition: Edition,
) -> Result<Seq<TargetView>, Text> {
    let meta = match metabuild {
        None => Ok(Seq::empty()),
        Some(names) => match first_missing(names, build_dependencies) {
            Some(name) => Err(
                "metabuild package `"@ + name + "` must be specified in `build-dependencies`"@,
            ),
            None => Ok(
                seq![
                    TargetView::plain(
                        TargetShape::Metabuild,
                        "metabuild-"@ + package_name,
                        None,
                        None,
                    ),
                ],
            ),
        },
    };
    match scripts {
        None => meta,
        Some(scripts) => if metabuild is Some {
            Err("cannot specify both `metabuild` and `build`"@)
        } else {
            match unique_scripts(scripts) {
                Err(e) => Err(e),
                Ok(_) => Ok(script_targets(scripts, package_root, edition)),
            }
        },
    }
}

fn find_missing(names: &Vec<String>, list: &Vec<String>) -> (r: Option<String>)
    ensures
        opt_text(r) == first_missing(texts(names@), texts(list@)),
{
    let ghost all = texts(names@);
    let mut i: usize = 0;
    assert(all.skip(0) =~= all);
    while i < names.len()
        invariant
            i <= names@.len(),
            all == texts(names@),
            first_missing(all, texts(list@)) == first_missing(
                all.skip(i as int),
                texts(list@),
            ),
        decreases names@.len() - i,
    {
        assert(all.skip(i as int)[0] == names@[i as int]@);
        if !list_holds(list, names[i].as_str()) {
            return Some(names[i].clone());
        }
        assert(all.skip(i as int).skip(1) =~= all.skip(i + 1));
        i = i + 1;
    }
    None
}

fn make_script_targets(scripts: &Vec<String>, package_root: &str, edition: Edition) -> (r: Vec<
    Target,
>)
    ensures
        targets_view(r@) == script_targets(texts(scripts@), package_root@, edition),
{
    let ghost want = script_targets(texts(scripts@), package_root@, edition);
    let mut r: Vec<Target> = Vec::new();
    let mut i: usize = 0;
    while i < scripts.len()
        invariant
            i <= scripts@.len(),
            want == script_targets(texts(scripts@), package_root@, edition),
            targets_view(r@) == want.take(i as int),
        decreases scripts@.len() - i,
    {
        let script = scripts[i].as_str();
        let stem = match file_stem_of(script) {
            Some(stem) => stem,
            None => String::new(),
        };
        assert(stem@ =~= script_stem(script@));
        let name = text2("build-script-", stem.as_str());
        let target = Target::plain(
            TargetShape::CustomBuild,
            name.as_str(),
            Some(join_path(package_root, script)),
            Some(edition),
        );
        proof {
            assert(want[i as int] == script_target(scripts@[i as int]@, package_root@, edition));
            assert(target@ == want[i as int]);
            assert(want.take(i + 1) =~= want.take(i as int).push(want[i as int]));
        }
        push_target(&mut r, target);
        i = i + 1;
    }
    assert(want.take(i as int) =~= want);
    r
}

fn make_build_targets(
    scripts: &Option<Vec<String>>,
    metabuild: &Option<Vec<String>>,
    build_dependencies: &Vec<String>,
    package_name: &str,
    package_root: &str,
    edition: Edition,
) -> (r: Result<Vec<Target>, String>)
    requires
        opt_texts(*scripts) matches Some(list) ==> forall|i: int|
            0 <= i < list.len() ==> file_stem(#[trigger] list[i]) is Some,
    ensures
        targets_result(r) == build_targets(
            opt_texts(*scripts),
            opt_texts(*metabuild),
            texts(build_dependencies@),
            package_name@,
            package_root@,
            edition,
        ),
{
    match scripts {
        Some(scripts) => {
            if metabuild.is_some() {
                return Err("cannot specify both `metabuild` and `build`".to_owned());
            }
            assert forall|i: int| 0 <= i < scripts@.len() implies file_stem(
                (#[trigger] scripts@[i])@,
            ) is Some by {
                assert(texts(scripts@)[i] == scripts@[i]@);
            }
            match validate_unique_build_scripts(scripts) {
                Ok(_) => {},
                Err(e) => {
                    return Err(e);
                },
            }
            Ok(make_script_targets(scripts, package_root, edition))
        },
        None => {
            let mut r: Vec<Target> = Vec::new();
            assert(targets_view(r@) =~= Seq::empty());
            match metabuild {
                Some(names) => {
                    match find_missing(names, build_dependencies) {
                        Some(name) => {
                            return Err(
                                text3(
                                    "metabuild package `",
                                    name.as_str(),
                                    "` must be specified in `build-dependencies`",
                                ),
                            );
                        },
                        None => {},
                    }
                    let name = text2("metabuild-", package_name);
                    let target = Target::plain(
                        TargetShape::Metabuild,
                        name.as_str(),
                        None,
                        None,
                    );
                    push_target(&mut r, target);
                    assert(targets_view(r@) =~= seq![target@]);
                },
                None => {},
            }
            Ok(r)
        },
    }
}

/// The package of a manifest.
#[derive(Debug)]
pub struct TomlPackage {
    /// Its name.
    pub name: String,
    /// Its build scripts.
    pub build: Option<TomlPackageBuild>,
}

/// A manifest in which all is explicit.
#[derive(Debug)]
pub struct Manifest {
    /// The package.
    pub package: Option<TomlPackage>,
    /// The library.
    pub lib: Option<TomlTarget>,
    /// The binaries.
    pub bin: Vec<TomlTarget>,
    /// The examples.
    pub example: Vec<TomlTarget>,
    /// The tests.
    pub test: Vec<TomlTarget>,
    /// The benchmarks.
    pub bench: Vec<TomlTarget>,
    /// The names of the build dependencies.
    pub build_dependencies: Vec<String>,
}

impl Manifest {
    /// All is explicit: each target has a name and a path, and it is told which
    /// build scripts there are. Each build script is a file.
    pub open spec fn is_explicit(self) -> bool {
        &&& opt_toml(self.lib) matches Some(lib) ==> is_ready(lib)
        &&& all_ready(self.bin@)
        &&& all_ready(self.example@)
        &&& all_ready(self.test@)
        &&& all_ready(self.bench@)
        &&& self.package matches Some(package) ==> {
            &&& is_normalized_build(opt_build(package.build))
            &&& build_scripts(opt_build(package.build)) matches Some(list) ==> forall|i: int|
                0 <= i < list.len() ==> file_stem(#[trigger] list[i]) is Some
        }
    }
}

/// What one part of the targets leaves behind follows what another left: a failure
/// stops the rest.
pub open spec fn followed_by(
    a: (Result<Seq<TargetView>, Text>, Seq<Text>),
    b: (Result<Seq<TargetView>, Text>, Seq<Text>),
) -> (Result<Seq<TargetView>, Text>, Seq<Text>) {
    match a.0 {
        Err(_) => a,
        Ok(list) => match b.0 {
            Err(e) => (Err(e), a.1 + b.1),
            Ok(more) => (Ok(list + more), a.1 + b.1),
        },
    }
}

/// The library as a list of targets.
pub open spec fn lib_targets(lib: (Result<Option<TargetView>, Text>, Seq<Text>)) -> (
    Result<Seq<TargetView>, Text>,
    Seq<Text>,
) {
    (
        match lib.0 {
            Ok(Some(t)) => Ok(seq![t]),
            Ok(None) => Ok(Seq::empty()),
            Err(e) => Err(e),
        },
        lib.1,
    )
}

/// All targets of a package, and what is warned of: the library, the binaries, the
/// examples, the tests, the benchmarks and the build scripts.
pub open spec fn manifest_targets(
    filename_gate: Option<Text>,
    original_lib: Option<TomlTargetView>,
    manifest: Manifest,
    package_root: Text,
    edition: Edition,
    metabuild: Option<Seq<Text>>,
    fs: FsView,
) -> (Result<Seq<TargetView>, Text>, Seq<Text>) {
    let lib = lib_targets(
        opt_lib_target(original_lib, opt_toml(manifest.lib), package_root, edition, fs),
    );
    match manifest.package {
        None => followed_by(
            lib,
            (Err("manifest has no `package` (or `project`)"@), Seq::empty()),
        ),
        Some(package) => followed_by(
            followed_by(
                followed_by(
                    followed_by(
                        followed_by(
                            lib,
                            bin_targets(
                                filename_gate,
                                tomls_view(manifest.bin@),
                                package_root,
                                edition,
                                fs,
                            ),
                        ),
                        all_group_targets(
                            TargetGroup::Examples,
                            tomls_view(manifest.example@),
                            package_root,
                            edition,
                            fs,
                        ),
                    ),
                    all_group_targets(
                        TargetGroup::Tests,
                        tomls_view(manifest.test@),
                        package_root,
                        edition,
                        fs,
                    ),
                ),
                all_group_targets(
                    TargetGroup::Benches,
                    tomls_view(manifest.bench@),
                    package_root,
                    edition,
                    fs,
                ),
            ),
            (
                build_targets(
                    build_scripts(opt_build(package.build)),
                    metabuild,
                    texts(manifest.build_dependencies@),
                    package.name@,
                    package_root,
                    edition,
                ),
                Seq::empty(),
            ),
        ),
    }
}

fn append_targets(list: &mut Vec<Target>, more: Vec<Target>)
    ensures
        targets_view(final(list)@) == targets_view(old(list)@) + targets_view(more@),
{
    let ghost before = list@;
    let mut more = more;
    let ghost added = more@;
    list.append(&mut more);
    assert(list@ =~= before + added);
    assert(targets_view(list@) =~= targets_view(before) + targets_view(added));
}

/// All targets of a package.
#[verifier::rlimit(30)]
pub fn to_targets(
    filename_gate: &Option<String>,
    original_lib: &Option<TomlTarget>,
    manifest: &Manifest,
    package_root: &str,
    edition: Edition,
    metabuild: &Option<Vec<String>>,
    fs: &FsView,
    warnings: &mut Vec<String>,
) -> (r: Result<Vec<Target>, String>)
    requires
        manifest.is_explicit(),
    ensures
        targets_result(r) == manifest_targets(
            opt_text(*filename_gate),
            opt_toml(*original_lib),
            *manifest,
            package_root@,
            edition,
            opt_texts(*metabuild),
            *fs,
        ).0,
        texts(final(warnings)@) == texts(old(warnings)@) + manifest_targets(
            opt_text(*filename_gate),
            opt_toml(*original_lib),
            *manifest,
            package_root@,
            edition,
            opt_texts(*metabuild),
            *fs,
        ).1,
{
    let ghost start = texts(warnings@);
    let ghost root = package_root@;
    let ghost w0 = opt_lib_target(
        opt_toml(*original_lib),
        opt_toml(manifest.lib),
        root,
        edition,
        *fs,
    ).1;
    let ghost w1 = bin_targets(
        opt_text(*filename_gate),
        tomls_view(manifest.bin@),
        root,
        edition,
        *fs,
    ).1;
    let ghost w2 = all_group_targets(
        TargetGroup::Examples,
        tomls_view(manifest.example@),
        root,
        edition,
        *fs,
    ).1;
    let ghost w3 = all_group_targets(
        TargetGroup::Tests,
        tomls_view(manifest.test@),
        root,
        edition,
        *fs,
    ).1;
    let ghost w4 = all_group_targets(
        TargetGroup::Benches,
        tomls_view(manifest.bench@),
        root,
        edition,
        *fs,
    ).1;
    proof {
        lemma_append_associative(start, w0, Seq::empty());
        lemma_append_associative(w0, Seq::empty(), Seq::empty());
        lemma_append_associative(start, w0, w1);
        lemma_append_associative(start, w0 + w1, w2);
        lemma_append_associative(start, w0 + w1 + w2, w3);
        lemma_append_associative(start, w0 + w1 + w2 + w3, w4);
        lemma_append_associative(w0 + w1 + w2 + w3 + w4, Seq::empty(), Seq::empty());
    }
    let mut targets: Vec<Target> = Vec::new();
    assert(targets_view(targets@) =~= Seq::empty());
    match to_lib_target(original_lib, &manifest.lib, package_root, edition, fs, warnings) {
        Ok(Some(t)) => {
            push_target(&mut targets, t);
            assert(targets_view(targets@) =~= seq![t@]);
        },
        Ok(None) => {},
        Err(e) => {
            return Err(e);
        },
    }
    let package = match &manifest.package {
        Some(package) => package,
        None => {
            return Err("manifest has no `package` (or `project`)".to_owned());
        },
    };
    match to_bin_targets(filename_gate, &manifest.bin, package_root, edition, fs, warnings) {
        Ok(more) => append_targets(&mut targets, more),
        Err(e) => {
            return Err(e);
        },
    }
    match to_example_targets(&manifest.example, package_root, edition, fs, warnings) {
        Ok(more) => append_targets(&mut targets, more),
        Err(e) => {
            return Err(e);
        },
    }
    match to_test_targets(&manifest.test, package_root, edition, fs, warnings) {
        Ok(more) => append_targets(&mut targets, more),
        Err(e) => {
            return Err(e);
        },
    }
    match to_bench_targets(&manifest.bench, package_root, edition, fs, warnings) {
        Ok(more) => append_targets(&mut targets, more),
        Err(e) => {
            return Err(e);
        },
    }
    let scripts = normalized_build(&package.build);
    match make_build_targets(
        &scripts,
        metabuild,
        &manifest.build_dependencies,
        package.name.as_str(),
        package_root,
        edition,
    ) {
        Ok(more) => append_targets(&mut targets, more),
        Err(e) => {
            return Err(e);
        },
    }
    Ok(targets)
}

/// What only native targets can have is refused for any other target.
pub proof fn lemma_native_keys_need_native(
    toml: TomlTargetView,
    target: TargetView,
    package_root: Text,
    fs: FsView,
)
    requires
        sets_native_keys(toml),
        !target.is_native(),
    ensures
        native_keys_error(toml, target, package_root, fs) == Some(
            not_native_message(toml.name_text()),
        ),
{
}

/// A manifest without native keys changes nothing of a target.
pub proof fn lemma_no_native_keys(
    toml: TomlTargetView,
    target: TargetView,
    package_root: Text,
    fs: FsView,
)
    requires
        !sets_native_keys(toml),
    ensures
        native_keys_error(toml, target, package_root, fs) is None,
        with_native_keys(toml, target, package_root) == target,
{
    assert(with_native_keys(toml, target, package_root) =~= target);
}

/// A target that passes links nothing where it is a static library or consists of
/// headers, and consists of headers only where nothing is set for compiling it.
pub proof fn lemma_native_keys_fit(
    toml: TomlTargetView,
    target: TargetView,
    package_root: Text,
    fs: FsView,
)
    requires
        native_keys_error(toml, target, package_root, fs) is None,
        target.is_header_only() || target.is_staticlib(),
    ensures
        toml.native_link_search is None,
        toml.native_link_libraries is None,
        toml.native_link_args is None,
        target.is_header_only() ==> toml.native_sources_root is None && toml.native_include_dirs
            is None && toml.native_defines is None,
{
}

} // verus!
