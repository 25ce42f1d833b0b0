//! Targets as a manifest describes them.
use vstd::prelude::*;

use crate::path::{normalize_path, normalized};
use crate::text::{copy_list, copy_opt, copy_opt_list, list_holds, no_texts, opt_text, opt_texts};
use crate::text::{push_text, same_text, texts, Text};

verus! {

/// The editions of the language.
#[derive(Clone, Copy, Debug, PartialEq, Eq, Structural)]
pub enum Edition {
    /// The 2015 edition.
    Edition2015,
    /// The 2018 edition.
    Edition2018,
    /// The 2021 edition.
    Edition2021,
    /// The 2024 edition.
    Edition2024,
    /// An edition that is still being worked on.
    EditionFuture,
}

impl Edition {
    /// The 2024 edition or a later one.
    pub open spec fn is_2024_or_later(self) -> bool {
        self == Edition::Edition2024 || self == Edition::EditionFuture
    }

    /// Whether it is the 2024 edition or a later one.
    pub fn since_2024(self) -> (r: bool)
        ensures
            r == self.is_2024_or_later(),
    {
        self == Edition::Edition2024 || self == Edition::EditionFuture
    }
}

/// The edition that a text names.
pub open spec fn edition_named(s: Text) -> Option<Edition> {
    if s == "2015"@ {
        Some(Edition::Edition2015)
    } else if s == "2018"@ {
        Some(Edition::Edition2018)
    } else if s == "2021"@ {
        Some(Edition::Edition2021)
    } else if s == "2024"@ {
        Some(Edition::Edition2024)
    } else if s == "future"@ {
        Some(Edition::EditionFuture)
    } else {
        None
    }
}

/// The edition that a text names.
pub fn parse_edition(s: &str) -> (r: Option<Edition>)
    ensures
        r == edition_named(s@),
{
    if same_text(s, "2015") {
        Some(Edition::Edition2015)
    } else if same_text(s, "2018") {
        Some(Edition::Edition2018)
    } else if same_text(s, "2021") {
        Some(Edition::Edition2021)
    } else if same_text(s, "2024") {
        Some(Edition::Edition2024)
    } else if same_text(s, "future") {
        Some(Edition::EditionFuture)
    } else {
        None
    }
}

/// A target as a manifest describes it. A key that the manifest does not set is
/// `None`.
#[derive(Debug)]
pub struct TomlTarget {
    /// `name`.
    pub name: Option<String>,
    /// `crate-type`.
    pub crate_type: Option<Vec<String>>,
    /// `crate_type`, the deprecated spelling.
    pub crate_type2: Option<Vec<String>>,
    /// `path`.
    pub path: Option<String>,
    /// `filename`.
    pub filename: Option<String>,
    /// `test`.
    pub test: Option<bool>,
    /// `doctest`.
    pub doctest: Option<bool>,
    /// `bench`.
    pub bench: Option<bool>,
    /// `doc`.
    pub doc: Option<bool>,
    /// `doc-scrape-examples`.
    pub doc_scrape_examples: Option<bool>,
    /// `proc-macro`.
    pub proc_macro: Option<bool>,
    /// `proc_macro`, the deprecated spelling.
    pub proc_macro2: Option<bool>,
    /// `harness`.
    pub harness: Option<bool>,
    /// `required-features`.
    pub required_features: Option<Vec<String>>,
    /// `edition`.
    pub edition: Option<String>,
    /// `native-include-root`.
    pub native_include_root: Option<String>,
    /// `native-sources-root`.
    pub native_sources_root: Option<String>,
    /// `native-include-dirs`.
    pub native_include_dirs: Option<Vec<String>>,
    /// `native-defines`.
    pub native_defines: Option<Vec<String>>,
    /// `native-link-search`.
    pub native_link_search: Option<Vec<String>>,
    /// `native-link-libraries`.
    pub native_link_libraries: Option<Vec<String>>,
    /// `native-link-args`.
    pub native_link_args: Option<Vec<String>>,
}

/// What a target in a manifest holds.
#[verifier::ext_equal]
pub struct TomlTargetView {
    /// `name`.
    pub name: Option<Text>,
    /// `crate-type`.
    pub crate_type: Option<Seq<Text>>,
    /// `crate_type`, the deprecated spelling.
    pub crate_type2: Option<Seq<Text>>,
    /// `path`.
    pub path: Option<Text>,
    /// `filename`.
    pub filename: Option<Text>,
    /// `test`.
    pub test: Option<bool>,
    /// `doctest`.
    pub doctest: Option<bool>,
    /// `bench`.
    pub bench: Option<bool>,
    /// `doc`.
    pub doc: Option<bool>,
    /// `doc-scrape-examples`.
    pub doc_scrape_examples: Option<bool>,
    /// `proc-macro`.
    pub proc_macro: Option<bool>,
    /// `proc_macro`, the deprecated spelling.
    pub proc_macro2: Option<bool>,
    /// `harness`.
    pub harness: Option<bool>,
    /// `required-features`.
    pub required_features: Option<Seq<Text>>,
    /// `edition`.
    pub edition: Option<Text>,
    /// `native-include-root`.
    pub native_include_root: Option<Text>,
    /// `native-sources-root`.
    pub native_sources_root: Option<Text>,
    /// `native-include-dirs`.
    pub native_include_dirs: Option<Seq<Text>>,
    /// `native-defines`.
    pub native_defines: Option<Seq<Text>>,
    /// `native-link-search`.
    pub native_link_search: Option<Seq<Text>>,
    /// `native-link-libraries`.
    pub native_link_libraries: Option<Seq<Text>>,
    /// `native-link-args`.
    pub native_link_args: Option<Seq<Text>>,
}

impl View for TomlTarget {
    type V = TomlTargetView;

    open spec fn view(&self) -> TomlTargetView {
        TomlTargetView {
            name: opt_text(self.name),
            crate_type: opt_texts(self.crate_type),
            crate_type2: opt_texts(self.crate_type2),
            path: opt_text(self.path),
            filename: opt_text(self.filename),
            test: self.test,
            doctest: self.doctest,
            bench: self.bench,
            doc: self.doc,
            doc_scrape_examples: self.doc_scrape_examples,
            proc_macro: self.proc_macro,
            proc_macro2: self.proc_macro2,
            harness: self.harness,
            required_features: opt_texts(self.required_features),
            edition: opt_text(self.edition),
            native_include_root: opt_text(self.native_include_root),
            native_sources_root: opt_text(self.native_sources_root),
            native_include_dirs: opt_texts(self.native_include_dirs),
            native_defines: opt_texts(self.native_defines),
            native_link_search: opt_texts(self.native_link_search),
            native_link_libraries: opt_texts(self.native_link_libraries),
            native_link_args: opt_texts(self.native_link_args),
        }
    }
}

/// What targets in a manifest hold.
pub open spec fn tomls_view(list: Seq<TomlTarget>) -> Seq<TomlTargetView> {
    list.map_values(|t: TomlTarget| t@)
}

/// What a list of targets that may be missing holds.
pub open spec fn opt_tomls(list: Option<Vec<TomlTarget>>) -> Option<Seq<TomlTargetView>> {
    match list {
        Some(list) => Some(tomls_view(list@)),
        None => None,
    }
}

impl TomlTargetView {
    /// A target of which the manifest sets nothing.
    pub open spec fn unset() -> TomlTargetView {
        TomlTargetView {
            name: None,
            crate_type: None,
            crate_type2: None,
            path: None,
            filename: None,
            test: None,
            doctest: None,
            bench: None,
            doc: None,
            doc_scrape_examples: None,
            proc_macro: None,
            proc_macro2: None,
            harness: None,
            required_features: None,
            edition: None,
            native_include_root: None,
            native_sources_root: None,
            native_include_dirs: None,
            native_defines: None,
            native_link_search: None,
            native_link_libraries: None,
            native_link_args: None,
        }
    }

    /// The kinds of crates, under either spelling.
    pub open spec fn crate_types(self) -> Option<Seq<Text>> {
        match self.crate_type {
            Some(_) => self.crate_type,
            None => self.crate_type2,
        }
    }

    /// Whether it holds procedural macros: what is set under either spelling, else
    /// `true` where that is one of the kinds of crates.
    pub open spec fn is_proc_macro(self) -> Option<bool> {
        match self.proc_macro {
            Some(_) => self.proc_macro,
            None => match self.proc_macro2 {
                Some(_) => self.proc_macro2,
                None => match self.crate_types() {
                    Some(types) => if types.contains("proc-macro"@) {
                        Some(true)
                    } else {
                        None
                    },
                    None => None,
                },
            },
        }
    }

    /// The name; the empty text without one.
    pub open spec fn name_text(self) -> Text {
        match self.name {
            Some(name) => name,
            None => Seq::empty(),
        }
    }

    /// The target with its native paths normalized.
    pub open spec fn with_native_paths(self) -> TomlTargetView {
        TomlTargetView {
            native_include_root: opt_normalized(self.native_include_root),
            native_sources_root: opt_normalized(self.native_sources_root),
            native_include_dirs: all_normalized(self.native_include_dirs),
            native_link_search: all_normalized(self.native_link_search),
            ..self
        }
    }

    /// The target with its path and its native paths normalized.
    pub open spec fn with_paths(self) -> TomlTargetView {
        TomlTargetView { path: opt_normalized(self.path), ..self }.with_native_paths()
    }
}

/// A path that may be missing, normalized.
pub open spec fn opt_normalized(path: Option<Text>) -> Option<Text> {
    match path {
        Some(path) => Some(normalized(path)),
        None => None,
    }
}

/// Paths that may be missing, normalized.
pub open spec fn all_normalized(paths: Option<Seq<Text>>) -> Option<Seq<Text>> {
    match paths {
        Some(paths) => Some(paths.map_values(|p: Text| normalized(p))),
        None => None,
    }
}

fn normalize_opt(path: &Option<String>) -> (r: Option<String>)
    ensures
        opt_text(r) == opt_normalized(opt_text(*path)),
{
    match path {
        Some(path) => Some(normalize_path(path.as_str())),
        None => None,
    }
}

fn normalize_all(paths: &Option<Vec<String>>) -> (r: Option<Vec<String>>)
    ensures
        opt_texts(r) == all_normalized(opt_texts(*paths)),
{
    match paths {
        Some(paths) => {
            let ghost want = texts(paths@).map_values(|p: Text| normalized(p));
            let mut r: Vec<String> = no_texts();
            let mut i: usize = 0;
            while i < paths.len()
                invariant
                    i <= paths@.len(),
                    want == texts(paths@).map_values(|p: Text| normalized(p)),
                    texts(r@) == want.take(i as int),
                decreases paths@.len() - i,
            {
                push_text(&mut r, normalize_path(paths[i].as_str()));
                assert(want[i as int] == normalized(paths@[i as int]@));
                assert(want.take(i + 1) =~= want.take(i as int).push(want[i as int]));
                i = i + 1;
            }
            assert(want.take(i as int) =~= want);
            Some(r)
        },
        None => None,
    }
}

impl TomlTarget {
    /// A target of which the manifest sets nothing.
    pub fn new() -> (r: TomlTarget)
        ensures
            r@ == TomlTargetView::unset(),
    {
        TomlTarget {
            name: None,
            crate_type: None,
            crate_type2: None,
            path: None,
            filename: None,
            test: None,
            doctest: None,
            bench: None,
            doc: None,
            doc_scrape_examples: None,
            proc_macro: None,
            proc_macro2: None,
            harness: None,
            required_features: None,
            edition: None,
            native_include_root: None,
            native_sources_root: None,
            native_include_dirs: None,
            native_defines: None,
            native_link_search: None,
            native_link_libraries: None,
            native_link_args: None,
        }
    }

    /// The same target once more.
    pub fn copy(&self) -> (r: TomlTarget)
        ensures
            r@ == self@,
    {
        TomlTarget {
            name: copy_opt(&self.name),
            crate_type: copy_opt_list(&self.crate_type),
            crate_type2: copy_opt_list(&self.crate_type2),
            path: copy_opt(&self.path),
            filename: copy_opt(&self.filename),
            test: self.test,
            doctest: self.doctest,
            bench: self.bench,
            doc: self.doc,
            doc_scrape_examples: self.doc_scrape_examples,
            proc_macro: self.proc_macro,
            proc_macro2: self.proc_macro2,
            harness: self.harness,
            required_features: copy_opt_list(&self.required_features),
            edition: copy_opt(&self.edition),
            native_include_root: copy_opt(&self.native_include_root),
            native_sources_root: copy_opt(&self.native_sources_root),
            native_include_dirs: copy_opt_list(&self.native_include_dirs),
            native_defines: copy_opt_list(&self.native_defines),
            native_link_search: copy_opt_list(&self.native_link_search),
            native_link_libraries: copy_opt_list(&self.native_link_libraries),
            native_link_args: copy_opt_list(&self.native_link_args),
        }
    }

    /// The kinds of crates, under either spelling.
    pub fn crate_types(&self) -> (r: &Option<Vec<String>>)
        ensures
            opt_texts(*r) == self@.crate_types(),
    {
        match &self.crate_type {
            Some(_) => &self.crate_type,
            None => &self.crate_type2,
        }
    }

    /// Whether it holds procedural macros.
    pub fn proc_macro(&self) -> (r: Option<bool>)
        ensures
            r == self@.is_proc_macro(),
    {
        match self.proc_macro {
            Some(b) => Some(b),
            None => match self.proc_macro2 {
                Some(b) => Some(b),
                None => match self.crate_types() {
                    Some(types) => if list_holds(types, "proc-macro") {
                        Some(true)
                    } else {
                        None
                    },
                    None => None,
                },
            },
        }
    }

    /// The name; the empty text without one.
    pub fn name_str(&self) -> (r: &str)
        ensures
            r@ == self@.name_text(),
    {
        match &self.name {
            Some(name) => name.as_str(),
            None => {
                proof {
                    reveal_strlit("");
                }
                assert(""@ =~= Seq::<char>::empty());
                ""
            },
        }
    }
}

/// Normalizes the native paths of a target.
pub fn normalize_native_manifest_paths(target: &mut TomlTarget)
    ensures
        final(target)@ == old(target)@.with_native_paths(),
{
    target.native_include_root = normalize_opt(&target.native_include_root);
    target.native_sources_root = normalize_opt(&target.native_sources_root);
    target.native_include_dirs = normalize_all(&target.native_include_dirs);
    target.native_link_search = normalize_all(&target.native_link_search);
}

/// Normalizes the path and the native paths of a target.
pub fn normalize_manifest_paths(target: &mut TomlTarget)
    ensures
        final(target)@ == old(target)@.with_paths(),
{
    target.path = normalize_opt(&target.path);
    normalize_native_manifest_paths(target);
}

/// The targets of a list, copied.
pub fn copy_tomls(list: &Vec<TomlTarget>) -> (r: Vec<TomlTarget>)
    ensures
        tomls_view(r@) == tomls_view(list@),
{
    let mut r: Vec<TomlTarget> = Vec::new();
    let mut i: usize = 0;
    while i < list.len()
        invariant
            i <= list@.len(),
            tomls_view(r@) == tomls_view(list@).take(i as int),
        decreases list@.len() - i,
    {
        push_toml(&mut r, list[i].copy());
        assert(tomls_view(list@).take(i + 1) =~= tomls_view(list@).take(i as int).push(
            tomls_view(list@)[i as int],
        ));
        i = i + 1;
    }
    assert(tomls_view(list@).take(i as int) =~= tomls_view(list@));
    r
}

/// One more target.
pub fn push_toml(list: &mut Vec<TomlTarget>, target: TomlTarget)
    ensures
        tomls_view(final(list)@) == tomls_view(old(list)@).push(target@),
{
    let ghost before = list@;
    list.push(target);
    assert(tomls_view(list@) =~= tomls_view(before).push(target@));
}

/// The build scripts of a package as a manifest describes them.
#[derive(Debug)]
pub enum TomlPackageBuild {
    /// None, or the one at the default path.
    Auto(bool),
    /// One script.
    SingleScript(String),
    /// Any number of scripts.
    MultipleScript(Vec<String>),
}

/// What build scripts in a manifest hold.
#[verifier::ext_equal]
pub enum TomlBuildView {
    /// None, or the one at the default path.
    Auto(bool),
    /// One script.
    SingleScript(Text),
    /// Any number of scripts.
    MultipleScript(Seq<Text>),
}

impl View for TomlPackageBuild {
    type V = TomlBuildView;

    open spec fn view(&self) -> TomlBuildView {
        match *self {
            TomlPackageBuild::Auto(b) => TomlBuildView::Auto(b),
            TomlPackageBuild::SingleScript(s) => TomlBuildView::SingleScript(s@),
            TomlPackageBuild::MultipleScript(list) => TomlBuildView::MultipleScript(texts(list@)),
        }
    }
}

/// What build scripts that may be missing hold.
pub open spec fn opt_build(build: Option<TomlPackageBuild>) -> Option<TomlBuildView> {
    match build {
        Some(build) => Some(build@),
        None => None,
    }
}

/// It is told whether there are build scripts, and which.
pub open spec fn is_normalized_build(build: Option<TomlBuildView>) -> bool {
    build matches Some(b) && b != TomlBuildView::Auto(true)
}

/// The build scripts, once it is told which there are; none where there are none.
pub open spec fn build_scripts(build: Option<TomlBuildView>) -> Option<Seq<Text>> {
    match build {
        Some(TomlBuildView::SingleScript(script)) => Some(seq![script]),
        Some(TomlBuildView::MultipleScript(scripts)) => Some(scripts),
        _ => None,
    }
}

/// The build scripts, once it is told which there are.
pub fn normalized_build(build: &Option<TomlPackageBuild>) -> (r: Option<Vec<String>>)
    requires
        is_normalized_build(opt_build(*build)),
    ensures
        opt_texts(r) == build_scripts(opt_build(*build)),
{
    match build {
        Some(TomlPackageBuild::SingleScript(script)) => {
            let mut list = no_texts();
            push_text(&mut list, script.clone());
            assert(texts(list@) =~= seq![script@]);
            Some(list)
        },
        Some(TomlPackageBuild::MultipleScript(scripts)) => Some(copy_list(scripts)),
        _ => None,
    }
}

} // verus!
