//! Targets that follow from where files stand in a package.
use vstd::prelude::*;

use crate::fs::{DirEntry, FsView};
use crate::native::{is_native_header, is_native_header_path, is_native_source};
use crate::native::{is_native_source_path, language_label, native_source_language};
use crate::order::{goes_before, key_less, key_view, keys_view, lemma_key_total, lemma_keys_push};
use crate::order::{lemma_stable_order, order_by_keys, pick, places_view, rank_keys, sorted_by};
use crate::order::{stable_order, Key, Rank};
use crate::path::{extension, file_name, file_name_of, file_stem, file_stem_of, has_extension};
use crate::path::{join_path, joined, lemma_codes, path_key, path_key_of, sort_paths, sorted_paths};
use crate::path::{strip_prefix_or_whole, stripped_or_whole, text_key, text_key_of};
use crate::text::{chars_of, join_list, join_texts, no_texts, push_pair, push_text, res_opt_text};
use crate::text::{res_texts, same_text, text3, text5, text_pairs, texts, Text};

verus! {

/// A path that stands for a library of headers: a directory or a header.
pub open spec fn is_header_only(path: Text, fs: FsView) -> bool {
    fs.has_dir(path) || is_native_header(path)
}

/// Whether a path stands for a library of headers.
pub fn is_header_only_native_path(path: &str, fs: &FsView) -> (r: bool)
    ensures
        r == is_header_only(path@, *fs),
{
    fs.is_dir(path) || is_native_header_path(path)
}

/// The path, where something stands there.
pub open spec fn if_there(package_root: Text, fs: FsView, rel: Text) -> Seq<Text> {
    if fs.has(joined(package_root, rel)) {
        seq![rel]
    } else {
        Seq::empty()
    }
}

/// The native sources with a stem that stand in a directory of a package.
pub open spec fn native_sources_named(
    package_root: Text,
    fs: FsView,
    rel_dir: Text,
    stem: Text,
) -> Seq<Text> {
    if_there(package_root, fs, joined(rel_dir, stem + "."@ + "c"@)) + if_there(
        package_root,
        fs,
        joined(rel_dir, stem + "."@ + "cpp"@),
    ) + if_there(package_root, fs, joined(rel_dir, stem + "."@ + "cc"@)) + if_there(
        package_root,
        fs,
        joined(rel_dir, stem + "."@ + "cxx"@),
    )
}

/// Texts between backquotes.
pub open spec fn quoted(list: Seq<Text>) -> Seq<Text> {
    list.map_values(|s: Text| "`"@ + s + "`"@)
}

/// Where there are several sources for one target.
pub open spec fn multiple_message(stem: Text, list: Seq<Text>) -> Text {
    "found multiple native C/C++ targets for `"@ + stem + "` at "@ + join_texts(
        quoted(list),
        ", "@,
    ) + "; please keep only one default source file"@
}

/// The native sources with a stem, sorted. There can be one only, unless several
/// are allowed.
pub open spec fn native_candidates(
    package_root: Text,
    fs: FsView,
    rel_dir: Text,
    stem: Text,
    allow_multiple: bool,
) -> Result<Seq<Text>, Text> {
    let list = native_sources_named(package_root, fs, rel_dir, stem);
    if !allow_multiple && list.len() > 1 {
        Err(multiple_message(stem, list))
    } else {
        Ok(sorted_paths(list))
    }
}

fn push_if_there(list: &mut Vec<String>, package_root: &str, fs: &FsView, rel: String)
    ensures
        texts(final(list)@) == texts(old(list)@) + if_there(package_root@, *fs, rel@),
{
    let ghost before = texts(list@);
    let at = join_path(package_root, rel.as_str());
    if fs.exists_at(at.as_str()) {
        push_text(list, rel);
    }
    assert(texts(list@) =~= before + if_there(package_root@, *fs, rel@));
}

fn source_in(dir: &str, stem: &str, ext: &str) -> (r: String)
    ensures
        r@ == joined(dir@, stem@ + "."@ + ext@),
{
    let name = text3(stem, ".", ext);
    join_path(dir, name.as_str())
}

fn quote_all(list: &Vec<String>) -> (r: Vec<String>)
    ensures
        texts(r@) == quoted(texts(list@)),
{
    let ghost want = quoted(texts(list@));
    let mut r: Vec<String> = no_texts();
    let mut i: usize = 0;
    while i < list.len()
        invariant
            i <= list@.len(),
            want == quoted(texts(list@)),
            texts(r@) == want.take(i as int),
        decreases list@.len() - i,
    {
        push_text(&mut r, text3("`", list[i].as_str(), "`"));
        assert(want[i as int] == "`"@ + list@[i as int]@ + "`"@);
        assert(want.take(i + 1) =~= want.take(i as int).push(want[i as int]));
        i = i + 1;
    }
    assert(want.take(i as int) =~= want);
    r
}

/// The native sources with a stem that stand in a directory of a package.
pub fn collect_native_candidates(
    package_root: &str,
    fs: &FsView,
    rel_dir: &str,
    stem: &str,
    allow_multiple: bool,
) -> (r: Result<Vec<String>, String>)
    ensures
        res_texts(r) == native_candidates(package_root@, *fs, rel_dir@, stem@, allow_multiple),
{
    let mut list: Vec<String> = no_texts();
    push_if_there(&mut list, package_root, fs, source_in(rel_dir, stem, "c"));
    push_if_there(&mut list, package_root, fs, source_in(rel_dir, stem, "cpp"));
    push_if_there(&mut list, package_root, fs, source_in(rel_dir, stem, "cc"));
    push_if_there(&mut list, package_root, fs, source_in(rel_dir, stem, "cxx"));
    assert(texts(list@) =~= native_sources_named(package_root@, *fs, rel_dir@, stem@));
    assert(texts(list@).len() == list@.len());
    if !allow_multiple && list.len() > 1 {
        let rendered = join_list(&quote_all(&list), ", ");
        return Err(
            text5(
                "found multiple native C/C++ targets for `",
                stem,
                "` at ",
                rendered.as_str(),
                "; please keep only one default source file",
            ),
        );
    }
    Ok(sort_paths(&list))
}

/// Where there is both a Rust and a native library.
pub open spec fn lib_conflict_message(native: Text) -> Text {
    "found conflicting library targets at `src/lib.rs` and `"@ + native
        + "`; a package cannot define both a Rust and C++ default library target"@
}

/// The library of a package, by where files stand: a Rust source, else a native
/// source, else a directory of headers.
pub open spec fn lib_path(package_root: Text, fs: FsView) -> Result<Option<Text>, Text> {
    let rust_lib = joined("src"@, "lib.rs"@);
    match native_candidates(package_root, fs, "src"@, "lib"@, false) {
        Err(e) => Err(e),
        Ok(native) => if fs.has(joined(package_root, rust_lib)) {
            if native.len() > 0 {
                Err(lib_conflict_message(native[0]))
            } else {
                Ok(Some(rust_lib))
            }
        } else if native.len() > 0 {
            Ok(Some(native[0]))
        } else if fs.has_dir(joined(package_root, "include"@)) {
            Ok(Some("include"@))
        } else {
            Ok(None)
        },
    }
}

/// The library of a package, by where files stand.
pub fn inferred_lib(package_root: &str, fs: &FsView) -> (r: Result<Option<String>, String>)
    ensures
        res_opt_text(r) == lib_path(package_root@, *fs),
{
    let rust_lib = join_path("src", "lib.rs");
    let native = match collect_native_candidates(package_root, fs, "src", "lib", false) {
        Ok(native) => native,
        Err(e) => {
            return Err(e);
        },
    };
    assert(texts(native@).len() == native@.len());
    let at = join_path(package_root, rust_lib.as_str());
    let header_only_dir = join_path(package_root, "include");
    if fs.exists_at(at.as_str()) {
        if native.len() > 0 {
            return Err(
                text3(
                    "found conflicting library targets at `src/lib.rs` and `",
                    native[0].as_str(),
                    "`; a package cannot define both a Rust and C++ default library target",
                ),
            );
        }
        Ok(Some(rust_lib))
    } else if native.len() > 0 {
        Ok(Some(native[0].clone()))
    } else if fs.is_dir(header_only_dir.as_str()) {
        Ok(Some("include".to_owned()))
    } else {
        Ok(None)
    }
}

/// The rank of a language where targets conflict: Rust comes first, then C and
/// C++.
pub open spec fn language_rank(language: Text) -> u8 {
    if language == "Rust"@ {
        0
    } else if language == "C"@ {
        1
    } else if language == "C++"@ {
        1
    } else {
        2
    }
}

/// The rank of a language where targets conflict.
pub fn target_language_priority(language: &str) -> (r: u8)
    ensures
        r == language_rank(language@),
{
    if same_text(language, "Rust") {
        0
    } else if same_text(language, "C") {
        1
    } else if same_text(language, "C++") {
        1
    } else {
        2
    }
}

/// What conflicting targets are ordered by: the language, and then the path.
pub open spec fn conflict_key(target: (Text, Text)) -> Key {
    seq![seq![language_rank(target.1) as u32]] + path_key(target.0)
}

/// Two conflicting targets, each a path and a language, in their order.
pub open spec fn ordered_conflict(left: (Text, Text), right: (Text, Text)) -> (
    (Text, Text),
    (Text, Text),
) {
    if key_less(conflict_key(right), conflict_key(left)) {
        (right, left)
    } else {
        (left, right)
    }
}

fn conflict_key_of(path: &str, language: &str) -> (r: Vec<Vec<u32>>)
    ensures
        key_view(r@) == conflict_key((path@, language@)),
{
    let rank: u32 = target_language_priority(language) as u32;
    let part: Vec<u32> = vec![rank];
    let mut r: Vec<Vec<u32>> = vec![part];
    let ghost first = r@;
    let mut more = path_key_of(path);
    let ghost rest = more@;
    r.append(&mut more);
    assert(part@ =~= seq![rank]);
    assert(r@ =~= first + rest);
    assert(key_view(first) =~= seq![seq![rank]]);
    assert(key_view(r@) =~= key_view(first) + key_view(rest));
    r
}

/// What a target, a path and a language, holds.
pub open spec fn target_view(target: (String, &'static str)) -> (Text, Text) {
    (target.0@, target.1@)
}

/// Two conflicting targets, each a path and a language, in their order.
pub fn order_conflicting_targets(
    left: (String, &'static str),
    right: (String, &'static str),
) -> (r: ((String, &'static str), (String, &'static str)))
    ensures
        (target_view(r.0), target_view(r.1)) == ordered_conflict(
            target_view(left),
            target_view(right),
        ),
{
    let left_key = conflict_key_of(left.0.as_str(), left.1);
    let right_key = conflict_key_of(right.0.as_str(), right.1);
    match rank_keys(&right_key, &left_key) {
        Rank::Before => (right, left),
        _ => (left, right),
    }
}

/// The order of two conflicting targets does not depend on which comes first,
/// unless nothing tells them apart.
pub proof fn lemma_conflict_order(left: (Text, Text), right: (Text, Text))
    requires
        conflict_key(left) != conflict_key(right),
    ensures
        ordered_conflict(left, right) == ordered_conflict(right, left),
{
    lemma_key_total(conflict_key(left), conflict_key(right));
}

/// A target that a file or a directory stands for.
#[derive(Debug)]
pub struct FoundTarget {
    /// Its name.
    pub name: String,
    /// Its source, below the package.
    pub path: String,
    /// Its language.
    pub language: &'static str,
}

/// What a found target holds.
pub struct FoundTargetView {
    /// Its name.
    pub name: Text,
    /// Its source, below the package.
    pub path: Text,
    /// Its language.
    pub language: Text,
}

impl View for FoundTarget {
    type V = FoundTargetView;

    open spec fn view(&self) -> FoundTargetView {
        FoundTargetView { name: self.name@, path: self.path@, language: self.language@ }
    }
}

/// What found targets hold.
pub open spec fn founds_view(list: Seq<FoundTarget>) -> Seq<FoundTargetView> {
    list.map_values(|f: FoundTarget| f@)
}

/// The target that a file stands for: its name is the file stem.
pub open spec fn file_target(package_root: Text, path: Text, language: Text) -> Option<
    FoundTargetView,
> {
    match file_stem(path) {
        Some(name) => Some(
            FoundTargetView { name, path: stripped_or_whole(path, package_root), language },
        ),
        None => None,
    }
}

/// The target that a file stands for.
pub fn infer_file(package_root: &str, path: &str, language: &'static str) -> (r: Option<
    FoundTarget,
>)
    ensures
        match r {
            Some(f) => file_target(package_root@, path@, language@) == Some(f@),
            None => file_target(package_root@, path@, language@) is None,
        },
{
    match file_stem_of(path) {
        Some(name) => Some(
            FoundTarget { name, path: strip_prefix_or_whole(path, package_root), language },
        ),
        None => None,
    }
}

/// Where a directory holds both a Rust and a native target.
pub open spec fn dir_conflict_message(
    what: Text,
    name: Text,
    rust: Text,
    native: Text,
) -> Text {
    "found conflicting "@ + what + " `"@ + name + "` at `"@ + rust + "` and `"@ + native
        + "`; a package cannot define both a Rust and native C/C++ target with the same name"@
}

/// The source, where something stands there.
pub open spec fn if_file_there(fs: FsView, path: Text) -> Seq<Text> {
    if fs.has(path) {
        seq![path]
    } else {
        Seq::empty()
    }
}

/// The native `main` sources in a directory.
pub open spec fn native_mains(fs: FsView, dir: Text) -> Seq<Text> {
    if_file_there(fs, joined(dir, "main"@ + "."@ + "c"@)) + if_file_there(
        fs,
        joined(dir, "main"@ + "."@ + "cpp"@),
    ) + if_file_there(fs, joined(dir, "main"@ + "."@ + "cc"@)) + if_file_there(
        fs,
        joined(dir, "main"@ + "."@ + "cxx"@),
    )
}

/// The target that a directory stands for: its name is that of the directory, and
/// its source is `main` with one of the extensions.
pub open spec fn dir_target(package_root: Text, fs: FsView, dir: Text, what: Text) -> Result<
    Option<FoundTargetView>,
    Text,
> {
    let rust = joined(dir, "main.rs"@);
    let native = native_mains(fs, dir);
    match file_name(dir) {
        None => Ok(None),
        Some(name) => if fs.has(rust) {
            if native.len() > 0 {
                Err(
                    dir_conflict_message(
                        what,
                        name,
                        stripped_or_whole(rust, package_root),
                        stripped_or_whole(native[0], package_root),
                    ),
                )
            } else {
                Ok(
                    Some(
                        FoundTargetView {
                            name,
                            path: stripped_or_whole(rust, package_root),
                            language: "Rust"@,
                        },
                    ),
                )
            }
        } else if native.len() > 0 {
            Ok(
                Some(
                    FoundTargetView {
                        name,
                        path: stripped_or_whole(native[0], package_root),
                        language: language_label(native[0]),
                    },
                ),
            )
        } else {
            Ok(None)
        },
    }
}

/// What a result that is a found target, if any, or a message holds.
pub open spec fn found_result(r: Result<Option<FoundTarget>, String>) -> Result<
    Option<FoundTargetView>,
    Text,
> {
    match r {
        Ok(Some(f)) => Ok(Some(f@)),
        Ok(None) => Ok(None),
        Err(e) => Err(e@),
    }
}

fn push_if_file_there(list: &mut Vec<String>, fs: &FsView, path: String)
    ensures
        texts(final(list)@) == texts(old(list)@) + if_file_there(*fs, path@),
{
    let ghost before = texts(list@);
    if fs.exists_at(path.as_str()) {
        push_text(list, path);
    }
    assert(texts(list@) =~= before + if_file_there(*fs, path@));
}

/// The target that a directory stands for. `what` says what the targets are called
/// where they conflict.
pub fn infer_subdirectory(package_root: &str, fs: &FsView, dir: &str, what: &str) -> (r: Result<
    Option<FoundTarget>,
    String,
>)
    ensures
        found_result(r) == dir_target(package_root@, *fs, dir@, what@),
{
    let name = match file_name_of(dir) {
        Some(name) => name,
        None => {
            return Ok(None);
        },
    };
    let rust = join_path(dir, "main.rs");
    let mut native: Vec<String> = no_texts();
    push_if_file_there(&mut native, fs, source_in(dir, "main", "c"));
    push_if_file_there(&mut native, fs, source_in(dir, "main", "cpp"));
    push_if_file_there(&mut native, fs, source_in(dir, "main", "cc"));
    push_if_file_there(&mut native, fs, source_in(dir, "main", "cxx"));
    assert(texts(native@) =~= native_mains(*fs, dir@));
    assert(texts(native@).len() == native@.len());
    if fs.exists_at(rust.as_str()) {
        let rust_rel = strip_prefix_or_whole(rust.as_str(), package_root);
        if native.len() > 0 {
            let native_rel = strip_prefix_or_whole(native[0].as_str(), package_root);
            let mut message = text5(
                "found conflicting ",
                what,
                " `",
                name.as_str(),
                "` at `",
            );
            message.append(rust_rel.as_str());
            message.append("` and `");
            message.append(native_rel.as_str());
            message.append(
                "`; a package cannot define both a Rust and native C/C++ target with the same name",
            );
            return Err(message);
        }
        return Ok(Some(FoundTarget { name, path: rust_rel, language: "Rust" }));
    }
    if native.len() > 0 {
        let language = native_source_language(native[0].as_str());
        let path = strip_prefix_or_whole(native[0].as_str(), package_root);
        return Ok(Some(FoundTarget { name, path, language }));
    }
    Ok(None)
}

/// The target that an entry of a directory stands for.
pub open spec fn entry_target(
    package_root: Text,
    fs: FsView,
    path: Text,
    is_dir: bool,
    what: Text,
) -> Result<Option<FoundTargetView>, Text> {
    if is_dir {
        dir_target(package_root, fs, path, what)
    } else if extension(path) == Some("rs"@) {
        Ok(file_target(package_root, path, "Rust"@))
    } else if is_native_source(path) {
        Ok(file_target(package_root, path, language_label(path)))
    } else {
        Ok(None)
    }
}

/// The target that an entry of a directory stands for.
pub fn infer_any(
    package_root: &str,
    fs: &FsView,
    path: &str,
    is_dir: bool,
    what: &str,
) -> (r: Result<Option<FoundTarget>, String>)
    ensures
        found_result(r) == entry_target(package_root@, *fs, path@, is_dir, what@),
{
    if is_dir {
        infer_subdirectory(package_root, fs, path, what)
    } else if has_extension(path, "rs") {
        Ok(infer_file(package_root, path, "Rust"))
    } else if is_native_source_path(path) {
        Ok(infer_file(package_root, path, native_source_language(path)))
    } else {
        Ok(None)
    }
}

/// The entry has a name that is UTF-8 and does not begin with a dot.
pub open spec fn is_visible(entry: DirEntry) -> bool {
    match entry.file_name {
        Some(name) => !(name@.len() > 0 && name@[0] == '.'),
        None => false,
    }
}

/// Whether an entry has a name that is UTF-8 and does not begin with a dot.
pub fn is_not_dotfile(entry: &DirEntry) -> (r: bool)
    ensures
        r == is_visible(*entry),
{
    match &entry.file_name {
        Some(name) => {
            let chars = chars_of(name.as_str());
            !(chars.len() > 0 && chars[0] == '.')
        },
        None => false,
    }
}

/// Where two entries stand for targets with one name.
pub open spec fn name_conflict_message(
    what: Text,
    name: Text,
    first: (Text, Text),
    second: (Text, Text),
) -> Text {
    "found conflicting "@ + what + " `"@ + name + "` at `"@ + first.0 + "` and `"@ + second.0
        + "`; a package cannot define both a "@ + first.1 + " and "@ + second.1
        + " target with the same name"@
}

/// The place of the first target with the name.
pub open spec fn place_of_name(list: Seq<FoundTargetView>, name: Text) -> Option<int>
    decreases list.len(),
{
    if list.len() == 0 {
        None
    } else {
        match place_of_name(list.drop_last(), name) {
            Some(i) => Some(i),
            None => if list.last().name == name {
                Some(list.len() - 1)
            } else {
                None
            },
        }
    }
}

/// The targets that the first `n` entries of a directory stand for, or the message
/// of the first conflict among them.
pub open spec fn entry_targets(
    package_root: Text,
    fs: FsView,
    dir: Text,
    entries: Seq<DirEntry>,
    what: Text,
    n: nat,
) -> Result<Seq<FoundTargetView>, Text>
    decreases n,
{
    if n == 0 {
        Ok(Seq::empty())
    } else {
        match entry_targets(package_root, fs, dir, entries, what, (n - 1) as nat) {
            Err(e) => Err(e),
            Ok(list) => {
                let entry = entries[n - 1];
                if !is_visible(entry) {
                    Ok(list)
                } else {
                    match entry_target(
                        package_root,
                        fs,
                        joined(dir, entry.file_name->0@),
                        entry.is_dir,
                        what,
                    ) {
                        Err(e) => Err(e),
                        Ok(None) => Ok(list),
                        Ok(Some(found)) => match place_of_name(list, found.name) {
                            None => Ok(list.push(found)),
                            Some(i) => {
                                let (first, second) = ordered_conflict(
                                    (list[i].path, list[i].language),
                                    (found.path, found.language),
                                );
                                Err(name_conflict_message(what, found.name, first, second))
                            },
                        },
                    }
                }
            },
        }
    }
}

/// What found targets are ordered by: their name.
pub open spec fn name_keys(list: Seq<FoundTargetView>) -> Seq<Key> {
    list.map_values(|f: FoundTargetView| text_key(f.name))
}

/// The names and paths of found targets, in the order of the names.
pub open spec fn named_paths(list: Seq<FoundTargetView>) -> Seq<(Text, Text)> {
    sorted_by(list, name_keys(list)).map_values(|f: FoundTargetView| (f.name, f.path))
}

/// The targets that the entries of a directory of the package stand for, in the
/// order of their names; none where the directory cannot be read.
pub open spec fn dir_targets(
    package_root: Text,
    fs: FsView,
    rel_dir: Text,
    listing: Option<Vec<DirEntry>>,
    what: Text,
) -> Result<Seq<(Text, Text)>, Text> {
    match listing {
        None => Ok(Seq::empty()),
        Some(entries) => match entry_targets(
            package_root,
            fs,
            joined(package_root, rel_dir),
            entries@,
            what,
            entries@.len(),
        ) {
            Ok(list) => Ok(named_paths(list)),
            Err(e) => Err(e),
        },
    }
}

/// What a result that is pairs or a message holds.
pub open spec fn pairs_result(r: Result<Vec<(String, String)>, String>) -> Result<
    Seq<(Text, Text)>,
    Text,
> {
    match r {
        Ok(list) => Ok(text_pairs(list@)),
        Err(e) => Err(e@),
    }
}

proof fn lemma_place_of_name(list: Seq<FoundTargetView>, name: Text)
    ensures
        match place_of_name(list, name) {
            Some(i) => 0 <= i < list.len() && list[i].name == name && forall|k: int|
                0 <= k < i ==> (#[trigger] list[k]).name != name,
            None => forall|k: int| 0 <= k < list.len() ==> (#[trigger] list[k]).name != name,
        },
    decreases list.len(),
{
    if list.len() > 0 {
        let front = list.drop_last();
        lemma_place_of_name(front, name);
        assert forall|k: int| 0 <= k < front.len() implies #[trigger] list[k] == front[k] by {}
    }
}

fn find_name(list: &Vec<FoundTarget>, name: &str) -> (r: Option<usize>)
    ensures
        match r {
            Some(i) => i < list@.len() && place_of_name(founds_view(list@), name@) == Some(
                i as int,
            ),
            None => place_of_name(founds_view(list@), name@) is None,
        },
{
    let ghost all = founds_view(list@);
    proof {
        lemma_place_of_name(all, name@);
    }
    let mut i: usize = 0;
    while i < list.len()
        invariant
            i <= list@.len(),
            all == founds_view(list@),
            forall|k: int| 0 <= k < i ==> (#[trigger] all[k]).name != name@,
            match place_of_name(all, name@) {
                Some(i) => 0 <= i < all.len() && all[i].name == name@ && forall|k: int|
                    0 <= k < i ==> (#[trigger] all[k]).name != name@,
                None => forall|k: int| 0 <= k < all.len() ==> (#[trigger] all[k]).name != name@,
            },
        decreases list@.len() - i,
    {
        assert(all[i as int] == list@[i as int]@);
        if same_text(list[i].name.as_str(), name) {
            return Some(i);
        }
        i = i + 1;
    }
    None
}

proof fn lemma_entry_err(
    package_root: Text,
    fs: FsView,
    dir: Text,
    entries: Seq<DirEntry>,
    what: Text,
    k: nat,
    n: nat,
)
    requires
        k <= n,
        entry_targets(package_root, fs, dir, entries, what, k) is Err,
    ensures
        entry_targets(package_root, fs, dir, entries, what, n) == entry_targets(
            package_root,
            fs,
            dir,
            entries,
            what,
            k,
        ),
    decreases n,
{
    if k < n {
        lemma_entry_err(package_root, fs, dir, entries, what, k, (n - 1) as nat);
    }
}

fn sort_found(list: &Vec<FoundTarget>) -> (r: Vec<(String, String)>)
    ensures
        text_pairs(r@) == named_paths(founds_view(list@)),
{
    let ghost all = founds_view(list@);
    let ghost want_keys = name_keys(all);
    let mut keys: Vec<Vec<Vec<u32>>> = Vec::new();
    let mut i: usize = 0;
    while i < list.len()
        invariant
            i <= list@.len(),
            all == founds_view(list@),
            want_keys == name_keys(all),
            keys_view(keys@) == want_keys.take(i as int),
        decreases list@.len() - i,
    {
        let key = text_key_of(list[i].name.as_str());
        proof {
            lemma_keys_push(keys@, key);
            assert(all[i as int] == list@[i as int]@);
            assert(want_keys.take(i + 1) =~= want_keys.take(i as int).push(want_keys[i as int]));
        }
        keys.push(key);
        i = i + 1;
    }
    assert(keys_view(keys@) =~= want_keys);
    assert(keys@.len() == keys_view(keys@).len());
    let places = order_by_keys(&keys);
    let ghost sorted = pick(all, places_view(places@));
    let ghost want = named_paths(all);
    let mut r: Vec<(String, String)> = Vec::new();
    let mut j: usize = 0;
    assert(text_pairs(r@) =~= want.take(0));
    while j < places.len()
        invariant
            j <= places@.len(),
            all == founds_view(list@),
            forall|a: int| 0 <= a < places@.len() ==> #[trigger] places@[a] < list@.len(),
            sorted == pick(all, places_view(places@)),
            want == sorted.map_values(|f: FoundTargetView| (f.name, f.path)),
            text_pairs(r@) == want.take(j as int),
        decreases places@.len() - j,
    {
        let f = &list[places[j]];
        push_pair(&mut r, f.name.clone(), f.path.clone());
        proof {
            assert(sorted[j as int] == all[places@[j as int] as int]);
            assert(want[j as int] == (f@.name, f@.path));
            assert(want.take(j + 1) =~= want.take(j as int).push(want[j as int]));
        }
        j = j + 1;
    }
    assert(want.take(j as int) =~= want);
    r
}

/// The targets that the entries of a directory of the package stand for. `what`
/// says what the targets are called where they conflict.
pub fn infer_targets(
    package_root: &str,
    fs: &FsView,
    rel_dir: &str,
    listing: &Option<Vec<DirEntry>>,
    what: &str,
) -> (r: Result<Vec<(String, String)>, String>)
    ensures
        pairs_result(r) == dir_targets(package_root@, *fs, rel_dir@, *listing, what@),
{
    let entries = match listing {
        Some(entries) => entries,
        None => {
            let none: Vec<(String, String)> = Vec::new();
            assert(text_pairs(none@) =~= Seq::empty());
            return Ok(none);
        },
    };
    let dir = join_path(package_root, rel_dir);
    let mut seen: Vec<FoundTarget> = Vec::new();
    let mut i: usize = 0;
    assert(founds_view(seen@) =~= Seq::empty());
    while i < entries.len()
        invariant
            i <= entries@.len(),
            dir@ == joined(package_root@, rel_dir@),
            *listing == Some(*entries),
            entry_targets(
                package_root@,
                *fs,
                dir@,
                entries@,
                what@,
                i as nat,
            ) == Ok::<Seq<FoundTargetView>, Text>(founds_view(seen@)),
        decreases entries@.len() - i,
    {
        let entry = &entries[i];
        if is_not_dotfile(entry) {
            let path = match &entry.file_name {
                Some(name) => join_path(dir.as_str(), name.as_str()),
                None => String::new(),
            };
            match infer_any(package_root, fs, path.as_str(), entry.is_dir, what) {
                Err(e) => {
                    proof {
                        lemma_entry_err(
                            package_root@,
                            *fs,
                            dir@,
                            entries@,
                            what@,
                            (i + 1) as nat,
                            entries@.len(),
                        );
                    }
                    return Err(e);
                },
                Ok(None) => {},
                Ok(Some(found)) => {
                    match find_name(&seen, found.name.as_str()) {
                        None => {
                            let ghost before = seen@;
                            seen.push(found);
                            assert(founds_view(seen@) =~= founds_view(before).push(found@));
                        },
                        Some(at) => {
                            let prev = &seen[at];
                            assert(founds_view(seen@)[at as int] == prev@);
                            let name = found.name.clone();
                            let (first, second) = order_conflicting_targets(
                                (prev.path.clone(), prev.language),
                                (found.path, found.language),
                            );
                            let mut message = text5(
                                "found conflicting ",
                                what,
                                " `",
                                name.as_str(),
                                "` at `",
                            );
                            message.append(first.0.as_str());
                            message.append("` and `");
                            message.append(second.0.as_str());
                            message.append("`; a package cannot define both a ");
                            message.append(first.1);
                            message.append(" and ");
                            message.append(second.1);
                            message.append(" target with the same name");
                            proof {
                                lemma_entry_err(
                                    package_root@,
                                    *fs,
                                    dir@,
                                    entries@,
                                    what@,
                                    (i + 1) as nat,
                                    entries@.len(),
                                );
                            }
                            return Err(message);
                        },
                    }
                },
            }
        }
        i = i + 1;
    }
    Ok(sort_found(&seen))
}

/// The binaries that the entries of a directory of the package stand for.
pub fn infer_bin_sources(
    package_root: &str,
    fs: &FsView,
    rel_dir: &str,
    listing: &Option<Vec<DirEntry>>,
) -> (r: Result<Vec<(String, String)>, String>)
    ensures
        pairs_result(r) == dir_targets(
            package_root@,
            *fs,
            rel_dir@,
            *listing,
            "binary targets"@,
        ),
{
    infer_targets(package_root, fs, rel_dir, listing, "binary targets")
}

/// The examples, tests or benchmarks that the entries of a directory of the package
/// stand for.
pub fn infer_non_bin_targets(
    package_root: &str,
    fs: &FsView,
    rel_dir: &str,
    listing: &Option<Vec<DirEntry>>,
) -> (r: Result<Vec<(String, String)>, String>)
    ensures
        pairs_result(r) == dir_targets(package_root@, *fs, rel_dir@, *listing, "targets"@),
{
    infer_targets(package_root, fs, rel_dir, listing, "targets")
}

/// Where there is both a Rust and a native binary.
pub open spec fn bin_conflict_message(native: Text) -> Text {
    "found conflicting binary targets at `src/main.rs` and `"@ + native
        + "`; a package cannot define both a Rust and C++ default binary target"@
}

/// The binary of a package that has the name of the package.
pub open spec fn main_path(package_root: Text, fs: FsView) -> Result<Option<Text>, Text> {
    let rust_main = joined("src"@, "main.rs"@);
    match native_candidates(package_root, fs, "src"@, "main"@, false) {
        Err(e) => Err(e),
        Ok(native) => if fs.has(joined(package_root, rust_main)) {
            if native.len() > 0 {
                Err(bin_conflict_message(native[0]))
            } else {
                Ok(Some(rust_main))
            }
        } else if native.len() > 0 {
            Ok(Some(native[0]))
        } else {
            Ok(None)
        },
    }
}

fn main_path_of(package_root: &str, fs: &FsView) -> (r: Result<Option<String>, String>)
    ensures
        res_opt_text(r) == main_path(package_root@, *fs),
{
    let rust_main = join_path("src", "main.rs");
    let native = match collect_native_candidates(package_root, fs, "src", "main", false) {
        Ok(native) => native,
        Err(e) => {
            return Err(e);
        },
    };
    assert(texts(native@).len() == native@.len());
    let at = join_path(package_root, rust_main.as_str());
    if fs.exists_at(at.as_str()) {
        if native.len() > 0 {
            return Err(
                text3(
                    "found conflicting binary targets at `src/main.rs` and `",
                    native[0].as_str(),
                    "`; a package cannot define both a Rust and C++ default binary target",
                ),
            );
        }
        Ok(Some(rust_main))
    } else if native.len() > 0 {
        Ok(Some(native[0].clone()))
    } else {
        Ok(None)
    }
}

/// The binaries of a package, by where files stand: the one with the name of the
/// package first, and then those in `src/bin`.
pub open spec fn bin_paths(
    package_root: Text,
    package_name: Text,
    fs: FsView,
    listing: Option<Vec<DirEntry>>,
) -> Result<Seq<(Text, Text)>, Text> {
    match main_path(package_root, fs) {
        Err(e) => Err(e),
        Ok(main) => match dir_targets(
            package_root,
            fs,
            joined("src"@, "bin"@),
            listing,
            "binary targets"@,
        ) {
            Err(e) => Err(e),
            Ok(list) => match main {
                Some(path) => Ok(seq![(package_name, path)] + list),
                None => Ok(list),
            },
        },
    }
}

/// The binaries of a package, by where files stand. `listing` holds the entries of
/// `src/bin`.
pub fn inferred_bins(
    package_root: &str,
    package_name: &str,
    fs: &FsView,
    listing: &Option<Vec<DirEntry>>,
) -> (r: Result<Vec<(String, String)>, String>)
    ensures
        pairs_result(r) == bin_paths(package_root@, package_name@, *fs, *listing),
{
    let mut result: Vec<(String, String)> = Vec::new();
    assert(text_pairs(result@) =~= Seq::empty());
    let has_main = match main_path_of(package_root, fs) {
        Ok(Some(path)) => {
            push_pair(&mut result, package_name.to_owned(), path);
            true
        },
        Ok(None) => false,
        Err(e) => {
            return Err(e);
        },
    };
    let bin_dir = join_path("src", "bin");
    match infer_bin_sources(package_root, fs, bin_dir.as_str(), listing) {
        Ok(more) => {
            let ghost before = result@;
            let mut more = more;
            let ghost added = more@;
            result.append(&mut more);
            assert(result@ =~= before + added);
            assert(text_pairs(result@) =~= text_pairs(before) + text_pairs(added));
            proof {
                match main_path(package_root@, *fs) {
                    Ok(Some(path)) => {
                        assert(text_pairs(before) =~= seq![(package_name@, path)]);
                    },
                    _ => {
                        assert(text_pairs(result@) =~= text_pairs(added));
                    },
                }
            }
            Ok(result)
        },
        Err(e) => Err(e),
    }
}

/// No two of the targets have one name.
pub open spec fn names_differ(list: Seq<FoundTargetView>) -> bool {
    forall|i: int, j: int|
        0 <= i < j < list.len() ==> (#[trigger] list[i]).name != (#[trigger] list[j]).name
}

proof fn lemma_names_differ(
    package_root: Text,
    fs: FsView,
    dir: Text,
    entries: Seq<DirEntry>,
    what: Text,
    n: nat,
)
    ensures
        entry_targets(package_root, fs, dir, entries, what, n) matches Ok(list) ==> names_differ(
            list,
        ),
    decreases n,
{
    if n > 0 {
        lemma_names_differ(package_root, fs, dir, entries, what, (n - 1) as nat);
        match entry_targets(package_root, fs, dir, entries, what, (n - 1) as nat) {
            Ok(list) => {
                let entry = entries[n - 1];
                match entry_target(
                    package_root,
                    fs,
                    joined(dir, entry.file_name->0@),
                    entry.is_dir,
                    what,
                ) {
                    Ok(Some(found)) => {
                        lemma_place_of_name(list, found.name);
                    },
                    _ => {},
                }
            },
            Err(_) => {},
        }
    }
}

/// The targets that the entries of a directory stand for come in strictly rising
/// order of their names, so no name comes twice.
pub proof fn lemma_dir_targets_rise(
    package_root: Text,
    fs: FsView,
    rel_dir: Text,
    listing: Option<Vec<DirEntry>>,
    what: Text,
)
    ensures
        dir_targets(package_root, fs, rel_dir, listing, what) matches Ok(list) ==> forall|
            i: int,
            j: int,
        |
            0 <= i < j < list.len() ==> key_less(
                text_key((#[trigger] list[i]).0),
                text_key((#[trigger] list[j]).0),
            ) && list[i].0 != list[j].0,
{
    match listing {
        Some(entries) => {
            let dir = joined(package_root, rel_dir);
            lemma_names_differ(package_root, fs, dir, entries@, what, entries@.len());
            match entry_targets(package_root, fs, dir, entries@, what, entries@.len()) {
                Ok(found) => {
                    let keys = name_keys(found);
                    let order = stable_order(keys);
                    lemma_stable_order(keys);
                    let list = named_paths(found);
                    assert forall|i: int, j: int| 0 <= i < j < list.len() implies key_less(
                        text_key((#[trigger] list[i]).0),
                        text_key((#[trigger] list[j]).0),
                    ) && list[i].0 != list[j].0 by {
                        let a = order[i];
                        let b = order[j];
                        assert(goes_before(keys, a, b));
                        assert(list[i].0 == found[a].name && list[j].0 == found[b].name);
                        assert(keys[a] == text_key(found[a].name));
                        assert(keys[b] == text_key(found[b].name));
                        assert(a != b) by {
                            lemma_key_total(keys[a], keys[b]);
                        }
                        if a < b {
                            assert(found[a].name != found[b].name);
                        } else {
                            assert(found[b].name != found[a].name);
                        }
                        if keys[a] == keys[b] {
                            assert(keys[a][0] == keys[b][0]);
                            lemma_codes(found[a].name, found[b].name);
                        }
                    }
                },
                Err(_) => {},
            }
        },
        None => {},
    }
}

} // verus!
