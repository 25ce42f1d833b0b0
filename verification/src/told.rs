//! What errors tell: the target, the key or the file that they are about.
use vstd::prelude::*;

use crate::discover::{bin_conflict_message, dir_conflict_message, lib_conflict_message};
use crate::discover::name_conflict_message;
use crate::fs::FsView;
use crate::layout::{depfile_message, include_walk_message, no_sources_root_message};
use crate::layout::walk_message;
use crate::manifest::TomlTargetView;
use crate::normalize::{hint_for, no_lib_message, path_of, paths_named, possible_dir_file};
use crate::normalize::{possible_file, PathRules};
use crate::path::stripped_or_whole;
use crate::targets::{example_message, header_only_crate_type_message};
use crate::targets::{header_only_message, include_dirs_error, include_root_error};
use crate::targets::link_search_error;
use crate::targets::{native_keys_error, not_dir_message, sources_root_error};
use crate::targets::TargetView;
use crate::text::{holds_text, join_texts, occurs_at, Text};
use crate::toolchain::no_compiler_message;
use crate::tools::no_archiver_message;
use crate::validate::{first_repeat, names_of, unique_names};

verus! {

/// What stands in the middle of a text stands in it.
proof fn lemma_held(a: Text, b: Text, c: Text)
    ensures
        holds_text(a + b + c, b),
{
    let s = a + b + c;
    assert(s.subrange(a.len() as int, a.len() as int + b.len()) =~= b);
    assert(occurs_at(s, b, a.len() as int));
}

/// What is in a text is in a longer one.
proof fn lemma_held_through(a: Text, s: Text, c: Text, b: Text)
    requires
        holds_text(s, b),
    ensures
        holds_text(a + s + c, b),
{
    let i = choose|i: int| occurs_at(s, b, i);
    let t = a + s + c;
    let n = a.len() as int;
    assert(t.subrange(n + i, n + i + b.len()) =~= s.subrange(i, i + b.len()));
    assert(occurs_at(t, b, n + i));
}

proof fn lemma_ends(a: Text, b: Text)
    ensures
        holds_text(a + b, b),
{
    let none = Seq::<char>::empty();
    lemma_held(a, b, none);
    assert(a + b + none =~= a + b);
}

proof fn lemma_more(s: Text, c: Text, b: Text)
    requires
        holds_text(s, b),
    ensures
        holds_text(s + c, b),
{
    let none = Seq::<char>::empty();
    lemma_held_through(none, s, c, b);
    assert(none + s + c =~= s + c);
}

proof fn lemma_not_dir(name: Text, setting: Text, path: Text, close: Text)
    ensures
        holds_text(not_dir_message(name, setting, path, close), name),
        holds_text(not_dir_message(name, setting, path, close), setting),
        holds_text(not_dir_message(name, setting, path, close), path),
{
    let a = "target `"@ + name;
    lemma_ends("target `"@, name);
    let b = a + "` specifies `"@;
    lemma_more(a, "` specifies `"@, name);
    let c = b + setting;
    lemma_more(b, setting, name);
    lemma_ends(b, setting);
    let d = c + path;
    lemma_more(c, path, name);
    lemma_more(c, path, setting);
    lemma_ends(c, path);
    let e = d + close;
    lemma_more(d, close, name);
    lemma_more(d, close, setting);
    lemma_more(d, close, path);
    let tail = "`, but that path is not a directory"@;
    lemma_more(e, tail, name);
    lemma_more(e, tail, setting);
    lemma_more(e, tail, path);
}

proof fn lemma_header_only(name: Text, keys: Text)
    ensures
        holds_text(header_only_message(name, keys), name),
        holds_text(header_only_message(name, keys), keys),
{
    let a = "header-only native library `"@ + name;
    lemma_ends("header-only native library `"@, name);
    let b = a + "` cannot set "@;
    lemma_more(a, "` cannot set "@, name);
    lemma_more(b, keys, name);
    lemma_ends(b, keys);
}

proof fn lemma_named_first(start: Text, name: Text, tail: Text)
    ensures
        holds_text(start + name + tail, name),
        holds_text(start + name + tail, tail),
{
    lemma_held(start, name, tail);
    lemma_ends(start + name, tail);
}

/// An error on the native keys of a target names the target.
pub proof fn lemma_key_errors_name(
    entry: TomlTargetView,
    target: TargetView,
    root: Text,
    fs: FsView,
)
    ensures
        native_keys_error(entry, target, root, fs) matches Some(e) ==> holds_text(
            e,
            entry.name_text(),
        ),
{
    let name = entry.name_text();
    lemma_header_only(name, "`native-sources-root`"@);
    lemma_header_only(name, "`native-include-dirs`"@);
    lemma_header_only(name, "`native-defines`"@);
    lemma_header_only(name, "native link manifest keys"@);
    if let Some(path) = entry.native_include_root {
        lemma_not_dir(name, "native-include-root = \""@, path, "\""@);
    }
    if let Some(path) = entry.native_sources_root {
        lemma_not_dir(name, "native-sources-root = \""@, path, "\""@);
    }
    assert forall|path: Text| holds_text(
        #[trigger] not_dir_message(name, "native-include-dirs = [\""@, path, "\"]"@),
        name,
    ) by {
        lemma_not_dir(name, "native-include-dirs = [\""@, path, "\"]"@);
    }
    assert forall|path: Text| holds_text(
        #[trigger] not_dir_message(name, "native-link-search = [\""@, path, "\"]"@),
        name,
    ) by {
        lemma_not_dir(name, "native-link-search = [\""@, path, "\"]"@);
    }
    lemma_named_first(
        "target `"@,
        name,
        "` specifies `native-defines`, but defines cannot be empty strings"@,
    );
    lemma_named_first(
        "static native library `"@,
        name,
        "` cannot set native link manifest keys because static libraries are archived rather than linked"@,
    );
    lemma_named_first(
        "target `"@,
        name,
        "` specifies `native-link-libraries`, but library names cannot be empty strings"@,
    );
    lemma_named_first(
        "target `"@,
        name,
        "` specifies `native-link-args`, but linker arguments cannot be empty strings"@,
    );
    lemma_named_first(
        "target `"@,
        name,
        "` sets native-only manifest keys, but those keys are only supported for native C/C++ targets"@,
    );
}

/// An error on a directory that is none names the key that sets it and the path.
pub proof fn lemma_dir_errors_name(entry: TomlTargetView, header_only: bool, root: Text, fs: FsView)
    ensures
        include_root_error(entry, root, fs) matches Some(e) ==> holds_text(
            e,
            "native-include-root = \""@,
        ) && holds_text(e, entry.native_include_root->0),
        !header_only ==> (sources_root_error(entry, header_only, root, fs) matches Some(e)
            ==> holds_text(e, "native-sources-root = \""@) && holds_text(
            e,
            entry.native_sources_root->0,
        )),
        !header_only ==> (include_dirs_error(entry, header_only, root, fs) matches Some(e)
            ==> holds_text(e, "native-include-dirs = [\""@)),
        link_search_error(entry, root, fs) matches Some(e) ==> holds_text(
            e,
            "native-link-search = [\""@,
        ),
{
    let name = entry.name_text();
    if let Some(path) = entry.native_include_root {
        lemma_not_dir(name, "native-include-root = \""@, path, "\""@);
    }
    if let Some(path) = entry.native_sources_root {
        lemma_not_dir(name, "native-sources-root = \""@, path, "\""@);
    }
    assert forall|path: Text| holds_text(
        #[trigger] not_dir_message(name, "native-include-dirs = [\""@, path, "\"]"@),
        "native-include-dirs = [\""@,
    ) by {
        lemma_not_dir(name, "native-include-dirs = [\""@, path, "\"]"@);
    }
    assert forall|path: Text| holds_text(
        #[trigger] not_dir_message(name, "native-link-search = [\""@, path, "\"]"@),
        "native-link-search = [\""@,
    ) by {
        lemma_not_dir(name, "native-link-search = [\""@, path, "\"]"@);
    }
}

/// Errors on what cannot be built name what they are about: the target of a library
/// without an archiver, the target platform without a compiler, the source or the directory
/// that cannot be walked, and the file that cannot be read.
pub proof fn lemma_build_errors_name(what: Text)
    ensures
        holds_text(no_archiver_message(what), what),
        holds_text(no_compiler_message(what), what),
        holds_text(walk_message(what), what),
        holds_text(no_sources_root_message(what), what),
        holds_text(include_walk_message(what), what),
        holds_text(depfile_message(what), what),
{
    lemma_named_first(
        "failed to find an archiver for native C++ target `"@,
        what,
        "`; set the AR environment variable"@,
    );
    let a = "failed to find a C compiler for target `"@ + what;
    lemma_ends("failed to find a C compiler for target `"@, what);
    let b = a + "`; set CC, `build.native-cc`, `target."@;
    lemma_more(a, "`; set CC, `build.native-cc`, `target."@, what);
    let c = b + what;
    lemma_more(b, what, what);
    let d = c + ".native-cc`, or install one of: "@;
    lemma_more(c, ".native-cc`, or install one of: "@, what);
    lemma_more(d, join_texts(crate::toolchain::cc_candidates(what), ", "@), what);
    lemma_named_first("failed to walk native source directory while building `"@, what, "`"@);
    lemma_named_first("native companion source root `"@, what, "` is not a directory"@);
    lemma_named_first(
        "failed to walk native include directory `"@,
        what,
        "` while collecting dependencies"@,
    );
    lemma_named_first("failed to parse native depfile `"@, what, "`"@);
}

/// An error on names that come twice tells one of them.
pub proof fn lemma_duplicate_named(targets: Seq<TomlTargetView>, kind: Text)
    ensures
        unique_names(targets, kind) matches Err(e) ==> (first_repeat(names_of(targets)) matches Some(
            name,
        ) && holds_text(e, name) && holds_text(e, kind)),
{
    if let Some(name) = first_repeat(names_of(targets)) {
        let a = "found duplicate "@ + kind;
        lemma_ends("found duplicate "@, kind);
        let b = a + " name "@;
        lemma_more(a, " name "@, kind);
        let c = b + name;
        lemma_more(b, name, kind);
        lemma_ends(b, name);
        let d = c + ", but all "@;
        lemma_more(c, ", but all "@, kind);
        lemma_more(c, ", but all "@, name);
        let e = d + kind;
        lemma_more(d, kind, name);
        lemma_more(d, kind, kind);
        lemma_more(e, " targets must have a unique name"@, name);
        lemma_more(e, " targets must have a unique name"@, kind);
    }
}

/// The name that comes twice is one of the targets' names, and of two of them.
pub proof fn lemma_repeat(names: Seq<Text>)
    ensures
        first_repeat(names) matches Some(name) ==> exists|i: int, j: int|
            0 <= i < j < names.len() && #[trigger] names[i] == name && #[trigger] names[j] == name,
    decreases names.len(),
{
    if names.len() > 0 {
        let front = names.drop_last();
        lemma_repeat(front);
        match first_repeat(front) {
            Some(name) => {
                let (i, j) = choose|i: int, j: int|
                    0 <= i < j < front.len() && #[trigger] front[i] == name && #[trigger] front[j]
                        == name;
                assert(names[i] == name && names[j] == name);
            },
            None => {
                if front.contains(names.last()) {
                    let i = choose|i: int| 0 <= i < front.len() && front[i] == names.last();
                    assert(names[i] == names.last() && names[names.len() - 1] == names.last());
                }
            },
        }
    }
}

proof fn lemma_more_seven(
    s: Text,
    c0: Text,
    c1: Text,
    c2: Text,
    c3: Text,
    c4: Text,
    c5: Text,
    c6: Text,
    b: Text,
)
    requires
        holds_text(s, b),
    ensures
        holds_text(s + c0 + c1 + c2 + c3 + c4 + c5 + c6, b),
{
    lemma_more(s, c0, b);
    lemma_more(s + c0, c1, b);
    lemma_more(s + c0 + c1, c2, b);
    lemma_more(s + c0 + c1 + c2, c3, b);
    lemma_more(s + c0 + c1 + c2 + c3, c4, b);
    lemma_more(s + c0 + c1 + c2 + c3 + c4, c5, b);
    lemma_more(s + c0 + c1 + c2 + c3 + c4 + c5, c6, b);
}

proof fn lemma_lead_holds(
    start: Text,
    name: Text,
    between: Text,
    kind: Text,
    c0: Text,
    c1: Text,
    c2: Text,
    c3: Text,
    c4: Text,
    c5: Text,
    c6: Text,
)
    ensures
        holds_text(start + name + between + kind + c0 + c1 + c2 + c3 + c4 + c5 + c6, name),
        holds_text(start + name + between + kind + c0 + c1 + c2 + c3 + c4 + c5 + c6, kind),
{
    let s = start + name + between + kind;
    lemma_ends(start, name);
    lemma_more(start + name, between, name);
    lemma_more(start + name + between, kind, name);
    lemma_ends(start + name + between, kind);
    lemma_more_seven(s, c0, c1, c2, c3, c4, c5, c6, name);
    lemma_more_seven(s, c0, c1, c2, c3, c4, c5, c6, kind);
}

/// An error on a target whose path cannot be told names the target and what kind it is.
pub proof fn lemma_path_errors_name(
    target: TomlTargetView,
    inferred: Seq<(Text, Text)>,
    rules: PathRules,
)
    ensures
        path_of(target, inferred, rules).0 matches Err(e) ==> holds_text(e, target.name_text())
            && holds_text(e, rules.kind@),
{
    let name = target.name_text();
    let kind = rules.kind@;
    let root = rules.package_root@;
    let hint = hint_for(rules.hints@, name);
    let none = Seq::<char>::empty();
    let right = possible_file(name, kind, false);
    let right_dir = possible_dir_file(name, kind, false);
    let wrong = possible_file(name, kind, true);
    let wrong_dir = possible_dir_file(name, kind, true);
    lemma_lead_holds(
        "can't find `"@,
        name,
        "` "@,
        kind,
        " at default paths, but found a file at `"@,
        wrong,
        "`.\nPerhaps rename the file to `"@,
        right,
        "` for target auto-discovery, or specify "@,
        kind,
        ".path if you want to use a non-default path."@,
    );
    lemma_lead_holds(
        "can't find `"@,
        name,
        "` "@,
        kind,
        " at default paths, but found a file at `"@,
        wrong_dir,
        "`.\nPerhaps rename the file to `"@,
        right_dir,
        "` for target auto-discovery, or specify "@,
        kind,
        ".path if you want to use a non-default path."@,
    );
    lemma_lead_holds(
        "can't find `"@,
        name,
        "` "@,
        kind,
        " at `"@,
        right,
        "` or `"@,
        right_dir,
        "`. Please specify "@,
        kind,
        ".path if you want to use a non-default path."@,
    );
    let e = "can't find `"@ + name + "` "@ + kind + " at default paths, but found a file at `"@
        + wrong + "`.\nPerhaps rename the file to `"@ + right
        + "` for target auto-discovery, or specify "@ + kind
        + ".path if you want to use a non-default path."@;
    lemma_more(e, hint, name);
    lemma_more(e, hint, kind);
    let e = "can't find `"@ + name + "` "@ + kind + " at default paths, but found a file at `"@
        + wrong_dir + "`.\nPerhaps rename the file to `"@ + right_dir
        + "` for target auto-discovery, or specify "@ + kind
        + ".path if you want to use a non-default path."@;
    lemma_more(e, hint, name);
    lemma_more(e, hint, kind);
    let e = "can't find `"@ + name + "` "@ + kind + " at `"@ + right + "` or `"@ + right_dir
        + "`. Please specify "@ + kind + ".path if you want to use a non-default path."@;
    lemma_more(e, hint, name);
    lemma_more(e, hint, kind);
    let found = paths_named(inferred, name);
    let first = stripped_or_whole(found[0], root);
    let second = stripped_or_whole(found[1], root);
    let told =
        "\nCargo doesn't know which to use because multiple target files found at `"@;
    lemma_lead_holds(
        "cannot infer path for `"@,
        name,
        "` "@,
        kind,
        told,
        first,
        "` and `"@,
        second,
        "`."@,
        none,
        none,
    );
    let whole = "cannot infer path for `"@ + name + "` "@ + kind + told + first + "` and `"@ + second
        + "`."@;
    assert(whole + none + none =~= whole);
}

/// An error on two targets that have one name, or could be one target, names them.
pub proof fn lemma_conflicts_named(
    what: Text,
    name: Text,
    first: (Text, Text),
    second: (Text, Text),
    path: Text,
)
    ensures
        holds_text(name_conflict_message(what, name, first, second), name),
        holds_text(name_conflict_message(what, name, first, second), first.0),
        holds_text(name_conflict_message(what, name, first, second), second.0),
        holds_text(dir_conflict_message(what, name, first.0, second.0), name),
        holds_text(dir_conflict_message(what, name, first.0, second.0), first.0),
        holds_text(dir_conflict_message(what, name, first.0, second.0), second.0),
        holds_text(lib_conflict_message(path), path),
        holds_text(bin_conflict_message(path), path),
{
    let start = "found conflicting "@;
    let a = start + what + " `"@;
    let b = a + name;
    let c = b + "` at `"@ + first.0;
    let d = c + "` and `"@ + second.0;
    lemma_ends(a, name);
    lemma_more(b, "` at `"@, name);
    lemma_more(b + "` at `"@, first.0, name);
    lemma_ends(b + "` at `"@, first.0);
    lemma_more(c, "` and `"@, name);
    lemma_more(c, "` and `"@, first.0);
    lemma_more(c + "` and `"@, second.0, name);
    lemma_more(c + "` and `"@, second.0, first.0);
    lemma_ends(c + "` and `"@, second.0);
    let tail =
        "`; a package cannot define both a Rust and native C/C++ target with the same name"@;
    lemma_more(d, tail, name);
    lemma_more(d, tail, first.0);
    lemma_more(d, tail, second.0);
    let none = Seq::<char>::empty();
    let c0 = "`; a package cannot define both a "@;
    let c4 = " target with the same name"@;
    lemma_more_seven(d, c0, first.1, " and "@, second.1, c4, none, none, name);
    lemma_more_seven(d, c0, first.1, " and "@, second.1, c4, none, none, first.0);
    lemma_more_seven(d, c0, first.1, " and "@, second.1, c4, none, none, second.0);
    let whole = d + c0 + first.1 + " and "@ + second.1 + c4;
    assert(whole + none + none =~= whole);
    lemma_named_first(
        "found conflicting library targets at `src/lib.rs` and `"@,
        path,
        "`; a package cannot define both a Rust and C++ default library target"@,
    );
    lemma_named_first(
        "found conflicting binary targets at `src/main.rs` and `"@,
        path,
        "`; a package cannot define both a Rust and C++ default binary target"@,
    );
}

/// Errors on what a library or an example cannot be name it.
pub proof fn lemma_kind_errors_name(name: Text)
    ensures
        holds_text(example_message(name), name),
        holds_text(header_only_crate_type_message(name), name),
        holds_text(no_lib_message(name), name),
{
    lemma_named_first(
        "native C/C++ example `"@,
        name,
        "` must be an executable target; remove `crate-type` or use only `bin`"@,
    );
    lemma_named_first(
        "header-only native library `"@,
        name,
        "` cannot set `crate-type`; remove it or point `lib.path` to a compilable source file"@,
    );
    lemma_named_first(
        "can't find library `"@,
        name,
        "`, rename file to `src/lib.rs` or `src/lib.cpp`, add `include/` for a header-only library, or specify lib.path"@,
    );
}

} // verus!
