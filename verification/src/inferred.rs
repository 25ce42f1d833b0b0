//! Which files of a package are targets by where they stand.
use vstd::prelude::*;

use crate::discover::{entry_target, if_file_there, if_there, is_header_only};
use crate::discover::{is_visible, lib_path, main_path, native_candidates};
use crate::discover::{bin_paths, conflict_key, dir_targets, native_mains, ordered_conflict};
use crate::discover::native_sources_named;
use crate::flagged::lemma_seven;
use crate::fs::{find_kind, DirEntry, FsView, PathFact, PathKind};
use crate::native::is_native_header;
use crate::order::{key_less, part_less};
use crate::path::{extension, file_name, file_stem, holds_path, joined, lemma_sorted_paths};
use crate::path::{same_path, sorted_paths, stripped_or_whole};
use crate::text::Text;

verus! {

/// What is known of a path is the first fact on it; without one, nothing is there.
pub proof fn lemma_facts(fs: FsView, path: Text)
    ensures
        match fs.kind_of(path) {
            PathKind::Missing => true,
            kind => exists|i: int|
                0 <= i < fs.facts@.len() && same_path((#[trigger] fs.facts@[i]).path@, path)
                    && fs.facts@[i].kind == kind && forall|j: int|
                    0 <= j < i ==> !same_path((#[trigger] fs.facts@[j]).path@, path),
        },
        (forall|i: int|
            0 <= i < fs.facts@.len() ==> !same_path((#[trigger] fs.facts@[i]).path@, path))
            ==> fs.kind_of(path) == PathKind::Missing,
        fs.has(path) <==> fs.kind_of(path) != PathKind::Missing,
        fs.has_dir(path) <==> fs.kind_of(path) == PathKind::Dir,
        fs.has_file(path) <==> fs.kind_of(path) == PathKind::File,
{
    lemma_find_kind(fs.facts@, path);
}

proof fn lemma_find_kind(facts: Seq<PathFact>, path: Text)
    ensures
        match find_kind(facts, path) {
            PathKind::Missing => true,
            kind => exists|i: int|
                0 <= i < facts.len() && same_path((#[trigger] facts[i]).path@, path)
                    && facts[i].kind == kind && forall|j: int|
                    0 <= j < i ==> !same_path((#[trigger] facts[j]).path@, path),
        },
        (forall|i: int| 0 <= i < facts.len() ==> !same_path((#[trigger] facts[i]).path@, path))
            ==> find_kind(facts, path) == PathKind::Missing,
    decreases facts.len(),
{
    if facts.len() > 0 {
        if same_path(facts[0].path@, path) {
            assert(facts[0].kind == find_kind(facts, path));
        } else {
            let rest = facts.skip(1);
            lemma_find_kind(rest, path);
            let kind = find_kind(rest, path);
            if forall|i: int|
                0 <= i < facts.len() ==> !same_path((#[trigger] facts[i]).path@, path) {
                assert forall|i: int| 0 <= i < rest.len() implies !same_path(
                    (#[trigger] rest[i]).path@,
                    path,
                ) by {
                    assert(facts[i + 1] == rest[i]);
                }
            }
            if kind != PathKind::Missing {
                let i = choose|i: int|
                    0 <= i < rest.len() && same_path((#[trigger] rest[i]).path@, path)
                        && rest[i].kind == kind && forall|j: int|
                        0 <= j < i ==> !same_path((#[trigger] rest[j]).path@, path);
                assert(facts[i + 1] == rest[i]);
                assert forall|j: int| 0 <= j < i + 1 implies !same_path(
                    (#[trigger] facts[j]).path@,
                    path,
                ) by {
                    if j > 0 {
                        assert(rest[j - 1] == facts[j]);
                    }
                }
            }
        }
    }
}

/// How many of the four are so.
pub open spec fn how_many(a: bool, b: bool, c: bool, d: bool) -> nat {
    (if a {
        1nat
    } else {
        0
    }) + (if b {
        1nat
    } else {
        0
    }) + (if c {
        1nat
    } else {
        0
    }) + (if d {
        1nat
    } else {
        0
    })
}

proof fn lemma_names_in_src()
    ensures
        joined("src"@, "lib"@ + "."@ + "c"@) == "src/lib.c"@,
        joined("src"@, "lib"@ + "."@ + "cpp"@) == "src/lib.cpp"@,
        joined("src"@, "lib"@ + "."@ + "cc"@) == "src/lib.cc"@,
        joined("src"@, "lib"@ + "."@ + "cxx"@) == "src/lib.cxx"@,
        joined("src"@, "lib.rs"@) == "src/lib.rs"@,
        joined("src"@, "main"@ + "."@ + "c"@) == "src/main.c"@,
        joined("src"@, "main"@ + "."@ + "cpp"@) == "src/main.cpp"@,
        joined("src"@, "main"@ + "."@ + "cc"@) == "src/main.cc"@,
        joined("src"@, "main"@ + "."@ + "cxx"@) == "src/main.cxx"@,
        joined("src"@, "main.rs"@) == "src/main.rs"@,
        joined("src"@, "bin"@) == "src/bin"@,
{
    reveal_strlit("src");
    reveal_strlit("lib");
    reveal_strlit("main");
    reveal_strlit("bin");
    reveal_strlit(".");
    reveal_strlit("c");
    reveal_strlit("cpp");
    reveal_strlit("cc");
    reveal_strlit("cxx");
    reveal_strlit("lib.rs");
    reveal_strlit("main.rs");
    reveal_strlit("src/lib.c");
    reveal_strlit("src/lib.cpp");
    reveal_strlit("src/lib.cc");
    reveal_strlit("src/lib.cxx");
    reveal_strlit("src/lib.rs");
    reveal_strlit("src/main.c");
    reveal_strlit("src/main.cpp");
    reveal_strlit("src/main.cc");
    reveal_strlit("src/main.cxx");
    reveal_strlit("src/main.rs");
    reveal_strlit("src/bin");
    assert("src"@.last() == 'c');
    assert(joined("src"@, "lib"@ + "."@ + "c"@) =~= "src/lib.c"@);
    assert(joined("src"@, "lib"@ + "."@ + "cpp"@) =~= "src/lib.cpp"@);
    assert(joined("src"@, "lib"@ + "."@ + "cc"@) =~= "src/lib.cc"@);
    assert(joined("src"@, "lib"@ + "."@ + "cxx"@) =~= "src/lib.cxx"@);
    assert(joined("src"@, "lib.rs"@) =~= "src/lib.rs"@);
    assert(joined("src"@, "main"@ + "."@ + "c"@) =~= "src/main.c"@);
    assert(joined("src"@, "main"@ + "."@ + "cpp"@) =~= "src/main.cpp"@);
    assert(joined("src"@, "main"@ + "."@ + "cc"@) =~= "src/main.cc"@);
    assert(joined("src"@, "main"@ + "."@ + "cxx"@) =~= "src/main.cxx"@);
    assert(joined("src"@, "main.rs"@) =~= "src/main.rs"@);
    assert(joined("src"@, "bin"@) =~= "src/bin"@);
}

/// Of four files, those that are there.
spec fn four_there(
    package_root: Text,
    fs: FsView,
    a: Text,
    b: Text,
    c: Text,
    d: Text,
) -> Seq<Text> {
    if_there(package_root, fs, a) + if_there(package_root, fs, b) + if_there(package_root, fs, c)
        + if_there(package_root, fs, d)
}

proof fn lemma_one_there(package_root: Text, fs: FsView, a: Text, x: Text)
    ensures
        if_there(package_root, fs, a).contains(x) <==> x == a && fs.has(joined(package_root, a)),
{
    let list = if_there(package_root, fs, a);
    if list.len() > 0 {
        assert(list[0] == a);
    }
}

proof fn lemma_four_there(
    package_root: Text,
    fs: FsView,
    a: Text,
    b: Text,
    c: Text,
    d: Text,
    x: Text,
)
    ensures
        four_there(package_root, fs, a, b, c, d).contains(x) <==> (x == a || x == b || x == c || x
            == d) && fs.has(joined(package_root, x)),
        four_there(package_root, fs, a, b, c, d).len() == how_many(
            fs.has(joined(package_root, a)),
            fs.has(joined(package_root, b)),
            fs.has(joined(package_root, c)),
            fs.has(joined(package_root, d)),
        ),
{
    let none = Seq::<Text>::empty();
    let s0 = if_there(package_root, fs, a);
    let s1 = if_there(package_root, fs, b);
    let s2 = if_there(package_root, fs, c);
    let s3 = if_there(package_root, fs, d);
    assert(s0 + s1 + s2 + s3 =~= s0 + s1 + s2 + s3 + none + none + none);
    lemma_seven(s0, s1, s2, s3, none, none, none);
    lemma_one_there(package_root, fs, a, x);
    lemma_one_there(package_root, fs, b, x);
    lemma_one_there(package_root, fs, c, x);
    lemma_one_there(package_root, fs, d, x);
}

/// A result where at most one of four files may be there.
spec fn judges_four(
    r: Result<Seq<Text>, Text>,
    package_root: Text,
    fs: FsView,
    a: Text,
    b: Text,
    c: Text,
    d: Text,
) -> bool {
    let n = how_many(
        fs.has(joined(package_root, a)),
        fs.has(joined(package_root, b)),
        fs.has(joined(package_root, c)),
        fs.has(joined(package_root, d)),
    );
    match r {
        Err(_) => n > 1,
        Ok(list) => {
            &&& n <= 1
            &&& n == 0 <==> list.len() == 0
            &&& list.len() > 0 ==> {
                &&& list[0] == a || list[0] == b || list[0] == c || list[0] == d
                &&& fs.has(joined(package_root, list[0]))
            }
        },
    }
}

proof fn lemma_candidates(
    package_root: Text,
    fs: FsView,
    stem: Text,
    a: Text,
    b: Text,
    c: Text,
    d: Text,
)
    requires
        a == joined("src"@, stem + "."@ + "c"@),
        b == joined("src"@, stem + "."@ + "cpp"@),
        c == joined("src"@, stem + "."@ + "cc"@),
        d == joined("src"@, stem + "."@ + "cxx"@),
    ensures
        judges_four(
            native_candidates(package_root, fs, "src"@, stem, false),
            package_root,
            fs,
            a,
            b,
            c,
            d,
        ),
{
    let list = native_sources_named(package_root, fs, "src"@, stem);
    assert(list == four_there(package_root, fs, a, b, c, d));
    lemma_four_there(package_root, fs, a, b, c, d, a);
    let sorted = sorted_paths(list);
    lemma_sorted_paths(list);
    if sorted.len() > 0 {
        assert(list.contains(sorted[0]));
        lemma_four_there(package_root, fs, a, b, c, d, sorted[0]);
    } else if list.len() > 0 {
        assert(holds_path(sorted, list[0]));
    }
}

/// The library of a package is `src/lib.rs`, or the one native source `lib` in `src`, or
/// the directory `include`; two sources that could be it are refused.
pub proof fn lemma_library_found(package_root: Text, fs: FsView)
    ensures
        ({
            let rust = fs.has(joined(package_root, "src/lib.rs"@));
            let natives = how_many(
                fs.has(joined(package_root, "src/lib.c"@)),
                fs.has(joined(package_root, "src/lib.cpp"@)),
                fs.has(joined(package_root, "src/lib.cc"@)),
                fs.has(joined(package_root, "src/lib.cxx"@)),
            );
            match lib_path(package_root, fs) {
                Err(_) => natives > 1 || (natives == 1 && rust),
                Ok(Some(path)) => {
                    ||| rust && natives == 0 && path == "src/lib.rs"@
                    ||| !rust && natives == 1 && fs.has(joined(package_root, path)) && (path
                        == "src/lib.c"@ || path == "src/lib.cpp"@ || path == "src/lib.cc"@ || path
                        == "src/lib.cxx"@)
                    ||| !rust && natives == 0 && path == "include"@ && fs.has_dir(
                        joined(package_root, "include"@),
                    )
                },
                Ok(None) => !rust && natives == 0 && !fs.has_dir(joined(package_root, "include"@)),
            }
        }),
{
    lemma_names_in_src();
    lemma_candidates(
        package_root,
        fs,
        "lib"@,
        "src/lib.c"@,
        "src/lib.cpp"@,
        "src/lib.cc"@,
        "src/lib.cxx"@,
    );
}

/// The binary of a package that has its name is `src/main.rs`, or the one native source
/// `main` in `src`; two sources that could be it are refused.
pub proof fn lemma_main_found(package_root: Text, fs: FsView)
    ensures
        ({
            let rust = fs.has(joined(package_root, "src/main.rs"@));
            let natives = how_many(
                fs.has(joined(package_root, "src/main.c"@)),
                fs.has(joined(package_root, "src/main.cpp"@)),
                fs.has(joined(package_root, "src/main.cc"@)),
                fs.has(joined(package_root, "src/main.cxx"@)),
            );
            match main_path(package_root, fs) {
                Err(_) => natives > 1 || (natives == 1 && rust),
                Ok(Some(path)) => {
                    ||| rust && natives == 0 && path == "src/main.rs"@
                    ||| !rust && natives == 1 && fs.has(joined(package_root, path)) && (path
                        == "src/main.c"@ || path == "src/main.cpp"@ || path == "src/main.cc"@
                        || path == "src/main.cxx"@)
                },
                Ok(None) => !rust && natives == 0,
            }
        }),
{
    lemma_names_in_src();
    lemma_candidates(
        package_root,
        fs,
        "main"@,
        "src/main.c"@,
        "src/main.cpp"@,
        "src/main.cc"@,
        "src/main.cxx"@,
    );
}

/// The binaries of a package are the one that has its name, if there is one, and those in
/// `src/bin`.
pub proof fn lemma_binaries_found(
    package_root: Text,
    package_name: Text,
    fs: FsView,
    listing: Option<Vec<DirEntry>>,
)
    ensures
        match (
            main_path(package_root, fs),
            dir_targets(package_root, fs, "src/bin"@, listing, "binary targets"@),
        ) {
            (Ok(main), Ok(others)) => bin_paths(package_root, package_name, fs, listing) == Ok::<
                Seq<(Text, Text)>,
                Text,
            >(
                (match main {
                    Some(path) => seq![(package_name, path)],
                    None => Seq::<(Text, Text)>::empty(),
                }) + others,
            ),
            _ => bin_paths(package_root, package_name, fs, listing) is Err,
        },
{
    lemma_names_in_src();
    if let Ok(others) = dir_targets(package_root, fs, "src/bin"@, listing, "binary targets"@) {
        assert(Seq::<(Text, Text)>::empty() + others =~= others);
    }
}

/// A file of a directory is a target where it is a source in Rust, C or C++: with the
/// name of its stem, at its place in the package. Any other file is none.
pub proof fn lemma_file_found(package_root: Text, fs: FsView, path: Text, what: Text)
    requires
        file_stem(path) is Some,
    ensures
        match entry_target(package_root, fs, path, false, what) {
            Err(_) => false,
            Ok(Some(found)) => {
                &&& found.name == file_stem(path)->0
                &&& found.path == stripped_or_whole(path, package_root)
                &&& extension(path) == Some("rs"@) && found.language == "Rust"@
                    || extension(path) == Some("c"@) && found.language == "C"@ || (extension(path)
                    == Some("cc"@) || extension(path) == Some("cpp"@) || extension(path) == Some(
                    "cxx"@,
                )) && found.language == "C++"@
            },
            Ok(None) => extension(path) != Some("rs"@) && extension(path) != Some("c"@)
                && extension(path) != Some("cc"@) && extension(path) != Some("cpp"@) && extension(
                path,
            ) != Some("cxx"@),
        },
{
    reveal_strlit("rs");
    reveal_strlit("c");
    reveal_strlit("cc");
    reveal_strlit("cpp");
    reveal_strlit("cxx");
    assert("rs"@.len() == 2 && "rs"@[0] == 'r');
    assert("c"@.len() == 1 && "cc"@.len() == 2 && "cc"@[0] == 'c');
    assert("cpp"@.len() == 3 && "cxx"@.len() == 3);
}

proof fn lemma_one_main(fs: FsView, a: Text)
    ensures
        if_file_there(fs, a).len() == if fs.has(a) {
            1nat
        } else {
            0
        },
        fs.has(a) ==> if_file_there(fs, a)[0] == a,
{
}

/// A directory is a target where it holds `main.rs` or a native source `main`: with its
/// name, at the place of that file in the package. One with both is refused, and one with
/// neither is none.
pub proof fn lemma_dir_found(package_root: Text, fs: FsView, dir: Text, what: Text)
    requires
        file_name(dir) is Some,
    ensures
        ({
            let rust = fs.has(joined(dir, "main.rs"@));
            let native = fs.has(joined(dir, "main.c"@)) || fs.has(joined(dir, "main.cpp"@))
                || fs.has(joined(dir, "main.cc"@)) || fs.has(joined(dir, "main.cxx"@));
            match entry_target(package_root, fs, dir, true, what) {
                Err(_) => rust && native,
                Ok(Some(found)) => {
                    &&& rust != native
                    &&& found.name == file_name(dir)->0
                    &&& rust ==> found.path == stripped_or_whole(
                        joined(dir, "main.rs"@),
                        package_root,
                    ) && found.language == "Rust"@
                    &&& native ==> exists|name: Text|
                        (name == "main.c"@ || name == "main.cpp"@ || name == "main.cc"@ || name
                            == "main.cxx"@) && fs.has(#[trigger] joined(dir, name)) && found.path
                            == stripped_or_whole(joined(dir, name), package_root)
                },
                Ok(None) => !rust && !native,
            }
        }),
{
    reveal_strlit("main");
    reveal_strlit(".");
    reveal_strlit("c");
    reveal_strlit("cpp");
    reveal_strlit("cc");
    reveal_strlit("cxx");
    reveal_strlit("main.c");
    reveal_strlit("main.cpp");
    reveal_strlit("main.cc");
    reveal_strlit("main.cxx");
    assert("main"@ + "."@ + "c"@ =~= "main.c"@);
    assert("main"@ + "."@ + "cpp"@ =~= "main.cpp"@);
    assert("main"@ + "."@ + "cc"@ =~= "main.cc"@);
    assert("main"@ + "."@ + "cxx"@ =~= "main.cxx"@);
    let a = joined(dir, "main.c"@);
    let b = joined(dir, "main.cpp"@);
    let c = joined(dir, "main.cc"@);
    let d = joined(dir, "main.cxx"@);
    lemma_one_main(fs, a);
    lemma_one_main(fs, b);
    lemma_one_main(fs, c);
    lemma_one_main(fs, d);
    let list = native_mains(fs, dir);
    assert(list == if_file_there(fs, a) + if_file_there(fs, b) + if_file_there(fs, c)
        + if_file_there(fs, d));
    if list.len() > 0 {
        let name = if fs.has(a) {
            "main.c"@
        } else if fs.has(b) {
            "main.cpp"@
        } else if fs.has(c) {
            "main.cc"@
        } else {
            "main.cxx"@
        };
        assert(list[0] == joined(dir, name));
        assert(fs.has(joined(dir, name)));
    }
}

/// What begins with a dot is not looked at, nor is what has no name that can be read.
pub proof fn lemma_visible(entry: DirEntry)
    ensures
        is_visible(entry) <==> (entry.file_name matches Some(name) && (name@.len() == 0 || name@[0]
            != '.')),
{
}

/// Headers make a library: a directory, or one file with the extension of a header.
pub proof fn lemma_headers(path: Text, fs: FsView)
    ensures
        is_header_only(path, fs) <==> fs.has_dir(path) || is_native_header(path),
{
}

/// Of two targets that have one name, the one in Rust is told first.
pub proof fn lemma_conflict_told(left: Text, right: Text, language: Text)
    requires
        language == "C"@ || language == "C++"@,
    ensures
        ordered_conflict((left, "Rust"@), (right, language)) == ((left, "Rust"@), (right, language)),
        ordered_conflict((right, language), (left, "Rust"@)) == ((left, "Rust"@), (right, language)),
{
    reveal_strlit("Rust");
    reveal_strlit("C");
    reveal_strlit("C++");
    assert("Rust"@.len() == 4 && "C"@.len() == 1 && "C++"@.len() == 3);
    let a = conflict_key((left, "Rust"@));
    let b = conflict_key((right, language));
    assert(a[0] == seq![0u32] && b[0] == seq![1u32]);
    assert(a[0][0] != b[0][0]);
    assert(part_less(a[0], b[0]));
    assert(!part_less(b[0], a[0]));
    assert(key_less(a, b));
    assert(!key_less(b, a));
}

/// Where several native sources of one stem are allowed, all that are there are given, and
/// no others.
pub proof fn lemma_sources_named(package_root: Text, fs: FsView, dir: Text, stem: Text, path: Text)
    ensures
        native_candidates(package_root, fs, dir, stem, true) matches Ok(list) && {
            let a = joined(dir, stem + "."@ + "c"@);
            let b = joined(dir, stem + "."@ + "cpp"@);
            let c = joined(dir, stem + "."@ + "cc"@);
            let d = joined(dir, stem + "."@ + "cxx"@);
            let is_there = (path == a || path == b || path == c || path == d) && fs.has(
                joined(package_root, path),
            );
            &&& is_there ==> holds_path(list, path)
            &&& list.contains(path) ==> is_there
        },
{
    let a = joined(dir, stem + "."@ + "c"@);
    let b = joined(dir, stem + "."@ + "cpp"@);
    let c = joined(dir, stem + "."@ + "cc"@);
    let d = joined(dir, stem + "."@ + "cxx"@);
    let list = native_sources_named(package_root, fs, dir, stem);
    assert(list == four_there(package_root, fs, a, b, c, d));
    lemma_four_there(package_root, fs, a, b, c, d, path);
    let sorted = sorted_paths(list);
    lemma_sorted_paths(list);
    if list.contains(path) {
        let k = choose|k: int| 0 <= k < list.len() && list[k] == path;
        assert(holds_path(sorted, list[k]));
    }
    if sorted.contains(path) {
        let k = choose|k: int| 0 <= k < sorted.len() && sorted[k] == path;
        assert(list.contains(sorted[k]));
    }
}

/// A directory that cannot be listed has no targets.
pub proof fn lemma_unlisted(package_root: Text, fs: FsView, rel_dir: Text, what: Text)
    ensures
        dir_targets(package_root, fs, rel_dir, None, what) == Ok::<Seq<(Text, Text)>, Text>(
            Seq::empty(),
        ),
{
}

} // verus!
