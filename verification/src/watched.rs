//! Which files a build watches.
use vstd::prelude::*;

use crate::fs::FsView;
use crate::layout::{headers_below, headers_in, named_files, tracked_inputs, walk_at};
use crate::layout::{walk_complete, WalkEntry, WalkKind};
use crate::native::{is_native_header, NativeCompilerFamily};
use crate::path::{holds_path, lemma_sorted_paths, same_path, sorted_paths};
use crate::text::{texts, Text};

verus! {

proof fn lemma_holds_append(a: Seq<Text>, b: Seq<Text>, path: Text)
    ensures
        holds_path(a + b, path) <==> holds_path(a, path) || holds_path(b, path),
{
    let all = a + b;
    if holds_path(a, path) {
        let i = choose|i: int| 0 <= i < a.len() && same_path(#[trigger] a[i], path);
        assert(all[i] == a[i]);
    }
    if holds_path(b, path) {
        let i = choose|i: int| 0 <= i < b.len() && same_path(#[trigger] b[i], path);
        assert(all[a.len() + i] == b[i]);
    }
    if holds_path(all, path) {
        let i = choose|i: int| 0 <= i < all.len() && same_path(#[trigger] all[i], path);
        if i < a.len() {
            assert(same_path(a[i], path));
        } else {
            assert(same_path(b[i - a.len()], path));
        }
    }
}

proof fn lemma_holds_sorted(list: Seq<Text>, path: Text)
    ensures
        holds_path(sorted_paths(list), path) <==> holds_path(list, path),
{
    let sorted = sorted_paths(list);
    lemma_sorted_paths(list);
    if holds_path(list, path) {
        let k = choose|k: int| 0 <= k < list.len() && same_path(#[trigger] list[k], path);
        assert(holds_path(sorted, list[k]));
        let i = choose|i: int| 0 <= i < sorted.len() && same_path(#[trigger] sorted[i], list[k]);
        assert(same_path(sorted[i], path));
    }
    if holds_path(sorted, path) {
        let i = choose|i: int| 0 <= i < sorted.len() && same_path(#[trigger] sorted[i], path);
        assert(list.contains(sorted[i]));
        let k = choose|k: int| 0 <= k < list.len() && list[k] == sorted[i];
        assert(same_path(list[k], path));
    }
}

/// One of the first `n` dependency files names the path.
pub open spec fn is_named(
    depfiles: Seq<Option<Text>>,
    named: Seq<Option<Vec<String>>>,
    n: int,
    path: Text,
) -> bool {
    exists|i: int|
        0 <= i < n && #[trigger] depfiles[i] is Some && holds_path(texts(named[i]->0@), path)
}

proof fn lemma_named(
    depfiles: Seq<Option<Text>>,
    named: Seq<Option<Vec<String>>>,
    n: nat,
    path: Text,
)
    ensures
        named_files(depfiles, named, n) matches Ok(list) ==> (holds_path(list, path) <==> is_named(
            depfiles,
            named,
            n as int,
            path,
        )),
    decreases n,
{
    if n > 0 {
        let m = (n - 1) as nat;
        lemma_named(depfiles, named, m, path);
        match named_files(depfiles, named, n) {
            Err(_) => {},
            Ok(_) => {
                let before = named_files(depfiles, named, m)->Ok_0;
                let more = texts(named[m as int]->0@);
                lemma_holds_append(before, more, path);
                if is_named(depfiles, named, m as int, path) {
                    let i = choose|i: int|
                        0 <= i < m && #[trigger] depfiles[i] is Some && holds_path(
                            texts(named[i]->0@),
                            path,
                        );
                    assert(depfiles[i] is Some);
                }
                if depfiles[m as int] is Some && holds_path(more, path) {
                    assert(is_named(depfiles, named, n as int, path));
                }
            },
        }
    }
}

/// Where the compiler writes dependency files, the files that are watched are the
/// sources and those that the dependency files name. A header that no source
/// includes is not among them.
pub proof fn lemma_watched_by_depfiles(
    sources: Seq<Text>,
    depfiles: Seq<Option<Text>>,
    named: Seq<Option<Vec<String>>>,
    dirs: Seq<Text>,
    fs: FsView,
    walks: Seq<Vec<WalkEntry>>,
    path: Text,
)
    ensures
        tracked_inputs(
            NativeCompilerFamily::GnuLike,
            sources,
            depfiles,
            named,
            dirs,
            fs,
            walks,
        ) matches Ok(list) ==> (holds_path(list, path) <==> holds_path(sources, path) || is_named(
            depfiles,
            named,
            depfiles.len() as int,
            path,
        )),
{
    match named_files(depfiles, named, depfiles.len()) {
        Err(_) => {},
        Ok(list) => {
            lemma_named(depfiles, named, depfiles.len(), path);
            lemma_holds_append(sources, list, path);
            lemma_holds_sorted(sources + list, path);
        },
    }
}

/// The path is a header below one of the first `n` include directories.
pub open spec fn is_header_below(
    dirs: Seq<Text>,
    fs: FsView,
    walks: Seq<Vec<WalkEntry>>,
    n: int,
    path: Text,
) -> bool {
    exists|i: int|
        0 <= i < n && fs.has_dir(#[trigger] dirs[i]) && holds_path(
            headers_in(walk_at(walks, i)),
            path,
        )
}

proof fn lemma_headers(
    dirs: Seq<Text>,
    fs: FsView,
    walks: Seq<Vec<WalkEntry>>,
    n: nat,
    path: Text,
)
    ensures
        headers_below(dirs, fs, walks, n) matches Ok(list) ==> (holds_path(list, path)
            <==> is_header_below(dirs, fs, walks, n as int, path)),
    decreases n,
{
    if n > 0 {
        let m = (n - 1) as nat;
        lemma_headers(dirs, fs, walks, m, path);
        match headers_below(dirs, fs, walks, n) {
            Err(_) => {},
            Ok(_) => {
                let before = headers_below(dirs, fs, walks, m)->Ok_0;
                let more = headers_in(walk_at(walks, m as int));
                lemma_holds_append(before, more, path);
                if is_header_below(dirs, fs, walks, m as int, path) {
                    let i = choose|i: int|
                        0 <= i < m && fs.has_dir(#[trigger] dirs[i]) && holds_path(
                            headers_in(walk_at(walks, i)),
                            path,
                        );
                    assert(fs.has_dir(dirs[i]));
                }
                if fs.has_dir(dirs[m as int]) && holds_path(more, path) {
                    assert(is_header_below(dirs, fs, walks, n as int, path));
                }
            },
        }
    }
}

/// Where the compiler writes no dependency files, the files that are watched are the
/// sources and all headers below the include directories.
pub proof fn lemma_watched_by_scan(
    sources: Seq<Text>,
    depfiles: Seq<Option<Text>>,
    named: Seq<Option<Vec<String>>>,
    dirs: Seq<Text>,
    fs: FsView,
    walks: Seq<Vec<WalkEntry>>,
    path: Text,
)
    ensures
        tracked_inputs(
            NativeCompilerFamily::MsvcLike,
            sources,
            depfiles,
            named,
            dirs,
            fs,
            walks,
        ) matches Ok(list) ==> (holds_path(list, path) <==> holds_path(sources, path)
            || is_header_below(dirs, fs, walks, dirs.len() as int, path)),
{
    match headers_below(dirs, fs, walks, dirs.len()) {
        Err(_) => {},
        Ok(list) => {
            lemma_headers(dirs, fs, walks, dirs.len(), path);
            lemma_holds_append(sources, list, path);
            lemma_holds_sorted(sources + list, path);
        },
    }
}

/// The headers below a directory are the files in it with the extension of a header.
pub proof fn lemma_headers_below(walk: Seq<WalkEntry>, path: Text)
    ensures
        headers_in(walk).contains(path) <==> exists|i: int|
            0 <= i < walk.len() && (#[trigger] walk[i]).kind == WalkKind::File && walk[i].path@
                == path && is_native_header(path),
    decreases walk.len(),
{
    if walk.len() > 0 {
        let front = walk.drop_last();
        let before = headers_in(front);
        let all = headers_in(walk);
        lemma_headers_below(front, path);
        assert(walk.last() == walk[walk.len() - 1]);
        if all.contains(path) {
            let k = choose|k: int| 0 <= k < all.len() && all[k] == path;
            if k < before.len() {
                assert(before[k] == path);
                let i = choose|i: int|
                    0 <= i < front.len() && (#[trigger] front[i]).kind == WalkKind::File
                        && front[i].path@ == path && is_native_header(path);
                assert(walk[i] == front[i]);
            }
        }
        if exists|i: int|
            0 <= i < walk.len() && (#[trigger] walk[i]).kind == WalkKind::File && walk[i].path@
                == path && is_native_header(path) {
            let i = choose|i: int|
                0 <= i < walk.len() && (#[trigger] walk[i]).kind == WalkKind::File && walk[i].path@
                    == path && is_native_header(path);
            if i < front.len() {
                assert(front[i] == walk[i]);
                let k = choose|k: int| 0 <= k < before.len() && before[k] == path;
                assert(all[k] == path);
            } else {
                assert(all[all.len() - 1] == path);
            }
        }
    }
}

proof fn lemma_named_told(depfiles: Seq<Option<Text>>, named: Seq<Option<Vec<String>>>, n: nat)
    ensures
        named_files(depfiles, named, n) is Ok <==> forall|i: int|
            0 <= i < n && #[trigger] depfiles[i] is Some ==> i < named.len() && named[i] is Some,
    decreases n,
{
    if n > 0 {
        lemma_named_told(depfiles, named, (n - 1) as nat);
    }
}

proof fn lemma_scanned_told(dirs: Seq<Text>, fs: FsView, walks: Seq<Vec<WalkEntry>>, n: nat)
    ensures
        headers_below(dirs, fs, walks, n) is Ok <==> forall|i: int|
            0 <= i < n && fs.has_dir(#[trigger] dirs[i]) ==> is_walked(walk_at(walks, i)),
    decreases n,
{
    if n > 0 {
        lemma_scanned_told(dirs, fs, walks, (n - 1) as nat);
        lemma_walked(walk_at(walks, n - 1));
    }
}

proof fn lemma_walked(walk: Seq<WalkEntry>)
    ensures
        walk_complete(walk) <==> is_walked(walk),
{
}

/// All that is below a directory is known.
pub open spec fn is_walked(walk: Seq<WalkEntry>) -> bool {
    forall|i: int| 0 <= i < walk.len() ==> (#[trigger] walk[i]).kind != WalkKind::Failed
}

/// The files to watch can be told exactly where each dependency file could be read, or,
/// where the compiler writes none, each directory of headers that is there.
pub proof fn lemma_watch_told(
    sources: Seq<Text>,
    depfiles: Seq<Option<Text>>,
    named: Seq<Option<Vec<String>>>,
    dirs: Seq<Text>,
    fs: FsView,
    walks: Seq<Vec<WalkEntry>>,
)
    ensures
        tracked_inputs(
            NativeCompilerFamily::GnuLike,
            sources,
            depfiles,
            named,
            dirs,
            fs,
            walks,
        ) is Ok <==> forall|i: int|
            0 <= i < depfiles.len() && #[trigger] depfiles[i] is Some ==> i < named.len()
                && named[i] is Some,
        tracked_inputs(
            NativeCompilerFamily::MsvcLike,
            sources,
            depfiles,
            named,
            dirs,
            fs,
            walks,
        ) is Ok <==> forall|i: int|
            0 <= i < dirs.len() && fs.has_dir(#[trigger] dirs[i]) ==> is_walked(
                walk_at(walks, i),
            ),
{
    lemma_named_told(depfiles, named, depfiles.len());
    lemma_scanned_told(dirs, fs, walks, dirs.len());
}

} // verus!
