//! What holds of targets that are told by where files stand.
use vstd::prelude::*;

use crate::discover::{bin_paths, dir_targets, entry_target, entry_targets, is_visible, lib_path};
use crate::discover::{name_keys, named_paths, FoundTargetView};
use crate::fs::{DirEntry, FsView};
use crate::order::{lemma_stable_order, stable_order};
use crate::path::joined;
use crate::text::Text;

verus! {

/// An entry of a directory stands for the target.
pub open spec fn stands_for(
    package_root: Text,
    fs: FsView,
    dir: Text,
    entry: DirEntry,
    what: Text,
    found: FoundTargetView,
) -> bool {
    is_visible(entry) && entry_target(
        package_root,
        fs,
        joined(dir, entry.file_name->0@),
        entry.is_dir,
        what,
    ) == Ok::<Option<FoundTargetView>, Text>(Some(found))
}

/// Some entry of a directory stands for a target with the name and the path.
pub open spec fn is_stood_for(
    package_root: Text,
    fs: FsView,
    dir: Text,
    entries: Seq<DirEntry>,
    what: Text,
    pair: (Text, Text),
) -> bool {
    exists|k: int, found: FoundTargetView|
        0 <= k < entries.len() && #[trigger] stands_for(
            package_root,
            fs,
            dir,
            entries[k],
            what,
            found,
        ) && (found.name, found.path) == pair
}

proof fn lemma_entries(
    package_root: Text,
    fs: FsView,
    dir: Text,
    entries: Seq<DirEntry>,
    what: Text,
    n: nat,
    found: FoundTargetView,
)
    requires
        n <= entries.len(),
        entry_targets(package_root, fs, dir, entries, what, n) is Ok,
    ensures
        entry_targets(package_root, fs, dir, entries, what, n)->Ok_0.contains(found) <==> exists|
            k: int,
        |
            0 <= k < n && #[trigger] stands_for(
                package_root,
                fs,
                dir,
                entries[k],
                what,
                found,
            ),
    decreases n,
{
    if n > 0 {
        let m = (n - 1) as nat;
        lemma_entries(package_root, fs, dir, entries, what, m, found);
        let before = entry_targets(package_root, fs, dir, entries, what, m)->Ok_0;
        let all = entry_targets(package_root, fs, dir, entries, what, n)->Ok_0;
        let last = entries[n - 1];
        if before.contains(found) {
            let i = choose|i: int| 0 <= i < before.len() && before[i] == found;
            assert(all[i] == found);
        }
        if stands_for(package_root, fs, dir, last, what, found) {
            assert(all == before.push(found));
            assert(all[before.len() as int] == found);
        }
        if all.contains(found) {
            let i = choose|i: int| 0 <= i < all.len() && all[i] == found;
            if i < before.len() {
                assert(before[i] == found);
            } else {
                assert(stands_for(package_root, fs, dir, entries[n - 1], what, found));
            }
        }
    }
}

/// The targets of a directory are those that its entries stand for: none is lost, and
/// none is made up.
pub proof fn lemma_each_entry_counts(
    package_root: Text,
    fs: FsView,
    rel_dir: Text,
    entries: Vec<DirEntry>,
    what: Text,
    pair: (Text, Text),
)
    ensures
        dir_targets(package_root, fs, rel_dir, Some(entries), what) matches Ok(list) ==> (
        list.contains(pair) <==> is_stood_for(
            package_root,
            fs,
            joined(package_root, rel_dir),
            entries@,
            what,
            pair,
        )),
{
    let dir = joined(package_root, rel_dir);
    let n = entries@.len();
    match entry_targets(package_root, fs, dir, entries@, what, n) {
        Err(_) => {},
        Ok(all) => {
            let keys = name_keys(all);
            let order = stable_order(keys);
            let list = named_paths(all);
            lemma_stable_order(keys);
            if list.contains(pair) {
                let i = choose|i: int| 0 <= i < list.len() && list[i] == pair;
                let found = all[order[i]];
                assert(list[i] == (found.name, found.path));
                assert(all.contains(found));
                lemma_entries(package_root, fs, dir, entries@, what, n, found);
                let k = choose|k: int|
                    0 <= k < n && #[trigger] stands_for(
                        package_root,
                        fs,
                        dir,
                        entries@[k],
                        what,
                        found,
                    );
                assert(stands_for(package_root, fs, dir, entries@[k], what, found));
            }
            if is_stood_for(package_root, fs, dir, entries@, what, pair) {
                let (k, found) = choose|k: int, found: FoundTargetView|
                    0 <= k < n && #[trigger] stands_for(
                        package_root,
                        fs,
                        dir,
                        entries@[k],
                        what,
                        found,
                    ) && (found.name, found.path) == pair;
                lemma_entries(package_root, fs, dir, entries@, what, n, found);
                assert(all.contains(found));
                let j = choose|j: int| 0 <= j < all.len() && all[j] == found;
                assert(order.contains(j));
                let a = choose|a: int| 0 <= a < order.len() && order[a] == j;
                assert(list[a] == pair);
            }
        },
    }
}

/// `src/lib.rs` is a library.
pub proof fn lemma_default_lib(package_root: Text, fs: FsView)
    requires
        fs.has(joined(package_root, joined("src"@, "lib.rs"@))),
    ensures
        lib_path(package_root, fs) matches Ok(path) ==> path == Some(joined("src"@, "lib.rs"@)),
{
}

/// `src/main.rs` is a binary with the name of the package.
pub proof fn lemma_default_bin(
    package_root: Text,
    package_name: Text,
    fs: FsView,
    listing: Option<Vec<DirEntry>>,
)
    requires
        fs.has(joined(package_root, joined("src"@, "main.rs"@))),
    ensures
        bin_paths(package_root, package_name, fs, listing) matches Ok(list) ==> list.contains(
            (package_name, joined("src"@, "main.rs"@)),
        ),
{
    match bin_paths(package_root, package_name, fs, listing) {
        Ok(list) => {
            assert(list[0] == (package_name, joined("src"@, "main.rs"@)));
        },
        Err(_) => {},
    }
}

} // verus!
