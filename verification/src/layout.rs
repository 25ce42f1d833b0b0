//! Which files go into a native build, and where its files are put.
use vstd::prelude::*;

use crate::fs::FsView;
use crate::native::{is_native_header, is_native_header_path, is_native_source};
use crate::native::{is_native_source_path, NativeCompilerFamily};
use crate::path::{file_name, file_name_of, is_same_path, join_path, joined, parent, parent_of};
use crate::path::{same_path, sort_paths, sorted_paths, strip_prefix_or_whole, stripped_or_whole};
use crate::path::{with_ext, with_extension, with_file_name, with_name};
use crate::text::{append_list, copy_list, no_texts, one_text, opt_text, push_text, res_texts};
use crate::text::{text2, text3, texts, Text};

verus! {

/// What a walk through a directory came upon.
#[derive(Clone, Copy, Debug, PartialEq, Eq, Structural)]
pub enum WalkKind {
    /// A file.
    File,
    /// Anything else.
    Other,
    /// Something that could not be read.
    Failed,
}

/// One step of a walk through a directory.
#[derive(Debug)]
pub struct WalkEntry {
    /// Where it was.
    pub path: String,
    /// What was there.
    pub kind: WalkKind,
}

/// The directories that the sources stand in, one for each source that has one.
pub open spec fn source_dirs(sources: Seq<Text>) -> Seq<Text>
    decreases sources.len(),
{
    if sources.len() == 0 {
        Seq::empty()
    } else {
        let rest = source_dirs(sources.drop_last());
        match parent(sources.last()) {
            Some(dir) => rest.push(dir),
            None => rest,
        }
    }
}

/// The public include directory of the package itself: the one that is set, else
/// `include` where that is a directory.
pub open spec fn own_include_dir(
    package_root: Text,
    fs: FsView,
    native_include_root: Option<Text>,
) -> Seq<Text> {
    match native_include_root {
        Some(root) => seq![root],
        None => if fs.has_dir(joined(package_root, "include"@)) {
            seq![joined(package_root, "include"@)]
        } else {
            Seq::empty()
        },
    }
}

/// All directories that headers are looked for in, sorted, each once: those that
/// the build scripts declare, the public one of the package, those of the manifest,
/// those of the sources, and those of the dependencies.
pub open spec fn all_include_dirs(
    package_root: Text,
    fs: FsView,
    sources: Seq<Text>,
    native_include_root: Option<Text>,
    manifest_dirs: Seq<Text>,
    declared_dirs: Seq<Text>,
    dependency_dirs: Seq<Text>,
) -> Seq<Text> {
    sorted_paths(
        declared_dirs + own_include_dir(package_root, fs, native_include_root) + manifest_dirs
            + source_dirs(sources) + dependency_dirs,
    )
}

fn push_source_dirs(r: &mut Vec<String>, sources: &Vec<String>)
    ensures
        texts(final(r)@) == texts(old(r)@) + source_dirs(texts(sources@)),
{
    let ghost start = texts(r@);
    let ghost all = texts(sources@);
    let mut i: usize = 0;
    assert(all.take(0) =~= Seq::empty());
    assert(start + source_dirs(all.take(0)) =~= start);
    while i < sources.len()
        invariant
            i <= sources@.len(),
            all == texts(sources@),
            texts(r@) == start + source_dirs(all.take(i as int)),
        decreases sources@.len() - i,
    {
        assert(all.take(i + 1).drop_last() =~= all.take(i as int));
        assert(all.take(i + 1).last() == sources@[i as int]@);
        match parent_of(sources[i].as_str()) {
            Some(dir) => push_text(r, dir),
            None => {},
        }
        assert(texts(r@) =~= start + source_dirs(all.take(i + 1)));
        i = i + 1;
    }
    assert(all.take(i as int) =~= all);
}

/// All directories that headers are looked for in.
pub fn include_dirs(
    package_root: &str,
    fs: &FsView,
    sources: &Vec<String>,
    native_include_root: &Option<String>,
    native_manifest_include_dirs: &Vec<String>,
    declared_include_dirs: &Vec<String>,
    dependency_include_dirs: &Vec<String>,
) -> (r: Vec<String>)
    ensures
        texts(r@) == all_include_dirs(
            package_root@,
            *fs,
            texts(sources@),
            opt_text(*native_include_root),
            texts(native_manifest_include_dirs@),
            texts(declared_include_dirs@),
            texts(dependency_include_dirs@),
        ),
{
    let mut dirs = copy_list(declared_include_dirs);
    let ghost first = texts(dirs@);
    match native_include_root {
        Some(root) => push_text(&mut dirs, root.clone()),
        None => {
            let public_include = join_path(package_root, "include");
            if fs.is_dir(public_include.as_str()) {
                push_text(&mut dirs, public_include);
            }
        },
    }
    assert(texts(dirs@) =~= first + own_include_dir(
        package_root@,
        *fs,
        opt_text(*native_include_root),
    ));
    append_list(&mut dirs, native_manifest_include_dirs);
    push_source_dirs(&mut dirs, sources);
    append_list(&mut dirs, dependency_include_dirs);
    sort_paths(&dirs)
}

/// The sources that a walk came upon besides the target's own.
pub open spec fn companions(source: Text, walk: Seq<WalkEntry>) -> Seq<Text>
    decreases walk.len(),
{
    if walk.len() == 0 {
        Seq::empty()
    } else {
        let rest = companions(source, walk.drop_last());
        let entry = walk.last();
        if entry.kind == WalkKind::File && !same_path(entry.path@, source) && is_native_source(
            entry.path@,
        ) {
            rest.push(entry.path@)
        } else {
            rest
        }
    }
}

/// The walk read all that it came upon.
pub open spec fn walk_complete(walk: Seq<WalkEntry>) -> bool {
    forall|i: int| 0 <= i < walk.len() ==> (#[trigger] walk[i]).kind != WalkKind::Failed
}

/// Where the directory of further sources is none.
pub open spec fn no_sources_root_message(root: Text) -> Text {
    "native companion source root `"@ + root + "` is not a directory"@
}

/// Where the directory of further sources cannot be walked.
pub open spec fn walk_message(source: Text) -> Text {
    "failed to walk native source directory while building `"@ + source + "`"@
}

/// The sources of a target, sorted, each once: its own, and, where it has a
/// directory of further sources, all native sources below that.
pub open spec fn target_sources(
    source: Text,
    sources_root: Option<Text>,
    fs: FsView,
    walk: Seq<WalkEntry>,
) -> Result<Seq<Text>, Text> {
    match sources_root {
        None => Ok(sorted_paths(seq![source])),
        Some(root) => if !fs.has_dir(root) {
            Err(no_sources_root_message(root))
        } else if !walk_complete(walk) {
            Err(walk_message(source))
        } else {
            Ok(sorted_paths(seq![source] + companions(source, walk)))
        },
    }
}

/// The sources of a target.
pub fn collect_target_sources(
    source: &str,
    sources_root: &Option<String>,
    fs: &FsView,
    walk: &Vec<WalkEntry>,
) -> (r: Result<Vec<String>, String>)
    ensures
        res_texts(r) == target_sources(source@, opt_text(*sources_root), *fs, walk@),
{
    let mut sources = one_text(source.to_owned());
    assert(texts(sources@) =~= seq![source@]);
    match sources_root {
        Some(root) => {
            if !fs.is_dir(root.as_str()) {
                return Err(
                    text3(
                        "native companion source root `",
                        root.as_str(),
                        "` is not a directory",
                    ),
                );
            }
            let mut i: usize = 0;
            assert(walk@.take(0) =~= Seq::empty());
            assert(texts(sources@) =~= seq![source@] + companions(source@, walk@.take(0)));
            while i < walk.len()
                invariant
                    i <= walk@.len(),
                    fs.has_dir(root@),
                    opt_text(*sources_root) == Some(root@),
                    forall|k: int| 0 <= k < i ==> (#[trigger] walk@[k]).kind != WalkKind::Failed,
                    texts(sources@) == seq![source@] + companions(source@, walk@.take(i as int)),
                decreases walk@.len() - i,
            {
                assert(walk@.take(i + 1).drop_last() =~= walk@.take(i as int));
                let entry = &walk[i];
                if entry.kind == WalkKind::Failed {
                    return Err(
                        text3(
                            "failed to walk native source directory while building `",
                            source,
                            "`",
                        ),
                    );
                }
                if entry.kind == WalkKind::File && !is_same_path(entry.path.as_str(), source)
                    && is_native_source_path(entry.path.as_str()) {
                    push_text(&mut sources, entry.path.clone());
                }
                assert(texts(sources@) =~= seq![source@] + companions(source@, walk@.take(i + 1)));
                i = i + 1;
            }
            assert(walk@.take(i as int) =~= walk@);
        },
        None => {},
    }
    Ok(sort_paths(&sources))
}

/// The extension of object files.
pub open spec fn object_extension(family: NativeCompilerFamily) -> Text {
    match family {
        NativeCompilerFamily::MsvcLike => "obj"@,
        NativeCompilerFamily::GnuLike => "o"@,
    }
}

/// Where the object file of a source is put: in the directory of the objects, at
/// the place that the source has below its package.
pub open spec fn object_path(
    package_root: Text,
    source: Text,
    objects_dir: Text,
    family: NativeCompilerFamily,
) -> Text {
    with_ext(
        joined(objects_dir, stripped_or_whole(source, package_root)),
        object_extension(family),
    )
}

/// Where the object files of sources are put.
pub open spec fn objects_of(
    package_root: Text,
    sources: Seq<Text>,
    objects_dir: Text,
    family: NativeCompilerFamily,
) -> Seq<Text> {
    sources.map_values(|source: Text| object_path(package_root, source, objects_dir, family))
}

/// Where the object files of sources are put.
pub fn object_paths(
    package_root: &str,
    sources: &Vec<String>,
    objects_dir: &str,
    family: NativeCompilerFamily,
) -> (r: Vec<String>)
    ensures
        texts(r@) == objects_of(package_root@, texts(sources@), objects_dir@, family),
{
    let ghost want = objects_of(package_root@, texts(sources@), objects_dir@, family);
    let ext = match family {
        NativeCompilerFamily::MsvcLike => "obj",
        NativeCompilerFamily::GnuLike => "o",
    };
    let mut r: Vec<String> = no_texts();
    let mut i: usize = 0;
    assert(texts(r@) =~= want.take(0));
    while i < sources.len()
        invariant
            i <= sources@.len(),
            ext@ == object_extension(family),
            want == objects_of(package_root@, texts(sources@), objects_dir@, family),
            texts(r@) == want.take(i as int),
        decreases sources@.len() - i,
    {
        let rel = strip_prefix_or_whole(sources[i].as_str(), package_root);
        let place = join_path(objects_dir, rel.as_str());
        push_text(&mut r, with_extension(place.as_str(), ext));
        assert(want[i as int] == object_path(
            package_root@,
            sources@[i as int]@,
            objects_dir@,
            family,
        ));
        assert(texts(r@) =~= want.take(i + 1));
        i = i + 1;
    }
    assert(want.take(i as int) =~= want);
    r
}

/// Where the compiler writes what a source includes: beside the object, for
/// compilers that can.
pub open spec fn depfile_of(object: Text, family: NativeCompilerFamily) -> Option<Text> {
    match family {
        NativeCompilerFamily::GnuLike => match file_name(object) {
            Some(name) => Some(with_name(object, name + ".d"@)),
            None => None,
        },
        NativeCompilerFamily::MsvcLike => None,
    }
}

/// Where the compiler writes what sources include.
pub open spec fn depfiles_of(objects: Seq<Text>, family: NativeCompilerFamily) -> Seq<
    Option<Text>,
> {
    objects.map_values(|object: Text| depfile_of(object, family))
}

/// What a list of paths that may be missing holds.
pub open spec fn opt_paths(list: Seq<Option<String>>) -> Seq<Option<Text>> {
    list.map_values(|o: Option<String>| opt_text(o))
}

/// Where the compiler writes what sources include.
pub fn depfile_paths(objects: &Vec<String>, family: NativeCompilerFamily) -> (r: Vec<
    Option<String>,
>)
    ensures
        opt_paths(r@) == depfiles_of(texts(objects@), family),
{
    let ghost want = depfiles_of(texts(objects@), family);
    let mut r: Vec<Option<String>> = Vec::new();
    let mut i: usize = 0;
    while i < objects.len()
        invariant
            i <= objects@.len(),
            want == depfiles_of(texts(objects@), family),
            opt_paths(r@) == want.take(i as int),
        decreases objects@.len() - i,
    {
        let depfile = match family {
            NativeCompilerFamily::GnuLike => match file_name_of(objects[i].as_str()) {
                Some(name) => {
                    let name = text2(name.as_str(), ".d");
                    Some(with_file_name(objects[i].as_str(), name.as_str()))
                },
                None => None,
            },
            NativeCompilerFamily::MsvcLike => None,
        };
        let ghost before = r@;
        r.push(depfile);
        assert(want[i as int] == depfile_of(objects@[i as int]@, family));
        assert(opt_paths(r@) =~= opt_paths(before).push(opt_text(depfile)));
        assert(want.take(i + 1) =~= want.take(i as int).push(want[i as int]));
        i = i + 1;
    }
    assert(want.take(i as int) =~= want);
    r
}

/// The directory of the object files, beside what is built.
pub open spec fn objects_dir_of(primary_output: Text) -> Text {
    match file_name(primary_output) {
        Some(name) => with_name(primary_output, name + ".native"@),
        None => primary_output,
    }
}

/// The directory of the object files, beside what is built.
pub fn objects_dir(primary_output: &str) -> (r: String)
    requires
        file_name(primary_output@) is Some,
    ensures
        r@ == objects_dir_of(primary_output@),
{
    match file_name_of(primary_output) {
        Some(name) => {
            let name = text2(name.as_str(), ".native");
            with_file_name(primary_output, name.as_str())
        },
        None => primary_output.to_owned(),
    }
}

/// What walks through directories came upon; a directory without a walk holds
/// nothing.
pub open spec fn walk_at(walks: Seq<Vec<WalkEntry>>, i: int) -> Seq<WalkEntry> {
    if 0 <= i < walks.len() {
        walks[i]@
    } else {
        Seq::empty()
    }
}

/// The headers that a walk came upon.
pub open spec fn headers_in(walk: Seq<WalkEntry>) -> Seq<Text>
    decreases walk.len(),
{
    if walk.len() == 0 {
        Seq::empty()
    } else {
        let rest = headers_in(walk.drop_last());
        let entry = walk.last();
        if entry.kind == WalkKind::File && is_native_header(entry.path@) {
            rest.push(entry.path@)
        } else {
            rest
        }
    }
}

/// Where an include directory cannot be walked.
pub open spec fn include_walk_message(dir: Text) -> Text {
    "failed to walk native include directory `"@ + dir
        + "` while collecting dependencies"@
}

/// The headers below the first `n` of some include directories, or the message on
/// the first of them that cannot be walked. What is no directory is passed over.
pub open spec fn headers_below(
    dirs: Seq<Text>,
    fs: FsView,
    walks: Seq<Vec<WalkEntry>>,
    n: nat,
) -> Result<Seq<Text>, Text>
    decreases n,
{
    if n == 0 {
        Ok(Seq::empty())
    } else {
        match headers_below(dirs, fs, walks, (n - 1) as nat) {
            Err(e) => Err(e),
            Ok(list) => if !fs.has_dir(dirs[n - 1]) {
                Ok(list)
            } else if walk_complete(walk_at(walks, n - 1)) {
                Ok(list + headers_in(walk_at(walks, n - 1)))
            } else {
                Err(include_walk_message(dirs[n - 1]))
            },
        }
    }
}

proof fn lemma_headers_err(
    dirs: Seq<Text>,
    fs: FsView,
    walks: Seq<Vec<WalkEntry>>,
    k: nat,
    n: nat,
)
    requires
        k <= n,
        headers_below(dirs, fs, walks, k) is Err,
    ensures
        headers_below(dirs, fs, walks, n) == headers_below(dirs, fs, walks, k),
    decreases n,
{
    if k < n {
        lemma_headers_err(dirs, fs, walks, k, (n - 1) as nat);
    }
}

fn push_headers(r: &mut Vec<String>, walk: &Vec<WalkEntry>) -> (complete: bool)
    ensures
        complete == walk_complete(walk@),
        complete ==> texts(final(r)@) == texts(old(r)@) + headers_in(walk@),
{
    let ghost start = texts(r@);
    let mut i: usize = 0;
    assert(walk@.take(0) =~= Seq::empty());
    assert(start + headers_in(walk@.take(0)) =~= start);
    while i < walk.len()
        invariant
            i <= walk@.len(),
            forall|k: int| 0 <= k < i ==> (#[trigger] walk@[k]).kind != WalkKind::Failed,
            texts(r@) == start + headers_in(walk@.take(i as int)),
        decreases walk@.len() - i,
    {
        assert(walk@.take(i + 1).drop_last() =~= walk@.take(i as int));
        let entry = &walk[i];
        if entry.kind == WalkKind::Failed {
            return false;
        }
        if entry.kind == WalkKind::File && is_native_header_path(entry.path.as_str()) {
            push_text(r, entry.path.clone());
        }
        assert(texts(r@) =~= start + headers_in(walk@.take(i + 1)));
        i = i + 1;
    }
    assert(walk@.take(i as int) =~= walk@);
    true
}

/// The headers below include directories; `walks` holds what a walk through each of
/// them came upon.
pub fn scan_include_dirs(
    include_dirs: &Vec<String>,
    fs: &FsView,
    walks: &Vec<Vec<WalkEntry>>,
) -> (r: Result<Vec<String>, String>)
    ensures
        res_texts(r) == headers_below(
            texts(include_dirs@),
            *fs,
            walks@,
            include_dirs@.len(),
        ),
{
    let ghost dirs = texts(include_dirs@);
    let mut headers: Vec<String> = no_texts();
    let mut i: usize = 0;
    while i < include_dirs.len()
        invariant
            i <= include_dirs@.len(),
            dirs == texts(include_dirs@),
            headers_below(dirs, *fs, walks@, i as nat) == Ok::<Seq<Text>, Text>(texts(headers@)),
        decreases include_dirs@.len() - i,
    {
        assert(dirs[i as int] == include_dirs@[i as int]@);
        if fs.is_dir(include_dirs[i].as_str()) {
            let ghost before = texts(headers@);
            if i < walks.len() {
                if !push_headers(&mut headers, &walks[i]) {
                    proof {
                        lemma_headers_err(
                            dirs,
                            *fs,
                            walks@,
                            (i + 1) as nat,
                            include_dirs@.len(),
                        );
                    }
                    return Err(
                        text3(
                            "failed to walk native include directory `",
                            include_dirs[i].as_str(),
                            "` while collecting dependencies",
                        ),
                    );
                }
            }
            assert(texts(headers@) =~= before + headers_in(walk_at(walks@, i as int)));
        }
        i = i + 1;
    }
    Ok(headers)
}

/// Where a file that the compiler wrote cannot be read.
pub open spec fn depfile_message(depfile: Text) -> Text {
    "failed to parse native depfile `"@ + depfile + "`"@
}

/// The files that the first `n` of some depfiles name, or the message on the first
/// of them that cannot be read. `named` holds the files that each of them names.
pub open spec fn named_files(
    depfiles: Seq<Option<Text>>,
    named: Seq<Option<Vec<String>>>,
    n: nat,
) -> Result<Seq<Text>, Text>
    decreases n,
{
    if n == 0 {
        Ok(Seq::empty())
    } else {
        match named_files(depfiles, named, (n - 1) as nat) {
            Err(e) => Err(e),
            Ok(list) => match depfiles[n - 1] {
                None => Ok(list),
                Some(depfile) => if n <= named.len() && named[n - 1] is Some {
                    Ok(list + texts(named[n - 1]->0@))
                } else {
                    Err(depfile_message(depfile))
                },
            },
        }
    }
}

proof fn lemma_named_err(
    depfiles: Seq<Option<Text>>,
    named: Seq<Option<Vec<String>>>,
    k: nat,
    n: nat,
)
    requires
        k <= n,
        named_files(depfiles, named, k) is Err,
    ensures
        named_files(depfiles, named, n) == named_files(depfiles, named, k),
    decreases n,
{
    if k < n {
        lemma_named_err(depfiles, named, k, (n - 1) as nat);
    }
}

/// The files whose change makes a native build stale, sorted, each once: the
/// sources, and the headers that the compiler reported or, where it does not report
/// them, all headers below the include directories.
pub open spec fn tracked_inputs(
    family: NativeCompilerFamily,
    sources: Seq<Text>,
    depfiles: Seq<Option<Text>>,
    named: Seq<Option<Vec<String>>>,
    dirs: Seq<Text>,
    fs: FsView,
    walks: Seq<Vec<WalkEntry>>,
) -> Result<Seq<Text>, Text> {
    let more = match family {
        NativeCompilerFamily::GnuLike => named_files(depfiles, named, depfiles.len()),
        NativeCompilerFamily::MsvcLike => headers_below(dirs, fs, walks, dirs.len()),
    };
    match more {
        Ok(list) => Ok(sorted_paths(sources + list)),
        Err(e) => Err(e),
    }
}

/// The files whose change makes a native build stale.
pub fn tracked_input_paths(
    family: NativeCompilerFamily,
    sources: &Vec<String>,
    depfiles: &Vec<Option<String>>,
    named: &Vec<Option<Vec<String>>>,
    include_dirs: &Vec<String>,
    fs: &FsView,
    walks: &Vec<Vec<WalkEntry>>,
) -> (r: Result<Vec<String>, String>)
    ensures
        res_texts(r) == tracked_inputs(
            family,
            texts(sources@),
            opt_paths(depfiles@),
            named@,
            texts(include_dirs@),
            *fs,
            walks@,
        ),
{
    let mut inputs = copy_list(sources);
    match family {
        NativeCompilerFamily::GnuLike => {
            let ghost start = texts(sources@);
            let ghost files = opt_paths(depfiles@);
            let mut more: Vec<String> = no_texts();
            let mut i: usize = 0;
            while i < depfiles.len()
                invariant
                    i <= depfiles@.len(),
                    family == NativeCompilerFamily::GnuLike,
                    files == opt_paths(depfiles@),
                    named_files(files, named@, i as nat) == Ok::<Seq<Text>, Text>(texts(more@)),
                decreases depfiles@.len() - i,
            {
                assert(files[i as int] == opt_text(depfiles@[i as int]));
                match &depfiles[i] {
                    Some(depfile) => {
                        let ghost before = texts(more@);
                        let mut read = false;
                        if i < named.len() {
                            match &named[i] {
                                Some(list) => {
                                    append_list(&mut more, list);
                                    read = true;
                                },
                                None => {},
                            }
                        }
                        if !read {
                            proof {
                                lemma_named_err(files, named@, (i + 1) as nat, files.len());
                            }
                            return Err(
                                text3("failed to parse native depfile `", depfile.as_str(), "`"),
                            );
                        }
                    },
                    None => {},
                }
                i = i + 1;
            }
            append_list(&mut inputs, &more);
        },
        NativeCompilerFamily::MsvcLike => {
            match scan_include_dirs(include_dirs, fs, walks) {
                Ok(headers) => append_list(&mut inputs, &headers),
                Err(e) => {
                    return Err(e);
                },
            }
        },
    }
    Ok(sort_paths(&inputs))
}

/// There is one object for each source, and one depfile, if any, for each object.
pub proof fn lemma_object_counts(
    package_root: Text,
    sources: Seq<Text>,
    objects_dir: Text,
    family: NativeCompilerFamily,
)
    ensures
        objects_of(package_root, sources, objects_dir, family).len() == sources.len(),
        depfiles_of(
            objects_of(package_root, sources, objects_dir, family),
            family,
        ).len() == sources.len(),
{
}

} // verus!
