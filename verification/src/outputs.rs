//! What build scripts printed: the native libraries, linker options and include
//! directories that they declare.
use vstd::prelude::*;

use crate::env::first_filled;
use crate::fs::FsView;
use crate::order::{key_view, keys_view, lemma_keys_push, order_unique_by_keys, pick, places_view};
use crate::order::{is_covered, key_less, lemma_unique_order, part_less, sorted_unique_by};
use crate::order::{stable_order, without_repeats, Key};
use crate::path::{holds_path, is_same_path, same_path, sort_paths, sorted_paths};
use crate::text::{no_texts, opt_text, push_text, same_text, text_pairs, texts, Text};

verus! {

/// A directory that libraries are looked for in.
#[derive(Debug)]
pub enum LibraryPath {
    /// One that holds what was built.
    CargoArtifact(String),
    /// Any other.
    External(String),
}

/// The targets that a linker option is for.
#[derive(Debug)]
pub enum LinkArgTarget {
    /// All targets.
    All,
    /// Shared libraries with a C interface.
    Cdylib,
    /// Binaries.
    Bin,
    /// One binary.
    SingleBin(String),
    /// Tests.
    Test,
    /// Benchmarks.
    Bench,
    /// Examples.
    Example,
}

/// What one run of a build script printed.
#[derive(Debug)]
pub struct BuildOutput {
    /// The place of the output among all outputs in their order: those that hold the
    /// same, and no others, have the same rank, and a smaller one has a smaller rank.
    pub rank: u32,
    /// Directories that libraries are looked for in.
    pub library_paths: Vec<LibraryPath>,
    /// Libraries.
    pub library_links: Vec<String>,
    /// Linker options.
    pub linker_args: Vec<(LinkArgTarget, String)>,
    /// Keys with values for those that depend on the package.
    pub metadata: Vec<(String, String)>,
}

/// The outputs of the build scripts that have run, by the hash of their unit.
#[derive(Debug)]
pub struct BuildScriptOutputs {
    /// The outputs; where a hash occurs more than once, the first one counts.
    pub outputs: Vec<(u64, BuildOutput)>,
}

/// The outputs that references point to.
pub open spec fn outputs_view(list: Seq<&BuildOutput>) -> Seq<BuildOutput> {
    list.map_values(|o: &BuildOutput| *o)
}

/// The first output of a list with the hash.
pub open spec fn find_output(list: Seq<(u64, BuildOutput)>, hash: u64) -> Option<BuildOutput>
    decreases list.len(),
{
    if list.len() == 0 {
        None
    } else if list[0].0 == hash {
        Some(list[0].1)
    } else {
        find_output(list.skip(1), hash)
    }
}

impl BuildScriptOutputs {
    /// The output of a unit.
    pub open spec fn output_of(self, hash: u64) -> Option<BuildOutput> {
        find_output(self.outputs@, hash)
    }

    /// The output of a unit.
    pub fn get(&self, hash: u64) -> (r: Option<&BuildOutput>)
        ensures
            match r {
                Some(o) => self.output_of(hash) == Some(*o),
                None => self.output_of(hash) is None,
            },
    {
        let mut i: usize = 0;
        assert(self.outputs@.skip(0) =~= self.outputs@);
        while i < self.outputs.len()
            invariant
                i <= self.outputs@.len(),
                find_output(self.outputs@, hash) == find_output(
                    self.outputs@.skip(i as int),
                    hash,
                ),
            decreases self.outputs@.len() - i,
        {
            if self.outputs[i].0 == hash {
                return Some(&self.outputs[i].1);
            }
            assert(self.outputs@.skip(i as int).skip(1) =~= self.outputs@.skip(i + 1));
            i = i + 1;
        }
        None
    }

    /// The outputs of the units that have one.
    pub open spec fn outputs_of(self, hashes: Seq<u64>) -> Seq<BuildOutput>
        decreases hashes.len(),
    {
        if hashes.len() == 0 {
            Seq::empty()
        } else {
            let rest = self.outputs_of(hashes.drop_last());
            match self.output_of(hashes.last()) {
                Some(o) => rest.push(o),
                None => rest,
            }
        }
    }

    /// The outputs of units; none where no units are known.
    pub open spec fn known_outputs(self, hashes: Option<Vec<u64>>) -> Seq<BuildOutput> {
        match hashes {
            Some(hashes) => self.outputs_of(hashes@),
            None => Seq::empty(),
        }
    }

    fn collect<'a>(&'a self, hashes: &Option<Vec<u64>>) -> (r: Vec<&'a BuildOutput>)
        ensures
            outputs_view(r@) == self.known_outputs(*hashes),
    {
        let mut r: Vec<&'a BuildOutput> = Vec::new();
        match hashes {
            Some(hashes) => {
                let mut i: usize = 0;
                assert(hashes@.take(0) =~= Seq::empty());
                assert(outputs_view(r@) =~= self.outputs_of(hashes@.take(0)));
                while i < hashes.len()
                    invariant
                        i <= hashes@.len(),
                        outputs_view(r@) == self.outputs_of(hashes@.take(i as int)),
                    decreases hashes@.len() - i,
                {
                    let ghost before = outputs_view(r@);
                    assert(hashes@.take(i + 1).drop_last() =~= hashes@.take(i as int));
                    match self.get(hashes[i]) {
                        Some(o) => {
                            r.push(o);
                            assert(outputs_view(r@) =~= before.push(*o));
                        },
                        None => {},
                    }
                    i = i + 1;
                }
                assert(hashes@.take(i as int) =~= hashes@);
            },
            None => {
                assert(outputs_view(r@) =~= Seq::empty());
            },
        }
        r
    }
}

/// What a directory that libraries are looked for in holds.
pub enum LibraryPathView {
    /// One that holds what was built.
    CargoArtifact(Text),
    /// Any other.
    External(Text),
}

impl View for LibraryPath {
    type V = LibraryPathView;

    open spec fn view(&self) -> LibraryPathView {
        match *self {
            LibraryPath::CargoArtifact(dir) => LibraryPathView::CargoArtifact(dir@),
            LibraryPath::External(dir) => LibraryPathView::External(dir@),
        }
    }
}

/// What the targets of a linker option hold.
pub enum LinkArgTargetView {
    /// All targets.
    All,
    /// Shared libraries with a C interface.
    Cdylib,
    /// Binaries.
    Bin,
    /// One binary.
    SingleBin(Text),
    /// Tests.
    Test,
    /// Benchmarks.
    Bench,
    /// Examples.
    Example,
}

impl View for LinkArgTarget {
    type V = LinkArgTargetView;

    open spec fn view(&self) -> LinkArgTargetView {
        match *self {
            LinkArgTarget::All => LinkArgTargetView::All,
            LinkArgTarget::Cdylib => LinkArgTargetView::Cdylib,
            LinkArgTarget::Bin => LinkArgTargetView::Bin,
            LinkArgTarget::SingleBin(name) => LinkArgTargetView::SingleBin(name@),
            LinkArgTarget::Test => LinkArgTargetView::Test,
            LinkArgTarget::Bench => LinkArgTargetView::Bench,
            LinkArgTarget::Example => LinkArgTargetView::Example,
        }
    }
}

/// What a build script printed, whatever its place among others.
pub struct PrintedView {
    /// Directories that libraries are looked for in.
    pub library_paths: Seq<LibraryPathView>,
    /// Libraries.
    pub library_links: Seq<Text>,
    /// Linker options.
    pub linker_args: Seq<(LinkArgTargetView, Text)>,
    /// Keys with values for those that depend on the package.
    pub metadata: Seq<(Text, Text)>,
}

/// What a build script printed.
pub open spec fn printed(o: BuildOutput) -> PrintedView {
    PrintedView {
        library_paths: o.library_paths@.map_values(|p: LibraryPath| p@),
        library_links: texts(o.library_links@),
        linker_args: o.linker_args@.map_values(|a: (LinkArgTarget, String)| (a.0@, a.1@)),
        metadata: text_pairs(o.metadata@),
    }
}

/// Outputs have the same rank exactly where they hold the same.
pub open spec fn ranks_fit(list: Seq<BuildOutput>) -> bool {
    forall|i: int, j: int|
        0 <= i < list.len() && 0 <= j < list.len() ==> ((#[trigger] list[i]).rank == (
        #[trigger] list[j]).rank <==> printed(list[i]) == printed(list[j]))
}

/// `kept` holds what `list` holds, each once, by rising ranks.
pub open spec fn holds_each_once(kept: Seq<BuildOutput>, list: Seq<BuildOutput>) -> bool {
    &&& forall|k: int| 0 <= k < kept.len() ==> list.contains(#[trigger] kept[k])
    &&& forall|i: int| 0 <= i < list.len() ==> #[trigger] is_kept(kept, list[i])
    &&& forall|j: int, k: int|
        0 <= j < k < kept.len() ==> (#[trigger] kept[j]).rank < (#[trigger] kept[k]).rank
            && printed(kept[j]) != printed(kept[k])
}

/// One of `kept` holds what the output holds.
pub open spec fn is_kept(kept: Seq<BuildOutput>, o: BuildOutput) -> bool {
    exists|k: int| 0 <= k < kept.len() && printed(#[trigger] kept[k]) == printed(o)
}

/// What outputs are ordered by.
pub open spec fn output_keys(list: Seq<BuildOutput>) -> Seq<Key> {
    list.map_values(|o: BuildOutput| seq![seq![o.rank]])
}

/// The outputs in their order, each once.
pub open spec fn sorted_outputs(list: Seq<BuildOutput>) -> Seq<BuildOutput> {
    sorted_unique_by(list, output_keys(list))
}

/// The outputs in their order, each once.
pub fn sort_outputs<'a>(list: &Vec<&'a BuildOutput>) -> (r: Vec<&'a BuildOutput>)
    ensures
        outputs_view(r@) == sorted_outputs(outputs_view(list@)),
{
    let ghost all = outputs_view(list@);
    let ghost want_keys = output_keys(all);
    let mut keys: Vec<Vec<Vec<u32>>> = Vec::new();
    let mut i: usize = 0;
    while i < list.len()
        invariant
            i <= list@.len(),
            all == outputs_view(list@),
            want_keys == output_keys(all),
            keys_view(keys@) == want_keys.take(i as int),
        decreases list@.len() - i,
    {
        let part: Vec<u32> = vec![list[i].rank];
        let key: Vec<Vec<u32>> = vec![part];
        proof {
            assert(part@ =~= seq![list@[i as int].rank]);
            assert(key_view(key@) =~= seq![seq![list@[i as int].rank]]);
            lemma_keys_push(keys@, key);
            assert(all[i as int] == *list@[i as int]);
            assert(want_keys[i as int] == seq![seq![all[i as int].rank]]);
            assert(want_keys.take(i + 1) =~= want_keys.take(i as int).push(want_keys[i as int]));
        }
        keys.push(key);
        i = i + 1;
    }
    assert(keys_view(keys@) =~= want_keys);
    assert(keys@.len() == keys_view(keys@).len());
    let places = order_unique_by_keys(&keys);
    let ghost want = pick(all, places_view(places@));
    let mut r: Vec<&'a BuildOutput> = Vec::new();
    let mut j: usize = 0;
    while j < places.len()
        invariant
            j <= places@.len(),
            all == outputs_view(list@),
            forall|a: int| 0 <= a < places@.len() ==> #[trigger] places@[a] < list@.len(),
            want == pick(all, places_view(places@)),
            outputs_view(r@) == want.take(j as int),
        decreases places@.len() - j,
    {
        let at = places[j];
        let ghost before = r@;
        r.push(list[at]);
        assert(want[j as int] == all[at as int]);
        assert(outputs_view(r@) =~= outputs_view(before).push(all[at as int]));
        assert(want.take(j + 1) =~= want.take(j as int).push(want[j as int]));
        j = j + 1;
    }
    assert(want.take(j as int) =~= want);
    r
}

/// The outputs that are given to a unit: those of its build scripts that have run, or
/// else those of the build before.
pub open spec fn given_outputs(
    outputs: BuildScriptOutputs,
    hashes: Option<Vec<u64>>,
    previous: Seq<BuildOutput>,
) -> Seq<BuildOutput> {
    let known = outputs.known_outputs(hashes);
    if known.len() > 0 {
        known
    } else {
        previous
    }
}

/// The outputs that count for a unit: those given to it, in their order, each once.
pub open spec fn outputs_from(
    outputs: BuildScriptOutputs,
    hashes: Option<Vec<u64>>,
    previous: Seq<BuildOutput>,
) -> Seq<BuildOutput> {
    sorted_outputs(given_outputs(outputs, hashes, previous))
}

/// Where ranks fit, sorting outputs keeps what they hold.
pub proof fn lemma_outputs_kept(list: Seq<BuildOutput>)
    requires
        ranks_fit(list),
    ensures
        holds_each_once(sorted_outputs(list), list),
{
    let keys = output_keys(list);
    let places = without_repeats(keys, stable_order(keys));
    let kept = sorted_outputs(list);
    lemma_unique_order(keys);
    assert(kept == pick(list, places));
    assert forall|i: int| 0 <= i < list.len() implies #[trigger] is_kept(kept, list[i]) by {
        assert(is_covered(keys, places, i));
        let a = choose|a: int|
            0 <= a < places.len() && keys[#[trigger] places[a]] == keys[i] && places[a] <= i;
        assert(kept[a] == list[places[a]]);
        assert(keys[i][0][0] == list[i].rank);
        assert(keys[places[a]][0][0] == list[places[a]].rank);
    }
    assert forall|j: int, k: int| 0 <= j < k < kept.len() implies (#[trigger] kept[j]).rank < (
    #[trigger] kept[k]).rank && printed(kept[j]) != printed(kept[k]) by {
        let a = list[places[j]].rank;
        let b = list[places[k]].rank;
        assert(key_less(keys[places[j]], keys[places[k]]));
        assert(keys[places[j]] == seq![seq![a]]);
        assert(keys[places[k]] == seq![seq![b]]);
        lemma_ranks_rise(a, b);
    }
}

/// Where ranks fit, the outputs that count for a unit are those given to it, each once.
pub proof fn lemma_given_outputs_kept(
    outputs: BuildScriptOutputs,
    hashes: Option<Vec<u64>>,
    previous: Seq<BuildOutput>,
)
    requires
        ranks_fit(given_outputs(outputs, hashes, previous)),
    ensures
        holds_each_once(
            outputs_from(outputs, hashes, previous),
            given_outputs(outputs, hashes, previous),
        ),
{
    lemma_outputs_kept(given_outputs(outputs, hashes, previous));
}

proof fn lemma_ranks_rise(a: u32, b: u32)
    requires
        key_less(seq![seq![a]], seq![seq![b]]),
    ensures
        a < b,
{
    let x = seq![seq![a]];
    let y = seq![seq![b]];
    reveal_with_fuel(key_less, 3);
    reveal_with_fuel(part_less, 3);
    assert(x[0] =~= seq![a]);
    assert(y[0] =~= seq![b]);
    assert(x.skip(1) =~= Seq::empty());
    assert(y.skip(1) =~= Seq::empty());
    assert(seq![a].skip(1) =~= Seq::empty());
    assert(seq![b].skip(1) =~= Seq::empty());
}

fn refs<'a>(list: &'a Vec<BuildOutput>) -> (r: Vec<&'a BuildOutput>)
    ensures
        outputs_view(r@) == list@,
{
    let mut r: Vec<&'a BuildOutput> = Vec::new();
    let mut i: usize = 0;
    while i < list.len()
        invariant
            i <= list@.len(),
            outputs_view(r@) == list@.take(i as int),
        decreases list@.len() - i,
    {
        let ghost before = r@;
        r.push(&list[i]);
        assert(outputs_view(r@) =~= outputs_view(before).push(list@[i as int]));
        assert(list@.take(i + 1) =~= list@.take(i as int).push(list@[i as int]));
        i = i + 1;
    }
    assert(list@.take(i as int) =~= list@);
    r
}

/// The outputs that count for a unit.
pub fn build_outputs_from_metadata<'a>(
    outputs: &'a BuildScriptOutputs,
    hashes: &Option<Vec<u64>>,
    previous: &'a Vec<BuildOutput>,
) -> (r: Vec<&'a BuildOutput>)
    ensures
        outputs_view(r@) == outputs_from(*outputs, *hashes, previous@),
{
    let known = outputs.collect(hashes);
    assert(outputs_view(known@).len() == known@.len());
    if known.len() > 0 {
        sort_outputs(&known)
    } else {
        sort_outputs(&refs(previous))
    }
}

/// The values of the key `include` in metadata.
pub open spec fn includes_in(metadata: Seq<(String, String)>) -> Seq<Text>
    decreases metadata.len(),
{
    if metadata.len() == 0 {
        Seq::empty()
    } else {
        let rest = includes_in(metadata.drop_last());
        if metadata.last().0@ == "include"@ {
            rest.push(metadata.last().1@)
        } else {
            rest
        }
    }
}

/// The include directories that outputs declare, one output behind the other.
pub open spec fn includes_of(list: Seq<BuildOutput>) -> Seq<Text>
    decreases list.len(),
{
    if list.len() == 0 {
        Seq::empty()
    } else {
        includes_of(list.drop_last()) + includes_in(list.last().metadata@)
    }
}

fn collect_includes(list: &Vec<&BuildOutput>) -> (r: Vec<String>)
    ensures
        texts(r@) == includes_of(outputs_view(list@)),
{
    let ghost all = outputs_view(list@);
    let mut r: Vec<String> = no_texts();
    let mut i: usize = 0;
    assert(all.take(0) =~= Seq::empty());
    while i < list.len()
        invariant
            i <= list@.len(),
            all == outputs_view(list@),
            texts(r@) == includes_of(all.take(i as int)),
        decreases list@.len() - i,
    {
        let metadata = &list[i].metadata;
        let ghost before = texts(r@);
        let mut k: usize = 0;
        assert(metadata@.take(0) =~= Seq::empty());
        assert(before + includes_in(metadata@.take(0)) =~= before);
        while k < metadata.len()
            invariant
                k <= metadata@.len(),
                texts(r@) == before + includes_in(metadata@.take(k as int)),
            decreases metadata@.len() - k,
        {
            assert(metadata@.take(k + 1).drop_last() =~= metadata@.take(k as int));
            if same_text(metadata[k].0.as_str(), "include") {
                push_text(&mut r, metadata[k].1.clone());
            }
            assert(texts(r@) =~= before + includes_in(metadata@.take(k + 1)));
            k = k + 1;
        }
        assert(metadata@.take(k as int) =~= metadata@);
        assert(all[i as int] == *list@[i as int]);
        assert(all.take(i + 1).drop_last() =~= all.take(i as int));
        i = i + 1;
    }
    assert(all.take(i as int) =~= all);
    r
}

/// The include directories that a package declares: those of its build scripts
/// that have run, or, where they declare none, those of the build before; sorted,
/// each once.
pub open spec fn declared_includes(
    outputs: BuildScriptOutputs,
    hashes: Option<Vec<u64>>,
    previous: Seq<BuildOutput>,
) -> Seq<Text> {
    sorted_paths(first_filled(includes_of(outputs.known_outputs(hashes)), includes_of(previous)))
}

/// The include directories that a package declares.
pub fn declared_include_dirs_from_metadata(
    outputs: &BuildScriptOutputs,
    hashes: &Option<Vec<u64>>,
    previous: &Vec<BuildOutput>,
) -> (r: Vec<String>)
    ensures
        texts(r@) == declared_includes(*outputs, *hashes, previous@),
{
    let dirs = collect_includes(&outputs.collect(hashes));
    assert(texts(dirs@).len() == dirs@.len());
    if dirs.len() > 0 {
        sort_paths(&dirs)
    } else {
        sort_paths(&collect_includes(&refs(previous)))
    }
}

/// The list with the path at its end, where it does not hold it yet.
pub open spec fn with_path(list: Seq<Text>, path: Text) -> Seq<Text> {
    if holds_path(list, path) {
        list
    } else {
        list.push(path)
    }
}

/// The list with the paths at its end that it does not hold yet.
pub open spec fn with_paths(list: Seq<Text>, paths: Seq<Text>) -> Seq<Text>
    decreases paths.len(),
{
    if paths.len() == 0 {
        list
    } else {
        with_path(with_paths(list, paths.drop_last()), paths.last())
    }
}

/// Puts a path at the end of a list that does not hold it yet.
pub fn push_unique_path(paths: &mut Vec<String>, path: &str)
    ensures
        texts(final(paths)@) == with_path(texts(old(paths)@), path@),
{
    let ghost all = texts(paths@);
    let mut i: usize = 0;
    while i < paths.len()
        invariant
            i <= paths@.len(),
            all == texts(paths@),
            forall|k: int| 0 <= k < i ==> !same_path(#[trigger] all[k], path@),
        decreases paths@.len() - i,
    {
        assert(all[i as int] == paths@[i as int]@);
        if is_same_path(paths[i].as_str(), path) {
            return;
        }
        i = i + 1;
    }
    push_text(paths, path.to_owned());
}

fn push_unique_paths(paths: &mut Vec<String>, more: &Vec<String>)
    ensures
        texts(final(paths)@) == with_paths(texts(old(paths)@), texts(more@)),
{
    let ghost start = texts(paths@);
    let ghost all = texts(more@);
    let mut i: usize = 0;
    assert(all.take(0) =~= Seq::empty());
    while i < more.len()
        invariant
            i <= more@.len(),
            all == texts(more@),
            texts(paths@) == with_paths(start, all.take(i as int)),
        decreases more@.len() - i,
    {
        assert(all.take(i + 1).drop_last() =~= all.take(i as int));
        push_unique_path(paths, more[i].as_str());
        i = i + 1;
    }
    assert(all.take(i as int) =~= all);
}

/// What a native dependency gives to those that depend on it.
#[derive(Debug)]
pub struct NativeDependencyDescriptor<'a> {
    /// Its library.
    pub output_path: Option<String>,
    /// Its include directory.
    pub public_include_dir: Option<String>,
    /// The units of its build scripts.
    pub build_script_metadatas: &'a Option<Vec<u64>>,
    /// What its build scripts printed in the build before.
    pub previous_build_outputs: &'a Vec<BuildOutput>,
}

/// What a descriptor holds.
pub struct DescriptorView {
    /// Its library.
    pub output_path: Option<Text>,
    /// Its include directory.
    pub public_include_dir: Option<Text>,
    /// The units of its build scripts.
    pub build_script_metadatas: Option<Vec<u64>>,
    /// What its build scripts printed in the build before.
    pub previous_build_outputs: Seq<BuildOutput>,
}

impl<'a> View for NativeDependencyDescriptor<'a> {
    type V = DescriptorView;

    open spec fn view(&self) -> DescriptorView {
        DescriptorView {
            output_path: opt_text(self.output_path),
            public_include_dir: opt_text(self.public_include_dir),
            build_script_metadatas: *self.build_script_metadatas,
            previous_build_outputs: self.previous_build_outputs@,
        }
    }
}

/// What descriptors hold.
pub open spec fn descriptors_view(list: Seq<NativeDependencyDescriptor>) -> Seq<DescriptorView> {
    list.map_values(|d: NativeDependencyDescriptor| d@)
}

/// The include directories of one dependency: those that it declares, or else its
/// public one, where that is a directory.
pub open spec fn descriptor_includes(
    outputs: BuildScriptOutputs,
    fs: FsView,
    d: DescriptorView,
) -> Seq<Text> {
    let declared = declared_includes(
        outputs,
        d.build_script_metadatas,
        d.previous_build_outputs,
    );
    if declared.len() > 0 {
        declared
    } else {
        match d.public_include_dir {
            Some(dir) => if fs.has_dir(dir) {
                seq![dir]
            } else {
                Seq::empty()
            },
            None => Seq::empty(),
        }
    }
}

/// The include directories of the dependencies, one dependency behind the other,
/// each directory once.
pub open spec fn dependency_includes(
    outputs: BuildScriptOutputs,
    fs: FsView,
    list: Seq<DescriptorView>,
) -> Seq<Text>
    decreases list.len(),
{
    if list.len() == 0 {
        Seq::empty()
    } else {
        with_paths(
            dependency_includes(outputs, fs, list.drop_last()),
            descriptor_includes(outputs, fs, list.last()),
        )
    }
}

/// The include directories of the dependencies.
pub fn dependency_include_dirs_from_descriptors(
    outputs: &BuildScriptOutputs,
    fs: &FsView,
    descriptors: &Vec<NativeDependencyDescriptor>,
) -> (r: Vec<String>)
    ensures
        texts(r@) == dependency_includes(*outputs, *fs, descriptors_view(descriptors@)),
{
    let ghost all = descriptors_view(descriptors@);
    let mut r: Vec<String> = no_texts();
    let mut i: usize = 0;
    assert(all.take(0) =~= Seq::empty());
    while i < descriptors.len()
        invariant
            i <= descriptors@.len(),
            all == descriptors_view(descriptors@),
            texts(r@) == dependency_includes(*outputs, *fs, all.take(i as int)),
        decreases descriptors@.len() - i,
    {
        let d = &descriptors[i];
        let ghost before = texts(r@);
        assert(all[i as int] == d@);
        assert(all.take(i + 1).drop_last() =~= all.take(i as int));
        let declared = declared_include_dirs_from_metadata(
            outputs,
            d.build_script_metadatas,
            d.previous_build_outputs,
        );
        assert(texts(declared@).len() == declared@.len());
        if declared.len() == 0 {
            let mut one: Vec<String> = no_texts();
            match &d.public_include_dir {
                Some(dir) => {
                    if fs.is_dir(dir.as_str()) {
                        push_text(&mut one, dir.clone());
                    }
                },
                None => {},
            }
            assert(texts(one@) =~= descriptor_includes(*outputs, *fs, d@));
            push_unique_paths(&mut r, &one);
        } else {
            push_unique_paths(&mut r, &declared);
        }
        i = i + 1;
    }
    assert(all.take(i as int) =~= all);
    r
}

/// No two of the paths are the same.
pub open spec fn distinct_paths(list: Seq<Text>) -> bool {
    forall|i: int, j: int|
        0 <= i < j < list.len() ==> !same_path(#[trigger] list[i], #[trigger] list[j])
}

proof fn lemma_with_paths_distinct(list: Seq<Text>, paths: Seq<Text>)
    requires
        distinct_paths(list),
    ensures
        distinct_paths(with_paths(list, paths)),
    decreases paths.len(),
{
    if paths.len() > 0 {
        lemma_with_paths_distinct(list, paths.drop_last());
    }
}

/// No include directory of the dependencies comes twice.
pub proof fn lemma_dependency_includes_distinct(
    outputs: BuildScriptOutputs,
    fs: FsView,
    list: Seq<DescriptorView>,
)
    ensures
        distinct_paths(dependency_includes(outputs, fs, list)),
    decreases list.len(),
{
    if list.len() > 0 {
        lemma_dependency_includes_distinct(outputs, fs, list.drop_last());
        lemma_with_paths_distinct(
            dependency_includes(outputs, fs, list.drop_last()),
            descriptor_includes(outputs, fs, list.last()),
        );
    }
}

} // verus!
