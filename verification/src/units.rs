//! Units of work and the native dependencies between them.
use vstd::prelude::*;

use crate::layout::WalkEntry;
use crate::link::CompileMode;
use crate::outputs::{descriptors_view, BuildOutput, DescriptorView, NativeDependencyDescriptor};
use crate::profile::NativeProfile;
use crate::text::{copy_opt, opt_text, Text};

verus! {

/// What a file that a unit leaves behind is for.
#[derive(Clone, Copy, Debug, PartialEq, Eq, Structural)]
pub enum FileFlavor {
    /// It is what the unit is built for.
    Normal,
    /// It goes with another file.
    Auxiliary,
    /// It is linked to by others.
    Linkable,
    /// It holds metadata of a library.
    Rmeta,
    /// It holds debug information.
    DebugInfo,
    /// It lists what went into the build.
    Sbom,
}

/// A file that a unit leaves behind.
#[derive(Debug)]
pub struct OutputFile {
    /// Where it is made.
    pub path: String,
    /// Where it is linked to.
    pub hardlink: Option<String>,
    /// Where it is copied to.
    pub export_path: Option<String>,
    /// What it is for.
    pub flavor: FileFlavor,
}

/// What a native build reads of a target.
#[derive(Debug)]
pub struct NativeTarget {
    /// Its name.
    pub name: String,
    /// Its source; none where the source is made up during the build.
    pub source: Option<String>,
    /// Whether it is native.
    pub is_native: bool,
    /// Whether it consists of headers.
    pub is_header_only: bool,
    /// Whether others can link to it.
    pub is_linkable: bool,
    /// Whether it is a binary.
    pub is_bin: bool,
    /// Whether it is a shared library with a C interface.
    pub is_cdylib: bool,
    /// Whether it is a shared library.
    pub is_dylib: bool,
    /// Whether it is a static library.
    pub is_staticlib: bool,
    /// Whether it is a test.
    pub is_test: bool,
    /// Whether it is a benchmark.
    pub is_bench: bool,
    /// Whether it is an example that can be run.
    pub is_exe_example: bool,
    /// The directory of its public headers.
    pub native_include_root: Option<String>,
    /// The directory of its further sources.
    pub native_sources_root: Option<String>,
    /// What a walk through that directory came upon.
    pub native_sources_walk: Vec<WalkEntry>,
    /// Further include directories.
    pub native_include_dirs: Vec<String>,
    /// Macros to define.
    pub native_defines: Vec<String>,
    /// Directories that libraries are looked for in.
    pub native_link_search: Vec<String>,
    /// Libraries to link.
    pub native_link_libraries: Vec<String>,
    /// Linker options.
    pub native_link_args: Vec<String>,
}

/// A unit of work: a target that is compiled in some mode.
#[derive(Debug)]
pub struct Unit {
    /// The directory of its package.
    pub package_root: String,
    /// The number of its package: units of one package have the same number.
    pub package_id: u64,
    /// Its target.
    pub target: NativeTarget,
    /// What it is compiled for.
    pub mode: CompileMode,
    /// What it is compiled for, by its place among the compilation targets.
    pub kind: usize,
    /// The profile.
    pub profile: NativeProfile,
    /// The features that are on.
    pub features: Vec<String>,
    /// The files that it leaves behind, or the message that says why they cannot be
    /// told.
    pub outputs: Result<Vec<OutputFile>, String>,
    /// The units of the build scripts of its package.
    pub build_script_metadatas: Option<Vec<u64>>,
    /// What those printed in the build before.
    pub previous_build_outputs: Vec<BuildOutput>,
    /// The units that it depends on, by their place in the graph.
    pub deps: Vec<usize>,
}

/// Units and their dependencies.
#[derive(Debug)]
pub struct UnitGraph {
    /// The units.
    pub units: Vec<Unit>,
}

impl UnitGraph {
    /// Each dependency is a unit of the graph.
    pub open spec fn wf(self) -> bool {
        forall|u: int, k: int|
            0 <= u < self.units@.len() && 0 <= k < self.units@[u].deps@.len()
                ==> #[trigger] self.units@[u].deps@[k] < self.units@.len()
    }

    /// The number of units.
    pub open spec fn size(self) -> nat {
        self.units@.len()
    }

    /// The dependency of `u` in the place `k`.
    pub open spec fn dep(self, u: int, k: int) -> int {
        self.units@[u].deps@[k] as int
    }

    /// The unit is a native library that others can link to or take headers from.
    pub open spec fn gives(self, u: int) -> bool {
        let unit = self.units@[u];
        &&& unit.mode != CompileMode::Doc
        &&& unit.mode != CompileMode::RunCustomBuild
        &&& unit.target.is_native
        &&& unit.target.is_linkable || unit.target.is_header_only
    }

    /// Goes on along the dependencies of `u` from the place `k`, depth first: each
    /// unit that gives something and was not met before is put at the end of the
    /// list, and then its own dependencies are gone along. `depth` bounds how deep.
    pub open spec fn visit(self, depth: nat, u: int, k: int, units: Seq<int>) -> Seq<int>
        decreases depth, self.units@[u].deps@.len() - k,
    {
        if k < 0 || k >= self.units@[u].deps@.len() {
            units
        } else {
            let d = self.dep(u, k);
            let next = if self.gives(d) && !units.contains(d) && depth > 0 {
                self.visit((depth - 1) as nat, d, 0, units.push(d))
            } else {
                units
            };
            self.visit(depth, u, k + 1, next)
        }
    }

    /// The native dependencies of a unit and theirs, each once, in the order in
    /// which they are met depth first.
    pub open spec fn native_dependencies(self, u: int) -> Seq<int> {
        self.visit(self.size(), u, 0, Seq::empty())
    }

    /// The unit `d` is a dependency of `u` that gives something.
    pub open spec fn uses(self, u: int, d: int) -> bool {
        self.gives(d) && exists|k: int|
            0 <= k < self.units@[u].deps@.len() && #[trigger] self.dep(u, k) == d
    }

    /// `path` leads from `u` along dependencies that give something.
    pub open spec fn is_path(self, u: int, path: Seq<int>) -> bool {
        &&& path.len() > 0
        &&& path[0] == u
        &&& forall|i: int|
            #![trigger path[i]]
            1 <= i < path.len() ==> self.uses(path[i - 1], path[i])
    }

    /// `x` is reached from `u` along one dependency or more that give something.
    pub open spec fn reaches(self, u: int, x: int) -> bool {
        exists|path: Seq<int>| #[trigger]
            self.is_path(u, path) && path.len() > 1 && path.last() == x
    }
}

/// Places of units, none twice.
pub open spec fn are_places(n: nat, units: Seq<int>) -> bool {
    &&& units.no_duplicates()
    &&& forall|i: int| 0 <= i < units.len() ==> 0 <= #[trigger] units[i] < n
}

proof fn lemma_places_len(n: nat, units: Seq<int>)
    requires
        are_places(n, units),
    ensures
        units.len() <= n,
        units.len() == n ==> forall|d: int| 0 <= d < n ==> units.contains(d),
{
    let all = vstd::set_lib::set_int_range(0, n as int);
    vstd::set_lib::lemma_int_range(0, n as int);
    units.unique_seq_to_set();
    let met = units.to_set();
    assert(met.subset_of(all)) by {
        assert forall|d: int| met.contains(d) implies all.contains(d) by {
            assert(units.contains(d));
        }
    }
    vstd::set_lib::lemma_len_subset(met, all);
    if units.len() == n {
        vstd::set_lib::lemma_subset_equality(met, all);
        assert forall|d: int| 0 <= d < n implies units.contains(d) by {
            assert(all.contains(d));
            assert(met.contains(d));
        }
    }
}

proof fn lemma_places_push(n: nat, units: Seq<int>, d: int)
    requires
        are_places(n, units),
        0 <= d < n,
        !units.contains(d),
    ensures
        are_places(n, units.push(d)),
{
    let more = units.push(d);
    assert forall|i: int, j: int|
        0 <= i < more.len() && 0 <= j < more.len() && i != j implies more[i] != more[j] by {
        if i < units.len() && j < units.len() {
        } else if i < units.len() {
            assert(units.contains(units[i]));
        } else {
            assert(units.contains(units[j]));
        }
    }
}

impl UnitGraph {
    proof fn lemma_dep(self, u: int, k: int)
        requires
            self.wf(),
            0 <= u < self.size(),
            0 <= k < self.units@[u].deps@.len(),
        ensures
            0 <= self.dep(u, k) < self.size(),
    {
        assert(self.units@[u].deps@[k] < self.units@.len());
    }

    /// Going on only puts further units at the end of the list.
    proof fn lemma_visit_grows(self, depth: nat, u: int, k: int, units: Seq<int>)
        requires
            self.wf(),
            0 <= u < self.size(),
            0 <= k,
            are_places(self.size(), units),
        ensures
            are_places(self.size(), self.visit(depth, u, k, units)),
            units.is_prefix_of(self.visit(depth, u, k, units)),
            units.len() <= self.visit(depth, u, k, units).len(),
        decreases depth, self.units@[u].deps@.len() - k,
    {
        if k < self.units@[u].deps@.len() {
            self.lemma_dep(u, k);
            let d = self.dep(u, k);
            let next = if self.gives(d) && !units.contains(d) && depth > 0 {
                self.visit((depth - 1) as nat, d, 0, units.push(d))
            } else {
                units
            };
            if self.gives(d) && !units.contains(d) && depth > 0 {
                lemma_places_push(self.size(), units, d);
                self.lemma_visit_grows((depth - 1) as nat, d, 0, units.push(d));
                let more = units.push(d);
                assert(more.is_prefix_of(next));
                assert(next.subrange(0, more.len() as int) == more);
                assert(next.subrange(0, units.len() as int) =~= units) by {
                    assert forall|i: int| 0 <= i < units.len() implies next[i] == units[i] by {
                        assert(next.subrange(0, more.len() as int)[i] == more[i]);
                    }
                }
            } else {
                assert(next.subrange(0, units.len() as int) =~= units);
            }
            self.lemma_visit_grows(depth, u, k + 1, next);
            let last = self.visit(depth, u, k + 1, next);
            assert(last.subrange(0, units.len() as int) =~= units) by {
                assert forall|i: int| 0 <= i < units.len() implies last[i] == units[i] by {
                    assert(last.subrange(0, next.len() as int)[i] == next[i]);
                    assert(next.subrange(0, units.len() as int)[i] == units[i]);
                }
            }
        } else {
            assert(units.subrange(0, units.len() as int) =~= units);
        }
    }

    /// A depth that leaves room for all units that are not met yet is as good as
    /// any other.
    proof fn lemma_visit_depth(self, a: nat, b: nat, u: int, k: int, units: Seq<int>)
        requires
            self.wf(),
            0 <= u < self.size(),
            0 <= k,
            are_places(self.size(), units),
            a + units.len() >= self.size(),
            b + units.len() >= self.size(),
        ensures
            self.visit(a, u, k, units) == self.visit(b, u, k, units),
        decreases a, self.units@[u].deps@.len() - k,
    {
        if k < self.units@[u].deps@.len() {
            self.lemma_dep(u, k);
            let d = self.dep(u, k);
            lemma_places_len(self.size(), units);
            if self.gives(d) && !units.contains(d) {
                assert(a > 0 && b > 0);
                lemma_places_push(self.size(), units, d);
                self.lemma_visit_depth((a - 1) as nat, (b - 1) as nat, d, 0, units.push(d));
                self.lemma_visit_grows((a - 1) as nat, d, 0, units.push(d));
                let next = self.visit((a - 1) as nat, d, 0, units.push(d));
                self.lemma_visit_depth(a, b, u, k + 1, next);
            } else {
                self.lemma_visit_depth(a, b, u, k + 1, units);
            }
        }
    }

    /// All that a unit uses from the place `k` on is met, and so is all that the
    /// units use that were met on the way.
    proof fn lemma_visit_closed(self, depth: nat, u: int, k: int, units: Seq<int>)
        requires
            self.wf(),
            0 <= u < self.size(),
            0 <= k,
            are_places(self.size(), units),
            depth + units.len() >= self.size(),
        ensures
            ({
                let met = self.visit(depth, u, k, units);
                &&& forall|j: int|
                    k <= j < self.units@[u].deps@.len() && self.gives(#[trigger] self.dep(u, j))
                        ==> met.contains(self.dep(u, j))
                &&& forall|x: int, d: int|
                    #![trigger self.uses(x, d)]
                    met.contains(x) && !units.contains(x) && self.uses(x, d) ==> met.contains(d)
            }),
        decreases depth, self.units@[u].deps@.len() - k,
    {
        let met = self.visit(depth, u, k, units);
        if k < self.units@[u].deps@.len() {
            self.lemma_dep(u, k);
            let d = self.dep(u, k);
            lemma_places_len(self.size(), units);
            let next = if self.gives(d) && !units.contains(d) && depth > 0 {
                self.visit((depth - 1) as nat, d, 0, units.push(d))
            } else {
                units
            };
            if self.gives(d) && !units.contains(d) {
                let more = units.push(d);
                lemma_places_push(self.size(), units, d);
                self.lemma_visit_grows((depth - 1) as nat, d, 0, more);
                self.lemma_visit_closed((depth - 1) as nat, d, 0, more);
                lemma_prefix_contains(more, next);
                assert(more.contains(d)) by {
                    assert(more[more.len() - 1] == d);
                }
                assert forall|x: int, y: int|
                    #![trigger self.uses(x, y)]
                    next.contains(x) && !units.contains(x) && self.uses(x, y) implies next.contains(
                    y,
                ) by {
                    if x == d {
                        let j = choose|j: int|
                            0 <= j < self.units@[d].deps@.len() && #[trigger] self.dep(d, j) == y;
                        assert(self.dep(d, j) == y);
                    } else {
                        assert(!more.contains(x)) by {
                            if more.contains(x) {
                                let i = choose|i: int| 0 <= i < more.len() && more[i] == x;
                                assert(units.contains(units[i]));
                            }
                        }
                    }
                }
            }
            self.lemma_visit_grows(depth, u, k + 1, next);
            self.lemma_visit_closed(depth, u, k + 1, next);
            lemma_prefix_contains(next, met);
            assert(next.contains(d) || !self.gives(d));
            assert forall|j: int|
                k <= j < self.units@[u].deps@.len() && self.gives(
                    #[trigger] self.dep(u, j),
                ) implies met.contains(self.dep(u, j)) by {}
            assert forall|x: int, y: int|
                #![trigger self.uses(x, y)]
                met.contains(x) && !units.contains(x) && self.uses(x, y) implies met.contains(
                y,
            ) by {
                if next.contains(x) {
                    assert(next.contains(y));
                }
            }
        }
    }

    /// What is met is reached.
    proof fn lemma_visit_reached(self, depth: nat, u: int, k: int, units: Seq<int>)
        requires
            self.wf(),
            0 <= u < self.size(),
            0 <= k,
            are_places(self.size(), units),
        ensures
            forall|x: int| #[trigger]
                self.visit(depth, u, k, units).contains(x) && !units.contains(x) ==> self.reaches(
                    u,
                    x,
                ),
        decreases depth, self.units@[u].deps@.len() - k,
    {
        if k < self.units@[u].deps@.len() {
            self.lemma_dep(u, k);
            let d = self.dep(u, k);
            let met = self.visit(depth, u, k, units);
            let next = if self.gives(d) && !units.contains(d) && depth > 0 {
                self.visit((depth - 1) as nat, d, 0, units.push(d))
            } else {
                units
            };
            if self.gives(d) && !units.contains(d) && depth > 0 {
                let more = units.push(d);
                lemma_places_push(self.size(), units, d);
                self.lemma_visit_grows((depth - 1) as nat, d, 0, more);
                self.lemma_visit_reached((depth - 1) as nat, d, 0, more);
                assert(self.uses(u, d));
                let one = seq![u, d];
                assert(self.is_path(u, one));
                assert(one.last() == d);
                assert forall|x: int|
                    next.contains(x) && !units.contains(x) implies self.reaches(u, x) by {
                    if x != d {
                        assert(!more.contains(x)) by {
                            if more.contains(x) {
                                let i = choose|i: int| 0 <= i < more.len() && more[i] == x;
                                assert(units.contains(units[i]));
                            }
                        }
                        assert(self.reaches(d, x));
                        let path = choose|path: Seq<int>| #[trigger]
                            self.is_path(d, path) && path.len() > 1 && path.last() == x;
                        let long = seq![u] + path;
                        assert forall|i: int|
                            #![trigger long[i]]
                            1 <= i < long.len() implies self.uses(long[i - 1], long[i]) by {
                            if i > 1 {
                                assert(long[i] == path[i - 1]);
                                assert(long[i - 1] == path[i - 2]);
                            }
                        }
                        assert(self.is_path(u, long));
                        assert(long.last() == x);
                    }
                }
            }
            self.lemma_visit_grows(depth, u, k + 1, next);
            self.lemma_visit_reached(depth, u, k + 1, next);
            assert forall|x: int| #[trigger]
                met.contains(x) && !units.contains(x) implies self.reaches(u, x) by {
                if next.contains(x) {
                }
            }
        }
    }

    /// The native dependencies of a unit are exactly the units that are reached
    /// from it along dependencies that give something, and each of them once.
    pub proof fn lemma_native_dependencies(self, u: int)
        requires
            self.wf(),
            0 <= u < self.size(),
        ensures
            are_places(self.size(), self.native_dependencies(u)),
            forall|x: int| #[trigger]
                self.native_dependencies(u).contains(x) <==> self.reaches(u, x),
    {
        let none = Seq::<int>::empty();
        let met = self.native_dependencies(u);
        self.lemma_visit_grows(self.size(), u, 0, none);
        self.lemma_visit_closed(self.size(), u, 0, none);
        self.lemma_visit_reached(self.size(), u, 0, none);
        assert forall|x: int| self.reaches(u, x) implies met.contains(x) by {
            let path = choose|path: Seq<int>| #[trigger]
                self.is_path(u, path) && path.len() > 1 && path.last() == x;
            self.lemma_path_met(u, path, path.len() - 1);
        }
    }

    /// The unit at a place is used by the root or by a unit that stands before it.
    pub open spec fn is_parented(self, root: int, units: Seq<int>, i: int) -> bool {
        self.uses(root, units[i]) || exists|j: int| 0 <= j < i && self.uses(#[trigger] units[j], units[i])
    }

    proof fn lemma_visit_parented(self, root: int, depth: nat, u: int, k: int, units: Seq<int>)
        requires
            self.wf(),
            0 <= u < self.size(),
            0 <= k,
            are_places(self.size(), units),
            u == root || units.contains(u),
            forall|i: int| 0 <= i < units.len() ==> #[trigger] self.is_parented(root, units, i),
        ensures
            forall|i: int|
                0 <= i < self.visit(depth, u, k, units).len() ==> #[trigger] self.is_parented(
                    root,
                    self.visit(depth, u, k, units),
                    i,
                ),
        decreases depth, self.units@[u].deps@.len() - k,
    {
        if k < self.units@[u].deps@.len() {
            self.lemma_dep(u, k);
            let d = self.dep(u, k);
            if self.gives(d) && !units.contains(d) && depth > 0 {
                let more = units.push(d);
                lemma_places_push(self.size(), units, d);
                assert(self.uses(u, d));
                assert forall|i: int| 0 <= i < more.len() implies #[trigger] self.is_parented(
                    root,
                    more,
                    i,
                ) by {
                    if i < units.len() {
                        assert(self.is_parented(root, units, i));
                        if !self.uses(root, units[i]) {
                            let j = choose|j: int|
                                0 <= j < i && self.uses(#[trigger] units[j], units[i]);
                            assert(more[j] == units[j]);
                        }
                    } else if u != root {
                        let j = choose|j: int| 0 <= j < units.len() && units[j] == u;
                        assert(more[j] == u);
                    }
                }
                assert(more[units.len() as int] == d);
                self.lemma_visit_parented(root, (depth - 1) as nat, d, 0, more);
                self.lemma_visit_grows((depth - 1) as nat, d, 0, more);
                let next = self.visit((depth - 1) as nat, d, 0, more);
                lemma_prefix_contains(more, next);
                if u != root {
                    let j = choose|j: int| 0 <= j < units.len() && units[j] == u;
                    assert(more[j] == u);
                    assert(next.contains(u));
                }
                self.lemma_visit_parented(root, depth, u, k + 1, next);
                assert(self.visit(depth, u, k, units) == self.visit(depth, u, k + 1, next));
            } else {
                self.lemma_visit_parented(root, depth, u, k + 1, units);
                assert(self.visit(depth, u, k, units) == self.visit(depth, u, k + 1, units));
            }
        } else {
            assert(self.visit(depth, u, k, units) == units);
        }
    }

    /// Of the native dependencies of a unit, each that the unit does not use itself comes
    /// behind one that uses it, as linkers want libraries to stand.
    pub proof fn lemma_users_first(self, u: int, i: int)
        requires
            self.wf(),
            0 <= u < self.size(),
            0 <= i < self.native_dependencies(u).len(),
        ensures
            self.uses(u, self.native_dependencies(u)[i]) || exists|j: int|
                0 <= j < i && self.uses(
                    #[trigger] self.native_dependencies(u)[j],
                    self.native_dependencies(u)[i],
                ),
    {
        self.lemma_visit_parented(u, self.size(), u, 0, Seq::empty());
        assert(self.is_parented(u, self.native_dependencies(u), i));
    }

    proof fn lemma_path_met(self, u: int, path: Seq<int>, i: int)
        requires
            self.wf(),
            0 <= u < self.size(),
            self.is_path(u, path),
            1 <= i < path.len(),
        ensures
            self.native_dependencies(u).contains(path[i]),
        decreases i,
    {
        let none = Seq::<int>::empty();
        let met = self.native_dependencies(u);
        self.lemma_visit_closed(self.size(), u, 0, none);
        assert(self.uses(path[i - 1], path[i]));
        if i == 1 {
            let j = choose|j: int|
                0 <= j < self.units@[u].deps@.len() && #[trigger] self.dep(u, j) == path[1];
            assert(self.gives(self.dep(u, j)));
        } else {
            self.lemma_path_met(u, path, i - 1);
            assert(!none.contains(path[i - 1]));
        }
    }
}

proof fn lemma_prefix_contains(a: Seq<int>, b: Seq<int>)
    requires
        a.is_prefix_of(b),
        a.len() <= b.len(),
    ensures
        forall|x: int| #[trigger] a.contains(x) ==> b.contains(x),
{
    assert forall|x: int| #[trigger] a.contains(x) implies b.contains(x) by {
        let i = choose|i: int| 0 <= i < a.len() && a[i] == x;
        assert(b.subrange(0, a.len() as int)[i] == a[i]);
        assert(b[i] == x);
    }
}

/// What a list of places in memory holds.
pub open spec fn places(list: Seq<usize>) -> Seq<int> {
    list.map_values(|i: usize| i as int)
}

/// What is marked is what the list holds.
pub open spec fn marks(visited: Seq<bool>, n: nat, units: Seq<int>) -> bool {
    &&& visited.len() == n
    &&& forall|i: int| 0 <= i < n ==> #[trigger] visited[i] == units.contains(i)
}

fn gives_something(unit: &Unit) -> (r: bool)
    ensures
        r == (unit.mode != CompileMode::Doc && unit.mode != CompileMode::RunCustomBuild
            && unit.target.is_native && (unit.target.is_linkable
            || unit.target.is_header_only)),
{
    unit.mode != CompileMode::Doc && unit.mode != CompileMode::RunCustomBuild
        && unit.target.is_native && (unit.target.is_linkable || unit.target.is_header_only)
}

/// Goes along the dependencies of a unit, depth first, and puts those that give
/// something and are not marked at the end of the list.
pub fn collect_transitive_native_dependency_units(
    graph: &UnitGraph,
    unit: usize,
    visited: &mut Vec<bool>,
    units: &mut Vec<usize>,
)
    requires
        graph.wf(),
        unit < graph.units@.len(),
        are_places(graph.size(), places(old(units)@)),
        marks(old(visited)@, graph.size(), places(old(units)@)),
    ensures
        places(final(units)@) == graph.visit(
            (graph.size() - old(units)@.len()) as nat,
            unit as int,
            0,
            places(old(units)@),
        ),
        are_places(graph.size(), places(final(units)@)),
        marks(final(visited)@, graph.size(), places(final(units)@)),
    decreases graph.size() - old(units)@.len(),
{
    let ghost n = graph.size();
    let ghost start = places(units@);
    let ghost depth = (n - start.len()) as nat;
    proof {
        lemma_places_len(n, start);
    }
    let deps = &graph.units[unit].deps;
    let mut k: usize = 0;
    while k < deps.len()
        invariant
            graph.wf(),
            unit < graph.units@.len(),
            deps@ == graph.units@[unit as int].deps@,
            k <= deps@.len(),
            n == graph.size(),
            start.len() <= n,
            depth == n - start.len(),
            are_places(n, start),
            are_places(n, places(units@)),
            start.len() <= units@.len(),
            start == places(old(units)@),
            marks(visited@, n, places(units@)),
            graph.visit(depth, unit as int, 0, start) == graph.visit(
                depth,
                unit as int,
                k as int,
                places(units@),
            ),
        decreases deps@.len() - k,
    {
        let d = deps[k];
        let ghost here = places(units@);
        proof {
            graph.lemma_dep(unit as int, k as int);
            lemma_places_len(n, here);
        }
        if gives_something(&graph.units[d]) && !visited[d] {
            proof {
                lemma_places_push(n, here, d as int);
            }
            visited.set(d, true);
            units.push(d);
            proof {
                let more = here.push(d as int);
                assert(places(units@) =~= more);
                assert forall|i: int| 0 <= i < n implies #[trigger] visited@[i] == more.contains(
                    i,
                ) by {
                    if i == d {
                        assert(more[more.len() - 1] == i);
                    } else {
                        if more.contains(i) {
                            let j = choose|j: int| 0 <= j < more.len() && more[j] == i;
                            assert(here[j] == i);
                            assert(here.contains(i));
                        }
                        if here.contains(i) {
                            let j = choose|j: int| 0 <= j < here.len() && here[j] == i;
                            assert(more[j] == i);
                        }
                    }
                }
                lemma_places_len(n, more);
            }
            collect_transitive_native_dependency_units(graph, d, visited, units);
            proof {
                let more = here.push(d as int);
                graph.lemma_visit_depth(
                    (depth - 1) as nat,
                    (n - more.len()) as nat,
                    d as int,
                    0,
                    more,
                );
                graph.lemma_visit_grows((n - more.len()) as nat, d as int, 0, more);
            }
        }
        k = k + 1;
    }
}

/// The native dependencies of a unit and theirs, by their place in the graph.
pub fn transitive_native_dependency_units(graph: &UnitGraph, unit: usize) -> (r: Vec<usize>)
    requires
        graph.wf(),
        unit < graph.units@.len(),
    ensures
        places(r@) == graph.native_dependencies(unit as int),
        forall|i: int| 0 <= i < r@.len() ==> #[trigger] r@[i] < graph.units@.len(),
{
    let mut units: Vec<usize> = Vec::new();
    let mut visited: Vec<bool> = Vec::new();
    let mut i: usize = 0;
    while i < graph.units.len()
        invariant
            i <= graph.units@.len(),
            visited@.len() == i,
            forall|j: int| 0 <= j < i ==> !#[trigger] visited@[j],
        decreases graph.units@.len() - i,
    {
        visited.push(false);
        i = i + 1;
    }
    assert(places(units@) =~= Seq::empty());
    collect_transitive_native_dependency_units(graph, unit, &mut visited, &mut units);
    assert forall|i: int| 0 <= i < units@.len() implies #[trigger] units@[i]
        < graph.units@.len() by {
        assert(places(units@)[i] == units@[i]);
    }
    units
}

/// The path of the first file that is what the unit is built for.
pub open spec fn primary_output(list: Seq<OutputFile>) -> Option<Text>
    decreases list.len(),
{
    if list.len() == 0 {
        None
    } else if list[0].flavor == FileFlavor::Normal {
        Some(list[0].path@)
    } else {
        primary_output(list.skip(1))
    }
}

/// The path of the first file that is what the unit is built for.
pub fn primary_output_of(list: &Vec<OutputFile>) -> (r: Option<String>)
    ensures
        opt_text(r) == primary_output(list@),
{
    let mut i: usize = 0;
    assert(list@.skip(0) =~= list@);
    while i < list.len()
        invariant
            i <= list@.len(),
            primary_output(list@) == primary_output(list@.skip(i as int)),
        decreases list@.len() - i,
    {
        if list[i].flavor == FileFlavor::Normal {
            return Some(list[i].path.clone());
        }
        assert(list@.skip(i as int).skip(1) =~= list@.skip(i + 1));
        i = i + 1;
    }
    None
}

/// What a unit gives to those that depend on it.
pub open spec fn descriptor_of(unit: Unit) -> Result<DescriptorView, Text> {
    match unit.outputs {
        Ok(outputs) => Ok(
            DescriptorView {
                output_path: primary_output(outputs@),
                public_include_dir: opt_text(unit.target.native_include_root),
                build_script_metadatas: unit.build_script_metadatas,
                previous_build_outputs: unit.previous_build_outputs@,
            },
        ),
        Err(e) => Err(e@),
    }
}

/// What units give, or the message of the first of them whose files cannot be told.
pub open spec fn descriptors_of(graph: UnitGraph, units: Seq<int>) -> Result<
    Seq<DescriptorView>,
    Text,
>
    decreases units.len(),
{
    if units.len() == 0 {
        Ok(Seq::empty())
    } else {
        match descriptors_of(graph, units.drop_last()) {
            Ok(list) => match descriptor_of(graph.units@[units.last()]) {
                Ok(d) => Ok(list.push(d)),
                Err(e) => Err(e),
            },
            Err(e) => Err(e),
        }
    }
}

proof fn lemma_descriptors_err(graph: UnitGraph, units: Seq<int>, k: int)
    requires
        0 <= k <= units.len(),
        descriptors_of(graph, units.take(k)) is Err,
    ensures
        descriptors_of(graph, units) == descriptors_of(graph, units.take(k)),
    decreases units.len() - k,
{
    if k == units.len() {
        assert(units.take(k) =~= units);
    } else {
        assert(units.take(k + 1).drop_last() =~= units.take(k));
        lemma_descriptors_err(graph, units, k + 1);
    }
}

/// What the native dependencies of a unit give to it.
pub fn transitive_native_dependency_descriptors<'a>(graph: &'a UnitGraph, unit: usize) -> (r:
    Result<Vec<NativeDependencyDescriptor<'a>>, String>)
    requires
        graph.wf(),
        unit < graph.units@.len(),
    ensures
        match r {
            Ok(list) => descriptors_of(*graph, graph.native_dependencies(unit as int)) == Ok::<
                Seq<DescriptorView>,
                Text,
            >(descriptors_view(list@)),
            Err(e) => descriptors_of(*graph, graph.native_dependencies(unit as int)) == Err::<
                Seq<DescriptorView>,
                Text,
            >(e@),
        },
{
    let deps = transitive_native_dependency_units(graph, unit);
    let ghost all = places(deps@);
    let mut list: Vec<NativeDependencyDescriptor<'a>> = Vec::new();
    let mut i: usize = 0;
    assert(all.take(0) =~= Seq::empty());
    assert(descriptors_view(list@) =~= Seq::empty());
    while i < deps.len()
        invariant
            i <= deps@.len(),
            all == places(deps@),
            all == graph.native_dependencies(unit as int),
            forall|i: int| 0 <= i < deps@.len() ==> #[trigger] deps@[i] < graph.units@.len(),
            descriptors_of(*graph, all.take(i as int)) == Ok::<Seq<DescriptorView>, Text>(
                descriptors_view(list@),
            ),
        decreases deps@.len() - i,
    {
        let dep = &graph.units[deps[i]];
        assert(all.take(i + 1).drop_last() =~= all.take(i as int));
        assert(all.take(i + 1).last() == deps@[i as int]);
        match &dep.outputs {
            Ok(outputs) => {
                let d = NativeDependencyDescriptor {
                    output_path: primary_output_of(outputs),
                    public_include_dir: copy_opt(&dep.target.native_include_root),
                    build_script_metadatas: &dep.build_script_metadatas,
                    previous_build_outputs: &dep.previous_build_outputs,
                };
                let ghost before = list@;
                list.push(d);
                assert(descriptors_view(list@) =~= descriptors_view(before).push(d@));
            },
            Err(e) => {
                proof {
                    lemma_descriptors_err(*graph, all, i + 1);
                }
                return Err(e.clone());
            },
        }
        i = i + 1;
    }
    assert(all.take(i as int) =~= all);
    Ok(list)
}

} // verus!
