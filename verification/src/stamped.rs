//! What the fingerprint of a native target tells apart.
use vstd::prelude::*;

use crate::chosen::{first_var, second_var};
use crate::config::{NativeConfig, ToolSetting};
use crate::env::{cargo_target_var, env_suffix, find_var, flag_values, plain_target_var};
use crate::env::{same_var, tool_env, EnvVar, EnvVars};
use crate::fingerprint::{build_values, files_in, header_files, target_values};
use crate::fingerprint::{ recorded_path, recorded_paths, real_path};
use crate::fingerprint::{sorted_stamps, stamp_key, stamp_keys, stamps_of, toolchain_inputs};
use crate::fingerprint::{unit_fingerprints, DepInfoPathType, FileMetadata, LocalFingerprintView};
use crate::fingerprint::StampView;
use crate::flagged::{c_vars, cpp_vars, cxx_vars, lemma_c_names, lemma_config_options};
use crate::flagged::{lemma_cpp_names, lemma_cxx_names, lemma_link_names, link_vars, table_flags};
use crate::flagged::FlagVars;
use crate::fs::FsView;
use crate::layout::{WalkEntry, WalkKind};
use crate::order::{key_less, lemma_key_total, lemma_stable_order, stable_order};
use crate::os_text::OsTextView;
use crate::path::{holds_path, is_rooted, joined, lemma_sorted_paths, same_path, sorted_paths};
use crate::path::{components, stripped};
use crate::plan::{config_args, BuildContext, KindContext};
use crate::profile::Cfg;
use crate::rejoin::{lemma_recorded_rejoins, lemma_stripped_rejoins};
use crate::text::Text;

verus! {

/// The value of a variable is that of the first entry of its name; whether case counts is
/// up to the system.
pub proof fn lemma_variable(env: EnvVars, name: Text)
    ensures
        match env.value_of(name) {
            Some(value) => exists|i: int|
                0 <= i < env.vars@.len() && same_var(
                    (#[trigger] env.vars@[i]).name@,
                    name,
                    env.ignores_case,
                ) && env.vars@[i].value@ == value && forall|j: int|
                    0 <= j < i ==> !same_var(
                        (#[trigger] env.vars@[j]).name@,
                        name,
                        env.ignores_case,
                    ),
            None => forall|i: int|
                0 <= i < env.vars@.len() ==> !same_var(
                    (#[trigger] env.vars@[i]).name@,
                    name,
                    env.ignores_case,
                ),
        },
{
    lemma_find_var(env.vars@, name, env.ignores_case);
}

proof fn lemma_find_var(vars: Seq<EnvVar>, name: Text, ignores_case: bool)
    ensures
        match find_var(vars, name, ignores_case) {
            Some(var) => exists|i: int|
                0 <= i < vars.len() && same_var((#[trigger] vars[i]).name@, name, ignores_case)
                    && vars[i] == var && forall|j: int|
                    0 <= j < i ==> !same_var((#[trigger] vars[j]).name@, name, ignores_case),
            None => forall|i: int|
                0 <= i < vars.len() ==> !same_var((#[trigger] vars[i]).name@, name, ignores_case),
        },
    decreases vars.len(),
{
    if vars.len() > 0 {
        if same_var(vars[0].name@, name, ignores_case) {
            assert(vars[0] == find_var(vars, name, ignores_case)->0);
        } else {
            let rest = vars.skip(1);
            lemma_find_var(rest, name, ignores_case);
            match find_var(rest, name, ignores_case) {
                Some(var) => {
                    let i = choose|i: int|
                        0 <= i < rest.len() && same_var(
                            (#[trigger] rest[i]).name@,
                            name,
                            ignores_case,
                        ) && rest[i] == var && forall|j: int|
                            0 <= j < i ==> !same_var(
                                (#[trigger] rest[j]).name@,
                                name,
                                ignores_case,
                            );
                    assert(vars[i + 1] == rest[i]);
                    assert forall|j: int| 0 <= j < i + 1 implies !same_var(
                        (#[trigger] vars[j]).name@,
                        name,
                        ignores_case,
                    ) by {
                        if j > 0 {
                            assert(rest[j - 1] == vars[j]);
                        }
                    }
                },
                None => {
                    assert forall|i: int| 0 <= i < vars.len() implies !same_var(
                        (#[trigger] vars[i]).name@,
                        name,
                        ignores_case,
                    ) by {
                        if i > 0 {
                            assert(rest[i - 1] == vars[i]);
                        }
                    }
                },
            }
        }
    }
}

/// Where names are told apart by case, they are the same only where they are equal.
pub proof fn lemma_names_told_apart(a: Text, b: Text)
    ensures
        same_var(a, b, false) <==> a == b,
{
}

/// What sets a tool for one target, by either of two variables, is the same.
pub open spec fn set_alike(a: EnvVars, b: EnvVars, triple: Text, key: Text) -> bool {
    (match a.value_of(first_var(triple, key)) {
        Some(value) => Some(value),
        None => a.value_of(second_var(triple, key)),
    }) == (match b.value_of(first_var(triple, key)) {
        Some(value) => Some(value),
        None => b.value_of(second_var(triple, key)),
    })
}

/// Variables for options have the same values.
pub open spec fn flags_alike(a: EnvVars, b: EnvVars, vars: FlagVars) -> bool {
    &&& a.value_of(vars.plain) == b.value_of(vars.plain)
    &&& a.value_of(vars.cargo) == b.value_of(vars.cargo)
    &&& a.value_of(vars.encoded) == b.value_of(vars.encoded)
    &&& a.value_of(vars.target_plain) == b.value_of(vars.target_plain)
    &&& a.value_of(vars.target_cargo) == b.value_of(vars.target_cargo)
    &&& a.value_of(vars.target_encoded) == b.value_of(vars.target_encoded)
}

/// Tools that are set to the same, or not set.
pub open spec fn tools_alike(a: Option<ToolSetting>, b: Option<ToolSetting>) -> bool {
    match (a, b) {
        (Some(a), Some(b)) => a.raw@ == b.raw@,
        (None, None) => true,
        _ => false,
    }
}

/// Configurations that set the same tools and the same options.
pub open spec fn configs_alike(a: NativeConfig, b: NativeConfig) -> bool {
    match (a.build, b.build, a.target, b.target) {
        (Ok(build_a), Ok(build_b), Ok(target_a), Ok(target_b)) => {
            &&& tools_alike(build_a.native_cc, build_b.native_cc)
            &&& tools_alike(build_a.native_cxx, build_b.native_cxx)
            &&& tools_alike(build_a.native_ar, build_b.native_ar)
            &&& tools_alike(target_a.native_cc, target_b.native_cc)
            &&& tools_alike(target_a.native_cxx, target_b.native_cxx)
            &&& tools_alike(target_a.native_ar, target_b.native_ar)
            &&& table_flags(build_a.native_cflags) + table_flags(target_a.native_cflags)
                == table_flags(build_b.native_cflags) + table_flags(target_b.native_cflags)
            &&& table_flags(build_a.native_cppflags) + table_flags(target_a.native_cppflags)
                == table_flags(build_b.native_cppflags) + table_flags(target_b.native_cppflags)
            &&& table_flags(build_a.native_cxxflags) + table_flags(target_a.native_cxxflags)
                == table_flags(build_b.native_cxxflags) + table_flags(target_b.native_cxxflags)
            &&& table_flags(build_a.native_ldflags) + table_flags(target_a.native_ldflags)
                == table_flags(build_b.native_ldflags) + table_flags(target_b.native_ldflags)
        },
        _ => false,
    }
}

/// The C runtime is the static one.
pub open spec fn has_static_runtime(cfgs: Seq<Cfg>) -> bool {
    exists|i: int|
        0 <= i < cfgs.len() && (#[trigger] cfgs[i] matches Cfg::KeyPair(key, value) && key@
            == "target_feature"@ && value@ == "crt-static"@)
}

proof fn lemma_flags_alike(a: EnvVars, b: EnvVars, triple: Text)
    requires
        flag_values(a, triple) == flag_values(b, triple),
    ensures
        flags_alike(a, b, c_vars(triple)),
        flags_alike(a, b, cpp_vars(triple)),
        flags_alike(a, b, cxx_vars(triple)),
        flags_alike(a, b, link_vars(triple)),
{
    lemma_c_names(triple);
    lemma_cpp_names(triple);
    lemma_cxx_names(triple);
    lemma_link_names(triple);
    let x = flag_values(a, triple);
    let y = flag_values(b, triple);
    assert(x[0] == y[0] && x[1] == y[1] && x[2] == y[2] && x[3] == y[3]);
    assert(x[4] == y[4] && x[5] == y[5] && x[6] == y[6] && x[7] == y[7]);
    assert(x[8] == y[8] && x[9] == y[9] && x[10] == y[10] && x[11] == y[11]);
    assert(x[12] == y[12] && x[13] == y[13] && x[14] == y[14] && x[15] == y[15]);
    assert(x[16] == y[16] && x[17] == y[17] && x[18] == y[18] && x[19] == y[19]);
    assert(x[20] == y[20] && x[21] == y[21] && x[22] == y[22] && x[23] == y[23]);
}

proof fn lemma_tool_names(triple: Text, key: Text)
    ensures
        first_var(triple, key) == cargo_target_var(triple, "NATIVE_"@ + key),
        second_var(triple, key) == plain_target_var(triple, key),
{
    reveal_strlit("_NATIVE_");
    reveal_strlit("NATIVE_");
    reveal_strlit("_");
    assert("_NATIVE_"@ =~= "_"@ + "NATIVE_"@);
    assert(first_var(triple, key) =~= cargo_target_var(triple, "NATIVE_"@ + key));
}

/// Two builds whose fingerprints are of the same values are for the same target, with the
/// same tools, and nothing that sets a tool or an option for them differs, be it in the
/// environment or in the configuration.
pub proof fn lemma_inputs_tell(
    a: BuildContext,
    b: BuildContext,
    kind_a: KindContext,
    kind_b: KindContext,
)
    requires
        toolchain_inputs(a, kind_a) is Ok,
        toolchain_inputs(a, kind_a) == toolchain_inputs(b, kind_b),
    ensures
        ({
            let triple = kind_a.target_triple@;
            &&& kind_b.target_triple@ == triple
            &&& a.toolchain(kind_a) == b.toolchain(kind_b)
            &&& has_static_runtime(kind_a.cfgs@) == has_static_runtime(kind_b.cfgs@)
            &&& a.env.value_of("CC"@) == b.env.value_of("CC"@)
            &&& a.env.value_of("CXX"@) == b.env.value_of("CXX"@)
            &&& a.env.value_of("AR"@) == b.env.value_of("AR"@)
            &&& set_alike(a.env, b.env, triple, "CC"@)
            &&& set_alike(a.env, b.env, triple, "CXX"@)
            &&& set_alike(a.env, b.env, triple, "AR"@)
            &&& a.env.value_of("CARGO_NATIVE_MSVC_VCVARSALL"@) == b.env.value_of(
                "CARGO_NATIVE_MSVC_VCVARSALL"@,
            )
            &&& a.env.value_of("CARGO_TARGET_"@ + env_suffix(triple) + "_MSVC_VCVARSALL"@)
                == b.env.value_of("CARGO_TARGET_"@ + env_suffix(triple) + "_MSVC_VCVARSALL"@)
            &&& flags_alike(a.env, b.env, c_vars(triple))
            &&& flags_alike(a.env, b.env, cpp_vars(triple))
            &&& flags_alike(a.env, b.env, cxx_vars(triple))
            &&& flags_alike(a.env, b.env, link_vars(triple))
            &&& configs_alike(kind_a.config, kind_b.config)
        }),
{
    let triple = kind_a.target_triple@;
    let x = toolchain_inputs(a, kind_a)->Ok_0;
    let y = toolchain_inputs(b, kind_b)->Ok_0;
    assert(x == y);
    lemma_configs_alike(kind_a.config, kind_b.config);
    lemma_flags_alike(a.env, b.env, triple);
    lemma_set_alike(a.env, b.env, triple, "CC"@);
    lemma_set_alike(a.env, b.env, triple, "CXX"@);
    lemma_set_alike(a.env, b.env, triple, "AR"@);
    lemma_script_name(triple);
}

proof fn lemma_script_name(triple: Text)
    ensures
        "CARGO_TARGET_"@ + env_suffix(triple) + "_MSVC_VCVARSALL"@ == cargo_target_var(
            triple,
            "MSVC_VCVARSALL"@,
        ),
{
    reveal_strlit("_MSVC_VCVARSALL");
    reveal_strlit("MSVC_VCVARSALL");
    reveal_strlit("_");
    assert("_MSVC_VCVARSALL"@ =~= "_"@ + "MSVC_VCVARSALL"@);
    assert("CARGO_TARGET_"@ + env_suffix(triple) + "_MSVC_VCVARSALL"@ =~= cargo_target_var(
        triple,
        "MSVC_VCVARSALL"@,
    ));
}

proof fn lemma_set_alike(a: EnvVars, b: EnvVars, triple: Text, key: Text)
    requires
        tool_env(a, triple, key) == tool_env(b, triple, key),
    ensures
        set_alike(a, b, triple, key),
{
    lemma_tool_names(triple, key);
}

proof fn lemma_configs_alike(a: NativeConfig, b: NativeConfig)
    requires
        config_args(a) is Ok,
        config_args(a) == config_args(b),
        build_values(a) is Ok,
        build_values(a) == build_values(b),
        target_values(a) is Ok,
        target_values(a) == target_values(b),
    ensures
        configs_alike(a, b),
{
    lemma_config_options(a);
    lemma_config_options(b);
    reveal_strlit("cc");
    reveal_strlit("cxx");
    reveal_strlit("ar");
    assert("cc"@.len() == 2 && "cxx"@.len() == 3 && "ar"@.len() == 2);
    assert("cc"@[0] == 'c' && "ar"@[0] == 'a');
    let x = build_values(a)->Ok_0;
    let y = build_values(b)->Ok_0;
    assert(x.cc == y.cc && x.cxx == y.cxx && x.ar == y.ar);
    let x = target_values(a)->Ok_0;
    let y = target_values(b)->Ok_0;
    assert(x.cc == y.cc && x.cxx == y.cxx && x.ar == y.ar);
}

/// There is something to tell exactly where the tools are told and both tables of the
/// configuration can be read.
pub proof fn lemma_inputs_told(ctx: BuildContext, kind: KindContext)
    ensures
        toolchain_inputs(ctx, kind) is Ok <==> {
            &&& ctx.toolchain(kind) is Ok
            &&& kind.config.build is Ok
            &&& kind.config.target is Ok
        },
{
    lemma_config_options(kind.config);
}

/// What the stamp of a file tells: its length and its time where it is there, and
/// nothing where it is missing.
pub open spec fn is_stamp(stamp: StampView, path: OsTextView, metadata: FileMetadata) -> bool {
    &&& stamp.path == path
    &&& match metadata {
        FileMetadata::Found { len, modified } => stamp.len == Some(len) && stamp.modified
            == modified,
        FileMetadata::Missing => stamp.len is None && stamp.modified is None,
        FileMetadata::Failed => false,
    }
}

/// Each tool is stamped, in order; the metadata of a tool that cannot be read is an error.
pub proof fn lemma_stamps(tools: Seq<OsTextView>, metadata: Seq<FileMetadata>)
    requires
        tools.len() == metadata.len(),
    ensures
        stamps_of(tools, metadata) is Ok <==> forall|i: int|
            0 <= i < metadata.len() ==> !(#[trigger] metadata[i] is Failed),
        stamps_of(tools, metadata) matches Ok(list) ==> {
            &&& list.len() == tools.len()
            &&& forall|i: int|
                #![trigger list[i]]
                0 <= i < list.len() ==> is_stamp(list[i], tools[i], metadata[i])
        },
    decreases tools.len(),
{
    if tools.len() > 0 {
        let rest = metadata.skip(1);
        let more = tools.skip(1);
        lemma_stamps(more, rest);
        if stamps_of(tools, metadata) is Ok {
            let list = stamps_of(tools, metadata)->Ok_0;
            let behind = stamps_of(more, rest)->Ok_0;
            assert forall|i: int| 0 <= i < metadata.len() implies !(#[trigger] metadata[i]
                is Failed) by {
                if i > 0 {
                    assert(rest[i - 1] == metadata[i]);
                }
            }
            assert forall|i: int| #![trigger list[i]] 0 <= i < list.len() implies is_stamp(
                list[i],
                tools[i],
                metadata[i],
            ) by {
                if i > 0 {
                    assert(list[i] == behind[i - 1]);
                    assert(more[i - 1] == tools[i]);
                    assert(rest[i - 1] == metadata[i]);
                }
            }
        }
        if forall|i: int| 0 <= i < metadata.len() ==> !(#[trigger] metadata[i] is Failed) {
            assert(!(metadata[0] is Failed));
            assert forall|i: int| 0 <= i < rest.len() implies !(#[trigger] rest[i] is Failed) by {
                assert(metadata[i + 1] == rest[i]);
            }
        }
    }
}

proof fn lemma_files_in(walk: Seq<WalkEntry>, path: Text)
    ensures
        files_in(walk).contains(path) <==> exists|i: int|
            0 <= i < walk.len() && (#[trigger] walk[i]).kind == WalkKind::File && walk[i].path@
                == path,
    decreases walk.len(),
{
    if walk.len() > 0 {
        let front = walk.drop_last();
        let before = files_in(front);
        let all = files_in(walk);
        lemma_files_in(front, path);
        assert(walk.last() == walk[walk.len() - 1]);
        if all.contains(path) {
            let k = choose|k: int| 0 <= k < all.len() && all[k] == path;
            if k < before.len() {
                assert(before[k] == path);
                let i = choose|i: int|
                    0 <= i < front.len() && (#[trigger] front[i]).kind == WalkKind::File
                        && front[i].path@ == path;
                assert(walk[i] == front[i]);
            }
        }
        if exists|i: int|
            0 <= i < walk.len() && (#[trigger] walk[i]).kind == WalkKind::File && walk[i].path@
                == path {
            let i = choose|i: int|
                0 <= i < walk.len() && (#[trigger] walk[i]).kind == WalkKind::File && walk[i].path@
                    == path;
            if i < front.len() {
                assert(front[i] == walk[i]);
                let k = choose|k: int| 0 <= k < before.len() && before[k] == path;
                assert(all[k] == path);
            } else {
                assert(all[all.len() - 1] == path);
            }
        }
    }
}

/// The files of a library of headers are its one file, or all files below its directory,
/// and no others; a directory that cannot be walked has none to tell.
pub proof fn lemma_header_files(source: Text, fs: FsView, walk: Seq<WalkEntry>, path: Text)
    ensures
        !fs.has_dir(source) ==> header_files(source, fs, walk) == Some(seq![source]),
        fs.has_dir(source) ==> match header_files(source, fs, walk) {
            Some(files) => {
                &&& forall|i: int| 0 <= i < walk.len() ==> (#[trigger] walk[i]).kind
                    != WalkKind::Failed
                &&& files.contains(path) <==> exists|i: int|
                    0 <= i < walk.len() && (#[trigger] walk[i]).kind == WalkKind::File
                        && walk[i].path@ == path
            },
            None => exists|i: int|
                0 <= i < walk.len() && (#[trigger] walk[i]).kind == WalkKind::Failed,
        },
{
    lemma_files_in(walk, path);
}

/// Stamps are put in order, and none is lost or made up.
pub proof fn lemma_stamps_ordered(list: Seq<StampView>)
    ensures
        ({
            let sorted = sorted_stamps(list);
            &&& sorted.len() == list.len()
            &&& forall|i: int| 0 <= i < sorted.len() ==> list.contains(#[trigger] sorted[i])
            &&& forall|i: int| 0 <= i < list.len() ==> sorted.contains(#[trigger] list[i])
            &&& forall|i: int, j: int|
                0 <= i < j < sorted.len() ==> !key_less(
                    stamp_key(#[trigger] sorted[j]),
                    stamp_key(#[trigger] sorted[i]),
                )
        }),
{
    let keys = stamp_keys(list);
    let order = stable_order(keys);
    let sorted = sorted_stamps(list);
    lemma_stable_order(keys);
    assert forall|i: int| 0 <= i < list.len() implies sorted.contains(#[trigger] list[i]) by {
        assert(order.contains(i));
        let k = choose|k: int| 0 <= k < order.len() && order[k] == i;
        assert(sorted[k] == list[i]);
    }
    assert forall|i: int, j: int| 0 <= i < j < sorted.len() implies !key_less(
        stamp_key(#[trigger] sorted[j]),
        stamp_key(#[trigger] sorted[i]),
    ) by {
        let a = order[i];
        let b = order[j];
        assert(keys[a] == stamp_key(sorted[i]) && keys[b] == stamp_key(sorted[j]));
        lemma_key_total(keys[a], keys[b]);
    }
}

/// A library of headers has its fingerprint alone. Any other native target is also built
/// anew where a file that it was made of changes, as its dep-info tells, and where `CXX`
/// or `AR` does.
pub proof fn lemma_fingerprints(
    is_header_only: bool,
    dep_info: Text,
    build_root: Text,
    fingerprint: Text,
)
    requires
        is_header_only || stripped(dep_info, build_root) is Some,
    ensures
        ({
            let list = unit_fingerprints(is_header_only, dep_info, build_root, fingerprint);
            &&& list.contains(LocalFingerprintView::Precalculated(fingerprint))
            &&& is_header_only ==> list.len() == 1
            &&& !is_header_only ==> {
                &&& list.len() == 4
                &&& list.contains(LocalFingerprintView::FromEnv("CXX"@))
                &&& list.contains(LocalFingerprintView::FromEnv("AR"@))
                &&& exists|i: int|
                    0 <= i < list.len() && (#[trigger] list[i] matches
                        LocalFingerprintView::CheckDepInfo { dep_info: path, checksum }
                        && !checksum && same_path(joined(build_root, path), dep_info))
            }
        }),
{
    let list = unit_fingerprints(is_header_only, dep_info, build_root, fingerprint);
    lemma_stripped_rejoins(dep_info, build_root);
    if is_header_only {
        assert(list[0] == LocalFingerprintView::Precalculated(fingerprint));
    } else {
        assert(list[0] is CheckDepInfo);
        assert(list[1] == LocalFingerprintView::FromEnv("CXX"@));
        assert(list[2] == LocalFingerprintView::FromEnv("AR"@));
        assert(list[3] == LocalFingerprintView::Precalculated(fingerprint));
    }
}

/// The record stands for the path.
pub open spec fn stands_for(
    record: (DepInfoPathType, Text),
    build_root: Text,
    pkg_root: Text,
    path: Text,
) -> bool {
    match record.0 {
        DepInfoPathType::BuildRootRelative => same_path(joined(build_root, record.1), path),
        DepInfoPathType::PackageRootRelative => same_path(joined(pkg_root, record.1), path),
    }
}

/// Each file that a build read is recorded, and no other is: by the path that it really
/// has, where that is known to be absolute.
pub proof fn lemma_paths_recorded(
    build_root: Text,
    pkg_root: Text,
    paths: Seq<Text>,
    real_paths: Seq<(String, String)>,
)
    requires
        forall|i: int| 0 <= i < paths.len() ==> is_rooted(real_path(real_paths, #[trigger] paths[i])),
    ensures
        ({
            let records = recorded_paths(build_root, pkg_root, paths, real_paths);
            &&& forall|i: int|
                0 <= i < paths.len() ==> #[trigger] is_recorded(
                    records,
                    build_root,
                    pkg_root,
                    real_paths,
                    paths[i],
                )
            &&& forall|k: int|
                0 <= k < records.len() ==> #[trigger] is_record_of(
                    records[k],
                    build_root,
                    pkg_root,
                    real_paths,
                    paths,
                )
        }),
{
    let records = recorded_paths(build_root, pkg_root, paths, real_paths);
    let sorted = sorted_paths(paths);
    lemma_sorted_paths(paths);
    assert(records.len() == sorted.len());
    assert forall|k: int| 0 <= k < records.len() implies #[trigger] is_record_of(
        records[k],
        build_root,
        pkg_root,
        real_paths,
        paths,
    ) by {
        assert(paths.contains(sorted[k]));
        let n = choose|n: int| 0 <= n < paths.len() && paths[n] == sorted[k];
        assert(is_rooted(real_path(real_paths, paths[n])));
        assert(records[k] == recorded_path(
            build_root,
            pkg_root,
            real_path(real_paths, sorted[k]),
        ));
        lemma_recorded_rejoins(build_root, pkg_root, real_path(real_paths, sorted[k]));
        assert(stands_for(records[k], build_root, pkg_root, real_path(real_paths, paths[n])));
    }
    assert forall|i: int| 0 <= i < paths.len() implies #[trigger] is_recorded(
        records,
        build_root,
        pkg_root,
        real_paths,
        paths[i],
    ) by {
        assert(holds_path(sorted, paths[i]));
        let k = choose|k: int| 0 <= k < sorted.len() && same_path(#[trigger] sorted[k], paths[i]);
        assert(paths.contains(sorted[k]));
        let n = choose|n: int| 0 <= n < paths.len() && paths[n] == sorted[k];
        assert(is_rooted(real_path(real_paths, paths[n])));
        assert(records[k] == recorded_path(
            build_root,
            pkg_root,
            real_path(real_paths, sorted[k]),
        ));
        lemma_recorded_rejoins(build_root, pkg_root, real_path(real_paths, sorted[k]));
        assert(stands_for(records[k], build_root, pkg_root, real_path(real_paths, sorted[k])));
    }
}

/// There is a record of a path that names the same file.
pub open spec fn is_recorded(
    records: Seq<(DepInfoPathType, Text)>,
    build_root: Text,
    pkg_root: Text,
    real_paths: Seq<(String, String)>,
    path: Text,
) -> bool {
    exists|k: int, same: Text|
        0 <= k < records.len() && #[trigger] same_path(same, path) && stands_for(
            #[trigger] records[k],
            build_root,
            pkg_root,
            real_path(real_paths, same),
        )
}

/// The record is that of one of the paths.
pub open spec fn is_record_of(
    record: (DepInfoPathType, Text),
    build_root: Text,
    pkg_root: Text,
    real_paths: Seq<(String, String)>,
    paths: Seq<Text>,
) -> bool {
    exists|n: int|
        0 <= n < paths.len() && stands_for(
            record,
            build_root,
            pkg_root,
            real_path(real_paths, #[trigger] paths[n]),
        )
}

/// The real path of a path is the first one that is given for it; without one, the path
/// is real.
pub proof fn lemma_real_path(list: Seq<(String, String)>, path: Text)
    ensures
        (real_path(list, path) == path && forall|i: int|
            0 <= i < list.len() ==> (#[trigger] list[i]).0@ != path) || exists|i: int|
            0 <= i < list.len() && (#[trigger] list[i]).0@ == path && list[i].1@ == real_path(
                list,
                path,
            ) && forall|j: int| 0 <= j < i ==> (#[trigger] list[j]).0@ != path,
    decreases list.len(),
{
    if list.len() > 0 {
        if list[0].0@ == path {
            assert(list[0].1@ == real_path(list, path));
        } else {
            let rest = list.skip(1);
            lemma_real_path(rest, path);
            if forall|i: int| 0 <= i < rest.len() ==> (#[trigger] rest[i]).0@ != path {
                assert forall|i: int| 0 <= i < list.len() implies (#[trigger] list[i]).0@
                    != path by {
                    if i > 0 {
                        assert(rest[i - 1] == list[i]);
                    }
                }
            } else {
                let i = choose|i: int|
                    0 <= i < rest.len() && (#[trigger] rest[i]).0@ == path && rest[i].1@
                        == real_path(rest, path) && forall|j: int|
                        0 <= j < i ==> (#[trigger] rest[j]).0@ != path;
                assert(list[i + 1] == rest[i]);
                assert forall|j: int| 0 <= j < i + 1 implies (#[trigger] list[j]).0@ != path by {
                    if j > 0 {
                        assert(rest[j - 1] == list[j]);
                    }
                }
            }
        }
    }
}

/// A file below the build directory is recorded as one of it, also where that is below the
/// package; one below the package alone as one of the package. A record of any other holds
/// the whole path.
pub proof fn lemma_record_kinds(build_root: Text, pkg_root: Text, path: Text)
    ensures
        ({
            let (kind, rest) = recorded_path(build_root, pkg_root, path);
            let in_build = components(build_root).is_prefix_of(components(path));
            let in_package = components(pkg_root).is_prefix_of(components(path));
            &&& in_build || !in_package <==> kind == DepInfoPathType::BuildRootRelative
            &&& !in_build && in_package <==> kind == DepInfoPathType::PackageRootRelative
            &&& !in_build && !in_package ==> rest == path
        }),
{
}

} // verus!
