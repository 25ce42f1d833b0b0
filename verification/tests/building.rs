use native_targets::command::{command_arguments, Command};
use native_targets::config::{NativeConfig, NativeSettings};
use native_targets::database::{
    choose_compile_commands, compile_commands_for_unit, compile_mode_priority,
    write_compile_commands, CompileCommand, CompileCommandCandidate,
};
use native_targets::env::{EnvVar, EnvVars};
use native_targets::fs::{FsView, PathFact, PathKind};
use native_targets::layout::{
    collect_target_sources, depfile_paths, include_dirs, object_paths, objects_dir,
    scan_include_dirs, tracked_input_paths, WalkEntry, WalkKind,
};
use native_targets::link::{
    apply_build_output_link_inputs, link_arg_applies_to, native_link_inputs_from_descriptors,
    native_link_library_name, CompileMode, NativeLinkContext, NativeLinkInputs,
};
use native_targets::native::{NativeCompilerFamily, NativeSourceLanguage};
use native_targets::os_text::OsText;
use native_targets::outputs::{
    build_outputs_from_metadata, declared_include_dirs_from_metadata,
    dependency_include_dirs_from_descriptors, push_unique_path, BuildOutput, BuildScriptOutputs,
    LibraryPath, LinkArgTarget, NativeDependencyDescriptor,
};
use native_targets::path::PathRule;
use native_targets::plan::{compile, has_cpp_sources, BuildContext, KindContext, Step};
use native_targets::profile::{Cfg, Lto, NativeProfile, Strip};
use native_targets::toolchain::{FoundTools, NativeToolchain};
use native_targets::tools::{
    archive_library, build_compile_object_command, compiler_for_source, link_binary,
    link_shared_library, linker_for_target, CompileArgs,
};
use native_targets::units::{
    primary_output_of, transitive_native_dependency_descriptors,
    transitive_native_dependency_units, FileFlavor, NativeTarget, OutputFile, Unit, UnitGraph,
};

const GNU: NativeCompilerFamily = NativeCompilerFamily::GnuLike;
const MSVC: NativeCompilerFamily = NativeCompilerFamily::MsvcLike;

fn strings(list: &[&str]) -> Vec<String> {
    list.iter().map(|s| s.to_string()).collect()
}

fn tree(files: &[&str], dirs: &[&str]) -> FsView {
    let mut facts = Vec::new();
    for path in files {
        facts.push(PathFact { path: path.to_string(), kind: PathKind::File });
    }
    for path in dirs {
        facts.push(PathFact { path: path.to_string(), kind: PathKind::Dir });
    }
    FsView { facts }
}

fn walk(list: &[(&str, WalkKind)]) -> Vec<WalkEntry> {
    list.iter().map(|(path, kind)| WalkEntry { path: path.to_string(), kind: *kind }).collect()
}

fn toolchain(family: NativeCompilerFamily) -> NativeToolchain {
    NativeToolchain {
        cc: OsText::new("cc"),
        cxx: OsText::new("c++"),
        ar: Some(OsText::new("ar")),
        family,
        env: vec![("INCLUDE".to_string(), "i".to_string())],
        init_script: None,
    }
}

fn output(rank: u32) -> BuildOutput {
    BuildOutput {
        rank,
        library_paths: vec![],
        library_links: vec![],
        linker_args: vec![],
        metadata: vec![],
    }
}

fn context(is_bin: bool, mode: CompileMode) -> NativeLinkContext {
    NativeLinkContext {
        is_bin,
        is_cdylib: false,
        is_test: false,
        is_bench: false,
        is_example: false,
        target_name: "app".to_string(),
        mode,
    }
}

fn no_inputs<'a>() -> NativeLinkInputs<'a> {
    NativeLinkInputs {
        dependency_libraries: vec![],
        manifest_library_search_dirs: vec![],
        manifest_library_links: vec![],
        manifest_link_args: vec![],
        build_outputs: vec![],
    }
}

#[test]
fn include_directories_are_sorted_and_unique() {
    let fs = tree(&[], &["/p/include"]);
    let sources = strings(&["/p/src/a.c", "/p/src/x/b.c"]);
    assert_eq!(
        include_dirs("/p", &fs, &sources, &None, &strings(&["/p/priv"]), &strings(&["/decl"]), &strings(&["/dep", "/p/src"])),
        strings(&["/decl", "/dep", "/p/include", "/p/priv", "/p/src", "/p/src/x"])
    );
    assert_eq!(
        include_dirs("/p", &fs, &sources, &Some("/p/api".to_string()), &vec![], &vec![], &vec![]),
        strings(&["/p/api", "/p/src", "/p/src/x"])
    );
    assert_eq!(
        include_dirs("/q", &fs, &strings(&["a.c"]), &None, &vec![], &vec![], &vec![]),
        strings(&[""])
    );
}

#[test]
fn companion_sources_are_collected() {
    let fs = tree(&[], &["/p/src/lib"]);
    let root = Some("/p/src/lib".to_string());
    let entries = walk(&[
        ("/p/src/lib", WalkKind::Other),
        ("/p/src/lib/z.c", WalkKind::File),
        ("/p/src/lib/a.cpp", WalkKind::File),
        ("/p/src/lib/a.h", WalkKind::File),
        ("/p/src/lib/d.c", WalkKind::Other),
        ("/p/src/lib.c", WalkKind::File),
    ]);
    assert_eq!(
        collect_target_sources("/p/src/lib.c", &root, &fs, &entries),
        Ok(strings(&["/p/src/lib/a.cpp", "/p/src/lib/z.c", "/p/src/lib.c"]))
    );
    assert_eq!(collect_target_sources("/p/x.c", &None, &fs, &vec![]), Ok(strings(&["/p/x.c"])));
    assert_eq!(
        collect_target_sources("/p/x.c", &Some("/p/none".to_string()), &fs, &vec![]),
        Err("native companion source root `/p/none` is not a directory".to_string())
    );
    assert_eq!(
        collect_target_sources("/p/x.c", &root, &fs, &walk(&[("/p/src/lib/q", WalkKind::Failed)])),
        Err("failed to walk native source directory while building `/p/x.c`".to_string())
    );
}

#[test]
fn objects_and_depfiles_stand_below_the_output() {
    let dir = objects_dir("/t/debug/libx.a");
    assert_eq!(dir, "/t/debug/libx.a.native");
    let sources = strings(&["/p/src/a.c", "/other/b.cc"]);
    let objects = object_paths("/p", &sources, &dir, GNU);
    assert_eq!(objects, strings(&["/t/debug/libx.a.native/src/a.o", "/other/b.o"]));
    assert_eq!(
        depfile_paths(&objects, GNU),
        vec![
            Some("/t/debug/libx.a.native/src/a.o.d".to_string()),
            Some("/other/b.o.d".to_string()),
        ]
    );
    assert_eq!(
        object_paths("/p", &sources, &dir, MSVC),
        strings(&["/t/debug/libx.a.native/src/a.obj", "/other/b.obj"])
    );
    assert_eq!(depfile_paths(&objects, MSVC), vec![None, None]);
}

#[test]
fn headers_are_found_in_include_directories() {
    let fs = tree(&[], &["/i"]);
    let dirs = strings(&["/none", "/i"]);
    let walks = vec![
        walk(&[("/none/x.h", WalkKind::File)]),
        walk(&[
            ("/i", WalkKind::Other),
            ("/i/b.hpp", WalkKind::File),
            ("/i/a.h", WalkKind::File),
            ("/i/c.txt", WalkKind::File),
        ]),
    ];
    assert_eq!(scan_include_dirs(&dirs, &fs, &walks), Ok(strings(&["/i/b.hpp", "/i/a.h"])));
    let failed = vec![vec![], walk(&[("/i/x", WalkKind::Failed)])];
    assert_eq!(
        scan_include_dirs(&dirs, &fs, &failed),
        Err("failed to walk native include directory `/i` while collecting dependencies".to_string())
    );
    let sources = strings(&["/p/a.c"]);
    assert_eq!(
        tracked_input_paths(MSVC, &sources, &vec![None], &vec![None], &dirs, &fs, &walks),
        Ok(strings(&["/i/a.h", "/i/b.hpp", "/p/a.c"]))
    );
}

#[test]
fn depfiles_name_what_is_watched() {
    let fs = tree(&[], &[]);
    let sources = strings(&["/p/b.c", "/p/a.c"]);
    let depfiles = vec![Some("/t/b.o.d".to_string()), Some("/t/a.o.d".to_string())];
    let named = vec![Some(strings(&["/p/b.c", "/p/x.h"])), Some(strings(&["/p/x.h"]))];
    assert_eq!(
        tracked_input_paths(GNU, &sources, &depfiles, &named, &vec![], &fs, &vec![]),
        Ok(strings(&["/p/a.c", "/p/b.c", "/p/x.h"]))
    );
    let named = vec![Some(vec![]), None];
    assert_eq!(
        tracked_input_paths(GNU, &sources, &depfiles, &named, &vec![], &fs, &vec![]),
        Err("failed to parse native depfile `/t/a.o.d`".to_string())
    );
}

#[test]
fn what_build_scripts_printed() {
    let mut a = output(2);
    a.metadata = vec![
        ("include".to_string(), "/b".to_string()),
        ("root".to_string(), "/r".to_string()),
        ("include".to_string(), "/a".to_string()),
    ];
    let outputs = BuildScriptOutputs { outputs: vec![(7, a), (8, output(1))] };
    let mut old = output(9);
    old.metadata = vec![("include".to_string(), "/old".to_string())];
    let previous = vec![old];
    let ranks = |list: Vec<&BuildOutput>| list.iter().map(|o| o.rank).collect::<Vec<u32>>();
    assert_eq!(ranks(build_outputs_from_metadata(&outputs, &Some(vec![7, 5, 8]), &previous)), vec![1, 2]);
    assert_eq!(ranks(build_outputs_from_metadata(&outputs, &Some(vec![7, 7]), &previous)), vec![2]);
    assert_eq!(ranks(build_outputs_from_metadata(&outputs, &Some(vec![5]), &previous)), vec![9]);
    assert_eq!(ranks(build_outputs_from_metadata(&outputs, &None, &previous)), vec![9]);
    let dirs = |hashes: Option<Vec<u64>>| declared_include_dirs_from_metadata(&outputs, &hashes, &previous);
    assert_eq!(dirs(Some(vec![7])), strings(&["/a", "/b"]));
    assert_eq!(dirs(Some(vec![8])), strings(&["/old"]));
}

#[test]
fn dependencies_give_declared_or_public_directories() {
    let mut a = output(1);
    a.metadata = vec![("include".to_string(), "/gen".to_string())];
    let outputs = BuildScriptOutputs { outputs: vec![(1, a)] };
    let (one, none, empty) = (Some(vec![1]), None, vec![]);
    let list = vec![
        NativeDependencyDescriptor {
            output_path: None,
            public_include_dir: Some("/x/include".to_string()),
            build_script_metadatas: &one,
            previous_build_outputs: &empty,
        },
        NativeDependencyDescriptor {
            output_path: None,
            public_include_dir: Some("/y/include".to_string()),
            build_script_metadatas: &none,
            previous_build_outputs: &empty,
        },
        NativeDependencyDescriptor {
            output_path: None,
            public_include_dir: Some("/missing".to_string()),
            build_script_metadatas: &none,
            previous_build_outputs: &empty,
        },
        NativeDependencyDescriptor {
            output_path: None,
            public_include_dir: Some("/y/./include".to_string()),
            build_script_metadatas: &none,
            previous_build_outputs: &empty,
        },
    ];
    let fs = tree(&[], &["/x/include", "/y/include"]);
    assert_eq!(
        dependency_include_dirs_from_descriptors(&outputs, &fs, &list),
        strings(&["/gen", "/y/include"])
    );
    let mut paths = strings(&["/a/b"]);
    push_unique_path(&mut paths, "/a//b/");
    push_unique_path(&mut paths, "/c");
    assert_eq!(paths, strings(&["/a/b", "/c"]));
}

#[test]
fn linker_options_reach_those_they_are_for() {
    let applies = |kind: &LinkArgTarget, context: &NativeLinkContext| link_arg_applies_to(kind, context);
    let bin = context(true, CompileMode::Build);
    assert!(applies(&LinkArgTarget::All, &bin));
    assert!(applies(&LinkArgTarget::Bin, &bin));
    assert!(applies(&LinkArgTarget::SingleBin("app".to_string()), &bin));
    assert!(!applies(&LinkArgTarget::SingleBin("other".to_string()), &bin));
    assert!(!applies(&LinkArgTarget::Cdylib, &bin));
    assert!(!applies(&LinkArgTarget::Test, &bin));
    let mut shared = context(false, CompileMode::Build);
    shared.is_cdylib = true;
    assert!(applies(&LinkArgTarget::Cdylib, &shared));
    assert!(!applies(&LinkArgTarget::SingleBin("app".to_string()), &shared));
    shared.mode = CompileMode::Test;
    assert!(!applies(&LinkArgTarget::Cdylib, &shared));
    shared.mode = CompileMode::Check { test: true };
    assert!(!applies(&LinkArgTarget::Cdylib, &shared));
    shared.is_bench = true;
    shared.is_example = true;
    shared.is_test = true;
    assert!(applies(&LinkArgTarget::Bench, &shared));
    assert!(applies(&LinkArgTarget::Example, &shared));
    assert!(applies(&LinkArgTarget::Test, &shared));
}

#[test]
fn library_names_lose_their_kind_and_modifiers() {
    assert_eq!(native_link_library_name("z"), "z");
    assert_eq!(native_link_library_name("static=z"), "z");
    assert_eq!(native_link_library_name("static:+whole=z:name"), "z");
    assert_eq!(native_link_library_name("dylib=a=b"), "a=b");
    assert_eq!(native_link_library_name("z:other"), "z");
}

#[test]
fn inputs_of_a_link_become_options() {
    let mut a = output(1);
    a.library_paths = vec![LibraryPath::External("/e".to_string()), LibraryPath::CargoArtifact("/t".to_string())];
    a.library_links = strings(&["static=z"]);
    a.linker_args = vec![
        (LinkArgTarget::Bin, "-bin".to_string()),
        (LinkArgTarget::Test, "-test".to_string()),
    ];
    let mut inputs = no_inputs();
    inputs.build_outputs = vec![&a];
    inputs.manifest_library_search_dirs = strings(&["/m"]);
    inputs.manifest_library_links = strings(&["y"]);
    inputs.manifest_link_args = strings(&["-m"]);
    let mut cmd = Command::new(&OsText::new("ld"), &vec![]);
    apply_build_output_link_inputs(&mut cmd, GNU, &inputs, &context(true, CompileMode::Build));
    assert_eq!(
        cmd.args,
        strings(&["-L", "/t", "-L", "/e", "-L", "/m", "-bin", "-m", "-lz", "-ly"])
    );
    let mut cmd = Command::new(&OsText::new("link"), &vec![]);
    apply_build_output_link_inputs(&mut cmd, MSVC, &inputs, &context(false, CompileMode::Build));
    assert_eq!(
        cmd.args,
        strings(&["/LIBPATH:/t", "/LIBPATH:/e", "/LIBPATH:/m", "-m", "z.lib", "y.lib"])
    );
}

#[test]
fn sources_are_compiled_by_the_compiler_for_their_language() {
    let t = toolchain(GNU);
    assert_eq!(compiler_for_source(&t, NativeSourceLanguage::C).as_str(), "cc");
    assert_eq!(compiler_for_source(&t, NativeSourceLanguage::Cpp).as_str(), "c++");
    assert_eq!(linker_for_target(&t, false).as_str(), "cc");
    assert_eq!(linker_for_target(&t, true).as_str(), "c++");
    let (p, e, f, c, d) =
        (strings(&["-p"]), strings(&["-e"]), strings(&["-f"]), strings(&["-c1"]), strings(&["-d"]));
    let args = CompileArgs {
        profile_args: &p,
        env_args: &e,
        feature_args: &f,
        cfg_args: &c,
        native_define_args: &d,
    };
    let dirs = strings(&["/i", "/j"]);
    let cmd = build_compile_object_command(
        &t, &args, NativeSourceLanguage::Cpp, "a.cc", "a.o", &Some("a.o.d".to_string()), &dirs,
    );
    assert_eq!(
        command_arguments(&cmd),
        strings(&[
            "c++", "-p", "-e", "-f", "-c1", "-d", "-c", "a.cc", "-o", "a.o", "-MMD", "-MF", "a.o.d", "-I", "/i",
            "-I", "/j",
        ])
    );
    assert_eq!(cmd.env, t.env);
    let cmd = build_compile_object_command(
        &toolchain(MSVC), &args, NativeSourceLanguage::C, "a.c", "a.obj", &None, &dirs,
    );
    assert_eq!(
        command_arguments(&cmd),
        strings(&[
            "cc", "/nologo", "-p", "-e", "-f", "-c1", "-d", "/c", "a.c", "/Foa.obj", "/I/i", "/I/j",
        ])
    );
}

#[test]
fn archives_are_made_by_the_archiver() {
    let objects = strings(&["a.o", "b.o"]);
    let cmd = archive_library(&toolchain(GNU), &objects, "libx.a", "x").unwrap();
    assert_eq!(command_arguments(&cmd), strings(&["ar", "crs", "libx.a", "a.o", "b.o"]));
    let cmd = archive_library(&toolchain(MSVC), &objects, "x.lib", "x").unwrap();
    assert_eq!(command_arguments(&cmd), strings(&["ar", "/nologo", "/OUT:x.lib", "a.o", "b.o"]));
    let mut t = toolchain(GNU);
    t.ar = None;
    assert_eq!(
        archive_library(&t, &objects, "libx.a", "x").unwrap_err(),
        "failed to find an archiver for native C++ target `x`; set the AR environment variable"
    );
}

#[test]
fn binaries_and_shared_libraries_are_linked() {
    let (p, e, o) = (strings(&["-p"]), strings(&["-e"]), strings(&["a.o"]));
    let mut inputs = no_inputs();
    inputs.dependency_libraries = strings(&["/t/libd.a"]);
    inputs.manifest_library_links = strings(&["z"]);
    let c = context(true, CompileMode::Build);
    let cmd = link_binary(&toolchain(GNU), &p, &e, true, &o, "app", &inputs, &c);
    assert_eq!(
        command_arguments(&cmd),
        strings(&["c++", "a.o", "-p", "-e", "-lz", "-o", "app", "/t/libd.a"])
    );
    let cmd = link_binary(&toolchain(MSVC), &p, &e, false, &o, "app.exe", &inputs, &c);
    assert_eq!(
        command_arguments(&cmd),
        strings(&["cc", "/nologo", "a.o", "-p", "-e", "z.lib", "/Feapp.exe", "/t/libd.a"])
    );
    let cmd = link_shared_library(&toolchain(GNU), &p, &e, false, &o, "libx.so", &inputs, &c);
    assert_eq!(
        command_arguments(&cmd),
        strings(&["cc", "a.o", "-p", "-e", "-lz", "-shared", "-o", "libx.so", "/t/libd.a"])
    );
    let cmd = link_shared_library(&toolchain(MSVC), &p, &e, true, &o, "x.dll", &inputs, &c);
    assert_eq!(
        command_arguments(&cmd),
        strings(&["c++", "/nologo", "/LD", "a.o", "-p", "-e", "z.lib", "/Fex.dll", "/t/libd.a"])
    );
}

fn native_target(name: &str, source: &str) -> NativeTarget {
    NativeTarget {
        name: name.to_string(),
        source: Some(source.to_string()),
        is_native: true,
        is_header_only: false,
        is_linkable: false,
        is_bin: false,
        is_cdylib: false,
        is_dylib: false,
        is_staticlib: false,
        is_test: false,
        is_bench: false,
        is_exe_example: false,
        native_include_root: None,
        native_sources_root: None,
        native_sources_walk: vec![],
        native_include_dirs: vec![],
        native_defines: vec![],
        native_link_search: vec![],
        native_link_libraries: vec![],
        native_link_args: vec![],
    }
}

fn file(path: &str, flavor: FileFlavor) -> OutputFile {
    OutputFile { path: path.to_string(), hardlink: None, export_path: None, flavor }
}

fn unit(root: &str, id: u64, target: NativeTarget, output: &str, deps: &[usize]) -> Unit {
    Unit {
        package_root: root.to_string(),
        package_id: id,
        target,
        mode: CompileMode::Build,
        kind: 0,
        profile: NativeProfile {
            opt_level: "0".to_string(),
            debuginfo: false,
            debug_assertions: true,
            lto: Lto::Bool(false),
            strip: Strip::Nothing,
        },
        features: vec![],
        outputs: Ok(vec![file(output, FileFlavor::Normal)]),
        build_script_metadatas: None,
        previous_build_outputs: vec![],
        deps: deps.to_vec(),
    }
}

fn static_lib(root: &str, id: u64, deps: &[usize]) -> Unit {
    let mut t = native_target("lib", &format!("{root}/src/lib.c"));
    t.is_linkable = true;
    t.is_staticlib = true;
    t.native_include_root = Some(format!("{root}/include"));
    unit(root, id, t, &format!("/t{root}/liblib.a"), deps)
}

fn app(deps: &[usize]) -> Unit {
    let mut t = native_target("app", "/app/src/main.cpp");
    t.is_bin = true;
    unit("/app", 1, t, "/t/app", deps)
}

fn build_context() -> BuildContext {
    let settings = || NativeSettings {
        native_cc: None,
        native_cxx: None,
        native_ar: None,
        native_cflags: None,
        native_cppflags: None,
        native_cxxflags: None,
        native_ldflags: None,
    };
    BuildContext {
        env: EnvVars {
            vars: vec![EnvVar {
                name: "LDFLAGS".to_string(),
                value: OsText::new("-Wl,-z"),
            }],
            ignores_case: false,
        },
        found: FoundTools {
            tools: [("cc", "/bin/cc"), ("c++", "/bin/c++"), ("ar", "/bin/ar")]
                .iter()
                .map(|(a, b)| (a.to_string(), OsText::new(b)))
                .collect(),
        },
        rule: PathRule::Unix,
        fs: tree(&[], &["/a/include", "/b/include", "/h/include"]),
        kinds: vec![KindContext {
            target_triple: "x86_64-unknown-linux-gnu".to_string(),
            config: NativeConfig { build: Ok(settings()), target: Ok(settings()) },
            cfgs: vec![Cfg::Name("unix".to_string())],
            msvc: None,
        }],
        root_packages: vec![1],
    }
}

fn nothing_printed() -> BuildScriptOutputs {
    BuildScriptOutputs { outputs: vec![] }
}

fn chain() -> UnitGraph {
    UnitGraph { units: vec![app(&[1]), static_lib("/a", 2, &[2, 3]), static_lib("/b", 3, &[1]), headers()] }
}

fn headers() -> Unit {
    let mut t = native_target("h", "/h/include");
    t.is_header_only = true;
    t.native_include_root = Some("/h/include".to_string());
    let mut u = unit("/h", 4, t, "", &[]);
    u.outputs = Ok(vec![]);
    u
}

#[test]
fn dependencies_are_met_once_and_depth_first() {
    let graph = chain();
    assert_eq!(transitive_native_dependency_units(&graph, 0), vec![1, 2, 3]);
    assert_eq!(transitive_native_dependency_units(&graph, 2), vec![1, 2, 3]);
    let list = transitive_native_dependency_descriptors(&graph, 0).unwrap();
    let shown: Vec<(Option<&str>, Option<&str>)> = list
        .iter()
        .map(|d| (d.output_path.as_deref(), d.public_include_dir.as_deref()))
        .collect();
    assert_eq!(
        shown,
        vec![
            (Some("/t/a/liblib.a"), Some("/a/include")),
            (Some("/t/b/liblib.a"), Some("/b/include")),
            (None, Some("/h/include")),
        ]
    );
    let inputs = native_link_inputs_from_descriptors(&nothing_printed(), &list, &None, &vec![]).dependency_libraries;
    assert_eq!(inputs, strings(&["/t/a/liblib.a", "/t/b/liblib.a"]));
}

#[test]
fn units_that_give_nothing_are_not_followed() {
    let mut graph = chain();
    graph.units[1].mode = CompileMode::Doc;
    assert!(transitive_native_dependency_units(&graph, 0).is_empty());
    let mut graph = chain();
    graph.units[1].target.is_native = false;
    assert!(transitive_native_dependency_units(&graph, 0).is_empty());
    let mut graph = chain();
    graph.units[2].outputs = Err("no files".to_string());
    assert_eq!(transitive_native_dependency_descriptors(&graph, 0).unwrap_err(), "no files");
}

#[test]
fn the_primary_output_is_the_first_normal_one() {
    let list = vec![
        file("a.d", FileFlavor::DebugInfo),
        file("a", FileFlavor::Normal),
        file("b", FileFlavor::Normal),
    ];
    assert_eq!(primary_output_of(&list), Some("a".to_string()));
    assert_eq!(primary_output_of(&vec![]), None);
}

fn run_lines(steps: &[Step]) -> Vec<Vec<String>> {
    steps
        .iter()
        .filter_map(|s| match s {
            Step::Run(cmd) => Some(command_arguments(cmd)),
            _ => None,
        })
        .collect()
}

#[test]
fn a_binary_is_compiled_with_and_linked_to_its_dependencies() {
    let ctx = build_context();
    let graph = chain();
    let work = compile(&ctx, &graph, 0).unwrap().unwrap();
    let plan = work.plan(&ctx.env, &nothing_printed(), &ctx.fs);
    assert_eq!(plan.include_dirs, strings(&["/a/include", "/app/src", "/b/include", "/h/include"]));
    assert_eq!(plan.depfiles, vec![Some("/t/app.native/src/main.o.d".to_string())]);
    let dirs: Vec<&str> = plan
        .steps
        .iter()
        .filter_map(|s| match s {
            Step::CreateDir(dir) => Some(dir.as_str()),
            _ => None,
        })
        .collect();
    assert_eq!(dirs, vec!["/t", "/t/app.native/src"]);
    assert_eq!(
        run_lines(&plan.steps),
        vec![
            strings(&[
                "/bin/c++", "-O0", "-UNDEBUG", "-DCARGO_CFG_DEBUG_ASSERTIONS=1", "-DCARGO_CFG_UNIX=1", "-c",
                "/app/src/main.cpp", "-o", "/t/app.native/src/main.o", "-MMD", "-MF",
                "/t/app.native/src/main.o.d", "-I", "/a/include", "-I", "/app/src", "-I", "/b/include", "-I",
                "/h/include",
            ]),
            strings(&[
                "/bin/c++", "/t/app.native/src/main.o", "-Wl,-z", "-o", "/t/app", "/t/a/liblib.a",
                "/t/b/liblib.a",
            ]),
        ]
    );
}

#[test]
fn a_static_library_is_archived() {
    let ctx = build_context();
    let graph = chain();
    let work = compile(&ctx, &graph, 1).unwrap().unwrap();
    let plan = work.plan(&ctx.env, &nothing_printed(), &ctx.fs);
    let lines = run_lines(&plan.steps);
    assert_eq!(lines.len(), 2);
    assert_eq!(lines[0][0], "/bin/cc");
    assert_eq!(
        lines[1],
        strings(&["/bin/ar", "crs", "/t/a/liblib.a", "/t/a/liblib.a.native/src/lib.o"])
    );
}

#[test]
fn a_library_of_headers_is_not_built() {
    let ctx = build_context();
    assert!(compile(&ctx, &chain(), 3).unwrap().is_none());
    assert!(compile_commands_for_unit(&ctx, &nothing_printed(), &chain(), 3).unwrap().is_empty());
    let mut unnamed = headers();
    unnamed.outputs = Ok(vec![OutputFile {
        path: "/".to_string(),
        hardlink: None,
        export_path: None,
        flavor: FileFlavor::Normal,
    }]);
    let graph = UnitGraph { units: vec![unnamed] };
    assert!(compile_commands_for_unit(&ctx, &nothing_printed(), &graph, 0).unwrap().is_empty());
    assert!(write_compile_commands(&ctx, &nothing_printed(), &graph).unwrap().is_empty());
}

#[test]
fn settings_of_a_dependency_stay_with_it() {
    let ctx = build_context();
    let plain = chain();
    let mut set = chain();
    set.units[1].target.native_defines = strings(&["SECRET=1"]);
    set.units[1].target.native_include_dirs = strings(&["/a/private"]);
    set.units[1].target.native_link_args = strings(&["-Wl,-q"]);
    let lines = |graph: &UnitGraph, u: usize| {
        let work = compile(&ctx, graph, u).unwrap().unwrap();
        run_lines(&work.plan(&ctx.env, &nothing_printed(), &ctx.fs).steps)
    };
    assert_eq!(lines(&set, 0), lines(&plain, 0));
    assert_ne!(lines(&set, 1), lines(&plain, 1));
    assert!(lines(&set, 1)[0].contains(&"-DSECRET=1".to_string()));
}

#[test]
fn what_stops_a_build_is_told() {
    let mut ctx = build_context();
    let mut graph = chain();
    graph.units[0].target.source = None;
    assert_eq!(compile(&ctx, &graph, 0).unwrap_err(), "native targets require a source path");
    let mut graph = chain();
    graph.units[0].outputs = Ok(vec![file("/t/x", FileFlavor::Rmeta)]);
    let plan = compile(&ctx, &graph, 0).unwrap().unwrap().plan(&ctx.env, &nothing_printed(), &ctx.fs);
    assert!(matches!(
        plan.steps.last(),
        Some(Step::Fail(e)) if e == "native target is missing a primary output"
    ));
    let mut graph = chain();
    graph.units[0].target.source = Some("/app/src/main.rs".to_string());
    let plan = compile(&ctx, &graph, 0).unwrap().unwrap().plan(&ctx.env, &nothing_printed(), &ctx.fs);
    assert!(run_lines(&plan.steps).is_empty());
    assert!(matches!(
        plan.steps.last(),
        Some(Step::Fail(e)) if e == "native target contains a non-native source file"
    ));
    ctx.found.tools.clear();
    assert!(compile(&ctx, &chain(), 0).unwrap_err().starts_with("failed to find a C compiler"));
}

#[test]
fn mixed_sources() {
    assert!(has_cpp_sources(&strings(&["a.c", "b.cc"])));
    assert!(!has_cpp_sources(&strings(&["a.c"])));
    let ctx = build_context();
    let mut graph = chain();
    graph.units[0].target.native_sources_root = Some("/a/include".to_string());
    graph.units[0].target.native_sources_walk = walk(&[("/app/src/extra.c", WalkKind::File)]);
    let work = compile(&ctx, &graph, 0).unwrap().unwrap();
    let lines = run_lines(&work.plan(&ctx.env, &nothing_printed(), &ctx.fs).steps);
    let programs: Vec<&str> = lines.iter().map(|l| l[0].as_str()).collect();
    assert_eq!(programs, vec!["/bin/cc", "/bin/c++", "/bin/c++"]);
}

#[test]
fn modes_have_priorities() {
    assert_eq!(compile_mode_priority(CompileMode::Build), 0);
    assert_eq!(compile_mode_priority(CompileMode::Test), 1);
    assert_eq!(compile_mode_priority(CompileMode::Check { test: false }), 2);
    assert_eq!(compile_mode_priority(CompileMode::Check { test: true }), 3);
    assert_eq!(compile_mode_priority(CompileMode::Doctest), 4);
    assert_eq!(compile_mode_priority(CompileMode::Doc), 5);
    assert_eq!(compile_mode_priority(CompileMode::RunCustomBuild), 5);
}

fn candidate(file: &str, priority: (u8, u8, &str)) -> CompileCommandCandidate {
    CompileCommandCandidate {
        key: ("/p".to_string(), file.to_string()),
        command: CompileCommand {
            directory: "/p".to_string(),
            file: file.to_string(),
            arguments: strings(&["cc", priority.2]),
            output: Some(priority.2.to_string()),
        },
        priority: (priority.0, priority.1, priority.2.to_string()),
    }
}

#[test]
fn one_command_is_chosen_for_each_source() {
    let list = vec![
        candidate("/p/b.c", (1, 0, "x.o")),
        candidate("/p/a.c", (0, 1, "y.o")),
        candidate("/p/a.c", (0, 0, "z.o")),
        candidate("/p/b.c", (0, 5, "w.o")),
        candidate("/p/a.c", (0, 0, "m.o")),
    ];
    let chosen: Vec<(String, Option<String>)> =
        choose_compile_commands(&list).into_iter().map(|c| (c.file, c.output)).collect();
    assert_eq!(
        chosen,
        vec![
            ("/p/a.c".to_string(), Some("m.o".to_string())),
            ("/p/b.c".to_string(), Some("w.o".to_string())),
        ]
    );
}

#[test]
fn the_database_lists_each_source_once() {
    let ctx = build_context();
    let mut graph = chain();
    let mut test = app(&[1]);
    test.mode = CompileMode::Test;
    test.outputs = Ok(vec![file("/t/app-test", FileFlavor::Normal)]);
    graph.units.push(test);
    let list = write_compile_commands(&ctx, &nothing_printed(), &graph).unwrap();
    let shown: Vec<(&str, &str, &str)> = list
        .iter()
        .map(|c| (c.directory.as_str(), c.file.as_str(), c.output.as_deref().unwrap()))
        .collect();
    assert_eq!(
        shown,
        vec![
            ("/a", "/a/src/lib.c", "/t/a/liblib.a.native/src/lib.o"),
            ("/app", "/app/src/main.cpp", "/t/app.native/src/main.o"),
            ("/b", "/b/src/lib.c", "/t/b/liblib.a.native/src/lib.o"),
        ]
    );
    assert_eq!(list[1].arguments[0], "/bin/c++");
    let one = compile_commands_for_unit(&ctx, &nothing_printed(), &graph, 4).unwrap();
    assert_eq!(one[0].priority, (0, 1, "/t/app-test.native/src/main.o".to_string()));
    let dep = compile_commands_for_unit(&ctx, &nothing_printed(), &graph, 1).unwrap();
    assert_eq!((dep[0].priority.0, dep[0].priority.1), (1, 0));
    graph.units[2].outputs = Ok(vec![]);
    assert_eq!(
        write_compile_commands(&ctx, &nothing_printed(), &graph).unwrap_err(),
        "native target is missing a primary output"
    );
}
