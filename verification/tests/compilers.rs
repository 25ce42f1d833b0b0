use native_targets::command::{command_arguments, run_failure, Command};
use native_targets::config::{NativeConfig, NativeSettings, ToolSetting};
use native_targets::env::{EnvVar, EnvVars};
use native_targets::fs::{FsView, PathFact, PathKind};
use native_targets::native::{
    compiler_family, is_native_source_path, native_source_language, source_language,
    NativeCompilerFamily, NativeSourceLanguage,
};
use native_targets::os_text::OsText;
use native_targets::path::{program_name_of, PathRule};
use native_targets::toolchain::{
    detect_toolchain, find_vcvarsall, find_vswhere, msvc_environment_command,
    msvc_environment_failure, msvc_environment_vars, msvc_search_path, needs_msvc_environment,
    preferred_ar_candidates, preferred_cc_candidates, preferred_cxx_candidates, resolve_tool, resolve_tool_with_env,
    vcvarsall_arch, vcvarsall_from_output, vswhere_candidate, FoundTools, MsvcEnvironment,
    VcvarsallSearch,
};

const LINUX: &str = "x86_64-unknown-linux-gnu";
const MSVC: &str = "x86_64-pc-windows-msvc";

fn strings(list: &[&str]) -> Vec<String> {
    list.iter().map(|s| s.to_string()).collect()
}

fn pairs(list: &[(&str, &str)]) -> Vec<(String, String)> {
    list.iter().map(|(a, b)| (a.to_string(), b.to_string())).collect()
}

fn env(list: &[(&str, &str)]) -> EnvVars {
    EnvVars {
        vars: list
            .iter()
            .map(|(name, value)| EnvVar { name: name.to_string(), value: OsText::new(value) })
            .collect(),
        ignores_case: false,
    }
}

fn files(list: &[&str]) -> FsView {
    FsView {
        facts: list
            .iter()
            .map(|path| PathFact { path: path.to_string(), kind: PathKind::File })
            .collect(),
    }
}

fn found(list: &[(&str, &str)]) -> FoundTools {
    FoundTools { tools: list.iter().map(|(a, b)| (a.to_string(), OsText::new(b))).collect() }
}

fn settings() -> NativeSettings {
    NativeSettings {
        native_cc: None,
        native_cxx: None,
        native_ar: None,
        native_cflags: None,
        native_cppflags: None,
        native_cxxflags: None,
        native_ldflags: None,
    }
}

fn config() -> NativeConfig {
    NativeConfig { build: Ok(settings()), target: Ok(settings()) }
}

fn tool(path: &str) -> Option<ToolSetting> {
    Some(ToolSetting { raw: path.to_string(), program: path.to_string() })
}

#[test]
fn languages_follow_extensions() {
    assert!(matches!(source_language("src/a.c"), Some(NativeSourceLanguage::C)));
    assert!(matches!(source_language("src/a.cpp"), Some(NativeSourceLanguage::Cpp)));
    assert!(matches!(source_language("a.cc"), Some(NativeSourceLanguage::Cpp)));
    assert!(matches!(source_language("a.cxx"), Some(NativeSourceLanguage::Cpp)));
    assert!(source_language("a.rs").is_none());
    assert!(source_language("a.C").is_none());
    assert!(is_native_source_path("a.c") && !is_native_source_path("a.h"));
    assert!(!is_native_source_path(".c"));
    assert_eq!(native_source_language("a.c"), "C");
    assert_eq!(native_source_language("a.cc"), "C++");
}

#[test]
fn families_follow_program_names() {
    for name in ["cl.exe", "CL.EXE", "/x/clang-cl", "llvm-cl.exe"] {
        assert_eq!(compiler_family(name, PathRule::Unix), NativeCompilerFamily::MsvcLike, "{name}");
    }
    for name in ["g++", "clang++", "/usr/bin/cl/g++", "", "clang-cl-14"] {
        assert_eq!(compiler_family(name, PathRule::Unix), NativeCompilerFamily::GnuLike, "{name}");
    }
}

#[test]
fn candidates_follow_the_triple() {
    assert_eq!(
        preferred_cc_candidates(MSVC),
        strings(&["cl.exe", "clang-cl.exe", "clang.exe", "gcc.exe"])
    );
    assert_eq!(
        preferred_cxx_candidates("x86_64-pc-windows-gnullvm"),
        strings(&["clang++.exe", "g++.exe", "clang-cl.exe", "cl.exe"])
    );
    assert_eq!(
        preferred_cxx_candidates("x86_64-pc-windows-gnu"),
        strings(&["g++.exe", "clang++.exe", "cl.exe", "clang-cl.exe"])
    );
    assert_eq!(preferred_cc_candidates(LINUX), strings(&["cc", "gcc", "clang"]));
    assert_eq!(preferred_cxx_candidates(LINUX), strings(&["c++", "g++", "clang++"]));
    let gnu = NativeCompilerFamily::GnuLike;
    let msvc = NativeCompilerFamily::MsvcLike;
    assert_eq!(preferred_ar_candidates(LINUX, gnu), strings(&["ar", "llvm-ar"]));
    assert_eq!(preferred_ar_candidates(MSVC, msvc), strings(&["lib.exe", "llvm-lib.exe"]));
    assert_eq!(
        preferred_ar_candidates("x86_64-pc-windows-gnullvm", gnu),
        strings(&["llvm-ar", "ar"])
    );
}

#[test]
fn the_family_of_the_target_is_preferred() {
    let names = [
        "cl.exe", "clang-cl.exe", "g++.exe", "clang++.exe", "gcc.exe", "clang.exe", "lib.exe",
        "llvm-lib.exe", "ar", "llvm-ar",
    ];
    let tools = FoundTools {
        tools: names
            .iter()
            .map(|name| (name.to_string(), OsText::new(&format!("/tools/{name}"))))
            .collect(),
    };
    for (triple, cxx, ar) in [
        ("x86_64-pc-windows-msvc", "/tools/cl.exe", "/tools/lib.exe"),
        ("x86_64-pc-windows-gnullvm", "/tools/clang++.exe", "/tools/llvm-ar"),
        ("x86_64-pc-windows-gnu", "/tools/g++.exe", "/tools/ar"),
    ] {
        let t = detect_toolchain(triple, &env(&[]), &config(), &tools, &files(&[]), &None, PathRule::Unix).unwrap();
        assert_eq!((t.cxx.as_str(), t.ar.as_ref().map(|ar| ar.as_str())), (cxx, Some(ar)), "{triple}");
    }
}

#[test]
fn the_first_candidate_that_is_found_is_taken() {
    let tools = found(&[("gcc", "/bin/gcc"), ("clang", "/bin/clang")]);
    assert_eq!(
        resolve_tool(&tools, &strings(&["cc", "gcc", "clang"])),
        Some(OsText::new("/bin/gcc"))
    );
    assert_eq!(resolve_tool(&tools, &strings(&["cc"])), None);
    let fs = files(&["/vs/b/clang", "/vs/a/clang", "/vs/b/cl"]);
    assert_eq!(
        resolve_tool_with_env(&fs, &tools, &strings(&["/vs/b", "/vs/a"]), &strings(&["cl", "clang"])),
        Some(OsText::new("/vs/b/cl"))
    );
    assert_eq!(
        resolve_tool_with_env(&fs, &tools, &strings(&["/vs/c"]), &strings(&["clang"])),
        Some(OsText::new("/bin/clang"))
    );
}

#[test]
fn variables_come_before_the_configuration_and_the_search_path() {
    let tools = found(&[("cc", "/bin/cc"), ("c++", "/bin/c++"), ("ar", "/bin/ar")]);
    let fs = files(&[]);
    let t = detect_toolchain(LINUX, &env(&[]), &config(), &tools, &fs, &None, PathRule::Unix).unwrap();
    assert_eq!((t.cc.as_str(), t.cxx.as_str(), t.ar.as_ref().map(|ar| ar.as_str())), ("/bin/cc", "/bin/c++", Some("/bin/ar")));
    assert_eq!(t.family, NativeCompilerFamily::GnuLike);
    assert!(t.env.is_empty() && t.init_script.is_none());

    let mut c = config();
    let mut build = settings();
    build.native_cc = tool("build-cc");
    build.native_cxx = tool("build-cxx");
    c.build = Ok(build);
    let mut target = settings();
    target.native_cc = tool("target-cc");
    c.target = Ok(target);
    let t = detect_toolchain(LINUX, &env(&[]), &c, &tools, &fs, &None, PathRule::Unix).unwrap();
    assert_eq!((t.cc.as_str(), t.cxx.as_str()), ("target-cc", "build-cxx"));

    let e = env(&[("CC", "env-cc"), ("CC_X86_64_UNKNOWN_LINUX_GNU", "scoped-cc"), ("CXX", "clang-cl")]);
    let t = detect_toolchain(LINUX, &e, &c, &tools, &fs, &None, PathRule::Unix).unwrap();
    assert_eq!((t.cc.as_str(), t.cxx.as_str()), ("scoped-cc", "clang-cl"));
    assert_eq!(t.family, NativeCompilerFamily::MsvcLike);
    assert_eq!(t.ar, None);
}

#[test]
fn a_missing_cxx_compiler_is_replaced_by_the_c_compiler() {
    let tools = found(&[("gcc", "/bin/gcc")]);
    let t = detect_toolchain(LINUX, &env(&[]), &config(), &tools, &files(&[]), &None, PathRule::Unix).unwrap();
    assert_eq!((t.cc.as_str(), t.cxx.as_str(), t.ar), ("/bin/gcc", "/bin/gcc", None));
}

#[test]
fn a_missing_c_compiler_is_told() {
    let e = detect_toolchain(LINUX, &env(&[]), &config(), &found(&[]), &files(&[]), &None, PathRule::Unix);
    assert_eq!(
        e.unwrap_err(),
        "failed to find a C compiler for target `x86_64-unknown-linux-gnu`; set CC, \
         `build.native-cc`, `target.x86_64-unknown-linux-gnu.native-cc`, or install one of: cc, gcc, clang"
    );
}

#[test]
fn a_table_that_cannot_be_read_stops_the_search() {
    let c = NativeConfig { build: Ok(settings()), target: Err("bad".to_string()) };
    let e = detect_toolchain(LINUX, &env(&[]), &c, &found(&[("cc", "cc")]), &files(&[]), &None, PathRule::Unix);
    assert_eq!(e.unwrap_err(), "bad");
}

#[test]
fn the_msvc_environment_is_loaded_only_where_nothing_else_is_there() {
    let none = found(&[]);
    assert_eq!(needs_msvc_environment(MSVC, &env(&[]), &config(), &none), Ok(true));
    assert_eq!(needs_msvc_environment(LINUX, &env(&[]), &config(), &none), Ok(false));
    let cl = found(&[("cl.exe", "C:/cl.exe")]);
    assert_eq!(needs_msvc_environment(MSVC, &env(&[]), &config(), &cl), Ok(false));
    let scoped = env(&[("CXX_X86_64_PC_WINDOWS_MSVC", "x")]);
    assert_eq!(needs_msvc_environment(MSVC, &scoped, &config(), &none), Ok(false));
    assert_eq!(needs_msvc_environment(MSVC, &env(&[("CC", "x")]), &config(), &none), Ok(true));
    let msvc = Some(MsvcEnvironment {
        vars: pairs(&[("INCLUDE", "i"), ("PATH", "p")]),
        path_dirs: strings(&["/vc/bin"]),
        script: OsText::new("/vc/vcvarsall.bat"),
    });
    let fs = files(&["/vc/bin/cl.exe", "/vc/bin/lib.exe"]);
    let t = detect_toolchain(MSVC, &env(&[]), &config(), &none, &fs, &msvc, PathRule::Unix).unwrap();
    assert_eq!((t.cc.as_str(), t.cxx.as_str()), ("/vc/bin/cl.exe", "/vc/bin/cl.exe"));
    assert_eq!(t.ar.as_ref().map(|ar| ar.as_str()), Some("/vc/bin/lib.exe"));
    assert_eq!(t.env, pairs(&[("INCLUDE", "i"), ("PATH", "p")]));
    assert_eq!(t.init_script.as_ref().map(|s| s.as_str()), Some("/vc/vcvarsall.bat"));
    let t = detect_toolchain(MSVC, &env(&[]), &config(), &cl, &fs, &msvc, PathRule::Unix).unwrap();
    assert_eq!(t.cc.as_str(), "C:/cl.exe");
    assert!(t.env.is_empty() && t.init_script.is_none());
}

#[test]
fn architectures_of_the_script() {
    let x64 = "x86_64-pc-windows-msvc";
    let arm = "aarch64-pc-windows-msvc";
    assert_eq!(vcvarsall_arch(x64, arm), "x64");
    assert_eq!(vcvarsall_arch("i686-pc-windows-msvc", x64), "amd64_x86");
    assert_eq!(vcvarsall_arch("i586-pc-windows-msvc", arm), "x86");
    assert_eq!(vcvarsall_arch(arm, x64), "amd64_arm64");
    assert_eq!(vcvarsall_arch(arm, arm), "arm64");
    assert_eq!(vcvarsall_arch("thumbv7a-pc-windows-msvc", x64), "x64");
}

#[test]
fn vswhere_is_found_on_the_search_path_or_below_the_programs() {
    let e = env(&[("ProgramFiles(x86)", "/pf86"), ("ProgramFiles", "/pf")]);
    let place = "/pf86/Microsoft Visual Studio/Installer/vswhere.exe";
    assert_eq!(vswhere_candidate(&e), Some(place.to_string()));
    assert_eq!(find_vswhere(&e, &found(&[]), &files(&[])), None);
    assert_eq!(find_vswhere(&e, &found(&[]), &files(&[place])), Some(OsText::new(place)));
    let tools = found(&[("vswhere.exe", "/bin/vswhere.exe")]);
    assert_eq!(find_vswhere(&e, &tools, &files(&[place])), Some(OsText::new("/bin/vswhere.exe")));
    assert_eq!(find_vswhere(&env(&[]), &found(&[]), &files(&[place])), None);
}

#[test]
fn the_script_is_set_or_asked_for() {
    let e = env(&[("CARGO_NATIVE_MSVC_VCVARSALL", "/my/vcvarsall.bat")]);
    assert!(matches!(
        find_vcvarsall(&e, &found(&[]), &files(&[])),
        VcvarsallSearch::Script(s) if s == OsText::new("/my/vcvarsall.bat")
    ));
    assert!(matches!(
        find_vcvarsall(&env(&[]), &found(&[]), &files(&[])),
        VcvarsallSearch::Nowhere
    ));
    match find_vcvarsall(&env(&[]), &found(&[("vswhere.exe", "/v.exe")]), &files(&[])) {
        VcvarsallSearch::Query(cmd) => {
            assert_eq!(
                command_arguments(&cmd),
                strings(&[
                    "/v.exe",
                    "-latest",
                    "-products",
                    "*",
                    "-requires",
                    "Microsoft.VisualStudio.Component.VC.Tools.x86.x64",
                    "-find",
                    "VC\\Auxiliary\\Build\\vcvarsall.bat",
                ])
            );
        }
        other => panic!("{other:?}"),
    }
    assert_eq!(
        vcvarsall_from_output("\r\n  \n  C:\\vc all.bat \r\nother\n"),
        Some("C:\\vc all.bat".to_string())
    );
    assert_eq!(vcvarsall_from_output(" \n\n"), None);
}

#[test]
fn the_environment_is_listed_and_read() {
    let cmd = msvc_environment_command(&env(&[]), "/vc all.bat", MSVC, MSVC);
    assert_eq!(
        command_arguments(&cmd),
        strings(&["cmd.exe", "/d", "/c", "call \"/vc all.bat\" x64 >nul && set"])
    );
    let shell = env(&[("ComSpec", "/cmd")]);
    assert_eq!(msvc_environment_command(&shell, "s", MSVC, MSVC).program, OsText::new("/cmd"));
    assert_eq!(
        msvc_environment_vars("PATH=a;b\r\n=C:=x\nnone\nA=1=2\nPATH=c\n"),
        pairs(&[("A", "1=2"), ("PATH", "c")])
    );
    assert_eq!(
        msvc_environment_failure("/vc.bat"),
        "failed to initialize MSVC environment with `/vc.bat`"
    );
}

#[test]
fn commands_are_a_program_and_arguments() {
    let mut cmd = Command::new(&OsText::new("cc"), &pairs(&[("A", "1")]));
    cmd.arg("-c");
    cmd.append_args(&strings(&["x.c", "-g"]));
    assert_eq!(command_arguments(&cmd), strings(&["cc", "-c", "x.c", "-g"]));
    assert_eq!(cmd.env, pairs(&[("A", "1")]));
    assert_eq!(run_failure("app"), "failed to build native C++ target `app`");
}

#[test]
fn windows_hosts_separate_names_by_both_slashes() {
    let windows = PathRule::Windows;
    for name in ["C:\\tools\\cl.exe", "C:cl.exe", "C:/tools\\CL.EXE", "\\\\srv\\share\\clang-cl.exe"] {
        assert_eq!(compiler_family(name, windows), NativeCompilerFamily::MsvcLike, "{name}");
    }
    assert_eq!(compiler_family("C:\\cl.exe\\g++.exe", windows), NativeCompilerFamily::GnuLike);
    assert_eq!(compiler_family("C:\\tools\\cl.exe", PathRule::Unix), NativeCompilerFamily::GnuLike);
    assert_eq!(program_name_of("C:\\a\\..", windows), None);
    assert_eq!(program_name_of("C:\\", windows), None);
    assert_eq!(program_name_of("ab:\\x", windows), Some("x".to_string()));
    assert_eq!(program_name_of("a\\b", PathRule::Unix), Some("a\\b".to_string()));

    let tools = found(&[("cl.exe", "C:\\vc\\cl.exe"), ("lib.exe", "C:\\vc\\lib.exe")]);
    let t = detect_toolchain(MSVC, &env(&[]), &config(), &tools, &files(&[]), &None, windows).unwrap();
    assert_eq!(t.family, NativeCompilerFamily::MsvcLike);
    assert_eq!(t.ar, Some(OsText::new("C:\\vc\\lib.exe")));
}

#[test]
fn tools_that_are_not_utf8_are_carried_as_they_are() {
    let raw = || OsText { text: "/\u{fffd}/cc".to_string(), bytes: Some(b"/\xff/cc".to_vec()) };
    let e = EnvVars { vars: vec![EnvVar { name: "CC".to_string(), value: raw() }], ignores_case: false };
    let t = detect_toolchain(LINUX, &e, &config(), &found(&[]), &files(&[]), &None, PathRule::Unix)
        .unwrap();
    assert_eq!((t.cc, t.cxx), (raw(), raw()));
    let cmd = Command::new(&raw(), &pairs(&[]));
    assert_eq!(cmd.program, raw());
    assert_eq!(command_arguments(&cmd), strings(&["/\u{fffd}/cc"]));
    assert!(raw() != OsText::new("/\u{fffd}/cc"));
}

#[test]
fn the_search_path_of_an_environment_is_its_variable() {
    assert_eq!(msvc_search_path(&pairs(&[("A", "1"), ("PATH", "p;q")])), Some("p;q".to_string()));
    assert_eq!(msvc_search_path(&pairs(&[("PATH", "")])), Some(String::new()));
    assert_eq!(msvc_search_path(&pairs(&[("Path", "p")])), None);
}
