use native_targets::native::NativeCompilerFamily;
use native_targets::profile::{
    envify, native_cfg_args, native_crt_compile_args, native_crt_link_args,
    native_crt_static_enabled, native_define_args, native_feature_args, native_gnu_crt_link_args,
    native_profile_compile_args, native_profile_link_args, native_shared_compile_args, Cfg, Lto,
    NativeProfile, Strip,
};

const GNU: NativeCompilerFamily = NativeCompilerFamily::GnuLike;
const MSVC: NativeCompilerFamily = NativeCompilerFamily::MsvcLike;

fn strings(list: &[&str]) -> Vec<String> {
    list.iter().map(|s| s.to_string()).collect()
}

fn profile(opt_level: &str) -> NativeProfile {
    NativeProfile {
        opt_level: opt_level.to_string(),
        debuginfo: false,
        debug_assertions: false,
        lto: Lto::Bool(false),
        strip: Strip::Nothing,
    }
}

#[test]
fn gnu_crt_link_args_include_runtime_flags_on_windows_gnu() {
    assert_eq!(
        native_gnu_crt_link_args("x86_64-pc-windows-gnu", true),
        vec![
            String::from("-static-libgcc"),
            String::from("-static-libstdc++"),
        ]
    );
}

#[test]
fn gnu_crt_link_args_skip_runtime_flags_on_windows_gnullvm() {
    assert!(native_gnu_crt_link_args("x86_64-pc-windows-gnullvm", true).is_empty());
}

#[test]
fn gnu_crt_link_args_include_libgcc_without_cpp_runtime_for_c_only_targets() {
    assert_eq!(
        native_gnu_crt_link_args("x86_64-unknown-linux-gnu", false),
        vec![String::from("-static-libgcc")]
    );
}

#[test]
fn profile_compile_args_follow_the_level() {
    assert_eq!(native_profile_compile_args(&profile("0"), GNU), strings(&["-O0", "-DNDEBUG"]));
    assert_eq!(native_profile_compile_args(&profile("3"), GNU), strings(&["-O3", "-DNDEBUG"]));
    assert_eq!(native_profile_compile_args(&profile("s"), GNU), strings(&["-Os", "-DNDEBUG"]));
    assert_eq!(native_profile_compile_args(&profile("z"), GNU), strings(&["-Os", "-DNDEBUG"]));
    assert_eq!(native_profile_compile_args(&profile("0"), MSVC), strings(&["/Od", "/DNDEBUG"]));
    assert_eq!(native_profile_compile_args(&profile("1"), MSVC), strings(&["/O1", "/DNDEBUG"]));
    assert_eq!(native_profile_compile_args(&profile("3"), MSVC), strings(&["/O2", "/DNDEBUG"]));
}

#[test]
fn profile_compile_args_follow_the_switches() {
    let mut p = profile("2");
    p.debuginfo = true;
    p.debug_assertions = true;
    p.lto = Lto::Named("thin".to_string());
    assert_eq!(
        native_profile_compile_args(&p, GNU),
        strings(&["-O2", "-g", "-flto=thin", "-UNDEBUG"])
    );
    assert_eq!(
        native_profile_compile_args(&p, MSVC),
        strings(&["/O2", "/Z7", "/GL", "/UNDEBUG"])
    );
    p.lto = Lto::Bool(true);
    assert_eq!(
        native_profile_compile_args(&p, GNU),
        strings(&["-O2", "-g", "-flto", "-UNDEBUG"])
    );
    p.lto = Lto::Off;
    assert_eq!(native_profile_compile_args(&p, MSVC), strings(&["/O2", "/Z7", "/UNDEBUG"]));
}

#[test]
fn profile_link_args_strip_and_optimize() {
    let mut p = profile("2");
    assert!(native_profile_link_args(&p, GNU).is_empty());
    p.lto = Lto::Bool(true);
    p.strip = Strip::Named("debuginfo".to_string());
    assert_eq!(native_profile_link_args(&p, GNU), strings(&["-flto", "-Wl,-S"]));
    p.strip = Strip::Named("symbols".to_string());
    assert_eq!(native_profile_link_args(&p, GNU), strings(&["-flto", "-s"]));
    p.strip = Strip::Named("all".to_string());
    assert_eq!(native_profile_link_args(&p, GNU), strings(&["-flto", "-Wl,--strip-all"]));
    p.debuginfo = true;
    assert_eq!(native_profile_link_args(&p, MSVC), strings(&["/DEBUG", "/LTCG"]));
    p.strip = Strip::Named("debuginfo".to_string());
    assert_eq!(native_profile_link_args(&p, MSVC), strings(&["/LTCG"]));
}

#[test]
fn shared_libraries_are_position_independent() {
    assert_eq!(native_shared_compile_args(true, GNU), strings(&["-fPIC"]));
    assert!(native_shared_compile_args(false, GNU).is_empty());
    assert!(native_shared_compile_args(true, MSVC).is_empty());
}

#[test]
fn only_crt_static_turns_the_static_runtime_on() {
    let key = "target_feature".to_string();
    let mut cfgs = vec![
        Cfg::Name("unix".to_string()),
        Cfg::KeyPair(key.clone(), "sse2".to_string()),
        Cfg::KeyPair("feature".to_string(), "crt-static".to_string()),
    ];
    assert!(!native_crt_static_enabled(&cfgs));
    cfgs.push(Cfg::KeyPair(key, "crt-static".to_string()));
    assert!(native_crt_static_enabled(&cfgs));
    cfgs.push(Cfg::Name("windows".to_string()));
    assert!(native_crt_static_enabled(&cfgs));
}

#[test]
fn runtime_options_follow_the_family() {
    let mut p = profile("0");
    assert_eq!(native_crt_compile_args(true, &p, MSVC), strings(&["/MT"]));
    assert_eq!(native_crt_compile_args(false, &p, MSVC), strings(&["/MD"]));
    p.debug_assertions = true;
    assert_eq!(native_crt_compile_args(true, &p, MSVC), strings(&["/MTd"]));
    assert_eq!(native_crt_compile_args(false, &p, MSVC), strings(&["/MDd"]));
    assert!(native_crt_compile_args(true, &p, GNU).is_empty());
    let linux = "x86_64-unknown-linux-gnu";
    assert_eq!(
        native_crt_link_args(true, linux, GNU, true),
        strings(&["-static-libgcc", "-static-libstdc++"])
    );
    assert!(native_crt_link_args(false, linux, GNU, true).is_empty());
    assert!(native_crt_link_args(true, linux, MSVC, true).is_empty());
    assert!(native_crt_link_args(true, "aarch64-pc-windows-gnullvm", GNU, true).is_empty());
}

#[test]
fn names_become_parts_of_variables() {
    assert_eq!(envify("fast-math"), "FAST_MATH");
    assert_eq!(envify("stra\u{df}e"), "STRASSE");
    assert_eq!(envify("\u{e9}t\u{e9}"), "\u{c9}T\u{c9}");
}

#[test]
fn features_and_defines_are_defined() {
    let features = strings(&["default", "fast-math"]);
    assert_eq!(
        native_feature_args(&features, GNU),
        strings(&["-DCARGO_FEATURE_DEFAULT=1", "-DCARGO_FEATURE_FAST_MATH=1"])
    );
    assert_eq!(
        native_feature_args(&features, MSVC),
        strings(&["/DCARGO_FEATURE_DEFAULT=1", "/DCARGO_FEATURE_FAST_MATH=1"])
    );
    let defines = strings(&["A=1", "B"]);
    assert_eq!(native_define_args(&defines, GNU), strings(&["-DA=1", "-DB"]));
    assert_eq!(native_define_args(&defines, MSVC), strings(&["/DA=1", "/DB"]));
}

#[test]
fn configuration_values_are_defined_once_and_sorted() {
    let cfgs = vec![
        Cfg::Name("unix".to_string()),
        Cfg::Name("debug_assertions".to_string()),
        Cfg::KeyPair("target_os".to_string(), "linux".to_string()),
        Cfg::KeyPair("target_abi".to_string(), String::new()),
        Cfg::Name("unix".to_string()),
    ];
    assert_eq!(
        native_cfg_args(false, &cfgs, GNU),
        strings(&[
            "-DCARGO_CFG_TARGET_ABI=1",
            "-DCARGO_CFG_TARGET_OS_LINUX=1",
            "-DCARGO_CFG_UNIX=1",
        ])
    );
    assert_eq!(
        native_cfg_args(true, &cfgs, MSVC),
        strings(&[
            "/DCARGO_CFG_DEBUG_ASSERTIONS=1",
            "/DCARGO_CFG_TARGET_ABI=1",
            "/DCARGO_CFG_TARGET_OS_LINUX=1",
            "/DCARGO_CFG_UNIX=1",
        ])
    );
}
