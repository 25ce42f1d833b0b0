use native_targets::config::{NativeConfig, NativeSettings, ToolSetting};
use native_targets::env::{EnvVar, EnvVars};
use native_targets::fingerprint::{
    header_files_of, header_only_entries, header_only_fingerprint, headers_hash_value,
    local_fingerprints, tool_file_fingerprint, toolchain_hash_value, tools_to_stamp,
    toolchain_fingerprint, toolchain_fingerprint_text, write_dep_info, DepInfoPathType,
    FileMetadata, FileStamp, LocalFingerprint,
};
use native_targets::fs::{FsView, PathFact, PathKind};
use native_targets::layout::{WalkEntry, WalkKind};
use native_targets::native::NativeCompilerFamily;
use native_targets::os_text::OsText;
use native_targets::path::PathRule;
use native_targets::plan::{BuildContext, KindContext};
use native_targets::profile::Cfg;
use native_targets::toolchain::{FoundTools, NativeToolchain};

fn strings(list: &[&str]) -> Vec<String> {
    list.iter().map(|s| s.to_string()).collect()
}

fn settings() -> NativeSettings {
    NativeSettings {
        native_cc: None,
        native_cxx: None,
        native_ar: None,
        native_cflags: None,
        native_cppflags: None,
        native_cxxflags: None,
        native_ldflags: None,
    }
}

fn var(name: &str, value: &str) -> EnvVar {
    EnvVar { name: name.to_string(), value: OsText::new(value) }
}

fn stamp(path: &str, len: Option<u64>, modified: Option<u128>) -> FileStamp {
    FileStamp { path: OsText::new(path), len, modified }
}

#[test]
fn fingerprints_are_hashes_in_hex() {
    assert_eq!(toolchain_fingerprint_text(0xab), "native-toolchain:00000000000000ab");
    assert_eq!(header_only_fingerprint(Some(1)), "native-header-only:0000000000000001");
    assert_eq!(header_only_fingerprint(None), "native-header-only:none");
}

#[test]
fn stamps_of_tools() {
    let found = FileMetadata::Found { len: 7, modified: Some(9) };
    let s = tool_file_fingerprint(&OsText::new("/cc"), found).unwrap();
    assert_eq!((s.path.as_str(), s.len, s.modified), ("/cc", Some(7), Some(9)));
    let s = tool_file_fingerprint(&OsText::new("cc"), FileMetadata::Missing).unwrap();
    assert_eq!((s.path.as_str(), s.len, s.modified), ("cc", None, None));
    assert_eq!(
        tool_file_fingerprint(&OsText::new("/cc"), FileMetadata::Failed).unwrap_err(),
        "failed to read native tool metadata for `/cc`"
    );
}

#[test]
fn stamps_are_sorted_by_path_length_and_time() {
    let big = 1u128 << 100;
    let rows = vec![
        ("i/b.h", Some(1), None),
        ("i/a/z.h", Some(u64::MAX), None),
        ("i/a", Some(3), Some(2)),
        ("i/b.h", None, Some(5)),
        ("i/a", Some(3), Some(big)),
        ("i/a", Some(1u64 << 40), Some(1)),
        ("i/a", Some(3), None),
        ("i/a", Some(3), Some(big - 1)),
    ];
    let mut want: Vec<(std::path::PathBuf, Option<u64>, Option<u128>)> =
        rows.iter().map(|(p, l, m)| (std::path::PathBuf::from(p), *l, *m)).collect();
    want.sort();
    let list: Vec<FileStamp> = rows.iter().map(|(p, l, m)| stamp(p, *l, *m)).collect();
    let got: Vec<(std::path::PathBuf, Option<u64>, Option<u128>)> = header_only_entries(&list)
        .iter()
        .map(|s| (std::path::PathBuf::from(s.path.as_str()), s.len, s.modified))
        .collect();
    assert_eq!(got, want);
}

#[test]
fn local_fingerprints_of_sources_and_of_headers() {
    let list = local_fingerprints(false, "/t/debug/.fingerprint/dep-lib-x", "/t/debug", "native-toolchain:00");
    assert_eq!(list.len(), 4);
    assert!(matches!(
        &list[0],
        LocalFingerprint::CheckDepInfo { dep_info, checksum: false } if dep_info == ".fingerprint/dep-lib-x"
    ));
    assert!(matches!(&list[1], LocalFingerprint::FromEnv(s) if s == "CXX"));
    assert!(matches!(&list[2], LocalFingerprint::FromEnv(s) if s == "AR"));
    assert!(matches!(&list[3], LocalFingerprint::Precalculated(s) if s == "native-toolchain:00"));
    let list = local_fingerprints(true, "/elsewhere", "/t", "native-header-only:none");
    assert_eq!(list.len(), 1);
    assert!(matches!(&list[0], LocalFingerprint::Precalculated(s) if s == "native-header-only:none"));
}

#[test]
fn files_are_recorded_below_their_roots() {
    let paths = strings(&["/ws/src/b.c", "/t/gen.h", "/usr/include/x.h", "/ws/src/b.c", "link.h"]);
    let real = vec![("link.h".to_string(), "/ws/include/real.h".to_string())];
    assert_eq!(
        write_dep_info("/t", "/ws", &paths, &real),
        vec![
            (DepInfoPathType::BuildRootRelative, "gen.h".to_string()),
            (DepInfoPathType::BuildRootRelative, "/usr/include/x.h".to_string()),
            (DepInfoPathType::PackageRootRelative, "src/b.c".to_string()),
            (DepInfoPathType::PackageRootRelative, "include/real.h".to_string()),
        ]
    );
}

#[test]
fn a_recorded_file_is_found_again() {
    for path in ["/ws/src/b.c", "/ws/target/debug/gen.h", "/usr/include/x.h", "/ws"] {
        let list = write_dep_info("/ws/target", "/ws", &strings(&[path]), &vec![]);
        let (kind, rest) = &list[0];
        let base = match kind {
            DepInfoPathType::BuildRootRelative => "/ws/target",
            DepInfoPathType::PackageRootRelative => "/ws",
        };
        assert_eq!(std::path::Path::new(base).join(rest), std::path::Path::new(path));
    }
}

fn context(vars: Vec<EnvVar>) -> BuildContext {
    let mut build = settings();
    build.native_cc =
        Some(ToolSetting { raw: "my-cc".to_string(), program: "/ws/my-cc".to_string() });
    build.native_cflags = Some(strings(&["-g"]));
    BuildContext {
        env: EnvVars { vars, ignores_case: false },
        found: FoundTools { tools: vec![("ar".to_string(), OsText::new("/bin/ar"))] },
        fs: FsView { facts: vec![] },
        rule: PathRule::Unix,
        kinds: vec![KindContext {
            target_triple: "x86_64-unknown-linux-gnu".to_string(),
            config: NativeConfig { build: Ok(build), target: Ok(settings()) },
            cfgs: vec![Cfg::KeyPair("target_feature".to_string(), "crt-static".to_string())],
            msvc: None,
        }],
        root_packages: vec![],
    }
}

#[test]
fn all_that_the_tools_depend_on_is_gathered() {
    let ctx = context(vec![
        var("CXX", "g++"),
        var("CC_X86_64_UNKNOWN_LINUX_GNU", "scoped"),
        var("CARGO_NATIVE_MSVC_VCVARSALL", "v.bat"),
        var("CFLAGS", "-x"),
    ]);
    let t = toolchain_fingerprint(&ctx, &ctx.kinds[0]).unwrap();
    assert_eq!(t.target_triple, "x86_64-unknown-linux-gnu");
    assert!(t.crt_static_enabled);
    assert_eq!(t.target_env.cc, Some(OsText::new("scoped")));
    assert_eq!(t.target_env.cxx, None);
    assert_eq!(t.plain_env.cxx, Some(OsText::new("g++")));
    assert_eq!(t.plain_env.cc, None);
    assert_eq!(t.build_config.cc, Some(OsText::new("my-cc")));
    assert_eq!(t.target_config.cc, None);
    assert_eq!(t.vcvarsall, Some(OsText::new("v.bat")));
    assert_eq!(t.target_vcvarsall, None);
    assert_eq!(t.flag_env.len(), 24);
    assert_eq!(t.flag_env[0], Some(OsText::new("-x")));
    assert_eq!(t.c_config_args, strings(&["-g"]));
    assert_eq!(t.toolchain.cc, OsText::new("scoped"));
    assert_eq!(t.toolchain.cxx, OsText::new("g++"));
    assert_eq!(t.toolchain.ar, Some(OsText::new("/bin/ar")));
}

#[test]
fn tools_that_cannot_be_told_have_no_fingerprint() {
    let mut ctx = context(vec![]);
    ctx.kinds[0].config.target = Err("no table".to_string());
    assert_eq!(toolchain_fingerprint(&ctx, &ctx.kinds[0]).unwrap_err(), "no table");
}

#[test]
fn a_value_that_is_not_utf8_is_told_from_one_with_the_same_reading() {
    let read = "\u{fffd}".to_string();
    let with = |bytes: Option<Vec<u8>>| {
        let value = OsText { text: read.clone(), bytes };
        let ctx = context(vec![EnvVar { name: "CFLAGS".to_string(), value }]);
        toolchain_fingerprint(&ctx, &ctx.kinds[0]).unwrap()
    };
    let text = with(None);
    let raw = with(Some(vec![0xff]));
    let other = with(Some(vec![0xfe]));
    assert!(text.flag_env != raw.flag_env && raw.flag_env != other.flag_env);
    assert_eq!(raw.flag_env, with(Some(vec![0xff])).flag_env);
}

#[test]
fn the_tools_to_stamp_are_those_that_are_there() {
    let mut t = NativeToolchain {
        cc: OsText::new("/cc"),
        cxx: OsText::new("/cxx"),
        ar: None,
        family: NativeCompilerFamily::GnuLike,
        env: vec![],
        init_script: None,
    };
    let read = |t: &NativeToolchain| {
        tools_to_stamp(t).iter().map(|p| p.as_str().to_string()).collect::<Vec<String>>()
    };
    assert_eq!(read(&t), strings(&["/cc", "/cxx"]));
    t.init_script = Some(OsText::new("/v.bat"));
    assert_eq!(read(&t), strings(&["/cc", "/cxx", "/v.bat"]));
    t.ar = Some(OsText::new("/ar"));
    assert_eq!(read(&t), strings(&["/cc", "/cxx", "/ar", "/v.bat"]));
}

#[test]
fn the_files_of_headers_are_those_below_a_directory_or_the_path() {
    let entry = |path: &str, kind: WalkKind| WalkEntry { path: path.to_string(), kind };
    let dir = FsView { facts: vec![PathFact { path: "/i".to_string(), kind: PathKind::Dir }] };
    let file = FsView { facts: vec![PathFact { path: "/i".to_string(), kind: PathKind::File }] };
    let mut walk = vec![
        entry("/i", WalkKind::Other),
        entry("/i/b.h", WalkKind::File),
        entry("/i/a", WalkKind::File),
    ];
    assert_eq!(header_files_of("/i", &dir, &walk), Some(strings(&["/i/b.h", "/i/a"])));
    assert_eq!(header_files_of("/i", &file, &walk), Some(strings(&["/i"])));
    walk.push(entry("/i", WalkKind::Failed));
    assert_eq!(header_files_of("/i", &dir, &walk), None);
}

#[test]
fn the_stamps_are_hashed_with_all_else() {
    let ctx = context(vec![var("CXX", "g++")]);
    let inputs = || toolchain_fingerprint(&ctx, &ctx.kinds[0]).unwrap();
    let found = FileMetadata::Found { len: 7, modified: Some(9) };
    let value = toolchain_hash_value(inputs(), &vec![FileMetadata::Missing, found, found]).unwrap();
    assert_eq!(value.inputs.target_triple, "x86_64-unknown-linux-gnu");
    let rows: Vec<(&str, Option<u64>)> =
        value.stamps.iter().map(|s| (s.path.as_str(), s.len)).collect();
    assert_eq!(rows, vec![("/ws/my-cc", None), ("g++", Some(7)), ("/bin/ar", Some(7))]);
    let failed = FileMetadata::Failed;
    assert_eq!(
        toolchain_hash_value(inputs(), &vec![found, failed, failed]).unwrap_err(),
        "failed to read native tool metadata for `g++`"
    );
}

#[test]
fn headers_are_hashed_with_their_place() {
    let list = vec![stamp("/i/b.h", Some(1), None), stamp("/i/a.h", Some(2), None)];
    let value = headers_hash_value("/i", &list);
    assert_eq!(value.source, "/i");
    let paths: Vec<&str> = value.entries.iter().map(|s| s.path.as_str()).collect();
    assert_eq!(paths, vec!["/i/a.h", "/i/b.h"]);
}
