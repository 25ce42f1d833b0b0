use native_targets::config::{
    build_config_string_list, build_native_tool_config, build_native_tool_config_value,
    native_c_compile_config_flags, native_config_flag_values, native_cppflags_config_flags,
    native_cxx_compile_config_flags, native_link_config_flags, opt_string_list,
    target_native_tool_config, target_native_tool_config_value, NativeConfig, NativeSettings,
    ToolSetting,
};
use native_targets::env::{
    flag_env_values, native_compile_env_flags, native_link_env_flags, read_native_flag_env,
    read_plain_flag_env, read_target_native_flag_env, split_encoded_flags, split_shell_like_flags,
    target_cargo_native_env, target_env_suffix, target_native_tool_env, EnvVar, EnvVars,
};
use native_targets::native::NativeSourceLanguage;
use native_targets::os_text::OsText;

fn strings(list: &[&str]) -> Vec<String> {
    list.iter().map(|s| s.to_string()).collect()
}

fn env(list: &[(&str, &str)]) -> EnvVars {
    EnvVars {
        vars: list
            .iter()
            .map(|(name, value)| EnvVar { name: name.to_string(), value: OsText::new(value) })
            .collect(),
        ignores_case: false,
    }
}

fn settings() -> NativeSettings {
    NativeSettings {
        native_cc: None,
        native_cxx: None,
        native_ar: None,
        native_cflags: None,
        native_cppflags: None,
        native_cxxflags: None,
        native_ldflags: None,
    }
}

const LINUX: &str = "x86_64-unknown-linux-gnu";

#[test]
fn suffixes_are_upper_case_without_hyphens_and_dots() {
    assert_eq!(target_env_suffix(LINUX), "X86_64_UNKNOWN_LINUX_GNU");
    assert_eq!(target_env_suffix("thumbv8m.main-none-eabi"), "THUMBV8M_MAIN_NONE_EABI");
    assert_eq!(target_env_suffix("\u{df}-os"), "SS_OS");
}

#[test]
fn options_are_split_at_spaces_or_units() {
    assert_eq!(split_shell_like_flags("  -O2\t-g \n"), strings(&["-O2", "-g"]));
    assert_eq!(split_shell_like_flags("   "), strings(&[]));
    assert_eq!(
        split_encoded_flags("-DA=1 2\u{1f}\u{1f}-g"),
        strings(&["-DA=1 2", "-g"])
    );
    assert_eq!(split_encoded_flags(""), strings(&[]));
}

#[test]
fn tools_of_the_target_come_first() {
    let e = env(&[
        ("CC_X86_64_UNKNOWN_LINUX_GNU", "plain-cc"),
        ("CARGO_TARGET_X86_64_UNKNOWN_LINUX_GNU_NATIVE_CC", "cargo-cc"),
        ("CXX_X86_64_UNKNOWN_LINUX_GNU", "plain-cxx"),
    ]);
    assert_eq!(target_native_tool_env(&e, LINUX, "CC"), Some(OsText::new("cargo-cc")));
    assert_eq!(target_native_tool_env(&e, LINUX, "CXX"), Some(OsText::new("plain-cxx")));
    assert_eq!(target_native_tool_env(&e, LINUX, "AR"), None);
    assert_eq!(
        target_cargo_native_env(&e, LINUX, "NATIVE_CC"),
        Some(OsText::new("cargo-cc"))
    );
}

#[test]
fn encoded_options_come_before_plain_ones() {
    let e = env(&[
        ("CARGO_ENCODED_NATIVE_CFLAGS", "-a b\u{1f}-c"),
        ("CARGO_NATIVE_CFLAGS", "-d"),
        ("CARGO_ENCODED_NATIVE_LDFLAGS", "\u{1f}"),
        ("CARGO_NATIVE_LDFLAGS", "-e -f"),
    ]);
    assert_eq!(
        read_native_flag_env(&e, "CARGO_ENCODED_NATIVE_CFLAGS", "CARGO_NATIVE_CFLAGS"),
        strings(&["-a b", "-c"])
    );
    assert_eq!(
        read_native_flag_env(&e, "CARGO_ENCODED_NATIVE_LDFLAGS", "CARGO_NATIVE_LDFLAGS"),
        strings(&["-e", "-f"])
    );
    assert_eq!(read_plain_flag_env(&e, "NOT_SET"), strings(&[]));
}

#[test]
fn a_plain_variable_that_is_not_utf8_is_not_read() {
    let e = EnvVars {
        vars: vec![EnvVar {
            name: "CFLAGS".to_string(),
            value: OsText { text: "-a \u{fffd}".to_string(), bytes: Some(b"-a \xff".to_vec()) },
        }],
        ignores_case: false,
    };
    assert_eq!(read_plain_flag_env(&e, "CFLAGS"), strings(&[]));
}

#[test]
fn options_of_the_target_have_three_sources() {
    let mut e = env(&[("CFLAGS_X86_64_UNKNOWN_LINUX_GNU", "-plain")]);
    let read = |e: &EnvVars| {
        read_target_native_flag_env(
            e,
            LINUX,
            "ENCODED_NATIVE_CFLAGS",
            "NATIVE_CFLAGS",
            "CFLAGS",
        )
    };
    assert_eq!(read(&e), strings(&["-plain"]));
    e.vars.push(EnvVar {
        name: "CARGO_TARGET_X86_64_UNKNOWN_LINUX_GNU_NATIVE_CFLAGS".to_string(),
        value: OsText::new("-cargo"),
    });
    assert_eq!(read(&e), strings(&["-cargo"]));
    e.vars.push(EnvVar {
        name: "CARGO_TARGET_X86_64_UNKNOWN_LINUX_GNU_ENCODED_NATIVE_CFLAGS".to_string(),
        value: OsText::new("-encoded one"),
    });
    assert_eq!(read(&e), strings(&["-encoded one"]));
}

#[test]
fn compile_options_come_in_order() {
    let e = env(&[
        ("CPPFLAGS", "-cpp"),
        ("CARGO_NATIVE_CPPFLAGS", "-cargo-cpp"),
        ("CFLAGS", "-c-only"),
        ("CXXFLAGS", "-cxx-only"),
        ("LDFLAGS", "-link"),
        ("LDFLAGS_X86_64_UNKNOWN_LINUX_GNU", "-target-link"),
    ]);
    let cpp = strings(&["-config-cpp"]);
    let c = strings(&["-config-c"]);
    let cxx = strings(&["-config-cxx"]);
    assert_eq!(
        native_compile_env_flags(&e, LINUX, NativeSourceLanguage::C, &cpp, &c, &cxx),
        strings(&["-config-cpp", "-config-c", "-cargo-cpp", "-cpp", "-c-only"])
    );
    assert_eq!(
        native_compile_env_flags(&e, LINUX, NativeSourceLanguage::Cpp, &cpp, &c, &cxx),
        strings(&["-config-cpp", "-config-cxx", "-cargo-cpp", "-cpp", "-cxx-only"])
    );
    assert_eq!(
        native_link_env_flags(&e, LINUX, &strings(&["-config-link"])),
        strings(&["-config-link", "-link", "-target-link"])
    );
}

#[test]
fn all_flag_variables_are_looked_at() {
    let none = flag_env_values(&env(&[]), LINUX);
    assert!(none.iter().all(|v| v.is_none()));
    for name in [
        "CFLAGS",
        "CARGO_NATIVE_CXXFLAGS",
        "CARGO_ENCODED_NATIVE_LDFLAGS",
        "CPPFLAGS_X86_64_UNKNOWN_LINUX_GNU",
        "CARGO_TARGET_X86_64_UNKNOWN_LINUX_GNU_NATIVE_LDFLAGS",
        "CARGO_TARGET_X86_64_UNKNOWN_LINUX_GNU_ENCODED_NATIVE_CFLAGS",
    ] {
        let some = flag_env_values(&env(&[(name, "x")]), LINUX);
        assert_eq!(some.len(), none.len());
        assert_eq!(some.iter().filter(|v| v.is_some()).count(), 1, "{name}");
    }
}

#[test]
fn options_of_the_build_come_before_those_of_the_target() {
    let mut build = settings();
    build.native_cflags = Some(strings(&["-b"]));
    build.native_ldflags = Some(strings(&["-bl"]));
    let mut target = settings();
    target.native_cflags = Some(strings(&["-t"]));
    target.native_cxxflags = Some(strings(&["-tx"]));
    let config = NativeConfig { build: Ok(build), target: Ok(target) };
    assert_eq!(native_c_compile_config_flags(&config), Ok(strings(&["-b", "-t"])));
    assert_eq!(native_cxx_compile_config_flags(&config), Ok(strings(&["-tx"])));
    assert_eq!(native_link_config_flags(&config), Ok(strings(&["-bl"])));
    assert_eq!(native_cppflags_config_flags(&config), Ok(strings(&[])));
    assert_eq!(build_config_string_list(&config, "native-cflags"), Ok(strings(&["-b"])));
    assert_eq!(native_config_flag_values(&config, "native-other"), Ok(strings(&[])));
    assert_eq!(opt_string_list(&None), strings(&[]));
}

#[test]
fn a_table_that_cannot_be_read_is_told() {
    let config = NativeConfig { build: Err("bad build".to_string()), target: Ok(settings()) };
    assert_eq!(native_link_config_flags(&config), Err("bad build".to_string()));
    assert_eq!(build_native_tool_config(&config, "cc"), None);
    assert_eq!(
        build_native_tool_config_value(&config, "cc"),
        Err("bad build".to_string())
    );
    let config = NativeConfig { build: Ok(settings()), target: Err("bad target".to_string()) };
    assert_eq!(native_link_config_flags(&config), Err("bad target".to_string()));
    assert_eq!(target_native_tool_config(&config, "cc"), Err("bad target".to_string()));
}

#[test]
fn tools_are_read_as_written_or_as_programs() {
    let mut build = settings();
    build.native_cxx = Some(ToolSetting {
        raw: "tools/cxx".to_string(),
        program: "/ws/tools/cxx".to_string(),
    });
    let mut target = settings();
    target.native_ar = Some(ToolSetting { raw: "ar".to_string(), program: "ar".to_string() });
    let config = NativeConfig { build: Ok(build), target: Ok(target) };
    assert_eq!(build_native_tool_config(&config, "cxx"), Some("/ws/tools/cxx".to_string()));
    assert_eq!(
        build_native_tool_config_value(&config, "cxx"),
        Ok(Some("tools/cxx".to_string()))
    );
    assert_eq!(build_native_tool_config(&config, "cc"), None);
    assert_eq!(target_native_tool_config(&config, "ar"), Ok(Some("ar".to_string())));
    assert_eq!(target_native_tool_config_value(&config, "cc"), Ok(None));
}

#[test]
fn equal_flag_values_give_equal_options() {
    let value = |bytes: Option<Vec<u8>>| OsText { text: "\u{fffd}".to_string(), bytes };
    let with = |value: OsText| EnvVars {
        vars: vec![
            EnvVar { name: "HOME".to_string(), value: value.copy() },
            EnvVar { name: "CFLAGS".to_string(), value },
        ],
        ignores_case: false,
    };
    let none = strings(&[]);
    let options = |e: &EnvVars| {
        native_compile_env_flags(e, LINUX, NativeSourceLanguage::C, &none, &none, &none)
    };
    let text = with(value(None));
    let raw = with(value(Some(vec![0xff])));
    assert_eq!(options(&text), strings(&["\u{fffd}"]));
    assert_eq!(options(&raw), none);
    assert!(flag_env_values(&text, LINUX) != flag_env_values(&raw, LINUX));
    let alone = EnvVars {
        vars: vec![EnvVar { name: "CFLAGS".to_string(), value: value(None) }],
        ignores_case: false,
    };
    assert_eq!(flag_env_values(&text, LINUX), flag_env_values(&alone, LINUX));
    assert_eq!(options(&text), options(&alone));
}

#[test]
fn names_are_told_apart_by_case_unless_the_host_ignores_it() {
    let mut e = env(&[("cflags", "-low"), ("CFLAGS", "-up")]);
    assert_eq!(read_plain_flag_env(&e, "CFLAGS"), strings(&["-up"]));
    assert_eq!(read_plain_flag_env(&e, "Cflags"), strings(&[]));
    e.ignores_case = true;
    assert_eq!(read_plain_flag_env(&e, "CFLAGS"), strings(&["-low"]));
    assert_eq!(read_plain_flag_env(&e, "Cflags"), strings(&["-low"]));
    assert_eq!(read_plain_flag_env(&e, "CFLAG"), strings(&[]));
}
