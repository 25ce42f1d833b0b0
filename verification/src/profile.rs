//! Command line options that follow from the profile, the features, the
//! configuration values and the manifest of a target.
use vstd::prelude::*;

use crate::native::NativeCompilerFamily;
use crate::path::{sort_texts, sorted_texts};
use crate::text::{ascii_uppered, contains_text, holds_text, is_ascii_text, one_text, push_text};
use crate::text::{replace_char, replaced, same_text, text2, text3, text5, texts, uppercase, uppered};
use crate::text::Text;

verus! {

/// The kinds of link time optimization.
#[derive(Debug)]
pub enum Lto {
    /// Switched off.
    Off,
    /// Switched on or off by a `bool`.
    Bool(bool),
    /// Switched on, with the kind named.
    Named(String),
}

/// What is stripped from a linked file.
#[derive(Debug)]
pub enum Strip {
    /// Nothing.
    Nothing,
    /// What the name says.
    Named(String),
}

/// The part of a profile that the native compilers hear of.
#[derive(Debug)]
pub struct NativeProfile {
    /// The level of optimization.
    pub opt_level: String,
    /// Whether debug information is written.
    pub debuginfo: bool,
    /// Whether debug assertions are on.
    pub debug_assertions: bool,
    /// The link time optimization.
    pub lto: Lto,
    /// What is stripped.
    pub strip: Strip,
}

/// A configuration value of a compilation target.
#[derive(Debug)]
pub enum Cfg {
    /// A value that is set.
    Name(String),
    /// A key with a value.
    KeyPair(String, String),
}

/// Whether there is link time optimization.
pub open spec fn lto_on(lto: Lto) -> bool {
    match lto {
        Lto::Off => false,
        Lto::Bool(on) => on,
        Lto::Named(_) => true,
    }
}

/// The option for link time optimization, as `gcc` takes it.
pub open spec fn gnu_lto_args(lto: Lto) -> Seq<Text> {
    match lto {
        Lto::Off => Seq::empty(),
        Lto::Bool(on) => if on {
            seq!["-flto"@]
        } else {
            Seq::empty()
        },
        Lto::Named(name) => seq!["-flto="@ + name@],
    }
}

/// The option for the level of optimization.
pub open spec fn opt_arg(level: Text, family: NativeCompilerFamily) -> Text {
    match family {
        NativeCompilerFamily::GnuLike => if level == "0"@ {
            "-O0"@
        } else if level == "s"@ || level == "z"@ {
            "-Os"@
        } else {
            "-O"@ + level
        },
        NativeCompilerFamily::MsvcLike => if level == "0"@ {
            "/Od"@
        } else if level == "1"@ || level == "s"@ || level == "z"@ {
            "/O1"@
        } else {
            "/O2"@
        },
    }
}

/// A list of one text where `on`, else of none.
pub open spec fn one_if(on: bool, arg: Text) -> Seq<Text> {
    if on {
        seq![arg]
    } else {
        Seq::empty()
    }
}

/// The options that a profile gives to the compiler.
pub open spec fn profile_compile_args(
    profile: NativeProfile,
    family: NativeCompilerFamily,
) -> Seq<Text> {
    match family {
        NativeCompilerFamily::GnuLike => seq![opt_arg(profile.opt_level@, family)] + one_if(
            profile.debuginfo,
            "-g"@,
        ) + gnu_lto_args(profile.lto) + seq![
            if profile.debug_assertions {
                "-UNDEBUG"@
            } else {
                "-DNDEBUG"@
            },
        ],
        NativeCompilerFamily::MsvcLike => seq![opt_arg(profile.opt_level@, family)] + one_if(
            profile.debuginfo,
            "/Z7"@,
        ) + one_if(lto_on(profile.lto), "/GL"@) + seq![
            if profile.debug_assertions {
                "/UNDEBUG"@
            } else {
                "/DNDEBUG"@
            },
        ],
    }
}

fn is_lto_on(lto: &Lto) -> (r: bool)
    ensures
        r == lto_on(*lto),
{
    match lto {
        Lto::Off => false,
        Lto::Bool(on) => *on,
        Lto::Named(_) => true,
    }
}

fn push_gnu_lto(args: &mut Vec<String>, lto: &Lto)
    ensures
        texts(final(args)@) == texts(old(args)@) + gnu_lto_args(*lto),
{
    let ghost before = texts(args@);
    match lto {
        Lto::Off => {},
        Lto::Bool(on) => {
            if *on {
                push_text(args, "-flto".to_owned());
            }
        },
        Lto::Named(name) => {
            push_text(args, text2("-flto=", name.as_str()));
        },
    }
    assert(texts(args@) =~= before + gnu_lto_args(*lto));
}

fn opt_arg_of(level: &str, family: NativeCompilerFamily) -> (r: String)
    ensures
        r@ == opt_arg(level@, family),
{
    match family {
        NativeCompilerFamily::GnuLike => if same_text(level, "0") {
            "-O0".to_owned()
        } else if same_text(level, "s") || same_text(level, "z") {
            "-Os".to_owned()
        } else {
            text2("-O", level)
        },
        NativeCompilerFamily::MsvcLike => if same_text(level, "0") {
            "/Od".to_owned()
        } else if same_text(level, "1") || same_text(level, "s") || same_text(level, "z") {
            "/O1".to_owned()
        } else {
            "/O2".to_owned()
        },
    }
}

fn push_if(args: &mut Vec<String>, on: bool, arg: &str)
    ensures
        texts(final(args)@) == texts(old(args)@) + one_if(on, arg@),
{
    let ghost before = texts(args@);
    if on {
        push_text(args, arg.to_owned());
    }
    assert(texts(args@) =~= before + one_if(on, arg@));
}

/// The options that a profile gives to the compiler.
pub fn native_profile_compile_args(
    profile: &NativeProfile,
    family: NativeCompilerFamily,
) -> (r: Vec<String>)
    ensures
        texts(r@) == profile_compile_args(*profile, family),
{
    let mut args: Vec<String> = one_text(opt_arg_of(profile.opt_level.as_str(), family));
    match family {
        NativeCompilerFamily::GnuLike => {
            push_if(&mut args, profile.debuginfo, "-g");
            push_gnu_lto(&mut args, &profile.lto);
            if profile.debug_assertions {
                push_text(&mut args, "-UNDEBUG".to_owned());
            } else {
                push_text(&mut args, "-DNDEBUG".to_owned());
            }
        },
        NativeCompilerFamily::MsvcLike => {
            push_if(&mut args, profile.debuginfo, "/Z7");
            push_if(&mut args, is_lto_on(&profile.lto), "/GL");
            if profile.debug_assertions {
                push_text(&mut args, "/UNDEBUG".to_owned());
            } else {
                push_text(&mut args, "/DNDEBUG".to_owned());
            }
        },
    }
    assert(texts(args@) =~= profile_compile_args(*profile, family));
    args
}

/// The option that makes code for a shared library.
pub open spec fn shared_compile_args(
    is_sharedlib: bool,
    family: NativeCompilerFamily,
) -> Seq<Text> {
    one_if(is_sharedlib && family == NativeCompilerFamily::GnuLike, "-fPIC"@)
}

/// The option that makes code for a shared library.
pub fn native_shared_compile_args(
    is_sharedlib: bool,
    family: NativeCompilerFamily,
) -> (r: Vec<String>)
    ensures
        texts(r@) == shared_compile_args(is_sharedlib, family),
{
    let mut args: Vec<String> = Vec::new();
    push_if(&mut args, is_sharedlib && family == NativeCompilerFamily::GnuLike, "-fPIC");
    assert(texts(args@) =~= shared_compile_args(is_sharedlib, family));
    args
}

/// The option for what is stripped, as `gcc` takes it.
pub open spec fn gnu_strip_args(strip: Strip) -> Seq<Text> {
    match strip {
        Strip::Nothing => Seq::empty(),
        Strip::Named(name) => if name@ == "debuginfo"@ {
            seq!["-Wl,-S"@]
        } else if name@ == "symbols"@ {
            seq!["-s"@]
        } else {
            seq!["-Wl,--strip-"@ + name@]
        },
    }
}

/// The debug information is stripped.
pub open spec fn strips_debuginfo(strip: Strip) -> bool {
    match strip {
        Strip::Nothing => false,
        Strip::Named(name) => name@ == "debuginfo"@,
    }
}

/// The options that a profile gives to the linker.
pub open spec fn profile_link_args(
    profile: NativeProfile,
    family: NativeCompilerFamily,
) -> Seq<Text> {
    match family {
        NativeCompilerFamily::GnuLike => gnu_lto_args(profile.lto) + gnu_strip_args(profile.strip),
        NativeCompilerFamily::MsvcLike => one_if(
            profile.debuginfo && !strips_debuginfo(profile.strip),
            "/DEBUG"@,
        ) + one_if(lto_on(profile.lto), "/LTCG"@),
    }
}

/// The options that a profile gives to the linker.
pub fn native_profile_link_args(
    profile: &NativeProfile,
    family: NativeCompilerFamily,
) -> (r: Vec<String>)
    ensures
        texts(r@) == profile_link_args(*profile, family),
{
    let mut args: Vec<String> = Vec::new();
    match family {
        NativeCompilerFamily::GnuLike => {
            push_gnu_lto(&mut args, &profile.lto);
            match &profile.strip {
                Strip::Nothing => {},
                Strip::Named(name) => {
                    if same_text(name.as_str(), "debuginfo") {
                        push_text(&mut args, "-Wl,-S".to_owned());
                    } else if same_text(name.as_str(), "symbols") {
                        push_text(&mut args, "-s".to_owned());
                    } else {
                        push_text(&mut args, text2("-Wl,--strip-", name.as_str()));
                    }
                },
            }
        },
        NativeCompilerFamily::MsvcLike => {
            let stripped = match &profile.strip {
                Strip::Nothing => false,
                Strip::Named(name) => same_text(name.as_str(), "debuginfo"),
            };
            push_if(&mut args, profile.debuginfo && !stripped, "/DEBUG");
            push_if(&mut args, is_lto_on(&profile.lto), "/LTCG");
        },
    }
    assert(texts(args@) =~= profile_link_args(*profile, family));
    args
}

/// Among the configuration values, `target_feature` has the value `crt-static`.
pub open spec fn crt_static(cfgs: Seq<Cfg>) -> bool {
    exists|i: int|
        0 <= i < cfgs.len() && (#[trigger] cfgs[i] matches Cfg::KeyPair(key, value) && key@
            == "target_feature"@ && value@ == "crt-static"@)
}

/// Whether the C runtime is linked statically.
pub fn native_crt_static_enabled(cfgs: &Vec<Cfg>) -> (r: bool)
    ensures
        r == crt_static(cfgs@),
{
    let mut i: usize = 0;
    while i < cfgs.len()
        invariant
            i <= cfgs@.len(),
            forall|k: int|
                0 <= k < i ==> !(#[trigger] cfgs@[k] matches Cfg::KeyPair(key, value) && key@
                    == "target_feature"@ && value@ == "crt-static"@),
        decreases cfgs@.len() - i,
    {
        match &cfgs[i] {
            Cfg::Name(_) => {},
            Cfg::KeyPair(key, value) => {
                if same_text(key.as_str(), "target_feature") && same_text(
                    value.as_str(),
                    "crt-static",
                ) {
                    assert(cfgs@[i as int] matches Cfg::KeyPair(k, v) && k@ == "target_feature"@
                        && v@ == "crt-static"@);
                    return true;
                }
            },
        }
        i = i + 1;
    }
    false
}

/// The option for the C runtime that `cl.exe` takes when it compiles.
pub open spec fn crt_compile_args(
    crt_static_enabled: bool,
    debug_assertions: bool,
    family: NativeCompilerFamily,
) -> Seq<Text> {
    match family {
        NativeCompilerFamily::GnuLike => Seq::empty(),
        NativeCompilerFamily::MsvcLike => seq![
            match (crt_static_enabled, debug_assertions) {
                (true, true) => "/MTd"@,
                (true, false) => "/MT"@,
                (false, true) => "/MDd"@,
                (false, false) => "/MD"@,
            },
        ],
    }
}

/// The option for the C runtime that the compiler takes.
pub fn native_crt_compile_args(
    crt_static_enabled: bool,
    profile: &NativeProfile,
    family: NativeCompilerFamily,
) -> (r: Vec<String>)
    ensures
        texts(r@) == crt_compile_args(crt_static_enabled, profile.debug_assertions, family),
{
    let mut args: Vec<String> = Vec::new();
    match family {
        NativeCompilerFamily::GnuLike => {},
        NativeCompilerFamily::MsvcLike => {
            let runtime = if crt_static_enabled {
                if profile.debug_assertions {
                    "/MTd"
                } else {
                    "/MT"
                }
            } else {
                if profile.debug_assertions {
                    "/MDd"
                } else {
                    "/MD"
                }
            };
            push_text(&mut args, runtime.to_owned());
        },
    }
    assert(texts(args@) =~= crt_compile_args(
        crt_static_enabled,
        profile.debug_assertions,
        family,
    ));
    args
}

/// The options that link the runtime libraries of `gcc` statically: the one of C
/// always, that of C++ where there are C++ sources, and none where the target uses
/// the runtime of LLVM.
pub open spec fn gnu_crt_link_args(target_triple: Text, has_cpp_sources: bool) -> Seq<Text> {
    if holds_text(target_triple, "windows-gnullvm"@) {
        Seq::empty()
    } else {
        seq!["-static-libgcc"@] + one_if(has_cpp_sources, "-static-libstdc++"@)
    }
}

/// The options that link the runtime libraries of `gcc` statically.
pub fn native_gnu_crt_link_args(target_triple: &str, has_cpp_sources: bool) -> (r: Vec<String>)
    ensures
        texts(r@) == gnu_crt_link_args(target_triple@, has_cpp_sources),
{
    if contains_text(target_triple, "windows-gnullvm") {
        let none: Vec<String> = Vec::new();
        assert(texts(none@) =~= Seq::empty());
        return none;
    }
    let mut args: Vec<String> = one_text("-static-libgcc".to_owned());
    push_if(&mut args, has_cpp_sources, "-static-libstdc++");
    args
}

/// The options that link the C runtime statically, where that is asked for.
pub open spec fn crt_link_args(
    crt_static_enabled: bool,
    target_triple: Text,
    family: NativeCompilerFamily,
    has_cpp_sources: bool,
) -> Seq<Text> {
    if crt_static_enabled && family == NativeCompilerFamily::GnuLike {
        gnu_crt_link_args(target_triple, has_cpp_sources)
    } else {
        Seq::empty()
    }
}

/// The options that link the C runtime statically, where that is asked for.
pub fn native_crt_link_args(
    crt_static_enabled: bool,
    target_triple: &str,
    family: NativeCompilerFamily,
    has_cpp_sources: bool,
) -> (r: Vec<String>)
    ensures
        texts(r@) == crt_link_args(crt_static_enabled, target_triple@, family, has_cpp_sources),
{
    if crt_static_enabled && family == NativeCompilerFamily::GnuLike {
        native_gnu_crt_link_args(target_triple, has_cpp_sources)
    } else {
        let none: Vec<String> = Vec::new();
        assert(texts(none@) =~= Seq::empty());
        none
    }
}

/// A name as a part of the name of an environment variable.
pub open spec fn envified(name: Text) -> Text {
    replaced(uppered(name), '-', '_')
}

/// A name as a part of the name of an environment variable.
pub fn envify(name: &str) -> (r: String)
    ensures
        r@ == envified(name@),
        is_ascii_text(name@) ==> r@ == replaced(ascii_uppered(name@), '-', '_'),
{
    let up = uppercase(name);
    replace_char(up.as_str(), '-', '_')
}

/// What stands before a definition on the command line.
pub open spec fn define_option(family: NativeCompilerFamily) -> Text {
    match family {
        NativeCompilerFamily::GnuLike => "-D"@,
        NativeCompilerFamily::MsvcLike => "/D"@,
    }
}

fn define_option_of(family: NativeCompilerFamily) -> (r: &'static str)
    ensures
        r@ == define_option(family),
{
    match family {
        NativeCompilerFamily::GnuLike => "-D",
        NativeCompilerFamily::MsvcLike => "/D",
    }
}

/// The definition of a macro that the manifest asks for.
pub open spec fn define_arg(define: Text, family: NativeCompilerFamily) -> Text {
    define_option(family) + define
}

/// The definition of a macro that the manifest asks for.
pub fn native_define_arg(define: &str, family: NativeCompilerFamily) -> (r: String)
    ensures
        r@ == define_arg(define@, family),
{
    text2(define_option_of(family), define)
}

/// The definitions that the manifest asks for.
pub open spec fn define_args(defines: Seq<Text>, family: NativeCompilerFamily) -> Seq<Text> {
    defines.map_values(|define: Text| define_arg(define, family))
}

/// The definitions that the manifest asks for.
pub fn native_define_args(defines: &Vec<String>, family: NativeCompilerFamily) -> (r: Vec<String>)
    ensures
        texts(r@) == define_args(texts(defines@), family),
{
    let ghost want = define_args(texts(defines@), family);
    let mut r: Vec<String> = Vec::new();
    let mut i: usize = 0;
    assert(texts(r@) =~= want.take(0));
    while i < defines.len()
        invariant
            i <= defines@.len(),
            want == define_args(texts(defines@), family),
            texts(r@) == want.take(i as int),
        decreases defines@.len() - i,
    {
        push_text(&mut r, native_define_arg(defines[i].as_str(), family));
        assert(want[i as int] == define_arg(defines@[i as int]@, family));
        assert(texts(r@) =~= want.take(i + 1));
        i = i + 1;
    }
    assert(want.take(i as int) =~= want);
    r
}

/// The definition that tells of a feature.
pub open spec fn feature_arg(feature: Text, family: NativeCompilerFamily) -> Text {
    define_option(family) + "CARGO_FEATURE_"@ + envified(feature) + "=1"@
}

/// The definition that tells of a feature.
pub fn native_feature_define_arg(feature: &str, family: NativeCompilerFamily) -> (r: String)
    ensures
        r@ == feature_arg(feature@, family),
{
    let name = envify(feature);
    let mut r = text3(define_option_of(family), "CARGO_FEATURE_", name.as_str());
    r.append("=1");
    r
}

/// The definitions that tell of the features.
pub open spec fn feature_args(features: Seq<Text>, family: NativeCompilerFamily) -> Seq<Text> {
    features.map_values(|feature: Text| feature_arg(feature, family))
}

/// The definitions that tell of the features.
pub fn native_feature_args(features: &Vec<String>, family: NativeCompilerFamily) -> (r: Vec<
    String,
>)
    ensures
        texts(r@) == feature_args(texts(features@), family),
{
    let ghost want = feature_args(texts(features@), family);
    let mut r: Vec<String> = Vec::new();
    let mut i: usize = 0;
    assert(texts(r@) =~= want.take(0));
    while i < features.len()
        invariant
            i <= features@.len(),
            want == feature_args(texts(features@), family),
            texts(r@) == want.take(i as int),
        decreases features@.len() - i,
    {
        push_text(&mut r, native_feature_define_arg(features[i].as_str(), family));
        assert(want[i as int] == feature_arg(features@[i as int]@, family));
        assert(texts(r@) =~= want.take(i + 1));
        i = i + 1;
    }
    assert(want.take(i as int) =~= want);
    r
}

/// The definition that tells that a configuration value is set.
pub open spec fn cfg_name_arg(name: Text, family: NativeCompilerFamily) -> Text {
    define_option(family) + "CARGO_CFG_"@ + envified(name) + "=1"@
}

/// The definition that tells that a configuration value is set.
pub fn native_cfg_define_name(name: &str, family: NativeCompilerFamily) -> (r: String)
    ensures
        r@ == cfg_name_arg(name@, family),
{
    let name = envify(name);
    let mut r = text3(define_option_of(family), "CARGO_CFG_", name.as_str());
    r.append("=1");
    r
}

/// The definition that tells of a key with a value; a key with an empty value is
/// told of as one that is set.
pub open spec fn cfg_pair_arg(key: Text, value: Text, family: NativeCompilerFamily) -> Text {
    if value.len() == 0 {
        cfg_name_arg(key, family)
    } else {
        define_option(family) + "CARGO_CFG_"@ + envified(key) + "_"@ + envified(value) + "=1"@
    }
}

/// The definition that tells of a key with a value.
pub fn native_cfg_define_key_pair(
    key: &str,
    value: &str,
    family: NativeCompilerFamily,
) -> (r: String)
    ensures
        r@ == cfg_pair_arg(key@, value@, family),
{
    if value.is_empty() {
        return native_cfg_define_name(key, family);
    }
    let key = envify(key);
    let value = envify(value);
    let mut r = text5(
        define_option_of(family),
        "CARGO_CFG_",
        key.as_str(),
        "_",
        value.as_str(),
    );
    r.append("=1");
    r
}

/// What is told of one configuration value. That debug assertions are on is told
/// by the profile, not by the compilation target.
pub open spec fn cfg_arg(cfg: Cfg, family: NativeCompilerFamily) -> Option<Text> {
    match cfg {
        Cfg::Name(name) => if name@ == "debug_assertions"@ {
            None
        } else {
            Some(cfg_name_arg(name@, family))
        },
        Cfg::KeyPair(key, value) => Some(cfg_pair_arg(key@, value@, family)),
    }
}

/// What is told of configuration values, in their order.
pub open spec fn told_cfgs(cfgs: Seq<Cfg>, family: NativeCompilerFamily) -> Seq<Text>
    decreases cfgs.len(),
{
    if cfgs.len() == 0 {
        Seq::empty()
    } else {
        let rest = told_cfgs(cfgs.drop_last(), family);
        match cfg_arg(cfgs.last(), family) {
            Some(arg) => rest.push(arg),
            None => rest,
        }
    }
}

/// The definitions that tell of the profile's debug assertions and of the
/// configuration values, sorted, each once.
pub open spec fn cfg_args(
    debug_assertions: bool,
    cfgs: Seq<Cfg>,
    family: NativeCompilerFamily,
) -> Seq<Text> {
    sorted_texts(
        one_if(debug_assertions, cfg_name_arg("debug_assertions"@, family)) + told_cfgs(
            cfgs,
            family,
        ),
    )
}

/// The definitions that tell of the debug assertions and the configuration values.
pub fn native_cfg_args(
    debug_assertions: bool,
    cfgs: &Vec<Cfg>,
    family: NativeCompilerFamily,
) -> (r: Vec<String>)
    ensures
        texts(r@) == cfg_args(debug_assertions, cfgs@, family),
{
    let mut defines: Vec<String> = Vec::new();
    if debug_assertions {
        push_text(&mut defines, native_cfg_define_name("debug_assertions", family));
    }
    let ghost first = one_if(debug_assertions, cfg_name_arg("debug_assertions"@, family));
    assert(texts(defines@) =~= first);
    let mut i: usize = 0;
    assert(cfgs@.take(0) =~= Seq::empty());
    assert(texts(defines@) =~= first + told_cfgs(cfgs@.take(0), family));
    while i < cfgs.len()
        invariant
            i <= cfgs@.len(),
            texts(defines@) == first + told_cfgs(cfgs@.take(i as int), family),
        decreases cfgs@.len() - i,
    {
        let ghost before = texts(defines@);
        match &cfgs[i] {
            Cfg::Name(name) => {
                if !same_text(name.as_str(), "debug_assertions") {
                    push_text(&mut defines, native_cfg_define_name(name.as_str(), family));
                }
            },
            Cfg::KeyPair(key, value) => {
                push_text(
                    &mut defines,
                    native_cfg_define_key_pair(key.as_str(), value.as_str(), family),
                );
            },
        }
        proof {
            assert(cfgs@.take(i + 1).drop_last() =~= cfgs@.take(i as int));
            assert(cfgs@.take(i + 1).last() == cfgs@[i as int]);
            assert(texts(defines@) =~= first + told_cfgs(cfgs@.take(i + 1), family));
        }
        i = i + 1;
    }
    assert(cfgs@.take(i as int) =~= cfgs@);
    sort_texts(&defines)
}

/// A configuration value turns the static C runtime on.
pub open spec fn is_crt_static(cfg: Cfg) -> bool {
    cfg matches Cfg::KeyPair(key, value) && key@ == "target_feature"@ && value@ == "crt-static"@
}

/// No other configuration value has a say in how the C runtime is linked.
pub proof fn lemma_other_cfgs(cfgs: Seq<Cfg>, cfg: Cfg)
    requires
        !is_crt_static(cfg),
    ensures
        crt_static(cfgs.push(cfg)) == crt_static(cfgs),
{
    let more = cfgs.push(cfg);
    if crt_static(cfgs) {
        let i = choose|i: int| 0 <= i < cfgs.len() && is_crt_static(#[trigger] cfgs[i]);
        assert(is_crt_static(more[i]));
    }
    if crt_static(more) {
        let i = choose|i: int| 0 <= i < more.len() && is_crt_static(#[trigger] more[i]);
        assert(i < cfgs.len());
        assert(is_crt_static(cfgs[i]));
    }
}

/// Without a static C runtime, and for `windows-gnullvm`, the linker gets no option
/// for it.
pub proof fn lemma_no_crt_link_args(
    crt_static_enabled: bool,
    target_triple: Text,
    family: NativeCompilerFamily,
    has_cpp_sources: bool,
)
    requires
        !crt_static_enabled || holds_text(target_triple, "windows-gnullvm"@),
    ensures
        crt_link_args(crt_static_enabled, target_triple, family, has_cpp_sources).len() == 0,
{
}

} // verus!
