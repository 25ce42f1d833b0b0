//! Which options a profile and a configuration ask for, and which they do not.
use vstd::prelude::*;

use crate::compiled::{cfg_word, define_word};
use crate::flagged::lemma_seven;
use crate::native::NativeCompilerFamily;
use crate::order::{lemma_unique_order, stable_order, without_repeats};
use crate::path::{sorted_texts, text_keys};
use crate::profile::{cfg_arg, cfg_args, cfg_name_arg, crt_compile_args, crt_link_args, crt_static};
use crate::profile::{define_args, envified, feature_args, gnu_lto_args, gnu_strip_args, one_if};
use crate::profile::{profile_compile_args, profile_link_args, shared_compile_args, told_cfgs};
use crate::profile::{Cfg, Lto, NativeProfile, Strip};
use crate::text::{holds_text, uppered, Text};

verus! {

/// The word for a level of optimization, for GNU compilers.
pub open spec fn is_gnu_level(word: Text, level: Text) -> bool {
    if level == "s"@ || level == "z"@ {
        word == "-Os"@
    } else {
        word == seq!['-', 'O'] + level
    }
}

/// The word for a level of optimization, for MSVC compilers: none, for size or for speed.
pub open spec fn is_msvc_level(word: Text, level: Text) -> bool {
    if level == "0"@ {
        word == "/Od"@
    } else if level == "1"@ || level == "s"@ || level == "z"@ {
        word == "/O1"@
    } else {
        word == "/O2"@
    }
}

/// Optimization across objects is asked for.
pub open spec fn asks_lto(lto: Lto) -> bool {
    match lto {
        Lto::Off => false,
        Lto::Bool(false) => false,
        Lto::Bool(true) => true,
        Lto::Named(_) => true,
    }
}

/// The word for optimization across objects, for GNU tools.
pub open spec fn is_gnu_lto(word: Text, lto: Lto) -> bool {
    match lto {
        Lto::Off => false,
        Lto::Bool(on) => on && word == "-flto"@,
        Lto::Named(name) => word == "-flto="@ + name@,
    }
}

/// A profile asks a compiler for its level of optimization, for debug information where
/// it has that, for optimization across objects where it has that, and for assertions or
/// against them: for that and for nothing else, each once.
pub proof fn lemma_profile_options(profile: NativeProfile, family: NativeCompilerFamily, word: Text)
    ensures
        ({
            let args = profile_compile_args(profile, family);
            &&& match family {
                NativeCompilerFamily::GnuLike => args.contains(word) <==> {
                    ||| is_gnu_level(word, profile.opt_level@)
                    ||| profile.debuginfo && word == "-g"@
                    ||| is_gnu_lto(word, profile.lto)
                    ||| profile.debug_assertions && word == "-UNDEBUG"@
                    ||| !profile.debug_assertions && word == "-DNDEBUG"@
                },
                NativeCompilerFamily::MsvcLike => args.contains(word) <==> {
                    ||| is_msvc_level(word, profile.opt_level@)
                    ||| profile.debuginfo && word == "/Z7"@
                    ||| asks_lto(profile.lto) && word == "/GL"@
                    ||| profile.debug_assertions && word == "/UNDEBUG"@
                    ||| !profile.debug_assertions && word == "/DNDEBUG"@
                },
            }
            &&& args.len() == 2 + (if profile.debuginfo {
                1int
            } else {
                0
            }) + (if asks_lto(profile.lto) {
                1int
            } else {
                0
            })
        }),
{
    let args = profile_compile_args(profile, family);
    let n = args.len() as int;
    reveal_strlit("-O");
    reveal_strlit("-O0");
    reveal_strlit("0");
    reveal_strlit("s");
    reveal_strlit("z");
    assert("0"@[0] == '0' && "s"@[0] == 's' && "z"@[0] == 'z');
    assert("-O"@ =~= seq!['-', 'O']);
    assert("-O0"@ =~= seq!['-', 'O'] + "0"@);
    assert(args[0] == args.first());
    if profile.debuginfo {
        assert(args[1] == if family == NativeCompilerFamily::GnuLike {
            "-g"@
        } else {
            "/Z7"@
        });
    }
    if asks_lto(profile.lto) {
        assert(family == NativeCompilerFamily::GnuLike ==> is_gnu_lto(args[n - 2], profile.lto));
        assert(family == NativeCompilerFamily::MsvcLike ==> args[n - 2] == "/GL"@);
    }
    assert(args[n - 1] == args.last());
    if args.contains(word) {
        let i = choose|i: int| 0 <= i < args.len() && args[i] == word;
        assert(i == 0 || i == 1 || i == 2 || i == 3);
    }
}

/// A shared library is compiled to code that can stand anywhere, where that is not what
/// the compiler does by itself.
pub proof fn lemma_shared_options(is_sharedlib: bool, family: NativeCompilerFamily)
    ensures
        match (is_sharedlib, family) {
            (true, NativeCompilerFamily::GnuLike) => shared_compile_args(is_sharedlib, family)
                == seq!["-fPIC"@],
            _ => shared_compile_args(is_sharedlib, family).len() == 0,
        },
{
}

/// The C runtime is the static one exactly where the configuration has the target
/// feature `crt-static`, and the one for debugging where assertions are on.
pub proof fn lemma_runtime_options(
    cfgs: Seq<Cfg>,
    debug_assertions: bool,
    family: NativeCompilerFamily,
)
    ensures
        ({
            let is_static = exists|i: int|
                0 <= i < cfgs.len() && (#[trigger] cfgs[i] matches Cfg::KeyPair(key, value) && key@
                    == "target_feature"@ && value@ == "crt-static"@);
            let args = crt_compile_args(crt_static(cfgs), debug_assertions, family);
            match family {
                NativeCompilerFamily::GnuLike => args.len() == 0,
                NativeCompilerFamily::MsvcLike => {
                    &&& args.len() == 1
                    &&& is_static && debug_assertions ==> args[0] == "/MTd"@
                    &&& is_static && !debug_assertions ==> args[0] == "/MT"@
                    &&& !is_static && debug_assertions ==> args[0] == "/MDd"@
                    &&& !is_static && !debug_assertions ==> args[0] == "/MD"@
                },
            }
        }),
{
}

/// A profile asks a linker for optimization across objects and for what is to be
/// stripped, or for debug information where it is kept: for that and for nothing else.
pub proof fn lemma_link_profile_options(
    profile: NativeProfile,
    family: NativeCompilerFamily,
    word: Text,
)
    ensures
        match family {
            NativeCompilerFamily::GnuLike => profile_link_args(profile, family).contains(word)
                <==> {
                ||| is_gnu_lto(word, profile.lto)
                ||| match profile.strip {
                    Strip::Nothing => false,
                    Strip::Named(name) => if name@ == "debuginfo"@ {
                        word == "-Wl,-S"@
                    } else if name@ == "symbols"@ {
                        word == "-s"@
                    } else {
                        word == "-Wl,--strip-"@ + name@
                    },
                }
            },
            NativeCompilerFamily::MsvcLike => profile_link_args(profile, family).contains(word)
                <==> {
                ||| asks_lto(profile.lto) && word == "/LTCG"@
                ||| word == "/DEBUG"@ && profile.debuginfo && match profile.strip {
                    Strip::Nothing => true,
                    Strip::Named(name) => name@ != "debuginfo"@,
                }
            },
        },
{
    let args = profile_link_args(profile, family);
    let n = args.len() as int;
    let a = gnu_lto_args(profile.lto);
    let b = gnu_strip_args(profile.strip);
    if n > 0 {
        assert(args.contains(args[0]));
        assert(args.contains(args[n - 1]));
    }
    match family {
        NativeCompilerFamily::GnuLike => {
            if a.len() > 0 {
                assert(args[0] == a[0]);
            }
            if b.len() > 0 {
                assert(args[n - 1] == b[0]);
            }
        },
        NativeCompilerFamily::MsvcLike => {
            if asks_lto(profile.lto) {
                assert(args[n - 1] == "/LTCG"@);
            }
        },
    }
    if args.contains(word) {
        let i = choose|i: int| 0 <= i < args.len() && args[i] == word;
        assert(i == 0 || i == n - 1);
    }
}

/// Where the C runtime is the static one, GNU linkers are asked for the static libraries
/// of the compiler, that of C++ where there are sources in it; for `windows-gnullvm`,
/// and where the runtime is not static, they are asked for nothing, as MSVC linkers are.
pub proof fn lemma_runtime_link_options(
    cfgs: Seq<Cfg>,
    triple: Text,
    family: NativeCompilerFamily,
    cpp: bool,
    word: Text,
)
    ensures
        ({
            let is_static = exists|i: int|
                0 <= i < cfgs.len() && (#[trigger] cfgs[i] matches Cfg::KeyPair(key, value) && key@
                    == "target_feature"@ && value@ == "crt-static"@);
            crt_link_args(crt_static(cfgs), triple, family, cpp).contains(word) <==> {
                &&& is_static
                &&& family == NativeCompilerFamily::GnuLike
                &&& !holds_text(triple, "windows-gnullvm"@)
                &&& word == "-static-libgcc"@ || (cpp && word == "-static-libstdc++"@)
            }
        }),
{
    let args = crt_link_args(crt_static(cfgs), triple, family, cpp);
    if args.len() > 0 {
        assert(args[0] == "-static-libgcc"@);
        if cpp {
            assert(args[1] == "-static-libstdc++"@);
        }
    }
    if args.contains(word) {
        let i = choose|i: int| 0 <= i < args.len() && args[i] == word;
        assert(i == 0 || i == 1);
    }
}

/// The macros that are told are those of the manifest, in their order.
pub proof fn lemma_define_options(defines: Seq<Text>, family: NativeCompilerFamily)
    ensures
        define_args(defines, family).len() == defines.len(),
        forall|i: int|
            0 <= i < defines.len() ==> #[trigger] define_args(defines, family)[i] == define_word(
                family,
            ) + defines[i],
{
}

/// The features that are told are those of the unit, in their order.
pub proof fn lemma_feature_options(features: Seq<Text>, family: NativeCompilerFamily)
    ensures
        feature_args(features, family).len() == features.len(),
        forall|i: int|
            0 <= i < features.len() ==> #[trigger] feature_args(features, family)[i] == define_word(
                family,
            ) + "CARGO_FEATURE_"@ + envified(features[i]) + "=1"@,
{
}

/// What names a feature or a configuration value is in upper case, with underscores where
/// there were hyphens.
pub proof fn lemma_envified(name: Text)
    ensures
        envified(name).len() == uppered(name).len(),
        forall|i: int|
            0 <= i < envified(name).len() ==> #[trigger] envified(name)[i] == if uppered(name)[i]
                == '-' {
                '_'
            } else {
                uppered(name)[i]
            },
{
}

proof fn lemma_told_from(cfgs: Seq<Cfg>, family: NativeCompilerFamily, word: Text)
    requires
        told_cfgs(cfgs, family).contains(word),
    ensures
        exists|i: int|
            0 <= i < cfgs.len() && !(#[trigger] cfgs[i] matches Cfg::Name(name) && name@
                == "debug_assertions"@) && word == cfg_word(cfgs[i], family),
    decreases cfgs.len(),
{
    if cfgs.len() > 0 {
        let front = cfgs.drop_last();
        let before = told_cfgs(front, family);
        let all = told_cfgs(cfgs, family);
        let k = choose|k: int| 0 <= k < all.len() && all[k] == word;
        let last = cfgs[cfgs.len() - 1];
        assert(last == cfgs.last());
        if k < before.len() {
            assert(before[k] == word);
            lemma_told_from(front, family, word);
            let i = choose|i: int|
                0 <= i < front.len() && !(#[trigger] front[i] matches Cfg::Name(name) && name@
                    == "debug_assertions"@) && word == cfg_word(front[i], family);
            assert(cfgs[i] == front[i]);
        } else {
            assert(cfg_arg(last, family) == Some(word));
            assert(word == cfg_word(last, family));
        }
    } else {
        assert(false);
    }
}

/// No configuration value is told that there is not; whether assertions are on comes from
/// the profile.
pub proof fn lemma_cfg_options(
    debug_assertions: bool,
    cfgs: Seq<Cfg>,
    family: NativeCompilerFamily,
    word: Text,
)
    requires
        cfg_args(debug_assertions, cfgs, family).contains(word),
    ensures
        (debug_assertions && word == define_word(family) + "CARGO_CFG_"@ + envified(
            "debug_assertions"@,
        ) + "=1"@) || exists|i: int|
            0 <= i < cfgs.len() && !(#[trigger] cfgs[i] matches Cfg::Name(name) && name@
                == "debug_assertions"@) && word == cfg_word(cfgs[i], family),
{
    let own = one_if(debug_assertions, cfg_name_arg("debug_assertions"@, family));
    let told = told_cfgs(cfgs, family);
    let list = own + told;
    let keys = text_keys(list);
    let places = without_repeats(keys, stable_order(keys));
    let args = sorted_texts(list);
    lemma_unique_order(keys);
    let k = choose|k: int| 0 <= k < args.len() && args[k] == word;
    assert(args[k] == list[places[k]]);
    let none = Seq::<Text>::empty();
    assert(list =~= own + told + none + none + none + none + none);
    lemma_seven(own, told, none, none, none, none, none);
    assert(list.contains(word));
    if told.contains(word) {
        lemma_told_from(cfgs, family, word);
    }
}

} // verus!
