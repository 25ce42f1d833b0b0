//! The options that reach compilers and linkers from the configuration and from
//! environment variables.
use vstd::prelude::*;

use crate::config::{config_flags, NativeConfig};
use crate::env::{cargo_target_var, compile_env_flags, encoded_flags, env_flags, env_suffix};
use crate::env::{link_env_flags, plain_target_var, shell_like_flags, EnvVars};
use crate::native::NativeSourceLanguage;
use crate::text::{lemma_word_end, texts, uppered, word_end, words, words_from, Separator, Text};

verus! {

/// A text without separators is one word.
pub proof fn lemma_one_word(w: Text, sep: Separator)
    requires
        w.len() > 0,
        forall|i: int| 0 <= i < w.len() ==> !sep.splits(#[trigger] w[i]),
    ensures
        words(w, sep) == seq![w],
{
    lemma_to_end(w, sep, 1);
    assert(words_from(w, sep, w.len() as int) =~= Seq::empty());
    assert(w.subrange(0, w.len() as int) =~= w);
    assert(words(w, sep) =~= seq![w]);
}

proof fn lemma_to_end(w: Text, sep: Separator, i: int)
    requires
        0 <= i <= w.len(),
        forall|k: int| 0 <= k < w.len() ==> !sep.splits(#[trigger] w[k]),
    ensures
        word_end(w, sep, i) == w.len(),
    decreases w.len() - i,
{
    if i < w.len() {
        assert(!sep.splits(w[i]));
        lemma_to_end(w, sep, i + 1);
    }
}

proof fn lemma_end_shifted(pre: Text, b: Text, sep: Separator, i: int)
    requires
        0 <= i,
    ensures
        word_end(pre + b, sep, pre.len() + i) == pre.len() + word_end(b, sep, i),
    decreases b.len() - i,
{
    if i < b.len() {
        assert((pre + b)[pre.len() + i] == b[i]);
        if !sep.splits(b[i]) {
            lemma_end_shifted(pre, b, sep, i + 1);
        }
    }
}

proof fn lemma_words_shifted(pre: Text, b: Text, sep: Separator, i: int)
    requires
        0 <= i,
    ensures
        words_from(pre + b, sep, pre.len() + i) == words_from(b, sep, i),
    decreases b.len() - i,
{
    let s = pre + b;
    if i < b.len() {
        assert(s[pre.len() + i] == b[i]);
        if sep.splits(b[i]) {
            lemma_words_shifted(pre, b, sep, i + 1);
        } else {
            let e = word_end(b, sep, i + 1);
            lemma_word_end(b, sep, i + 1);
            lemma_end_shifted(pre, b, sep, i + 1);
            assert(word_end(s, sep, pre.len() + i + 1) == pre.len() + e);
            lemma_words_shifted(pre, b, sep, e);
            assert(s.subrange(pre.len() + i, pre.len() + e) =~= b.subrange(i, e));
        }
    }
}

proof fn lemma_end_before(a: Text, c: char, b: Text, sep: Separator, i: int)
    requires
        0 <= i <= a.len(),
        sep.splits(c),
    ensures
        word_end(a.push(c) + b, sep, i) == word_end(a, sep, i),
    decreases a.len() - i,
{
    let s = a.push(c) + b;
    if i < a.len() {
        assert(s[i] == a[i]);
        if !sep.splits(a[i]) {
            lemma_end_before(a, c, b, sep, i + 1);
        }
    } else {
        assert(s[i] == c);
    }
}

proof fn lemma_words_before(a: Text, c: char, b: Text, sep: Separator, i: int)
    requires
        0 <= i <= a.len(),
        sep.splits(c),
    ensures
        words_from(a.push(c) + b, sep, i) == words_from(a, sep, i) + words(b, sep),
    decreases a.len() - i,
{
    let s = a.push(c) + b;
    if i >= a.len() {
        assert(s[i] == c);
        lemma_words_shifted(a.push(c), b, sep, 0);
        assert(words_from(a, sep, i) + words(b, sep) =~= words(b, sep));
    } else {
        assert(s[i] == a[i]);
        if sep.splits(a[i]) {
            lemma_words_before(a, c, b, sep, i + 1);
        } else {
            let e = word_end(a, sep, i + 1);
            lemma_word_end(a, sep, i + 1);
            lemma_end_before(a, c, b, sep, i + 1);
            lemma_words_before(a, c, b, sep, e);
            assert(s.subrange(i, e) =~= a.subrange(i, e));
            assert(seq![a.subrange(i, e)] + (words_from(a, sep, e) + words(b, sep)) =~= (seq![
                a.subrange(i, e),
            ] + words_from(a, sep, e)) + words(b, sep));
        }
    }
}

/// A separator parts words: the words before it and those behind it are the words of
/// the whole.
pub proof fn lemma_words_parted(a: Text, c: char, b: Text, sep: Separator)
    requires
        sep.splits(c),
    ensures
        words(a.push(c) + b, sep) == words(a, sep) + words(b, sep),
        words(Seq::empty(), sep) == Seq::<Text>::empty(),
{
    lemma_words_before(a, c, b, sep, 0);
}

/// The options of a variable are parted by white space, and those of an encoded one by
/// the character U+001F alone.
pub proof fn lemma_option_separators(value: Text)
    ensures
        shell_like_flags(value) == words(value, Separator::Space),
        encoded_flags(value) == words(value, Separator::Char('\u{1f}')),
{
}

/// A variable for one target is named by the upper case of the triple, in which nothing
/// but underscores stands for hyphens and dots.
pub proof fn lemma_suffix(triple: Text)
    ensures
        env_suffix(triple).len() == uppered(triple).len(),
        forall|i: int| 0 <= i < env_suffix(triple).len() ==> {
            let c = uppered(triple)[i];
            if c == '-' || c == '.' {
                #[trigger] env_suffix(triple)[i] == '_'
            } else {
                env_suffix(triple)[i] == c
            }
        },
{
}

/// The variables that options of one sort are taken from.
pub struct FlagVars {
    /// For all targets, as other tools have it.
    pub plain: Text,
    /// For all targets.
    pub cargo: Text,
    /// For all targets, encoded.
    pub encoded: Text,
    /// For one target, as other tools have it.
    pub target_plain: Text,
    /// For one target.
    pub target_cargo: Text,
    /// For one target, encoded.
    pub target_encoded: Text,
}

/// The variables that the options of the C compiler are taken from.
pub open spec fn c_vars(triple: Text) -> FlagVars {
    FlagVars {
        plain: "CFLAGS"@,
        cargo: "CARGO_NATIVE_CFLAGS"@,
        encoded: "CARGO_ENCODED_NATIVE_CFLAGS"@,
        target_plain: "CFLAGS_"@ + env_suffix(triple),
        target_cargo: "CARGO_TARGET_"@ + env_suffix(triple) + "_NATIVE_CFLAGS"@,
        target_encoded: "CARGO_TARGET_"@ + env_suffix(triple) + "_ENCODED_NATIVE_CFLAGS"@,
    }
}

/// The variables that the options of the C++ compiler are taken from.
pub open spec fn cxx_vars(triple: Text) -> FlagVars {
    FlagVars {
        plain: "CXXFLAGS"@,
        cargo: "CARGO_NATIVE_CXXFLAGS"@,
        encoded: "CARGO_ENCODED_NATIVE_CXXFLAGS"@,
        target_plain: "CXXFLAGS_"@ + env_suffix(triple),
        target_cargo: "CARGO_TARGET_"@ + env_suffix(triple) + "_NATIVE_CXXFLAGS"@,
        target_encoded: "CARGO_TARGET_"@ + env_suffix(triple) + "_ENCODED_NATIVE_CXXFLAGS"@,
    }
}

/// The variables that the options of the preprocessor are taken from.
pub open spec fn cpp_vars(triple: Text) -> FlagVars {
    FlagVars {
        plain: "CPPFLAGS"@,
        cargo: "CARGO_NATIVE_CPPFLAGS"@,
        encoded: "CARGO_ENCODED_NATIVE_CPPFLAGS"@,
        target_plain: "CPPFLAGS_"@ + env_suffix(triple),
        target_cargo: "CARGO_TARGET_"@ + env_suffix(triple) + "_NATIVE_CPPFLAGS"@,
        target_encoded: "CARGO_TARGET_"@ + env_suffix(triple) + "_ENCODED_NATIVE_CPPFLAGS"@,
    }
}

/// The variables that the options of the linker are taken from.
pub open spec fn link_vars(triple: Text) -> FlagVars {
    FlagVars {
        plain: "LDFLAGS"@,
        cargo: "CARGO_NATIVE_LDFLAGS"@,
        encoded: "CARGO_ENCODED_NATIVE_LDFLAGS"@,
        target_plain: "LDFLAGS_"@ + env_suffix(triple),
        target_cargo: "CARGO_TARGET_"@ + env_suffix(triple) + "_NATIVE_LDFLAGS"@,
        target_encoded: "CARGO_TARGET_"@ + env_suffix(triple) + "_ENCODED_NATIVE_LDFLAGS"@,
    }
}

/// The words of a value, if there is one.
pub open spec fn words_in(value: Option<Text>) -> Seq<Text> {
    match value {
        Some(value) => words(value, Separator::Space),
        None => Seq::empty(),
    }
}

/// The options in an encoded value, if there is one.
pub open spec fn coded_in(value: Option<Text>) -> Seq<Text> {
    match value {
        Some(value) => words(value, Separator::Char('\u{1f}')),
        None => Seq::empty(),
    }
}

/// What the variables for all targets hold, of which the encoded one counts before the
/// other.
pub open spec fn held_for_all(env: EnvVars, vars: FlagVars) -> Seq<Text> {
    let coded = coded_in(env.text_of(vars.encoded));
    if coded.len() > 0 {
        coded
    } else {
        words_in(env.utf8_value_of(vars.cargo))
    }
}

/// What the variables for one target hold, of which the encoded one counts first.
pub open spec fn held_for_one(env: EnvVars, vars: FlagVars) -> Seq<Text> {
    let coded = coded_in(env.text_of(vars.target_encoded));
    let cargo = words_in(env.text_of(vars.target_cargo));
    if coded.len() > 0 {
        coded
    } else if cargo.len() > 0 {
        cargo
    } else {
        words_in(env.text_of(vars.target_plain))
    }
}

/// Each of the options is among the flags.
pub open spec fn takes(flags: Seq<Text>, options: Seq<Text>) -> bool {
    forall|i: int| 0 <= i < options.len() ==> flags.contains(#[trigger] options[i])
}

/// All that the variables hold is among the flags.
pub open spec fn takes_vars(flags: Seq<Text>, env: EnvVars, vars: FlagVars) -> bool {
    &&& takes(flags, held_for_all(env, vars))
    &&& takes(flags, words_in(env.utf8_value_of(vars.plain)))
    &&& takes(flags, held_for_one(env, vars))
}

/// The option is held by one of the variables.
pub open spec fn is_held(option: Text, env: EnvVars, vars: FlagVars) -> bool {
    ||| held_for_all(env, vars).contains(option)
    ||| words_in(env.utf8_value_of(vars.plain)).contains(option)
    ||| held_for_one(env, vars).contains(option)
}

/// How many options the variables hold.
pub open spec fn held_count(env: EnvVars, vars: FlagVars) -> nat {
    held_for_all(env, vars).len() + words_in(env.utf8_value_of(vars.plain)).len() + held_for_one(
        env,
        vars,
    ).len()
}

proof fn lemma_held(env: EnvVars, triple: Text, coded: Text, cargo: Text, plain: Text, vars: FlagVars)
    requires
        vars.plain == plain,
        vars.cargo == "CARGO_"@ + cargo,
        vars.encoded == "CARGO_ENCODED_"@ + cargo,
        vars.target_plain == plain_target_var(triple, plain),
        vars.target_cargo == cargo_target_var(triple, cargo),
        vars.target_encoded == cargo_target_var(triple, coded),
    ensures
        env_flags(env, triple, coded, cargo, plain) == held_for_all(env, vars) + words_in(
            env.utf8_value_of(plain),
        ) + held_for_one(env, vars),
{
}

/// How the names of the variables for the options of the C compiler are put together.
pub proof fn lemma_c_names(triple: Text)
    ensures
        c_vars(triple).cargo == "CARGO_"@ + "NATIVE_CFLAGS"@,
        c_vars(triple).encoded == "CARGO_ENCODED_"@ + "NATIVE_CFLAGS"@,
        c_vars(triple).target_plain == plain_target_var(triple, "CFLAGS"@),
        c_vars(triple).target_cargo == cargo_target_var(triple, "NATIVE_CFLAGS"@),
        c_vars(triple).target_encoded == cargo_target_var(triple, "ENCODED_NATIVE_CFLAGS"@),
{
    reveal_strlit("CARGO_");
    reveal_strlit("CARGO_ENCODED_");
    reveal_strlit("_");
    reveal_strlit("CFLAGS");
    reveal_strlit("CFLAGS_");
    reveal_strlit("NATIVE_CFLAGS");
    reveal_strlit("_NATIVE_CFLAGS");
    reveal_strlit("ENCODED_NATIVE_CFLAGS");
    reveal_strlit("_ENCODED_NATIVE_CFLAGS");
    reveal_strlit("CARGO_NATIVE_CFLAGS");
    reveal_strlit("CARGO_ENCODED_NATIVE_CFLAGS");
    assert("CARGO_NATIVE_CFLAGS"@ =~= "CARGO_"@ + "NATIVE_CFLAGS"@);
    assert("CARGO_ENCODED_NATIVE_CFLAGS"@ =~= "CARGO_ENCODED_"@ + "NATIVE_CFLAGS"@);
    assert("CFLAGS_"@ =~= "CFLAGS"@ + "_"@);
    assert("_NATIVE_CFLAGS"@ =~= "_"@ + "NATIVE_CFLAGS"@);
    assert("_ENCODED_NATIVE_CFLAGS"@ =~= "_"@ + "ENCODED_NATIVE_CFLAGS"@);
    assert(c_vars(triple).target_cargo =~= cargo_target_var(triple, "NATIVE_CFLAGS"@));
    assert(c_vars(triple).target_encoded =~= cargo_target_var(triple, "ENCODED_NATIVE_CFLAGS"@));
}

/// How the names of the variables for the options of the C++ compiler are put together.
pub proof fn lemma_cxx_names(triple: Text)
    ensures
        cxx_vars(triple).cargo == "CARGO_"@ + "NATIVE_CXXFLAGS"@,
        cxx_vars(triple).encoded == "CARGO_ENCODED_"@ + "NATIVE_CXXFLAGS"@,
        cxx_vars(triple).target_plain == plain_target_var(triple, "CXXFLAGS"@),
        cxx_vars(triple).target_cargo == cargo_target_var(triple, "NATIVE_CXXFLAGS"@),
        cxx_vars(triple).target_encoded == cargo_target_var(triple, "ENCODED_NATIVE_CXXFLAGS"@),
{
    reveal_strlit("CARGO_");
    reveal_strlit("CARGO_ENCODED_");
    reveal_strlit("_");
    reveal_strlit("CXXFLAGS");
    reveal_strlit("CXXFLAGS_");
    reveal_strlit("NATIVE_CXXFLAGS");
    reveal_strlit("_NATIVE_CXXFLAGS");
    reveal_strlit("ENCODED_NATIVE_CXXFLAGS");
    reveal_strlit("_ENCODED_NATIVE_CXXFLAGS");
    reveal_strlit("CARGO_NATIVE_CXXFLAGS");
    reveal_strlit("CARGO_ENCODED_NATIVE_CXXFLAGS");
    assert("CARGO_NATIVE_CXXFLAGS"@ =~= "CARGO_"@ + "NATIVE_CXXFLAGS"@);
    assert("CARGO_ENCODED_NATIVE_CXXFLAGS"@ =~= "CARGO_ENCODED_"@ + "NATIVE_CXXFLAGS"@);
    assert("CXXFLAGS_"@ =~= "CXXFLAGS"@ + "_"@);
    assert("_NATIVE_CXXFLAGS"@ =~= "_"@ + "NATIVE_CXXFLAGS"@);
    assert("_ENCODED_NATIVE_CXXFLAGS"@ =~= "_"@ + "ENCODED_NATIVE_CXXFLAGS"@);
    assert(cxx_vars(triple).target_cargo =~= cargo_target_var(triple, "NATIVE_CXXFLAGS"@));
    assert(cxx_vars(triple).target_encoded =~= cargo_target_var(
        triple,
        "ENCODED_NATIVE_CXXFLAGS"@,
    ));
}

/// How the names of the variables for the options of the preprocessor are put together.
pub proof fn lemma_cpp_names(triple: Text)
    ensures
        cpp_vars(triple).cargo == "CARGO_"@ + "NATIVE_CPPFLAGS"@,
        cpp_vars(triple).encoded == "CARGO_ENCODED_"@ + "NATIVE_CPPFLAGS"@,
        cpp_vars(triple).target_plain == plain_target_var(triple, "CPPFLAGS"@),
        cpp_vars(triple).target_cargo == cargo_target_var(triple, "NATIVE_CPPFLAGS"@),
        cpp_vars(triple).target_encoded == cargo_target_var(triple, "ENCODED_NATIVE_CPPFLAGS"@),
{
    reveal_strlit("CARGO_");
    reveal_strlit("CARGO_ENCODED_");
    reveal_strlit("_");
    reveal_strlit("CPPFLAGS");
    reveal_strlit("CPPFLAGS_");
    reveal_strlit("NATIVE_CPPFLAGS");
    reveal_strlit("_NATIVE_CPPFLAGS");
    reveal_strlit("ENCODED_NATIVE_CPPFLAGS");
    reveal_strlit("_ENCODED_NATIVE_CPPFLAGS");
    reveal_strlit("CARGO_NATIVE_CPPFLAGS");
    reveal_strlit("CARGO_ENCODED_NATIVE_CPPFLAGS");
    assert("CARGO_NATIVE_CPPFLAGS"@ =~= "CARGO_"@ + "NATIVE_CPPFLAGS"@);
    assert("CARGO_ENCODED_NATIVE_CPPFLAGS"@ =~= "CARGO_ENCODED_"@ + "NATIVE_CPPFLAGS"@);
    assert("CPPFLAGS_"@ =~= "CPPFLAGS"@ + "_"@);
    assert("_NATIVE_CPPFLAGS"@ =~= "_"@ + "NATIVE_CPPFLAGS"@);
    assert("_ENCODED_NATIVE_CPPFLAGS"@ =~= "_"@ + "ENCODED_NATIVE_CPPFLAGS"@);
    assert(cpp_vars(triple).target_cargo =~= cargo_target_var(triple, "NATIVE_CPPFLAGS"@));
    assert(cpp_vars(triple).target_encoded =~= cargo_target_var(
        triple,
        "ENCODED_NATIVE_CPPFLAGS"@,
    ));
}

/// How the names of the variables for the options of the linker are put together.
pub proof fn lemma_link_names(triple: Text)
    ensures
        link_vars(triple).cargo == "CARGO_"@ + "NATIVE_LDFLAGS"@,
        link_vars(triple).encoded == "CARGO_ENCODED_"@ + "NATIVE_LDFLAGS"@,
        link_vars(triple).target_plain == plain_target_var(triple, "LDFLAGS"@),
        link_vars(triple).target_cargo == cargo_target_var(triple, "NATIVE_LDFLAGS"@),
        link_vars(triple).target_encoded == cargo_target_var(triple, "ENCODED_NATIVE_LDFLAGS"@),
{
    reveal_strlit("CARGO_");
    reveal_strlit("CARGO_ENCODED_");
    reveal_strlit("_");
    reveal_strlit("LDFLAGS");
    reveal_strlit("LDFLAGS_");
    reveal_strlit("NATIVE_LDFLAGS");
    reveal_strlit("_NATIVE_LDFLAGS");
    reveal_strlit("ENCODED_NATIVE_LDFLAGS");
    reveal_strlit("_ENCODED_NATIVE_LDFLAGS");
    reveal_strlit("CARGO_NATIVE_LDFLAGS");
    reveal_strlit("CARGO_ENCODED_NATIVE_LDFLAGS");
    assert("CARGO_NATIVE_LDFLAGS"@ =~= "CARGO_"@ + "NATIVE_LDFLAGS"@);
    assert("CARGO_ENCODED_NATIVE_LDFLAGS"@ =~= "CARGO_ENCODED_"@ + "NATIVE_LDFLAGS"@);
    assert("LDFLAGS_"@ =~= "LDFLAGS"@ + "_"@);
    assert("_NATIVE_LDFLAGS"@ =~= "_"@ + "NATIVE_LDFLAGS"@);
    assert("_ENCODED_NATIVE_LDFLAGS"@ =~= "_"@ + "ENCODED_NATIVE_LDFLAGS"@);
    assert(link_vars(triple).target_cargo =~= cargo_target_var(triple, "NATIVE_LDFLAGS"@));
    assert(link_vars(triple).target_encoded =~= cargo_target_var(
        triple,
        "ENCODED_NATIVE_LDFLAGS"@,
    ));
}

/// The variables for the sources of a language.
pub open spec fn language_vars(triple: Text, language: NativeSourceLanguage) -> FlagVars {
    match language {
        NativeSourceLanguage::C => c_vars(triple),
        NativeSourceLanguage::Cpp => cxx_vars(triple),
    }
}

/// What reaches a compiler beside the options of the configuration.
pub open spec fn held_for_source(env: EnvVars, triple: Text, language: NativeSourceLanguage) -> Seq<
    Text,
> {
    let cpp = cpp_vars(triple);
    let own = language_vars(triple, language);
    held_for_all(env, cpp) + words_in(env.utf8_value_of(cpp.plain)) + held_for_one(env, cpp)
        + held_for_all(env, own) + words_in(env.utf8_value_of(own.plain)) + held_for_one(env, own)
}

proof fn lemma_compile_held(
    env: EnvVars,
    triple: Text,
    language: NativeSourceLanguage,
    cpp: Seq<Text>,
    c: Seq<Text>,
    cxx: Seq<Text>,
)
    ensures
        compile_env_flags(env, triple, language, cpp, c, cxx) == cpp + (match language {
            NativeSourceLanguage::C => c,
            NativeSourceLanguage::Cpp => cxx,
        }) + held_for_source(env, triple, language),
{
    lemma_cpp_names(triple);
    lemma_c_names(triple);
    lemma_cxx_names(triple);
    lemma_held(
        env,
        triple,
        "ENCODED_NATIVE_CPPFLAGS"@,
        "NATIVE_CPPFLAGS"@,
        "CPPFLAGS"@,
        cpp_vars(triple),
    );
    lemma_held(env, triple, "ENCODED_NATIVE_CFLAGS"@, "NATIVE_CFLAGS"@, "CFLAGS"@, c_vars(triple));
    lemma_held(
        env,
        triple,
        "ENCODED_NATIVE_CXXFLAGS"@,
        "NATIVE_CXXFLAGS"@,
        "CXXFLAGS"@,
        cxx_vars(triple),
    );
    let p = cpp_vars(triple);
    let v = language_vars(triple, language);
    let own = match language {
        NativeSourceLanguage::C => c,
        NativeSourceLanguage::Cpp => cxx,
    };
    lemma_regroup(
        cpp + own,
        held_for_all(env, p),
        words_in(env.utf8_value_of(p.plain)),
        held_for_one(env, p),
        held_for_all(env, v),
        words_in(env.utf8_value_of(v.plain)),
        held_for_one(env, v),
    );
}

proof fn lemma_regroup(
    s0: Seq<Text>,
    s1: Seq<Text>,
    s2: Seq<Text>,
    s3: Seq<Text>,
    s4: Seq<Text>,
    s5: Seq<Text>,
    s6: Seq<Text>,
)
    ensures
        s0 + (s1 + s2 + s3) + (s4 + s5 + s6) == s0 + (s1 + s2 + s3 + s4 + s5 + s6),
{
    assert(s0 + (s1 + s2 + s3) + (s4 + s5 + s6) =~= s0 + (s1 + s2 + s3 + s4 + s5 + s6));
}

/// What the variables hold comes behind the options of the configuration.
pub proof fn lemma_compile_parts(
    env: EnvVars,
    triple: Text,
    language: NativeSourceLanguage,
    cpp: Seq<Text>,
    c: Seq<Text>,
    cxx: Seq<Text>,
)
    ensures
        compile_env_flags(env, triple, language, cpp, c, cxx) == cpp + (match language {
            NativeSourceLanguage::C => c,
            NativeSourceLanguage::Cpp => cxx,
        }) + held_for_source(env, triple, language),
{
    lemma_compile_held(env, triple, language, cpp, c, cxx);
}

proof fn lemma_either(a: Seq<Text>, b: Seq<Text>, x: Text)
    ensures
        (a + b).contains(x) <==> a.contains(x) || b.contains(x),
{
    let all = a + b;
    if a.contains(x) {
        let i = choose|i: int| 0 <= i < a.len() && a[i] == x;
        assert(all[i] == x);
    }
    if b.contains(x) {
        let i = choose|i: int| 0 <= i < b.len() && b[i] == x;
        assert(all[a.len() + i] == x);
    }
    if all.contains(x) {
        let i = choose|i: int| 0 <= i < all.len() && all[i] == x;
        if i < a.len() {
            assert(a[i] == x);
        } else {
            assert(b[i - a.len()] == x);
        }
    }
}

/// What seven lists that stand one behind the other hold, their parts hold.
pub proof fn lemma_seven(
    s0: Seq<Text>,
    s1: Seq<Text>,
    s2: Seq<Text>,
    s3: Seq<Text>,
    s4: Seq<Text>,
    s5: Seq<Text>,
    s6: Seq<Text>,
)
    ensures
        forall|x: Text| #[trigger]
            (s0 + s1 + s2 + s3 + s4 + s5 + s6).contains(x) <==> s0.contains(x) || s1.contains(x)
                || s2.contains(x) || s3.contains(x) || s4.contains(x) || s5.contains(x)
                || s6.contains(x),
{
    assert forall|x: Text| #[trigger]
        (s0 + s1 + s2 + s3 + s4 + s5 + s6).contains(x) <==> s0.contains(x) || s1.contains(x)
            || s2.contains(x) || s3.contains(x) || s4.contains(x) || s5.contains(x) || s6.contains(
        x,
    ) by {
        lemma_either(s0, s1, x);
        lemma_either(s0 + s1, s2, x);
        lemma_either(s0 + s1 + s2, s3, x);
        lemma_either(s0 + s1 + s2 + s3, s4, x);
        lemma_either(s0 + s1 + s2 + s3 + s4, s5, x);
        lemma_either(s0 + s1 + s2 + s3 + s4 + s5, s6, x);
    }
}

proof fn lemma_takes(flags: Seq<Text>, part: Seq<Text>)
    requires
        forall|x: Text| part.contains(x) ==> #[trigger] flags.contains(x),
    ensures
        takes(flags, part),
{
    assert forall|i: int| 0 <= i < part.len() implies flags.contains(#[trigger] part[i]) by {
        assert(part.contains(part[i]));
    }
}

/// All that the configuration and the variables for the preprocessor and the language
/// hold reaches the sources of the language, the configuration first, and nothing else
/// does.
pub proof fn lemma_compile_options(
    env: EnvVars,
    triple: Text,
    language: NativeSourceLanguage,
    cpp: Seq<Text>,
    c: Seq<Text>,
    cxx: Seq<Text>,
)
    ensures
        ({
            let flags = compile_env_flags(env, triple, language, cpp, c, cxx);
            let own = match language {
                NativeSourceLanguage::C => c,
                NativeSourceLanguage::Cpp => cxx,
            };
            let vars = language_vars(triple, language);
            &&& (cpp + own).is_prefix_of(flags)
            &&& takes_vars(flags, env, cpp_vars(triple))
            &&& takes_vars(flags, env, vars)
            &&& flags.len() == cpp.len() + own.len() + held_count(env, cpp_vars(triple))
                + held_count(env, vars)
            &&& forall|i: int| 0 <= i < flags.len() ==> {
                ||| cpp.contains(#[trigger] flags[i])
                ||| own.contains(flags[i])
                ||| is_held(flags[i], env, cpp_vars(triple))
                ||| is_held(flags[i], env, vars)
            }
        }),
{
    let flags = compile_env_flags(env, triple, language, cpp, c, cxx);
    let own = match language {
        NativeSourceLanguage::C => c,
        NativeSourceLanguage::Cpp => cxx,
    };
    lemma_compile_held(env, triple, language, cpp, c, cxx);
    let p = cpp_vars(triple);
    let v = language_vars(triple, language);
    let s0 = cpp + own;
    let s1 = held_for_all(env, p);
    let s2 = words_in(env.utf8_value_of(p.plain));
    let s3 = held_for_one(env, p);
    let s4 = held_for_all(env, v);
    let s5 = words_in(env.utf8_value_of(v.plain));
    let s6 = held_for_one(env, v);
    lemma_regroup_flat(s0, s1, s2, s3, s4, s5, s6);
    lemma_seven(s0, s1, s2, s3, s4, s5, s6);
    lemma_takes(flags, s1);
    lemma_takes(flags, s2);
    lemma_takes(flags, s3);
    lemma_takes(flags, s4);
    lemma_takes(flags, s5);
    lemma_takes(flags, s6);
    assert((cpp + own).is_prefix_of(flags));
    assert forall|i: int| 0 <= i < flags.len() implies {
        ||| cpp.contains(#[trigger] flags[i])
        ||| own.contains(flags[i])
        ||| is_held(flags[i], env, p)
        ||| is_held(flags[i], env, v)
    } by {
        assert(flags.contains(flags[i]));
        lemma_either(cpp, own, flags[i]);
    }
}

proof fn lemma_regroup_flat(
    s0: Seq<Text>,
    s1: Seq<Text>,
    s2: Seq<Text>,
    s3: Seq<Text>,
    s4: Seq<Text>,
    s5: Seq<Text>,
    s6: Seq<Text>,
)
    ensures
        s0 + (s1 + s2 + s3 + s4 + s5 + s6) == s0 + s1 + s2 + s3 + s4 + s5 + s6,
{
    assert(s0 + (s1 + s2 + s3 + s4 + s5 + s6) =~= s0 + s1 + s2 + s3 + s4 + s5 + s6);
}

/// Options for all targets come before those for one target, those of the preprocessor
/// before those of the language, and what other tools read too stands between.
pub proof fn lemma_compile_order(
    env: EnvVars,
    triple: Text,
    language: NativeSourceLanguage,
)
    ensures
        compile_env_flags(env, triple, language, Seq::empty(), Seq::empty(), Seq::empty())
            == held_for_source(env, triple, language),
{
    let none = Seq::<Text>::empty();
    lemma_compile_held(env, triple, language, none, none, none);
    assert(none + none + held_for_source(env, triple, language) =~= held_for_source(
        env,
        triple,
        language,
    ));
}

/// All that the configuration and the variables for the linker hold reaches the linker,
/// the configuration first, and nothing else does.
pub proof fn lemma_link_options(env: EnvVars, triple: Text, config: Seq<Text>)
    ensures
        ({
            let flags = link_env_flags(env, triple, config);
            let vars = link_vars(triple);
            &&& flags == config + held_for_all(env, vars) + words_in(
                env.utf8_value_of(vars.plain),
            ) + held_for_one(env, vars)
            &&& takes(flags, config)
            &&& takes_vars(flags, env, vars)
        }),
{
    let flags = link_env_flags(env, triple, config);
    let v = link_vars(triple);
    lemma_link_names(triple);
    lemma_held(env, triple, "ENCODED_NATIVE_LDFLAGS"@, "NATIVE_LDFLAGS"@, "LDFLAGS"@, v);
    let s1 = held_for_all(env, v);
    let s2 = words_in(env.utf8_value_of(v.plain));
    let s3 = held_for_one(env, v);
    assert(flags =~= config + s1 + s2 + s3);
    let none = Seq::<Text>::empty();
    assert(flags =~= config + s1 + s2 + s3 + none + none + none);
    lemma_seven(config, s1, s2, s3, none, none, none);
    lemma_takes(flags, config);
    lemma_takes(flags, s1);
    lemma_takes(flags, s2);
    lemma_takes(flags, s3);
}

/// What is held where none of the variables is set: nothing.
pub open spec fn none_set(env: EnvVars, vars: FlagVars) -> bool {
    &&& env.value_of(vars.plain) is None
    &&& env.value_of(vars.cargo) is None
    &&& env.value_of(vars.encoded) is None
    &&& env.value_of(vars.target_plain) is None
    &&& env.value_of(vars.target_cargo) is None
    &&& env.value_of(vars.target_encoded) is None
}

/// The first of the variables that is set has this value, in the order in which they
/// are asked; all the others are not set.
pub open spec fn only_set(env: EnvVars, vars: FlagVars, var: Text, value: Text) -> bool {
    &&& env.text_of(var) == Some(value)
    &&& env.utf8_value_of(var) == Some(value)
    &&& var == vars.plain || env.value_of(vars.plain) is None
    &&& var == vars.cargo || env.value_of(vars.cargo) is None
    &&& var == vars.encoded || env.value_of(vars.encoded) is None
    &&& var == vars.target_plain || env.value_of(vars.target_plain) is None
    &&& var == vars.target_cargo || env.value_of(vars.target_cargo) is None
    &&& var == vars.target_encoded || env.value_of(vars.target_encoded) is None
}

/// The variable is one of those.
pub open spec fn is_one_of(var: Text, vars: FlagVars) -> bool {
    ||| var == vars.plain
    ||| var == vars.cargo
    ||| var == vars.encoded
    ||| var == vars.target_plain
    ||| var == vars.target_cargo
    ||| var == vars.target_encoded
}

/// The names of the variables differ.
pub open spec fn all_differ(vars: FlagVars) -> bool {
    &&& vars.plain != vars.cargo
    &&& vars.plain != vars.encoded
    &&& vars.plain != vars.target_plain
    &&& vars.plain != vars.target_cargo
    &&& vars.plain != vars.target_encoded
    &&& vars.cargo != vars.encoded
    &&& vars.cargo != vars.target_plain
    &&& vars.cargo != vars.target_cargo
    &&& vars.cargo != vars.target_encoded
    &&& vars.encoded != vars.target_plain
    &&& vars.encoded != vars.target_cargo
    &&& vars.encoded != vars.target_encoded
    &&& vars.target_plain != vars.target_cargo
    &&& vars.target_plain != vars.target_encoded
    &&& vars.target_cargo != vars.target_encoded
}

/// Where one of the variables holds one option and the others are not set, that option
/// is all that the variables give.
pub proof fn lemma_one_option(env: EnvVars, vars: FlagVars, var: Text, option: Text)
    requires
        all_differ(vars),
        is_one_of(var, vars),
        only_set(env, vars, var, option),
        option.len() > 0,
        forall|i: int| 0 <= i < option.len() ==> !Separator::Space.splits(#[trigger] option[i])
            && option[i] != '\u{1f}',
    ensures
        held_for_all(env, vars) + words_in(env.utf8_value_of(vars.plain)) + held_for_one(env, vars)
            == seq![option],
{
    lemma_one_word(option, Separator::Space);
    lemma_one_word(option, Separator::Char('\u{1f}'));
    assert(held_for_all(env, vars) + words_in(env.utf8_value_of(vars.plain)) + held_for_one(
        env,
        vars,
    ) =~= seq![option]);
}

proof fn lemma_lengths_differ(triple: Text)
    ensures
        all_differ(c_vars(triple)),
        all_differ(cxx_vars(triple)),
        all_differ(cpp_vars(triple)),
        all_differ(link_vars(triple)),
{
    reveal_strlit("CARGO_TARGET_");
    reveal_strlit("CFLAGS");
    reveal_strlit("CFLAGS_");
    reveal_strlit("CARGO_NATIVE_CFLAGS");
    reveal_strlit("CARGO_ENCODED_NATIVE_CFLAGS");
    reveal_strlit("_NATIVE_CFLAGS");
    reveal_strlit("_ENCODED_NATIVE_CFLAGS");
    reveal_strlit("CXXFLAGS");
    reveal_strlit("CXXFLAGS_");
    reveal_strlit("CARGO_NATIVE_CXXFLAGS");
    reveal_strlit("CARGO_ENCODED_NATIVE_CXXFLAGS");
    reveal_strlit("_NATIVE_CXXFLAGS");
    reveal_strlit("_ENCODED_NATIVE_CXXFLAGS");
    reveal_strlit("CPPFLAGS");
    reveal_strlit("CPPFLAGS_");
    reveal_strlit("CARGO_NATIVE_CPPFLAGS");
    reveal_strlit("CARGO_ENCODED_NATIVE_CPPFLAGS");
    reveal_strlit("_NATIVE_CPPFLAGS");
    reveal_strlit("_ENCODED_NATIVE_CPPFLAGS");
    reveal_strlit("LDFLAGS");
    reveal_strlit("LDFLAGS_");
    reveal_strlit("CARGO_NATIVE_LDFLAGS");
    reveal_strlit("CARGO_ENCODED_NATIVE_LDFLAGS");
    reveal_strlit("_NATIVE_LDFLAGS");
    reveal_strlit("_ENCODED_NATIVE_LDFLAGS");
    lemma_vars_differ(c_vars(triple));
    lemma_vars_differ(cxx_vars(triple));
    lemma_vars_differ(cpp_vars(triple));
    lemma_vars_differ(link_vars(triple));
}

proof fn lemma_vars_differ(vars: FlagVars)
    requires
        vars.plain.len() >= 7 || vars.plain.len() == 6,
        vars.plain.len() < vars.cargo.len() < vars.encoded.len(),
        vars.plain.len() < vars.target_plain.len(),
        vars.plain.len() < vars.target_cargo.len() < vars.target_encoded.len(),
        vars.cargo[1] == 'A' && vars.cargo[6] == 'N',
        vars.encoded[1] == 'A' && vars.encoded[6] == 'E',
        vars.target_plain[1] != 'A',
        vars.target_cargo[1] == 'A' && vars.target_cargo[6] == 'T',
        vars.target_encoded[1] == 'A' && vars.target_encoded[6] == 'T',
    ensures
        all_differ(vars),
{
}

/// One option in one of the variables, and nothing else set, is the one option of the
/// sources that the variable is for.
pub proof fn lemma_one_compile_option(
    env: EnvVars,
    triple: Text,
    language: NativeSourceLanguage,
    var: Text,
    option: Text,
)
    requires
        option.len() > 0,
        forall|i: int| 0 <= i < option.len() ==> !Separator::Space.splits(#[trigger] option[i])
            && option[i] != '\u{1f}',
        ({
            ||| is_one_of(var, cpp_vars(triple)) && only_set(env, cpp_vars(triple), var, option)
                && none_set(env, language_vars(triple, language))
            ||| is_one_of(var, language_vars(triple, language)) && only_set(
                env,
                language_vars(triple, language),
                var,
                option,
            ) && none_set(env, cpp_vars(triple))
        }),
    ensures
        compile_env_flags(env, triple, language, Seq::empty(), Seq::empty(), Seq::empty()) == seq![
            option,
        ],
{
    let p = cpp_vars(triple);
    let v = language_vars(triple, language);
    lemma_lengths_differ(triple);
    lemma_compile_order(env, triple, language);
    let s1 = held_for_all(env, p) + words_in(env.utf8_value_of(p.plain)) + held_for_one(env, p);
    let s2 = held_for_all(env, v) + words_in(env.utf8_value_of(v.plain)) + held_for_one(env, v);
    assert(held_for_source(env, triple, language) =~= s1 + s2);
    if is_one_of(var, p) && only_set(env, p, var, option) && none_set(env, v) {
        lemma_one_option(env, p, var, option);
        assert(s2 =~= Seq::empty());
    } else {
        lemma_one_option(env, v, var, option);
        assert(s1 =~= Seq::empty());
    }
    assert(s1 + s2 =~= seq![option]);
}

/// One option in one of the variables for the linker is its one option.
pub proof fn lemma_one_link_option(env: EnvVars, triple: Text, var: Text, option: Text)
    requires
        option.len() > 0,
        forall|i: int| 0 <= i < option.len() ==> !Separator::Space.splits(#[trigger] option[i])
            && option[i] != '\u{1f}',
        is_one_of(var, link_vars(triple)),
        only_set(env, link_vars(triple), var, option),
    ensures
        link_env_flags(env, triple, Seq::empty()) == seq![option],
{
    let v = link_vars(triple);
    lemma_lengths_differ(triple);
    lemma_link_options(env, triple, Seq::empty());
    lemma_one_option(env, v, var, option);
    assert(link_env_flags(env, triple, Seq::empty()) =~= held_for_all(env, v) + words_in(
        env.utf8_value_of(v.plain),
    ) + held_for_one(env, v));
}

/// The options that a table sets for one key.
pub open spec fn table_flags(list: Option<Vec<String>>) -> Seq<Text> {
    match list {
        Some(list) => texts(list@),
        None => Seq::empty(),
    }
}

/// The options of the configuration are those of the table `build` and then those of the
/// table of the target; a table that cannot be read is the error, `build` first.
pub proof fn lemma_config_options(config: NativeConfig)
    ensures
        match (config.build, config.target) {
            (Ok(build), Ok(target)) => {
                &&& config_flags(config, "native-cflags"@) == Ok::<Seq<Text>, Text>(
                    table_flags(build.native_cflags) + table_flags(target.native_cflags),
                )
                &&& config_flags(config, "native-cppflags"@) == Ok::<Seq<Text>, Text>(
                    table_flags(build.native_cppflags) + table_flags(target.native_cppflags),
                )
                &&& config_flags(config, "native-cxxflags"@) == Ok::<Seq<Text>, Text>(
                    table_flags(build.native_cxxflags) + table_flags(target.native_cxxflags),
                )
                &&& config_flags(config, "native-ldflags"@) == Ok::<Seq<Text>, Text>(
                    table_flags(build.native_ldflags) + table_flags(target.native_ldflags),
                )
            },
            (Err(e), _) => forall|key: Text| #[trigger]
                config_flags(config, key) == Err::<Seq<Text>, Text>(e@),
            (_, Err(e)) => forall|key: Text| #[trigger]
                config_flags(config, key) == Err::<Seq<Text>, Text>(e@),
        },
{
    reveal_strlit("native-cflags");
    reveal_strlit("native-cppflags");
    reveal_strlit("native-cxxflags");
    reveal_strlit("native-ldflags");
    assert("native-cflags"@.len() == 13);
    assert("native-cppflags"@.len() == 15);
    assert("native-cxxflags"@.len() == 15);
    assert("native-ldflags"@.len() == 14);
    assert("native-cppflags"@[8] != "native-cxxflags"@[8]);
}

} // verus!
