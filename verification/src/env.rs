//! Environment variables that the native compilers and their options are taken
//! from.
use vstd::prelude::*;

use crate::native::NativeSourceLanguage;
use crate::os_text::{opt_os, opt_os_list, read_text, readable, where_utf8, OsText, OsTextView};
use crate::text::{append_list, ascii_lowered, ascii_uppered, copy_list, is_ascii_text};
use crate::text::{lowercase_ascii, no_texts, opt_text};
use crate::text::{replace_char, same_text, split_words};
use crate::text::{text2, text3, text4, texts, uppercase, uppered, words, Separator, Text};

verus! {

/// An environment variable.
#[derive(Debug)]
pub struct EnvVar {
    /// Its name.
    pub name: String,
    /// Its value.
    pub value: OsText,
}

/// The environment variables of a process.
#[derive(Debug)]
pub struct EnvVars {
    /// The variables; where a name occurs more than once, the first one counts.
    pub vars: Vec<EnvVar>,
    /// Whether the host takes names that differ in the case of letters for the same.
    pub ignores_case: bool,
}

/// Two names are those of the same variable.
pub open spec fn same_var(a: Text, b: Text, ignores_case: bool) -> bool {
    if ignores_case {
        ascii_lowered(a) == ascii_lowered(b)
    } else {
        a == b
    }
}

fn is_same_var(a: &str, b: &str, ignores_case: bool) -> (r: bool)
    ensures
        r == same_var(a@, b@, ignores_case),
{
    if ignores_case {
        same_text(lowercase_ascii(a).as_str(), lowercase_ascii(b).as_str())
    } else {
        same_text(a, b)
    }
}

/// The first variable of a list that has the name.
pub open spec fn find_var(vars: Seq<EnvVar>, name: Text, ignores_case: bool) -> Option<EnvVar>
    decreases vars.len(),
{
    if vars.len() == 0 {
        None
    } else if same_var(vars[0].name@, name, ignores_case) {
        Some(vars[0])
    } else {
        find_var(vars.skip(1), name, ignores_case)
    }
}

impl EnvVars {
    /// The value of a variable.
    pub open spec fn value_of(self, name: Text) -> Option<OsTextView> {
        match find_var(self.vars@, name, self.ignores_case) {
            Some(var) => Some(var.value@),
            None => None,
        }
    }

    /// The value of a variable, as it is read.
    pub open spec fn text_of(self, name: Text) -> Option<Text> {
        readable(self.value_of(name))
    }

    /// The value of a variable, where it is UTF-8.
    pub open spec fn utf8_value_of(self, name: Text) -> Option<Text> {
        where_utf8(self.value_of(name))
    }

    fn find(&self, name: &str) -> (r: Option<&EnvVar>)
        ensures
            match r {
                Some(var) => find_var(self.vars@, name@, self.ignores_case) == Some(*var),
                None => find_var(self.vars@, name@, self.ignores_case) is None,
            },
    {
        let mut i: usize = 0;
        assert(self.vars@.skip(0) =~= self.vars@);
        while i < self.vars.len()
            invariant
                i <= self.vars@.len(),
                find_var(self.vars@, name@, self.ignores_case) == find_var(
                    self.vars@.skip(i as int),
                    name@,
                    self.ignores_case,
                ),
            decreases self.vars@.len() - i,
        {
            if is_same_var(self.vars[i].name.as_str(), name, self.ignores_case) {
                return Some(&self.vars[i]);
            }
            assert(self.vars@.skip(i as int).skip(1) =~= self.vars@.skip(i + 1));
            i = i + 1;
        }
        None
    }

    /// The value of a variable.
    pub fn get(&self, name: &str) -> (r: Option<OsText>)
        ensures
            opt_os(r) == self.value_of(name@),
    {
        match self.find(name) {
            Some(var) => Some(var.value.copy()),
            None => None,
        }
    }

    /// The value of a variable, as it is read.
    pub fn get_text(&self, name: &str) -> (r: Option<String>)
        ensures
            opt_text(r) == self.text_of(name@),
    {
        read_text(self.get(name))
    }

    /// The value of a variable, where it is UTF-8.
    pub fn get_utf8(&self, name: &str) -> (r: Option<String>)
        ensures
            opt_text(r) == self.utf8_value_of(name@),
    {
        match self.find(name) {
            Some(var) => match var.value.bytes {
                Some(_) => None,
                None => Some(var.value.text.clone()),
            },
            None => None,
        }
    }
}

/// A text with an underscore in the place of each hyphen and dot.
pub open spec fn underscored(s: Text) -> Text {
    s.map_values(|c: char| if c == '-' || c == '.' { '_' } else { c })
}

/// The text with an underscore in the place of each hyphen and dot.
pub fn with_underscores(s: &str) -> (r: String)
    ensures
        r@ == underscored(s@),
{
    let r = replace_char(s, '-', '_');
    let r = replace_char(r.as_str(), '.', '_');
    assert(r@ =~= underscored(s@));
    r
}

/// A target triple as a part of the name of an environment variable.
pub open spec fn env_suffix(target_triple: Text) -> Text {
    underscored(uppered(target_triple))
}

/// A target triple as a part of the name of an environment variable.
pub fn target_env_suffix(target_triple: &str) -> (r: String)
    ensures
        r@ == env_suffix(target_triple@),
        is_ascii_text(target_triple@) ==> r@ == underscored(ascii_uppered(target_triple@)),
{
    let up = uppercase(target_triple);
    with_underscores(up.as_str())
}

/// The name of the variable `CARGO_TARGET_<triple>_<key>`.
pub open spec fn cargo_target_var(target_triple: Text, key: Text) -> Text {
    "CARGO_TARGET_"@ + env_suffix(target_triple) + "_"@ + key
}

/// The name of the variable `<key>_<triple>`.
pub open spec fn plain_target_var(target_triple: Text, key: Text) -> Text {
    key + "_"@ + env_suffix(target_triple)
}

fn plain_target_var_of(target_triple: &str, key: &str) -> (r: String)
    ensures
        r@ == plain_target_var(target_triple@, key@),
{
    let suffix = target_env_suffix(target_triple);
    text3(key, "_", suffix.as_str())
}

/// The value of `CARGO_TARGET_<triple>_<key>`.
pub open spec fn cargo_target_value(env: EnvVars, target_triple: Text, key: Text) -> Option<
    OsTextView,
> {
    env.value_of(cargo_target_var(target_triple, key))
}

/// The value of `CARGO_TARGET_<triple>_<key>`.
pub fn target_cargo_native_env(env: &EnvVars, target_triple: &str, key: &str) -> (r: Option<OsText>)
    ensures
        opt_os(r) == cargo_target_value(*env, target_triple@, key@),
{
    let suffix = target_env_suffix(target_triple);
    let name = text4("CARGO_TARGET_", suffix.as_str(), "_", key);
    env.get(name.as_str())
}

/// The first of two values that is there.
pub open spec fn first_of<T>(a: Option<T>, b: Option<T>) -> Option<T> {
    match a {
        Some(_) => a,
        None => b,
    }
}

/// The native tool that the environment sets for a target:
/// `CARGO_TARGET_<triple>_NATIVE_<key>`, else `<key>_<triple>`.
pub open spec fn tool_env(env: EnvVars, target_triple: Text, key: Text) -> Option<OsTextView> {
    first_of(
        cargo_target_value(env, target_triple, "NATIVE_"@ + key),
        env.value_of(plain_target_var(target_triple, key)),
    )
}

/// The native tool that the environment sets for a target.
pub fn target_native_tool_env(env: &EnvVars, target_triple: &str, key: &str) -> (r: Option<OsText>)
    ensures
        opt_os(r) == tool_env(*env, target_triple@, key@),
{
    let native = text2("NATIVE_", key);
    match target_cargo_native_env(env, target_triple, native.as_str()) {
        Some(tool) => Some(tool),
        None => {
            let name = plain_target_var_of(target_triple, key);
            env.get(name.as_str())
        },
    }
}

/// Options separated by white space.
pub open spec fn shell_like_flags(value: Text) -> Seq<Text> {
    words(value, Separator::Space)
}

/// Options separated by the character U+001F, without empty ones.
pub open spec fn encoded_flags(value: Text) -> Seq<Text> {
    words(value, Separator::Char('\u{1f}'))
}

/// Options separated by white space.
pub fn split_shell_like_flags(value: &str) -> (r: Vec<String>)
    ensures
        texts(r@) == shell_like_flags(value@),
{
    split_words(value, Separator::Space)
}

/// Options separated by the character U+001F, without empty ones.
pub fn split_encoded_flags(value: &str) -> (r: Vec<String>)
    ensures
        texts(r@) == encoded_flags(value@),
{
    split_words(value, Separator::Char('\u{1f}'))
}

/// The options in a value separated by white space; none without a value.
pub open spec fn flags_of(value: Option<Text>) -> Seq<Text> {
    match value {
        Some(value) => shell_like_flags(value),
        None => Seq::empty(),
    }
}

/// The options in an encoded value; none without a value.
pub open spec fn encoded_flags_of(value: Option<Text>) -> Seq<Text> {
    match value {
        Some(value) => encoded_flags(value),
        None => Seq::empty(),
    }
}

/// The first of two lists, or the second where the first is empty.
pub open spec fn first_filled(a: Seq<Text>, b: Seq<Text>) -> Seq<Text> {
    if a.len() > 0 {
        a
    } else {
        b
    }
}

fn split_opt_flags(value: Option<String>) -> (r: Vec<String>)
    ensures
        texts(r@) == flags_of(opt_text(value)),
{
    match value {
        Some(value) => split_shell_like_flags(value.as_str()),
        None => no_texts(),
    }
}

fn split_opt_encoded_flags(value: Option<String>) -> (r: Vec<String>)
    ensures
        texts(r@) == encoded_flags_of(opt_text(value)),
{
    match value {
        Some(value) => split_encoded_flags(value.as_str()),
        None => no_texts(),
    }
}

/// The options in a variable, where its value is UTF-8.
pub open spec fn plain_flags(env: EnvVars, var: Text) -> Seq<Text> {
    flags_of(env.utf8_value_of(var))
}

/// The options in a variable, where its value is UTF-8.
pub fn read_plain_flag_env(env: &EnvVars, var: &str) -> (r: Vec<String>)
    ensures
        texts(r@) == plain_flags(*env, var@),
{
    split_opt_flags(env.get_utf8(var))
}

/// The options in `<key>_<triple>`.
pub open spec fn target_plain_flags(env: EnvVars, target_triple: Text, key: Text) -> Seq<Text> {
    flags_of(env.text_of(plain_target_var(target_triple, key)))
}

/// The options in `<key>_<triple>`.
pub fn target_plain_flag_env(env: &EnvVars, target_triple: &str, key: &str) -> (r: Vec<String>)
    ensures
        texts(r@) == target_plain_flags(*env, target_triple@, key@),
{
    let name = plain_target_var_of(target_triple, key);
    split_opt_flags(env.get_text(name.as_str()))
}

/// The options in an encoded variable, or, where there are none, those in a plain
/// one.
pub open spec fn native_flags(env: EnvVars, encoded: Text, plain: Text) -> Seq<Text> {
    first_filled(encoded_flags_of(env.text_of(encoded)), plain_flags(env, plain))
}

/// The options in an encoded variable, or else those in a plain one.
pub fn read_native_flag_env(env: &EnvVars, encoded: &str, plain: &str) -> (r: Vec<String>)
    ensures
        texts(r@) == native_flags(*env, encoded@, plain@),
{
    let value = split_opt_encoded_flags(env.get_text(encoded));
    assert(texts(value@).len() == value@.len());
    if value.len() > 0 {
        return value;
    }
    read_plain_flag_env(env, plain)
}

/// The options that the environment sets for one target: the first that are there
/// of those in the encoded variable, in the plain one, and in `<key>_<triple>`.
pub open spec fn target_native_flags(
    env: EnvVars,
    target_triple: Text,
    cargo_encoded_key: Text,
    cargo_plain_key: Text,
    plain_key: Text,
) -> Seq<Text> {
    first_filled(
        encoded_flags_of(readable(cargo_target_value(env, target_triple, cargo_encoded_key))),
        first_filled(
            flags_of(readable(cargo_target_value(env, target_triple, cargo_plain_key))),
            target_plain_flags(env, target_triple, plain_key),
        ),
    )
}

/// The options that the environment sets for one target.
pub fn read_target_native_flag_env(
    env: &EnvVars,
    target_triple: &str,
    cargo_encoded_key: &str,
    cargo_plain_key: &str,
    plain_key: &str,
) -> (r: Vec<String>)
    ensures
        texts(r@) == target_native_flags(
            *env,
            target_triple@,
            cargo_encoded_key@,
            cargo_plain_key@,
            plain_key@,
        ),
{
    let encoded = split_opt_encoded_flags(
        read_text(target_cargo_native_env(env, target_triple, cargo_encoded_key)),
    );
    assert(texts(encoded@).len() == encoded@.len());
    if encoded.len() > 0 {
        return encoded;
    }
    let split = split_opt_flags(
        read_text(target_cargo_native_env(env, target_triple, cargo_plain_key)),
    );
    assert(texts(split@).len() == split@.len());
    if split.len() > 0 {
        return split;
    }
    target_plain_flag_env(env, target_triple, plain_key)
}

/// The options that the environment sets: those for all targets out of
/// `CARGO_ENCODED_<key>` or `CARGO_<key>`, those of the plain variable, and those
/// for the one target.
pub open spec fn env_flags(
    env: EnvVars,
    target_triple: Text,
    cargo_encoded_key: Text,
    cargo_plain_key: Text,
    plain_key: Text,
) -> Seq<Text> {
    native_flags(env, "CARGO_ENCODED_"@ + cargo_plain_key, "CARGO_"@ + cargo_plain_key)
        + plain_flags(env, plain_key) + target_native_flags(
        env,
        target_triple,
        cargo_encoded_key,
        cargo_plain_key,
        plain_key,
    )
}

/// The options that the environment sets.
pub fn read_target_and_global_native_flag_env(
    env: &EnvVars,
    target_triple: &str,
    cargo_encoded_key: &str,
    cargo_plain_key: &str,
    plain_key: &str,
) -> (r: Vec<String>)
    ensures
        texts(r@) == env_flags(
            *env,
            target_triple@,
            cargo_encoded_key@,
            cargo_plain_key@,
            plain_key@,
        ),
{
    let encoded = text2("CARGO_ENCODED_", cargo_plain_key);
    let plain = text2("CARGO_", cargo_plain_key);
    let mut args = read_native_flag_env(env, encoded.as_str(), plain.as_str());
    append_list(&mut args, &read_plain_flag_env(env, plain_key));
    append_list(
        &mut args,
        &read_target_native_flag_env(
            env,
            target_triple,
            cargo_encoded_key,
            cargo_plain_key,
            plain_key,
        ),
    );
    args
}

/// The options for the compiler: those of the configuration for the preprocessor
/// and for the language, and then those of the environment in the same order.
pub open spec fn compile_env_flags(
    env: EnvVars,
    target_triple: Text,
    language: NativeSourceLanguage,
    cpp_config_args: Seq<Text>,
    c_config_args: Seq<Text>,
    cxx_config_args: Seq<Text>,
) -> Seq<Text> {
    cpp_config_args + (match language {
        NativeSourceLanguage::C => c_config_args,
        NativeSourceLanguage::Cpp => cxx_config_args,
    }) + env_flags(
        env,
        target_triple,
        "ENCODED_NATIVE_CPPFLAGS"@,
        "NATIVE_CPPFLAGS"@,
        "CPPFLAGS"@,
    ) + (match language {
        NativeSourceLanguage::C => env_flags(
            env,
            target_triple,
            "ENCODED_NATIVE_CFLAGS"@,
            "NATIVE_CFLAGS"@,
            "CFLAGS"@,
        ),
        NativeSourceLanguage::Cpp => env_flags(
            env,
            target_triple,
            "ENCODED_NATIVE_CXXFLAGS"@,
            "NATIVE_CXXFLAGS"@,
            "CXXFLAGS"@,
        ),
    })
}

/// The options for the compiler, out of the configuration and the environment.
pub fn native_compile_env_flags(
    env: &EnvVars,
    target_triple: &str,
    language: NativeSourceLanguage,
    cpp_config_args: &Vec<String>,
    c_config_args: &Vec<String>,
    cxx_config_args: &Vec<String>,
) -> (r: Vec<String>)
    ensures
        texts(r@) == compile_env_flags(
            *env,
            target_triple@,
            language,
            texts(cpp_config_args@),
            texts(c_config_args@),
            texts(cxx_config_args@),
        ),
{
    let mut args = copy_list(cpp_config_args);
    match language {
        NativeSourceLanguage::C => append_list(&mut args, c_config_args),
        NativeSourceLanguage::Cpp => append_list(&mut args, cxx_config_args),
    }
    append_list(
        &mut args,
        &read_target_and_global_native_flag_env(
            env,
            target_triple,
            "ENCODED_NATIVE_CPPFLAGS",
            "NATIVE_CPPFLAGS",
            "CPPFLAGS",
        ),
    );
    match language {
        NativeSourceLanguage::C => {
            append_list(
                &mut args,
                &read_target_and_global_native_flag_env(
                    env,
                    target_triple,
                    "ENCODED_NATIVE_CFLAGS",
                    "NATIVE_CFLAGS",
                    "CFLAGS",
                ),
            );
        },
        NativeSourceLanguage::Cpp => {
            append_list(
                &mut args,
                &read_target_and_global_native_flag_env(
                    env,
                    target_triple,
                    "ENCODED_NATIVE_CXXFLAGS",
                    "NATIVE_CXXFLAGS",
                    "CXXFLAGS",
                ),
            );
        },
    }
    args
}

/// The options for the linker, out of the configuration and the environment.
pub open spec fn link_env_flags(
    env: EnvVars,
    target_triple: Text,
    config_args: Seq<Text>,
) -> Seq<Text> {
    config_args + env_flags(
        env,
        target_triple,
        "ENCODED_NATIVE_LDFLAGS"@,
        "NATIVE_LDFLAGS"@,
        "LDFLAGS"@,
    )
}

/// The options for the linker, out of the configuration and the environment.
pub fn native_link_env_flags(
    env: &EnvVars,
    target_triple: &str,
    config_args: &Vec<String>,
) -> (r: Vec<String>)
    ensures
        texts(r@) == link_env_flags(*env, target_triple@, texts(config_args@)),
{
    let mut args = copy_list(config_args);
    append_list(
        &mut args,
        &read_target_and_global_native_flag_env(
            env,
            target_triple,
            "ENCODED_NATIVE_LDFLAGS",
            "NATIVE_LDFLAGS",
            "LDFLAGS",
        ),
    );
    args
}

/// The values of all the variables that options are taken from.
pub open spec fn flag_values(env: EnvVars, target_triple: Text) -> Seq<Option<OsTextView>> {
    seq![
        env.value_of("CFLAGS"@),
        env.value_of("CPPFLAGS"@),
        env.value_of("CXXFLAGS"@),
        env.value_of("LDFLAGS"@),
        env.value_of("CARGO_NATIVE_CFLAGS"@),
        env.value_of("CARGO_NATIVE_CPPFLAGS"@),
        env.value_of("CARGO_NATIVE_CXXFLAGS"@),
        env.value_of("CARGO_NATIVE_LDFLAGS"@),
        env.value_of("CARGO_ENCODED_NATIVE_CFLAGS"@),
        env.value_of("CARGO_ENCODED_NATIVE_CPPFLAGS"@),
        env.value_of("CARGO_ENCODED_NATIVE_CXXFLAGS"@),
        env.value_of("CARGO_ENCODED_NATIVE_LDFLAGS"@),
        env.value_of(plain_target_var(target_triple, "CFLAGS"@)),
        env.value_of(plain_target_var(target_triple, "CPPFLAGS"@)),
        env.value_of(plain_target_var(target_triple, "CXXFLAGS"@)),
        env.value_of(plain_target_var(target_triple, "LDFLAGS"@)),
        cargo_target_value(env, target_triple, "NATIVE_CFLAGS"@),
        cargo_target_value(env, target_triple, "NATIVE_CPPFLAGS"@),
        cargo_target_value(env, target_triple, "NATIVE_CXXFLAGS"@),
        cargo_target_value(env, target_triple, "NATIVE_LDFLAGS"@),
        cargo_target_value(env, target_triple, "ENCODED_NATIVE_CFLAGS"@),
        cargo_target_value(env, target_triple, "ENCODED_NATIVE_CPPFLAGS"@),
        cargo_target_value(env, target_triple, "ENCODED_NATIVE_CXXFLAGS"@),
        cargo_target_value(env, target_triple, "ENCODED_NATIVE_LDFLAGS"@),
    ]
}

fn plain_target_value(env: &EnvVars, target_triple: &str, key: &str) -> (r: Option<OsText>)
    ensures
        opt_os(r) == env.value_of(plain_target_var(target_triple@, key@)),
{
    let name = plain_target_var_of(target_triple, key);
    env.get(name.as_str())
}

/// The values of all the variables that options are taken from.
pub fn flag_env_values(env: &EnvVars, target_triple: &str) -> (r: Vec<Option<OsText>>)
    ensures
        opt_os_list(r@) == flag_values(*env, target_triple@),
{
    let r: Vec<Option<OsText>> = vec![
        env.get("CFLAGS"),
        env.get("CPPFLAGS"),
        env.get("CXXFLAGS"),
        env.get("LDFLAGS"),
        env.get("CARGO_NATIVE_CFLAGS"),
        env.get("CARGO_NATIVE_CPPFLAGS"),
        env.get("CARGO_NATIVE_CXXFLAGS"),
        env.get("CARGO_NATIVE_LDFLAGS"),
        env.get("CARGO_ENCODED_NATIVE_CFLAGS"),
        env.get("CARGO_ENCODED_NATIVE_CPPFLAGS"),
        env.get("CARGO_ENCODED_NATIVE_CXXFLAGS"),
        env.get("CARGO_ENCODED_NATIVE_LDFLAGS"),
        plain_target_value(env, target_triple, "CFLAGS"),
        plain_target_value(env, target_triple, "CPPFLAGS"),
        plain_target_value(env, target_triple, "CXXFLAGS"),
        plain_target_value(env, target_triple, "LDFLAGS"),
        target_cargo_native_env(env, target_triple, "NATIVE_CFLAGS"),
        target_cargo_native_env(env, target_triple, "NATIVE_CPPFLAGS"),
        target_cargo_native_env(env, target_triple, "NATIVE_CXXFLAGS"),
        target_cargo_native_env(env, target_triple, "NATIVE_LDFLAGS"),
        target_cargo_native_env(env, target_triple, "ENCODED_NATIVE_CFLAGS"),
        target_cargo_native_env(env, target_triple, "ENCODED_NATIVE_CPPFLAGS"),
        target_cargo_native_env(env, target_triple, "ENCODED_NATIVE_CXXFLAGS"),
        target_cargo_native_env(env, target_triple, "ENCODED_NATIVE_LDFLAGS"),
    ];
    assert(opt_os_list(r@) =~= flag_values(*env, target_triple@));
    r
}

proof fn lemma_flags_decided(
    a: EnvVars,
    b: EnvVars,
    target_triple: Text,
    cargo_encoded_key: Text,
    cargo_plain_key: Text,
    plain_key: Text,
)
    requires
        a.value_of("CARGO_ENCODED_"@ + cargo_plain_key) == b.value_of(
            "CARGO_ENCODED_"@ + cargo_plain_key,
        ),
        a.value_of("CARGO_"@ + cargo_plain_key) == b.value_of("CARGO_"@ + cargo_plain_key),
        a.value_of(plain_key) == b.value_of(plain_key),
        cargo_target_value(a, target_triple, cargo_encoded_key) == cargo_target_value(
            b,
            target_triple,
            cargo_encoded_key,
        ),
        cargo_target_value(a, target_triple, cargo_plain_key) == cargo_target_value(
            b,
            target_triple,
            cargo_plain_key,
        ),
        a.value_of(plain_target_var(target_triple, plain_key)) == b.value_of(
            plain_target_var(target_triple, plain_key),
        ),
    ensures
        env_flags(a, target_triple, cargo_encoded_key, cargo_plain_key, plain_key) == env_flags(
            b,
            target_triple,
            cargo_encoded_key,
            cargo_plain_key,
            plain_key,
        ),
{
}

proof fn lemma_cargo_names()
    ensures
        "CARGO_ENCODED_"@ + "NATIVE_CFLAGS"@ == "CARGO_ENCODED_NATIVE_CFLAGS"@,
        "CARGO_ENCODED_"@ + "NATIVE_CPPFLAGS"@ == "CARGO_ENCODED_NATIVE_CPPFLAGS"@,
        "CARGO_ENCODED_"@ + "NATIVE_CXXFLAGS"@ == "CARGO_ENCODED_NATIVE_CXXFLAGS"@,
        "CARGO_ENCODED_"@ + "NATIVE_LDFLAGS"@ == "CARGO_ENCODED_NATIVE_LDFLAGS"@,
        "CARGO_"@ + "NATIVE_CFLAGS"@ == "CARGO_NATIVE_CFLAGS"@,
        "CARGO_"@ + "NATIVE_CPPFLAGS"@ == "CARGO_NATIVE_CPPFLAGS"@,
        "CARGO_"@ + "NATIVE_CXXFLAGS"@ == "CARGO_NATIVE_CXXFLAGS"@,
        "CARGO_"@ + "NATIVE_LDFLAGS"@ == "CARGO_NATIVE_LDFLAGS"@,
{
    reveal_strlit("CARGO_ENCODED_");
    reveal_strlit("CARGO_");
    reveal_strlit("NATIVE_CFLAGS");
    reveal_strlit("NATIVE_CPPFLAGS");
    reveal_strlit("NATIVE_CXXFLAGS");
    reveal_strlit("NATIVE_LDFLAGS");
    reveal_strlit("CARGO_NATIVE_CFLAGS");
    reveal_strlit("CARGO_NATIVE_CPPFLAGS");
    reveal_strlit("CARGO_NATIVE_CXXFLAGS");
    reveal_strlit("CARGO_NATIVE_LDFLAGS");
    reveal_strlit("CARGO_ENCODED_NATIVE_CFLAGS");
    reveal_strlit("CARGO_ENCODED_NATIVE_CPPFLAGS");
    reveal_strlit("CARGO_ENCODED_NATIVE_CXXFLAGS");
    reveal_strlit("CARGO_ENCODED_NATIVE_LDFLAGS");
    assert("CARGO_ENCODED_"@ + "NATIVE_CFLAGS"@ =~= "CARGO_ENCODED_NATIVE_CFLAGS"@);
    assert("CARGO_ENCODED_"@ + "NATIVE_CPPFLAGS"@ =~= "CARGO_ENCODED_NATIVE_CPPFLAGS"@);
    assert("CARGO_ENCODED_"@ + "NATIVE_CXXFLAGS"@ =~= "CARGO_ENCODED_NATIVE_CXXFLAGS"@);
    assert("CARGO_ENCODED_"@ + "NATIVE_LDFLAGS"@ =~= "CARGO_ENCODED_NATIVE_LDFLAGS"@);
    assert("CARGO_"@ + "NATIVE_CFLAGS"@ =~= "CARGO_NATIVE_CFLAGS"@);
    assert("CARGO_"@ + "NATIVE_CPPFLAGS"@ =~= "CARGO_NATIVE_CPPFLAGS"@);
    assert("CARGO_"@ + "NATIVE_CXXFLAGS"@ =~= "CARGO_NATIVE_CXXFLAGS"@);
    assert("CARGO_"@ + "NATIVE_LDFLAGS"@ =~= "CARGO_NATIVE_LDFLAGS"@);
}

/// The values of the variables that options are taken from decide the options: no
/// other variable reaches a compiler or a linker as an option.
pub proof fn lemma_flag_values_decide(
    a: EnvVars,
    b: EnvVars,
    target_triple: Text,
    language: NativeSourceLanguage,
    cpp_config_args: Seq<Text>,
    c_config_args: Seq<Text>,
    cxx_config_args: Seq<Text>,
    link_config_args: Seq<Text>,
)
    requires
        flag_values(a, target_triple) == flag_values(b, target_triple),
    ensures
        compile_env_flags(
            a,
            target_triple,
            language,
            cpp_config_args,
            c_config_args,
            cxx_config_args,
        ) == compile_env_flags(
            b,
            target_triple,
            language,
            cpp_config_args,
            c_config_args,
            cxx_config_args,
        ),
        link_env_flags(a, target_triple, link_config_args) == link_env_flags(
            b,
            target_triple,
            link_config_args,
        ),
{
    let x = flag_values(a, target_triple);
    let y = flag_values(b, target_triple);
    assert forall|i: int| 0 <= i < 24 implies #[trigger] x[i] == y[i] by {}
    lemma_cargo_names();
    assert(x[0] == y[0] && x[4] == y[4] && x[8] == y[8] && x[12] == y[12] && x[16] == y[16]
        && x[20] == y[20]);
    lemma_flags_decided(
        a,
        b,
        target_triple,
        "ENCODED_NATIVE_CFLAGS"@,
        "NATIVE_CFLAGS"@,
        "CFLAGS"@,
    );
    assert(x[1] == y[1] && x[5] == y[5] && x[9] == y[9] && x[13] == y[13] && x[17] == y[17]
        && x[21] == y[21]);
    lemma_flags_decided(
        a,
        b,
        target_triple,
        "ENCODED_NATIVE_CPPFLAGS"@,
        "NATIVE_CPPFLAGS"@,
        "CPPFLAGS"@,
    );
    assert(x[2] == y[2] && x[6] == y[6] && x[10] == y[10] && x[14] == y[14] && x[18] == y[18]
        && x[22] == y[22]);
    lemma_flags_decided(
        a,
        b,
        target_triple,
        "ENCODED_NATIVE_CXXFLAGS"@,
        "NATIVE_CXXFLAGS"@,
        "CXXFLAGS"@,
    );
    assert(x[3] == y[3] && x[7] == y[7] && x[11] == y[11] && x[15] == y[15] && x[19] == y[19]
        && x[23] == y[23]);
    lemma_flags_decided(
        a,
        b,
        target_triple,
        "ENCODED_NATIVE_LDFLAGS"@,
        "NATIVE_LDFLAGS"@,
        "LDFLAGS"@,
    );
}

/// Where an encoded variable holds options, the plain one beside it is not looked
/// at.
pub proof fn lemma_encoded_first(env: EnvVars, encoded: Text, plain: Text)
    requires
        encoded_flags_of(env.text_of(encoded)).len() > 0,
    ensures
        native_flags(env, encoded, plain) == encoded_flags_of(env.text_of(encoded)),
{
}

/// The options that the configuration has for one language do not reach sources of the
/// other.
pub proof fn lemma_languages_apart(
    env: EnvVars,
    target_triple: Text,
    cpp_config_args: Seq<Text>,
    c_config_args: Seq<Text>,
    cxx_config_args: Seq<Text>,
    other: Seq<Text>,
)
    ensures
        compile_env_flags(
            env,
            target_triple,
            NativeSourceLanguage::C,
            cpp_config_args,
            c_config_args,
            cxx_config_args,
        ) == compile_env_flags(
            env,
            target_triple,
            NativeSourceLanguage::C,
            cpp_config_args,
            c_config_args,
            other,
        ),
        compile_env_flags(
            env,
            target_triple,
            NativeSourceLanguage::Cpp,
            cpp_config_args,
            c_config_args,
            cxx_config_args,
        ) == compile_env_flags(
            env,
            target_triple,
            NativeSourceLanguage::Cpp,
            cpp_config_args,
            other,
            cxx_config_args,
        ),
{
}

} // verus!
