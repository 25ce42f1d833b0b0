//! Native tools and options that are set in configuration files.
use vstd::prelude::*;

use crate::text::{append_list, copy_list, no_texts, opt_text, res_opt_text, res_texts, same_text};
use crate::text::{texts, Text};

verus! {

/// A tool that a configuration file names.
#[derive(Debug)]
pub struct ToolSetting {
    /// The value as it stands in the file.
    pub raw: String,
    /// The program that the value stands for.
    pub program: String,
}

/// The native keys of one table of a configuration.
#[derive(Debug)]
pub struct NativeSettings {
    /// `native-cc`.
    pub native_cc: Option<ToolSetting>,
    /// `native-cxx`.
    pub native_cxx: Option<ToolSetting>,
    /// `native-ar`.
    pub native_ar: Option<ToolSetting>,
    /// `native-cflags`.
    pub native_cflags: Option<Vec<String>>,
    /// `native-cppflags`.
    pub native_cppflags: Option<Vec<String>>,
    /// `native-cxxflags`.
    pub native_cxxflags: Option<Vec<String>>,
    /// `native-ldflags`.
    pub native_ldflags: Option<Vec<String>>,
}

/// The configuration: the table `build` and the table of the compilation target.
/// A table that cannot be read is given by the message that says why.
#[derive(Debug)]
pub struct NativeConfig {
    /// The table `build`.
    pub build: Result<NativeSettings, String>,
    /// The table of the compilation target.
    pub target: Result<NativeSettings, String>,
}

/// A list that may be missing: none, or its texts.
pub open spec fn list_or_none(list: Option<Vec<String>>) -> Seq<Text> {
    match list {
        Some(list) => texts(list@),
        None => Seq::empty(),
    }
}

/// The texts of a list that may be missing.
pub fn opt_string_list(value: &Option<Vec<String>>) -> (r: Vec<String>)
    ensures
        texts(r@) == list_or_none(*value),
{
    match value {
        Some(list) => copy_list(list),
        None => no_texts(),
    }
}

impl NativeSettings {
    /// The options under a key.
    pub open spec fn flags(self, key: Text) -> Seq<Text> {
        if key == "native-cflags"@ {
            list_or_none(self.native_cflags)
        } else if key == "native-cppflags"@ {
            list_or_none(self.native_cppflags)
        } else if key == "native-cxxflags"@ {
            list_or_none(self.native_cxxflags)
        } else if key == "native-ldflags"@ {
            list_or_none(self.native_ldflags)
        } else {
            Seq::empty()
        }
    }

    fn flags_under(&self, key: &str) -> (r: Vec<String>)
        ensures
            texts(r@) == self.flags(key@),
    {
        if same_text(key, "native-cflags") {
            opt_string_list(&self.native_cflags)
        } else if same_text(key, "native-cppflags") {
            opt_string_list(&self.native_cppflags)
        } else if same_text(key, "native-cxxflags") {
            opt_string_list(&self.native_cxxflags)
        } else if same_text(key, "native-ldflags") {
            opt_string_list(&self.native_ldflags)
        } else {
            no_texts()
        }
    }

    /// The tool under a key.
    pub open spec fn tool(self, key: Text) -> Option<ToolSetting> {
        if key == "cc"@ {
            self.native_cc
        } else if key == "cxx"@ {
            self.native_cxx
        } else if key == "ar"@ {
            self.native_ar
        } else {
            None
        }
    }

    fn tool_under(&self, key: &str) -> (r: &Option<ToolSetting>)
        ensures
            *r == self.tool(key@),
    {
        if same_text(key, "cc") {
            &self.native_cc
        } else if same_text(key, "cxx") {
            &self.native_cxx
        } else if same_text(key, "ar") {
            &self.native_ar
        } else {
            &None
        }
    }
}

/// The program of a tool.
pub open spec fn program_of(tool: Option<ToolSetting>) -> Option<Text> {
    match tool {
        Some(tool) => Some(tool.program@),
        None => None,
    }
}

/// The value of a tool as it was written.
pub open spec fn raw_of(tool: Option<ToolSetting>) -> Option<Text> {
    match tool {
        Some(tool) => Some(tool.raw@),
        None => None,
    }
}

fn copy_program(tool: &Option<ToolSetting>) -> (r: Option<String>)
    ensures
        opt_text(r) == program_of(*tool),
{
    match tool {
        Some(tool) => Some(tool.program.clone()),
        None => None,
    }
}

fn copy_raw(tool: &Option<ToolSetting>) -> (r: Option<String>)
    ensures
        opt_text(r) == raw_of(*tool),
{
    match tool {
        Some(tool) => Some(tool.raw.clone()),
        None => None,
    }
}

/// The options that the table `build` has under a key.
pub open spec fn build_flags(config: NativeConfig, key: Text) -> Result<Seq<Text>, Text> {
    match config.build {
        Ok(build) => Ok(build.flags(key)),
        Err(e) => Err(e@),
    }
}

/// The options that the table `build` has under a key.
pub fn build_config_string_list(config: &NativeConfig, key: &str) -> (r: Result<
    Vec<String>,
    String,
>)
    ensures
        res_texts(r) == build_flags(*config, key@),
{
    match &config.build {
        Ok(build) => Ok(build.flags_under(key)),
        Err(e) => Err(e.clone()),
    }
}

/// The options under a key: those of the table `build`, and then those of the
/// compilation target.
pub open spec fn config_flags(config: NativeConfig, key: Text) -> Result<Seq<Text>, Text> {
    match build_flags(config, key) {
        Ok(flags) => match config.target {
            Ok(target) => Ok(flags + target.flags(key)),
            Err(e) => Err(e@),
        },
        Err(e) => Err(e),
    }
}

/// The options under a key.
pub fn native_config_flag_values(config: &NativeConfig, key: &str) -> (r: Result<
    Vec<String>,
    String,
>)
    ensures
        res_texts(r) == config_flags(*config, key@),
{
    match build_config_string_list(config, key) {
        Ok(flags) => match &config.target {
            Ok(target) => {
                let mut values = flags;
                append_list(&mut values, &target.flags_under(key));
                Ok(values)
            },
            Err(e) => Err(e.clone()),
        },
        Err(e) => Err(e),
    }
}

/// The options for the preprocessor.
pub fn native_cppflags_config_flags(config: &NativeConfig) -> (r: Result<Vec<String>, String>)
    ensures
        res_texts(r) == config_flags(*config, "native-cppflags"@),
{
    native_config_flag_values(config, "native-cppflags")
}

/// The options for the C compiler.
pub fn native_c_compile_config_flags(config: &NativeConfig) -> (r: Result<Vec<String>, String>)
    ensures
        res_texts(r) == config_flags(*config, "native-cflags"@),
{
    native_config_flag_values(config, "native-cflags")
}

/// The options for the C++ compiler.
pub fn native_cxx_compile_config_flags(config: &NativeConfig) -> (r: Result<Vec<String>, String>)
    ensures
        res_texts(r) == config_flags(*config, "native-cxxflags"@),
{
    native_config_flag_values(config, "native-cxxflags")
}

/// The options for the linker.
pub fn native_link_config_flags(config: &NativeConfig) -> (r: Result<Vec<String>, String>)
    ensures
        res_texts(r) == config_flags(*config, "native-ldflags"@),
{
    native_config_flag_values(config, "native-ldflags")
}

/// The program that the table `build` sets; none where the table cannot be read.
pub open spec fn build_tool(config: NativeConfig, key: Text) -> Option<Text> {
    match config.build {
        Ok(build) => program_of(build.tool(key)),
        Err(_) => None,
    }
}

/// The program that the table `build` sets.
pub fn build_native_tool_config(config: &NativeConfig, key: &str) -> (r: Option<String>)
    ensures
        opt_text(r) == build_tool(*config, key@),
{
    match &config.build {
        Ok(build) => copy_program(build.tool_under(key)),
        Err(_) => None,
    }
}

/// The value that the table `build` has for a tool, as it was written.
pub open spec fn build_tool_value(config: NativeConfig, key: Text) -> Result<
    Option<Text>,
    Text,
> {
    if key == "cc"@ || key == "cxx"@ || key == "ar"@ {
        match config.build {
            Ok(build) => Ok(raw_of(build.tool(key))),
            Err(e) => Err(e@),
        }
    } else {
        Ok(None)
    }
}

/// The value that the table `build` has for a tool, as it was written.
pub fn build_native_tool_config_value(config: &NativeConfig, key: &str) -> (r: Result<
    Option<String>,
    String,
>)
    ensures
        res_opt_text(r) == build_tool_value(*config, key@),
{
    if same_text(key, "cc") || same_text(key, "cxx") || same_text(key, "ar") {
        match &config.build {
            Ok(build) => Ok(copy_raw(build.tool_under(key))),
            Err(e) => Err(e.clone()),
        }
    } else {
        Ok(None)
    }
}

/// The program that the table of the compilation target sets.
pub open spec fn target_tool(config: NativeConfig, key: Text) -> Result<Option<Text>, Text> {
    match config.target {
        Ok(target) => Ok(program_of(target.tool(key))),
        Err(e) => Err(e@),
    }
}

/// The program that the table of the compilation target sets.
pub fn target_native_tool_config(config: &NativeConfig, key: &str) -> (r: Result<
    Option<String>,
    String,
>)
    ensures
        res_opt_text(r) == target_tool(*config, key@),
{
    match &config.target {
        Ok(target) => Ok(copy_program(target.tool_under(key))),
        Err(e) => Err(e.clone()),
    }
}

/// The value that the table of the compilation target has for a tool, as it was
/// written.
pub open spec fn target_tool_value(config: NativeConfig, key: Text) -> Result<
    Option<Text>,
    Text,
> {
    match config.target {
        Ok(target) => Ok(raw_of(target.tool(key))),
        Err(e) => Err(e@),
    }
}

/// The value that the table of the compilation target has for a tool, as it was
/// written.
pub fn target_native_tool_config_value(config: &NativeConfig, key: &str) -> (r: Result<
    Option<String>,
    String,
>)
    ensures
        res_opt_text(r) == target_tool_value(*config, key@),
{
    match &config.target {
        Ok(target) => Ok(copy_raw(target.tool_under(key))),
        Err(e) => Err(e.clone()),
    }
}

} // verus!
