//! What tells whether a native build is still fresh.
use vstd::prelude::*;

use crate::config::{build_native_tool_config_value, build_tool_value};
use crate::config::{native_c_compile_config_flags, native_cppflags_config_flags};
use crate::config::{native_cxx_compile_config_flags, native_link_config_flags};
use crate::config::{target_native_tool_config_value, target_tool_value, NativeConfig};
use crate::env::{cargo_target_value, compile_env_flags, flag_env_values, flag_values};
use crate::env::{lemma_flag_values_decide, link_env_flags};
use crate::env::{target_cargo_native_env, target_native_tool_env, tool_env};
use crate::fs::FsView;
use crate::layout::{walk_complete, WalkEntry, WalkKind};
use crate::native::NativeSourceLanguage;
use crate::order::{key_view, keys_view, lemma_key_push, lemma_keys_push, order_by_keys, part_less};
use crate::order::{pick, places_view, sorted_by, Key, Part};
use crate::os_text::{opt_os, opt_os_list, opt_plain, os_text_of, OsText, OsTextView};
use crate::path::{path_key, path_key_of, sort_paths, sorted_paths, strip_prefix, stripped};
use crate::plan::{config_args, BuildContext, KindContext};
use crate::profile::{crt_static, native_crt_static_enabled};
use crate::text::{hex16, hex_digits, no_texts, one_text, opt_texts, push_text, same_text};
use crate::text::{text2, text3, texts, Text};
use crate::toolchain::{detect_toolchain, NativeToolchain, ToolchainView};
use crate::tools::{compiler_of, linker_of};

verus! {

/// The values of the three tools: the C compiler, the C++ compiler, the archiver.
#[derive(Debug)]
pub struct ToolValues {
    /// That of the C compiler.
    pub cc: Option<OsText>,
    /// That of the C++ compiler.
    pub cxx: Option<OsText>,
    /// That of the archiver.
    pub ar: Option<OsText>,
}

/// What values of tools hold.
pub struct ToolValuesView {
    /// That of the C compiler.
    pub cc: Option<OsTextView>,
    /// That of the C++ compiler.
    pub cxx: Option<OsTextView>,
    /// That of the archiver.
    pub ar: Option<OsTextView>,
}

impl View for ToolValues {
    type V = ToolValuesView;

    open spec fn view(&self) -> ToolValuesView {
        ToolValuesView {
            cc: opt_os(self.cc),
            cxx: opt_os(self.cxx),
            ar: opt_os(self.ar),
        }
    }
}

/// All that the tools and options of a compilation target depend on. A build whose
/// inputs changed is stale.
#[derive(Debug)]
pub struct ToolchainInputs {
    /// The triple.
    pub target_triple: String,
    /// Whether the C runtime is linked statically.
    pub crt_static_enabled: bool,
    /// The tools that the environment sets for the target.
    pub target_env: ToolValues,
    /// The tools that the environment sets for all targets.
    pub plain_env: ToolValues,
    /// The tools of the table `build`, as written.
    pub build_config: ToolValues,
    /// The tools of the table of the target, as written.
    pub target_config: ToolValues,
    /// The script that sets up the compiler environment, set for the target.
    pub target_vcvarsall: Option<OsText>,
    /// The script that sets up the compiler environment.
    pub vcvarsall: Option<OsText>,
    /// The values of all variables that options are taken from.
    pub flag_env: Vec<Option<OsText>>,
    /// The options of the configuration for the preprocessor.
    pub cpp_config_args: Vec<String>,
    /// Those for the C compiler.
    pub c_config_args: Vec<String>,
    /// Those for the C++ compiler.
    pub cxx_config_args: Vec<String>,
    /// Those for the linker.
    pub link_config_args: Vec<String>,
    /// The tools that are used.
    pub toolchain: NativeToolchain,
}

/// What inputs hold.
pub struct InputsView {
    /// The triple.
    pub target_triple: Text,
    /// Whether the C runtime is linked statically.
    pub crt_static_enabled: bool,
    /// The tools that the environment sets for the target.
    pub target_env: ToolValuesView,
    /// The tools that the environment sets for all targets.
    pub plain_env: ToolValuesView,
    /// The tools of the table `build`, as written.
    pub build_config: ToolValuesView,
    /// The tools of the table of the target, as written.
    pub target_config: ToolValuesView,
    /// The script that sets up the compiler environment, set for the target.
    pub target_vcvarsall: Option<OsTextView>,
    /// The script that sets up the compiler environment.
    pub vcvarsall: Option<OsTextView>,
    /// The values of all variables that options are taken from.
    pub flag_env: Seq<Option<OsTextView>>,
    /// The options of the configuration for the preprocessor.
    pub cpp_config_args: Seq<Text>,
    /// Those for the C compiler.
    pub c_config_args: Seq<Text>,
    /// Those for the C++ compiler.
    pub cxx_config_args: Seq<Text>,
    /// Those for the linker.
    pub link_config_args: Seq<Text>,
    /// The tools that are used.
    pub toolchain: ToolchainView,
}

impl View for ToolchainInputs {
    type V = InputsView;

    open spec fn view(&self) -> InputsView {
        InputsView {
            target_triple: self.target_triple@,
            crt_static_enabled: self.crt_static_enabled,
            target_env: self.target_env@,
            plain_env: self.plain_env@,
            build_config: self.build_config@,
            target_config: self.target_config@,
            target_vcvarsall: opt_os(self.target_vcvarsall),
            vcvarsall: opt_os(self.vcvarsall),
            flag_env: opt_os_list(self.flag_env@),
            cpp_config_args: texts(self.cpp_config_args@),
            c_config_args: texts(self.c_config_args@),
            cxx_config_args: texts(self.cxx_config_args@),
            link_config_args: texts(self.link_config_args@),
            toolchain: self.toolchain@,
        }
    }
}

/// The tools of the table `build`, as written.
pub open spec fn build_values(config: NativeConfig) -> Result<ToolValuesView, Text> {
    match (
        build_tool_value(config, "cc"@),
        build_tool_value(config, "cxx"@),
        build_tool_value(config, "ar"@),
    ) {
        (Ok(cc), Ok(cxx), Ok(ar)) => Ok(
            ToolValuesView { cc: opt_plain(cc), cxx: opt_plain(cxx), ar: opt_plain(ar) },
        ),
        (Err(e), _, _) => Err(e),
        (_, Err(e), _) => Err(e),
        (_, _, Err(e)) => Err(e),
    }
}

/// The tools of the table of the target, as written.
pub open spec fn target_values(config: NativeConfig) -> Result<ToolValuesView, Text> {
    match (
        target_tool_value(config, "cc"@),
        target_tool_value(config, "cxx"@),
        target_tool_value(config, "ar"@),
    ) {
        (Ok(cc), Ok(cxx), Ok(ar)) => Ok(
            ToolValuesView { cc: opt_plain(cc), cxx: opt_plain(cxx), ar: opt_plain(ar) },
        ),
        (Err(e), _, _) => Err(e),
        (_, Err(e), _) => Err(e),
        (_, _, Err(e)) => Err(e),
    }
}

/// What a result that is values of tools or a message holds.
pub open spec fn values_of(r: Result<ToolValues, String>) -> Result<ToolValuesView, Text> {
    match r {
        Ok(v) => Ok(v@),
        Err(e) => Err(e@),
    }
}

fn read_build_values(config: &NativeConfig) -> (r: Result<ToolValues, String>)
    ensures
        values_of(r) == build_values(*config),
{
    let cc = match build_native_tool_config_value(config, "cc") {
        Ok(cc) => cc,
        Err(e) => {
            return Err(e);
        },
    };
    let cxx = match build_native_tool_config_value(config, "cxx") {
        Ok(cxx) => cxx,
        Err(e) => {
            return Err(e);
        },
    };
    let ar = match build_native_tool_config_value(config, "ar") {
        Ok(ar) => ar,
        Err(e) => {
            return Err(e);
        },
    };
    Ok(ToolValues { cc: os_text_of(cc), cxx: os_text_of(cxx), ar: os_text_of(ar) })
}

fn read_target_values(config: &NativeConfig) -> (r: Result<ToolValues, String>)
    ensures
        values_of(r) == target_values(*config),
{
    let cc = match target_native_tool_config_value(config, "cc") {
        Ok(cc) => cc,
        Err(e) => {
            return Err(e);
        },
    };
    let cxx = match target_native_tool_config_value(config, "cxx") {
        Ok(cxx) => cxx,
        Err(e) => {
            return Err(e);
        },
    };
    let ar = match target_native_tool_config_value(config, "ar") {
        Ok(ar) => ar,
        Err(e) => {
            return Err(e);
        },
    };
    Ok(ToolValues { cc: os_text_of(cc), cxx: os_text_of(cxx), ar: os_text_of(ar) })
}

/// All that the tools and options of a compilation target depend on, or the first
/// of the messages that say why it cannot be told.
pub open spec fn toolchain_inputs(ctx: BuildContext, kind: KindContext) -> Result<
    InputsView,
    Text,
> {
    let triple = kind.target_triple@;
    let env = ctx.env;
    match ctx.toolchain(kind) {
        Err(e) => Err(e),
        Ok(toolchain) => match config_args(kind.config) {
            Err(e) => Err(e),
            Ok((cpp, c, cxx, link)) => match build_values(kind.config) {
                Err(e) => Err(e),
                Ok(build_config) => match target_values(kind.config) {
                    Err(e) => Err(e),
                    Ok(target_config) => Ok(
                        InputsView {
                            target_triple: triple,
                            crt_static_enabled: crt_static(kind.cfgs@),
                            target_env: ToolValuesView {
                                cc: tool_env(env, triple, "CC"@),
                                cxx: tool_env(env, triple, "CXX"@),
                                ar: tool_env(env, triple, "AR"@),
                            },
                            plain_env: ToolValuesView {
                                cc: env.value_of("CC"@),
                                cxx: env.value_of("CXX"@),
                                ar: env.value_of("AR"@),
                            },
                            build_config,
                            target_config,
                            target_vcvarsall: cargo_target_value(env, triple, "MSVC_VCVARSALL"@),
                            vcvarsall: env.value_of("CARGO_NATIVE_MSVC_VCVARSALL"@),
                            flag_env: flag_values(env, triple),
                            cpp_config_args: cpp,
                            c_config_args: c,
                            cxx_config_args: cxx,
                            link_config_args: link,
                            toolchain,
                        },
                    ),
                },
            },
        },
    }
}

/// What a result that is inputs or a message holds.
pub open spec fn inputs_result(r: Result<ToolchainInputs, String>) -> Result<InputsView, Text> {
    match r {
        Ok(inputs) => Ok(inputs@),
        Err(e) => Err(e@),
    }
}

/// All that the tools and options of a compilation target depend on.
pub fn toolchain_fingerprint(ctx: &BuildContext, kind: &KindContext) -> (r: Result<
    ToolchainInputs,
    String,
>)
    ensures
        inputs_result(r) == toolchain_inputs(*ctx, *kind),
{
    let triple = kind.target_triple.as_str();
    let env = &ctx.env;
    let toolchain = match detect_toolchain(
        triple,
        env,
        &kind.config,
        &ctx.found,
        &ctx.fs,
        &kind.msvc,
        ctx.rule,
    ) {
        Ok(toolchain) => toolchain,
        Err(e) => {
            return Err(e);
        },
    };
    let cpp_config_args = match native_cppflags_config_flags(&kind.config) {
        Ok(args) => args,
        Err(e) => {
            return Err(e);
        },
    };
    let c_config_args = match native_c_compile_config_flags(&kind.config) {
        Ok(args) => args,
        Err(e) => {
            return Err(e);
        },
    };
    let cxx_config_args = match native_cxx_compile_config_flags(&kind.config) {
        Ok(args) => args,
        Err(e) => {
            return Err(e);
        },
    };
    let link_config_args = match native_link_config_flags(&kind.config) {
        Ok(args) => args,
        Err(e) => {
            return Err(e);
        },
    };
    let build_config = match read_build_values(&kind.config) {
        Ok(values) => values,
        Err(e) => {
            return Err(e);
        },
    };
    let target_config = match read_target_values(&kind.config) {
        Ok(values) => values,
        Err(e) => {
            return Err(e);
        },
    };
    Ok(
        ToolchainInputs {
            target_triple: kind.target_triple.clone(),
            crt_static_enabled: native_crt_static_enabled(&kind.cfgs),
            target_env: ToolValues {
                cc: target_native_tool_env(env, triple, "CC"),
                cxx: target_native_tool_env(env, triple, "CXX"),
                ar: target_native_tool_env(env, triple, "AR"),
            },
            plain_env: ToolValues { cc: env.get("CC"), cxx: env.get("CXX"), ar: env.get("AR") },
            build_config,
            target_config,
            target_vcvarsall: target_cargo_native_env(env, triple, "MSVC_VCVARSALL"),
            vcvarsall: env.get("CARGO_NATIVE_MSVC_VCVARSALL"),
            flag_env: flag_env_values(env, triple),
            cpp_config_args,
            c_config_args,
            cxx_config_args,
            link_config_args,
            toolchain,
        },
    )
}

/// The fingerprint of tools, out of the hash of all that they depend on.
pub fn toolchain_fingerprint_text(hash: u64) -> (r: String)
    ensures
        r@ == "native-toolchain:"@ + hex_digits(hash as int, 16),
{
    let digits = hex16(hash);
    text2("native-toolchain:", digits.as_str())
}

/// The fingerprint of a library of headers, out of the hash of its files; none
/// where it has no source.
pub fn header_only_fingerprint(hash: Option<u64>) -> (r: String)
    ensures
        match hash {
            Some(hash) => r@ == "native-header-only:"@ + hex_digits(hash as int, 16),
            None => r@ == "native-header-only:none"@,
        },
{
    match hash {
        Some(hash) => {
            let digits = hex16(hash);
            text2("native-header-only:", digits.as_str())
        },
        None => "native-header-only:none".to_owned(),
    }
}

/// What is known of a file: where it is, its length, and when it was changed.
#[derive(Debug)]
pub struct FileStamp {
    /// Where it is.
    pub path: OsText,
    /// Its length.
    pub len: Option<u64>,
    /// When it was changed, in nanoseconds.
    pub modified: Option<u128>,
}

/// What a stamp holds.
pub struct StampView {
    /// Where it is.
    pub path: OsTextView,
    /// Its length.
    pub len: Option<u64>,
    /// When it was changed, in nanoseconds.
    pub modified: Option<u128>,
}

impl View for FileStamp {
    type V = StampView;

    open spec fn view(&self) -> StampView {
        StampView { path: self.path@, len: self.len, modified: self.modified }
    }
}

/// What came of asking for the metadata of a file.
#[derive(Clone, Copy, Debug)]
pub enum FileMetadata {
    /// The file is there.
    Found {
        /// Its length.
        len: u64,
        /// When it was changed, in nanoseconds.
        modified: Option<u128>,
    },
    /// There is no such file.
    Missing,
    /// It could not be told.
    Failed,
}

/// What a result that is a stamp or a message holds.
pub open spec fn stamp_result(r: Result<FileStamp, String>) -> Result<StampView, Text> {
    match r {
        Ok(s) => Ok(s@),
        Err(e) => Err(e@),
    }
}

/// The stamp of a tool. A tool that is not there has neither length nor time.
pub open spec fn tool_stamp(path: OsTextView, metadata: FileMetadata) -> Result<StampView, Text> {
    match metadata {
        FileMetadata::Found { len, modified } => Ok(
            StampView { path, len: Some(len), modified },
        ),
        FileMetadata::Missing => Ok(StampView { path, len: None, modified: None }),
        FileMetadata::Failed => Err("failed to read native tool metadata for `"@ + path.text + "`"@),
    }
}

/// The stamp of a tool. A tool that is not there has neither length nor time.
pub fn tool_file_fingerprint(path: &OsText, metadata: FileMetadata) -> (r: Result<
    FileStamp,
    String,
>)
    ensures
        stamp_result(r) == tool_stamp(path@, metadata),
{
    match metadata {
        FileMetadata::Found { len, modified } => Ok(
            FileStamp { path: path.copy(), len: Some(len), modified },
        ),
        FileMetadata::Missing => Ok(
            FileStamp { path: path.copy(), len: None, modified: None },
        ),
        FileMetadata::Failed => Err(text3("failed to read native tool metadata for `", path.as_str(), "`")),
    }
}

/// The tools whose files tell whether a build is stale: the compilers, and, as far as
/// they are there, the archiver and the script that sets up the environment.
pub open spec fn stamped_tools(tools: ToolchainView) -> Seq<OsTextView> {
    seq![tools.cc, tools.cxx] + opt_seq(tools.ar) + opt_seq(tools.init_script)
}

/// The value that is there, if any.
pub open spec fn opt_seq(o: Option<OsTextView>) -> Seq<OsTextView> {
    match o {
        Some(t) => seq![t],
        None => Seq::empty(),
    }
}

/// What a list of texts of the operating system holds.
pub open spec fn os_texts(list: Seq<OsText>) -> Seq<OsTextView> {
    list.map_values(|t: OsText| t@)
}

fn push_os(list: &mut Vec<OsText>, o: &Option<OsText>)
    ensures
        os_texts(final(list)@) == os_texts(old(list)@) + opt_seq(opt_os(*o)),
{
    let ghost before = list@;
    match o {
        Some(t) => {
            let copy = t.copy();
            list.push(copy);
            assert(os_texts(list@) =~= os_texts(before) + seq![t@]);
        },
        None => {
            assert(os_texts(list@) =~= os_texts(before) + Seq::empty());
        },
    }
}

/// The tools whose files tell whether a build is stale.
pub fn tools_to_stamp(toolchain: &NativeToolchain) -> (r: Vec<OsText>)
    ensures
        os_texts(r@) == stamped_tools(toolchain@),
{
    let mut r: Vec<OsText> = vec![toolchain.cc.copy(), toolchain.cxx.copy()];
    assert(os_texts(r@) =~= seq![toolchain@.cc, toolchain@.cxx]);
    push_os(&mut r, &toolchain.ar);
    push_os(&mut r, &toolchain.init_script);
    r
}

/// The stamps of tools, or the message of the first that could not be told.
pub open spec fn stamps_of(tools: Seq<OsTextView>, metadata: Seq<FileMetadata>) -> Result<
    Seq<StampView>,
    Text,
>
    decreases tools.len(),
{
    if tools.len() == 0 || metadata.len() == 0 {
        Ok(Seq::empty())
    } else {
        match tool_stamp(tools[0], metadata[0]) {
            Err(e) => Err(e),
            Ok(first) => match stamps_of(tools.skip(1), metadata.skip(1)) {
                Err(e) => Err(e),
                Ok(rest) => Ok(seq![first] + rest),
            },
        }
    }
}

/// What a result that is stamps or a message holds.
pub open spec fn stamps_result(r: Result<Vec<FileStamp>, String>) -> Result<Seq<StampView>, Text> {
    match r {
        Ok(list) => Ok(stamps_view(list@)),
        Err(e) => Err(e@),
    }
}

/// The stamps in front of those of the rest, or the message of the rest.
pub open spec fn behind(front: Seq<StampView>, rest: Result<Seq<StampView>, Text>) -> Result<
    Seq<StampView>,
    Text,
> {
    match rest {
        Ok(rest) => Ok(front + rest),
        Err(e) => Err(e),
    }
}

fn stamp_tools(tools: &Vec<OsText>, metadata: &Vec<FileMetadata>) -> (r: Result<
    Vec<FileStamp>,
    String,
>)
    requires
        metadata@.len() == tools@.len(),
    ensures
        stamps_result(r) == stamps_of(os_texts(tools@), metadata@),
{
    let ghost all = os_texts(tools@);
    let ghost want = stamps_of(all, metadata@);
    let mut r: Vec<FileStamp> = Vec::new();
    let mut i: usize = 0;
    proof {
        assert(all.skip(0) =~= all);
        assert(metadata@.skip(0) =~= metadata@);
        assert(stamps_view(r@) =~= Seq::empty());
        if want is Ok {
            assert(Seq::empty() + want->Ok_0 =~= want->Ok_0);
        }
    }
    while i < tools.len()
        invariant
            i <= tools@.len(),
            metadata@.len() == tools@.len(),
            all == os_texts(tools@),
            want == stamps_of(all, metadata@),
            want == behind(
                stamps_view(r@),
                stamps_of(all.skip(i as int), metadata@.skip(i as int)),
            ),
        decreases tools@.len() - i,
    {
        let ghost rest = stamps_of(all.skip(i + 1), metadata@.skip(i + 1));
        assert(all.skip(i as int)[0] == tools@[i as int]@);
        assert(all.skip(i as int).skip(1) =~= all.skip(i + 1));
        assert(metadata@.skip(i as int).skip(1) =~= metadata@.skip(i + 1));
        match tool_file_fingerprint(&tools[i], metadata[i]) {
            Ok(stamp) => {
                let ghost before = stamps_view(r@);
                let ghost s = stamp@;
                r.push(stamp);
                proof {
                    assert(stamps_view(r@) =~= before.push(s));
                    if rest is Ok {
                        assert(before + (seq![s] + rest->Ok_0) =~= before.push(s) + rest->Ok_0);
                    }
                }
            },
            Err(e) => {
                return Err(e);
            },
        }
        i = i + 1;
    }
    proof {
        assert(stamps_view(r@) + Seq::empty() =~= stamps_view(r@));
    }
    Ok(r)
}

/// What the fingerprint of tools is the hash of: all that they depend on, and the stamps
/// of their files.
#[derive(Debug)]
pub struct ToolchainValue {
    /// All that they depend on.
    pub inputs: ToolchainInputs,
    /// The stamps of their files.
    pub stamps: Vec<FileStamp>,
}

/// What the value for a fingerprint of tools holds.
pub struct ToolchainValueView {
    /// All that they depend on.
    pub inputs: InputsView,
    /// The stamps of their files.
    pub stamps: Seq<StampView>,
}

impl View for ToolchainValue {
    type V = ToolchainValueView;

    open spec fn view(&self) -> ToolchainValueView {
        ToolchainValueView { inputs: self.inputs@, stamps: stamps_view(self.stamps@) }
    }
}

/// What the fingerprint of tools is the hash of, or the message of the first tool whose
/// metadata could not be told.
pub open spec fn toolchain_hashed(inputs: InputsView, metadata: Seq<FileMetadata>) -> Result<
    ToolchainValueView,
    Text,
> {
    match stamps_of(stamped_tools(inputs.toolchain), metadata) {
        Ok(stamps) => Ok(ToolchainValueView { inputs, stamps }),
        Err(e) => Err(e),
    }
}

/// What a result that is a value for a fingerprint or a message holds.
pub open spec fn toolchain_value_result(r: Result<ToolchainValue, String>) -> Result<
    ToolchainValueView,
    Text,
> {
    match r {
        Ok(value) => Ok(value@),
        Err(e) => Err(e@),
    }
}

/// What the fingerprint of tools is the hash of, out of the metadata of the tools to
/// stamp.
pub fn toolchain_hash_value(inputs: ToolchainInputs, metadata: &Vec<FileMetadata>) -> (r: Result<
    ToolchainValue,
    String,
>)
    requires
        metadata@.len() == stamped_tools(inputs@.toolchain).len(),
    ensures
        toolchain_value_result(r) == toolchain_hashed(inputs@, metadata@),
{
    let tools = tools_to_stamp(&inputs.toolchain);
    assert(tools@.len() == os_texts(tools@).len());
    match stamp_tools(&tools, metadata) {
        Ok(stamps) => Ok(ToolchainValue { inputs, stamps }),
        Err(e) => Err(e),
    }
}

/// What the fingerprint of a library of headers is the hash of: where it stands, and
/// the stamps of its files.
#[derive(Debug)]
pub struct HeadersValue {
    /// Where it stands.
    pub source: String,
    /// The stamps of its files, in their order.
    pub entries: Vec<FileStamp>,
}

/// What the value for a fingerprint of headers holds.
pub struct HeadersValueView {
    /// Where it stands.
    pub source: Text,
    /// The stamps of its files, in their order.
    pub entries: Seq<StampView>,
}

impl View for HeadersValue {
    type V = HeadersValueView;

    open spec fn view(&self) -> HeadersValueView {
        HeadersValueView { source: self.source@, entries: stamps_view(self.entries@) }
    }
}

/// What the fingerprint of a library of headers is the hash of.
pub fn headers_hash_value(source: &str, stamps: &Vec<FileStamp>) -> (r: HeadersValue)
    ensures
        r@ == (HeadersValueView {
            source: source@,
            entries: sorted_stamps(stamps_view(stamps@)),
        }),
{
    HeadersValue { source: source.to_owned(), entries: header_only_entries(stamps) }
}

/// Where the fingerprints of tools are hashes of equal values, the tools, all that they
/// depend on, and the metadata of each stamped file are the same.
pub proof fn lemma_toolchain_value_tells(
    inputs: InputsView,
    others: InputsView,
    a: Seq<FileMetadata>,
    b: Seq<FileMetadata>,
)
    requires
        a.len() == stamped_tools(inputs.toolchain).len(),
        b.len() == stamped_tools(others.toolchain).len(),
        toolchain_hashed(inputs, a) is Ok,
        toolchain_hashed(inputs, a) == toolchain_hashed(others, b),
    ensures
        inputs == others,
        a == b,
{
    lemma_stamps_tell(stamped_tools(inputs.toolchain), a, b);
}

proof fn lemma_stamps_tell(tools: Seq<OsTextView>, a: Seq<FileMetadata>, b: Seq<FileMetadata>)
    requires
        a.len() == tools.len(),
        b.len() == tools.len(),
        stamps_of(tools, a) is Ok,
        stamps_of(tools, a) == stamps_of(tools, b),
    ensures
        a == b,
    decreases tools.len(),
{
    if tools.len() == 0 {
        assert(a =~= b);
    } else {
        let x = stamps_of(tools, a)->Ok_0;
        let y = stamps_of(tools, b)->Ok_0;
        let x_rest = stamps_of(tools.skip(1), a.skip(1))->Ok_0;
        let y_rest = stamps_of(tools.skip(1), b.skip(1))->Ok_0;
        assert(x[0] == tool_stamp(tools[0], a[0])->Ok_0);
        assert(y[0] == tool_stamp(tools[0], b[0])->Ok_0);
        assert(x.skip(1) =~= x_rest);
        assert(y.skip(1) =~= y_rest);
        lemma_stamps_tell(tools.skip(1), a.skip(1), b.skip(1));
        assert forall|i: int| 0 <= i < a.len() implies a[i] == b[i] by {
            if i > 0 {
                assert(a.skip(1)[i - 1] == b.skip(1)[i - 1]);
            }
        }
        assert(a =~= b);
    }
}

/// Each tool that compiles, links or archives is stamped, so that its change is noticed.
pub proof fn lemma_used_tools_stamped(
    tools: ToolchainView,
    language: NativeSourceLanguage,
    has_cpp_sources: bool,
)
    ensures
        stamped_tools(tools).contains(compiler_of(tools, language)),
        stamped_tools(tools).contains(linker_of(tools, has_cpp_sources)),
        tools.ar matches Some(ar) ==> stamped_tools(tools).contains(ar),
        tools.init_script matches Some(script) ==> stamped_tools(tools).contains(script),
{
    let all = stamped_tools(tools);
    assert(all[0] == tools.cc && all[1] == tools.cxx);
    if tools.ar is Some {
        assert(all[2] == tools.ar->0);
    }
    if tools.init_script is Some {
        assert(all.last() == tools.init_script->0);
    }
}

/// The stamp of a tool tells its length, its time, and whether it is there at all: equal
/// stamps come of equal metadata.
pub proof fn lemma_stamp_tells(path: OsTextView, a: FileMetadata, b: FileMetadata)
    requires
        tool_stamp(path, a) is Ok,
        tool_stamp(path, a) == tool_stamp(path, b),
    ensures
        a == b,
{
}

/// The files that a walk came upon, in its order.
pub open spec fn files_in(walk: Seq<WalkEntry>) -> Seq<Text>
    decreases walk.len(),
{
    if walk.len() == 0 {
        Seq::empty()
    } else {
        let rest = files_in(walk.drop_last());
        if walk.last().kind == WalkKind::File {
            rest.push(walk.last().path@)
        } else {
            rest
        }
    }
}

/// The files of a library of headers: all that stand below its directory, or else the
/// path itself; none where the directory could not be walked to its end.
pub open spec fn header_files(source: Text, fs: FsView, walk: Seq<WalkEntry>) -> Option<Seq<Text>> {
    if !fs.has_dir(source) {
        Some(seq![source])
    } else if walk_complete(walk) {
        Some(files_in(walk))
    } else {
        None
    }
}

/// The files of a library of headers.
pub fn header_files_of(source: &str, fs: &FsView, walk: &Vec<WalkEntry>) -> (r: Option<Vec<String>>)
    ensures
        opt_texts(r) == header_files(source@, *fs, walk@),
{
    if !fs.is_dir(source) {
        let r = one_text(source.to_owned());
        assert(texts(r@) =~= seq![source@]);
        return Some(r);
    }
    let mut r: Vec<String> = no_texts();
    let mut i: usize = 0;
    assert(walk@.take(0) =~= Seq::empty());
    while i < walk.len()
        invariant
            i <= walk@.len(),
            fs.has_dir(source@),
            forall|k: int| 0 <= k < i ==> (#[trigger] walk@[k]).kind != WalkKind::Failed,
            texts(r@) == files_in(walk@.take(i as int)),
        decreases walk@.len() - i,
    {
        let entry = &walk[i];
        if entry.kind == WalkKind::Failed {
            assert(walk@[i as int].kind == WalkKind::Failed);
            return None;
        }
        assert(walk@.take(i + 1).drop_last() =~= walk@.take(i as int));
        if entry.kind == WalkKind::File {
            push_text(&mut r, entry.path.clone());
        }
        i = i + 1;
    }
    assert(walk@.take(i as int) =~= walk@);
    Some(r)
}

/// What stamps hold.
pub open spec fn stamps_view(list: Seq<FileStamp>) -> Seq<StampView> {
    list.map_values(|s: FileStamp| s@)
}

/// What a length is ordered by: none comes first.
pub open spec fn len_part(len: Option<u64>) -> Part {
    match len {
        None => seq![0u32],
        Some(n) => seq![1u32, (n / 0x1_0000_0000) as u32, (n % 0x1_0000_0000) as u32],
    }
}

/// What a time is ordered by: none comes first.
pub open spec fn time_part(time: Option<u128>) -> Part {
    match time {
        None => seq![0u32],
        Some(n) => {
            let high = (n / 0x1_0000_0000_0000_0000) as u64;
            let low = (n % 0x1_0000_0000_0000_0000) as u64;
            seq![
                1u32,
                (high / 0x1_0000_0000) as u32,
                (high % 0x1_0000_0000) as u32,
                (low / 0x1_0000_0000) as u32,
                (low % 0x1_0000_0000) as u32,
            ]
        },
    }
}

/// What a stamp is ordered by: the path as it is read, then the length, then the time.
pub open spec fn stamp_key(s: StampView) -> Key {
    path_key(s.path.text).push(len_part(s.len)).push(time_part(s.modified))
}

/// What stamps are ordered by.
pub open spec fn stamp_keys(list: Seq<StampView>) -> Seq<Key> {
    list.map_values(|s: StampView| stamp_key(s))
}

/// The stamps in their order.
pub open spec fn sorted_stamps(list: Seq<StampView>) -> Seq<StampView> {
    sorted_by(list, stamp_keys(list))
}

fn stamp_key_of(s: &FileStamp) -> (r: Vec<Vec<u32>>)
    ensures
        key_view(r@) == stamp_key(s@),
{
    let mut r = path_key_of(s.path.as_str());
    let len: Vec<u32> = match s.len {
        None => vec![0],
        Some(n) => vec![1, (n / 0x1_0000_0000) as u32, (n % 0x1_0000_0000) as u32],
    };
    assert(len@ =~= len_part(s.len));
    proof {
        lemma_key_push(r@, len);
    }
    r.push(len);
    let time: Vec<u32> = match s.modified {
        None => vec![0],
        Some(n) => {
            let high: u64 = (n / 0x1_0000_0000_0000_0000) as u64;
            let low: u64 = (n % 0x1_0000_0000_0000_0000) as u64;
            vec![
                1,
                (high / 0x1_0000_0000) as u32,
                (high % 0x1_0000_0000) as u32,
                (low / 0x1_0000_0000) as u32,
                (low % 0x1_0000_0000) as u32,
            ]
        },
    };
    assert(time@ =~= time_part(s.modified));
    proof {
        lemma_key_push(r@, time);
    }
    r.push(time);
    r
}

/// The stamps of the files of a library of headers, in their order.
pub fn header_only_entries(stamps: &Vec<FileStamp>) -> (r: Vec<FileStamp>)
    ensures
        stamps_view(r@) == sorted_stamps(stamps_view(stamps@)),
{
    let ghost all = stamps_view(stamps@);
    let ghost want_keys = stamp_keys(all);
    let mut keys: Vec<Vec<Vec<u32>>> = Vec::new();
    let mut i: usize = 0;
    while i < stamps.len()
        invariant
            i <= stamps@.len(),
            all == stamps_view(stamps@),
            want_keys == stamp_keys(all),
            keys_view(keys@) == want_keys.take(i as int),
        decreases stamps@.len() - i,
    {
        let key = stamp_key_of(&stamps[i]);
        proof {
            lemma_keys_push(keys@, key);
            assert(all[i as int] == stamps@[i as int]@);
            assert(want_keys.take(i + 1) =~= want_keys.take(i as int).push(want_keys[i as int]));
        }
        keys.push(key);
        i = i + 1;
    }
    assert(keys_view(keys@) =~= want_keys);
    assert(keys@.len() == keys_view(keys@).len());
    let places = order_by_keys(&keys);
    let ghost want = pick(all, places_view(places@));
    let mut r: Vec<FileStamp> = Vec::new();
    let mut j: usize = 0;
    while j < places.len()
        invariant
            j <= places@.len(),
            all == stamps_view(stamps@),
            forall|a: int| 0 <= a < places@.len() ==> #[trigger] places@[a] < stamps@.len(),
            want == pick(all, places_view(places@)),
            stamps_view(r@) == want.take(j as int),
        decreases places@.len() - j,
    {
        let s = &stamps[places[j]];
        let copy = FileStamp { path: s.path.copy(), len: s.len, modified: s.modified };
        let ghost before = r@;
        proof {
            assert(want[j as int] == all[places@[j as int] as int]);
            assert(copy@ == want[j as int]);
            assert(want.take(j + 1) =~= want.take(j as int).push(want[j as int]));
        }
        r.push(copy);
        assert(stamps_view(r@) =~= stamps_view(before).push(copy@));
        j = j + 1;
    }
    assert(want.take(j as int) =~= want);
    r
}

/// Something that tells whether a unit is still fresh.
#[derive(Debug)]
pub enum LocalFingerprint {
    /// A text that was worked out before.
    Precalculated(String),
    /// The files that are recorded in a file.
    CheckDepInfo {
        /// The file, below the directory of the build.
        dep_info: String,
        /// Whether files are told apart by their contents, not by their times.
        checksum: bool,
    },
    /// The value of an environment variable.
    FromEnv(String),
}

/// What a fingerprint holds.
pub enum LocalFingerprintView {
    /// A text that was worked out before.
    Precalculated(Text),
    /// The files that are recorded in a file.
    CheckDepInfo {
        /// The file, below the directory of the build.
        dep_info: Text,
        /// Whether files are told apart by their contents, not by their times.
        checksum: bool,
    },
    /// The value of an environment variable.
    FromEnv(Text),
}

impl View for LocalFingerprint {
    type V = LocalFingerprintView;

    open spec fn view(&self) -> LocalFingerprintView {
        match *self {
            LocalFingerprint::Precalculated(text) => LocalFingerprintView::Precalculated(text@),
            LocalFingerprint::CheckDepInfo { dep_info, checksum } => {
                LocalFingerprintView::CheckDepInfo { dep_info: dep_info@, checksum }
            },
            LocalFingerprint::FromEnv(var) => LocalFingerprintView::FromEnv(var@),
        }
    }
}

/// What fingerprints hold.
pub open spec fn fingerprints_view(list: Seq<LocalFingerprint>) -> Seq<LocalFingerprintView> {
    list.map_values(|f: LocalFingerprint| f@)
}

/// What tells whether a native unit is still fresh: for a library of headers the
/// fingerprint of its files; else the recorded files, the variables `CXX` and `AR`,
/// and the fingerprint of the tools.
pub open spec fn unit_fingerprints(
    is_header_only: bool,
    dep_info: Text,
    build_root: Text,
    fingerprint: Text,
) -> Seq<LocalFingerprintView> {
    if is_header_only {
        seq![LocalFingerprintView::Precalculated(fingerprint)]
    } else {
        seq![
            LocalFingerprintView::CheckDepInfo {
                dep_info: match stripped(dep_info, build_root) {
                    Some(path) => path,
                    None => dep_info,
                },
                checksum: false,
            },
            LocalFingerprintView::FromEnv("CXX"@),
            LocalFingerprintView::FromEnv("AR"@),
            LocalFingerprintView::Precalculated(fingerprint),
        ]
    }
}

/// What tells whether a native unit is still fresh.
pub fn local_fingerprints(
    is_header_only: bool,
    dep_info: &str,
    build_root: &str,
    fingerprint: &str,
) -> (r: Vec<LocalFingerprint>)
    requires
        is_header_only || stripped(dep_info@, build_root@) is Some,
    ensures
        fingerprints_view(r@) == unit_fingerprints(
            is_header_only,
            dep_info@,
            build_root@,
            fingerprint@,
        ),
{
    let mut r: Vec<LocalFingerprint> = Vec::new();
    if is_header_only {
        r.push(LocalFingerprint::Precalculated(fingerprint.to_owned()));
    } else {
        let dep_info = match strip_prefix(dep_info, build_root) {
            Some(path) => path,
            None => dep_info.to_owned(),
        };
        r.push(LocalFingerprint::CheckDepInfo { dep_info, checksum: false });
        r.push(LocalFingerprint::FromEnv("CXX".to_owned()));
        r.push(LocalFingerprint::FromEnv("AR".to_owned()));
        r.push(LocalFingerprint::Precalculated(fingerprint.to_owned()));
    }
    assert(fingerprints_view(r@) =~= unit_fingerprints(
        is_header_only,
        dep_info@,
        build_root@,
        fingerprint@,
    ));
    r
}

/// What a recorded path is relative to.
#[derive(Clone, Copy, Debug, PartialEq, Eq, Structural)]
pub enum DepInfoPathType {
    /// The directory of the package.
    PackageRootRelative,
    /// The directory of the build; an absolute path stands for itself.
    BuildRootRelative,
}

/// The real form of a path in a list; a path that is not listed stands for itself.
pub open spec fn real_path(list: Seq<(String, String)>, path: Text) -> Text
    decreases list.len(),
{
    if list.len() == 0 {
        path
    } else if list[0].0@ == path {
        list[0].1@
    } else {
        real_path(list.skip(1), path)
    }
}

fn real_path_of(list: &Vec<(String, String)>, path: &str) -> (r: String)
    ensures
        r@ == real_path(list@, path@),
{
    let mut i: usize = 0;
    assert(list@.skip(0) =~= list@);
    while i < list.len()
        invariant
            i <= list@.len(),
            real_path(list@, path@) == real_path(list@.skip(i as int), path@),
        decreases list@.len() - i,
    {
        if same_text(list[i].0.as_str(), path) {
            return list[i].1.clone();
        }
        assert(list@.skip(i as int).skip(1) =~= list@.skip(i + 1));
        i = i + 1;
    }
    path.to_owned()
}

/// How a path is recorded: below the directory of the build, below that of the
/// package, or as it is.
pub open spec fn recorded_path(build_root: Text, pkg_root: Text, path: Text) -> (
    DepInfoPathType,
    Text,
) {
    match stripped(path, build_root) {
        Some(rest) => (DepInfoPathType::BuildRootRelative, rest),
        None => match stripped(path, pkg_root) {
            Some(rest) => (DepInfoPathType::PackageRootRelative, rest),
            None => (DepInfoPathType::BuildRootRelative, path),
        },
    }
}

/// What is recorded of the files that a build read: their real forms, in the order
/// of the paths, each path once.
pub open spec fn recorded_paths(
    build_root: Text,
    pkg_root: Text,
    paths: Seq<Text>,
    real_paths: Seq<(String, String)>,
) -> Seq<(DepInfoPathType, Text)> {
    sorted_paths(paths).map_values(
        |p: Text| recorded_path(build_root, pkg_root, real_path(real_paths, p)),
    )
}

/// What records hold.
pub open spec fn records_view(list: Seq<(DepInfoPathType, String)>) -> Seq<
    (DepInfoPathType, Text),
> {
    list.map_values(|r: (DepInfoPathType, String)| (r.0, r.1@))
}

/// What is recorded of the files that a build read. The two directories are given
/// in their real form, and `real_paths` holds the real form of paths that have one.
pub fn write_dep_info(
    build_root: &str,
    pkg_root: &str,
    paths: &Vec<String>,
    real_paths: &Vec<(String, String)>,
) -> (r: Vec<(DepInfoPathType, String)>)
    ensures
        records_view(r@) == recorded_paths(
            build_root@,
            pkg_root@,
            texts(paths@),
            real_paths@,
        ),
{
    let sorted = sort_paths(paths);
    let ghost want = recorded_paths(build_root@, pkg_root@, texts(paths@), real_paths@);
    let mut r: Vec<(DepInfoPathType, String)> = Vec::new();
    let mut i: usize = 0;
    assert(texts(sorted@).len() == sorted@.len());
    assert(records_view(r@) =~= want.take(0));
    while i < sorted.len()
        invariant
            i <= sorted@.len(),
            texts(sorted@) == sorted_paths(texts(paths@)),
            want == recorded_paths(build_root@, pkg_root@, texts(paths@), real_paths@),
            want.len() == sorted@.len(),
            records_view(r@) == want.take(i as int),
        decreases sorted@.len() - i,
    {
        let actual = real_path_of(real_paths, sorted[i].as_str());
        let record = match strip_prefix(actual.as_str(), build_root) {
            Some(rest) => (DepInfoPathType::BuildRootRelative, rest),
            None => match strip_prefix(actual.as_str(), pkg_root) {
                Some(rest) => (DepInfoPathType::PackageRootRelative, rest),
                None => (DepInfoPathType::BuildRootRelative, actual),
            },
        };
        let ghost before = r@;
        proof {
            assert(texts(sorted@)[i as int] == sorted@[i as int]@);
            assert(want[i as int] == recorded_path(
                build_root@,
                pkg_root@,
                real_path(real_paths@, sorted@[i as int]@),
            ));
            assert((record.0, record.1@) == want[i as int]);
            assert(want.take(i + 1) =~= want.take(i as int).push(want[i as int]));
        }
        r.push(record);
        assert(records_view(r@) =~= records_view(before).push((record.0, record.1@)));
        i = i + 1;
    }
    assert(want.take(i as int) =~= want);
    r
}

/// Lengths are ordered as numbers, and none comes before all of them.
pub proof fn lemma_len_part(a: Option<u64>, b: Option<u64>)
    ensures
        part_less(len_part(a), len_part(b)) <==> (match (a, b) {
            (None, Some(_)) => true,
            (Some(x), Some(y)) => x < y,
            _ => false,
        }),
{
    reveal_with_fuel(part_less, 5);
    let p = len_part(a);
    let q = len_part(b);
    assert(p.skip(1).len() == p.len() - 1 && q.skip(1).len() == q.len() - 1);
    if a is Some && b is Some {
        let x = a->0;
        let y = b->0;
        assert(x == (x / 0x1_0000_0000) * 0x1_0000_0000 + x % 0x1_0000_0000);
        assert(y == (y / 0x1_0000_0000) * 0x1_0000_0000 + y % 0x1_0000_0000);
        assert(p.skip(1)[0] == p[1] && q.skip(1)[0] == q[1]);
        assert(p.skip(1).skip(1)[0] == p[2] && q.skip(1).skip(1)[0] == q[2]);
        assert(p.skip(1).skip(1).skip(1).len() == 0 && q.skip(1).skip(1).skip(1).len() == 0);
    }
}

proof fn lemma_digits(n: u128)
    ensures
        ({
            let high = (n / 0x1_0000_0000_0000_0000) as u64;
            let low = (n % 0x1_0000_0000_0000_0000) as u64;
            n == (high / 0x1_0000_0000) as u32 * 0x1_0000_0000_0000_0000_0000_0000 + (high
                % 0x1_0000_0000) as u32 * 0x1_0000_0000_0000_0000 + (low / 0x1_0000_0000) as u32
                * 0x1_0000_0000 + (low % 0x1_0000_0000) as u32
        }),
{
    let high = (n / 0x1_0000_0000_0000_0000) as u64;
    let low = (n % 0x1_0000_0000_0000_0000) as u64;
    assert(n == high * 0x1_0000_0000_0000_0000 + low);
    assert(high == (high / 0x1_0000_0000) * 0x1_0000_0000 + high % 0x1_0000_0000);
    assert(low == (low / 0x1_0000_0000) * 0x1_0000_0000 + low % 0x1_0000_0000);
}

/// Times are ordered as numbers, and none comes before all of them.
pub proof fn lemma_time_part(a: Option<u128>, b: Option<u128>)
    ensures
        part_less(time_part(a), time_part(b)) <==> (match (a, b) {
            (None, Some(_)) => true,
            (Some(x), Some(y)) => x < y,
            _ => false,
        }),
{
    reveal_with_fuel(part_less, 7);
    let p = time_part(a);
    let q = time_part(b);
    assert(p.skip(1).len() == p.len() - 1 && q.skip(1).len() == q.len() - 1);
    if a is Some && b is Some {
        lemma_digits(a->0);
        lemma_digits(b->0);
        let p1 = p.skip(1);
        let q1 = q.skip(1);
        let p2 = p1.skip(1);
        let q2 = q1.skip(1);
        let p3 = p2.skip(1);
        let q3 = q2.skip(1);
        let p4 = p3.skip(1);
        let q4 = q3.skip(1);
        assert(p1[0] == p[1] && q1[0] == q[1]);
        assert(p2[0] == p[2] && q2[0] == q[2]);
        assert(p3[0] == p[3] && q3[0] == q[3]);
        assert(p4[0] == p[4] && q4[0] == q[4]);
        assert(p4.skip(1).len() == 0 && q4.skip(1).len() == 0);
    }
}

/// Where all that a compilation target depends on is the same in two builds, the
/// environment gives the same options to the compilers and the linker in both.
pub proof fn lemma_inputs_decide_options(
    a: BuildContext,
    b: BuildContext,
    kind_a: KindContext,
    kind_b: KindContext,
    language: NativeSourceLanguage,
)
    requires
        toolchain_inputs(a, kind_a) is Ok,
        toolchain_inputs(a, kind_a) == toolchain_inputs(b, kind_b),
    ensures
        ({
            let inputs = toolchain_inputs(a, kind_a)->Ok_0;
            &&& kind_a.target_triple@ == inputs.target_triple
            &&& kind_b.target_triple@ == inputs.target_triple
            &&& config_args(kind_a.config) == config_args(kind_b.config)
            &&& compile_env_flags(
                a.env,
                inputs.target_triple,
                language,
                inputs.cpp_config_args,
                inputs.c_config_args,
                inputs.cxx_config_args,
            ) == compile_env_flags(
                b.env,
                inputs.target_triple,
                language,
                inputs.cpp_config_args,
                inputs.c_config_args,
                inputs.cxx_config_args,
            )
            &&& link_env_flags(a.env, inputs.target_triple, inputs.link_config_args)
                == link_env_flags(b.env, inputs.target_triple, inputs.link_config_args)
        }),
{
    let inputs = toolchain_inputs(a, kind_a)->Ok_0;
    lemma_flag_values_decide(
        a.env,
        b.env,
        inputs.target_triple,
        language,
        inputs.cpp_config_args,
        inputs.c_config_args,
        inputs.cxx_config_args,
        inputs.link_config_args,
    );
}

} // verus!
