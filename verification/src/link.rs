//! What goes into a link: libraries, directories that they are looked for in, and
//! linker options.
use vstd::prelude::*;

use crate::command::{Command, CommandView};
use crate::native::NativeCompilerFamily;
use crate::outputs::{build_outputs_from_metadata, descriptors_view, outputs_from, outputs_view};
use crate::outputs::{push_unique_path, sort_outputs, sorted_outputs, with_path, BuildOutput};
use crate::outputs::{BuildScriptOutputs, DescriptorView, LibraryPath, LinkArgTarget};
use crate::outputs::NativeDependencyDescriptor;
use crate::text::{append_list, find_from, lemma_find_from, no_texts, push_text, same_text};
use crate::text::{split_once_at, split_once_char, text2, texts, Text};

verus! {

/// What a unit is compiled for.
#[derive(Clone, Copy, Debug, PartialEq, Eq, Structural)]
pub enum CompileMode {
    /// A test is built.
    Test,
    /// It is built.
    Build,
    /// It is checked, as a test or not.
    Check {
        /// Whether it is checked as a test.
        test: bool,
    },
    /// Its documentation is built.
    Doc,
    /// Its documentation is tested.
    Doctest,
    /// Examples are looked for in it.
    Docscrape,
    /// It is a build script that is run.
    RunCustomBuild,
}

/// A test is built or checked.
pub open spec fn is_any_test(mode: CompileMode) -> bool {
    mode == CompileMode::Test || mode == (CompileMode::Check { test: true })
}

/// How a unit is linked.
#[derive(Debug)]
pub struct NativeLinkContext {
    /// Whether it is a binary.
    pub is_bin: bool,
    /// Whether it is a shared library with a C interface.
    pub is_cdylib: bool,
    /// Whether it is a test.
    pub is_test: bool,
    /// Whether it is a benchmark.
    pub is_bench: bool,
    /// Whether it is an example that can be run.
    pub is_example: bool,
    /// The name of the target.
    pub target_name: String,
    /// What it is compiled for.
    pub mode: CompileMode,
}

/// A linker option is for a target.
pub open spec fn arg_applies(link_type: LinkArgTarget, context: NativeLinkContext) -> bool {
    match link_type {
        LinkArgTarget::All => true,
        LinkArgTarget::Cdylib => !is_any_test(context.mode) && context.is_cdylib,
        LinkArgTarget::Bin => context.is_bin,
        LinkArgTarget::SingleBin(name) => context.is_bin && context.target_name@ == name@,
        LinkArgTarget::Test => context.is_test,
        LinkArgTarget::Bench => context.is_bench,
        LinkArgTarget::Example => context.is_example,
    }
}

/// Whether a linker option is for a target.
pub fn link_arg_applies_to(link_type: &LinkArgTarget, context: &NativeLinkContext) -> (r: bool)
    ensures
        r == arg_applies(*link_type, *context),
{
    let is_test = context.mode == CompileMode::Test || context.mode == (CompileMode::Check {
        test: true,
    });
    match link_type {
        LinkArgTarget::All => true,
        LinkArgTarget::Cdylib => !is_test && context.is_cdylib,
        LinkArgTarget::Bin => context.is_bin,
        LinkArgTarget::SingleBin(name) => context.is_bin && same_text(
            context.target_name.as_str(),
            name.as_str(),
        ),
        LinkArgTarget::Test => context.is_test,
        LinkArgTarget::Bench => context.is_bench,
        LinkArgTarget::Example => context.is_example,
    }
}

/// What stands behind the first `=`, or the whole text without one.
pub open spec fn behind_equals(s: Text) -> Text {
    match split_once_at(s, '=') {
        Some((_, value)) => value,
        None => s,
    }
}

/// What stands before the first `:`, or the whole text without one.
pub open spec fn before_colon(s: Text) -> Text {
    match split_once_at(s, ':') {
        Some((name, _)) => name,
        None => s,
    }
}

/// The bare name of a library that is written as `kind=name:rename`.
pub open spec fn library_name(library: Text) -> Text {
    before_colon(behind_equals(library))
}

/// The bare name of a library that is written as `kind=name:rename`.
pub fn native_link_library_name(library: &str) -> (r: String)
    ensures
        r@ == library_name(library@),
{
    let library = match split_once_char(library, '=') {
        Some((_kind, value)) => value,
        None => library.to_owned(),
    };
    match split_once_char(library.as_str(), ':') {
        Some((name, _rename)) => name,
        None => library,
    }
}

/// What goes into a link.
#[derive(Debug)]
pub struct NativeLinkInputs<'a> {
    /// The libraries of native dependencies.
    pub dependency_libraries: Vec<String>,
    /// Directories that the manifest names.
    pub manifest_library_search_dirs: Vec<String>,
    /// Libraries that the manifest names.
    pub manifest_library_links: Vec<String>,
    /// Linker options that the manifest names.
    pub manifest_link_args: Vec<String>,
    /// What build scripts printed.
    pub build_outputs: Vec<&'a BuildOutput>,
}

/// What link inputs hold.
#[verifier::ext_equal]
pub struct LinkInputsView {
    /// The libraries of native dependencies.
    pub dependency_libraries: Seq<Text>,
    /// Directories that the manifest names.
    pub manifest_library_search_dirs: Seq<Text>,
    /// Libraries that the manifest names.
    pub manifest_library_links: Seq<Text>,
    /// Linker options that the manifest names.
    pub manifest_link_args: Seq<Text>,
    /// What build scripts printed.
    pub build_outputs: Seq<BuildOutput>,
}

impl<'a> View for NativeLinkInputs<'a> {
    type V = LinkInputsView;

    open spec fn view(&self) -> LinkInputsView {
        LinkInputsView {
            dependency_libraries: texts(self.dependency_libraries@),
            manifest_library_search_dirs: texts(self.manifest_library_search_dirs@),
            manifest_library_links: texts(self.manifest_library_links@),
            manifest_link_args: texts(self.manifest_link_args@),
            build_outputs: outputs_view(self.build_outputs@),
        }
    }
}

/// The libraries of dependencies, each once.
pub open spec fn dependency_libraries(list: Seq<DescriptorView>) -> Seq<Text>
    decreases list.len(),
{
    if list.len() == 0 {
        Seq::empty()
    } else {
        let rest = dependency_libraries(list.drop_last());
        match list.last().output_path {
            Some(path) => with_path(rest, path),
            None => rest,
        }
    }
}

/// What the build scripts of dependencies printed, one dependency behind the
/// other.
pub open spec fn dependency_outputs(
    outputs: BuildScriptOutputs,
    list: Seq<DescriptorView>,
) -> Seq<BuildOutput>
    decreases list.len(),
{
    if list.len() == 0 {
        Seq::empty()
    } else {
        dependency_outputs(outputs, list.drop_last()) + outputs_from(
            outputs,
            list.last().build_script_metadatas,
            list.last().previous_build_outputs,
        )
    }
}

/// What dependencies and the build scripts of the package itself give to a link.
pub open spec fn link_inputs_of(
    outputs: BuildScriptOutputs,
    list: Seq<DescriptorView>,
    hashes: Option<Vec<u64>>,
    previous: Seq<BuildOutput>,
) -> LinkInputsView {
    LinkInputsView {
        dependency_libraries: dependency_libraries(list),
        manifest_library_search_dirs: Seq::empty(),
        manifest_library_links: Seq::empty(),
        manifest_link_args: Seq::empty(),
        build_outputs: sorted_outputs(
            dependency_outputs(outputs, list) + outputs_from(outputs, hashes, previous),
        ),
    }
}

fn append_outputs<'a>(list: &mut Vec<&'a BuildOutput>, more: &Vec<&'a BuildOutput>)
    ensures
        outputs_view(final(list)@) == outputs_view(old(list)@) + outputs_view(more@),
{
    let ghost start = outputs_view(list@);
    let ghost all = outputs_view(more@);
    let mut i: usize = 0;
    assert(start + all.take(0) =~= start);
    while i < more.len()
        invariant
            i <= more@.len(),
            all == outputs_view(more@),
            outputs_view(list@) == start + all.take(i as int),
        decreases more@.len() - i,
    {
        let ghost before = list@;
        list.push(more[i]);
        assert(all[i as int] == *more@[i as int]);
        assert(outputs_view(list@) =~= outputs_view(before).push(all[i as int]));
        assert(start + all.take(i + 1) =~= (start + all.take(i as int)).push(all[i as int]));
        i = i + 1;
    }
    assert(all.take(i as int) =~= all);
}

/// What dependencies and the build scripts of the package itself give to a link.
pub fn native_link_inputs_from_descriptors<'a>(
    outputs: &'a BuildScriptOutputs,
    descriptors: &Vec<NativeDependencyDescriptor<'a>>,
    current_build_script_metadatas: &Option<Vec<u64>>,
    current_previous_build_outputs: &'a Vec<BuildOutput>,
) -> (r: NativeLinkInputs<'a>)
    ensures
        r@ == link_inputs_of(
            *outputs,
            descriptors_view(descriptors@),
            *current_build_script_metadatas,
            current_previous_build_outputs@,
        ),
{
    let ghost all = descriptors_view(descriptors@);
    let mut libraries: Vec<String> = no_texts();
    let mut printed: Vec<&'a BuildOutput> = Vec::new();
    let mut i: usize = 0;
    assert(all.take(0) =~= Seq::empty());
    assert(outputs_view(printed@) =~= Seq::empty());
    while i < descriptors.len()
        invariant
            i <= descriptors@.len(),
            all == descriptors_view(descriptors@),
            texts(libraries@) == dependency_libraries(all.take(i as int)),
            outputs_view(printed@) == dependency_outputs(*outputs, all.take(i as int)),
        decreases descriptors@.len() - i,
    {
        let d = &descriptors[i];
        assert(all[i as int] == d@);
        assert(all.take(i + 1).drop_last() =~= all.take(i as int));
        match &d.output_path {
            Some(path) => push_unique_path(&mut libraries, path.as_str()),
            None => {},
        }
        append_outputs(
            &mut printed,
            &build_outputs_from_metadata(
                outputs,
                d.build_script_metadatas,
                d.previous_build_outputs,
            ),
        );
        i = i + 1;
    }
    assert(all.take(i as int) =~= all);
    append_outputs(
        &mut printed,
        &build_outputs_from_metadata(
            outputs,
            current_build_script_metadatas,
            current_previous_build_outputs,
        ),
    );
    NativeLinkInputs {
        dependency_libraries: libraries,
        manifest_library_search_dirs: no_texts(),
        manifest_library_links: no_texts(),
        manifest_link_args: no_texts(),
        build_outputs: sort_outputs(&printed),
    }
}

/// The directories of a list that hold what was built, or the others.
pub open spec fn dirs_of_kind(list: Seq<LibraryPath>, built: bool) -> Seq<Text>
    decreases list.len(),
{
    if list.len() == 0 {
        Seq::empty()
    } else {
        let rest = dirs_of_kind(list.drop_last(), built);
        match list.last() {
            LibraryPath::CargoArtifact(dir) => if built {
                rest.push(dir@)
            } else {
                rest
            },
            LibraryPath::External(dir) => if built {
                rest
            } else {
                rest.push(dir@)
            },
        }
    }
}

/// The directories that outputs name and that hold what was built, or the others.
pub open spec fn output_dirs(list: Seq<BuildOutput>, built: bool) -> Seq<Text>
    decreases list.len(),
{
    if list.len() == 0 {
        Seq::empty()
    } else {
        output_dirs(list.drop_last(), built) + dirs_of_kind(
            list.last().library_paths@,
            built,
        )
    }
}

/// The libraries that outputs name.
pub open spec fn output_links(list: Seq<BuildOutput>) -> Seq<Text>
    decreases list.len(),
{
    if list.len() == 0 {
        Seq::empty()
    } else {
        output_links(list.drop_last()) + texts(list.last().library_links@)
    }
}

/// The linker options of a list that are for a target.
pub open spec fn args_for(
    list: Seq<(LinkArgTarget, String)>,
    context: NativeLinkContext,
) -> Seq<Text>
    decreases list.len(),
{
    if list.len() == 0 {
        Seq::empty()
    } else {
        let rest = args_for(list.drop_last(), context);
        if arg_applies(list.last().0, context) {
            rest.push(list.last().1@)
        } else {
            rest
        }
    }
}

/// The linker options that outputs name for a target.
pub open spec fn output_args(list: Seq<BuildOutput>, context: NativeLinkContext) -> Seq<Text>
    decreases list.len(),
{
    if list.len() == 0 {
        Seq::empty()
    } else {
        output_args(list.drop_last(), context) + args_for(list.last().linker_args@, context)
    }
}

/// The options for directories that libraries are looked for in.
pub open spec fn dir_args(dirs: Seq<Text>, family: NativeCompilerFamily) -> Seq<Text>
    decreases dirs.len(),
{
    if dirs.len() == 0 {
        Seq::empty()
    } else {
        let rest = dir_args(dirs.drop_last(), family);
        match family {
            NativeCompilerFamily::GnuLike => rest.push("-L"@).push(dirs.last()),
            NativeCompilerFamily::MsvcLike => rest.push("/LIBPATH:"@ + dirs.last()),
        }
    }
}

/// The option for a library.
pub open spec fn library_arg(library: Text, family: NativeCompilerFamily) -> Text {
    match family {
        NativeCompilerFamily::GnuLike => "-l"@ + library_name(library),
        NativeCompilerFamily::MsvcLike => library_name(library) + ".lib"@,
    }
}

/// The options for libraries.
pub open spec fn library_args(list: Seq<Text>, family: NativeCompilerFamily) -> Seq<Text> {
    list.map_values(|library: Text| library_arg(library, family))
}

/// The options that link inputs come to: the directories, those that hold what was
/// built before all others; the linker options; the libraries. In each of the three
/// what build scripts printed comes before what the manifest names.
pub open spec fn link_input_args(
    family: NativeCompilerFamily,
    inputs: LinkInputsView,
    context: NativeLinkContext,
) -> Seq<Text> {
    dir_args(
        output_dirs(inputs.build_outputs, true) + output_dirs(inputs.build_outputs, false)
            + inputs.manifest_library_search_dirs,
        family,
    ) + output_args(inputs.build_outputs, context) + inputs.manifest_link_args + library_args(
        output_links(inputs.build_outputs) + inputs.manifest_library_links,
        family,
    )
}

fn push_dirs_of_kind(r: &mut Vec<String>, list: &Vec<LibraryPath>, built: bool)
    ensures
        texts(final(r)@) == texts(old(r)@) + dirs_of_kind(list@, built),
{
    let ghost start = texts(r@);
    let mut i: usize = 0;
    assert(list@.take(0) =~= Seq::empty());
    assert(start + dirs_of_kind(list@.take(0), built) =~= start);
    while i < list.len()
        invariant
            i <= list@.len(),
            texts(r@) == start + dirs_of_kind(list@.take(i as int), built),
        decreases list@.len() - i,
    {
        assert(list@.take(i + 1).drop_last() =~= list@.take(i as int));
        match &list[i] {
            LibraryPath::CargoArtifact(dir) => {
                if built {
                    push_text(r, dir.clone());
                }
            },
            LibraryPath::External(dir) => {
                if !built {
                    push_text(r, dir.clone());
                }
            },
        }
        assert(texts(r@) =~= start + dirs_of_kind(list@.take(i + 1), built));
        i = i + 1;
    }
    assert(list@.take(i as int) =~= list@);
}

fn push_args_for(
    r: &mut Vec<String>,
    list: &Vec<(LinkArgTarget, String)>,
    context: &NativeLinkContext,
)
    ensures
        texts(final(r)@) == texts(old(r)@) + args_for(list@, *context),
{
    let ghost start = texts(r@);
    let mut i: usize = 0;
    assert(list@.take(0) =~= Seq::empty());
    assert(start + args_for(list@.take(0), *context) =~= start);
    while i < list.len()
        invariant
            i <= list@.len(),
            texts(r@) == start + args_for(list@.take(i as int), *context),
        decreases list@.len() - i,
    {
        assert(list@.take(i + 1).drop_last() =~= list@.take(i as int));
        if link_arg_applies_to(&list[i].0, context) {
            push_text(r, list[i].1.clone());
        }
        assert(texts(r@) =~= start + args_for(list@.take(i + 1), *context));
        i = i + 1;
    }
    assert(list@.take(i as int) =~= list@);
}

fn collect_dirs(list: &Vec<&BuildOutput>, built: bool) -> (r: Vec<String>)
    ensures
        texts(r@) == output_dirs(outputs_view(list@), built),
{
    let ghost all = outputs_view(list@);
    let mut r: Vec<String> = no_texts();
    let mut i: usize = 0;
    assert(all.take(0) =~= Seq::empty());
    while i < list.len()
        invariant
            i <= list@.len(),
            all == outputs_view(list@),
            texts(r@) == output_dirs(all.take(i as int), built),
        decreases list@.len() - i,
    {
        assert(all[i as int] == *list@[i as int]);
        assert(all.take(i + 1).drop_last() =~= all.take(i as int));
        push_dirs_of_kind(&mut r, &list[i].library_paths, built);
        i = i + 1;
    }
    assert(all.take(i as int) =~= all);
    r
}

fn collect_links(list: &Vec<&BuildOutput>) -> (r: Vec<String>)
    ensures
        texts(r@) == output_links(outputs_view(list@)),
{
    let ghost all = outputs_view(list@);
    let mut r: Vec<String> = no_texts();
    let mut i: usize = 0;
    assert(all.take(0) =~= Seq::empty());
    while i < list.len()
        invariant
            i <= list@.len(),
            all == outputs_view(list@),
            texts(r@) == output_links(all.take(i as int)),
        decreases list@.len() - i,
    {
        assert(all[i as int] == *list@[i as int]);
        assert(all.take(i + 1).drop_last() =~= all.take(i as int));
        append_list(&mut r, &list[i].library_links);
        i = i + 1;
    }
    assert(all.take(i as int) =~= all);
    r
}

fn collect_args(list: &Vec<&BuildOutput>, context: &NativeLinkContext) -> (r: Vec<String>)
    ensures
        texts(r@) == output_args(outputs_view(list@), *context),
{
    let ghost all = outputs_view(list@);
    let mut r: Vec<String> = no_texts();
    let mut i: usize = 0;
    assert(all.take(0) =~= Seq::empty());
    while i < list.len()
        invariant
            i <= list@.len(),
            all == outputs_view(list@),
            texts(r@) == output_args(all.take(i as int), *context),
        decreases list@.len() - i,
    {
        assert(all[i as int] == *list@[i as int]);
        assert(all.take(i + 1).drop_last() =~= all.take(i as int));
        push_args_for(&mut r, &list[i].linker_args, context);
        i = i + 1;
    }
    assert(all.take(i as int) =~= all);
    r
}

fn push_dir_args(cmd: &mut Command, dirs: &Vec<String>, family: NativeCompilerFamily)
    ensures
        final(cmd)@ == (CommandView {
            args: old(cmd)@.args + dir_args(texts(dirs@), family),
            ..old(cmd)@
        }),
{
    let ghost all = texts(dirs@);
    let ghost start = cmd@;
    let mut i: usize = 0;
    assert(all.take(0) =~= Seq::empty());
    assert(start.args + dir_args(all.take(0), family) =~= start.args);
    while i < dirs.len()
        invariant
            i <= dirs@.len(),
            all == texts(dirs@),
            cmd@ == (CommandView {
                args: start.args + dir_args(all.take(i as int), family),
                ..start
            }),
        decreases dirs@.len() - i,
    {
        assert(all.take(i + 1).drop_last() =~= all.take(i as int));
        assert(all.take(i + 1).last() == dirs@[i as int]@);
        match family {
            NativeCompilerFamily::GnuLike => {
                cmd.arg("-L");
                cmd.arg(dirs[i].as_str());
            },
            NativeCompilerFamily::MsvcLike => {
                cmd.arg(text2("/LIBPATH:", dirs[i].as_str()).as_str());
            },
        }
        assert(cmd@.args =~= start.args + dir_args(all.take(i + 1), family));
        i = i + 1;
    }
    assert(all.take(i as int) =~= all);
}

fn push_library_args(cmd: &mut Command, list: &Vec<String>, family: NativeCompilerFamily)
    ensures
        final(cmd)@ == (CommandView {
            args: old(cmd)@.args + library_args(texts(list@), family),
            ..old(cmd)@
        }),
{
    let ghost want = library_args(texts(list@), family);
    let ghost start = cmd@;
    let mut i: usize = 0;
    assert(start.args + want.take(0) =~= start.args);
    while i < list.len()
        invariant
            i <= list@.len(),
            want == library_args(texts(list@), family),
            cmd@ == (CommandView { args: start.args + want.take(i as int), ..start }),
        decreases list@.len() - i,
    {
        let name = native_link_library_name(list[i].as_str());
        assert(want[i as int] == library_arg(list@[i as int]@, family));
        match family {
            NativeCompilerFamily::GnuLike => {
                cmd.arg(text2("-l", name.as_str()).as_str());
            },
            NativeCompilerFamily::MsvcLike => {
                cmd.arg(text2(name.as_str(), ".lib").as_str());
            },
        }
        assert(cmd@.args =~= start.args + want.take(i + 1));
        i = i + 1;
    }
    assert(want.take(i as int) =~= want);
}

/// Puts the options that link inputs come to at the end of a command.
pub fn apply_build_output_link_inputs(
    cmd: &mut Command,
    family: NativeCompilerFamily,
    link_inputs: &NativeLinkInputs,
    link_context: &NativeLinkContext,
)
    ensures
        final(cmd)@ == (CommandView {
            args: old(cmd)@.args + link_input_args(family, link_inputs@, *link_context),
            ..old(cmd)@
        }),
{
    let ghost start = cmd@;
    let mut dirs = collect_dirs(&link_inputs.build_outputs, true);
    append_list(&mut dirs, &collect_dirs(&link_inputs.build_outputs, false));
    append_list(&mut dirs, &link_inputs.manifest_library_search_dirs);
    let mut args = collect_args(&link_inputs.build_outputs, link_context);
    append_list(&mut args, &link_inputs.manifest_link_args);
    let mut links = collect_links(&link_inputs.build_outputs);
    append_list(&mut links, &link_inputs.manifest_library_links);
    push_dir_args(cmd, &dirs, family);
    cmd.append_args(&args);
    push_library_args(cmd, &links, family);
    assert(cmd@.args =~= start.args + link_input_args(family, link_inputs@, *link_context));
}

/// Which options the outputs of build scripts come to does not depend on the place
/// of an option for another target: an option that is not for the target is left
/// out.
pub proof fn lemma_args_for_others(
    list: Seq<(LinkArgTarget, String)>,
    arg: (LinkArgTarget, String),
    context: NativeLinkContext,
)
    requires
        !arg_applies(arg.0, context),
    ensures
        args_for(list.push(arg), context) == args_for(list, context),
{
    assert(list.push(arg).drop_last() =~= list);
}

/// The name of a library holds none of what is written around it.
pub proof fn lemma_library_name_plain(name: Text)
    requires
        !name.contains('='),
        !name.contains(':'),
    ensures
        library_name(name) == name,
{
    lemma_no_split(name, '=');
    lemma_no_split(name, ':');
}

proof fn lemma_no_split(s: Text, c: char)
    requires
        !s.contains(c),
    ensures
        split_once_at(s, c) is None,
{
    lemma_find_from(s, c, 0);
    if split_once_at(s, c) is Some {
        assert(s[find_from(s, c, 0)] == c);
    }
}

} // verus!
