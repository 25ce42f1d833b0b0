//! How files are named: the objects of sources, what goes with them, and libraries.
use vstd::prelude::*;

use crate::compiled::{follows, lemma_compile_step, lemma_steps, lemma_within, succeeds};
use crate::env::EnvVars;
use crate::fs::FsView;
use crate::layout::{depfile_of, object_path, objects_dir_of};
use crate::link::library_name;
use crate::linked::{built, last_command};
use crate::native::{is_native_header, is_native_source, language_of, NativeCompilerFamily};
use crate::native::NativeSourceLanguage;
use crate::outputs::BuildScriptOutputs;
use crate::path::{components, extension, file_name, file_stem, is_component, is_rooted, joined};
use crate::path::{has_drive, last_dot, parent, program_name, spans, spans_from, stripped};
use crate::path::{with_ext, with_name, PathRule};
use crate::plan::{StepView, WorkView};
use crate::text::{find_from, lemma_find_from, replaced, split_once_at, Text};
use crate::tools::{compile_command, depfile_args, CompileArgsView};
use crate::toolchain::ToolchainView;

verus! {

/// What a directory is written as in front of a name: nothing, or with a slash at its
/// end.
pub open spec fn is_lead(dir: Text) -> bool {
    dir.len() == 0 || dir[dir.len() - 1] == '/'
}

/// A name of a file or a directory.
pub open spec fn is_plain_name(name: Text) -> bool {
    &&& name.len() > 0
    &&& !name.contains('/')
    &&& name != seq!['.']
    &&& name != seq!['.', '.']
}

/// A directory by its name, below others or not.
pub open spec fn is_named_dir(dir: Text) -> bool {
    exists|lead: Text, name: Text|
        is_lead(lead) && #[trigger] is_plain_name(name) && dir == #[trigger] (lead + name)
}

proof fn lemma_last_span(lead: Text, name: Text, i: int)
    requires
        is_lead(lead),
        is_plain_name(name),
        0 <= i <= lead.len(),
    ensures
        ({
            let list = spans_from(lead + name, i);
            list.len() > 0 && list.last() == (lead.len() as int, (lead + name).len() as int)
        }),
    decreases lead.len() - i,
{
    let s = lead + name;
    lemma_find_from(s, '/', i);
    let e = find_from(s, '/', i);
    if i == lead.len() {
        if e < s.len() {
            assert(name[e - lead.len()] == '/');
            assert(name.contains('/'));
        }
        if e == i + 1 && s[i] == '.' {
            assert(name =~= seq!['.']);
        }
        assert(is_component(s, i, e));
    } else {
        assert(s[lead.len() - 1] == '/');
        assert(e <= lead.len() - 1);
        lemma_last_span(lead, name, e + 1);
    }
}

/// The last component of a path is the name at its end.
proof fn lemma_last_component(lead: Text, name: Text)
    requires
        is_lead(lead),
        is_plain_name(name),
    ensures
        ({
            let s = lead + name;
            &&& spans(s).len() > 0
            &&& spans(s).last() == (lead.len() as int, s.len() as int)
            &&& components(s).last() == name
        }),
{
    let s = lead + name;
    if is_rooted(s) {
        if lead.len() == 0 {
            assert(name[0] == '/');
            assert(name.contains('/'));
        }
        lemma_last_span(lead, name, 1);
    } else {
        lemma_last_span(lead, name, 0);
    }
    let p = spans(s).last();
    assert(s.subrange(p.0, p.1) =~= name);
    assert(components(s).last() == components(s)[components(s).len() - 1]);
}

/// The name of a file is what stands behind the last slash.
pub proof fn lemma_file_name(lead: Text, name: Text)
    requires
        is_lead(lead),
        is_plain_name(name),
    ensures
        file_name(lead + name) == Some(name),
{
    lemma_last_component(lead, name);
    if name.len() == 1 {
        assert(name.contains(name[0]));
        if name[0] == '.' {
            assert(name =~= seq!['.']);
        }
    }
    if name.len() == 2 && name[0] == '.' && name[1] == '.' {
        assert(name =~= seq!['.', '.']);
    }
}

proof fn lemma_last_dot(stem: Text, ext: Text, i: int)
    requires
        !ext.contains('.'),
        stem.len() < i <= stem.len() + 1 + ext.len(),
    ensures
        last_dot(stem + seq!['.'] + ext, i) == stem.len(),
    decreases i,
{
    let s = stem + seq!['.'] + ext;
    if i > stem.len() + 1 {
        if s[i - 1] == '.' {
            assert(ext[i - 1 - stem.len() - 1] == '.');
            assert(ext.contains('.'));
        }
        lemma_last_dot(stem, ext, i - 1);
    } else {
        assert(s[i - 1] == '.');
    }
}

/// A name in two parts with a dot between them: what a file is called and what it is.
pub open spec fn is_typed_name(stem: Text, ext: Text) -> bool {
    &&& stem.len() > 0
    &&& ext.len() > 0
    &&& !stem.contains('/')
    &&& !ext.contains('/')
    &&& !ext.contains('.')
}

proof fn lemma_typed_name(stem: Text, ext: Text)
    requires
        is_typed_name(stem, ext),
    ensures
        is_plain_name(stem + seq!['.'] + ext),
{
    let name = stem + seq!['.'] + ext;
    if name.contains('/') {
        let k = choose|k: int| 0 <= k < name.len() && name[k] == '/';
        if k < stem.len() {
            assert(stem[k] == '/');
        } else if k > stem.len() {
            assert(ext[k - stem.len() - 1] == '/');
        }
    }
    assert(name.len() >= 3);
}

/// The extension is what stands behind the last dot of the name, and the stem what stands
/// before it.
pub proof fn lemma_extension(lead: Text, stem: Text, ext: Text)
    requires
        is_lead(lead),
        is_typed_name(stem, ext),
    ensures
        extension(lead + (stem + seq!['.'] + ext)) == Some(ext),
        file_stem(lead + (stem + seq!['.'] + ext)) == Some(stem),
{
    let name = stem + seq!['.'] + ext;
    lemma_typed_name(stem, ext);
    lemma_file_name(lead, name);
    lemma_last_dot(stem, ext, name.len() as int);
    assert(name.skip(stem.len() as int + 1) =~= ext);
    assert(name.take(stem.len() as int) =~= stem);
}

/// The language of a source shows in its extension: `c` is that of C, and `cc`, `cpp` and
/// `cxx` are those of C++. Nothing else is a source. Headers have extensions of their own.
pub proof fn lemma_languages(lead: Text, stem: Text, ext: Text)
    requires
        is_lead(lead),
        is_typed_name(stem, ext),
    ensures
        ({
            let path = lead + (stem + seq!['.'] + ext);
            &&& language_of(path) == Some(NativeSourceLanguage::C) <==> ext == "c"@
            &&& language_of(path) == Some(NativeSourceLanguage::Cpp) <==> (ext == "cc"@ || ext
                == "cpp"@ || ext == "cxx"@)
            &&& is_native_source(path) <==> (ext == "c"@ || ext == "cc"@ || ext == "cpp"@ || ext
                == "cxx"@)
            &&& is_native_header(path) <==> (ext == "h"@ || ext == "hh"@ || ext == "hpp"@ || ext
                == "hxx"@ || ext == "inc"@ || ext == "ipp"@ || ext == "tpp"@)
        }),
{
    lemma_extension(lead, stem, ext);
    reveal_strlit("c");
    reveal_strlit("cc");
    reveal_strlit("cpp");
    reveal_strlit("cxx");
    assert("c"@.len() == 1 && "cc"@.len() == 2 && "cpp"@.len() == 3 && "cxx"@.len() == 3);
}

/// A new extension takes the place of the old one.
pub proof fn lemma_new_extension(lead: Text, stem: Text, ext: Text, new: Text)
    requires
        is_lead(lead),
        is_typed_name(stem, ext),
        new.len() > 0,
    ensures
        with_ext(lead + (stem + seq!['.'] + ext), new) == lead + (stem + seq!['.'] + new),
{
    let name = stem + seq!['.'] + ext;
    let s = lead + name;
    lemma_typed_name(stem, ext);
    lemma_extension(lead, stem, ext);
    lemma_last_component(lead, name);
    assert(s.take(lead.len() as int + stem.len()) =~= lead + stem);
    assert((lead + stem).push('.') + new =~= lead + (stem + seq!['.'] + new));
}

/// The components of a path below a directory start with those of the directory.
proof fn lemma_spans_slash(dir: Text, rel: Text, i: int)
    requires
        0 <= i <= dir.len(),
    ensures
        ({
            let s = dir + seq!['/'] + rel;
            spans_from(s, i) == spans_from(dir, i) + spans_from(s, dir.len() as int + 1)
        }),
    decreases dir.len() - i,
{
    let s = dir + seq!['/'] + rel;
    let tail = spans_from(s, dir.len() as int + 1);
    lemma_find_from(s, '/', i);
    let e = find_from(s, '/', i);
    assert(s[dir.len() as int] == '/');
    assert(e <= dir.len());
    if i == dir.len() {
        assert(e == i);
        assert(!is_component(s, i, e));
        assert(spans_from(dir, i) =~= Seq::<(int, int)>::empty());
        assert(spans_from(s, i) =~= spans_from(dir, i) + tail);
    } else {
        lemma_find_from(dir, '/', i);
        let f = find_from(dir, '/', i);
        assert(f == e) by {
            if f < e {
                assert(s[f] == dir[f]);
            }
            if e < f {
                assert(dir[e] == s[e]);
            }
        }
        assert(s[i] == dir[i]);
        assert(is_component(s, i, e) == is_component(dir, i, e));
        if e < dir.len() {
            lemma_spans_slash(dir, rel, e + 1);
        }
        assert(spans_from(s, i) =~= spans_from(dir, i) + tail);
    }
}

/// A path that begins with a name.
pub open spec fn begins_with_name(rel: Text) -> bool {
    &&& rel.len() > 0
    &&& rel[0] != '/'
    &&& !(rel[0] == '.' && (rel.len() == 1 || rel[1] == '/'))
}

/// What is below a directory is what stands behind its name and a slash.
pub proof fn lemma_stripped(dir: Text, lead: Text, name: Text)
    requires
        is_named_dir(dir),
        is_lead(lead),
        is_plain_name(name),
        begins_with_name(lead + name),
    ensures
        stripped(dir + seq!['/'] + (lead + name), dir) == Some(lead + name),
{
    let rel = lead + name;
    let s = dir + seq!['/'] + rel;
    let from: int = if is_rooted(dir) {
        1
    } else {
        0
    };
    lemma_named_dir(dir);
    assert(is_rooted(s) == is_rooted(dir)) by {
        assert(s[0] == dir[0]);
    }
    lemma_spans_slash(dir, rel, from);
    let n = dir.len() + 1;
    let tail = spans_from(s, n as int);
    assert(spans(s) =~= spans(dir) + tail);
    lemma_find_from(s, '/', n as int);
    let e = find_from(s, '/', n as int);
    assert(s[n as int] == rel[0]);
    assert(is_component(s, n as int, e)) by {
        if e == n + 1 && s[n as int] == '.' {
            if e < s.len() {
                assert(s[e] == rel[1]);
            }
        }
    }
    assert(tail[0] == (n as int, e));
    let whole = dir + seq!['/'] + lead;
    assert(is_lead(whole)) by {
        if lead.len() > 0 {
            assert(whole[whole.len() - 1] == lead[lead.len() - 1]);
        }
    }
    assert(whole + name =~= s);
    lemma_last_component(whole, name);
    let k = components(dir).len() as int;
    assert(k == spans(dir).len());
    assert(spans(s)[k] == tail[0]);
    assert(components(dir).is_prefix_of(components(s))) by {
        assert forall|j: int| 0 <= j < k implies components(dir)[j] == #[trigger] components(s)[j] by {
            let p = spans(dir)[j];
            crate::path::lemma_spans(dir);
            assert(spans(s)[j] == p);
            assert(s.subrange(p.0, p.1) =~= dir.subrange(p.0, p.1));
        }
        assert(components(s).take(k) =~= components(dir));
    }
    assert(s.subrange(n as int, s.len() as int) =~= rel);
}

proof fn lemma_named_dir(dir: Text)
    requires
        is_named_dir(dir),
    ensures
        dir.len() > 0,
        dir[dir.len() - 1] != '/',
        spans(dir).len() > 0,
        spans(dir).last().1 == dir.len(),
{
    let (lead, name) = choose|lead: Text, name: Text|
        is_lead(lead) && #[trigger] is_plain_name(name) && dir == #[trigger] (lead + name);
    lemma_last_component(lead, name);
    assert(dir[dir.len() - 1] == name[name.len() - 1]);
    assert(name.contains(name[name.len() - 1]));
}

/// The parent of a file is the directory before its name.
pub proof fn lemma_parent(dir: Text, name: Text)
    requires
        is_plain_name(name),
    ensures
        is_named_dir(dir) ==> parent(dir + seq!['/'] + name) == Some(dir),
        parent(name) == Some(Seq::<char>::empty()),
{
    let none = Seq::<char>::empty();
    assert(none + name =~= name);
    lemma_last_component(none, name);
    assert(!is_rooted(name)) by {
        assert(name.contains(name[0]));
    }
    lemma_find_from(name, '/', 0);
    let e = find_from(name, '/', 0);
    if e < name.len() {
        assert(name.contains(name[e]));
    }
    assert(spans(name).len() == 1);
    if is_named_dir(dir) {
        lemma_named_dir(dir);
        let s = dir + seq!['/'] + name;
        let from: int = if is_rooted(dir) {
            1
        } else {
            0
        };
        assert(is_rooted(s) == is_rooted(dir)) by {
            assert(s[0] == dir[0]);
        }
        lemma_spans_slash(dir, name, from);
        let n = dir.len() + 1;
        let tail = spans_from(s, n as int);
        assert(spans(s) =~= spans(dir) + tail);
        lemma_find_from(s, '/', n as int);
        let f = find_from(s, '/', n as int);
        if f < s.len() {
            assert(name.contains(name[f - n]));
        }
        assert(tail.len() <= 1);
        let whole = dir + seq!['/'];
        assert(whole + name =~= s);
        lemma_last_component(whole, name);
        assert(tail.len() == 1) by {
            if tail.len() == 0 {
                assert(spans(s) =~= spans(dir));
            }
        }
        let p = spans(s);
        assert(p[p.len() - 2] == spans(dir).last());
        assert(s.take(dir.len() as int) =~= dir);
    }
}

proof fn lemma_renamed(dir: Text, name: Text, new: Text)
    requires
        is_named_dir(dir),
        is_plain_name(name),
        new.len() > 0,
        new[0] != '/',
    ensures
        with_name(dir + seq!['/'] + name, new) == dir + seq!['/'] + new,
{
    let s = dir + seq!['/'] + name;
    let lead = dir + seq!['/'];
    assert(lead + name =~= s);
    lemma_file_name(lead, name);
    lemma_parent(dir, name);
    lemma_named_dir(dir);
    assert(dir.last() == dir[dir.len() - 1]);
    assert(joined(dir, new) =~= dir + seq!['/'] + new);
}

/// The object of a source of a package stands below the directory of objects as the
/// source does below the package, with the extension of objects.
pub proof fn lemma_object_name(
    package_root: Text,
    lead: Text,
    stem: Text,
    ext: Text,
    objects_dir: Text,
    family: NativeCompilerFamily,
)
    requires
        is_named_dir(package_root),
        is_named_dir(objects_dir),
        is_lead(lead),
        is_typed_name(stem, ext),
        begins_with_name(lead + (stem + seq!['.'] + ext)),
    ensures
        object_path(
            package_root,
            package_root + seq!['/'] + (lead + (stem + seq!['.'] + ext)),
            objects_dir,
            family,
        ) == objects_dir + seq!['/'] + (lead + (stem + seq!['.'] + match family {
            NativeCompilerFamily::GnuLike => "o"@,
            NativeCompilerFamily::MsvcLike => "obj"@,
        })),
{
    let name = stem + seq!['.'] + ext;
    let rel = lead + name;
    lemma_typed_name(stem, ext);
    lemma_stripped(package_root, lead, name);
    lemma_named_dir(objects_dir);
    assert(objects_dir.last() == objects_dir[objects_dir.len() - 1]);
    let whole = objects_dir + seq!['/'] + lead;
    assert(is_lead(whole)) by {
        if lead.len() > 0 {
            assert(whole[whole.len() - 1] == lead[lead.len() - 1]);
        }
    }
    assert(joined(objects_dir, rel) =~= whole + name);
    reveal_strlit("o");
    reveal_strlit("obj");
    let new = match family {
        NativeCompilerFamily::GnuLike => "o"@,
        NativeCompilerFamily::MsvcLike => "obj"@,
    };
    lemma_new_extension(whole, stem, ext, new);
    assert(whole + (stem + seq!['.'] + new) =~= objects_dir + seq!['/'] + (lead + (stem + seq!['.']
        + new)));
}

/// What a compiler writes on the headers of a source stands beside the object, with `.d`
/// behind its name, where the compiler writes it. The objects of an output stand in a
/// directory beside it, with `.native` behind its name.
pub proof fn lemma_names_beside(dir: Text, name: Text)
    requires
        is_named_dir(dir),
        is_plain_name(name),
    ensures
        depfile_of(dir + seq!['/'] + name, NativeCompilerFamily::GnuLike) == Some(
            dir + seq!['/'] + (name + ".d"@),
        ),
        depfile_of(dir + seq!['/'] + name, NativeCompilerFamily::MsvcLike) is None,
        objects_dir_of(dir + seq!['/'] + name) == dir + seq!['/'] + (name + ".native"@),
{
    let lead = dir + seq!['/'];
    assert(lead + name =~= dir + seq!['/'] + name);
    lemma_file_name(lead, name);
    assert(name.contains(name[0]));
    assert((name + ".d"@)[0] == name[0]);
    assert((name + ".native"@)[0] == name[0]);
    lemma_renamed(dir, name, name + ".d"@);
    lemma_renamed(dir, name, name + ".native"@);
}

/// A compile command asks for a file on the headers of the source where there is to be
/// one, and for none where there is not.
pub proof fn lemma_depfile_asked(
    toolchain: ToolchainView,
    args: CompileArgsView,
    language: NativeSourceLanguage,
    source: Text,
    object: Text,
    depfile: Text,
    dirs: Seq<Text>,
)
    requires
        toolchain.family == NativeCompilerFamily::GnuLike,
    ensures
        ({
            let cmd = compile_command(
                toolchain,
                args,
                language,
                source,
                object,
                Some(depfile),
                dirs,
            );
            cmd.args.contains("-MMD"@) && follows(cmd.args, "-MF"@, depfile)
        }),
{
    let cmd = compile_command(toolchain, args, language, source, object, Some(depfile), dirs);
    let asked = depfile_args(Some(depfile));
    let before = args.all() + seq!["-c"@, source, "-o"@, object];
    let after = crate::tools::include_args(dirs, toolchain.family);
    assert(cmd.args == before + asked + after);
    assert(asked[0] == "-MMD"@);
    assert(asked[1] == "-MF"@ && asked[2] == depfile);
    assert(asked.contains("-MMD"@));
    assert(follows(asked, "-MF"@, depfile));
    lemma_within(before, asked, after);
}

/// What links is the C++ compiler where one of the sources is in C++, and else the C
/// compiler.
pub proof fn lemma_linker_program(
    work: WorkView,
    env: EnvVars,
    outputs: BuildScriptOutputs,
    fs: FsView,
)
    requires
        succeeds(work.steps(env, outputs, fs)),
        !work.unit.target.is_staticlib,
    ensures
        ({
            let cpp = exists|i: int|
                0 <= i < work.sources.len() && language_of(#[trigger] work.sources[i]) == Some(
                    NativeSourceLanguage::Cpp,
                );
            last_command(work.steps(env, outputs, fs)).program == if cpp {
                work.toolchain.cxx
            } else {
                work.toolchain.cc
            }
        }),
{
    lemma_steps(work, env, outputs, fs);
}

proof fn lemma_first(before: Text, c: char, after: Text)
    requires
        !before.contains(c),
    ensures
        split_once_at(before + seq![c] + after, c) == Some((before, after)),
{
    let s = before + seq![c] + after;
    lemma_find_from(s, c, 0);
    let e = find_from(s, c, 0);
    if e < before.len() {
        assert(before[e] == c);
        assert(before.contains(c));
    }
    assert(s[before.len() as int] == c);
    assert(e == before.len());
    assert(s.take(e) =~= before);
    assert(s.skip(e + 1) =~= after);
}

proof fn lemma_none(s: Text, c: char)
    requires
        !s.contains(c),
    ensures
        split_once_at(s, c) is None,
{
    lemma_find_from(s, c, 0);
    let e = find_from(s, c, 0);
    if e < s.len() {
        assert(s.contains(s[e]));
    }
}

/// A library is linked by its name alone, without the kind that may stand before it and
/// what may stand behind it.
pub proof fn lemma_library_names(kind: Text, name: Text, rest: Text)
    requires
        !kind.contains('='),
        !name.contains('='),
        !name.contains(':'),
        !rest.contains('='),
    ensures
        library_name(name) == name,
        library_name(kind + seq!['='] + name) == name,
        library_name(name + seq![':'] + rest) == name,
        library_name(kind + seq!['='] + (name + seq![':'] + rest)) == name,
{
    lemma_none(name, '=');
    lemma_none(name, ':');
    lemma_first(kind, '=', name);
    lemma_first(name, ':', rest);
    let long = name + seq![':'] + rest;
    assert(!long.contains('=')) by {
        if long.contains('=') {
            let k = choose|k: int| 0 <= k < long.len() && long[k] == '=';
            if k < name.len() {
                assert(name.contains(name[k]));
            } else if k > name.len() {
                assert(rest.contains(rest[k - name.len() - 1]));
            }
        }
    }
    lemma_none(long, '=');
    lemma_first(kind, '=', long);
}

/// A plan names the files on headers that its compile commands write, one for each
/// source.
pub proof fn lemma_depfiles_told(
    work: WorkView,
    env: EnvVars,
    outputs: BuildScriptOutputs,
    fs: FsView,
    i: int,
)
    requires
        succeeds(work.steps(env, outputs, fs)),
        0 <= i < work.sources.len(),
    ensures
        work.depfiles().len() == work.sources.len(),
        match work.toolchain.family {
            NativeCompilerFamily::GnuLike => work.depfiles()[i] == depfile_of(
                work.objects(built(work))[i],
                NativeCompilerFamily::GnuLike,
            ),
            NativeCompilerFamily::MsvcLike => work.depfiles()[i] is None,
        },
        work.depfiles()[i] matches Some(depfile) ==> (work.compile_step(
            env,
            built(work),
            work.include_dirs(outputs, fs),
            i,
        ) matches StepView::Run(cmd) && follows(cmd.args, "-MF"@, depfile)),
{
    lemma_steps(work, env, outputs, fs);
    lemma_compile_step(work, env, built(work), work.include_dirs(outputs, fs), i);
}

/// Where backslashes separate names, the name of a program is what stands behind the last
/// one or the last slash, whatever drive or directory stands before.
pub proof fn lemma_windows_program(lead: Text, name: Text)
    requires
        lead.len() > 0,
        lead[lead.len() - 1] == '\\' || lead[lead.len() - 1] == '/',
        is_plain_name(name),
        !name.contains('\\'),
    ensures
        program_name(lead + name, PathRule::Windows) == Some(name),
{
    let s = lead + name;
    let slashed = replaced(s, '\\', '/');
    let front = replaced(lead, '\\', '/');
    assert(slashed =~= front + name) by {
        assert forall|i: int| 0 <= i < s.len() implies slashed[i] == (front + name)[i] by {
            if i >= lead.len() {
                assert(name.contains(name[i - lead.len()]));
            }
        }
    }
    assert(front[front.len() - 1] == '/');
    if has_drive(slashed) {
        if lead.len() == 1 {
            assert(slashed[0] == '/');
        }
        if lead.len() == 2 {
            assert(slashed[1] == '/');
        }
        let rest = front.skip(2);
        assert(slashed.skip(2) =~= rest + name);
        assert(rest[rest.len() - 1] == '/');
        lemma_file_name(rest, name);
    } else {
        lemma_file_name(front, name);
    }
}

/// Elsewhere a backslash is a character of a name like others.
pub proof fn lemma_unix_program(lead: Text, name: Text)
    requires
        is_lead(lead),
        is_plain_name(name),
    ensures
        program_name(lead + name, PathRule::Unix) == Some(name),
{
    lemma_file_name(lead, name);
}

} // verus!
