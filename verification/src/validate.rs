//! Checks of targets in a manifest.
use vstd::prelude::*;

use crate::manifest::{tomls_view, Edition, TomlTarget, TomlTargetView};
use crate::path::{file_stem, file_stem_of};
use crate::report::{reported, reported_warnings, Report};
use crate::text::{ascii_lowered, blank_text, chars_of, is_blank, join_list, join_texts, list_holds};
use crate::text::{lowercase_ascii, no_texts, push_text, replace_char, replaced, res_unit};
use crate::text::{same_text, text2, text3, text4, text5, text7, texts, Text};

verus! {

/// The names of devices, which no file can have on Windows.
#[verifier::opaque]
pub open spec fn device_names() -> Seq<Text> {
    seq![
        "con"@,
        "prn"@,
        "aux"@,
        "nul"@,
        "com1"@,
        "com2"@,
        "com3"@,
        "com4"@,
        "com5"@,
        "com6"@,
        "com7"@,
        "com8"@,
        "com9"@,
        "lpt1"@,
        "lpt2"@,
        "lpt3"@,
        "lpt4"@,
        "lpt5"@,
        "lpt6"@,
        "lpt7"@,
        "lpt8"@,
        "lpt9"@,
    ]
}

/// The name is that of a device, in any case.
pub open spec fn is_device_name(name: Text) -> bool {
    device_names().contains(ascii_lowered(name))
}

/// Whether a name is that of a device, which no file can have on Windows.
pub fn is_windows_reserved(name: &str) -> (r: bool)
    ensures
        r == is_device_name(name@),
{
    let names: Vec<String> = vec![
        "con".to_owned(),
        "prn".to_owned(),
        "aux".to_owned(),
        "nul".to_owned(),
        "com1".to_owned(),
        "com2".to_owned(),
        "com3".to_owned(),
        "com4".to_owned(),
        "com5".to_owned(),
        "com6".to_owned(),
        "com7".to_owned(),
        "com8".to_owned(),
        "com9".to_owned(),
        "lpt1".to_owned(),
        "lpt2".to_owned(),
        "lpt3".to_owned(),
        "lpt4".to_owned(),
        "lpt5".to_owned(),
        "lpt6".to_owned(),
        "lpt7".to_owned(),
        "lpt8".to_owned(),
        "lpt9".to_owned(),
    ];
    proof {
        reveal(device_names);
    }
    assert(texts(names@) =~= device_names());
    let lower = lowercase_ascii(name);
    list_holds(&names, lower.as_str())
}

/// The name is that of a directory in which builds are kept.
pub open spec fn is_artifact_dir(name: Text) -> bool {
    name == "deps"@ || name == "examples"@ || name == "build"@ || name == "incremental"@
}

/// Whether a name is that of a directory in which builds are kept.
pub fn is_conflicting_artifact_name(name: &str) -> (r: bool)
    ensures
        r == is_artifact_dir(name@),
{
    same_text(name, "deps") || same_text(name, "examples") || same_text(name, "build") || same_text(
        name,
        "incremental",
    )
}

/// What is reported of the name of a target: it is there, it is not blank, and,
/// where files are kept on Windows, it is better no name of a device.
pub open spec fn name_report(
    target: TomlTargetView,
    human: Text,
    kind: Text,
    on_windows: bool,
) -> Report {
    match target.name {
        None => Report::failed(human + " target "@ + kind + ".name is required"@),
        Some(name) => if is_blank(name) {
            Report::failed(human + " target names cannot be empty"@)
        } else if on_windows && is_device_name(name) {
            Report::warned(
                human + " target `"@ + name
                    + "` is a reserved Windows filename, this target will not work on Windows platforms"@,
            )
        } else {
            Report::clean()
        },
    }
}

/// Checks the name of a target.
pub fn validate_target_name(
    target: &TomlTarget,
    target_kind_human: &str,
    target_kind: &str,
    on_windows: bool,
    warnings: &mut Vec<String>,
) -> (r: Result<(), String>)
    ensures
        reported_warnings(
            r,
            old(warnings)@,
            final(warnings)@,
            name_report(target@, target_kind_human@, target_kind@, on_windows),
        ),
{
    let ghost start = texts(warnings@);
    assert(start + Seq::<Text>::empty() =~= start);
    match &target.name {
        None => Err(text4(target_kind_human, " target ", target_kind, ".name is required")),
        Some(name) => {
            if blank_text(name.as_str()) {
                return Err(text2(target_kind_human, " target names cannot be empty"));
            }
            if on_windows && is_windows_reserved(name.as_str()) {
                push_text(
                    warnings,
                    text4(
                        target_kind_human,
                        " target `",
                        name.as_str(),
                        "` is a reserved Windows filename, this target will not work on Windows platforms",
                    ),
                );
                assert(texts(warnings@) =~= start + seq![texts(warnings@).last()]);
            }
            Ok(())
        },
    }
}

/// What is reported of the name of a library: besides, it has no hyphen.
pub open spec fn lib_name_report(target: TomlTargetView, on_windows: bool) -> Report {
    name_report(target, "library"@, "lib"@, on_windows).and(
        if target.name_text().contains('-') {
            Report::failed(
                "library target names cannot contain hyphens: "@ + target.name_text(),
            )
        } else {
            Report::clean()
        },
    )
}

fn has_hyphen(s: &str) -> (r: bool)
    ensures
        r == s@.contains('-'),
{
    let chars = chars_of(s);
    let mut i: usize = 0;
    while i < chars.len()
        invariant
            i <= chars@.len(),
            chars@ == s@,
            forall|k: int| 0 <= k < i ==> s@[k] != '-',
        decreases chars@.len() - i,
    {
        if chars[i] == '-' {
            assert(s@[i as int] == '-');
            return true;
        }
        i = i + 1;
    }
    false
}

/// Checks the name of a library.
pub fn validate_lib_name(target: &TomlTarget, on_windows: bool, warnings: &mut Vec<String>) -> (r:
    Result<(), String>)
    ensures
        reported_warnings(
            r,
            old(warnings)@,
            final(warnings)@,
            lib_name_report(target@, on_windows),
        ),
{
    match validate_target_name(target, "library", "lib", on_windows, warnings) {
        Ok(_) => {},
        Err(e) => {
            return Err(e);
        },
    }
    if has_hyphen(target.name_str()) {
        return Err(text2("library target names cannot contain hyphens: ", target.name_str()));
    }
    Ok(())
}

/// What is reported of the name of a binary: besides, it is not that of a directory
/// in which builds are kept.
pub open spec fn bin_name_report(target: TomlTargetView, on_windows: bool) -> Report {
    name_report(target, "binary"@, "bin"@, on_windows).and(
        if is_artifact_dir(target.name_text()) {
            Report::failed(
                "the binary target name `"@ + target.name_text()
                    + "` is forbidden, it conflicts with cargo's build directory names"@,
            )
        } else {
            Report::clean()
        },
    )
}

/// Checks the name of a binary.
pub fn validate_bin_name(target: &TomlTarget, on_windows: bool, warnings: &mut Vec<String>) -> (r:
    Result<(), String>)
    ensures
        reported_warnings(
            r,
            old(warnings)@,
            final(warnings)@,
            bin_name_report(target@, on_windows),
        ),
{
    match validate_target_name(target, "binary", "bin", on_windows, warnings) {
        Ok(_) => {},
        Err(e) => {
            return Err(e);
        },
    }
    if is_conflicting_artifact_name(target.name_str()) {
        return Err(
            text3(
                "the binary target name `",
                target.name_str(),
                "` is forbidden, it conflicts with cargo's build directory names",
            ),
        );
    }
    Ok(())
}

/// What is reported of a key that is written with an underscore in the place of a
/// hyphen: from the 2024 edition on it is refused, before that it is warned of.
pub open spec fn underscore_report(
    old_set: bool,
    new_set: bool,
    key: Text,
    name: Text,
    kind: Text,
    edition: Edition,
) -> Report {
    let old_key = replaced(key, '-', '_');
    if !old_set {
        Report::clean()
    } else if edition.is_2024_or_later() {
        Report::failed(
            "`"@ + old_key + "` is unsupported as of the 2024 edition; instead use `"@ + key
                + "`\n(in the `"@ + name + "` "@ + kind + ")"@,
        )
    } else if new_set {
        Report::warned(
            "`"@ + old_key + "` is redundant with `"@ + key + "`, preferring `"@ + key
                + "` in the `"@ + name + "` "@ + kind,
        )
    } else {
        Report::warned(
            "`"@ + old_key + "` is deprecated in favor of `"@ + key
                + "` and will not work in the 2024 edition\n(in the `"@ + name + "` "@ + kind
                + ")"@,
        )
    }
}

/// Checks a key that is written with an underscore in the place of a hyphen.
pub fn deprecated_underscore(
    old_set: bool,
    new_set: bool,
    key: &str,
    name: &str,
    kind: &str,
    edition: Edition,
    warnings: &mut Vec<String>,
) -> (r: Result<(), String>)
    ensures
        reported_warnings(
            r,
            old(warnings)@,
            final(warnings)@,
            underscore_report(old_set, new_set, key@, name@, kind@, edition),
        ),
{
    let ghost start = texts(warnings@);
    assert(start + Seq::<Text>::empty() =~= start);
    if !old_set {
        return Ok(());
    }
    let old_key = replace_char(key, '-', '_');
    if edition.since_2024() {
        let mut message = text7(
            "`",
            old_key.as_str(),
            "` is unsupported as of the 2024 edition; instead use `",
            key,
            "`\n(in the `",
            name,
            "` ",
        );
        message.append(kind);
        message.append(")");
        return Err(message);
    }
    if new_set {
        let mut message = text7(
            "`",
            old_key.as_str(),
            "` is redundant with `",
            key,
            "`, preferring `",
            key,
            "` in the `",
        );
        message.append(name);
        message.append("` ");
        message.append(kind);
        push_text(warnings, message);
    } else {
        let mut message = text7(
            "`",
            old_key.as_str(),
            "` is deprecated in favor of `",
            key,
            "` and will not work in the 2024 edition\n(in the `",
            name,
            "` ",
        );
        message.append(kind);
        message.append(")");
        push_text(warnings, message);
    }
    assert(texts(warnings@) =~= start + seq![texts(warnings@).last()]);
    Ok(())
}

/// What is reported of the spelling of `proc-macro`.
pub open spec fn proc_macro_report(target: TomlTargetView, kind: Text, edition: Edition) -> Report {
    underscore_report(
        target.proc_macro2 is Some,
        target.proc_macro is Some,
        "proc-macro"@,
        target.name_text(),
        kind + " target"@,
        edition,
    )
}

/// What is reported of the spelling of `crate-type`.
pub open spec fn crate_types_report(
    target: TomlTargetView,
    kind: Text,
    edition: Edition,
) -> Report {
    underscore_report(
        target.crate_type2 is Some,
        target.crate_type is Some,
        "crate-type"@,
        target.name_text(),
        kind + " target"@,
        edition,
    )
}

/// Checks the spelling of `proc-macro`.
pub fn validate_proc_macro(
    target: &TomlTarget,
    kind: &str,
    edition: Edition,
    warnings: &mut Vec<String>,
) -> (r: Result<(), String>)
    requires
        target@.name is Some,
    ensures
        reported_warnings(
            r,
            old(warnings)@,
            final(warnings)@,
            proc_macro_report(target@, kind@, edition),
        ),
{
    let kind = text2(kind, " target");
    deprecated_underscore(
        target.proc_macro2.is_some(),
        target.proc_macro.is_some(),
        "proc-macro",
        target.name_str(),
        kind.as_str(),
        edition,
        warnings,
    )
}

/// Checks the spelling of `crate-type`.
pub fn validate_crate_types(
    target: &TomlTarget,
    kind: &str,
    edition: Edition,
    warnings: &mut Vec<String>,
) -> (r: Result<(), String>)
    requires
        target@.name is Some,
    ensures
        reported_warnings(
            r,
            old(warnings)@,
            final(warnings)@,
            crate_types_report(target@, kind@, edition),
        ),
{
    let kind = text2(kind, " target");
    deprecated_underscore(
        target.crate_type2.is_some(),
        target.crate_type.is_some(),
        "crate-type",
        target.name_str(),
        kind.as_str(),
        edition,
        warnings,
    )
}

/// What is reported of procedural macros in a binary: there are none.
pub open spec fn bin_proc_macro_report(target: TomlTargetView, edition: Edition) -> Report {
    if target.is_proc_macro() == Some(true) {
        Report::erred(
            "the target `"@ + target.name_text()
                + "` is a binary and can't have `proc-macro` set `true`"@,
        )
    } else {
        proc_macro_report(target, "binary"@, edition)
    }
}

/// Checks that a binary holds no procedural macros.
pub fn validate_bin_proc_macro(
    target: &TomlTarget,
    edition: Edition,
    warnings: &mut Vec<String>,
    errors: &mut Vec<String>,
) -> (r: Result<(), String>)
    requires
        target@.name is Some,
    ensures
        reported(
            r,
            old(warnings)@,
            final(warnings)@,
            old(errors)@,
            final(errors)@,
            bin_proc_macro_report(target@, edition),
        ),
{
    let ghost start = texts(errors@);
    let ghost w = texts(warnings@);
    assert(start + Seq::<Text>::empty() =~= start);
    assert(w + Seq::<Text>::empty() =~= w);
    if target.proc_macro() == Some(true) {
        push_text(
            errors,
            text3(
                "the target `",
                target.name_str(),
                "` is a binary and can't have `proc-macro` set `true`",
            ),
        );
        assert(texts(errors@) =~= start + seq![texts(errors@).last()]);
        Ok(())
    } else {
        let r = validate_proc_macro(target, "binary", edition, warnings);
        assert(start + bin_proc_macro_report(target@, edition).errors =~= start);
        r
    }
}

/// What is reported of the kinds of crates of a binary: there are none.
pub open spec fn bin_crate_types_report(target: TomlTargetView, edition: Edition) -> Report {
    match target.crate_types() {
        None => Report::clean(),
        Some(types) => if types.len() > 0 {
            Report::erred(
                "the target `"@ + target.name_text()
                    + "` is a binary and can't have any crate-types set (currently \""@
                    + join_texts(types, ", "@) + "\")"@,
            )
        } else {
            crate_types_report(target, "binary"@, edition)
        },
    }
}

/// Checks that a binary has no kinds of crates.
pub fn validate_bin_crate_types(
    target: &TomlTarget,
    edition: Edition,
    warnings: &mut Vec<String>,
    errors: &mut Vec<String>,
) -> (r: Result<(), String>)
    requires
        target@.name is Some,
    ensures
        reported(
            r,
            old(warnings)@,
            final(warnings)@,
            old(errors)@,
            final(errors)@,
            bin_crate_types_report(target@, edition),
        ),
{
    let ghost start = texts(errors@);
    let ghost w = texts(warnings@);
    assert(start + Seq::<Text>::empty() =~= start);
    assert(w + Seq::<Text>::empty() =~= w);
    match target.crate_types() {
        None => Ok(()),
        Some(types) => {
            assert(texts(types@).len() == types@.len());
            if types.len() > 0 {
                let list = join_list(types, ", ");
                push_text(
                    errors,
                    text5(
                        "the target `",
                        target.name_str(),
                        "` is a binary and can't have any crate-types set (currently \"",
                        list.as_str(),
                        "\")",
                    ),
                );
                assert(texts(errors@) =~= start + seq![texts(errors@).last()]);
                Ok(())
            } else {
                let r = validate_crate_types(target, "binary", edition, warnings);
                assert(start + bin_crate_types_report(target@, edition).errors =~= start);
                r
            }
        },
    }
}

/// The names of targets.
pub open spec fn names_of(targets: Seq<TomlTargetView>) -> Seq<Text> {
    targets.map_values(|t: TomlTargetView| t.name_text())
}

/// The first text of a list that stands before it already.
pub open spec fn first_repeat(names: Seq<Text>) -> Option<Text>
    decreases names.len(),
{
    if names.len() == 0 {
        None
    } else {
        match first_repeat(names.drop_last()) {
            Some(name) => Some(name),
            None => if names.drop_last().contains(names.last()) {
                Some(names.last())
            } else {
                None
            },
        }
    }
}

/// Where two targets have one name.
pub open spec fn duplicate_message(kind: Text, name: Text) -> Text {
    "found duplicate "@ + kind + " name "@ + name + ", but all "@ + kind
        + " targets must have a unique name"@
}

/// What comes of checking that names are unique.
pub open spec fn unique_names(targets: Seq<TomlTargetView>, kind: Text) -> Result<(), Text> {
    match first_repeat(names_of(targets)) {
        Some(name) => Err(duplicate_message(kind, name)),
        None => Ok(()),
    }
}

proof fn lemma_repeat_found(names: Seq<Text>, k: int)
    requires
        0 <= k <= names.len(),
        first_repeat(names.take(k)) is Some,
    ensures
        first_repeat(names) == first_repeat(names.take(k)),
    decreases names.len() - k,
{
    if k == names.len() {
        assert(names.take(k) =~= names);
    } else {
        assert(names.take(k + 1).drop_last() =~= names.take(k));
        lemma_repeat_found(names, k + 1);
    }
}

/// Checks that the names of targets are unique.
pub fn validate_unique_names(targets: &Vec<TomlTarget>, target_kind: &str) -> (r: Result<
    (),
    String,
>)
    requires
        forall|i: int| 0 <= i < targets@.len() ==> (#[trigger] targets@[i])@.name is Some,
    ensures
        res_unit(r) == unique_names(tomls_view(targets@), target_kind@),
{
    let ghost names = names_of(tomls_view(targets@));
    let mut seen: Vec<String> = no_texts();
    let mut i: usize = 0;
    assert(names.take(0) =~= Seq::empty());
    while i < targets.len()
        invariant
            i <= targets@.len(),
            names == names_of(tomls_view(targets@)),
            texts(seen@) == names.take(i as int),
            first_repeat(names.take(i as int)) is None,
        decreases targets@.len() - i,
    {
        let name = targets[i].name_str();
        assert(names[i as int] == targets@[i as int]@.name_text());
        assert(names.take(i + 1).drop_last() =~= names.take(i as int));
        if list_holds(&seen, name) {
            proof {
                lemma_repeat_found(names, i + 1);
            }
            let mut message = text5(
                "found duplicate ",
                target_kind,
                " name ",
                name,
                ", but all ",
            );
            message.append(target_kind);
            message.append(" targets must have a unique name");
            return Err(message);
        }
        push_text(&mut seen, name.to_owned());
        assert(texts(seen@) =~= names.take(i + 1));
        i = i + 1;
    }
    assert(names.take(i as int) =~= names);
    Ok(())
}

/// Names pass exactly where none comes twice.
pub proof fn lemma_unique_names(names: Seq<Text>)
    ensures
        first_repeat(names) is None <==> names.no_duplicates(),
    decreases names.len(),
{
    if names.len() > 0 {
        let front = names.drop_last();
        lemma_unique_names(front);
        if first_repeat(names) is None {
            assert forall|i: int, j: int|
                0 <= i < names.len() && 0 <= j < names.len() && i != j implies names[i]
                != names[j] by {
                if i < front.len() && j < front.len() {
                    assert(front[i] == names[i] && front[j] == names[j]);
                } else if i < front.len() {
                    assert(front.contains(front[i]));
                } else {
                    assert(front.contains(front[j]));
                }
            }
        }
        if names.no_duplicates() {
            assert forall|i: int, j: int|
                0 <= i < front.len() && 0 <= j < front.len() && i != j implies front[i]
                != front[j] by {
                assert(front[i] == names[i] && front[j] == names[j]);
            }
            if front.contains(names.last()) {
                let i = choose|i: int| 0 <= i < front.len() && front[i] == names.last();
                assert(names[i] == names[names.len() - 1]);
            }
        }
    }
}

/// The file stem of a script; the empty text without one.
pub open spec fn script_stem(script: Text) -> Text {
    match file_stem(script) {
        Some(stem) => stem,
        None => Seq::empty(),
    }
}

/// The file stems of scripts.
pub open spec fn script_stems(scripts: Seq<Text>) -> Seq<Text> {
    scripts.map_values(|s: Text| script_stem(s))
}

/// The scripts that have the file stem.
pub open spec fn scripts_with(scripts: Seq<Text>, stem: Text) -> Seq<Text>
    decreases scripts.len(),
{
    if scripts.len() == 0 {
        Seq::empty()
    } else {
        let rest = scripts_with(scripts.drop_last(), stem);
        if script_stem(scripts.last()) == stem {
            rest.push(scripts.last())
        } else {
            rest
        }
    }
}

/// What is said of the first `n` scripts: a line for each file stem that several
/// scripts have, where it comes first.
pub open spec fn clash_lines(scripts: Seq<Text>, n: nat) -> Text
    decreases n,
{
    if n == 0 {
        Seq::empty()
    } else {
        let rest = clash_lines(scripts, (n - 1) as nat);
        let stem = script_stem(scripts[n - 1]);
        let group = scripts_with(scripts, stem);
        if group.len() > 1 && !script_stems(scripts).take(n - 1).contains(stem) {
            rest + "\n  for stem `"@ + stem + "`: "@ + join_texts(group, ", "@)
        } else {
            rest
        }
    }
}

/// What comes of checking that the file stems of build scripts are unique.
pub open spec fn unique_scripts(scripts: Seq<Text>) -> Result<(), Text> {
    let lines = clash_lines(scripts, scripts.len());
    if lines.len() > 0 {
        Err(
            "found build scripts with duplicate file stems, but all build scripts must have a unique file stem"@
                + lines,
        )
    } else {
        Ok(())
    }
}

fn collect_with_stem(scripts: &Vec<String>, stems: &Vec<String>, stem: &str) -> (r: Vec<String>)
    requires
        texts(stems@) == script_stems(texts(scripts@)),
    ensures
        texts(r@) == scripts_with(texts(scripts@), stem@),
{
    let ghost all = texts(scripts@);
    assert(texts(stems@).len() == stems@.len());
    let mut r: Vec<String> = no_texts();
    let mut i: usize = 0;
    assert(all.take(0) =~= Seq::empty());
    while i < scripts.len()
        invariant
            i <= scripts@.len(),
            scripts@.len() == stems@.len(),
            all == texts(scripts@),
            texts(stems@) == script_stems(all),
            texts(r@) == scripts_with(all.take(i as int), stem@),
        decreases scripts@.len() - i,
    {
        assert(all.take(i + 1).drop_last() =~= all.take(i as int));
        assert(texts(stems@)[i as int] == stems@[i as int]@);
        if same_text(stems[i].as_str(), stem) {
            push_text(&mut r, scripts[i].clone());
        }
        i = i + 1;
    }
    assert(all.take(i as int) =~= all);
    r
}

/// Checks that the file stems of build scripts are unique.
pub fn validate_unique_build_scripts(scripts: &Vec<String>) -> (r: Result<(), String>)
    requires
        forall|i: int| 0 <= i < scripts@.len() ==> file_stem((#[trigger] scripts@[i])@) is Some,
    ensures
        res_unit(r) == unique_scripts(texts(scripts@)),
{
    let ghost all = texts(scripts@);
    let ghost want = script_stems(all);
    let mut stems: Vec<String> = no_texts();
    let mut i: usize = 0;
    assert(want.take(0) =~= Seq::empty());
    while i < scripts.len()
        invariant
            i <= scripts@.len(),
            all == texts(scripts@),
            want == script_stems(all),
            texts(stems@) == want.take(i as int),
        decreases scripts@.len() - i,
    {
        let stem = match file_stem_of(scripts[i].as_str()) {
            Some(stem) => stem,
            None => String::new(),
        };
        assert(stem@ =~= want[i as int]);
        push_text(&mut stems, stem);
        assert(texts(stems@) =~= want.take(i + 1));
        i = i + 1;
    }
    assert(want.take(i as int) =~= want);
    let mut lines: String = String::new();
    let mut seen: Vec<String> = no_texts();
    let mut i: usize = 0;
    while i < scripts.len()
        invariant
            i <= scripts@.len(),
            scripts@.len() == stems@.len(),
            all == texts(scripts@),
            want == script_stems(all),
            texts(stems@) == want,
            texts(seen@) == want.take(i as int),
            lines@ == clash_lines(all, i as nat),
        decreases scripts@.len() - i,
    {
        assert(want[i as int] == stems@[i as int]@);
        assert(want[i as int] == script_stem(all[i as int]));
        let group = collect_with_stem(scripts, &stems, stems[i].as_str());
        assert(texts(group@).len() == group@.len());
        if group.len() > 1 && !list_holds(&seen, stems[i].as_str()) {
            lines.append("\n  for stem `");
            lines.append(stems[i].as_str());
            lines.append("`: ");
            let list = join_list(&group, ", ");
            lines.append(list.as_str());
        }
        push_text(&mut seen, stems[i].clone());
        assert(texts(seen@) =~= want.take(i + 1));
        i = i + 1;
    }
    assert(all.len() == scripts@.len());
    if !lines.as_str().is_empty() {
        return Err(
            text2(
                "found build scripts with duplicate file stems, but all build scripts must have a unique file stem",
                lines.as_str(),
            ),
        );
    }
    Ok(())
}

proof fn lemma_clash_lines(scripts: Seq<Text>, n: nat)
    requires
        n <= scripts.len(),
    ensures
        clash_lines(scripts, n).len() > 0 <==> exists|i: int|
            0 <= i < n && scripts_with(scripts, script_stem(#[trigger] scripts[i])).len() > 1,
    decreases n,
{
    if n > 0 {
        lemma_clash_lines(scripts, (n - 1) as nat);
        let stem = script_stem(scripts[n - 1]);
        let group = scripts_with(scripts, stem);
        reveal_strlit("\n  for stem `");
        if group.len() > 1 {
            if script_stems(scripts).take(n - 1).contains(stem) {
                let front = script_stems(scripts).take(n - 1);
                let i = choose|i: int| 0 <= i < front.len() && front[i] == stem;
                assert(script_stems(scripts)[i] == script_stem(scripts[i]));
                assert(scripts_with(scripts, script_stem(scripts[i])).len() > 1);
            }
        }
    }
}

/// Build scripts are refused exactly where several of them have one file stem.
pub proof fn lemma_unique_scripts(scripts: Seq<Text>)
    ensures
        unique_scripts(scripts) is Err <==> exists|i: int|
            0 <= i < scripts.len() && scripts_with(
                scripts,
                script_stem(#[trigger] scripts[i]),
            ).len() > 1,
{
    lemma_clash_lines(scripts, scripts.len());
}

} // verus!
