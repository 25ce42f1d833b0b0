//! Which targets of a manifest are refused, and which are warned about.
use vstd::prelude::*;

use crate::manifest::{Edition, TomlTargetView};
use crate::path::file_stem;
use crate::report::Report;
use crate::text::{ascii_lowered, is_space, Text};
use crate::validate::{bin_crate_types_report, bin_name_report, bin_proc_macro_report};
use crate::validate::{crate_types_report, device_names};
use crate::validate::{is_device_name, lemma_unique_names, lemma_unique_scripts, lib_name_report};
use crate::validate::{name_report, names_of, proc_macro_report, script_stem, scripts_with};
use crate::validate::{unique_names, unique_scripts};

verus! {

/// There is a name that is more than white space.
pub open spec fn has_name(target: TomlTargetView) -> bool {
    target.name matches Some(name) && exists|i: int| 0 <= i < name.len() && !is_space(
        #[trigger] name[i],
    )
}

/// The report says nothing.
pub open spec fn is_silent(report: Report) -> bool {
    report.failure is None && report.warnings.len() == 0 && report.errors.len() == 0
}

/// A name for a device: one of four, or one of two with a digit from one to nine behind
/// it; case does not count.
pub open spec fn names_device(name: Text) -> bool {
    let low = ascii_lowered(name);
    ||| low == "con"@ || low == "prn"@ || low == "aux"@ || low == "nul"@
    ||| exists|d: char|
        '1' <= d <= '9' && (#[trigger] seq!['c', 'o', 'm', d] == low || seq!['l', 'p', 't', d]
            == low)
}

proof fn lemma_listed_devices()
    ensures
        device_names().len() == 22,
        device_names()[0] == "con"@,
        device_names()[1] == "prn"@,
        device_names()[2] == "aux"@,
        device_names()[3] == "nul"@,
        device_names()[4] == seq!['c', 'o', 'm', '1'],
        device_names()[5] == seq!['c', 'o', 'm', '2'],
        device_names()[6] == seq!['c', 'o', 'm', '3'],
        device_names()[7] == seq!['c', 'o', 'm', '4'],
        device_names()[8] == seq!['c', 'o', 'm', '5'],
        device_names()[9] == seq!['c', 'o', 'm', '6'],
        device_names()[10] == seq!['c', 'o', 'm', '7'],
        device_names()[11] == seq!['c', 'o', 'm', '8'],
        device_names()[12] == seq!['c', 'o', 'm', '9'],
        device_names()[13] == seq!['l', 'p', 't', '1'],
        device_names()[14] == seq!['l', 'p', 't', '2'],
        device_names()[15] == seq!['l', 'p', 't', '3'],
        device_names()[16] == seq!['l', 'p', 't', '4'],
        device_names()[17] == seq!['l', 'p', 't', '5'],
        device_names()[18] == seq!['l', 'p', 't', '6'],
        device_names()[19] == seq!['l', 'p', 't', '7'],
        device_names()[20] == seq!['l', 'p', 't', '8'],
        device_names()[21] == seq!['l', 'p', 't', '9'],
{
    reveal(device_names);
    let all = device_names();
    reveal_strlit("com1");
    reveal_strlit("com2");
    reveal_strlit("com3");
    reveal_strlit("com4");
    reveal_strlit("com5");
    reveal_strlit("com6");
    reveal_strlit("com7");
    reveal_strlit("com8");
    reveal_strlit("com9");
    reveal_strlit("lpt1");
    reveal_strlit("lpt2");
    reveal_strlit("lpt3");
    reveal_strlit("lpt4");
    reveal_strlit("lpt5");
    reveal_strlit("lpt6");
    reveal_strlit("lpt7");
    reveal_strlit("lpt8");
    reveal_strlit("lpt9");
    assert(all[4] =~= seq!['c', 'o', 'm', '1']);
    assert(all[5] =~= seq!['c', 'o', 'm', '2']);
    assert(all[6] =~= seq!['c', 'o', 'm', '3']);
    assert(all[7] =~= seq!['c', 'o', 'm', '4']);
    assert(all[8] =~= seq!['c', 'o', 'm', '5']);
    assert(all[9] =~= seq!['c', 'o', 'm', '6']);
    assert(all[10] =~= seq!['c', 'o', 'm', '7']);
    assert(all[11] =~= seq!['c', 'o', 'm', '8']);
    assert(all[12] =~= seq!['c', 'o', 'm', '9']);
    assert(all[13] =~= seq!['l', 'p', 't', '1']);
    assert(all[14] =~= seq!['l', 'p', 't', '2']);
    assert(all[15] =~= seq!['l', 'p', 't', '3']);
    assert(all[16] =~= seq!['l', 'p', 't', '4']);
    assert(all[17] =~= seq!['l', 'p', 't', '5']);
    assert(all[18] =~= seq!['l', 'p', 't', '6']);
    assert(all[19] =~= seq!['l', 'p', 't', '7']);
    assert(all[20] =~= seq!['l', 'p', 't', '8']);
    assert(all[21] =~= seq!['l', 'p', 't', '9']);
}

proof fn lemma_digits(d: char)
    requires
        '1' <= d <= '9',
    ensures
        d == '1' || d == '2' || d == '3' || d == '4' || d == '5' || d == '6' || d == '7' || d
            == '8' || d == '9',
{
}

/// The names for devices are those that Windows keeps.
pub proof fn lemma_device_names(name: Text)
    ensures
        is_device_name(name) <==> names_device(name),
{
    let low = ascii_lowered(name);
    let all = device_names();
    lemma_listed_devices();
    if is_device_name(name) {
        let k = choose|k: int| 0 <= k < all.len() && all[k] == low;
        if 4 <= k <= 12 {
            assert(seq!['c', 'o', 'm', all[k][3]] == low);
        } else if 13 <= k {
            assert(seq!['l', 'p', 't', all[k][3]] == low);
            let d = all[k][3];
            assert('1' <= d <= '9');
            assert(seq!['c', 'o', 'm', d] == low || seq!['l', 'p', 't', d] == low);
        }
    }
    if names_device(name) {
        if low == "con"@ {
            assert(all[0] == low);
        } else if low == "prn"@ {
            assert(all[1] == low);
        } else if low == "aux"@ {
            assert(all[2] == low);
        } else if low == "nul"@ {
            assert(all[3] == low);
        } else {
            let d = choose|d: char|
                '1' <= d <= '9' && (#[trigger] seq!['c', 'o', 'm', d] == low || seq![
                    'l',
                    'p',
                    't',
                    d,
                ] == low);
            lemma_digits(d);
            let n = d as int - '0' as int;
            if seq!['c', 'o', 'm', d] == low {
                assert(all[3 + n] == low);
            } else {
                assert(all[12 + n] == low);
            }
        }
    }
}

/// A target without a name is refused; one with the name of a device is warned about on
/// Windows, and nothing is said of any other.
pub proof fn lemma_names_refused(
    target: TomlTargetView,
    human: Text,
    kind: Text,
    on_windows: bool,
)
    ensures
        ({
            let report = name_report(target, human, kind, on_windows);
            &&& report.failure is None <==> has_name(target)
            &&& report.errors.len() == 0
            &&& report.warnings.len() == if has_name(target) && on_windows && is_device_name(
                target.name->0,
            ) {
                1nat
            } else {
                0
            }
        }),
{
    if let Some(name) = target.name {
        if crate::text::is_blank(name) {
        } else {
            let i = choose|i: int| 0 <= i < name.len() && !is_space(#[trigger] name[i]);
            assert(has_name(target));
        }
    }
}

/// A library is refused without a name, and with a hyphen in it.
pub proof fn lemma_lib_names_refused(target: TomlTargetView, on_windows: bool)
    ensures
        ({
            let report = lib_name_report(target, on_windows);
            &&& report.failure is None <==> has_name(target) && !target.name->0.contains('-')
            &&& report.errors.len() == 0
        }),
{
    lemma_names_refused(target, "library"@, "lib"@, on_windows);
}

/// A binary is refused without a name, and with that of a directory that builds use.
pub proof fn lemma_bin_names_refused(target: TomlTargetView, on_windows: bool)
    ensures
        ({
            let report = bin_name_report(target, on_windows);
            &&& report.failure is None <==> has_name(target) && target.name->0 != "deps"@
                && target.name->0 != "examples"@ && target.name->0 != "build"@ && target.name->0
                != "incremental"@
            &&& report.errors.len() == 0
        }),
{
    lemma_names_refused(target, "binary"@, "bin"@, on_windows);
}

/// What comes of a key that is set under its deprecated spelling: it is refused from the
/// edition of 2024 on, and warned about before. Where it is not set, nothing is said.
pub open spec fn judges_old_key(report: Report, is_set: bool, edition: Edition) -> bool {
    &&& report.failure is Some <==> is_set && (edition == Edition::Edition2024 || edition
        == Edition::EditionFuture)
    &&& report.warnings.len() == if is_set && report.failure is None {
        1nat
    } else {
        0
    }
    &&& report.errors.len() == 0
}

/// Deprecated spellings of `proc-macro` and `crate-type` are judged by the edition.
pub proof fn lemma_old_keys(target: TomlTargetView, kind: Text, edition: Edition)
    ensures
        judges_old_key(
            proc_macro_report(target, kind, edition),
            target.proc_macro2 is Some,
            edition,
        ),
        judges_old_key(
            crate_types_report(target, kind, edition),
            target.crate_type2 is Some,
            edition,
        ),
{
}

/// A binary cannot hold procedural macros: it is an error where it is set to, under
/// either spelling, or where nothing is set and that is one of its kinds.
pub proof fn lemma_bin_proc_macros(target: TomlTargetView, edition: Edition)
    ensures
        ({
            let kinds = if target.crate_type is Some {
                target.crate_type
            } else {
                target.crate_type2
            };
            let is_one = match (target.proc_macro, target.proc_macro2) {
                (Some(on), _) => on,
                (None, Some(on)) => on,
                (None, None) => kinds matches Some(kinds) && kinds.contains("proc-macro"@),
            };
            let report = bin_proc_macro_report(target, edition);
            &&& report.errors.len() == if is_one {
                1nat
            } else {
                0
            }
            &&& is_one ==> report.failure is None && report.warnings.len() == 0
            &&& !is_one ==> judges_old_key(report, target.proc_macro2 is Some, edition)
        }),
{
}

/// A binary cannot have kinds of crates: it is an error where it has any.
pub proof fn lemma_bin_crate_types(target: TomlTargetView, edition: Edition)
    ensures
        ({
            let kinds = if target.crate_type is Some {
                target.crate_type
            } else {
                target.crate_type2
            };
            let has_any = kinds matches Some(kinds) && kinds.len() > 0;
            let report = bin_crate_types_report(target, edition);
            &&& report.errors.len() == if has_any {
                1nat
            } else {
                0
            }
            &&& has_any ==> report.failure is None && report.warnings.len() == 0
            &&& !has_any ==> judges_old_key(report, target.crate_type2 is Some, edition)
        }),
{
}

/// Of what is reported one after the other, the first refusal counts; without one, all
/// warnings and errors do.
pub proof fn lemma_reports(a: Report, b: Report)
    ensures
        a.failure is Some ==> a.and(b).failure == a.failure,
        a.failure is None ==> {
            &&& a.and(b).failure == b.failure
            &&& a.and(b).warnings == a.warnings + b.warnings
            &&& a.and(b).errors == a.errors + b.errors
        },
{
}

/// Targets of a kind are refused exactly where two of them have one name.
pub proof fn lemma_duplicates_refused(targets: Seq<TomlTargetView>, kind: Text)
    ensures
        unique_names(targets, kind) is Err <==> exists|i: int, j: int|
            0 <= i < j < targets.len() && (#[trigger] targets[i]).name_text() == (
            #[trigger] targets[j]).name_text(),
{
    let names = names_of(targets);
    lemma_unique_names(names);
    assert(names.len() == targets.len());
    if unique_names(targets, kind) is Err {
        let (i, j) = choose|i: int, j: int|
            0 <= i < names.len() && 0 <= j < names.len() && i != j && names[i] == names[j];
        assert(names[i] == targets[i].name_text() && names[j] == targets[j].name_text());
        if i < j {
            assert(targets[i].name_text() == targets[j].name_text());
        } else {
            assert(targets[j].name_text() == targets[i].name_text());
        }
    }
    if exists|i: int, j: int|
        0 <= i < j < targets.len() && (#[trigger] targets[i]).name_text() == (
        #[trigger] targets[j]).name_text() {
        let (i, j) = choose|i: int, j: int|
            0 <= i < j < targets.len() && (#[trigger] targets[i]).name_text() == (
            #[trigger] targets[j]).name_text();
        assert(names[i] == names[j]);
    }
}

proof fn lemma_none_with(scripts: Seq<Text>, stem: Text)
    ensures
        scripts_with(scripts, stem).len() == 0 <==> forall|i: int|
            0 <= i < scripts.len() ==> script_stem(#[trigger] scripts[i]) != stem,
    decreases scripts.len(),
{
    if scripts.len() > 0 {
        let front = scripts.drop_last();
        lemma_none_with(front, stem);
        assert(scripts.last() == scripts[scripts.len() - 1]);
        if scripts_with(scripts, stem).len() == 0 {
            assert forall|i: int| 0 <= i < scripts.len() implies script_stem(
                #[trigger] scripts[i],
            ) != stem by {
                if i < front.len() {
                    assert(front[i] == scripts[i]);
                }
            }
        } else if scripts_with(front, stem).len() > 0 {
            let i = choose|i: int|
                0 <= i < front.len() && script_stem(#[trigger] front[i]) == stem;
            assert(scripts[i] == front[i]);
        }
    }
}

proof fn lemma_several_with(scripts: Seq<Text>, stem: Text)
    ensures
        scripts_with(scripts, stem).len() > 1 <==> exists|i: int, j: int|
            0 <= i < j < scripts.len() && script_stem(#[trigger] scripts[i]) == stem && script_stem(
                #[trigger] scripts[j],
            ) == stem,
    decreases scripts.len(),
{
    if scripts.len() > 0 {
        let front = scripts.drop_last();
        let n = scripts.len() - 1;
        lemma_several_with(front, stem);
        lemma_none_with(front, stem);
        assert(scripts.last() == scripts[n]);
        if scripts_with(scripts, stem).len() > 1 {
            if scripts_with(front, stem).len() > 1 {
                let (i, j) = choose|i: int, j: int|
                    0 <= i < j < front.len() && script_stem(#[trigger] front[i]) == stem
                        && script_stem(#[trigger] front[j]) == stem;
                assert(scripts[i] == front[i] && scripts[j] == front[j]);
            } else {
                let i = choose|i: int|
                    0 <= i < front.len() && script_stem(#[trigger] front[i]) == stem;
                assert(scripts[i] == front[i]);
                assert(script_stem(scripts[n]) == stem);
            }
        }
        if exists|i: int, j: int|
            0 <= i < j < scripts.len() && script_stem(#[trigger] scripts[i]) == stem && script_stem(
                #[trigger] scripts[j],
            ) == stem {
            let (i, j) = choose|i: int, j: int|
                0 <= i < j < scripts.len() && script_stem(#[trigger] scripts[i]) == stem
                    && script_stem(#[trigger] scripts[j]) == stem;
            assert(front[i] == scripts[i]);
            if j < n {
                assert(front[j] == scripts[j]);
            }
        }
    }
}

/// Build scripts are refused exactly where two of them have one file stem.
pub proof fn lemma_scripts_refused(scripts: Seq<Text>)
    requires
        forall|i: int| 0 <= i < scripts.len() ==> file_stem(#[trigger] scripts[i]) is Some,
    ensures
        unique_scripts(scripts) is Err <==> exists|i: int, j: int|
            0 <= i < j < scripts.len() && file_stem(#[trigger] scripts[i]) == file_stem(
                #[trigger] scripts[j],
            ),
{
    lemma_unique_scripts(scripts);
    if unique_scripts(scripts) is Err {
        let k = choose|k: int|
            0 <= k < scripts.len() && scripts_with(
                scripts,
                script_stem(#[trigger] scripts[k]),
            ).len() > 1;
        let stem = script_stem(scripts[k]);
        lemma_several_with(scripts, stem);
        let (i, j) = choose|i: int, j: int|
            0 <= i < j < scripts.len() && script_stem(#[trigger] scripts[i]) == stem && script_stem(
                #[trigger] scripts[j],
            ) == stem;
        assert(file_stem(scripts[i]) == file_stem(scripts[j]));
    }
    if exists|i: int, j: int|
        0 <= i < j < scripts.len() && file_stem(#[trigger] scripts[i]) == file_stem(
            #[trigger] scripts[j],
        ) {
        let (i, j) = choose|i: int, j: int|
            0 <= i < j < scripts.len() && file_stem(#[trigger] scripts[i]) == file_stem(
                #[trigger] scripts[j],
            );
        let stem = script_stem(scripts[i]);
        assert(script_stem(scripts[j]) == stem);
        lemma_several_with(scripts, stem);
        assert(scripts_with(scripts, script_stem(scripts[i])).len() > 1);
    }
}

} // verus!
