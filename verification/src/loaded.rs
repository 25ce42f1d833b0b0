//! How the environment of Microsoft's compiler is found and read.
use vstd::prelude::*;

use crate::env::EnvVars;
use crate::fs::FsView;
use crate::order::{is_covered, key_less, lemma_unique_order, stable_order, without_repeats};
use crate::os_text::{plain, OsText};
use crate::path::{codes, joined, lemma_codes, text_key};
use crate::text::{find_from, is_space, lemma_find_from, line_at, lines, lines_from, space_end};
use crate::text::{space_start, trimmed, Text};
use crate::toolchain::{find_tool, first_filled_line, first_found, first_in_dir, first_in_dirs};
use crate::toolchain::tool_place;
use crate::toolchain::{ listed_vars, msvc_arch, msvc_env_command, setting_in};
use crate::toolchain::{setting_keys, setting_of, settings_back, vcvarsall_search, FoundTools};
use crate::toolchain::{vswhere_below, VcvarsallSearchView};

verus! {

/// A text that does not begin with another.
pub open spec fn begins_otherwise(s: Text, start: Text) -> bool {
    forall|rest: Text| s != #[trigger] (start + rest)
}

proof fn lemma_prefix(start: Text, rest: Text)
    ensures
        start.is_prefix_of(start + rest),
{
    assert((start + rest).take(start.len() as int) =~= start);
}

proof fn lemma_no_prefix(s: Text, start: Text)
    requires
        begins_otherwise(s, start),
    ensures
        !start.is_prefix_of(s),
{
    if start.is_prefix_of(s) {
        assert(s =~= start + s.skip(start.len() as int));
    }
}

proof fn lemma_starts_differ(rest: Text)
    ensures
        !"x86_64"@.is_prefix_of("i686"@ + rest),
        !"x86_64"@.is_prefix_of("i586"@ + rest),
        !"x86_64"@.is_prefix_of("aarch64"@ + rest),
        !"i686"@.is_prefix_of("aarch64"@ + rest),
        !"i586"@.is_prefix_of("aarch64"@ + rest),
{
    reveal_strlit("x86_64");
    reveal_strlit("i686");
    reveal_strlit("i586");
    reveal_strlit("aarch64");
    assert(("i686"@ + rest)[0] == 'i');
    assert(("i586"@ + rest)[0] == 'i');
    assert(("aarch64"@ + rest)[0] == 'a');
    assert("x86_64"@[0] == 'x' && "i686"@[0] == 'i' && "i586"@[0] == 'i');
}

/// What the compiler environment is set up for is the architecture of the target: from
/// that of the host where the host is of `x86_64` and the target of another that is known,
/// and by its own name otherwise.
pub proof fn lemma_architecture(rest: Text, host: Text)
    ensures
        msvc_arch("x86_64"@ + rest, host) == "x64"@,
        begins_otherwise(host, "x86_64"@) ==> {
            &&& msvc_arch("i686"@ + rest, host) == "x86"@
            &&& msvc_arch("i586"@ + rest, host) == "x86"@
            &&& msvc_arch("aarch64"@ + rest, host) == "arm64"@
        },
        msvc_arch("i686"@ + rest, "x86_64"@ + host) == "amd64_x86"@,
        msvc_arch("i586"@ + rest, "x86_64"@ + host) == "amd64_x86"@,
        msvc_arch("aarch64"@ + rest, "x86_64"@ + host) == "amd64_arm64"@,
{
    lemma_prefix("x86_64"@, rest);
    lemma_prefix("x86_64"@, host);
    lemma_prefix("i686"@, rest);
    lemma_prefix("i586"@, rest);
    lemma_prefix("aarch64"@, rest);
    lemma_starts_differ(rest);
    if begins_otherwise(host, "x86_64"@) {
        lemma_no_prefix(host, "x86_64"@);
    }
}

/// The script that sets up the compiler environment is the one that a variable names;
/// without one, `vswhere.exe` is asked for it: the one that is found, else the one below
/// the directory of programs, that for 32 bits first. Without that either, there is none.
pub proof fn lemma_script_sought(env: EnvVars, found: FoundTools, fs: FsView)
    ensures
        ({
            let named = env.value_of("CARGO_NATIVE_MSVC_VCVARSALL"@);
            let on_path = found.path_of("vswhere.exe"@);
            let narrow = env.text_of("ProgramFiles(x86)"@);
            let wide = env.text_of("ProgramFiles"@);
            let dir = if narrow is Some {
                narrow
            } else {
                wide
            };
            let below = dir is Some && fs.has_file(vswhere_below(dir->0));
            match vcvarsall_search(env, found, fs) {
                VcvarsallSearchView::Script(script) => named == Some(script),
                VcvarsallSearchView::Query(command) => {
                    &&& named is None
                    &&& on_path is Some ==> Some(command.program) == on_path
                    &&& on_path is None ==> below && command.program == plain(
                        vswhere_below(dir->0),
                    )
                    &&& command.args.len() == 7
                    &&& command.args[0] == "-latest"@
                    &&& command.args[1] == "-products"@
                    &&& command.args[2] == "*"@
                    &&& command.args[3] == "-requires"@
                    &&& command.args[4] == "Microsoft.VisualStudio.Component.VC.Tools.x86.x64"@
                    &&& command.args[5] == "-find"@
                    &&& command.args[6] == "VC\\Auxiliary\\Build\\vcvarsall.bat"@
                },
                VcvarsallSearchView::Nowhere => named is None && on_path is None && !below,
            }
        }),
{
}

/// Where `vswhere.exe` stands below a directory of programs.
pub proof fn lemma_installer(dir: Text)
    requires
        dir.len() > 0,
        dir[dir.len() - 1] != '/',
    ensures
        vswhere_below(dir) == dir + "/Microsoft Visual Studio/Installer/vswhere.exe"@,
{
    reveal_strlit("Microsoft Visual Studio");
    reveal_strlit("Installer");
    reveal_strlit("vswhere.exe");
    reveal_strlit("/Microsoft Visual Studio/Installer/vswhere.exe");
    assert(dir.last() == dir[dir.len() - 1]);
    let a = joined(dir, "Microsoft Visual Studio"@);
    assert(a.last() == 'o');
    let b = joined(a, "Installer"@);
    assert(b.last() == 'r');
    assert(joined(b, "vswhere.exe"@) =~= dir
        + "/Microsoft Visual Studio/Installer/vswhere.exe"@);
}

/// The command that sets up the environment calls the script for the architecture and
/// then lists what is set, in the shell that the system names, else in `cmd.exe`.
pub proof fn lemma_setup_command(env: EnvVars, script: Text, target: Text, host: Text)
    ensures
        ({
            let cmd = msvc_env_command(env, script, target, host);
            &&& env.value_of("ComSpec"@) matches Some(shell) ==> cmd.program == shell
            &&& env.value_of("ComSpec"@) is None ==> cmd.program == plain("cmd.exe"@)
            &&& cmd.args.len() == 3
            &&& cmd.args[0] == "/d"@
            &&& cmd.args[1] == "/c"@
            &&& cmd.args[2] == "call \""@ + script + "\" "@ + msvc_arch(target, host)
                + " >nul && set"@
        }),
{
}

proof fn lemma_space_end(s: Text, i: int)
    requires
        0 <= i <= s.len(),
    ensures
        i <= space_end(s, i) <= s.len(),
        forall|k: int| i <= k < space_end(s, i) ==> is_space(#[trigger] s[k]),
        space_end(s, i) < s.len() ==> !is_space(s[space_end(s, i)]),
    decreases s.len() - i,
{
    if i < s.len() && is_space(s[i]) {
        lemma_space_end(s, i + 1);
    }
}

proof fn lemma_space_start(s: Text, from: int, i: int)
    requires
        0 <= from <= i <= s.len(),
    ensures
        from <= space_start(s, from, i) <= i,
        forall|k: int| space_start(s, from, i) <= k < i ==> is_space(#[trigger] s[k]),
        space_start(s, from, i) > from ==> !is_space(s[space_start(s, from, i) - 1]),
    decreases i - from,
{
    if i > from && is_space(s[i - 1]) {
        lemma_space_start(s, from, i - 1);
    }
}

/// A text without the white space at its ends: what is left out is white space, and what
/// is left neither begins nor ends with it.
pub proof fn lemma_trimmed(s: Text)
    ensures
        exists|a: Text, b: Text| #[trigger]
            is_trimmed(s, a, trimmed(s), b),
{
    let from = space_end(s, 0);
    lemma_space_end(s, 0);
    let to = space_start(s, from, s.len() as int);
    lemma_space_start(s, from, s.len() as int);
    let a = s.take(from);
    let b = s.skip(to);
    let t = trimmed(s);
    assert(s =~= a + t + b);
    if t.len() > 0 {
        assert(t[0] == s[from]);
        assert(t[t.len() - 1] == s[to - 1]);
    }
    assert(is_trimmed(s, a, t, b));
}

/// The text in three parts, of which the middle one is what is left without white space
/// at the ends.
pub open spec fn is_trimmed(s: Text, a: Text, t: Text, b: Text) -> bool {
    &&& s == a + t + b
    &&& forall|k: int| 0 <= k < a.len() ==> is_space(#[trigger] a[k])
    &&& forall|k: int| 0 <= k < b.len() ==> is_space(#[trigger] b[k])
    &&& t.len() > 0 ==> !is_space(t[0]) && !is_space(t[t.len() - 1])
}

/// The script that `vswhere.exe` names is in the first line that is more than white
/// space.
pub proof fn lemma_first_line(list: Seq<Text>)
    ensures
        match first_filled_line(list) {
            Some(line) => exists|i: int|
                0 <= i < list.len() && line == trimmed(#[trigger] list[i]) && line.len() > 0
                    && forall|j: int| 0 <= j < i ==> trimmed(#[trigger] list[j]).len() == 0,
            None => forall|i: int| 0 <= i < list.len() ==> trimmed(#[trigger] list[i]).len() == 0,
        },
    decreases list.len(),
{
    if list.len() > 0 {
        if trimmed(list[0]).len() > 0 {
            assert(first_filled_line(list)->0 == trimmed(list[0]));
        } else {
            let rest = list.skip(1);
            lemma_first_line(rest);
            match first_filled_line(rest) {
                Some(line) => {
                    let i = choose|i: int|
                        0 <= i < rest.len() && line == trimmed(#[trigger] rest[i]) && line.len()
                            > 0 && forall|j: int|
                            0 <= j < i ==> trimmed(#[trigger] rest[j]).len() == 0;
                    assert(list[i + 1] == rest[i]);
                    assert forall|j: int| 0 <= j < i + 1 implies trimmed(
                        #[trigger] list[j],
                    ).len() == 0 by {
                        if j > 0 {
                            assert(rest[j - 1] == list[j]);
                        }
                    }
                },
                None => {
                    assert forall|i: int| 0 <= i < list.len() implies trimmed(
                        #[trigger] list[i],
                    ).len() == 0 by {
                        if i > 0 {
                            assert(rest[i - 1] == list[i]);
                        }
                    }
                },
            }
        }
    }
}

proof fn lemma_lines_shifted(pre: Text, b: Text, i: int)
    requires
        0 <= i <= b.len(),
        pre.len() > 0,
        pre[pre.len() - 1] == '\n',
    ensures
        lines_from(pre + b, pre.len() + i) == lines_from(b, i),
    decreases b.len() - i,
{
    let s = pre + b;
    let n = pre.len() as int;
    if i < b.len() {
        lemma_find_from(s, '\n', n + i);
        lemma_find_from(b, '\n', i);
        let e = find_from(s, '\n', n + i);
        let f = find_from(b, '\n', i);
        assert(e == n + f) by {
            if e < n + f {
                assert(b[e - n] == s[e]);
            }
            if n + f < e {
                assert(s[n + f] == b[f]);
            }
        }
        if f > i {
            assert(s[e - 1] == b[f - 1]);
        }
        assert(s.subrange(n + i, e) =~= b.subrange(i, f));
        if f > i {
            assert(s.subrange(n + i, e - 1) =~= b.subrange(i, f - 1));
        }
        assert(line_at(s, n + i) == line_at(b, i));
        if f < b.len() {
            lemma_lines_shifted(pre, b, f + 1);
        }
    }
}

/// A text is in lines by its line feeds; a carriage return in front of one is left out.
pub proof fn lemma_lines(line: Text, rest: Text)
    requires
        !line.contains('\n'),
    ensures
        line.len() > 0 ==> lines(line) == seq![line],
        line.len() == 0 || line[line.len() - 1] != '\r' ==> lines(line + seq!['\n'] + rest) == seq![
            line,
        ] + lines(rest),
        lines(line + seq!['\r'] + seq!['\n'] + rest) == seq![line] + lines(rest),
{
    if line.len() > 0 {
        lemma_find_from(line, '\n', 0);
        let e = find_from(line, '\n', 0);
        if e < line.len() {
            assert(line.contains(line[e]));
        }
        assert(line.subrange(0, e) =~= line);
        assert(lines(line) =~= seq![line]);
    }
    let s = line + seq!['\n'] + rest;
    let pre = line + seq!['\n'];
    lemma_end(line, s, line.len() as int);
    lemma_lines_shifted(pre, rest, 0);
    assert(pre + rest =~= s);
    assert(lines_from(s, pre.len() as int) == lines(rest));
    assert(s.subrange(0, line.len() as int) =~= line);
    if line.len() > 0 {
        assert(s[line.len() - 1] == line[line.len() - 1]);
    }
    let t = line + seq!['\r'] + seq!['\n'] + rest;
    let back = line + seq!['\r'] + seq!['\n'];
    lemma_end(line + seq!['\r'], t, line.len() as int + 1);
    lemma_lines_shifted(back, rest, 0);
    assert(back + rest =~= t);
    assert(lines_from(t, back.len() as int) == lines(rest));
    assert(t[line.len() as int] == '\r');
    assert(t.subrange(0, line.len() as int) =~= line);
}

proof fn lemma_end(line: Text, s: Text, n: int)
    requires
        n == line.len(),
        n < s.len(),
        s.take(n) =~= line,
        s[n] == '\n',
        !line.contains('\n'),
    ensures
        find_from(s, '\n', 0) == n,
{
    lemma_find_from(s, '\n', 0);
    let e = find_from(s, '\n', 0);
    if e < n {
        assert(s.take(n)[e] == s[e]);
        assert(line.contains(line[e]));
    }
}

/// A line sets a variable where a name, `=` and a value stand in it.
pub proof fn lemma_setting(name: Text, value: Text)
    requires
        !name.contains('='),
    ensures
        setting_in(name + seq!['='] + value) == if name.len() > 0 {
            Some((name, value))
        } else {
            None
        },
        setting_in(name) is None,
{
    let s = name + seq!['='] + value;
    lemma_find_from(s, '=', 0);
    let e = find_from(s, '=', 0);
    if e < name.len() {
        assert(name.contains(name[e]));
    }
    assert(s[name.len() as int] == '=');
    assert(s.take(e) =~= name);
    assert(s.skip(e + 1) =~= value);
    lemma_find_from(name, '=', 0);
    let f = find_from(name, '=', 0);
    if f < name.len() {
        assert(name.contains(name[f]));
    }
}

/// The line sets the variable, and none behind it does.
pub open spec fn is_last_setting(list: Seq<Text>, i: int, setting: (Text, Text)) -> bool {
    &&& 0 <= i < list.len()
    &&& setting_in(list[i]) == Some(setting)
    &&& forall|j: int|
        i < j < list.len() ==> !(setting_in(#[trigger] list[j]) matches Some(other) && other.0
            == setting.0)
}

proof fn lemma_settings_back(list: Seq<Text>)
    ensures
        forall|k: int|
            0 <= k < settings_back(list).len() ==> #[trigger] is_set(list, settings_back(list)[k]),
        forall|i: int|
            0 <= i < list.len() && setting_in(#[trigger] list[i]) is Some ==> settings_back(
                list,
            ).contains(setting_in(list[i])->0),
    decreases list.len(),
{
    if list.len() > 0 {
        let rest = list.skip(1);
        let before = settings_back(rest);
        let all = settings_back(list);
        lemma_settings_back(rest);
        assert forall|k: int| 0 <= k < all.len() implies #[trigger] is_set(list, all[k]) by {
            if k < before.len() {
                assert(all[k] == before[k]);
                assert(is_set(rest, before[k]));
                let i = choose|i: int|
                    0 <= i < rest.len() && setting_in(#[trigger] rest[i]) == Some(before[k]);
                assert(list[i + 1] == rest[i]);
            } else {
                assert(setting_in(list[0]) == Some(all[k]));
            }
        }
        assert forall|i: int|
            0 <= i < list.len() && setting_in(#[trigger] list[i]) is Some implies all.contains(
            setting_in(list[i])->0,
        ) by {
            if i > 0 {
                assert(rest[i - 1] == list[i]);
                let k = choose|k: int| 0 <= k < before.len() && before[k] == setting_in(list[i])->0;
                assert(all[k] == before[k]);
            } else {
                assert(all[all.len() - 1] == setting_in(list[0])->0);
            }
        }
    }
}

/// A line sets the variable so.
pub open spec fn is_set(list: Seq<Text>, setting: (Text, Text)) -> bool {
    exists|i: int| 0 <= i < list.len() && setting_in(#[trigger] list[i]) == Some(setting)
}

/// The last setting of a name is the first one from the back.
proof fn lemma_last_first(list: Seq<Text>, i: int, setting: (Text, Text))
    requires
        is_last_setting(list, i, setting),
    ensures
        exists|k: int|
            0 <= k < settings_back(list).len() && #[trigger] settings_back(list)[k] == setting
                && forall|j: int|
                0 <= j < k ==> (#[trigger] settings_back(list)[j]).0 != setting.0,
    decreases list.len(),
{
    let rest = list.skip(1);
    let before = settings_back(rest);
    let all = settings_back(list);
    if i > 0 {
        assert(rest[i - 1] == list[i]);
        assert forall|j: int| i - 1 < j < rest.len() implies !(setting_in(#[trigger] rest[j])
            matches Some(other) && other.0 == setting.0) by {
            assert(list[j + 1] == rest[j]);
        }
        lemma_last_first(rest, i - 1, setting);
        let k = choose|k: int|
            0 <= k < before.len() && #[trigger] before[k] == setting && forall|j: int|
                0 <= j < k ==> (#[trigger] before[j]).0 != setting.0;
        assert(all[k] == before[k]);
        assert forall|j: int| 0 <= j < k implies (#[trigger] all[j]).0 != setting.0 by {
            assert(all[j] == before[j]);
        }
    } else {
        lemma_settings_back(rest);
        let k = before.len() as int;
        assert(all[k] == setting);
        assert forall|j: int| 0 <= j < k implies (#[trigger] all[j]).0 != setting.0 by {
            assert(all[j] == before[j]);
            assert(is_set(rest, before[j]));
            let n = choose|n: int|
                0 <= n < rest.len() && setting_in(#[trigger] rest[n]) == Some(before[j]);
            assert(list[n + 1] == rest[n]);
        }
    }
}

/// The variables of a compiler environment are those that the listing sets, each once,
/// with the value that comes last, in the order of their names.
pub proof fn lemma_listed(stdout: Text)
    ensures
        ({
            let vars = listed_vars(stdout);
            let list = lines(stdout);
            &&& forall|k: int| 0 <= k < vars.len() ==> #[trigger] is_set(list, vars[k])
            &&& forall|i: int, setting: (Text, Text)| #[trigger]
                is_last_setting(list, i, setting) ==> vars.contains(setting)
            &&& forall|j: int, k: int|
                0 <= j < k < vars.len() ==> key_less(
                    text_key((#[trigger] vars[j]).0),
                    text_key((#[trigger] vars[k]).0),
                )
        }),
{
    let list = lines(stdout);
    let back = settings_back(list);
    let keys = setting_keys(back);
    let places = without_repeats(keys, stable_order(keys));
    let vars = listed_vars(stdout);
    lemma_settings_back(list);
    lemma_unique_order(keys);
    assert forall|k: int| 0 <= k < vars.len() implies #[trigger] is_set(list, vars[k]) by {
        assert(vars[k] == back[places[k]]);
        assert(is_set(list, back[places[k]]));
    }
    assert forall|i: int, setting: (Text, Text)| #[trigger]
        is_last_setting(list, i, setting) implies vars.contains(setting) by {
        lemma_last_first(list, i, setting);
        let k = choose|k: int|
            0 <= k < back.len() && #[trigger] back[k] == setting && forall|j: int|
                0 <= j < k ==> (#[trigger] back[j]).0 != setting.0;
        assert(is_covered(keys, places, k));
        let a = choose|a: int|
            0 <= a < places.len() && keys[#[trigger] places[a]] == keys[k] && places[a] <= k;
        let p = places[a];
        assert(keys[p] == text_key(back[p].0) && keys[k] == text_key(back[k].0));
        assert(text_key(back[p].0)[0] == codes(back[p].0));
        assert(text_key(back[k].0)[0] == codes(back[k].0));
        lemma_codes(back[p].0, back[k].0);
        assert(p == k);
        assert(vars[a] == setting);
    }
    assert forall|j: int, k: int| 0 <= j < k < vars.len() implies key_less(
        text_key((#[trigger] vars[j]).0),
        text_key((#[trigger] vars[k]).0),
    ) by {
        assert(keys[places[j]] == text_key(vars[j].0));
        assert(keys[places[k]] == text_key(vars[k].0));
    }
}

/// The value of a variable is the first one that stands for its name.
pub proof fn lemma_setting_of(vars: Seq<(Text, Text)>, name: Text)
    ensures
        match setting_of(vars, name) {
            Some(value) => exists|i: int|
                0 <= i < vars.len() && #[trigger] vars[i] == (name, value) && forall|j: int|
                    0 <= j < i ==> (#[trigger] vars[j]).0 != name,
            None => forall|i: int| 0 <= i < vars.len() ==> (#[trigger] vars[i]).0 != name,
        },
    decreases vars.len(),
{
    if vars.len() > 0 {
        if vars[0].0 == name {
            assert(vars[0] == (name, setting_of(vars, name)->0));
        } else {
            let rest = vars.skip(1);
            lemma_setting_of(rest, name);
            match setting_of(rest, name) {
                Some(value) => {
                    let i = choose|i: int|
                        0 <= i < rest.len() && #[trigger] rest[i] == (name, value) && forall|j: int|
                            0 <= j < i ==> (#[trigger] rest[j]).0 != name;
                    assert(vars[i + 1] == rest[i]);
                    assert forall|j: int| 0 <= j < i + 1 implies (#[trigger] vars[j]).0
                        != name by {
                        if j > 0 {
                            assert(rest[j - 1] == vars[j]);
                        }
                    }
                },
                None => {
                    assert forall|i: int| 0 <= i < vars.len() implies (#[trigger] vars[i]).0
                        != name by {
                        if i > 0 {
                            assert(rest[i - 1] == vars[i]);
                        }
                    }
                },
            }
        }
    }
}

/// A tool is where the first entry of its name says.
pub proof fn lemma_tool_found(found: FoundTools, tool: Text)
    ensures
        match found.path_of(tool) {
            Some(path) => exists|i: int|
                0 <= i < found.tools@.len() && (#[trigger] found.tools@[i]).0@ == tool
                    && found.tools@[i].1@ == path && forall|j: int|
                    0 <= j < i ==> (#[trigger] found.tools@[j]).0@ != tool,
            None => forall|i: int|
                0 <= i < found.tools@.len() ==> (#[trigger] found.tools@[i]).0@ != tool,
        },
{
    lemma_find_tool(found.tools@, tool);
}

proof fn lemma_find_tool(tools: Seq<(String, OsText)>, tool: Text)
    ensures
        match find_tool(tools, tool) {
            Some(path) => exists|i: int|
                0 <= i < tools.len() && (#[trigger] tools[i]).0@ == tool && tools[i].1@ == path
                    && forall|j: int| 0 <= j < i ==> (#[trigger] tools[j]).0@ != tool,
            None => forall|i: int| 0 <= i < tools.len() ==> (#[trigger] tools[i]).0@ != tool,
        },
    decreases tools.len(),
{
    if tools.len() > 0 {
        if tools[0].0@ == tool {
            assert(tools[0].1@ == find_tool(tools, tool)->0);
        } else {
            let rest = tools.skip(1);
            lemma_find_tool(rest, tool);
            match find_tool(rest, tool) {
                Some(path) => {
                    let i = choose|i: int|
                        0 <= i < rest.len() && (#[trigger] rest[i]).0@ == tool && rest[i].1@
                            == path && forall|j: int|
                            0 <= j < i ==> (#[trigger] rest[j]).0@ != tool;
                    assert(tools[i + 1] == rest[i]);
                    assert forall|j: int| 0 <= j < i + 1 implies (#[trigger] tools[j]).0@
                        != tool by {
                        if j > 0 {
                            assert(rest[j - 1] == tools[j]);
                        }
                    }
                },
                None => {
                    assert forall|i: int| 0 <= i < tools.len() implies (#[trigger] tools[i]).0@
                        != tool by {
                        if i > 0 {
                            assert(rest[i - 1] == tools[i]);
                        }
                    }
                },
            }
        }
    }
}

/// The file in one of the directories under one of the names, where no directory before
/// has any of them, nor the directory itself a name before.
pub open spec fn is_first_place(
    fs: FsView,
    dirs: Seq<Text>,
    names: Seq<Text>,
    d: int,
    n: int,
) -> bool {
    &&& 0 <= d < dirs.len()
    &&& 0 <= n < names.len()
    &&& fs.has_file(joined(dirs[d], names[n]))
    &&& forall|m: int| 0 <= m < n ==> !fs.has_file(joined(dirs[d], #[trigger] names[m]))
    &&& forall|c: int, m: int|
        0 <= c < d && 0 <= m < names.len() ==> !fs.has_file(
            #[trigger] joined(dirs[c], names[m]),
        )
}

proof fn lemma_in_dir(fs: FsView, dir: Text, names: Seq<Text>)
    ensures
        match first_in_dir(fs, dir, names) {
            Some(path) => exists|n: int|
                0 <= n < names.len() && fs.has_file(path) && path == joined(
                    dir,
                    #[trigger] names[n],
                ) && forall|m: int|
                    0 <= m < n ==> !fs.has_file(joined(dir, #[trigger] names[m])),
            None => forall|m: int|
                0 <= m < names.len() ==> !fs.has_file(joined(dir, #[trigger] names[m])),
        },
    decreases names.len(),
{
    if names.len() > 0 {
        if fs.has_file(joined(dir, names[0])) {
            assert(first_in_dir(fs, dir, names)->0 == joined(dir, names[0]));
        } else {
            let rest = names.skip(1);
            lemma_in_dir(fs, dir, rest);
            match first_in_dir(fs, dir, rest) {
                Some(path) => {
                    let n = choose|n: int|
                        0 <= n < rest.len() && fs.has_file(path) && path == joined(
                            dir,
                            #[trigger] rest[n],
                        ) && forall|m: int|
                            0 <= m < n ==> !fs.has_file(joined(dir, #[trigger] rest[m]));
                    assert(names[n + 1] == rest[n]);
                    assert forall|m: int| 0 <= m < n + 1 implies !fs.has_file(
                        joined(dir, #[trigger] names[m]),
                    ) by {
                        if m > 0 {
                            assert(rest[m - 1] == names[m]);
                        }
                    }
                },
                None => {
                    assert forall|m: int| 0 <= m < names.len() implies !fs.has_file(
                        joined(dir, #[trigger] names[m]),
                    ) by {
                        if m > 0 {
                            assert(rest[m - 1] == names[m]);
                        }
                    }
                },
            }
        }
    }
}

/// A tool of a compiler environment is the first that its directories hold: the directory
/// that comes first decides, and in it the name that is preferred.
pub proof fn lemma_tool_in_dirs(fs: FsView, dirs: Seq<Text>, names: Seq<Text>)
    ensures
        match first_in_dirs(fs, dirs, names) {
            Some(path) => exists|d: int, n: int|
                #[trigger] is_first_place(fs, dirs, names, d, n) && path == joined(
                    dirs[d],
                    names[n],
                ),
            None => forall|d: int, m: int|
                0 <= d < dirs.len() && 0 <= m < names.len() ==> !fs.has_file(
                    #[trigger] joined(dirs[d], names[m]),
                ),
        },
    decreases dirs.len(),
{
    if dirs.len() > 0 {
        lemma_in_dir(fs, dirs[0], names);
        let rest = dirs.skip(1);
        lemma_tool_in_dirs(fs, rest, names);
        match first_in_dir(fs, dirs[0], names) {
            Some(path) => {
                let n = choose|n: int|
                    0 <= n < names.len() && fs.has_file(path) && path == joined(
                        dirs[0],
                        #[trigger] names[n],
                    ) && forall|m: int|
                        0 <= m < n ==> !fs.has_file(joined(dirs[0], #[trigger] names[m]));
                assert(is_first_place(fs, dirs, names, 0, n));
            },
            None => {
                match first_in_dirs(fs, rest, names) {
                    Some(path) => {
                        let (d, n) = choose|d: int, n: int|
                            #[trigger] is_first_place(fs, rest, names, d, n) && path == joined(
                                rest[d],
                                names[n],
                            );
                        assert(dirs[d + 1] == rest[d]);
                        assert forall|c: int, m: int|
                            0 <= c < d + 1 && 0 <= m < names.len() implies !fs.has_file(
                            #[trigger] joined(dirs[c], names[m]),
                        ) by {
                            if c > 0 {
                                assert(rest[c - 1] == dirs[c]);
                                assert(!fs.has_file(joined(rest[c - 1], names[m])));
                            }
                        }
                        assert(is_first_place(fs, dirs, names, d + 1, n));
                    },
                    None => {
                        assert forall|d: int, m: int|
                            0 <= d < dirs.len() && 0 <= m < names.len() implies !fs.has_file(
                            #[trigger] joined(dirs[d], names[m]),
                        ) by {
                            if d > 0 {
                                assert(rest[d - 1] == dirs[d]);
                                assert(!fs.has_file(joined(rest[d - 1], names[m])));
                            }
                        }
                    },
                }
            },
        }
    }
}

/// A tool is taken from the directories of the compiler environment before it is taken
/// from the search path.
pub proof fn lemma_tool_place(
    fs: FsView,
    found: FoundTools,
    dirs: Seq<Text>,
    names: Seq<Text>,
)
    ensures
        first_in_dirs(fs, dirs, names) matches Some(path) ==> tool_place(fs, found, dirs, names)
            == Some(plain(path)),
        first_in_dirs(fs, dirs, names) is None ==> match tool_place(fs, found, dirs, names) {
            Some(path) => exists|i: int|
                0 <= i < names.len() && found.path_of(#[trigger] names[i]) == Some(path)
                    && forall|j: int| 0 <= j < i ==> found.path_of(#[trigger] names[j]) is None,
            None => forall|i: int|
                0 <= i < names.len() ==> found.path_of(#[trigger] names[i]) is None,
        },
{
    lemma_on_path(found, names);
}

proof fn lemma_on_path(found: FoundTools, names: Seq<Text>)
    ensures
        match first_found(found, names) {
            Some(path) => exists|i: int|
                0 <= i < names.len() && found.path_of(#[trigger] names[i]) == Some(path)
                    && forall|j: int| 0 <= j < i ==> found.path_of(#[trigger] names[j]) is None,
            None => forall|i: int|
                0 <= i < names.len() ==> found.path_of(#[trigger] names[i]) is None,
        },
    decreases names.len(),
{
    if names.len() > 0 {
        match found.path_of(names[0]) {
            Some(path) => {
                assert(first_found(found, names) == Some(path));
            },
            None => {
                let rest = names.skip(1);
                lemma_on_path(found, rest);
                match first_found(found, rest) {
                    Some(path) => {
                        let i = choose|i: int|
                            0 <= i < rest.len() && found.path_of(#[trigger] rest[i]) == Some(path)
                                && forall|j: int|
                                0 <= j < i ==> found.path_of(#[trigger] rest[j]) is None;
                        assert(names[i + 1] == rest[i]);
                        assert forall|j: int| 0 <= j < i + 1 implies found.path_of(
                            #[trigger] names[j],
                        ) is None by {
                            if j > 0 {
                                assert(rest[j - 1] == names[j]);
                            }
                        }
                    },
                    None => {
                        assert forall|i: int| 0 <= i < names.len() implies found.path_of(
                            #[trigger] names[i],
                        ) is None by {
                            if i > 0 {
                                assert(rest[i - 1] == names[i]);
                            }
                        }
                    },
                }
            },
        }
    }
}

} // verus!
