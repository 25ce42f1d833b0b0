//! Paths: texts read as paths of a Unix host. A path of a Windows host, with a drive or
//! with backslashes, is known only as the name of a program.
//!
//! A path is kept as the text it was given as. Its components are what the text
//! holds between slashes, without empty pieces and without `.` pieces other than
//! a leading one; a leading slash is a component of its own. Two texts with the
//! same components name the same path.
use vstd::prelude::*;

use crate::order::{is_covered, key_less, key_view, keys_view, lemma_key_push, lemma_key_total};
use crate::order::{lemma_keys_push, lemma_unique_order, order_unique_by_keys, pick, places_view};
use crate::order::{sorted_unique_by, stable_order, without_repeats, Key, Part};
use crate::text::{chars_of, find_char, find_from, join_texts, lemma_find_from, lemma_find_not_back};
use crate::text::{opt_text, push_text, replace_char, replaced, same_text, string_of, texts, Text};

verus! {

/// The piece from `i` up to `e` is a component: it is not empty, and it is not a
/// `.` behind the start of the text.
pub open spec fn is_component(s: Text, i: int, e: int) -> bool {
    i < e && !(e == i + 1 && s[i] == '.' && i > 0)
}

/// Where the components stand that begin at position `i` or later.
pub open spec fn spans_from(s: Text, i: int) -> Seq<(int, int)>
    decreases s.len() - i,
{
    if i >= s.len() {
        Seq::empty()
    } else {
        let e = find_from(s, '/', i);
        let here = if is_component(s, i, e) {
            seq![(i, e)]
        } else {
            Seq::empty()
        };
        proof {
            lemma_find_not_back(s, '/', i);
        }
        if e < s.len() {
            here + spans_from(s, e + 1)
        } else {
            here
        }
    }
}

/// The components that begin at position `i` or later.
pub open spec fn parts_from(s: Text, i: int) -> Seq<Text> {
    spans_from(s, i).map_values(|p: (int, int)| s.subrange(p.0, p.1))
}

/// The path is absolute.
pub open spec fn is_rooted(s: Text) -> bool {
    s.len() > 0 && s[0] == '/'
}

/// Where the components of a path stand in its text.
pub open spec fn spans(s: Text) -> Seq<(int, int)> {
    if is_rooted(s) {
        seq![(0int, 1int)] + spans_from(s, 1)
    } else {
        spans_from(s, 0)
    }
}

/// The components of a path.
pub open spec fn components(s: Text) -> Seq<Text> {
    spans(s).map_values(|p: (int, int)| s.subrange(p.0, p.1))
}

/// Two texts name the same path.
pub open spec fn same_path(a: Text, b: Text) -> bool {
    components(a) == components(b)
}

/// The spans stand in the text, one behind the other.
pub open spec fn spans_ordered(s: Text, list: Seq<(int, int)>, from: int) -> bool {
    &&& forall|k: int| 0 <= k < list.len() ==> from <= (#[trigger] list[k]).0 < list[k].1 <= s.len()
    &&& forall|j: int, k: int|
        0 <= j < k < list.len() ==> (#[trigger] list[j]).1 <= (#[trigger] list[k]).0
}

proof fn lemma_spans_from(s: Text, i: int)
    requires
        0 <= i <= s.len(),
    ensures
        spans_ordered(s, spans_from(s, i), i),
    decreases s.len() - i,
{
    if i < s.len() {
        lemma_find_from(s, '/', i);
        let e = find_from(s, '/', i);
        if e < s.len() {
            lemma_spans_from(s, e + 1);
        }
    }
}

/// The components of a path stand in its text one behind the other.
pub proof fn lemma_spans(s: Text)
    ensures
        spans_ordered(s, spans(s), 0),
{
    if is_rooted(s) {
        lemma_spans_from(s, 1);
    } else {
        lemma_spans_from(s, 0);
    }
}

/// What spans in memory hold.
pub open spec fn spans_view(list: Seq<(usize, usize)>) -> Seq<(int, int)> {
    list.map_values(|p: (usize, usize)| (p.0 as int, p.1 as int))
}

/// Where the components of a path stand.
fn spans_of(chars: &Vec<char>) -> (r: Vec<(usize, usize)>)
    ensures
        spans_view(r@) == spans(chars@),
        forall|k: int|
            0 <= k < r@.len() ==> (#[trigger] r@[k]).0 < r@[k].1 <= chars@.len(),
        forall|j: int, k: int|
            0 <= j < k < r@.len() ==> (#[trigger] r@[j]).1 <= (#[trigger] r@[k]).0,
{
    let ghost s = chars@;
    let mut r: Vec<(usize, usize)> = Vec::new();
    let mut i: usize = 0;
    if chars.len() > 0 && chars[0] == '/' {
        r.push((0, 1));
        i = 1;
    }
    assert(spans_view(r@) + spans_from(s, i as int) =~= spans(s));
    while i < chars.len()
        invariant
            i <= chars@.len(),
            s == chars@,
            spans_view(r@) + spans_from(s, i as int) == spans(s),
        decreases chars@.len() - i,
    {
        let e = find_char(chars, '/', i);
        let ghost held = spans_view(r@);
        let ghost rest = if e < s.len() {
            spans_from(s, e + 1)
        } else {
            Seq::empty()
        };
        if i < e && !(e == i + 1 && chars[i] == '.' && i > 0) {
            r.push((i, e));
            assert(spans_view(r@) =~= held.push((i as int, e as int)));
            assert(spans_view(r@) + rest =~= held + (seq![(i as int, e as int)] + rest));
        } else {
            assert(spans_view(r@) + rest =~= held + (Seq::<(int, int)>::empty() + rest));
        }
        if e < chars.len() {
            i = e + 1;
        } else {
            assert(held + spans_from(s, i as int) == spans(s));
            assert(spans_from(s, e as int) =~= Seq::empty());
            i = e;
        }
    }
    assert(spans_view(r@) + spans_from(s, i as int) =~= spans_view(r@));
    proof {
        lemma_spans(s);
        assert forall|k: int| 0 <= k < r@.len() implies (#[trigger] r@[k]).0 < r@[k].1
            <= chars@.len() by {
            assert(spans(s)[k] == (r@[k].0 as int, r@[k].1 as int));
        }
        assert forall|j: int, k: int| 0 <= j < k < r@.len() implies (#[trigger] r@[j]).1 <= (
        #[trigger] r@[k]).0 by {
            assert(spans(s)[j] == (r@[j].0 as int, r@[j].1 as int));
            assert(spans(s)[k] == (r@[k].0 as int, r@[k].1 as int));
        }
    }
    r
}

/// The components of a path.
pub fn components_of(path: &str) -> (r: Vec<String>)
    ensures
        texts(r@) == components(path@),
{
    let chars = chars_of(path);
    let list = spans_of(&chars);
    let mut r: Vec<String> = Vec::new();
    let mut k: usize = 0;
    assert(texts(r@) =~= components(path@).take(0));
    while k < list.len()
        invariant
            k <= list@.len(),
            chars@ == path@,
            spans_view(list@) == spans(chars@),
            forall|k: int|
                0 <= k < list@.len() ==> (#[trigger] list@[k]).0 < list@[k].1 <= chars@.len(),
            texts(r@) == components(path@).take(k as int),
        decreases list@.len() - k,
    {
        let ghost before = texts(r@);
        push_text(&mut r, string_of(&chars, list[k].0, list[k].1));
        assert(spans(chars@)[k as int] == (list@[k as int].0 as int, list@[k as int].1 as int));
        assert(components(path@).take(k + 1) =~= components(path@).take(k as int).push(
            components(path@)[k as int],
        ));
        k = k + 1;
    }
    assert(components(path@).take(k as int) =~= components(path@));
    r
}

/// A component that stands for the root.
pub open spec fn is_root_part(c: Text) -> bool {
    c.len() == 1 && c[0] == '/'
}

/// A component `.`.
pub open spec fn is_here_part(c: Text) -> bool {
    c.len() == 1 && c[0] == '.'
}

/// A component `..`.
pub open spec fn is_up_part(c: Text) -> bool {
    c.len() == 2 && c[0] == '.' && c[1] == '.'
}

/// A component that is a name.
pub open spec fn is_name_part(c: Text) -> bool {
    !is_root_part(c) && !is_here_part(c) && !is_up_part(c)
}

/// `Path::join`: an absolute path replaces the base.
pub open spec fn joined(base: Text, rel: Text) -> Text {
    if is_rooted(rel) {
        rel
    } else if base.len() > 0 && base.last() != '/' {
        base.push('/') + rel
    } else {
        base + rel
    }
}

/// `Path::join`.
pub fn join_path(base: &str, rel: &str) -> (r: String)
    ensures
        r@ == joined(base@, rel@),
{
    let b = chars_of(base);
    let c = chars_of(rel);
    if c.len() > 0 && c[0] == '/' {
        return rel.to_owned();
    }
    let mut r: String = base.to_owned();
    if b.len() > 0 && b[b.len() - 1] != '/' {
        r.push('/');
    }
    r.append(rel);
    r
}

/// `Path::file_name`: the last component, where it is a name.
pub open spec fn file_name(s: Text) -> Option<Text> {
    let c = components(s);
    if c.len() > 0 && is_name_part(c.last()) {
        Some(c.last())
    } else {
        None
    }
}

/// The last position before `i` that holds a dot, or -1.
pub open spec fn last_dot(s: Text, i: int) -> int
    decreases i,
{
    if i <= 0 {
        -1
    } else if s[i - 1] == '.' {
        i - 1
    } else {
        last_dot(s, i - 1)
    }
}

/// A file name without its extension.
pub open spec fn stem_of_name(name: Text) -> Text {
    let d = last_dot(name, name.len() as int);
    if d > 0 {
        name.take(d)
    } else {
        name
    }
}

/// `Path::file_stem`: the file name up to its last dot, where that is not its
/// first character.
pub open spec fn file_stem(s: Text) -> Option<Text> {
    match file_name(s) {
        Some(name) => Some(stem_of_name(name)),
        None => None,
    }
}

/// `Path::extension`: the file name behind its last dot, where that is not its
/// first character.
pub open spec fn extension(s: Text) -> Option<Text> {
    match file_name(s) {
        Some(name) => {
            let d = last_dot(name, name.len() as int);
            if d > 0 {
                Some(name.skip(d + 1))
            } else {
                None
            }
        },
        None => None,
    }
}

/// Where the name of the file stands in the text, and where its stem ends and its
/// extension begins: `Some((start, stem end, end))`.
fn name_span(chars: &Vec<char>) -> (r: Option<(usize, usize, usize)>)
    ensures
        match r {
            Some((start, dot, end)) => {
                &&& start <= dot <= end <= chars@.len()
                &&& spans(chars@).len() > 0
                &&& spans(chars@).last() == (start as int, end as int)
                &&& file_name(chars@) == Some(chars@.subrange(start as int, end as int))
                &&& file_stem(chars@) == Some(chars@.subrange(start as int, dot as int))
                &&& dot < end ==> extension(chars@) == Some(
                    chars@.subrange(dot + 1, end as int),
                )
                &&& dot == end ==> extension(chars@) is None
            },
            None => file_name(chars@) is None,
        },
{
    let list = spans_of(chars);
    if list.len() == 0 {
        assert(components(chars@).len() == 0);
        return None;
    }
    let (start, end) = list[list.len() - 1];
    let ghost name = chars@.subrange(start as int, end as int);
    assert(spans(chars@).last() == (start as int, end as int));
    assert(components(chars@).last() == name);
    if end - start == 1 && chars[start] == '/' {
        return None;
    }
    if end - start == 1 && chars[start] == '.' {
        return None;
    }
    if end - start == 2 && chars[start] == '.' && chars[start + 1] == '.' {
        return None;
    }
    assert(file_name(chars@) == Some(name));
    let mut k: usize = end;
    while k > start && chars[k - 1] != '.'
        invariant
            start <= k <= end <= chars@.len(),
            name == chars@.subrange(start as int, end as int),
            last_dot(name, name.len() as int) == last_dot(name, k - start),
        decreases k,
    {
        k = k - 1;
    }
    if k > start + 1 {
        assert(last_dot(name, name.len() as int) == k - 1 - start);
        assert(name.take(k - 1 - start) =~= chars@.subrange(start as int, k - 1));
        assert(name.skip(k - start) =~= chars@.subrange(k as int, end as int));
        Some((start, k - 1, end))
    } else {
        Some((start, end, end))
    }
}

/// `Path::file_name`.
pub fn file_name_of(path: &str) -> (r: Option<String>)
    ensures
        match r {
            Some(name) => file_name(path@) == Some(name@),
            None => file_name(path@) is None,
        },
{
    let chars = chars_of(path);
    match name_span(&chars) {
        Some((start, _dot, end)) => Some(string_of(&chars, start, end)),
        None => None,
    }
}

/// How the paths of programs are written on the host.
#[derive(Clone, Copy, Debug, PartialEq, Eq, Structural)]
pub enum PathRule {
    /// Names stand between slashes.
    Unix,
    /// Names stand between slashes or backslashes, and a drive can stand in front.
    Windows,
}

/// A drive stands in front of the path.
pub open spec fn has_drive(s: Text) -> bool {
    s.len() >= 2 && ('a' <= s[0] <= 'z' || 'A' <= s[0] <= 'Z') && s[1] == ':'
}

/// A path without the drive in front of it.
pub open spec fn without_drive(s: Text) -> Text {
    if has_drive(s) {
        s.skip(2)
    } else {
        s
    }
}

/// The file name of a program. Where backslashes separate names, the name of a share
/// or a device counts as a name like others.
pub open spec fn program_name(s: Text, rule: PathRule) -> Option<Text> {
    match rule {
        PathRule::Unix => file_name(s),
        PathRule::Windows => file_name(without_drive(replaced(s, '\\', '/'))),
    }
}

/// The file name of a program.
pub fn program_name_of(path: &str, rule: PathRule) -> (r: Option<String>)
    ensures
        opt_text(r) == program_name(path@, rule),
{
    match rule {
        PathRule::Unix => file_name_of(path),
        PathRule::Windows => {
            let slashed = replace_char(path, '\\', '/');
            let chars = chars_of(slashed.as_str());
            let n = chars.len();
            if n >= 2 && (('a' <= chars[0] && chars[0] <= 'z') || ('A' <= chars[0] && chars[0]
                <= 'Z')) && chars[1] == ':' {
                let rest = string_of(&chars, 2, n);
                assert(rest@ =~= slashed@.skip(2));
                file_name_of(rest.as_str())
            } else {
                file_name_of(slashed.as_str())
            }
        },
    }
}

/// `Path::file_stem`.
pub fn file_stem_of(path: &str) -> (r: Option<String>)
    ensures
        match r {
            Some(stem) => file_stem(path@) == Some(stem@),
            None => file_stem(path@) is None,
        },
{
    let chars = chars_of(path);
    match name_span(&chars) {
        Some((start, dot, _end)) => Some(string_of(&chars, start, dot)),
        None => None,
    }
}

/// `Path::extension`.
pub fn extension_of(path: &str) -> (r: Option<String>)
    ensures
        match r {
            Some(ext) => extension(path@) == Some(ext@),
            None => extension(path@) is None,
        },
{
    let chars = chars_of(path);
    match name_span(&chars) {
        Some((_start, dot, end)) => if dot < end {
            Some(string_of(&chars, dot + 1, end))
        } else {
            None
        },
        None => None,
    }
}

/// Whether a path has the extension `ext`.
pub fn has_extension(path: &str, ext: &str) -> (r: bool)
    ensures
        r == (extension(path@) == Some(ext@)),
{
    match extension_of(path) {
        Some(e) => same_text(e.as_str(), ext),
        None => false,
    }
}

/// `Path::parent`: the text up to the end of the component before the last one.
/// The root and the empty path have none.
pub open spec fn parent(s: Text) -> Option<Text> {
    let p = spans(s);
    if p.len() == 0 || (p.len() == 1 && is_rooted(s)) {
        None
    } else if p.len() == 1 {
        Some(Seq::empty())
    } else {
        Some(s.take(p[p.len() - 2].1))
    }
}

/// `Path::parent`.
pub fn parent_of(path: &str) -> (r: Option<String>)
    ensures
        match r {
            Some(p) => parent(path@) == Some(p@),
            None => parent(path@) is None,
        },
{
    let chars = chars_of(path);
    let list = spans_of(&chars);
    assert(list@.len() == spans(path@).len());
    if list.len() == 0 || (list.len() == 1 && chars[0] == '/') {
        return None;
    }
    if list.len() == 1 {
        return Some(String::new());
    }
    let end = list[list.len() - 2].1;
    assert(spans(path@)[list@.len() - 2].1 == end);
    let r = string_of(&chars, 0, end);
    assert(r@ =~= path@.take(end as int));
    Some(r)
}

/// `Path::strip_prefix`: where the components of `base` lead those of `s`, the text
/// from the first to the last of the others.
pub open spec fn stripped(s: Text, base: Text) -> Option<Text> {
    let k = components(base).len() as int;
    let p = spans(s);
    if components(base).is_prefix_of(components(s)) {
        if k == p.len() {
            Some(Seq::empty())
        } else {
            Some(s.subrange(p[k].0, p.last().1))
        }
    } else {
        None
    }
}

/// `Path::strip_prefix`.
pub fn strip_prefix(path: &str, base: &str) -> (r: Option<String>)
    ensures
        match r {
            Some(p) => stripped(path@, base@) == Some(p@),
            None => stripped(path@, base@) is None,
        },
{
    let chars = chars_of(path);
    let list = spans_of(&chars);
    let mine = components_of(path);
    let lead = components_of(base);
    assert(list@.len() == spans(path@).len());
    assert(mine@.len() == texts(mine@).len());
    assert(lead@.len() == texts(lead@).len());
    if lead.len() > mine.len() {
        return None;
    }
    let mut k: usize = 0;
    while k < lead.len()
        invariant
            k <= lead@.len() <= mine@.len(),
            texts(mine@) == components(path@),
            texts(lead@) == components(base@),
            forall|j: int| 0 <= j < k ==> texts(mine@)[j] == texts(lead@)[j],
        decreases lead@.len() - k,
    {
        if !same_text(mine[k].as_str(), lead[k].as_str()) {
            proof {
                assert(texts(mine@)[k as int] != texts(lead@)[k as int]);
                if components(base@).is_prefix_of(components(path@)) {
                    assert(components(path@).subrange(0, components(base@).len() as int)[k as int]
                        == components(base@)[k as int]);
                }
            }
            return None;
        }
        k = k + 1;
    }
    assert(components(base@).is_prefix_of(components(path@)));
    if k == list.len() {
        Some(String::new())
    } else {
        let from = list[k].0;
        let to = list[list.len() - 1].1;
        assert(spans(path@)[k as int].0 == from);
        assert(spans(path@).last().1 == to);
        assert(list@[k as int].0 < list@[k as int].1);
        if k < list.len() - 1 {
            assert(list@[k as int].1 <= list@[list@.len() - 1].0);
        }
        Some(string_of(&chars, from, to))
    }
}

/// `path.strip_prefix(base).unwrap_or(path)`.
pub open spec fn stripped_or_whole(s: Text, base: Text) -> Text {
    match stripped(s, base) {
        Some(p) => p,
        None => s,
    }
}

/// The path below `base`, or the whole path where it is not below it.
pub fn strip_prefix_or_whole(path: &str, base: &str) -> (r: String)
    ensures
        r@ == stripped_or_whole(path@, base@),
{
    match strip_prefix(path, base) {
        Some(p) => p,
        None => path.to_owned(),
    }
}

/// `Path::with_extension`.
pub open spec fn with_ext(s: Text, ext: Text) -> Text {
    match file_stem(s) {
        Some(stem) => {
            let kept = s.take(spans(s).last().0 + stem.len());
            if ext.len() > 0 {
                kept.push('.') + ext
            } else {
                kept
            }
        },
        None => s,
    }
}

/// `Path::with_extension`.
pub fn with_extension(path: &str, ext: &str) -> (r: String)
    ensures
        r@ == with_ext(path@, ext@),
{
    let chars = chars_of(path);
    match name_span(&chars) {
        Some((start, dot, _end)) => {
            let mut r = string_of(&chars, 0, dot);
            assert(r@ =~= path@.take(spans(path@).last().0 + (dot - start)));
            if !ext.is_empty() {
                r.push('.');
                r.append(ext);
            }
            r
        },
        None => path.to_owned(),
    }
}

/// `Path::with_file_name`.
pub open spec fn with_name(s: Text, name: Text) -> Text {
    match (file_name(s), parent(s)) {
        (Some(_), Some(dir)) => joined(dir, name),
        _ => joined(s, name),
    }
}

/// `Path::with_file_name`.
pub fn with_file_name(path: &str, name: &str) -> (r: String)
    ensures
        r@ == with_name(path@, name@),
{
    match (file_name_of(path), parent_of(path)) {
        (Some(_), Some(dir)) => join_path(dir.as_str(), name),
        _ => join_path(path, name),
    }
}

/// Whether two texts name the same path.
pub fn is_same_path(a: &str, b: &str) -> (r: bool)
    ensures
        r == same_path(a@, b@),
{
    let x = components_of(a);
    let y = components_of(b);
    same_list(&x, &y)
}

/// Whether two lists hold the same texts.
pub fn same_list(x: &Vec<String>, y: &Vec<String>) -> (r: bool)
    ensures
        r == (texts(x@) == texts(y@)),
{
    if x.len() != y.len() {
        assert(texts(x@).len() != texts(y@).len());
        return false;
    }
    let mut k: usize = 0;
    while k < x.len()
        invariant
            k <= x@.len() == y@.len(),
            forall|j: int| 0 <= j < k ==> texts(x@)[j] == texts(y@)[j],
        decreases x@.len() - k,
    {
        if !same_text(x[k].as_str(), y[k].as_str()) {
            assert(texts(x@)[k as int] != texts(y@)[k as int]);
            return false;
        }
        k = k + 1;
    }
    assert(texts(x@) =~= texts(y@));
    true
}

/// What a text is ordered by: the numbers of its characters.
pub open spec fn codes(s: Text) -> Part {
    s.map_values(|c: char| c as u32)
}

/// The numbers of the characters of a text, behind what `r` holds.
fn push_codes(r: &mut Vec<u32>, s: &str)
    ensures
        final(r)@ == old(r)@ + codes(s@),
{
    let chars = chars_of(s);
    let ghost start = r@;
    let mut i: usize = 0;
    assert(codes(s@).take(0) =~= Seq::empty());
    while i < chars.len()
        invariant
            i <= chars@.len(),
            chars@ == s@,
            r@ == start + codes(s@).take(i as int),
        decreases chars@.len() - i,
    {
        r.push(chars[i] as u32);
        assert(r@ =~= start + codes(s@).take(i + 1));
        i = i + 1;
    }
    assert(codes(s@).take(i as int) =~= codes(s@));
}

/// What a text is ordered by.
pub open spec fn text_key(s: Text) -> Key {
    seq![codes(s)]
}

/// What a text is ordered by.
pub fn text_key_of(s: &str) -> (r: Vec<Vec<u32>>)
    ensures
        key_view(r@) == text_key(s@),
{
    let mut part: Vec<u32> = Vec::new();
    push_codes(&mut part, s);
    assert(part@ =~= codes(s@));
    let mut r: Vec<Vec<u32>> = Vec::new();
    r.push(part);
    assert(key_view(r@) =~= text_key(s@));
    r
}

/// What a component is ordered by: the root comes first, next `.`, next `..`, and
/// then the names.
pub open spec fn part_key(c: Text) -> Part {
    if is_root_part(c) {
        seq![2u32]
    } else if is_here_part(c) {
        seq![3u32]
    } else if is_up_part(c) {
        seq![4u32]
    } else {
        seq![5u32] + codes(c)
    }
}

fn part_key_of(c: &str) -> (r: Vec<u32>)
    ensures
        r@ == part_key(c@),
{
    let chars = chars_of(c);
    let mut r: Vec<u32> = Vec::new();
    if chars.len() == 1 && chars[0] == '/' {
        r.push(2);
    } else if chars.len() == 1 && chars[0] == '.' {
        r.push(3);
    } else if chars.len() == 2 && chars[0] == '.' && chars[1] == '.' {
        r.push(4);
    } else {
        r.push(5);
        assert(r@ =~= seq![5u32]);
        push_codes(&mut r, c);
    }
    assert(r@ =~= part_key(c@));
    r
}

/// What a path is ordered by: its components, from the first to the last.
pub open spec fn path_key(s: Text) -> Key {
    components(s).map_values(|c: Text| part_key(c))
}

/// What a path is ordered by.
pub fn path_key_of(path: &str) -> (r: Vec<Vec<u32>>)
    ensures
        key_view(r@) == path_key(path@),
{
    let parts = components_of(path);
    let mut r: Vec<Vec<u32>> = Vec::new();
    let mut i: usize = 0;
    while i < parts.len()
        invariant
            i <= parts@.len(),
            texts(parts@) == components(path@),
            key_view(r@) == path_key(path@).take(i as int),
        decreases parts@.len() - i,
    {
        let part = part_key_of(parts[i].as_str());
        assert(texts(parts@)[i as int] == parts@[i as int]@);
        proof {
            lemma_key_push(r@, part);
            assert(path_key(path@)[i as int] == part@);
            assert(path_key(path@).take(i + 1) =~= path_key(path@).take(i as int).push(part@));
        }
        r.push(part);
        i = i + 1;
    }
    assert(texts(parts@).len() == parts@.len());
    assert(key_view(r@) =~= path_key(path@));
    r
}

proof fn lemma_code(a: char, b: char)
    ensures
        a as u32 == b as u32 ==> a == b,
{
}

/// Texts with the same code points are the same.
pub proof fn lemma_codes(a: Text, b: Text)
    requires
        codes(a) == codes(b),
    ensures
        a == b,
{
    assert(a.len() == codes(a).len() && b.len() == codes(b).len());
    assert forall|i: int| 0 <= i < a.len() implies a[i] == b[i] by {
        assert(codes(a)[i] == codes(b)[i]);
        assert(codes(a)[i] == a[i] as u32);
        assert(codes(b)[i] == b[i] as u32);
        lemma_code(a[i], b[i]);
    }
    assert(a =~= b);
}

proof fn lemma_part_rank(c: Text)
    ensures
        is_root_part(c) <==> part_key(c)[0] == 2,
        is_here_part(c) <==> part_key(c)[0] == 3,
        is_up_part(c) <==> part_key(c)[0] == 4,
        is_name_part(c) ==> part_key(c).skip(1) == codes(c),
{
    if is_name_part(c) {
        assert(part_key(c)[0] == 5);
        assert(part_key(c).skip(1) =~= codes(c));
    } else if is_root_part(c) {
        assert(part_key(c)[0] == 2);
    } else if is_here_part(c) {
        assert(part_key(c)[0] == 3);
    } else {
        assert(part_key(c)[0] == 4);
    }
}

proof fn lemma_part_key(a: Text, b: Text)
    requires
        part_key(a) == part_key(b),
    ensures
        a == b,
{
    lemma_part_rank(a);
    lemma_part_rank(b);
    if is_name_part(a) {
        lemma_codes(a, b);
    } else {
        assert(a =~= b);
    }
}

/// Two texts are ordered alike exactly where they name the same path.
pub proof fn lemma_path_key(a: Text, b: Text)
    ensures
        path_key(a) == path_key(b) <==> same_path(a, b),
{
    let x = components(a);
    let y = components(b);
    if path_key(a) == path_key(b) {
        assert(x.len() == path_key(a).len() && y.len() == path_key(b).len());
        assert forall|i: int| 0 <= i < x.len() implies x[i] == y[i] by {
            assert(path_key(a)[i] == path_key(b)[i]);
            lemma_part_key(x[i], y[i]);
        }
        assert(x =~= y);
    }
}

/// What the paths of a list are ordered by.
pub open spec fn path_keys(list: Seq<Text>) -> Seq<Key> {
    list.map_values(|p: Text| path_key(p))
}

/// What the texts of a list are ordered by.
pub open spec fn text_keys(list: Seq<Text>) -> Seq<Key> {
    list.map_values(|p: Text| text_key(p))
}

/// The paths of a list in their order, each path once: `sort` and then `dedup`.
pub open spec fn sorted_paths(list: Seq<Text>) -> Seq<Text> {
    sorted_unique_by(list, path_keys(list))
}

/// The texts of a list in their order, each text once: what a `BTreeSet` holds.
pub open spec fn sorted_texts(list: Seq<Text>) -> Seq<Text> {
    sorted_unique_by(list, text_keys(list))
}

/// The strings at the given places.
pub fn pick_list(list: &Vec<String>, places: &Vec<usize>) -> (r: Vec<String>)
    requires
        forall|a: int| 0 <= a < places@.len() ==> #[trigger] places@[a] < list@.len(),
    ensures
        texts(r@) == pick(texts(list@), places_view(places@)),
{
    let ghost want = pick(texts(list@), places_view(places@));
    let mut r: Vec<String> = Vec::new();
    let mut i: usize = 0;
    assert(texts(r@) =~= want.take(0));
    while i < places.len()
        invariant
            i <= places@.len(),
            forall|a: int| 0 <= a < places@.len() ==> #[trigger] places@[a] < list@.len(),
            want == pick(texts(list@), places_view(places@)),
            texts(r@) == want.take(i as int),
        decreases places@.len() - i,
    {
        push_text(&mut r, list[places[i]].clone());
        assert(want[i as int] == list@[places@[i as int] as int]@);
        assert(texts(r@) =~= want.take(i + 1));
        i = i + 1;
    }
    assert(want.take(i as int) =~= want);
    r
}

/// The paths of a list in their order, each path once.
pub fn sort_paths(list: &Vec<String>) -> (r: Vec<String>)
    ensures
        texts(r@) == sorted_paths(texts(list@)),
{
    let mut keys: Vec<Vec<Vec<u32>>> = Vec::new();
    let ghost want = path_keys(texts(list@));
    let mut i: usize = 0;
    while i < list.len()
        invariant
            i <= list@.len(),
            want == path_keys(texts(list@)),
            keys_view(keys@) == want.take(i as int),
        decreases list@.len() - i,
    {
        let key = path_key_of(list[i].as_str());
        proof {
            lemma_keys_push(keys@, key);
            assert(want[i as int] == path_key(list@[i as int]@));
            assert(want.take(i + 1) =~= want.take(i as int).push(want[i as int]));
        }
        keys.push(key);
        i = i + 1;
    }
    assert(keys_view(keys@) =~= want);
    assert(keys@.len() == keys_view(keys@).len());
    let places = order_unique_by_keys(&keys);
    pick_list(list, &places)
}

/// The texts of a list in their order, each text once.
pub fn sort_texts(list: &Vec<String>) -> (r: Vec<String>)
    ensures
        texts(r@) == sorted_texts(texts(list@)),
{
    let mut keys: Vec<Vec<Vec<u32>>> = Vec::new();
    let ghost want = text_keys(texts(list@));
    let mut i: usize = 0;
    while i < list.len()
        invariant
            i <= list@.len(),
            want == text_keys(texts(list@)),
            keys_view(keys@) == want.take(i as int),
        decreases list@.len() - i,
    {
        let key = text_key_of(list[i].as_str());
        proof {
            lemma_keys_push(keys@, key);
            assert(want[i as int] == text_key(list@[i as int]@));
            assert(want.take(i + 1) =~= want.take(i as int).push(want[i as int]));
        }
        keys.push(key);
        i = i + 1;
    }
    assert(keys_view(keys@) =~= want);
    assert(keys@.len() == keys_view(keys@).len());
    let places = order_unique_by_keys(&keys);
    pick_list(list, &places)
}

/// Where a walk along components stands after one more component: a name goes
/// down, `.` stays, and `..` goes up. At the root `..` stays there; where a
/// relative path has nothing left to go up from, `..` is kept.
pub open spec fn walked(at: Seq<Text>, c: Text) -> Seq<Text> {
    if is_root_part(c) {
        seq![c]
    } else if is_here_part(c) {
        at
    } else if is_up_part(c) {
        if at.len() == 0 || is_up_part(at.last()) {
            at.push(c)
        } else if is_root_part(at.last()) {
            at
        } else {
            at.drop_last()
        }
    } else {
        at.push(c)
    }
}

/// Where a walk along all the components ends.
pub open spec fn walk_end(parts: Seq<Text>) -> Seq<Text>
    decreases parts.len(),
{
    if parts.len() == 0 {
        parts
    } else {
        walked(walk_end(parts.drop_last()), parts.last())
    }
}

/// The path made of components.
pub open spec fn path_text(parts: Seq<Text>) -> Text {
    if parts.len() > 0 && is_root_part(parts[0]) {
        parts[0] + join_texts(parts.skip(1), seq!['/'])
    } else {
        join_texts(parts, seq!['/'])
    }
}

/// A path without `.` and, as far as it can be told from its text, without `..`.
pub open spec fn normalized(s: Text) -> Text {
    path_text(walk_end(components(s)))
}

/// `cargo_util::paths::normalize_path` on a Unix host, where a slash separates names and
/// no prefix stands in front: the components are walked from the first to
/// the last, and the result is the path of where the walk ends.
#[verifier::external_body]
pub(crate) fn normalize_path(path: &str) -> (r: String)
    ensures
        r@ == normalized(path@),
{
    let p = cargo_util::paths::normalize_path(std::path::Path::new(path));
    p.to_string_lossy().into_owned()
}

/// What a walk can end with: the root, if at all, comes first, each `..` stands
/// before the names and behind no root, and there is no `.`.
pub open spec fn is_walk_end(parts: Seq<Text>) -> bool {
    &&& forall|i: int| 0 <= i < parts.len() ==> !is_here_part(#[trigger] parts[i])
    &&& forall|i: int| 1 <= i < parts.len() ==> !is_root_part(#[trigger] parts[i])
    &&& forall|i: int| #![trigger parts[i]]
        1 <= i < parts.len() && is_up_part(parts[i]) ==> is_up_part(parts[i - 1])
}

proof fn lemma_walk_end(parts: Seq<Text>)
    ensures
        is_walk_end(walk_end(parts)),
    decreases parts.len(),
{
    if parts.len() > 0 {
        lemma_walk_end(parts.drop_last());
    }
}

/// A walk along where a walk has ended ends there again.
pub proof fn lemma_walk_end_again(parts: Seq<Text>)
    requires
        is_walk_end(parts),
    ensures
        walk_end(parts) == parts,
    decreases parts.len(),
{
    if parts.len() > 0 {
        let front = parts.drop_last();
        assert forall|i: int| 0 <= i < front.len() implies #[trigger] front[i] == parts[i] by {}
        assert forall|i: int| #![trigger front[i]]
            1 <= i < front.len() && is_up_part(front[i]) implies is_up_part(front[i - 1]) by {
            assert(parts[i] == front[i]);
        }
        lemma_walk_end_again(front);
        let c = parts.last();
        assert(c == parts[parts.len() - 1]);
        assert(front.push(c) =~= parts);
        if parts.len() == 1 {
            assert(front =~= Seq::empty());
            assert(seq![c] =~= parts);
        } else if is_up_part(c) {
            assert(parts[parts.len() - 2] == front.last());
        }
    }
}

/// What the components of a path are like: the root, if at all, comes first; any
/// other component is not empty and holds no separator.
pub open spec fn is_clean(parts: Seq<Text>) -> bool {
    forall|i: int| #![trigger parts[i]]
        0 <= i < parts.len() ==> if is_root_part(parts[i]) {
            i == 0
        } else {
            parts[i].len() > 0 && !parts[i].contains('/')
        }
}

proof fn lemma_parts_from(s: Text, i: int)
    requires
        0 <= i <= s.len(),
    ensures
        forall|k: int| #![trigger spans_from(s, i)[k]]
            0 <= k < spans_from(s, i).len() ==> {
                let p = spans_from(s, i)[k];
                0 <= p.0 < p.1 <= s.len() && !s.subrange(p.0, p.1).contains('/')
            },
    decreases s.len() - i,
{
    if i < s.len() {
        lemma_find_from(s, '/', i);
        let e = find_from(s, '/', i);
        assert(!s.subrange(i, e).contains('/'));
        let tail = if e < s.len() {
            spans_from(s, e + 1)
        } else {
            Seq::empty()
        };
        if e < s.len() {
            lemma_parts_from(s, e + 1);
        }
        let all = spans_from(s, i);
        let lead = all.len() - tail.len();
        assert forall|k: int| #![trigger all[k]] 0 <= k < all.len() implies {
            let p = all[k];
            0 <= p.0 < p.1 <= s.len() && !s.subrange(p.0, p.1).contains('/')
        } by {
            if k < lead {
                assert(all[k] == (i, e));
            } else {
                assert(all[k] == tail[k - lead]);
            }
        }
    }
}

proof fn lemma_components_clean(s: Text)
    ensures
        is_clean(components(s)),
{
    let from = if is_rooted(s) {
        1int
    } else {
        0int
    };
    lemma_parts_from(s, from);
    let parts = components(s);
    assert forall|i: int| #![trigger parts[i]] 0 <= i < parts.len() implies if is_root_part(
        parts[i],
    ) {
        i == 0
    } else {
        parts[i].len() > 0 && !parts[i].contains('/')
    } by {
        let p = spans(s)[i];
        assert(parts[i] == s.subrange(p.0, p.1));
        if is_rooted(s) && i == 0 {
            assert(is_root_part(parts[i]));
        } else {
            assert(p == spans_from(s, from)[i - from]);
            if is_root_part(parts[i]) {
                assert(parts[i].contains(parts[i][0]));
            }
        }
    }
}

proof fn lemma_walk_clean(parts: Seq<Text>)
    requires
        is_clean(parts),
    ensures
        is_clean(walk_end(parts)),
    decreases parts.len(),
{
    if parts.len() > 0 {
        let front = parts.drop_last();
        assert forall|i: int| 0 <= i < front.len() implies #[trigger] front[i] == parts[i] by {}
        lemma_walk_clean(front);
        assert(parts.last() == parts[parts.len() - 1]);
    }
}

proof fn lemma_join_front(list: Seq<Text>, sep: Text)
    requires
        list.len() >= 2,
    ensures
        join_texts(list, sep) == list[0] + sep + join_texts(list.skip(1), sep),
    decreases list.len(),
{
    let front = list.drop_last();
    if list.len() == 2 {
        assert(join_texts(front, sep) == list[0]);
        assert(join_texts(list.skip(1), sep) == list[1]);
    } else {
        lemma_join_front(front, sep);
        assert(front[0] == list[0]);
        assert(front.skip(1) =~= list.skip(1).drop_last());
        assert(list.skip(1).last() == list.last());
        assert(join_texts(list, sep) =~= list[0] + sep + join_texts(list.skip(1), sep));
    }
}

proof fn lemma_find_end(s: Text, c: char, i: int, e: int)
    requires
        0 <= i <= e <= s.len(),
        forall|k: int| i <= k < e ==> s[k] != c,
        e < s.len() ==> s[e] == c,
    ensures
        find_from(s, c, i) == e,
    decreases e - i,
{
    if i < e {
        lemma_find_end(s, c, i + 1, e);
    }
}

proof fn lemma_joined_parts(before: Text, names: Seq<Text>)
    requires
        forall|i: int| #![trigger names[i]]
            0 <= i < names.len() ==> names[i].len() > 0 && !names[i].contains('/')
                && !is_here_part(names[i]),
    ensures
        parts_from(before + join_texts(names, seq!['/']), before.len() as int) == names,
    decreases names.len(),
{
    let sep = seq!['/'];
    let s = before + join_texts(names, sep);
    let i = before.len() as int;
    if names.len() == 0 {
        assert(spans_from(s, i) =~= Seq::empty());
        assert(parts_from(s, i) =~= names);
    } else {
        let name = names[0];
        let e = i + name.len();
        if names.len() == 1 {
            assert(s =~= before + name);
        } else {
            lemma_join_front(names, sep);
            assert(s =~= before + name + sep + join_texts(names.skip(1), sep));
            assert(s[e] == '/');
        }
        assert(s.subrange(i, e) =~= name);
        assert forall|k: int| i <= k < e implies s[k] != '/' by {
            assert(s[k] == name[k - i]);
            assert(name.contains(name[k - i]));
        }
        lemma_find_end(s, '/', i, e);
        assert(s[i] == name[0]);
        assert(is_component(s, i, e));
        let rest = names.skip(1);
        if names.len() == 1 {
            assert(spans_from(s, i) =~= seq![(i, e)]);
            assert(parts_from(s, i) =~= names);
        } else {
            let further = before + name + sep;
            assert forall|k: int| #![trigger rest[k]] 0 <= k < rest.len() implies rest[k].len() > 0
                && !rest[k].contains('/') && !is_here_part(rest[k]) by {
                assert(rest[k] == names[k + 1]);
            }
            lemma_joined_parts(further, rest);
            assert(further + join_texts(rest, sep) =~= s);
            assert(further.len() == e + 1);
            let tail = spans_from(s, e + 1);
            assert(spans_from(s, i) =~= seq![(i, e)] + tail);
            assert(parts_from(s, e + 1) == rest);
            assert forall|k: int| 0 <= k < names.len() implies parts_from(s, i)[k] == #[trigger] names[k] by {
                if k > 0 {
                    assert(parts_from(s, e + 1)[k - 1] == rest[k - 1]);
                    assert(spans_from(s, i)[k] == tail[k - 1]);
                }
            }
            assert(tail.len() == rest.len()) by {
                assert(parts_from(s, e + 1).len() == tail.len());
            }
            assert(parts_from(s, i) =~= names);
        }
    }
}

/// The components of a path that is made of components are those.
pub proof fn lemma_text_components(parts: Seq<Text>)
    requires
        is_clean(parts),
        is_walk_end(parts),
    ensures
        components(path_text(parts)) == parts,
{
    let sep = seq!['/'];
    let s = path_text(parts);
    if parts.len() > 0 && is_root_part(parts[0]) {
        let names = parts.skip(1);
        assert forall|i: int| #![trigger names[i]] 0 <= i < names.len() implies names[i].len() > 0
            && !names[i].contains('/') && !is_here_part(names[i]) by {
            assert(names[i] == parts[i + 1]);
        }
        lemma_joined_parts(parts[0], names);
        assert(is_rooted(s));
        assert(parts_from(s, 1) == names);
        assert(parts_from(s, 1).len() == spans_from(s, 1).len());
        assert forall|k: int| 0 <= k < parts.len() implies components(s)[k] == #[trigger] parts[k] by {
            if k == 0 {
                assert(s.subrange(0, 1) =~= parts[0]);
            } else {
                assert(parts_from(s, 1)[k - 1] == names[k - 1]);
                assert(spans(s)[k] == spans_from(s, 1)[k - 1]);
            }
        }
        assert(components(s) =~= parts);
    } else {
        let empty = Seq::<char>::empty();
        assert(empty + s =~= s);
        lemma_joined_parts(empty, parts);
        if parts.len() > 0 {
            if parts.len() == 1 {
                assert(s[0] == parts[0][0]);
            } else {
                lemma_join_front(parts, sep);
                assert(s[0] == parts[0][0]);
            }
            assert(parts[0].contains(parts[0][0]));
        }
        assert(!is_rooted(s));
        assert(components(s) =~= parts_from(s, 0));
    }
}

/// A normalized path is normalized already: doing it twice is doing it once.
pub proof fn lemma_normalized_again(s: Text)
    ensures
        normalized(normalized(s)) == normalized(s),
{
    let parts = components(s);
    let end = walk_end(parts);
    lemma_components_clean(s);
    lemma_walk_clean(parts);
    lemma_walk_end(parts);
    lemma_text_components(end);
    lemma_walk_end_again(end);
}

/// A path without `.` and `..` names the same file once it is normalized.
pub proof fn lemma_plain_path_kept(s: Text)
    requires
        forall|i: int|
            0 <= i < components(s).len() ==> !is_here_part(#[trigger] components(s)[i])
                && !is_up_part(components(s)[i]),
    ensures
        same_path(normalized(s), s),
{
    let parts = components(s);
    lemma_components_clean(s);
    assert forall|i: int| 1 <= i < parts.len() implies !is_root_part(#[trigger] parts[i]) by {}
    assert(is_walk_end(parts));
    lemma_walk_end_again(parts);
    lemma_text_components(parts);
}

/// To go down to a name and up again is to stay, as it is to go to `.`.
pub proof fn lemma_down_and_up(parts: Seq<Text>, name: Text, up: Text, here: Text)
    requires
        is_name_part(name),
        is_up_part(up),
        is_here_part(here),
    ensures
        walk_end(parts.push(name).push(up)) == walk_end(parts),
        walk_end(parts.push(here)) == walk_end(parts),
{
    let down = parts.push(name);
    assert(down.push(up).drop_last() =~= down);
    assert(down.drop_last() =~= parts);
    assert(parts.push(here).drop_last() =~= parts);
    let at = walk_end(parts);
    assert(walk_end(down) == at.push(name));
    assert(at.push(name).last() == name);
    assert(at.push(name).drop_last() =~= at);
    assert(!is_up_part(name) && !is_root_part(name));
    assert(walked(at.push(name), up) == at);
    assert(walk_end(down.push(up)) == walked(walk_end(down), up));
}

/// A list of paths holds the path.
pub open spec fn holds_path(list: Seq<Text>, path: Text) -> bool {
    exists|i: int| 0 <= i < list.len() && same_path(#[trigger] list[i], path)
}

/// Sorted paths are in strictly rising order, so none comes twice; they name the
/// paths of the list and no others.
pub proof fn lemma_sorted_paths(list: Seq<Text>)
    ensures
        forall|i: int, j: int|
            0 <= i < j < sorted_paths(list).len() ==> key_less(
                path_key(#[trigger] sorted_paths(list)[i]),
                path_key(#[trigger] sorted_paths(list)[j]),
            ) && !same_path(sorted_paths(list)[i], sorted_paths(list)[j]),
        forall|i: int|
            0 <= i < sorted_paths(list).len() ==> list.contains(#[trigger] sorted_paths(list)[i]),
        forall|k: int| 0 <= k < list.len() ==> holds_path(sorted_paths(list), #[trigger] list[k]),
{
    let keys = path_keys(list);
    let places = without_repeats(keys, stable_order(keys));
    let r = sorted_paths(list);
    lemma_unique_order(keys);
    assert forall|i: int| 0 <= i < r.len() implies list.contains(#[trigger] r[i]) by {
        assert(r[i] == list[places[i]]);
    }
    assert forall|i: int, j: int| 0 <= i < j < r.len() implies key_less(
        path_key(#[trigger] r[i]),
        path_key(#[trigger] r[j]),
    ) && !same_path(r[i], r[j]) by {
        assert(r[i] == list[places[i]] && r[j] == list[places[j]]);
        assert(keys[places[i]] == path_key(r[i]) && keys[places[j]] == path_key(r[j]));
        lemma_key_total(path_key(r[i]), path_key(r[j]));
        lemma_path_key(r[i], r[j]);
    }
    assert forall|k: int| 0 <= k < list.len() implies holds_path(r, #[trigger] list[k]) by {
        assert(is_covered(keys, places, k));
        let a = choose|a: int|
            0 <= a < places.len() && keys[#[trigger] places[a]] == keys[k] && places[a] <= k;
        assert(r[a] == list[places[a]]);
        assert(keys[k] == path_key(list[k]));
        lemma_path_key(r[a], list[k]);
    }
}

} // verus!
