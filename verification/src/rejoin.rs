//! A path that was cut into a directory and the rest is the same path when the two
//! are put together again.
use vstd::prelude::*;

use crate::fingerprint::{recorded_path, DepInfoPathType};
use crate::path::{components, is_component, is_rooted, joined, lemma_spans, same_path, spans};
use crate::path::{parts_from, spans_from, stripped};
use crate::text::{find_from, lemma_find_from, lemma_find_not_back, Text};

verus! {

/// The component that begins at position `i`, if it is one, and those behind it.
proof fn lemma_parts_step(s: Text, i: int)
    requires
        0 <= i < s.len(),
    ensures
        ({
            let e = find_from(s, '/', i);
            let rest = if e < s.len() {
                parts_from(s, e + 1)
            } else {
                Seq::empty()
            };
            &&& i <= e <= s.len()
            &&& parts_from(s, i) == if is_component(s, i, e) {
                seq![s.subrange(i, e)] + rest
            } else {
                rest
            }
        }),
{
    lemma_find_from(s, '/', i);
    let e = find_from(s, '/', i);
    let rest = if e < s.len() {
        parts_from(s, e + 1)
    } else {
        Seq::empty()
    };
    if is_component(s, i, e) {
        assert(parts_from(s, i) =~= seq![s.subrange(i, e)] + rest);
    } else {
        assert(parts_from(s, i) =~= rest);
    }
}

proof fn lemma_find_in(s: Text, t: Text, c: char, i: int, o: int, n: int)
    requires
        0 <= i <= n,
        n <= s.len(),
        o >= 0,
        o + n <= t.len(),
        forall|k: int| i <= k < n ==> s[k] == t[o + k],
        find_from(s, c, i) < n || (n == s.len() && (o + n == t.len() || t[o + n] == c)),
    ensures
        find_from(t, c, o + i) == o + find_from(s, c, i),
    decreases n - i,
{
    lemma_find_not_back(s, c, i);
    if i < n {
        assert(s[i] == t[o + i]);
        if s[i] != c {
            lemma_find_in(s, t, c, i + 1, o, n);
        }
    }
}

/// The components of a text are the same where it stands behind another one.
proof fn lemma_parts_behind(pre: Text, x: Text, i: int)
    requires
        0 <= i <= x.len(),
        i > 0 || pre.len() == 0 || x.len() == 0 || !(x[0] == '.' && (x.len() == 1 || x[1] == '/')),
    ensures
        parts_from(pre + x, pre.len() + i) == parts_from(x, i),
    decreases x.len() - i,
{
    let t = pre + x;
    let o = pre.len() as int;
    if i < x.len() {
        lemma_parts_step(x, i);
        lemma_parts_step(t, o + i);
        let e = find_from(x, '/', i);
        lemma_find_from(x, '/', i);
        lemma_find_in(x, t, '/', i, o, x.len() as int);
        assert(find_from(t, '/', o + i) == o + e);
        assert(t[o + i] == x[i]);
        assert(t.subrange(o + i, o + e) =~= x.subrange(i, e));
        if e < x.len() {
            lemma_parts_behind(pre, x, e + 1);
        }
        assert(is_component(t, o + i, o + e) == is_component(x, i, e));
    } else {
        assert(parts_from(t, o + i) =~= Seq::empty());
        assert(parts_from(x, i) =~= Seq::empty());
    }
}

/// A text that ends in a separator lends its components to what stands behind it.
proof fn lemma_parts_before(b: Text, x: Text, i: int)
    requires
        0 <= i <= b.len(),
        b.len() > 0,
        b.last() == '/',
    ensures
        parts_from(b + x, i) == parts_from(b, i) + parts_from(b + x, b.len() as int),
    decreases b.len() - i,
{
    let t = b + x;
    if i < b.len() {
        lemma_parts_step(b, i);
        lemma_parts_step(t, i);
        let e = find_from(b, '/', i);
        lemma_find_from(b, '/', i);
        assert(e < b.len()) by {
            if e == b.len() {
                assert(b[b.len() - 1] != '/');
            }
        }
        lemma_find_in(b, t, '/', i, 0, b.len() as int);
        assert(t[i] == b[i]);
        assert(t.subrange(i, e) =~= b.subrange(i, e));
        lemma_parts_before(b, x, e + 1);
        let rest = parts_from(b, e + 1);
        let tail = parts_from(t, b.len() as int);
        assert(is_component(t, i, e) == is_component(b, i, e));
        assert(seq![b.subrange(i, e)] + (rest + tail) =~= (seq![b.subrange(i, e)] + rest) + tail);
    } else {
        assert(parts_from(b, i) =~= Seq::empty());
        assert(parts_from(t, i) =~= Seq::<Text>::empty() + parts_from(t, i));
    }
}

/// A separator at the end adds no component.
proof fn lemma_parts_slash(b: Text, i: int)
    requires
        0 <= i <= b.len(),
    ensures
        parts_from(b.push('/'), i) == parts_from(b, i),
    decreases b.len() - i,
{
    let t = b.push('/');
    if i < b.len() {
        lemma_parts_step(b, i);
        lemma_parts_step(t, i);
        let e = find_from(b, '/', i);
        lemma_find_from(b, '/', i);
        lemma_find_in(b, t, '/', i, 0, b.len() as int);
        assert(t[i] == b[i]);
        assert(t.subrange(i, e) =~= b.subrange(i, e));
        assert(is_component(t, i, e) == is_component(b, i, e));
        if e < b.len() {
            lemma_parts_slash(b, e + 1);
        } else {
            assert(parts_from(t, e + 1) =~= Seq::empty());
        }
    } else {
        lemma_parts_step(t, i);
        lemma_find_from(t, '/', i);
        assert(t[i] == '/');
        assert(parts_from(t, i + 1) =~= Seq::empty());
        assert(parts_from(b, i) =~= Seq::empty());
    }
}

/// Where the components begin.
spec fn start_of(s: Text) -> int {
    if is_rooted(s) {
        1
    } else {
        0
    }
}

proof fn lemma_components(s: Text)
    ensures
        components(s) == if is_rooted(s) {
            seq![s.subrange(0, 1)] + parts_from(s, 1)
        } else {
            parts_from(s, 0)
        },
{
    if is_rooted(s) {
        assert(components(s) =~= seq![s.subrange(0, 1)] + parts_from(s, 1));
    } else {
        assert(components(s) =~= parts_from(s, 0));
    }
}

/// The components of two texts that are put together are those of the first and then
/// those of the second, where the second is relative and does not begin with `.`.
proof fn lemma_joined_components(base: Text, rel: Text)
    requires
        !is_rooted(rel),
        base.len() == 0 || rel.len() == 0 || !(rel[0] == '.' && (rel.len() == 1 || rel[1] == '/')),
    ensures
        components(joined(base, rel)) == components(base) + components(rel),
{
    lemma_components(rel);
    lemma_components(base);
    let s = joined(base, rel);
    lemma_components(s);
    if base.len() == 0 {
        assert(s =~= rel);
        assert(parts_from(base, 0) =~= Seq::empty());
        assert(components(base) + components(rel) =~= components(rel));
    } else {
        let b = if base.last() != '/' {
            base.push('/')
        } else {
            base
        };
        assert(s == b + rel);
        assert(is_rooted(s) == is_rooted(base));
        let from = start_of(base);
        if base.last() != '/' {
            lemma_parts_slash(base, from);
        }
        assert(parts_from(b, from) == parts_from(base, from));
        assert(b.last() == '/');
        lemma_parts_before(b, rel, from);
        lemma_parts_behind(b, rel, 0);
        if is_rooted(base) {
            assert(s.subrange(0, 1) =~= base.subrange(0, 1));
        }
        assert(components(s) =~= components(base) + components(rel));
    }
}

/// Where the components stand from one of them on.
proof fn lemma_spans_at(s: Text, i: int, j: int)
    requires
        0 <= i <= s.len(),
        0 <= j < spans_from(s, i).len(),
    ensures
        ({
            let p = spans_from(s, i)[j];
            &&& i <= p.0 < p.1 <= s.len()
            &&& is_component(s, p.0, p.1)
            &&& find_from(s, '/', p.0) == p.1
            &&& spans_from(s, p.0) == spans_from(s, i).skip(j)
        }),
    decreases s.len() - i,
{
    if i < s.len() {
        lemma_find_from(s, '/', i);
        let e = find_from(s, '/', i);
        let all = spans_from(s, i);
        if is_component(s, i, e) {
            if j == 0 {
                assert(all.skip(0) =~= all);
            } else {
                let rest = spans_from(s, e + 1);
                assert(all == seq![(i, e)] + rest);
                assert(all[j] == rest[j - 1]);
                lemma_spans_at(s, e + 1, j - 1);
                assert(all.skip(j) =~= rest.skip(j - 1));
            }
        } else {
            lemma_spans_at(s, e + 1, j);
            assert(all =~= spans_from(s, e + 1));
        }
    }
}

/// What stands behind the last component can be cut off.
proof fn lemma_parts_cut(s: Text, i: int, z: int)
    requires
        0 <= i <= z <= s.len(),
        z < s.len() ==> s[z] == '/',
        forall|k: int|
            0 <= k < spans_from(s, i).len() ==> (#[trigger] spans_from(s, i)[k]).1 <= z,
    ensures
        parts_from(s.take(z), i) == parts_from(s, i),
    decreases s.len() - i,
{
    let t = s.take(z);
    if i < z {
        lemma_parts_step(s, i);
        lemma_parts_step(t, i);
        lemma_find_from(s, '/', i);
        let e = find_from(s, '/', i);
        assert(e <= z) by {
            if e > z {
                assert(s[z] != '/');
            }
        }
        lemma_find_from(t, '/', i);
        let f = find_from(t, '/', i);
        assert(f == e) by {
            if f < e {
                assert(s[f] == t[f]);
            }
            if e < f {
                assert(t[e] == s[e]);
            }
        }
        assert(t[i] == s[i]);
        assert(t.subrange(i, e) =~= s.subrange(i, e));
        assert(is_component(t, i, e) == is_component(s, i, e));
        if e < s.len() {
            let all = spans_from(s, i);
            let rest = spans_from(s, e + 1);
            assert forall|k: int| 0 <= k < rest.len() implies (#[trigger] rest[k]).1 <= z by {
                assert(all[all.len() - rest.len() + k] == rest[k]);
            }
            if e < z {
                lemma_parts_cut(s, e + 1, z);
            } else {
                if rest.len() > 0 {
                    lemma_spans_at(s, e + 1, 0);
                    assert(rest[0].1 <= z);
                }
                assert(parts_from(s, e + 1) =~= Seq::empty());
            }
        }
    } else {
        let all = spans_from(s, i);
        if all.len() > 0 {
            lemma_spans_at(s, i, 0);
            assert(all[0].1 <= z);
        }
        assert(parts_from(s, i) =~= Seq::empty());
        assert(parts_from(t, i) =~= Seq::empty());
    }
}

/// The components of what is left are the components that are left.
proof fn lemma_left_components(s: Text, k: int)
    requires
        0 < k < spans(s).len(),
    ensures
        ({
            let rel = s.subrange(spans(s)[k].0, spans(s).last().1);
            &&& rel.len() > 0
            &&& !is_rooted(rel)
            &&& !(rel[0] == '.' && (rel.len() == 1 || rel[1] == '/'))
            &&& components(rel) == components(s).skip(k)
        }),
{
    let from = start_of(s);
    let p = spans(s);
    let all = spans_from(s, from);
    let j = k - from;
    let m = all.len() - 1;
    assert(p[k] == all[j]);
    assert(p.last() == all[m]);
    lemma_spans_at(s, from, j);
    lemma_spans_at(s, from, m);
    let a = p[k].0;
    let e = p[k].1;
    let z = p.last().1;
    lemma_spans(s);
    assert(a > 0);
    assert(e <= z) by {
        if j < m {
            assert(p[k].1 <= p[p.len() - 1].0);
        }
    }
    lemma_find_from(s, '/', p.last().0);
    let tail = spans_from(s, a);
    assert(tail == all.skip(j));
    assert forall|q: int| 0 <= q < tail.len() implies (#[trigger] tail[q]).1 <= z by {
        assert(tail[q] == all[j + q]);
        lemma_spans_at(s, from, j + q);
        assert(p[k + q] == all[j + q]);
        if k + q < p.len() - 1 {
            assert(p[k + q].1 <= p[p.len() - 1].0);
        }
    }
    lemma_parts_cut(s, a, z);
    let rel = s.subrange(a, z);
    let pre = s.take(a);
    assert(pre + rel =~= s.take(z));
    lemma_find_from(s, '/', a);
    assert(rel[0] == s[a]);
    assert(s[a] != '/');
    if rel[0] == '.' && (rel.len() == 1 || rel[1] == '/') {
        if rel.len() == 1 {
            assert(e == a + 1);
        } else {
            assert(s[a + 1] == '/');
            assert(e == a + 1) by {
                if e > a + 1 {
                    assert(s[a + 1] != '/');
                }
            }
        }
        assert(false);
    }
    lemma_parts_behind(pre, rel, 0);
    lemma_components(rel);
    assert(components(rel) == parts_from(s, a));
    assert forall|q: int| 0 <= q < tail.len() implies parts_from(s, a)[q] == #[trigger] components(
        s,
    ).skip(k)[q] by {
        assert(tail[q] == all[j + q]);
        assert(p[k + q] == all[j + q]);
    }
    assert(components(s).skip(k).len() == tail.len());
    assert(components(rel) =~= components(s).skip(k));
}

/// Only the empty text has no components.
proof fn lemma_no_components(s: Text)
    requires
        components(s).len() == 0,
    ensures
        s.len() == 0,
{
    lemma_components(s);
    if s.len() > 0 && !is_rooted(s) {
        lemma_parts_step(s, 0);
        lemma_find_from(s, '/', 0);
    }
}

/// The components of a text up to the end of its last component are its components.
proof fn lemma_all_left(s: Text)
    requires
        spans(s).len() > 0,
    ensures
        components(s.subrange(spans(s)[0].0, spans(s).last().1)) == components(s),
{
    let from = start_of(s);
    let p = spans(s);
    let all = spans_from(s, from);
    let z = p.last().1;
    lemma_spans(s);
    assert(p[0].0 == 0) by {
        if !is_rooted(s) {
            if s.len() > 0 {
                lemma_find_from(s, '/', 0);
                assert(is_component(s, 0, find_from(s, '/', 0)));
            }
        }
    }
    assert(from <= z <= s.len());
    assert forall|q: int| 0 <= q < all.len() implies (#[trigger] all[q]).1 <= z by {
        assert(p[from + q] == all[q]);
        if from + q < p.len() - 1 {
            assert(p[from + q].1 <= p[p.len() - 1].0);
        }
    }
    if z < s.len() {
        if all.len() > 0 {
            lemma_spans_at(s, from, all.len() - 1);
            lemma_find_from(s, '/', p.last().0);
            assert(s[z] == '/');
            lemma_parts_cut(s, from, z);
        } else {
            assert(parts_from(s, from) =~= Seq::empty());
            assert(parts_from(s.take(z), from) =~= Seq::empty());
        }
    } else {
        assert(s.take(z) =~= s);
    }
    let rest = s.subrange(p[0].0, z);
    assert(rest =~= s.take(z));
    assert(is_rooted(rest) == is_rooted(s)) by {
        assert(rest[0] == s[0]);
    }
    lemma_components(s);
    lemma_components(rest);
    if is_rooted(s) {
        assert(rest.subrange(0, 1) =~= s.subrange(0, 1));
    }
}

/// What is left of a path behind a directory names the path again when it is joined
/// to the directory.
pub proof fn lemma_stripped_rejoins(s: Text, base: Text)
    ensures
        stripped(s, base) matches Some(rest) ==> same_path(joined(base, rest), s),
{
    let k = components(base).len() as int;
    let p = spans(s);
    match stripped(s, base) {
        None => {},
        Some(rest) => {
            assert(components(s).len() == p.len());
            if k == p.len() {
                lemma_joined_components(base, rest);
                lemma_components(rest);
                assert(parts_from(rest, 0) =~= Seq::empty());
                assert(components(base) =~= components(s));
                assert(components(base) + components(rest) =~= components(s));
            } else if k == 0 {
                lemma_no_components(base);
                lemma_all_left(s);
                assert(joined(base, rest) =~= rest);
            } else {
                lemma_left_components(s, k);
                lemma_joined_components(base, rest);
                assert(components(base) + components(s).skip(k) =~= components(s));
            }
        },
    }
}

/// What is recorded of a path that is absolute names the path again when it is joined
/// to the directory that the record stands for.
pub proof fn lemma_recorded_rejoins(build_root: Text, pkg_root: Text, path: Text)
    requires
        is_rooted(path),
    ensures
        ({
            let (path_type, rest) = recorded_path(build_root, pkg_root, path);
            let base = match path_type {
                DepInfoPathType::BuildRootRelative => build_root,
                DepInfoPathType::PackageRootRelative => pkg_root,
            };
            same_path(joined(base, rest), path)
        }),
{
    lemma_stripped_rejoins(path, build_root);
    lemma_stripped_rejoins(path, pkg_root);
}

} // verus!
