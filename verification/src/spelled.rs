//! How texts are written: digits, letters, and commands.
use vstd::prelude::*;

use crate::command::{command_line, CommandView};
use crate::order::{key_less, lemma_key_total, part_less};
use crate::os_text::{readable, where_utf8, OsTextView};
use crate::path::{codes, lemma_codes, text_key};
use crate::text::{ascii_lowered, hex_digit, hex_digits, is_space, join_texts, Text};

verus! {

/// The lower case of a text has a small letter where there was a capital one of ASCII, and
/// is the same everywhere else.
pub proof fn lemma_lowered(s: Text)
    ensures
        ascii_lowered(s).len() == s.len(),
        forall|i: int|
            0 <= i < s.len() ==> #[trigger] ascii_lowered(s)[i] == if 'A' <= s[i] <= 'Z' {
                ((s[i] as u32 - 'A' as u32 + 'a' as u32) as u32) as char
            } else {
                s[i]
            },
{
}

/// A number in hexadecimal: as many digits as are asked for, each of them one, and other
/// numbers have other digits.
pub proof fn lemma_hexadecimal(a: int, b: int, k: nat)
    requires
        0 <= a,
        0 <= b,
    ensures
        hex_digits(a, k).len() == k,
        forall|i: int|
            0 <= i < k ==> '0' <= #[trigger] hex_digits(a, k)[i] <= '9' || 'a' <= hex_digits(a, k)[i]
                <= 'f',
        hex_digits(a, k) == hex_digits(b, k) ==> places(a, k) == places(b, k),
    decreases k,
{
    if k > 0 {
        let m = (k - 1) as nat;
        lemma_hexadecimal(a / 16, b / 16, m);
        let x = hex_digits(a, k);
        let y = hex_digits(b, k);
        let p = hex_digits(a / 16, m);
        let q = hex_digits(b / 16, m);
        lemma_digit(a % 16, b % 16);
        assert(x[k - 1] == hex_digit(a % 16));
        assert forall|i: int| 0 <= i < k implies '0' <= #[trigger] x[i] <= '9' || 'a' <= x[i]
            <= 'f' by {
            if i < m {
                assert(x[i] == p[i]);
            }
        }
        if x == y {
            assert(x[k - 1] == y[k - 1]);
            assert(p =~= x.drop_last());
            assert(q =~= y.drop_last());
        }
    }
}

/// What the last places of a number in hexadecimal hold.
pub open spec fn places(n: int, k: nat) -> Seq<int>
    decreases k,
{
    if k == 0 {
        Seq::empty()
    } else {
        places(n / 16, (k - 1) as nat).push(n % 16)
    }
}

proof fn lemma_digit(a: int, b: int)
    requires
        0 <= a < 16,
        0 <= b < 16,
    ensures
        '0' <= hex_digit(a) <= '9' || 'a' <= hex_digit(a) <= 'f',
        hex_digit(a) == hex_digit(b) ==> a == b,
{
}

/// A command line is the program and then its arguments.
pub proof fn lemma_command_line(cmd: CommandView)
    ensures
        command_line(cmd).len() == cmd.args.len() + 1,
        command_line(cmd)[0] == cmd.program.text,
        forall|i: int|
            0 <= i < cmd.args.len() ==> command_line(cmd)[i + 1] == #[trigger] cmd.args[i],
{
}

/// Texts are joined with what separates them between each two.
pub proof fn lemma_joined_texts(list: Seq<Text>, last: Text, sep: Text)
    ensures
        join_texts(seq![last], sep) == last,
        list.len() > 0 ==> join_texts(list.push(last), sep) == join_texts(list, sep) + sep + last,
{
    assert(list.push(last).drop_last() =~= list);
}

/// The text `a` comes before the text `b` by their characters: where they first differ, or
/// because it ends there.
pub open spec fn comes_before(a: Text, b: Text) -> bool {
    exists|k: int| #[trigger]
        differ_first(a, b, k) && k < b.len() && (k == a.len() || (k < a.len() && a[k] < b[k]))
}

/// Up to a place the two texts are the same, and there they are not or one of them ends.
pub open spec fn differ_first(a: Text, b: Text, k: int) -> bool {
    &&& 0 <= k <= a.len()
    &&& k <= b.len()
    &&& forall|i: int| 0 <= i < k ==> a[i] == #[trigger] b[i]
    &&& k < a.len() && k < b.len() ==> a[k] != b[k]
}

/// Texts are put in order by their characters.
pub proof fn lemma_text_order(a: Text, b: Text)
    ensures
        key_less(text_key(a), text_key(b)) <==> comes_before(a, b),
{
    lemma_part_order(a, b);
    let x = text_key(a);
    let y = text_key(b);
    assert(x[0] == codes(a) && y[0] == codes(b));
    if codes(a) == codes(b) {
        lemma_codes(a, b);
        lemma_key_total(x, y);
        if comes_before(a, b) {
            let k = choose|k: int| #[trigger]
                differ_first(a, b, k) && k < b.len() && (k == a.len() || (k < a.len() && a[k]
                    < b[k]));
        }
    }
}

proof fn lemma_code_order(a: char, b: char)
    ensures
        (a as u32) < (b as u32) <==> a < b,
        a as u32 == b as u32 <==> a == b,
{
}

proof fn lemma_part_order(a: Text, b: Text)
    ensures
        part_less(codes(a), codes(b)) <==> comes_before(a, b),
    decreases a.len(),
{
    let x = codes(a);
    let y = codes(b);
    if b.len() > 0 && a.len() > 0 && a[0] == b[0] {
        let p = a.skip(1);
        let q = b.skip(1);
        lemma_part_order(p, q);
        assert(x.skip(1) =~= codes(p));
        assert(y.skip(1) =~= codes(q));
        assert(x[0] == y[0]);
        if comes_before(p, q) {
            let k = choose|k: int| #[trigger]
                differ_first(p, q, k) && k < q.len() && (k == p.len() || (k < p.len() && p[k]
                    < q[k]));
            assert forall|i: int| 0 <= i < k + 1 implies a[i] == #[trigger] b[i] by {
                if i > 0 {
                    assert(p[i - 1] == q[i - 1]);
                }
            }
            if k < p.len() {
                assert(p[k] == a[k + 1] && q[k] == b[k + 1]);
            }
            assert(differ_first(a, b, k + 1));
        }
        if comes_before(a, b) {
            let k = choose|k: int| #[trigger]
                differ_first(a, b, k) && k < b.len() && (k == a.len() || (k < a.len() && a[k]
                    < b[k]));
            assert(k > 0);
            assert forall|i: int| 0 <= i < k - 1 implies p[i] == #[trigger] q[i] by {
                assert(a[i + 1] == b[i + 1]);
            }
            if k < a.len() {
                assert(p[k - 1] == a[k] && q[k - 1] == b[k]);
            }
            assert(differ_first(p, q, k - 1));
        }
    } else if b.len() > 0 && a.len() > 0 {
        lemma_code_order(a[0], b[0]);
        assert(differ_first(a, b, 0));
        if comes_before(a, b) {
            let k = choose|k: int| #[trigger]
                differ_first(a, b, k) && k < b.len() && (k == a.len() || (k < a.len() && a[k]
                    < b[k]));
            if k > 0 {
                assert(a[0] == b[0]);
            }
        }
    } else if b.len() > 0 {
        assert(differ_first(a, b, 0));
    } else if comes_before(a, b) {
        let k = choose|k: int| #[trigger]
            differ_first(a, b, k) && k < b.len() && (k == a.len() || (k < a.len() && a[k] < b[k]));
    }
}

/// What is not UTF-8 can be read with other characters in its place, and is no text where
/// only a text will do.
pub proof fn lemma_readable(value: OsTextView)
    ensures
        readable(Some(value)) == Some(value.text),
        where_utf8(Some(value)) == if value.bytes is None {
            Some(value.text)
        } else {
            None
        },
        readable(None) is None,
        where_utf8(None) is None,
{
}

/// Of the ASCII characters, the white space is the blank, the tabs, the line feed, the form
/// feed and the carriage return, and nothing else.
pub proof fn lemma_white_space(c: char)
    requires
        (c as u32) < 128,
    ensures
        is_space(c) <==> (c == ' ' || c == '\t' || c == '\n' || c == '\u{b}' || c == '\u{c}' || c
            == '\r'),
{
}

} // verus!
