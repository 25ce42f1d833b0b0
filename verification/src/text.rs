//! Texts: strings seen as sequences of characters.
use vstd::prelude::*;

verus! {

/// What a string holds.
pub type Text = Seq<char>;

/// What a list of strings holds.
pub open spec fn texts(list: Seq<String>) -> Seq<Text> {
    list.map_values(|s: String| s@)
}

/// Lists of texts can be put together from either end.
pub proof fn lemma_append_associative(a: Seq<Text>, b: Seq<Text>, c: Seq<Text>)
    ensures
        (a + b) + c == a + (b + c),
        a + Seq::<Text>::empty() == a,
{
    assert((a + b) + c =~= a + (b + c));
    assert(a + Seq::<Text>::empty() =~= a);
}

/// `String::push`: the character is appended at the end.
pub assume_specification[ String::push ](s: &mut String, c: char)
    ensures
        final(s)@ == old(s)@.push(c),
;

/// The characters of a string.
pub fn chars_of(s: &str) -> (r: Vec<char>)
    ensures
        r@ == s@,
{
    let mut r: Vec<char> = Vec::new();
    for c in it: s.chars()
        invariant
            it.seq() == s@,
            r@ == s@.take(it.index() as int),
    {
        r.push(c);
    }
    assert(s@.take(s@.len() as int) == s@);
    r
}

/// The string made of the characters from `from` up to `to`.
pub fn string_of(chars: &Vec<char>, from: usize, to: usize) -> (r: String)
    requires
        from <= to <= chars@.len(),
    ensures
        r@ == chars@.subrange(from as int, to as int),
{
    let mut r: String = String::new();
    let mut i: usize = from;
    while i < to
        invariant
            from <= i <= to <= chars@.len(),
            r@ == chars@.subrange(from as int, i as int),
        decreases to - i,
    {
        r.push(chars[i]);
        i = i + 1;
    }
    r
}

/// Whether two strings hold the same text.
pub fn same_text(a: &str, b: &str) -> (r: bool)
    ensures
        r == (a@ == b@),
{
    a.to_owned() == b.to_owned()
}

/// The strings of a list, copied.
pub fn copy_list(list: &Vec<String>) -> (r: Vec<String>)
    ensures
        texts(r@) == texts(list@),
{
    let mut r: Vec<String> = Vec::new();
    append_list(&mut r, list);
    assert(texts(r@) =~= texts(list@));
    r
}

/// Appends a copy of each string of `more`.
pub fn append_list(list: &mut Vec<String>, more: &Vec<String>)
    ensures
        texts(final(list)@) == texts(old(list)@) + texts(more@),
{
    let ghost before = texts(list@);
    let mut i: usize = 0;
    assert(texts(list@) =~= before + texts(more@).take(0));
    while i < more.len()
        invariant
            i <= more@.len(),
            texts(list@) == before + texts(more@).take(i as int),
        decreases more@.len() - i,
    {
        let ghost held = list@;
        list.push(more[i].clone());
        assert(texts(list@) =~= texts(held).push(more@[i as int]@));
        assert(texts(more@).take(i + 1) =~= texts(more@).take(i as int).push(more@[i as int]@));
        assert(texts(list@) =~= before + texts(more@).take(i + 1));
        i = i + 1;
    }
    assert(texts(more@).take(i as int) =~= texts(more@));
}

/// Appends one string.
pub fn push_text(list: &mut Vec<String>, s: String)
    ensures
        texts(final(list)@) == texts(old(list)@).push(s@),
{
    let ghost held = list@;
    list.push(s);
    assert(texts(list@) =~= texts(held).push(s@));
}

/// A list of one string.
pub fn one_text(s: String) -> (r: Vec<String>)
    ensures
        texts(r@) == seq![s@],
{
    let mut r: Vec<String> = Vec::new();
    r.push(s);
    assert(texts(r@) =~= seq![s@]);
    r
}

/// Whether a list holds a string with the text of `s`.
pub fn list_holds(list: &Vec<String>, s: &str) -> (r: bool)
    ensures
        r == texts(list@).contains(s@),
{
    let mut i: usize = 0;
    while i < list.len()
        invariant
            i <= list@.len(),
            forall|k: int| 0 <= k < i ==> texts(list@)[k] != s@,
        decreases list@.len() - i,
    {
        if same_text(list[i].as_str(), s) {
            assert(texts(list@)[i as int] == s@);
            return true;
        }
        i = i + 1;
    }
    false
}

/// What an optional string holds.
pub open spec fn opt_text(o: Option<String>) -> Option<Text> {
    match o {
        Some(s) => Some(s@),
        None => None,
    }
}

/// What an optional list of strings holds.
pub open spec fn opt_texts(o: Option<Vec<String>>) -> Option<Seq<Text>> {
    match o {
        Some(v) => Some(texts(v@)),
        None => None,
    }
}

/// What a list of pairs of strings holds.
pub open spec fn text_pairs(list: Seq<(String, String)>) -> Seq<(Text, Text)> {
    list.map_values(|p: (String, String)| (p.0@, p.1@))
}

/// An optional string, copied.
pub fn copy_opt(o: &Option<String>) -> (r: Option<String>)
    ensures
        opt_text(r) == opt_text(*o),
{
    match o {
        Some(s) => Some(s.clone()),
        None => None,
    }
}

/// An optional list of strings, copied.
pub fn copy_opt_list(o: &Option<Vec<String>>) -> (r: Option<Vec<String>>)
    ensures
        opt_texts(r) == opt_texts(*o),
{
    match o {
        Some(v) => Some(copy_list(v)),
        None => None,
    }
}

/// `needle` stands in `hay` at position `i`.
pub open spec fn occurs_at(hay: Text, needle: Text, i: int) -> bool {
    0 <= i && i + needle.len() <= hay.len() && hay.subrange(i, i + needle.len()) == needle
}

/// `needle` stands somewhere in `hay`.
pub open spec fn holds_text(hay: Text, needle: Text) -> bool {
    exists|i: int| occurs_at(hay, needle, i)
}

/// Whether `needle` stands in `hay` at position `at`.
fn occurs(hay: &Vec<char>, needle: &Vec<char>, at: usize) -> (r: bool)
    requires
        at <= hay@.len(),
    ensures
        r == occurs_at(hay@, needle@, at as int),
{
    if hay.len() - at < needle.len() {
        return false;
    }
    let mut k: usize = 0;
    while k < needle.len()
        invariant
            k <= needle@.len(),
            at + needle.len() <= hay.len(),
            forall|j: int| 0 <= j < k ==> hay@[at + j] == needle@[j],
        decreases needle@.len() - k,
    {
        if hay[at + k] != needle[k] {
            assert(hay@.subrange(at as int, at + needle@.len())[k as int] != needle@[k as int]);
            return false;
        }
        k = k + 1;
    }
    assert(hay@.subrange(at as int, at + needle@.len()) =~= needle@);
    true
}

/// `str::contains` with a text.
pub fn contains_text(hay: &str, needle: &str) -> (r: bool)
    ensures
        r == holds_text(hay@, needle@),
{
    let h = chars_of(hay);
    let n = chars_of(needle);
    let mut i: usize = 0;
    while i < h.len()
        invariant
            i <= h@.len(),
            h@ == hay@,
            n@ == needle@,
            forall|k: int| 0 <= k < i ==> !occurs_at(hay@, needle@, k),
        decreases h@.len() - i,
    {
        if occurs(&h, &n, i) {
            return true;
        }
        i = i + 1;
    }
    let last = occurs(&h, &n, h.len());
    proof {
        if holds_text(hay@, needle@) {
            let k = choose|k: int| occurs_at(hay@, needle@, k);
            assert(k >= h@.len());
            assert(k == h@.len());
        }
    }
    last
}

/// `str::starts_with` with a text.
pub fn starts_with_text(s: &str, prefix: &str) -> (r: bool)
    ensures
        r == prefix@.is_prefix_of(s@),
{
    let h = chars_of(s);
    let n = chars_of(prefix);
    let r = occurs(&h, &n, 0);
    assert(r == prefix@.is_prefix_of(s@));
    r
}

/// The first position from `i` on that holds `c`, or the length.
pub open spec fn find_from(s: Text, c: char, i: int) -> int
    decreases s.len() - i,
{
    if i >= s.len() || s[i] == c {
        i
    } else {
        find_from(s, c, i + 1)
    }
}

/// The position that is found is the first one from `i` on that holds `c`.
pub proof fn lemma_find_from(s: Text, c: char, i: int)
    requires
        0 <= i <= s.len(),
    ensures
        i <= find_from(s, c, i) <= s.len(),
        forall|k: int| i <= k < find_from(s, c, i) ==> s[k] != c,
        find_from(s, c, i) < s.len() ==> s[find_from(s, c, i)] == c,
    decreases s.len() - i,
{
    if i < s.len() && s[i] != c {
        lemma_find_from(s, c, i + 1);
    }
}

/// The first position from `i` on that holds `c`, or the length.
pub fn find_char(chars: &Vec<char>, c: char, i: usize) -> (r: usize)
    requires
        i <= chars@.len(),
    ensures
        r == find_from(chars@, c, i as int),
        i <= r <= chars@.len(),
{
    let mut k: usize = i;
    while k < chars.len() && chars[k] != c
        invariant
            i <= k <= chars@.len(),
            find_from(chars@, c, i as int) == find_from(chars@, c, k as int),
        decreases chars@.len() - k,
    {
        k = k + 1;
    }
    k
}

/// `str::split_once` at a character: what stands before its first occurrence and
/// what stands behind it.
pub open spec fn split_once_at(s: Text, c: char) -> Option<(Text, Text)> {
    let e = find_from(s, c, 0);
    if e < s.len() {
        Some((s.take(e), s.skip(e + 1)))
    } else {
        None
    }
}

/// `str::split_once` at a character.
pub fn split_once_char(s: &str, c: char) -> (r: Option<(String, String)>)
    ensures
        match r {
            Some(p) => split_once_at(s@, c) == Some((p.0@, p.1@)),
            None => split_once_at(s@, c) is None,
        },
{
    let chars = chars_of(s);
    let e = find_char(&chars, c, 0);
    if e < chars.len() {
        let a = string_of(&chars, 0, e);
        let b = string_of(&chars, e + 1, chars.len());
        assert(a@ =~= s@.take(e as int));
        assert(b@ =~= s@.skip(e + 1));
        Some((a, b))
    } else {
        None
    }
}

/// The characters of Unicode's White_Space property.
pub open spec fn is_space(c: char) -> bool {
    let n = c as u32;
    ||| 0x09 <= n <= 0x0d
    ||| n == 0x20
    ||| n == 0x85
    ||| n == 0xa0
    ||| n == 0x1680
    ||| 0x2000 <= n <= 0x200a
    ||| n == 0x2028
    ||| n == 0x2029
    ||| n == 0x202f
    ||| n == 0x205f
    ||| n == 0x3000
}

/// Whether a character is white space.
pub fn is_space_char(c: char) -> (r: bool)
    ensures
        r == is_space(c),
{
    let n = c as u32;
    (0x09 <= n && n <= 0x0d) || n == 0x20 || n == 0x85 || n == 0xa0 || n == 0x1680 || (0x2000 <= n
        && n <= 0x200a) || n == 0x2028 || n == 0x2029 || n == 0x202f || n == 0x205f || n == 0x3000
}

/// All of `s` is white space.
pub open spec fn is_blank(s: Text) -> bool {
    forall|i: int| 0 <= i < s.len() ==> is_space(#[trigger] s[i])
}

/// Whether trimming `s` leaves nothing.
pub fn blank_text(s: &str) -> (r: bool)
    ensures
        r == is_blank(s@),
{
    let chars = chars_of(s);
    let mut i: usize = 0;
    while i < chars.len()
        invariant
            i <= chars@.len(),
            chars@ == s@,
            forall|k: int| 0 <= k < i ==> is_space(#[trigger] s@[k]),
        decreases chars@.len() - i,
    {
        if !is_space_char(chars[i]) {
            assert(!is_space(s@[i as int]));
            return false;
        }
        i = i + 1;
    }
    true
}

/// What separates the words of a text.
#[derive(Clone, Copy)]
pub enum Separator {
    /// White space.
    Space,
    /// One character.
    Char(char),
}

impl Separator {
    /// Whether `c` separates words.
    pub open spec fn splits(self, c: char) -> bool {
        match self {
            Separator::Space => is_space(c),
            Separator::Char(d) => c == d,
        }
    }

    fn splits_at(self, c: char) -> (r: bool)
        ensures
            r == self.splits(c),
    {
        match self {
            Separator::Space => is_space_char(c),
            Separator::Char(d) => c == d,
        }
    }
}

/// Where the word that goes on at `i` ends.
pub open spec fn word_end(s: Text, sep: Separator, i: int) -> int
    decreases s.len() - i,
{
    if i >= s.len() || sep.splits(s[i]) {
        i
    } else {
        word_end(s, sep, i + 1)
    }
}

/// A word ends no earlier than it begins, and within the text.
pub proof fn lemma_word_end(s: Text, sep: Separator, i: int)
    ensures
        word_end(s, sep, i) >= i,
        i <= s.len() ==> word_end(s, sep, i) <= s.len(),
    decreases s.len() - i,
{
    if i < s.len() && !sep.splits(s[i]) {
        lemma_word_end(s, sep, i + 1);
    }
}

/// The words that begin at position `i` or later: the maximal runs of characters
/// that do not separate.
pub open spec fn words_from(s: Text, sep: Separator, i: int) -> Seq<Text>
    decreases s.len() - i,
{
    if i >= s.len() {
        Seq::empty()
    } else if sep.splits(s[i]) {
        words_from(s, sep, i + 1)
    } else {
        proof {
            lemma_word_end(s, sep, i + 1);
        }
        seq![s.subrange(i, word_end(s, sep, i + 1))] + words_from(s, sep, word_end(s, sep, i + 1))
    }
}

/// The words of a text.
pub open spec fn words(s: Text, sep: Separator) -> Seq<Text> {
    words_from(s, sep, 0)
}

/// The words of a text: `str::split_whitespace`, or `str::split` at a character
/// without the empty pieces.
pub fn split_words(s: &str, sep: Separator) -> (r: Vec<String>)
    ensures
        texts(r@) == words(s@, sep),
{
    let chars = chars_of(s);
    let mut r: Vec<String> = Vec::new();
    let mut i: usize = 0;
    assert(texts(r@) + words_from(s@, sep, 0) =~= words(s@, sep));
    while i < chars.len()
        invariant
            i <= chars@.len(),
            chars@ == s@,
            texts(r@) + words_from(s@, sep, i as int) == words(s@, sep),
        decreases chars@.len() - i,
    {
        if sep.splits_at(chars[i]) {
            i = i + 1;
        } else {
            let mut e: usize = i + 1;
            while e < chars.len() && !sep.splits_at(chars[e])
                invariant
                    i < e <= chars@.len(),
                    chars@ == s@,
                    word_end(s@, sep, i + 1) == word_end(s@, sep, e as int),
                decreases chars@.len() - e,
            {
                e = e + 1;
            }
            let ghost held = texts(r@);
            push_text(&mut r, string_of(&chars, i, e));
            proof {
                assert(texts(r@) + words_from(s@, sep, e as int) =~= held + (seq![
                    s@.subrange(i as int, e as int),
                ] + words_from(s@, sep, e as int)));
            }
            i = e;
        }
    }
    assert(texts(r@) + words_from(s@, sep, i as int) =~= texts(r@));
    r
}

/// Where the line that goes on at `i` ends: at its line feed, or at the end.
/// The carriage return in front of a line feed is no part of the line.
pub open spec fn line_at(s: Text, i: int) -> Text {
    let e = find_from(s, '\n', i);
    if e < s.len() && e > i && s[e - 1] == '\r' {
        s.subrange(i, e - 1)
    } else {
        s.subrange(i, e)
    }
}

/// `find_from` does not go back.
pub proof fn lemma_find_not_back(s: Text, c: char, i: int)
    ensures
        find_from(s, c, i) >= i,
    decreases s.len() - i,
{
    if i < s.len() && s[i] != c {
        lemma_find_not_back(s, c, i + 1);
    }
}

/// The lines that begin at position `i` or later.
pub open spec fn lines_from(s: Text, i: int) -> Seq<Text>
    decreases s.len() - i,
{
    if i >= s.len() {
        Seq::empty()
    } else {
        proof {
            lemma_find_not_back(s, '\n', i);
        }
        if find_from(s, '\n', i) < s.len() {
            seq![line_at(s, i)] + lines_from(s, find_from(s, '\n', i) + 1)
        } else {
            seq![line_at(s, i)]
        }
    }
}

/// The lines of a text, as `str::lines` gives them.
pub open spec fn lines(s: Text) -> Seq<Text> {
    lines_from(s, 0)
}

/// `str::lines`.
pub fn split_lines(s: &str) -> (r: Vec<String>)
    ensures
        texts(r@) == lines(s@),
{
    let chars = chars_of(s);
    let mut r: Vec<String> = Vec::new();
    let mut i: usize = 0;
    assert(texts(r@) + lines_from(s@, 0) =~= lines(s@));
    while i < chars.len()
        invariant
            i <= chars@.len(),
            chars@ == s@,
            texts(r@) + lines_from(s@, i as int) == lines(s@),
        decreases chars@.len() - i,
    {
        let e = find_char(&chars, '\n', i);
        let ghost held = texts(r@);
        let ghost rest = if e < s@.len() {
            lines_from(s@, e + 1)
        } else {
            Seq::empty()
        };
        let to = if e < chars.len() && e > i && chars[e - 1] == '\r' {
            e - 1
        } else {
            e
        };
        push_text(&mut r, string_of(&chars, i, to));
        assert(texts(r@) + rest =~= held + (seq![line_at(s@, i as int)] + rest));
        if e < chars.len() {
            i = e + 1;
        } else {
            assert(seq![line_at(s@, i as int)] + rest =~= seq![line_at(s@, i as int)]);
            assert(lines_from(s@, e as int) =~= Seq::empty());
            i = e;
        }
    }
    assert(texts(r@) + lines_from(s@, i as int) =~= texts(r@));
    r
}

/// The first position from `i` on that holds no white space, or the length.
pub open spec fn space_end(s: Text, i: int) -> int
    decreases s.len() - i,
{
    if i >= s.len() || !is_space(s[i]) {
        i
    } else {
        space_end(s, i + 1)
    }
}

/// The end of the text from `from` up to `i` without its white space at the end.
pub open spec fn space_start(s: Text, from: int, i: int) -> int
    decreases i - from,
{
    if i <= from || !is_space(s[i - 1]) {
        i
    } else {
        space_start(s, from, i - 1)
    }
}

/// `str::trim`: the text without the white space at both ends.
pub open spec fn trimmed(s: Text) -> Text {
    let a = space_end(s, 0);
    s.subrange(a, space_start(s, a, s.len() as int))
}

/// `str::trim`.
pub fn trim_text(s: &str) -> (r: String)
    ensures
        r@ == trimmed(s@),
{
    let chars = chars_of(s);
    let mut a: usize = 0;
    while a < chars.len() && is_space_char(chars[a])
        invariant
            a <= chars@.len(),
            chars@ == s@,
            space_end(s@, 0) == space_end(s@, a as int),
        decreases chars@.len() - a,
    {
        a = a + 1;
    }
    let mut e: usize = chars.len();
    while e > a && is_space_char(chars[e - 1])
        invariant
            a <= e <= chars@.len(),
            chars@ == s@,
            space_start(s@, a as int, s@.len() as int) == space_start(s@, a as int, e as int),
        decreases e,
    {
        e = e - 1;
    }
    string_of(&chars, a, e)
}

/// The texts of a list with `sep` between each two: `[T]::join`.
pub open spec fn join_texts(list: Seq<Text>, sep: Text) -> Text
    decreases list.len(),
{
    if list.len() == 0 {
        Seq::empty()
    } else if list.len() == 1 {
        list[0]
    } else {
        join_texts(list.drop_last(), sep) + sep + list.last()
    }
}

/// `[String]::join`.
pub fn join_list(list: &Vec<String>, sep: &str) -> (r: String)
    ensures
        r@ == join_texts(texts(list@), sep@),
{
    let ghost all = texts(list@);
    let mut r: String = String::new();
    let mut i: usize = 0;
    assert(all.take(0) =~= Seq::empty());
    while i < list.len()
        invariant
            i <= list@.len(),
            all == texts(list@),
            r@ == join_texts(all.take(i as int), sep@),
        decreases list@.len() - i,
    {
        let ghost next = all.take(i + 1);
        assert(next.drop_last() =~= all.take(i as int));
        assert(next.last() == list@[i as int]@);
        if i > 0 {
            r.append(sep);
        }
        r.append(list[i].as_str());
        if i == 0 {
            assert(r@ =~= list@[0]@);
        }
        i = i + 1;
    }
    assert(all.take(i as int) =~= all);
    r
}

/// The text with `to` in the place of each `from`.
pub open spec fn replaced(s: Text, from: char, to: char) -> Text {
    s.map_values(|c: char| if c == from { to } else { c })
}

/// `str::replace` of one character by another.
pub fn replace_char(s: &str, from: char, to: char) -> (r: String)
    ensures
        r@ == replaced(s@, from, to),
{
    let chars = chars_of(s);
    let mut r: String = String::new();
    let mut i: usize = 0;
    while i < chars.len()
        invariant
            i <= chars@.len(),
            chars@ == s@,
            r@ == replaced(s@, from, to).take(i as int),
        decreases chars@.len() - i,
    {
        if chars[i] == from {
            r.push(to);
        } else {
            r.push(chars[i]);
        }
        assert(r@ =~= replaced(s@, from, to).take(i + 1));
        i = i + 1;
    }
    assert(r@ =~= replaced(s@, from, to));
    r
}

/// The lower case letter of an upper case ASCII letter; any other character is
/// itself.
pub open spec fn ascii_lower(c: char) -> char {
    if 'A' <= c <= 'Z' {
        ((c as u32 + 32) as u32) as char
    } else {
        c
    }
}

/// `str::to_ascii_lowercase`.
pub open spec fn ascii_lowered(s: Text) -> Text {
    s.map_values(|c: char| ascii_lower(c))
}

fn lower_char(c: char) -> (r: char)
    ensures
        r == ascii_lower(c),
{
    if 'A' <= c && c <= 'Z' {
        let code: u8 = c as u8;
        (code + 32) as char
    } else {
        c
    }
}

/// `str::to_ascii_lowercase`.
pub fn lowercase_ascii(s: &str) -> (r: String)
    ensures
        r@ == ascii_lowered(s@),
{
    let chars = chars_of(s);
    let mut r: String = String::new();
    let mut i: usize = 0;
    while i < chars.len()
        invariant
            i <= chars@.len(),
            chars@ == s@,
            r@ == ascii_lowered(s@).take(i as int),
        decreases chars@.len() - i,
    {
        r.push(lower_char(chars[i]));
        assert(r@ =~= ascii_lowered(s@).take(i + 1));
        i = i + 1;
    }
    assert(r@ =~= ascii_lowered(s@));
    r
}

/// What `char::to_uppercase` gives for a character.
pub uninterp spec fn char_upper(c: char) -> Seq<char>;

/// `char::to_uppercase`: the characters of the upper case mapping of `c`. Of the
/// ASCII characters the small letters are mapped to the capital ones, and the
/// others to themselves.
#[verifier::external_body]
fn upper_chars(c: char) -> (r: Vec<char>)
    ensures
        r@ == char_upper(c),
        'a' <= c <= 'z' ==> r@ == seq![((c as u32 - 32) as u32) as char],
        c as u32 <= 127 && !('a' <= c <= 'z') ==> r@ == seq![c],
{
    c.to_uppercase().collect()
}

/// The upper case mappings of the characters of a text, one behind the other.
pub open spec fn uppered(s: Text) -> Text
    decreases s.len(),
{
    if s.len() == 0 {
        Seq::empty()
    } else {
        uppered(s.drop_last()) + char_upper(s.last())
    }
}

/// All the characters are ASCII.
pub open spec fn is_ascii_text(s: Text) -> bool {
    forall|i: int| 0 <= i < s.len() ==> (#[trigger] s[i]) as u32 <= 127
}

/// The upper case letter of a lower case ASCII letter; any other character is
/// itself.
pub open spec fn ascii_upper(c: char) -> char {
    if 'a' <= c <= 'z' {
        ((c as u32 - 32) as u32) as char
    } else {
        c
    }
}

/// A text with the upper case letters of its lower case ASCII letters.
pub open spec fn ascii_uppered(s: Text) -> Text {
    s.map_values(|c: char| ascii_upper(c))
}

/// The upper case mappings of the characters of a text. Of an ASCII text only the
/// lower case letters are changed.
pub fn uppercase(s: &str) -> (r: String)
    ensures
        r@ == uppered(s@),
        is_ascii_text(s@) ==> r@ == ascii_uppered(s@),
{
    let chars = chars_of(s);
    let mut r: String = String::new();
    let mut i: usize = 0;
    assert(s@.take(0) =~= Seq::empty());
    while i < chars.len()
        invariant
            i <= chars@.len(),
            chars@ == s@,
            r@ == uppered(s@.take(i as int)),
            is_ascii_text(s@) ==> r@ == ascii_uppered(s@).take(i as int),
        decreases chars@.len() - i,
    {
        let up = upper_chars(chars[i]);
        r.append(string_of(&up, 0, up.len()).as_str());
        assert(up@.subrange(0, up@.len() as int) =~= up@);
        assert(s@.take(i + 1).drop_last() =~= s@.take(i as int));
        proof {
            if is_ascii_text(s@) {
                let c = s@[i as int];
                assert(c as u32 <= 127);
                assert(up@ == seq![ascii_upper(c)]);
                assert(ascii_uppered(s@).take(i + 1) =~= ascii_uppered(s@).take(i as int) + up@);
            }
        }
        i = i + 1;
    }
    assert(s@.take(i as int) =~= s@);
    assert(ascii_uppered(s@).take(i as int) =~= ascii_uppered(s@));
    r
}

/// The hexadecimal digit of a number below sixteen.
pub open spec fn hex_digit(d: int) -> char {
    if d < 10 {
        ((48 + d) as u32) as char
    } else {
        ((87 + d) as u32) as char
    }
}

/// The last `k` hexadecimal digits of a number.
pub open spec fn hex_digits(n: int, k: nat) -> Text
    decreases k,
{
    if k == 0 {
        Seq::empty()
    } else {
        hex_digits(n / 16, (k - 1) as nat).push(hex_digit(n % 16))
    }
}

fn push_hex(n: u64, k: u8) -> (r: String)
    ensures
        r@ == hex_digits(n as int, k as nat),
    decreases k,
{
    if k == 0 {
        String::new()
    } else {
        let mut r = push_hex(n / 16, k - 1);
        let d: u8 = (n % 16) as u8;
        if d < 10 {
            r.push((48 + d) as char);
        } else {
            r.push((87 + d) as char);
        }
        r
    }
}

/// The sixteen hexadecimal digits of a number: the format `{:016x}`.
pub fn hex16(n: u64) -> (r: String)
    ensures
        r@ == hex_digits(n as int, 16),
{
    push_hex(n, 16)
}

/// The texts one behind the other.
pub fn text2(a: &str, b: &str) -> (r: String)
    ensures
        r@ == a@ + b@,
{
    let mut r: String = a.to_owned();
    r.append(b);
    r
}

/// The texts one behind the other.
pub fn text3(a: &str, b: &str, c: &str) -> (r: String)
    ensures
        r@ == a@ + b@ + c@,
{
    let mut r: String = text2(a, b);
    r.append(c);
    r
}

/// The texts one behind the other.
pub fn text4(a: &str, b: &str, c: &str, d: &str) -> (r: String)
    ensures
        r@ == a@ + b@ + c@ + d@,
{
    let mut r: String = text3(a, b, c);
    r.append(d);
    r
}

/// The texts one behind the other.
pub fn text5(a: &str, b: &str, c: &str, d: &str, e: &str) -> (r: String)
    ensures
        r@ == a@ + b@ + c@ + d@ + e@,
{
    let mut r: String = text4(a, b, c, d);
    r.append(e);
    r
}

/// The texts one behind the other.
pub fn text7(a: &str, b: &str, c: &str, d: &str, e: &str, f: &str, g: &str) -> (r: String)
    ensures
        r@ == a@ + b@ + c@ + d@ + e@ + f@ + g@,
{
    let mut r: String = text5(a, b, c, d, e);
    r.append(f);
    r.append(g);
    r
}

/// What a result that is a text or a message holds.
pub open spec fn res_text(r: Result<String, String>) -> Result<Text, Text> {
    match r {
        Ok(s) => Ok(s@),
        Err(e) => Err(e@),
    }
}

/// What a result that is a list or a message holds.
pub open spec fn res_texts(r: Result<Vec<String>, String>) -> Result<Seq<Text>, Text> {
    match r {
        Ok(v) => Ok(texts(v@)),
        Err(e) => Err(e@),
    }
}

/// What a result that is a text, if any, or a message holds.
pub open spec fn res_opt_text(r: Result<Option<String>, String>) -> Result<Option<Text>, Text> {
    match r {
        Ok(o) => Ok(opt_text(o)),
        Err(e) => Err(e@),
    }
}

/// What a result that is nothing or a message holds.
pub open spec fn res_unit(r: Result<(), String>) -> Result<(), Text> {
    match r {
        Ok(_) => Ok(()),
        Err(e) => Err(e@),
    }
}

/// A list of no texts.
pub fn no_texts() -> (r: Vec<String>)
    ensures
        texts(r@) == Seq::<Text>::empty(),
{
    let r: Vec<String> = Vec::new();
    assert(texts(r@) =~= Seq::empty());
    r
}

/// One more pair.
pub fn push_pair(list: &mut Vec<(String, String)>, a: String, b: String)
    ensures
        text_pairs(final(list)@) == text_pairs(old(list)@).push((a@, b@)),
{
    let ghost before = list@;
    let ghost pair = (a@, b@);
    list.push((a, b));
    assert(text_pairs(list@) =~= text_pairs(before).push(pair));
}

} // verus!
