//! Text as sequences of characters: searching, splitting and trimming, each
//! with the mathematical function on `Seq<char>` that it computes.

use crate::seqs::{first_index, lemma_first_index, lemma_first_index_is};
use vstd::prelude::*;
use vstd::slice::slice_subrange;

verus! {

/// The property of being the character `c`.
pub open spec fn is_char(c: char) -> spec_fn(char) -> bool {
    |x: char| x == c
}

/// Index of the first `c` in `s`, or `s.len()` where `s` holds none.
pub open spec fn position(s: Seq<char>, c: char) -> int {
    first_index(s, is_char(c))
}

/// The characters of a string slice.
pub fn str_chars(s: &str) -> (v: Vec<char>)
    ensures
        v@ == s@,
{
    let mut v: Vec<char> = Vec::new();
    for c in it: s.chars()
        invariant
            v@ == it.seq().take(it.index() as int),
            it.seq() == s@,
    {
        v.push(c);
    }
    v
}

/// `String::push`: appends one character to the string.
#[verifier::external_body]
pub(crate) fn string_push(s: &mut String, c: char)
    ensures
        final(s)@ == old(s)@.push(c),
{
    s.push(c)
}

/// The string made of the characters of `s`.
pub fn chars_string(s: &[char]) -> (r: String)
    ensures
        r@ == s@,
{
    let mut r = String::new();
    let mut i: usize = 0;
    while i < s.len()
        invariant
            0 <= i <= s.len(),
            r@ == s@.take(i as int),
        decreases s.len() - i,
    {
        string_push(&mut r, s[i]);
        i += 1;
    }
    r
}

/// Finds the first `c` in `s`.
pub fn find_char(s: &[char], c: char) -> (i: usize)
    ensures
        i == position(s@, c),
        i <= s.len(),
{
    let mut i: usize = 0;
    while i < s.len() && s[i] != c
        invariant
            0 <= i <= s.len(),
            forall|k: int| 0 <= k < i ==> s@[k] != c,
        decreases s.len() - i,
    {
        i += 1;
    }
    proof {
        lemma_first_index_is(s@, is_char(c), i as int);
    }
    i
}

/// The parts of `s` before and after its first `c`; `None` where `s` holds no `c`.
pub open spec fn split_once(s: Seq<char>, c: char) -> Option<(Seq<char>, Seq<char>)> {
    let i = position(s, c);
    if i < s.len() {
        Some((s.take(i), s.skip(i + 1)))
    } else {
        None
    }
}

/// Splits `s` at its first `c`, which belongs to neither part.
pub fn split_once_char<'a>(s: &'a [char], c: char) -> (r: Option<(&'a [char], &'a [char])>)
    ensures
        match r {
            Some((head, tail)) => split_once(s@, c) == Some((head@, tail@)),
            None => split_once(s@, c) is None,
        },
{
    let i = find_char(s, c);
    if i < s.len() {
        let head = slice_subrange(s, 0, i);
        let tail = slice_subrange(s, i + 1, s.len());
        Some((head, tail))
    } else {
        None
    }
}

/// Whether `c` has the Unicode property White_Space.
pub open spec fn is_whitespace(c: char) -> bool {
    let n = c as u32;
    ||| 0x09 <= n <= 0x0D
    ||| n == 0x20
    ||| n == 0x85
    ||| n == 0xA0
    ||| n == 0x1680
    ||| 0x2000 <= n <= 0x200A
    ||| n == 0x2028
    ||| n == 0x2029
    ||| n == 0x202F
    ||| n == 0x205F
    ||| n == 0x3000
}

/// Tells whether a character is white space.
pub fn char_is_whitespace(c: char) -> (r: bool)
    ensures
        r == is_whitespace(c),
{
    let n: u32 = c as u32;
    (0x09 <= n && n <= 0x0D) || n == 0x20 || n == 0x85 || n == 0xA0 || n == 0x1680 || (0x2000 <= n
        && n <= 0x200A) || n == 0x2028 || n == 0x2029 || n == 0x202F || n == 0x205F || n == 0x3000
}

/// The property of being white space.
pub open spec fn white() -> spec_fn(char) -> bool {
    |c: char| is_whitespace(c)
}

/// The property of being no white space.
pub open spec fn non_white() -> spec_fn(char) -> bool {
    |c: char| !is_whitespace(c)
}

/// Number of white-space characters that `s` begins with.
pub open spec fn leading_whitespace(s: Seq<char>) -> int {
    first_index(s, non_white())
}

/// Number of characters other than white space that `s` begins with.
pub open spec fn leading_word(s: Seq<char>) -> int {
    first_index(s, white())
}

/// `s` without the white space that it begins with.
pub open spec fn trim_start(s: Seq<char>) -> Seq<char> {
    s.skip(leading_whitespace(s))
}

/// Counts the white-space characters at the start of `s`.
pub fn count_leading_whitespace(s: &[char]) -> (i: usize)
    ensures
        i == leading_whitespace(s@),
        i <= s.len(),
{
    let mut i: usize = 0;
    while i < s.len() && char_is_whitespace(s[i])
        invariant
            0 <= i <= s.len(),
            forall|k: int| 0 <= k < i ==> is_whitespace(s@[k]),
        decreases s.len() - i,
    {
        i += 1;
    }
    proof {
        lemma_first_index_is(s@, non_white(), i as int);
    }
    i
}

/// Counts the characters before the first white space of `s`.
pub fn count_leading_word(s: &[char]) -> (i: usize)
    ensures
        i == leading_word(s@),
        i <= s.len(),
{
    let mut i: usize = 0;
    while i < s.len() && !char_is_whitespace(s[i])
        invariant
            0 <= i <= s.len(),
            forall|k: int| 0 <= k < i ==> !is_whitespace(s@[k]),
        decreases s.len() - i,
    {
        i += 1;
    }
    proof {
        lemma_first_index_is(s@, white(), i as int);
    }
    i
}

/// Drops the white space at the start of `s`.
pub fn trim_start_chars<'a>(s: &'a [char]) -> (r: &'a [char])
    ensures
        r@ == trim_start(s@),
{
    let i = count_leading_whitespace(s);
    slice_subrange(s, i, s.len())
}

/// The character sequences that a list of slices holds.
pub open spec fn views(parts: Seq<&[char]>) -> Seq<Seq<char>> {
    parts.map_values(|p: &[char]| p@)
}

/// `s` without the carriage return that it ends with, if it ends with one.
pub open spec fn strip_cr(s: Seq<char>) -> Seq<char> {
    if s.len() > 0 && s.last() == '\r' {
        s.drop_last()
    } else {
        s
    }
}

/// The lines of `s`. A line ends with a line feed, or with a carriage return
/// and a line feed, neither of which belongs to it; the last line may lack
/// that ending, and then keeps a carriage return at its end.
pub open spec fn lines(s: Seq<char>) -> Seq<Seq<char>>
    decreases s.len(),
{
    if s.len() == 0 {
        Seq::empty()
    } else {
        let i = position(s, '\n');
        if i < s.len() {
            proof {
                lemma_first_index(s, is_char('\n'));
            }
            seq![strip_cr(s.take(i))] + lines(s.skip(i + 1))
        } else {
            seq![s]
        }
    }
}

/// The parts of `s` between the occurrences of `c`: one more than there are
/// occurrences, empty parts included.
pub open spec fn split(s: Seq<char>, c: char) -> Seq<Seq<char>>
    decreases s.len(),
{
    let i = position(s, c);
    if i < s.len() {
        proof {
            lemma_first_index(s, is_char(c));
        }
        seq![s.take(i)] + split(s.skip(i + 1), c)
    } else {
        seq![s]
    }
}

/// The words of `s`: its longest runs of characters other than white space.
pub open spec fn split_whitespace(s: Seq<char>) -> Seq<Seq<char>>
    decreases s.len(),
{
    let t = trim_start(s);
    if t.len() > 0 {
        let n = leading_word(t);
        proof {
            lemma_first_index(s, non_white());
            lemma_first_index(t, white());
            assert(non_white()(t[0]));
        }
        seq![t.take(n)] + split_whitespace(t.skip(n))
    } else {
        Seq::empty()
    }
}

/// Splits `s` into its lines.
pub fn lines_of<'a>(s: &'a [char]) -> (r: Vec<&'a [char]>)
    ensures
        views(r@) == lines(s@),
{
    let mut out: Vec<&'a [char]> = Vec::new();
    let mut pos: usize = 0;
    assert(s@.skip(0) =~= s@);
    while pos < s.len()
        invariant
            0 <= pos <= s.len(),
            lines(s@) == views(out@) + lines(s@.skip(pos as int)),
        decreases s.len() - pos,
    {
        let rest = slice_subrange(s, pos, s.len());
        assert(rest@ =~= s@.skip(pos as int));
        let i = find_char(rest, '\n');
        let ghost before = out@;
        if i < rest.len() {
            let line = slice_subrange(rest, 0, i);
            let line = if i > 0 && line[i - 1] == '\r' {
                slice_subrange(line, 0, i - 1)
            } else {
                line
            };
            assert(line@ =~= strip_cr(rest@.take(i as int)));
            out.push(line);
            assert(rest@.skip(i + 1) =~= s@.skip(pos + i + 1));
            assert(views(out@) =~= views(before) + seq![line@]);
            pos = pos + i + 1;
        } else {
            out.push(rest);
            assert(views(out@) =~= views(before) + seq![rest@]);
            pos = s.len();
            assert(lines(s@.skip(pos as int)) =~= Seq::<Seq<char>>::empty());
        }
    }
    assert(lines(s@.skip(pos as int)) =~= Seq::<Seq<char>>::empty());
    out
}

/// Splits `s` at every `c`.
pub fn split_at_char<'a>(s: &'a [char], c: char) -> (r: Vec<&'a [char]>)
    ensures
        views(r@) == split(s@, c),
{
    let mut out: Vec<&'a [char]> = Vec::new();
    let mut pos: usize = 0;
    assert(s@.skip(0) =~= s@);
    loop
        invariant_except_break
            0 <= pos <= s.len(),
            split(s@, c) == views(out@) + split(s@.skip(pos as int), c),
        ensures
            views(out@) == split(s@, c),
        decreases s.len() - pos,
    {
        let rest = slice_subrange(s, pos, s.len());
        assert(rest@ =~= s@.skip(pos as int));
        let i = find_char(rest, c);
        let ghost before = out@;
        if i < rest.len() {
            let part = slice_subrange(rest, 0, i);
            assert(part@ =~= rest@.take(i as int));
            out.push(part);
            assert(rest@.skip(i + 1) =~= s@.skip(pos + i + 1));
            assert(views(out@) =~= views(before) + seq![part@]);
            pos = pos + i + 1;
        } else {
            out.push(rest);
            assert(views(out@) =~= views(before) + seq![rest@]);
            break;
        }
    }
    out
}

/// Splits `s` into its words.
pub fn words_of<'a>(s: &'a [char]) -> (r: Vec<&'a [char]>)
    ensures
        views(r@) == split_whitespace(s@),
{
    let mut out: Vec<&'a [char]> = Vec::new();
    let mut pos: usize = 0;
    assert(s@.skip(0) =~= s@);
    loop
        invariant_except_break
            0 <= pos <= s.len(),
            split_whitespace(s@) == views(out@) + split_whitespace(s@.skip(pos as int)),
        ensures
            views(out@) == split_whitespace(s@),
        decreases s.len() - pos,
    {
        let rest = slice_subrange(s, pos, s.len());
        assert(rest@ =~= s@.skip(pos as int));
        let skipped = count_leading_whitespace(rest);
        let trimmed = slice_subrange(rest, skipped, rest.len());
        assert(trimmed@ =~= trim_start(rest@));
        let n = count_leading_word(trimmed);
        proof {
            lemma_first_index(trimmed@, white());
            lemma_first_index(rest@, non_white());
        }
        let ghost before = out@;
        if n > 0 {
            let word = slice_subrange(trimmed, 0, n);
            assert(word@ =~= trimmed@.take(n as int));
            out.push(word);
            assert(trimmed@.skip(n as int) =~= s@.skip(pos + skipped + n));
            assert(views(out@) =~= views(before) + seq![word@]);
            pos = pos + skipped + n;
        } else {
            assert(views(out@) =~= views(before) + Seq::<Seq<char>>::empty());
            break;
        }
    }
    out
}

/// Whether `s` begins with `prefix`.
pub open spec fn starts_with(s: Seq<char>, prefix: Seq<char>) -> bool {
    prefix.len() <= s.len() && s.take(prefix.len() as int) == prefix
}

/// Whether `needle` occurs in `s` as a run of adjacent characters.
pub open spec fn contains(s: Seq<char>, needle: Seq<char>) -> bool {
    exists|i: int| 0 <= i <= s.len() && #[trigger] starts_with(s.skip(i), needle)
}

/// `s` with every `from` replaced by `to`.
pub open spec fn replace(s: Seq<char>, from: char, to: char) -> Seq<char> {
    s.map_values(
        |c: char|
            if c == from {
                to
            } else {
                c
            },
    )
}

/// The parts, with `sep` between each two neighbours.
pub open spec fn join(parts: Seq<Seq<char>>, sep: char) -> Seq<char>
    decreases parts.len(),
{
    if parts.len() == 0 {
        Seq::empty()
    } else if parts.len() == 1 {
        parts[0]
    } else {
        parts[0] + seq![sep] + join(parts.skip(1), sep)
    }
}

/// Tells whether two slices hold the same characters.
pub fn chars_eq(a: &[char], b: &[char]) -> (r: bool)
    ensures
        r == (a@ == b@),
{
    if a.len() != b.len() {
        return false;
    }
    let mut i: usize = 0;
    while i < a.len()
        invariant
            0 <= i <= a.len(),
            a.len() == b.len(),
            forall|k: int| 0 <= k < i ==> a@[k] == b@[k],
        decreases a.len() - i,
    {
        if a[i] != b[i] {
            return false;
        }
        i += 1;
    }
    assert(a@ =~= b@);
    true
}

/// Tells whether `s` begins with `prefix`.
pub fn chars_start_with(s: &[char], prefix: &[char]) -> (r: bool)
    ensures
        r == starts_with(s@, prefix@),
{
    if prefix.len() > s.len() {
        return false;
    }
    let head = slice_subrange(s, 0, prefix.len());
    chars_eq(head, prefix)
}

/// Tells whether `needle` occurs in `s`.
pub fn chars_contain(s: &[char], needle: &[char]) -> (r: bool)
    ensures
        r == contains(s@, needle@),
{
    let mut i: usize = 0;
    while i <= s.len()
        invariant
            0 <= i <= s.len() + 1,
            forall|k: int| 0 <= k < i ==> !starts_with(s@.skip(k), needle@),
        decreases s.len() + 1 - i,
    {
        let rest = slice_subrange(s, i, s.len());
        assert(rest@ =~= s@.skip(i as int));
        if chars_start_with(rest, needle) {
            return true;
        }
        if i == s.len() {
            return false;
        }
        i += 1;
    }
    false
}

/// Tells whether two strings hold the same characters.
pub fn str_eq(a: &str, b: &str) -> (r: bool)
    ensures
        r == (a@ == b@),
{
    let x = str_chars(a);
    let y = str_chars(b);
    chars_eq(x.as_slice(), y.as_slice())
}

/// Tells whether `needle` occurs in `s`.
pub fn str_contains(s: &str, needle: &str) -> (r: bool)
    ensures
        r == contains(s@, needle@),
{
    let x = str_chars(s);
    let y = str_chars(needle);
    chars_contain(x.as_slice(), y.as_slice())
}

/// Tells whether `s` begins with `prefix`.
pub fn str_starts_with(s: &str, prefix: &str) -> (r: bool)
    ensures
        r == starts_with(s@, prefix@),
{
    let x = str_chars(s);
    let y = str_chars(prefix);
    chars_start_with(x.as_slice(), y.as_slice())
}

/// Replaces every `from` in `s` by `to`.
pub fn replace_char(s: &str, from: char, to: char) -> (r: String)
    ensures
        r@ == replace(s@, from, to),
{
    let mut r = String::new();
    for c in it: s.chars()
        invariant
            it.seq() == s@,
            r@ == replace(it.seq().take(it.index() as int), from, to),
    {
        let ghost done = it.seq().take(it.index() as int);
        let d = if c == from {
            to
        } else {
            c
        };
        string_push(&mut r, d);
        assert(replace(it.seq().take(it.index() + 1), from, to) =~= replace(done, from, to).push(
            d,
        ));
    }
    r
}

/// Text that begins with a line and a line feed has that line as its first
/// line, and the lines of what follows as its other lines.
pub proof fn lemma_lines_first(line: Seq<char>, rest: Seq<char>)
    requires
        !line.contains('\n'),
        line.len() > 0 ==> line.last() != '\r',
    ensures
        lines(line + seq!['\n'] + rest) == seq![line] + lines(rest),
{
    let s = line + seq!['\n'] + rest;
    let n = line.len() as int;
    assert forall|k: int| 0 <= k < n implies !is_char('\n')(#[trigger] s[k]) by {
        assert(s[k] == line[k]);
    }
    assert(s[n] == '\n');
    lemma_first_index_is(s, is_char('\n'), n);
    assert(s.take(n) =~= line);
    assert(s.skip(n + 1) =~= rest);
}

/// Splitting never yields an empty list.
pub proof fn lemma_split_nonempty(s: Seq<char>, c: char)
    ensures
        split(s, c).len() >= 1,
    decreases s.len(),
{
    let i = position(s, c);
    lemma_first_index(s, is_char(c));
    if i < s.len() {
        lemma_split_nonempty(s.skip(i + 1), c);
    }
}

/// Splitting `s` at every `c` and joining the parts with `d` gives `s` with
/// every `c` replaced by `d`.
pub proof fn lemma_join_split(s: Seq<char>, c: char, d: char)
    ensures
        join(split(s, c), d) == replace(s, c, d),
    decreases s.len(),
{
    let i = position(s, c);
    lemma_first_index(s, is_char(c));
    if i < s.len() {
        let head = s.take(i);
        let rest = s.skip(i + 1);
        let parts = split(s, c);
        lemma_join_split(rest, c, d);
        lemma_split_nonempty(rest, c);
        assert(parts.skip(1) =~= split(rest, c));
        assert(parts[0] == head);
        assert(join(parts, d) == head + seq![d] + join(split(rest, c), d));
        assert(replace(s, c, d) =~= head + seq![d] + replace(rest, c, d));
    } else {
        assert(split(s, c) =~= seq![s]);
        assert(replace(s, c, d) =~= s);
    }
}

} // verus!
