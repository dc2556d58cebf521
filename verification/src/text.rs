//! Text handling on sequences of characters: the paragraph separator of a
//! commit message, the document-start line of YAML text, and trimming.

use vstd::prelude::*;
use vstd::std_specs::iter::IteratorSpec;
use vstd::string::*;

verus! {

/// The characters of `s`, in order.
pub fn chars_of(s: &str) -> (v: Vec<char>)
    ensures
        v@ == s@,
{
    let n: usize = s.unicode_len();
    let mut it = s.chars();
    let mut v: Vec<char> = Vec::new();
    let mut k: usize = 0;
    while k < n
        invariant
            k <= n,
            n == s@.len(),
            it.obeys_prophetic_iter_laws(),
            v@ == s@.subrange(0, k as int),
            it.remaining() == s@.subrange(k as int, n as int),
        decreases n - k,
    {
        let ghost before = it;
        let next = it.next();
        proof {
            next_postcondition(&before, &it, next);
            assert(it.remaining() =~= s@.subrange(k + 1, n as int));
        }
        match next {
            Some(c) => {
                v.push(c);
                assert(v@ =~= s@.subrange(0, k + 1));
            },
            None => {},
        }
        k += 1;
    }
    assert(v@ =~= s@);
    v
}

/// Whether `a` and `b` hold the same characters.
pub fn same_text(a: &str, b: &str) -> (r: bool)
    ensures
        r == (a@ == b@),
{
    let x: String = a.to_owned();
    let y: String = b.to_owned();
    x == y
}

/// Whether a blank line (two newlines in a row) starts at position `i` of `s`.
pub open spec fn separator_at(s: Seq<char>, i: int) -> bool {
    0 <= i && i + 1 < s.len() && s[i] == '\n' && s[i + 1] == '\n'
}

/// Whether `s` holds a blank line anywhere.
pub open spec fn has_separator(s: Seq<char>) -> bool {
    exists|i: int| separator_at(s, i)
}

/// Whether the last blank line of `s` starts at position `i`.
pub open spec fn is_last_separator(s: Seq<char>, i: int) -> bool {
    separator_at(s, i) && forall|j: int| j > i ==> !separator_at(s, j)
}

/// The position at which the last blank line of `s` starts.
pub open spec fn last_separator(s: Seq<char>) -> int {
    choose|i: int| is_last_separator(s, i)
}

/// What follows the last blank line of `s`, where there is one.
pub open spec fn trailer(s: Seq<char>) -> Option<Seq<char>> {
    if has_separator(s) {
        Some(s.subrange(last_separator(s) + 2, s.len() as int))
    } else {
        None
    }
}

/// The last blank line is where no later one starts: there is only one such place.
pub proof fn lemma_last_separator(s: Seq<char>, i: int)
    requires
        is_last_separator(s, i),
    ensures
        has_separator(s),
        last_separator(s) == i,
        trailer(s) == Some(s.subrange(i + 2, s.len() as int)),
{
    let k = last_separator(s);
    assert(is_last_separator(s, k));
    if k < i {
        assert(!separator_at(s, i));
    }
    if i < k {
        assert(!separator_at(s, k));
    }
}

/// Where a blank line is put between `body` and a `tail` that holds none and
/// does not start with a newline, the trailer of the whole is `tail`.
pub proof fn lemma_trailer_of_joined(body: Seq<char>, tail: Seq<char>)
    requires
        !has_separator(tail),
        tail.len() == 0 || tail[0] != '\n',
    ensures
        trailer(body + seq!['\n', '\n'] + tail) == Some(tail),
{
    let s = body + seq!['\n', '\n'] + tail;
    let i = body.len() as int;
    assert(s[i] == '\n' && s[i + 1] == '\n');
    assert(separator_at(s, i));
    assert forall|j: int| j > i implies !separator_at(s, j) by {
        if separator_at(s, j) {
            if j == i + 1 {
                assert(s[j + 1] == tail[0]);
            } else {
                assert(s[j] == tail[j - i - 2]);
                assert(s[j + 1] == tail[j - i - 1]);
                assert(separator_at(tail, j - i - 2));
            }
        }
    }
    lemma_last_separator(s, i);
    assert(s.subrange(i + 2, s.len() as int) =~= tail);
}

/// The part of `message` after its last blank line, untrimmed; `None` where
/// the message holds no blank line.
pub fn locate(message: &str) -> (r: Option<&str>)
    ensures
        r is Some <==> has_separator(message@),
        r matches Some(t) ==> trailer(message@) == Some(t@),
{
    let chars = chars_of(message);
    let n: usize = chars.len();
    if n < 2 {
        return None;
    }
    let mut i: usize = n - 1;
    while i > 0
        invariant
            i < n,
            n == chars@.len(),
            chars@ == message@,
            forall|j: int| j >= i ==> !separator_at(message@, j),
        decreases i,
    {
        i -= 1;
        if chars[i] == '\n' && chars[i + 1] == '\n' {
            proof {
                assert(separator_at(message@, i as int));
                lemma_last_separator(message@, i as int);
            }
            return Some(message.substring_char(i + 2, n));
        }
    }
    None
}

/// Whether `s` starts with a document-start line: three hyphens at its very
/// start, followed by a line end or by the end of the text.
pub open spec fn starts_with_marker(s: Seq<char>) -> bool {
    s.len() >= 3 && s[0] == '-' && s[1] == '-' && s[2] == '-' && (s.len() == 3 || s[3] == '\n'
        || s[3] == '\r')
}

/// `s` without the three hyphens of a document-start line at its start;
/// all of `s` where it starts with none. Hyphens anywhere else stay.
pub open spec fn without_marker(s: Seq<char>) -> Seq<char> {
    if starts_with_marker(s) {
        s.subrange(3, s.len() as int)
    } else {
        s
    }
}

/// The characters with the Unicode property `White_Space`.
pub open spec fn white_space(c: char) -> bool {
    let n = c as u32;
    (0x9 <= n <= 0xd) || n == 0x20 || n == 0x85 || n == 0xa0 || n == 0x1680 || (0x2000 <= n
        <= 0x200a) || n == 0x2028 || n == 0x2029 || n == 0x202f || n == 0x205f || n == 0x3000
}

/// `s` without the white space at its start.
pub open spec fn trim_start(s: Seq<char>) -> Seq<char>
    decreases s.len(),
{
    if s.len() > 0 && white_space(s[0]) {
        trim_start(s.drop_first())
    } else {
        s
    }
}

/// `s` without the white space at its end.
pub open spec fn trim_end(s: Seq<char>) -> Seq<char>
    decreases s.len(),
{
    if s.len() > 0 && white_space(s.last()) {
        trim_end(s.drop_last())
    } else {
        s
    }
}

/// `s` without the white space at either end.
pub open spec fn trimmed(s: Seq<char>) -> Seq<char> {
    trim_end(trim_start(s))
}

/// What is left of `s` after the white space at its start is empty or
/// starts with a character that is no white space.
pub proof fn lemma_trim_start_head(s: Seq<char>)
    ensures
        trim_start(s).len() == 0 || !white_space(trim_start(s)[0]),
    decreases s.len(),
{
    if s.len() > 0 && white_space(s[0]) {
        lemma_trim_start_head(s.drop_first());
    }
}

/// What is left of `s` after the white space at its end is empty or ends
/// with a character that is no white space, and starts as `s` does.
pub proof fn lemma_trim_end_last(s: Seq<char>)
    ensures
        trim_end(s).len() == 0 || !white_space(trim_end(s).last()),
        trim_end(s).len() > 0 ==> s.len() > 0 && trim_end(s)[0] == s[0],
    decreases s.len(),
{
    if s.len() > 0 && white_space(s.last()) {
        lemma_trim_end_last(s.drop_last());
    }
}

/// Trimmed text, where any is left, neither starts nor ends with white space.
pub proof fn lemma_trimmed_ends(s: Seq<char>)
    ensures
        trimmed(s).len() > 0 ==> !white_space(trimmed(s)[0]) && !white_space(trimmed(s).last()),
{
    lemma_trim_start_head(s);
    lemma_trim_end_last(trim_start(s));
}

/// Text that starts with no document-start line and has no white space at
/// either end is its own body: hyphens inside it stay.
pub proof fn lemma_body_of_plain_text(s: Seq<char>)
    requires
        !starts_with_marker(s),
        s.len() > 0 ==> !white_space(s[0]) && !white_space(s.last()),
    ensures
        trimmed(without_marker(s)) == s,
{
}

/// Whether `c` is white space.
pub fn is_white_space(c: char) -> (r: bool)
    ensures
        r == white_space(c),
{
    let n: u32 = c as u32;
    (0x9 <= n && n <= 0xd) || n == 0x20 || n == 0x85 || n == 0xa0 || n == 0x1680 || (0x2000 <= n
        && n <= 0x200a) || n == 0x2028 || n == 0x2029 || n == 0x202f || n == 0x205f || n
        == 0x3000
}

/// The body of YAML text: the text without a document-start line at its
/// start and without the white space around it.
pub fn document_body(text: &str) -> (r: &str)
    ensures
        r@ == trimmed(without_marker(text@)),
{
    let chars = chars_of(text);
    let n: usize = chars.len();
    let marked = n >= 3 && chars[0] == '-' && chars[1] == '-' && chars[2] == '-' && (n == 3
        || chars[3] == '\n' || chars[3] == '\r');
    let start: usize = if marked {
        3
    } else {
        0
    };
    assert(without_marker(text@) =~= text@.subrange(start as int, n as int));
    let ghost piece = text@.subrange(start as int, n as int);
    let mut a: usize = start;
    while a < n && is_white_space(chars[a])
        invariant
            start <= a <= n,
            n == chars@.len(),
            chars@ == text@,
            trim_start(piece) == trim_start(text@.subrange(a as int, n as int)),
        decreases n - a,
    {
        assert(text@.subrange(a as int, n as int).drop_first() =~= text@.subrange(
            a + 1,
            n as int,
        ));
        a += 1;
    }
    let mut b: usize = n;
    while b > a && is_white_space(chars[b - 1])
        invariant
            a <= b <= n,
            n == chars@.len(),
            chars@ == text@,
            trim_start(piece) == text@.subrange(a as int, n as int),
            trimmed(piece) == trim_end(text@.subrange(a as int, b as int)),
        decreases b,
    {
        assert(text@.subrange(a as int, b as int).drop_last() =~= text@.subrange(
            a as int,
            b - 1,
        ));
        b -= 1;
    }
    text.substring_char(a, b)
}

} // verus!
