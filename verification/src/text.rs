//! Text as sequences of characters: trimming, lines, searching, splitting and
//! joining, each with the mathematical function that it computes.

use vstd::prelude::*;

verus! {

/// The characters with the Unicode `White_Space` property.
pub open spec fn is_white_space(c: char) -> bool {
    ||| '\u{9}' <= c <= '\u{d}'
    ||| c == '\u{20}'
    ||| c == '\u{85}'
    ||| c == '\u{a0}'
    ||| c == '\u{1680}'
    ||| '\u{2000}' <= c <= '\u{200a}'
    ||| c == '\u{2028}'
    ||| c == '\u{2029}'
    ||| c == '\u{202f}'
    ||| c == '\u{205f}'
    ||| c == '\u{3000}'
}

/// `char::is_whitespace`: whether the character has the Unicode `White_Space`
/// property, that is, is one of those that `PropList.txt` lists under it.
pub assume_specification[ char::is_whitespace ](c: char) -> (b: bool)
    ensures
        b == is_white_space(c),
;

/// `String::push`: appends the character to the end of the string.
pub assume_specification[ String::push ](s: &mut String, c: char)
    ensures
        final(s)@ == old(s)@.push(c),
;

/// The characters of a string, in order.
pub fn chars_of(text: &str) -> (chars: Vec<char>)
    ensures
        chars@ == text@,
{
    let mut chars: Vec<char> = Vec::new();
    for c in iter: text.chars()
        invariant
            iter.seq() == text@,
            chars@ == text@.take(iter.index() as int),
    {
        chars.push(c);
        assert(text@.take(iter.index() + 1) == text@.take(iter.index() as int).push(c));
    }
    assert(text@.take(text@.len() as int) == text@);
    chars
}

/// The string made of the given characters.
pub fn string_of(chars: &[char]) -> (text: String)
    ensures
        text@ == chars@,
{
    let mut text = String::new();
    for i in 0..chars.len()
        invariant
            text@ == chars@.take(i as int),
    {
        text.push(chars[i]);
        assert(chars@.take(i + 1) == chars@.take(i as int).push(chars@[i as int]));
    }
    assert(chars@.take(chars@.len() as int) == chars@);
    text
}

/// Whether two texts hold the same characters.
pub fn same_text(a: &str, b: &str) -> (same: bool)
    ensures
        same == (a@ == b@),
{
    a.to_owned() == b.to_owned()
}

/// The text without its trailing white space.
pub open spec fn trim_end(s: Seq<char>) -> Seq<char>
    decreases s.len(),
{
    if s.len() > 0 && is_white_space(s.last()) {
        trim_end(s.drop_last())
    } else {
        s
    }
}

/// The text without its leading white space.
pub open spec fn trim_start(s: Seq<char>) -> Seq<char>
    decreases s.len(),
{
    if s.len() > 0 && is_white_space(s[0]) {
        trim_start(s.drop_first())
    } else {
        s
    }
}

/// The text without its leading and trailing white space.
pub open spec fn trim(s: Seq<char>) -> Seq<char> {
    trim_end(trim_start(s))
}

/// Drops trailing white space.
pub fn trimmed_end(s: &[char]) -> (r: &[char])
    ensures
        r@ == trim_end(s@),
{
    let mut end: usize = s.len();
    assert(s@.take(end as int) == s@);
    while end > 0 && s[end - 1].is_whitespace()
        invariant
            end <= s@.len(),
            trim_end(s@) == trim_end(s@.take(end as int)),
        decreases end,
    {
        assert(s@.take(end as int).drop_last() == s@.take(end - 1));
        end = end - 1;
    }
    vstd::slice::slice_subrange(s, 0, end)
}

/// Drops leading white space.
pub fn trimmed_start(s: &[char]) -> (r: &[char])
    ensures
        r@ == trim_start(s@),
{
    let mut start: usize = 0;
    assert(s@.skip(0) == s@);
    while start < s.len() && s[start].is_whitespace()
        invariant
            start <= s@.len(),
            trim_start(s@) == trim_start(s@.skip(start as int)),
        decreases s@.len() - start,
    {
        assert(s@.skip(start as int).drop_first() == s@.skip(start + 1));
        start = start + 1;
    }
    assert(s@.subrange(start as int, s@.len() as int) == s@.skip(start as int));
    vstd::slice::slice_subrange(s, start, s.len())
}

/// Drops leading and trailing white space.
pub fn trimmed(s: &[char]) -> (r: &[char])
    ensures
        r@ == trim(s@),
{
    trimmed_end(trimmed_start(s))
}

/// The number of characters before the first `c`, or the length of the text
/// where `c` does not occur.
pub open spec fn until(s: Seq<char>, c: char) -> nat
    decreases s.len(),
{
    if s.len() == 0 || s[0] == c {
        0
    } else {
        1 + until(s.drop_first(), c)
    }
}

/// `until` is the only position that it can be.
pub proof fn lemma_until(s: Seq<char>, c: char, n: int)
    requires
        0 <= n <= s.len(),
        forall|i: int| 0 <= i < n ==> s[i] != c,
        n == s.len() || s[n] == c,
    ensures
        until(s, c) == n,
    decreases s.len(),
{
    if n > 0 {
        assert(s[0] != c);
        lemma_until(s.drop_first(), c, n - 1);
    }
}

/// A line without the carriage return that ends it.
pub open spec fn strip_return(s: Seq<char>) -> Seq<char> {
    if s.len() > 0 && s.last() == '\r' {
        s.drop_last()
    } else {
        s
    }
}

/// The lines of a text. A line ends with a line feed, or with a carriage
/// return and a line feed; neither belongs to the line, and the last line need
/// not end with one.
pub open spec fn lines(s: Seq<char>) -> Seq<Seq<char>>
    decreases s.len(),
{
    let n = until(s, '\n') as int;
    if s.len() == 0 {
        seq![]
    } else if n >= s.len() {
        seq![s]
    } else {
        seq![strip_return(s.take(n))] + lines(s.skip(n + 1))
    }
}

/// The given parts one after the other, with the separator between each two.
pub open spec fn join(parts: Seq<Seq<char>>, sep: Seq<char>) -> Seq<char>
    decreases parts.len(),
{
    if parts.len() == 0 {
        seq![]
    } else if parts.len() == 1 {
        parts[0]
    } else {
        join(parts.drop_last(), sep) + sep + parts.last()
    }
}

/// The texts that a list of strings holds.
pub open spec fn texts(list: Seq<String>) -> Seq<Seq<char>> {
    list.map_values(|s: String| s@)
}

/// Splits a text into its lines.
pub fn lines_of(s: &[char]) -> (r: Vec<String>)
    ensures
        texts(r@) == lines(s@),
{
    let mut r: Vec<String> = Vec::new();
    let mut start: usize = 0;
    let mut i: usize = 0;
    assert(s@.skip(0) == s@);
    assert(texts(r@) + lines(s@) == lines(s@));
    while i < s.len()
        invariant
            start <= i <= s@.len(),
            forall|j: int| start <= j < i ==> s@[j] != '\n',
            lines(s@) == texts(r@) + lines(s@.skip(start as int)),
        decreases s@.len() - i,
    {
        if s[i] == '\n' {
            let ghost rest = s@.skip(start as int);
            let ghost before = texts(r@);
            proof {
                lemma_until(rest, '\n', i - start);
                assert(rest.take(i - start) == s@.subrange(start as int, i as int));
                assert(rest.skip(i - start + 1) == s@.skip(i + 1));
            }
            let end: usize = if start < i && s[i - 1] == '\r' {
                i - 1
            } else {
                i
            };
            let line = string_of(vstd::slice::slice_subrange(s, start, end));
            assert(line@ == strip_return(rest.take(i - start)));
            r.push(line);
            assert(texts(r@) == before.push(line@));
            start = i + 1;
            assert(lines(s@) == texts(r@) + lines(s@.skip(start as int)));
        }
        i = i + 1;
    }
    let ghost rest = s@.skip(start as int);
    if start < s.len() {
        proof {
            lemma_until(rest, '\n', rest.len() as int);
        }
        let ghost before = texts(r@);
        let line = string_of(vstd::slice::slice_subrange(s, start, s.len()));
        assert(line@ == rest);
        r.push(line);
        assert(texts(r@) == before.push(line@));
        assert(lines(s@) == texts(r@));
    } else {
        assert(lines(rest) == Seq::<Seq<char>>::empty());
        assert(lines(s@) == texts(r@));
    }
    r
}

/// Joins strings with a separator between each two.
pub fn joined(parts: &[String], sep: &str) -> (r: String)
    ensures
        r@ == join(texts(parts@), sep@),
{
    let mut r = String::new();
    for i in 0..parts.len()
        invariant
            r@ == join(texts(parts@).take(i as int), sep@),
    {
        if i > 0 {
            r.append(sep);
        }
        r.append(parts[i].as_str());
        assert(texts(parts@).take(i + 1).drop_last() == texts(parts@).take(i as int));
    }
    assert(texts(parts@).take(parts@.len() as int) == texts(parts@));
    r
}

/// Whether a text begins with `prefix`.
pub open spec fn starts_with(s: Seq<char>, prefix: Seq<char>) -> bool {
    prefix.len() <= s.len() && s.take(prefix.len() as int) == prefix
}

/// Tests whether a text begins with `prefix`.
pub fn has_prefix(s: &[char], prefix: &[char]) -> (b: bool)
    ensures
        b == starts_with(s@, prefix@),
{
    if s.len() < prefix.len() {
        return false;
    }
    for i in 0..prefix.len()
        invariant
            prefix@.len() <= s@.len(),
            s@.take(i as int) == prefix@.take(i as int),
    {
        if s[i] != prefix[i] {
            assert(s@.take(prefix@.len() as int)[i as int] != prefix@[i as int]);
            return false;
        }
        assert(s@.take(i + 1) == s@.take(i as int).push(s@[i as int]));
        assert(prefix@.take(i + 1) == prefix@.take(i as int).push(prefix@[i as int]));
    }
    assert(prefix@.take(prefix@.len() as int) == prefix@);
    true
}

/// The position of the first occurrence of `needle`, if there is one.
pub open spec fn find(s: Seq<char>, needle: Seq<char>) -> Option<nat>
    decreases s.len(),
{
    if starts_with(s, needle) {
        Some(0nat)
    } else if s.len() == 0 {
        None
    } else {
        match find(s.drop_first(), needle) {
            Some(n) => Some(n + 1),
            None => None,
        }
    }
}

/// Whether `needle` occurs in a text.
pub open spec fn contains(s: Seq<char>, needle: Seq<char>) -> bool {
    exists|i: int| 0 <= i <= s.len() && #[trigger] starts_with(s.skip(i), needle)
}

/// `find` is the least position at which `needle` occurs.
pub proof fn lemma_find(s: Seq<char>, needle: Seq<char>)
    ensures
        match find(s, needle) {
            Some(n) => {
                &&& n + needle.len() <= s.len()
                &&& starts_with(s.skip(n as int), needle)
                &&& forall|i: int| 0 <= i < n ==> !#[trigger] starts_with(s.skip(i), needle)
            },
            None => forall|i: int| 0 <= i <= s.len() ==> !#[trigger] starts_with(s.skip(i), needle),
        },
    decreases s.len(),
{
    assert(s.skip(0) == s);
    if starts_with(s, needle) {
    } else if s.len() > 0 {
        let tail = s.drop_first();
        lemma_find(tail, needle);
        assert forall|i: int| 1 <= i <= s.len() implies #[trigger] s.skip(i) == tail.skip(i - 1) by {}
        match find(tail, needle) {
            Some(n) => {
                assert(s.skip((n + 1) as int) == tail.skip(n as int));
                assert forall|i: int| 0 <= i < n + 1 implies !#[trigger] starts_with(
                    s.skip(i),
                    needle,
                ) by {
                    if i > 0 {
                        assert(s.skip(i) == tail.skip(i - 1));
                    }
                }
            },
            None => {
                assert forall|i: int| 0 <= i <= s.len() implies !#[trigger] starts_with(
                    s.skip(i),
                    needle,
                ) by {
                    if i > 0 {
                        assert(s.skip(i) == tail.skip(i - 1));
                    }
                }
            },
        }
    }
}

/// Finds the first occurrence of `needle`.
pub fn position_of(s: &[char], needle: &[char]) -> (r: Option<usize>)
    ensures
        match r {
            Some(n) => find(s@, needle@) == Some(n as nat),
            None => find(s@, needle@) is None,
        },
{
    proof {
        lemma_find(s@, needle@);
    }
    let mut i: usize = 0;
    while i < s.len()
        invariant
            i <= s@.len(),
            forall|j: int| 0 <= j < i ==> !#[trigger] starts_with(s@.skip(j), needle@),
        decreases s@.len() - i,
    {
        let rest = vstd::slice::slice_subrange(s, i, s.len());
        assert(rest@ == s@.skip(i as int));
        if has_prefix(rest, needle) {
            proof {
                lemma_find(s@, needle@);
            }
            return Some(i);
        }
        i = i + 1;
    }
    proof {
        lemma_find(s@, needle@);
    }
    assert(s@.skip(s@.len() as int).len() == 0);
    if needle.len() == 0 {
        assert(s@.skip(s@.len() as int).take(0) == needle@);
        assert(starts_with(s@.skip(s@.len() as int), needle@));
        Some(i)
    } else {
        None
    }
}

/// Tests whether `needle` occurs in a text.
pub fn has_occurrence(s: &[char], needle: &[char]) -> (b: bool)
    ensures
        b == contains(s@, needle@),
{
    proof {
        lemma_find(s@, needle@);
    }
    position_of(s, needle).is_some()
}

/// The parts of a text between the occurrences of a delimiter, which are
/// looked for from left to right and do not overlap.
pub open spec fn split(s: Seq<char>, delimiter: Seq<char>) -> Seq<Seq<char>>
    recommends
        delimiter.len() > 0,
    decreases s.len(),
{
    match find(s, delimiter) {
        Some(n) => if delimiter.len() > 0 && n + delimiter.len() <= s.len() {
            seq![s.take(n as int)] + split(s.skip((n + delimiter.len()) as int), delimiter)
        } else {
            seq![s]
        },
        None => seq![s],
    }
}

/// Joining the parts of a split text with the delimiter gives the text back.
pub proof fn law_split_join(s: Seq<char>, delimiter: Seq<char>)
    requires
        delimiter.len() > 0,
    ensures
        split(s, delimiter).len() >= 1,
        join(split(s, delimiter), delimiter) == s,
    decreases s.len(),
{
    lemma_find(s, delimiter);
    match find(s, delimiter) {
        Some(n) => {
            let head = s.take(n as int);
            let tail = s.skip((n + delimiter.len()) as int);
            law_split_join(tail, delimiter);
            lemma_join_prepend(head, split(tail, delimiter), delimiter);
            assert(s.skip(n as int).take(delimiter.len() as int) == delimiter);
            assert(s == head + delimiter + tail);
        },
        None => {},
    }
}

/// A join can be taken apart after its first part.
pub proof fn lemma_join_prepend(head: Seq<char>, parts: Seq<Seq<char>>, sep: Seq<char>)
    requires
        parts.len() > 0,
    ensures
        join(seq![head] + parts, sep) == head + sep + join(parts, sep),
    decreases parts.len(),
{
    let all = seq![head] + parts;
    assert(all.last() == parts.last());
    assert(all.drop_last() == seq![head] + parts.drop_last());
    if parts.len() == 1 {
        assert(all.drop_last() == seq![head]);
        assert(join(all.drop_last(), sep) == head);
    } else {
        lemma_join_prepend(head, parts.drop_last(), sep);
        assert(head + sep + join(parts.drop_last(), sep) + sep + parts.last() == head + sep + (join(
            parts.drop_last(),
            sep,
        ) + sep + parts.last()));
    }
}

} // verus!
