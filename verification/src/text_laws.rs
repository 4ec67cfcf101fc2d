//! What holds of texts, numbers, names and paths, whatever they are.

use vstd::prelude::*;

use crate::numbers::decimal;
use crate::numbers::digit_value;
use crate::numbers::digits_value;
use crate::numbers::number;
use crate::order::name_le;
use crate::paths::is_component;
use crate::paths::last_len;
use crate::paths::law_join_file_name;
use crate::paths::lemma_last_len;
use crate::paths::lemma_last_len_bounds;
use crate::paths::path_file_name;
use crate::paths::path_join;
use crate::paths::path_parent;
use crate::paths::strip_tail;
use crate::text::contains;
use crate::text::find;
use crate::text::is_white_space;
use crate::text::join;
use crate::text::lemma_find;
use crate::text::lemma_join_prepend;
use crate::text::lemma_until;
use crate::text::lines;
use crate::text::split;
use crate::text::starts_with;
use crate::text::trim;
use crate::text::trim_end;
use crate::text::trim_start;

verus! {

/// Whether a text holds a character that is not white space.
pub open spec fn has_ink(s: Seq<char>) -> bool {
    exists|i: int| 0 <= i < s.len() && !is_white_space(#[trigger] s[i])
}

/// Trimming the end takes away white space only, and all of it.
pub proof fn law_trim_end(s: Seq<char>)
    ensures
        trim_end(s).len() <= s.len(),
        trim_end(s) == s.take(trim_end(s).len() as int),
        forall|i: int| trim_end(s).len() <= i < s.len() ==> is_white_space(#[trigger] s[i]),
        trim_end(s).len() > 0 ==> !is_white_space(trim_end(s).last()),
    decreases s.len(),
{
    if s.len() > 0 && is_white_space(s.last()) {
        let t = s.drop_last();
        law_trim_end(t);
        assert forall|i: int| trim_end(s).len() <= i < s.len() implies is_white_space(
            #[trigger] s[i],
        ) by {
            if i < t.len() {
                assert(t[i] == s[i]);
            }
        }
        assert(t.take(trim_end(s).len() as int) == s.take(trim_end(s).len() as int));
    } else {
        assert(s.take(s.len() as int) == s);
    }
}

/// Trimming the beginning takes away white space only, and all of it.
pub proof fn law_trim_start(s: Seq<char>)
    ensures
        trim_start(s).len() <= s.len(),
        trim_start(s) == s.skip(s.len() - trim_start(s).len()),
        forall|i: int| 0 <= i < s.len() - trim_start(s).len() ==> is_white_space(#[trigger] s[i]),
        trim_start(s).len() > 0 ==> !is_white_space(trim_start(s)[0]),
    decreases s.len(),
{
    if s.len() > 0 && is_white_space(s[0]) {
        let t = s.drop_first();
        law_trim_start(t);
        assert forall|i: int| 0 <= i < s.len() - trim_start(s).len() implies is_white_space(
            #[trigger] s[i],
        ) by {
            if i > 0 {
                assert(t[i - 1] == s[i]);
            }
        }
        assert(t.skip(t.len() - trim_start(s).len()) == s.skip(s.len() - trim_start(s).len()));
    } else {
        assert(s.skip(0) == s);
    }
}

/// A trimmed text is what lies between the first and the last character that is
/// not white space; so it is empty exactly where there is no such character.
pub proof fn law_trim(s: Seq<char>)
    ensures
        trim(s).len() > 0 <==> has_ink(s),
        exists|n: int, m: int|
            0 <= n <= m <= s.len() && trim(s) == #[trigger] s.subrange(n, m) && (forall|i: int|
                0 <= i < n || m <= i < s.len() ==> is_white_space(#[trigger] s[i])),
        trim(s).len() > 0 ==> !is_white_space(trim(s)[0]) && !is_white_space(trim(s).last()),
{
    let t = trim_start(s);
    let u = trim_end(t);
    law_trim_start(s);
    law_trim_end(t);
    let n = s.len() - t.len();
    let m = n + u.len();
    assert(u == s.subrange(n, m));
    assert forall|i: int| 0 <= i < n || m <= i < s.len() implies is_white_space(
        #[trigger] s[i],
    ) by {
        if i >= m {
            assert(t[i - n] == s[i]);
        }
    }
    if u.len() > 0 {
        assert(u[0] == t[0]);
        assert(s[n] == u[0]);
    }
    if has_ink(s) {
        let i = choose|i: int| 0 <= i < s.len() && !is_white_space(#[trigger] s[i]);
        assert(n <= i < m);
    }
}

/// White space around a text makes no difference to the trimmed text.
pub proof fn law_trim_ignores_space(lead: Seq<char>, s: Seq<char>, trail: Seq<char>)
    requires
        forall|i: int| 0 <= i < lead.len() ==> is_white_space(#[trigger] lead[i]),
        forall|i: int| 0 <= i < trail.len() ==> is_white_space(#[trigger] trail[i]),
        s.len() > 0,
        !is_white_space(s[0]),
        !is_white_space(s.last()),
    ensures
        trim_end(s + trail) == s,
        trim_start(lead + s) == s,
        trim(lead + s + trail) == s,
{
    lemma_trim_end_space(s, trail);
    lemma_trim_start_space(lead, s);
    lemma_trim_start_space(lead, s + trail);
    assert(lead + s + trail == lead + (s + trail));
}

/// White space behind a text is trimmed away.
pub proof fn lemma_trim_end_space(s: Seq<char>, trail: Seq<char>)
    requires
        forall|i: int| 0 <= i < trail.len() ==> is_white_space(#[trigger] trail[i]),
        s.len() > 0,
        !is_white_space(s.last()),
    ensures
        trim_end(s + trail) == s,
    decreases trail.len(),
{
    if trail.len() > 0 {
        assert((s + trail).last() == trail[trail.len() - 1]);
        assert((s + trail).drop_last() == s + trail.drop_last());
        lemma_trim_end_space(s, trail.drop_last());
    } else {
        assert(s + trail == s);
    }
}

/// White space before a text is trimmed away.
pub proof fn lemma_trim_start_space(lead: Seq<char>, s: Seq<char>)
    requires
        forall|i: int| 0 <= i < lead.len() ==> is_white_space(#[trigger] lead[i]),
        s.len() > 0,
        !is_white_space(s[0]),
    ensures
        trim_start(lead + s) == s,
    decreases lead.len(),
{
    if lead.len() > 0 {
        assert((lead + s)[0] == lead[0]);
        assert((lead + s).drop_first() == lead.drop_first() + s);
        lemma_trim_start_space(lead.drop_first(), s);
    } else {
        assert(lead + s == s);
    }
}

/// A text begins with a prefix exactly where it is the prefix and something
/// behind it.
pub proof fn law_starts_with(s: Seq<char>, prefix: Seq<char>)
    ensures
        starts_with(s, prefix) <==> exists|rest: Seq<char>| s == #[trigger] (prefix + rest),
{
    if starts_with(s, prefix) {
        assert(s == prefix + s.skip(prefix.len() as int));
    }
    if exists|rest: Seq<char>| s == #[trigger] (prefix + rest) {
        let rest = choose|rest: Seq<char>| s == #[trigger] (prefix + rest);
        assert(s.take(prefix.len() as int) == prefix);
    }
}

/// A needle occurs in a text exactly where the text is something, the needle and
/// something again.
pub proof fn law_contains(s: Seq<char>, needle: Seq<char>)
    ensures
        contains(s, needle) <==> exists|a: Seq<char>, b: Seq<char>| s == #[trigger] (a + needle + b),
{
    if contains(s, needle) {
        let i = choose|i: int| 0 <= i <= s.len() && #[trigger] starts_with(s.skip(i), needle);
        law_starts_with(s.skip(i), needle);
        let b = choose|rest: Seq<char>| s.skip(i) == #[trigger] (needle + rest);
        assert(s == s.take(i) + s.skip(i));
        assert(s == s.take(i) + needle + b);
    }
    if exists|a: Seq<char>, b: Seq<char>| s == #[trigger] (a + needle + b) {
        let (a, b) = choose|a: Seq<char>, b: Seq<char>| s == #[trigger] (a + needle + b);
        assert(s.skip(a.len() as int) == needle + b);
        law_starts_with(needle + b, needle);
        assert(starts_with(s.skip(a.len() as int), needle));
    }
}

/// Whether the first place where `needle` occurs in `head + needle` is behind
/// `head`.
pub open spec fn ends_at_first(head: Seq<char>, needle: Seq<char>) -> bool {
    forall|i: int|
        0 <= i < head.len() ==> #[trigger] (head + needle).subrange(i, i + needle.len()) != needle
}

/// Whether `needle` occurs nowhere in `s`.
pub open spec fn is_free_of(s: Seq<char>, needle: Seq<char>) -> bool {
    forall|i: int|
        0 <= i <= s.len() - needle.len() ==> #[trigger] s.subrange(i, i + needle.len()) != needle
}

/// A text is split where the delimiter first occurs, and the rest is split in
/// the same way.
pub proof fn law_split_at_first(head: Seq<char>, delimiter: Seq<char>, rest: Seq<char>)
    requires
        delimiter.len() > 0,
        ends_at_first(head, delimiter),
    ensures
        split(head + delimiter + rest, delimiter) == seq![head] + split(rest, delimiter),
{
    let s = head + delimiter + rest;
    let n = head.len() as int;
    lemma_find(s, delimiter);
    assert(s.skip(n).take(delimiter.len() as int) == delimiter);
    assert(starts_with(s.skip(n), delimiter));
    match find(s, delimiter) {
        Some(k) => {
            if k < n {
                assert(s.skip(k as int).take(delimiter.len() as int) == (head
                    + delimiter).subrange(k as int, (k + delimiter.len()) as int));
            }
            assert(k <= n);
            assert(k == n);
            assert(s.take(n) == head);
            assert(s.skip((n + delimiter.len()) as int) == rest);
        },
        None => {},
    }
}

/// A text in which the delimiter does not occur is one part.
pub proof fn law_split_without_delimiter(s: Seq<char>, delimiter: Seq<char>)
    requires
        delimiter.len() > 0,
        is_free_of(s, delimiter),
    ensures
        split(s, delimiter) == seq![s],
{
    lemma_find(s, delimiter);
    match find(s, delimiter) {
        Some(k) => {
            assert(s.skip(k as int).take(delimiter.len() as int) == s.subrange(
                k as int,
                (k + delimiter.len()) as int,
            ));
        },
        None => {},
    }
}

/// A join of nothing is empty, and a join of one part is that part. A separator
/// stands between two joins.
pub proof fn law_join(a: Seq<Seq<char>>, b: Seq<Seq<char>>, part: Seq<char>, sep: Seq<char>)
    requires
        a.len() > 0,
        b.len() > 0,
    ensures
        join(seq![], sep) == Seq::<char>::empty(),
        join(seq![part], sep) == part,
        join(a + b, sep) == join(a, sep) + sep + join(b, sep),
    decreases a.len(),
{
    let head = a[0];
    let tail = a.drop_first();
    if tail.len() == 0 {
        assert(a == seq![head]);
        lemma_join_prepend(head, b, sep);
    } else {
        law_join(tail, b, part, sep);
        assert(a == seq![head] + tail);
        assert(a + b == seq![head] + (tail + b));
        lemma_join_prepend(head, tail + b, sep);
        lemma_join_prepend(head, tail, sep);
        assert(head + sep + (join(tail, sep) + sep + join(b, sep)) == head + sep + join(tail, sep)
            + sep + join(b, sep));
    }
}

/// The first line of a text ends at the first line feed, and the carriage return
/// right before that does not belong to it; what follows is taken apart in the
/// same way. A text without a line feed is one line, unless it is empty.
pub proof fn law_lines(first: Seq<char>, rest: Seq<char>)
    requires
        forall|i: int| 0 <= i < first.len() ==> #[trigger] first[i] != '\n',
    ensures
        lines(first + seq!['\n'] + rest) == seq![
            if first.len() > 0 && first.last() == '\r' {
                first.drop_last()
            } else {
                first
            },
        ] + lines(rest),
        first.len() > 0 ==> lines(first) == seq![first],
        lines(Seq::<char>::empty()) == Seq::<Seq<char>>::empty(),
{
    let all = first + seq!['\n'] + rest;
    let n = first.len() as int;
    assert forall|i: int| 0 <= i < n implies all[i] != '\n' by {
        assert(all[i] == first[i]);
    }
    lemma_until(all, '\n', n);
    lemma_until(first, '\n', n);
    assert(all.take(n) == first);
    assert(all.skip(n + 1) == rest);
}

/// The lines of two texts with a line feed between them are those of the first,
/// up to that line feed, and those of the second.
pub proof fn law_lines_concat(a: Seq<char>, b: Seq<char>)
    ensures
        lines(a + seq!['\n'] + b) == lines(a + seq!['\n']) + lines(b),
        lines(a + seq!['\n']).len() >= 1,
    decreases a.len(),
{
    let feed = seq!['\n'];
    let none = Seq::<char>::empty();
    if exists|i: int| 0 <= i < a.len() && a[i] == '\n' {
        let n = first_feed(a);
        lemma_first_feed(a);
        let first = a.take(n);
        let rest = a.skip(n + 1);
        assert(a == first + feed + rest);
        assert(a + feed + b == first + feed + (rest + feed + b));
        assert(a + feed == first + feed + (rest + feed));
        law_lines(first, rest + feed + b);
        law_lines(first, rest + feed);
        law_lines_concat(rest, b);
        let line = lines(first + feed + (rest + feed))[0];
        assert(lines(a + feed + b) == seq![line] + (lines(rest + feed) + lines(b)));
        assert(lines(a + feed + b) == lines(a + feed) + lines(b));
    } else {
        law_lines(a, b);
        law_lines(a, none);
        assert(a + feed == a + feed + none);
    }
}

spec fn first_feed(s: Seq<char>) -> int
    decreases s.len(),
{
    if s.len() == 0 || s[0] == '\n' {
        0
    } else {
        1 + first_feed(s.drop_first())
    }
}

proof fn lemma_first_feed(s: Seq<char>)
    requires
        exists|i: int| 0 <= i < s.len() && s[i] == '\n',
    ensures
        0 <= first_feed(s) < s.len(),
        s[first_feed(s)] == '\n',
        forall|i: int| 0 <= i < first_feed(s) ==> #[trigger] s[i] != '\n',
    decreases s.len(),
{
    if s[0] != '\n' {
        let t = s.drop_first();
        let i = choose|i: int| 0 <= i < s.len() && s[i] == '\n';
        assert(t[i - 1] == '\n');
        lemma_first_feed(t);
        assert forall|j: int| 0 <= j < first_feed(s) implies #[trigger] s[j] != '\n' by {
            if j > 0 {
                assert(t[j - 1] == s[j]);
            }
        }
    }
}

/// Whether a text consists of decimal digits.
pub open spec fn is_digits(s: Seq<char>) -> bool {
    forall|i: int| 0 <= i < s.len() ==> '0' <= #[trigger] s[i] <= '9'
}

/// Decimal notation consists of digits and has no leading zero.
pub proof fn law_decimal_shape(n: nat)
    ensures
        decimal(n).len() >= 1,
        is_digits(decimal(n)),
        n > 0 ==> decimal(n)[0] != '0',
        n == 0 ==> decimal(n) == seq!['0'],
    decreases n,
{
    if n >= 10 {
        law_decimal_shape(n / 10);
    }
}

/// A text is a number exactly where it consists of digits, at least one, with or
/// without a plus sign before them.
pub proof fn law_number_shape(s: Seq<char>)
    ensures
        number(s) is Some <==> exists|d: Seq<char>|
            #![trigger is_digits(d)]
            d.len() > 0 && is_digits(d) && (s == d || s == seq!['+'] + d),
{
    let plus = s.len() > 0 && s[0] == '+';
    let digits = if plus {
        s.drop_first()
    } else {
        s
    };
    lemma_digits_value(digits);
    if number(s) is Some {
        assert(is_digits(digits));
        if plus {
            assert(s == seq!['+'] + digits);
        }
    }
    if exists|d: Seq<char>|
        #![trigger is_digits(d)]
        d.len() > 0 && is_digits(d) && (s == d || s == seq!['+'] + d) {
        let d = choose|d: Seq<char>|
            #![trigger is_digits(d)]
            d.len() > 0 && is_digits(d) && (s == d || s == seq!['+'] + d);
        if s == d {
            assert('0' <= d[0] <= '9');
            assert(digits == d);
        } else {
            assert(s[0] == '+');
            assert(s.drop_first() == d);
        }
    }
}

proof fn lemma_digits_value(s: Seq<char>)
    ensures
        digits_value(s) is Some <==> is_digits(s),
    decreases s.len(),
{
    if s.len() > 0 {
        let t = s.drop_last();
        lemma_digits_value(t);
        if is_digits(s) {
            assert forall|i: int| 0 <= i < t.len() implies '0' <= #[trigger] t[i] <= '9' by {
                assert(t[i] == s[i]);
            }
            assert('0' <= s[s.len() - 1] <= '9');
        }
        if digits_value(s) is Some {
            assert forall|i: int| 0 <= i < s.len() implies '0' <= #[trigger] s[i] <= '9' by {
                if i < t.len() {
                    assert(t[i] == s[i]);
                } else {
                    assert(s[i] == s.last());
                }
            }
        }
    }
}

/// One more digit makes a number ten times as large and adds the digit; a plus
/// sign and leading zeros make no difference.
pub proof fn law_number_value(d: Seq<char>, c: char)
    requires
        d.len() > 0,
        is_digits(d),
        '0' <= c <= '9',
    ensures
        number(d) is Some,
        number(d.push(c)) == Some(10 * number(d)->0 + (c as int - '0' as int) as nat),
        number(seq!['+'] + d) == number(d),
        number(seq!['0'] + d) == number(d),
        number(seq![c]) == Some((c as int - '0' as int) as nat),
{
    lemma_digits_value(d);
    assert('0' <= d[0] <= '9');
    assert(d.push(c).drop_last() == d);
    assert(d.push(c)[0] == d[0]);
    assert((seq!['+'] + d).drop_first() == d);
    lemma_leading_zero(d);
    assert((seq!['0'] + d)[0] == '0');
    assert(seq![c].drop_last() == Seq::<char>::empty());
    assert(digits_value(Seq::<char>::empty()) == Some(0nat));
    assert(digit_value(c) == Some((c as int - 48) as nat));
}

proof fn lemma_leading_zero(d: Seq<char>)
    ensures
        digits_value(seq!['0'] + d) == digits_value(d),
    decreases d.len(),
{
    let s = seq!['0'] + d;
    if d.len() == 0 {
        assert(s.drop_last() == Seq::<char>::empty());
        assert(digits_value(Seq::<char>::empty()) == Some(0nat));
        assert(s.last() == '0');
    } else {
        assert(s.drop_last() == seq!['0'] + d.drop_last());
        assert(s.last() == d.last());
        lemma_leading_zero(d.drop_last());
    }
}

/// Two names are ordered by the first character in which they differ; where one
/// is the beginning of the other, it comes first.
pub proof fn law_name_le(p: Seq<char>, x: char, a: Seq<char>, y: char, b: Seq<char>)
    requires
        x != y,
    ensures
        name_le(p + seq![x] + a, p + seq![y] + b) == (x < y),
        name_le(p, p + b),
        b.len() > 0 ==> !name_le(p + b, p),
    decreases p.len(),
{
    let s = p + seq![x] + a;
    let t = p + seq![y] + b;
    if p.len() > 0 {
        let q = p.drop_first();
        law_name_le(q, x, a, y, b);
        assert(s.drop_first() == q + seq![x] + a);
        assert(t.drop_first() == q + seq![y] + b);
        assert((p + b).drop_first() == q + b);
        assert(s[0] == p[0] && t[0] == p[0] && (p + b)[0] == p[0]);
    } else {
        assert(s[0] == x && t[0] == y);
        assert(p + b == b);
    }
}

/// A name that is not absolute is put behind the base, with one separator
/// between them; an absolute name stands for itself.
pub proof fn law_join_path(base: Seq<char>, name: Seq<char>)
    requires
        name.len() > 0,
    ensures
        name[0] == '/' ==> path_join(base, name) == name,
        name[0] != '/' && base.len() == 0 ==> path_join(base, name) == name,
        name[0] != '/' ==> path_join(base.push('/'), name) == base.push('/') + name,
        name[0] != '/' && base.len() > 0 && base.last() != '/' ==> path_join(base, name)
            == path_join(base.push('/'), name),
{
    assert(base + seq!['/'] == base.push('/'));
    assert(Seq::<char>::empty() + name == name);
    assert(base.len() == 0 ==> base + name == name);
}

/// The file name of a path is its last component, whatever separators and `.`
/// components follow it. A path that ends in `..` has none.
pub proof fn law_file_name(base: Seq<char>, name: Seq<char>)
    requires
        is_component(name),
    ensures
        path_file_name(name) == Some(name),
        path_file_name(base + seq!['/'] + name) == Some(name),
        path_file_name(base + seq!['/', '.', '.']) is None,
        path_file_name(seq!['.', '.']) is None,
        path_file_name(seq!['.']) is None,
        path_file_name(Seq::<char>::empty()) is None,
        path_file_name(base.push('/')) == path_file_name(base),
        path_file_name(base + seq!['/', '.']) == path_file_name(base),
{
    let none = Seq::<char>::empty();
    law_join_file_name(none, name);
    assert(path_join(none, name) == name) by {
        assert(name[0] != '/');
        assert(none + name == name);
    }
    law_join_file_name(base.push('/'), name);
    assert(name[0] != '/');
    assert(path_join(base.push('/'), name) == base + seq!['/'] + name);
    let up = base + seq!['/', '.', '.'];
    assert(strip_tail(up) == up);
    lemma_last_len(up, 2);
    assert(up.skip(up.len() - 2) == seq!['.', '.']);
    let two = seq!['.', '.'];
    assert(strip_tail(two) == two);
    lemma_last_len(two, 2);
    assert(two.skip(0) == two);
    let one = seq!['.'];
    lemma_last_len(one, 1);
    assert(one.skip(0) == one);
    let slash = base.push('/');
    let root = seq!['/'];
    assert(slash.drop_last() == base);
    lemma_last_len(root, 0);
    lemma_last_len(none, 0);
    assert(root.skip(1) == none);
    assert(none.skip(0) == none);
    if base.len() == 0 {
        assert(slash == root);
        assert(base == none);
    }
    let dot = base + seq!['/', '.'];
    assert(dot.drop_last() == slash);
}

/// A path has a file name exactly where it ends in a plain component.
pub proof fn law_file_name_is_component(p: Seq<char>)
    ensures
        path_file_name(p) is Some ==> is_component(path_file_name(p)->0),
{
    let q = strip_tail(p);
    lemma_last_len_bounds(q);
    let last = q.skip(q.len() - last_len(q));
    assert forall|i: int| 0 <= i < last.len() implies last[i] != '/' by {
        assert(last[i] == q[i + q.len() - last_len(q)]);
    }
}

/// The parent of a path is what it was joined to, as far as that can be told.
pub proof fn law_parent(dir: Seq<char>, name: Seq<char>)
    requires
        is_component(name),
        dir.len() > 0,
        dir.last() != '/',
        dir.last() != '.',
    ensures
        path_parent(path_join(dir, name)) == Some(dir),
        path_parent(name) == Some(Seq::<char>::empty()),
        path_parent(Seq::<char>::empty()) is None,
{
    let path = path_join(dir, name);
    let none = Seq::<char>::empty();
    assert(name[0] != '/');
    assert(path == dir + seq!['/'] + name);
    lemma_component_is_kept(dir.push('/'), name);
    assert(dir.push('/') + name == path);
    lemma_component_is_kept(none, name);
    assert(none + name == name);
    assert forall|i: int| path.len() - name.len() <= i < path.len() implies path[i] != '/' by {
        assert(path[i] == name[i - dir.len() - 1]);
    }
    lemma_last_len(path, name.len() as int);
    lemma_last_len(name, name.len() as int);
    assert(path.take(path.len() - name.len()) == dir.push('/'));
    assert(dir.push('/').drop_last() == dir);
    assert(strip_tail(dir.push('/')) == strip_tail(dir));
    assert(strip_tail(dir) == dir);
    assert(name.take(0) == none);
    lemma_last_len(none, 0);
}

proof fn lemma_component_is_kept(base: Seq<char>, name: Seq<char>)
    requires
        is_component(name),
    ensures
        strip_tail(base + name) == base + name,
{
    let p = base + name;
    assert(p.last() == name.last());
    assert(name.last() != '/');
    if p.len() >= 2 && p.last() == '.' && p[p.len() - 2] == '/' {
        if name.len() >= 2 {
            assert(p[p.len() - 2] == name[name.len() - 2]);
        } else {
            assert(name == seq!['.']);
        }
    }
}

} // verus!
