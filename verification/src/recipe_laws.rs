//! What holds of recipes as a whole: their text, their datasets and the numbers
//! that they are trained with.

use vstd::prelude::*;

use crate::options::option_number;
use crate::options::CommandOption;
use crate::paths::path_file_name;
use crate::paths::path_join;
use crate::recipe::clamped;
use crate::recipe::document_count;
use crate::recipe::location;
use crate::recipe::non_blank;
use crate::recipe::overridden;
use crate::recipe::referenced_name;
use crate::recipe::Experts;
use crate::recipe::RecipeFile;
use crate::recipe_edit::fence_stripped;
use crate::recipe_edit::is_fence_line;
use crate::recipe_edit::saved_message;
use crate::recipes::reference_line;
use crate::recipes::reference_lines;
use crate::recipes::references_text;
use crate::store::sanitized;
use crate::store_laws::law_found_in;
use crate::text::is_white_space;
use crate::text::join;
use crate::text::lines;
use crate::text::split;
use crate::text::trim_end;
use crate::text::trim_start;
use crate::text_laws::ends_at_first;
use crate::text_laws::has_ink;
use crate::text_laws::is_free_of;
use crate::text_laws::law_join;
use crate::text_laws::law_lines;
use crate::text_laws::law_lines_concat;
use crate::text_laws::law_split_at_first;
use crate::text_laws::law_split_without_delimiter;
use crate::text_laws::law_starts_with;
use crate::text_laws::law_trim;
use crate::text_laws::law_trim_end;
use crate::text_laws::law_trim_start;
use crate::text_laws::lemma_trim_end_space;
use crate::text_laws::lemma_trim_start_space;
use crate::util::size_text;

verus! {

/// What stands before the first delimiter adds one document where it holds a
/// character that is not white space, however long it is, and none otherwise.
pub proof fn law_documents_add_up(head: Seq<char>, delimiter: Seq<char>, rest: Seq<char>)
    requires
        delimiter.len() > 0,
        ends_at_first(head, delimiter),
    ensures
        document_count(head + delimiter + rest, delimiter) == document_count(rest, delimiter)
            + if has_ink(head) {
            1nat
        } else {
            0
        },
{
    law_split_at_first(head, delimiter, rest);
    law_trim(head);
    let parts = seq![head] + split(rest, delimiter);
    assert(parts.drop_first() == split(rest, delimiter));
    assert(parts[0] == head);
}

/// A dataset in which the delimiter does not occur, or that has no delimiter, is
/// one document where it holds a character that is not white space, and none
/// otherwise.
pub proof fn law_single_document(raw: Seq<char>, delimiter: Seq<char>)
    requires
        delimiter.len() == 0 || is_free_of(raw, delimiter),
    ensures
        document_count(raw, delimiter) == if has_ink(raw) {
            1nat
        } else {
            0
        },
{
    law_trim(raw);
    if delimiter.len() > 0 {
        law_split_without_delimiter(raw, delimiter);
        let parts = seq![raw];
        assert(parts.drop_first() == Seq::<Seq<char>>::empty());
        assert(non_blank(parts.drop_first()) == 0);
        assert(parts[0] == raw);
    }
}

/// The documents of a dataset are the parts between its delimiters that hold a
/// character that is not white space.
pub proof fn law_documents_are_parts_with_ink(raw: Seq<char>, delimiter: Seq<char>)
    requires
        delimiter.len() > 0,
    ensures
        document_count(raw, delimiter) == split(raw, delimiter).filter(
            |part: Seq<char>| has_ink(part),
        ).len(),
{
    lemma_non_blank(split(raw, delimiter));
}

proof fn lemma_non_blank(parts: Seq<Seq<char>>)
    ensures
        non_blank(parts) == parts.filter(|part: Seq<char>| has_ink(part)).len(),
    decreases parts.len(),
{
    let inked = |part: Seq<char>| has_ink(part);
    if parts.len() > 0 {
        let head = seq![parts[0]];
        let tail = parts.drop_first();
        lemma_non_blank(tail);
        law_trim(parts[0]);
        assert(parts == head + tail);
        Seq::filter_distributes_over_add(head, tail, inked);
        reveal(Seq::filter);
        assert(head.drop_last() == Seq::<Seq<char>>::empty());
        assert(head.drop_last().filter(inked) == Seq::<Seq<char>>::empty());
        assert(head.last() == parts[0]);
        assert(head.filter(inked).len() == if has_ink(parts[0]) {
            1nat
        } else {
            0
        });
    } else {
        reveal(Seq::filter);
    }
}

/// Clamping changes no number more than it has to: one that fits is kept, and
/// one that does not becomes the largest that does.
pub proof fn law_clamping_is_least(experts: Experts, documents: usize)
    ensures
        ({
            let r = clamped(experts, documents);
            let t = if r.num_total == 0 {
                1int
            } else {
                r.num_total as int
            };
            &&& experts.num_total <= documents ==> r.num_total == experts.num_total
            &&& experts.num_total > documents ==> r.num_total == documents
            &&& experts.num_active <= t ==> r.num_active == experts.num_active
            &&& experts.num_active > t ==> r.num_active == t
            &&& experts.num_centroids * t <= documents ==> r.num_centroids
                == experts.num_centroids
            &&& experts.num_centroids * t > documents ==> r.num_centroids * t <= documents < (
            r.num_centroids + 1) * t
        }),
{
    let r = clamped(experts, documents);
    let t = if r.num_total == 0 {
        1int
    } else {
        r.num_total as int
    };
    let c = experts.num_centroids as int;
    let d = documents as int / t;
    vstd::arithmetic::div_mod::lemma_fundamental_div_mod(documents as int, t);
    assert(d * t <= documents < (d + 1) * t && 0 <= d <= documents) by (nonlinear_arith)
        requires
            documents == t * d + documents as int % t,
            0 <= documents as int % t < t,
            documents >= 0,
            t >= 1,
    ;
    assert(c * t <= documents ==> c <= d) by (nonlinear_arith)
        requires
            documents < (d + 1) * t,
            t >= 1,
    ;
    assert(c * t > documents ==> c > d) by (nonlinear_arith)
        requires
            d * t <= documents,
            t >= 1,
    ;
}

/// A number that the options give takes the place of the recipe's, and a number
/// that they do not give is kept. A number that does not fit in a machine word
/// wraps around.
pub proof fn law_options_override(experts: Experts, options: Seq<CommandOption>)
    ensures
        ({
            let r = overridden(experts, options);
            let size = usize::MAX as int + 1;
            &&& match option_number(options, "total_experts"@) {
                Some(n) => (r.num_total - n) % size == 0 && (0 <= n <= usize::MAX ==> r.num_total
                    == n),
                None => r.num_total == experts.num_total,
            }
            &&& match option_number(options, "active_experts"@) {
                Some(n) => (r.num_active - n) % size == 0 && (0 <= n <= usize::MAX
                    ==> r.num_active == n),
                None => r.num_active == experts.num_active,
            }
            &&& match option_number(options, "centroids"@) {
                Some(n) => (r.num_centroids - n) % size == 0 && (0 <= n <= usize::MAX
                    ==> r.num_centroids == n),
                None => r.num_centroids == experts.num_centroids,
            }
        }),
{
    if let Some(n) = option_number(options, "total_experts"@) {
        lemma_word(n);
    }
    if let Some(n) = option_number(options, "active_experts"@) {
        lemma_word(n);
    }
    if let Some(n) = option_number(options, "centroids"@) {
        lemma_word(n);
    }
}

proof fn lemma_word(n: i64)
    ensures
        (crate::recipe::word(n) - n) % (usize::MAX as int + 1) == 0,
        0 <= n <= usize::MAX ==> crate::recipe::word(n) == n,
{
    let size = usize::MAX as int + 1;
    let w = n as int % size;
    let q = n as int / size;
    vstd::arithmetic::div_mod::lemma_fundamental_div_mod(n as int, size);
    assert(w - n == (-q) * size) by (nonlinear_arith)
        requires
            n == size * q + w,
    ;
    vstd::arithmetic::div_mod::lemma_mod_multiples_basic(-q, size);
    if 0 <= n <= usize::MAX {
        vstd::arithmetic::div_mod::lemma_small_mod(n as nat, size as nat);
    }
}

/// A recipe's file is located at the first entry of the datasets directory that
/// has the sanitized name, as it is or with `.dataset` behind it. Where there is
/// none, or where the file has no readable name, the reason names what is wrong.
pub proof fn law_location(file: RecipeFile, dir: Seq<char>, entries: Seq<Option<Seq<char>>>)
    ensures
        match location(file, dir, entries) {
            Ok(path) => file.readable && path_file_name(file.path@) is Some && exists|k: int|
                0 <= k < entries.len() && #[trigger] entries[k] is Some && path == path_join(
                    dir,
                    entries[k]->0,
                ) && goes_by(entries[k], path_file_name(file.path@)->0) && forall|i: int|
                    0 <= i < k ==> !goes_by(#[trigger] entries[i], path_file_name(file.path@)->0),
            Err(reason) => if file.readable && path_file_name(file.path@) is Some {
                &&& reason == "recipe references `"@ + path_file_name(file.path@)->0
                    + "`, but no dataset with that name is uploaded in this server. `/dataset upload` it first."@
                &&& forall|i: int|
                    0 <= i < entries.len() ==> !goes_by(
                        #[trigger] entries[i],
                        path_file_name(file.path@)->0,
                    )
            } else {
                reason == "recipe references a dataset with an unreadable name: "@ + file.path@
            },
        },
{
    if file.readable && path_file_name(file.path@) is Some {
        law_found_in(dir, path_file_name(file.path@)->0, entries);
    }
}

/// Whether a stored file goes by a name: it is the sanitized name, as it is or
/// with `.dataset` behind it.
pub open spec fn goes_by(entry: Option<Seq<char>>, name: Seq<char>) -> bool {
    entry == Some(sanitized(name)) || entry == Some(sanitized(name) + ".dataset"@)
}

/// Whether a line is a code fence: white space, three backticks, and anything.
pub open spec fn looks_fenced(line: Seq<char>) -> bool {
    exists|lead: Seq<char>, tail: Seq<char>|
        (forall|i: int| 0 <= i < lead.len() ==> is_white_space(#[trigger] lead[i])) && line
            == #[trigger] (lead + "```"@ + tail)
}

/// Whether a text is a single line.
pub open spec fn is_line(s: Seq<char>) -> bool {
    forall|i: int| 0 <= i < s.len() ==> #[trigger] s[i] != '\n'
}

/// Whether a text is white space.
pub open spec fn is_space(s: Seq<char>) -> bool {
    forall|i: int| 0 <= i < s.len() ==> is_white_space(#[trigger] s[i])
}

/// A line is taken for a fence exactly where it looks like one.
pub proof fn law_fence_line(line: Seq<char>)
    ensures
        is_fence_line(line) <==> looks_fenced(line),
{
    reveal_strlit("```");
    if is_fence_line(line) {
        let t = trim_start(line);
        law_trim_start(line);
        law_starts_with(t, "```"@);
        let tail = choose|rest: Seq<char>| t == #[trigger] ("```"@ + rest);
        let lead = line.take(line.len() - t.len());
        assert forall|i: int| 0 <= i < lead.len() implies is_white_space(#[trigger] lead[i]) by {
            assert(lead[i] == line[i]);
        }
        assert(line == lead + t);
        assert(line == lead + "```"@ + tail);
    }
    if looks_fenced(line) {
        let (lead, tail) = choose|lead: Seq<char>, tail: Seq<char>|
            (forall|i: int| 0 <= i < lead.len() ==> is_white_space(#[trigger] lead[i])) && line
                == #[trigger] (lead + "```"@ + tail);
        let s = "```"@ + tail;
        assert(s[0] == '`');
        lemma_trim_start_space(lead, s);
        assert(line == lead + s);
        law_starts_with(s, "```"@);
    }
}

proof fn lemma_fence_before_return(line: Seq<char>)
    requires
        line.len() > 0,
        line.last() == '\r',
    ensures
        looks_fenced(line) <==> looks_fenced(line.drop_last()),
{
    reveal_strlit("```");
    let cut = line.drop_last();
    if looks_fenced(cut) {
        let (lead, tail) = choose|lead: Seq<char>, tail: Seq<char>|
            (forall|i: int| 0 <= i < lead.len() ==> is_white_space(#[trigger] lead[i])) && cut
                == #[trigger] (lead + "```"@ + tail);
        assert(line == cut.push('\r'));
        assert(line == lead + "```"@ + tail.push('\r'));
    }
    if looks_fenced(line) {
        let (lead, tail) = choose|lead: Seq<char>, tail: Seq<char>|
            (forall|i: int| 0 <= i < lead.len() ==> is_white_space(#[trigger] lead[i])) && line
                == #[trigger] (lead + "```"@ + tail);
        if tail.len() == 0 {
            assert(line.last() == '`');
        }
        assert(cut == lead + "```"@ + tail.drop_last());
    }
}

/// A text whose first line is not a fence comes out as it is, whatever follows
/// that line.
pub proof fn law_unfenced_first_line(first: Seq<char>, rest: Seq<char>)
    requires
        is_line(first),
        !looks_fenced(first),
    ensures
        fence_stripped(first + seq!['\n'] + rest) == first + seq!['\n'] + rest,
{
    let content = first + seq!['\n'] + rest;
    let t = trim_end(content);
    law_trim_end(content);
    if t.len() > first.len() {
        let kept = t.skip(first.len() as int + 1);
        assert(t == first + seq!['\n'] + kept);
        law_lines(first, kept);
        let line = lines(t)[0];
        law_fence_line(line);
        if first.len() > 0 && first.last() == '\r' {
            lemma_fence_before_return(first);
        }
    } else {
        assert(first == content.take(first.len() as int));
        lemma_one_line(t, content, first);
    }
}

proof fn lemma_one_line(t: Seq<char>, content: Seq<char>, line: Seq<char>)
    requires
        is_line(line),
        t.len() <= line.len() <= content.len(),
        t == content.take(t.len() as int),
        line == content.take(line.len() as int),
    ensures
        lines(t).len() <= 1,
{
    assert forall|i: int| 0 <= i < t.len() implies #[trigger] t[i] != '\n' by {
        assert(t[i] == line[i]);
    }
    law_lines(t, Seq::<char>::empty());
    if t.len() == 0 {
        assert(t == Seq::<char>::empty());
    }
}

/// A text whose last line, trailing white space apart, is not a fence comes out
/// as it is, whatever stands before that line.
pub proof fn law_unfenced_last_line(front: Seq<char>, last: Seq<char>, space: Seq<char>)
    requires
        is_line(last),
        last.len() > 0,
        !is_white_space(last.last()),
        is_space(space),
        !looks_fenced(last),
    ensures
        fence_stripped(front + seq!['\n'] + last + space) == front + seq!['\n'] + last + space,
{
    let t = front + seq!['\n'] + last;
    assert(t.last() == last.last());
    lemma_trim_end_space(t, space);
    law_lines_concat(front, last);
    law_lines(last, Seq::<char>::empty());
    assert(lines(t).last() == last);
    law_fence_line(last);
}

/// A text of one line comes out as it is, whatever white space follows it, even
/// if it begins like a fence.
pub proof fn law_one_line_is_kept(line: Seq<char>, space: Seq<char>)
    requires
        is_line(line),
        is_space(space),
    ensures
        fence_stripped(line + space) == line + space,
{
    let content = line + space;
    let t = trim_end(content);
    law_trim_end(content);
    if t.len() > line.len() {
        assert(t.last() == space[t.len() - line.len() - 1]);
    }
    assert(line == content.take(line.len() as int));
    lemma_one_line(t, content, line);
}

/// What stands between two fence lines comes out line by line, whatever tag the
/// opening fence has and whatever white space follows the closing one.
pub proof fn law_fence_is_stripped(
    open: Seq<char>,
    body: Seq<char>,
    close: Seq<char>,
    space: Seq<char>,
)
    requires
        is_line(open),
        is_line(close),
        looks_fenced(open),
        looks_fenced(close),
        close.len() > 0,
        !is_white_space(close.last()),
        is_space(space),
    ensures
        fence_stripped(open + seq!['\n'] + body + seq!['\n'] + close + space) == join(
            lines(body + seq!['\n']),
            "\n"@,
        ),
        fence_stripped(open + seq!['\n'] + close + space) == Seq::<char>::empty(),
{
    let feed = seq!['\n'];
    let none = Seq::<char>::empty();
    let inner = body + feed + close;
    let t = open + feed + inner;
    assert(t == open + feed + body + feed + close);
    assert(t.last() == close.last());
    lemma_trim_end_space(t, space);
    law_lines(open, inner);
    law_lines_concat(body, close);
    law_lines(close, none);
    law_fence_line(open);
    law_fence_line(close);
    if open.len() > 0 && open.last() == '\r' {
        lemma_fence_before_return(open);
        law_fence_line(open.drop_last());
    }
    let first = lines(t)[0];
    assert(lines(t) == seq![first] + (lines(body + feed) + seq![close]));
    assert(lines(t).last() == close);
    assert(lines(t).subrange(1, lines(t).len() - 1) == lines(body + feed));
    let u = open + feed + close;
    assert(u.last() == close.last());
    lemma_trim_end_space(u, space);
    law_lines(open, close);
    assert(lines(u) == seq![lines(u)[0]] + seq![close]);
    assert(lines(u).last() == close);
    assert(lines(u).subrange(1, 1) == Seq::<Seq<char>>::empty());
    law_join(seq![none], seq![none], none, "\n"@);
}

/// The acknowledgement names the file and the size of what was saved, in bytes.
pub proof fn law_saved_message(name: Seq<char>, content: Seq<char>)
    ensures
        saved_message(name, content) == "Saved recipe `"@ + name + "` ("@ + size_text(
            vstd::utf8::encode_utf8(content).len(),
        ) + "). Editing your reply updates the file."@,
{
}

/// The lines on a recipe's datasets go by each file on its own: those of two
/// lists of files are those of the first and those of the second.
pub proof fn law_references_concat(
    a: Seq<RecipeFile>,
    b: Seq<RecipeFile>,
    entries: Seq<Option<Seq<char>>>,
)
    ensures
        reference_lines(a + b, entries) == reference_lines(a, entries) + reference_lines(
            b,
            entries,
        ),
        reference_lines(seq![], entries) == Seq::<Seq<char>>::empty(),
    decreases b.len(),
{
    if b.len() > 0 {
        law_references_concat(a, b.drop_last(), entries);
        assert((a + b).drop_last() == a + b.drop_last());
        assert((a + b).last() == b.last());
    } else {
        assert(a + b == a);
        assert(reference_lines(a, entries) + Seq::<Seq<char>>::empty() == reference_lines(
            a,
            entries,
        ));
    }
}

/// For a recipe of any number of files, the line of each file with a readable
/// name says that it is uploaded exactly where a training finds it, wherever the
/// file stands and whatever the others are; and files without a readable name
/// have no line.
pub proof fn law_every_reference_is_told(
    before: Seq<RecipeFile>,
    file: RecipeFile,
    after: Seq<RecipeFile>,
    dir: Seq<char>,
    entries: Seq<Option<Seq<char>>>,
)
    ensures
        reference_lines(before + seq![file] + after, entries) == reference_lines(before, entries)
            + (match referenced_name(file) {
            Some(name) => seq![
                if location(file, dir, entries) is Ok {
                    "- `"@ + name + "` (uploaded)"@
                } else {
                    "- `"@ + name + "` (missing — `/dataset upload` it first)"@
                },
            ],
            None => seq![],
        }) + reference_lines(after, entries),
        reference_lines(before, entries).len() <= before.len(),
        (forall|i: int|
            0 <= i < before.len() ==> referenced_name(#[trigger] before[i]) is Some)
            ==> reference_lines(before, entries).len() == before.len(),
{
    law_references_concat(before + seq![file], after, entries);
    law_references_concat(before, seq![file], entries);
    crate::recipes::law_info_agrees_with_training(file, dir, entries);
    lemma_reference_count(before, entries);
}

proof fn lemma_reference_count(files: Seq<RecipeFile>, entries: Seq<Option<Seq<char>>>)
    ensures
        reference_lines(files, entries).len() <= files.len(),
        (forall|i: int| 0 <= i < files.len() ==> referenced_name(#[trigger] files[i]) is Some)
            ==> reference_lines(files, entries).len() == files.len(),
    decreases files.len(),
{
    if files.len() > 0 {
        let rest = files.drop_last();
        lemma_reference_count(rest, entries);
        if forall|i: int| 0 <= i < files.len() ==> referenced_name(#[trigger] files[i]) is Some {
            assert forall|i: int| 0 <= i < rest.len() implies referenced_name(
                #[trigger] rest[i],
            ) is Some by {
                assert(rest[i] == files[i]);
            }
            assert(referenced_name(files[files.len() - 1]) is Some);
        }
    }
}

/// What is said of the datasets of a recipe is one line for each, and for a text
/// that is no recipe it is said that it is none.
pub proof fn law_references_text(
    files: Vec<RecipeFile>,
    a: Seq<RecipeFile>,
    b: Seq<RecipeFile>,
    entries: Seq<Option<Seq<char>>>,
)
    requires
        files@ == a + b,
        reference_lines(a, entries).len() > 0,
        reference_lines(b, entries).len() > 0,
    ensures
        references_text(Some(&files), entries) == join(reference_lines(a, entries), "\n"@) + "\n"@
            + join(reference_lines(b, entries), "\n"@),
        references_text(None, entries) == "- *(not a valid recipe; saved as-is)*"@,
{
    law_references_concat(a, b, entries);
    law_join(reference_lines(a, entries), reference_lines(b, entries), seq![], "\n"@);
}

/// A recipe with one file that has a readable name has that file's line for its
/// references, and a recipe without files has none.
pub proof fn law_references_text_of_one(
    files: Vec<RecipeFile>,
    entries: Seq<Option<Seq<char>>>,
)
    ensures
        files@.len() == 0 ==> references_text(Some(&files), entries) == Seq::<char>::empty(),
        files@.len() == 1 && referenced_name(files@[0]) is Some ==> references_text(
            Some(&files),
            entries,
        ) == reference_lines(files@, entries)[0],
{
    law_references_concat(seq![], seq![], entries);
    let none = seq![Seq::<char>::empty()];
    law_join(none, none, seq![], "\n"@);
    if files@.len() == 0 {
        assert(files@ == Seq::<RecipeFile>::empty());
    }
    if files@.len() == 1 {
        lemma_reference_count(files@, entries);
        law_references_concat(seq![], files@, entries);
        assert(files@ == seq![files@[0]]);
        assert(files@.drop_last() == Seq::<RecipeFile>::empty());
        let all = reference_lines(files@, entries);
        if referenced_name(files@[0]) is Some {
            assert(all == seq![all[0]]);
            law_join(none, none, all[0], "\n"@);
        }
    }
}

/// The line of a dataset says one of two things of it, and tells them apart.
pub proof fn law_reference_line(name: Seq<char>)
    ensures
        reference_line(name, true) != reference_line(name, false),
        reference_line(name, true) == "- `"@ + name + "` (uploaded)"@,
        reference_line(name, false) == "- `"@ + name
            + "` (missing — `/dataset upload` it first)"@,
{
    reveal_strlit("` (uploaded)");
    reveal_strlit("` (missing — `/dataset upload` it first)");
    let yes = reference_line(name, true);
    let no = reference_line(name, false);
    assert("` (uploaded)"@.len() == 12);
    assert("` (missing — `/dataset upload` it first)"@.len() > 12);
    assert(yes.len() < no.len());
}

} // verus!
