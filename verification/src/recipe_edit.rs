//! Live recipe editing.
//!
//! A recipe is created or edited by replying to a message of the bot with the
//! recipe text. The text is saved to a file, and a session keyed on the reply's
//! id is registered, so that later edits of the reply keep the file in step.

use std::collections::HashMap;

use vstd::prelude::*;

use crate::files::name_to_show;
use crate::files::shown_name;
use crate::text::chars_of;
use crate::text::has_prefix;
use crate::text::is_white_space;
use crate::text::join;
use crate::text::joined;
use crate::text::lemma_join_prepend;
use crate::text::lemma_until;
use crate::text::lines;
use crate::text::lines_of;
use crate::text::starts_with;
use crate::text::strip_return;
use crate::text::texts;
use crate::text::trim_end;
use crate::text::trim_start;
use crate::text::trimmed_end;
use crate::text::trimmed_start;
use crate::text::until;
use crate::util::clip;
use crate::util::clipped;
use crate::util::format_size;
use crate::util::size_text;

verus! {

broadcast use vstd::std_specs::hash::group_hash_axioms;

/// How many seconds the bot waits for a reply with the recipe content before
/// it gives up.
pub const REPLY_TIMEOUT_SECONDS: u64 = 900;

/// Whether a line opens or closes a code fence.
pub open spec fn is_fence_line(line: Seq<char>) -> bool {
    starts_with(trim_start(line), "```"@)
}

/// Whether a text is surrounded by code fences: apart from trailing white
/// space, its first and its last line are two fence lines.
pub open spec fn is_fenced(content: Seq<char>) -> bool {
    let all = lines(trim_end(content));
    all.len() >= 2 && is_fence_line(all[0]) && is_fence_line(all.last())
}

/// A text without the code fences that surround it.
pub open spec fn fence_stripped(content: Seq<char>) -> Seq<char> {
    if is_fenced(content) {
        let all = lines(trim_end(content));
        join(all.subrange(1, all.len() - 1), "\n"@)
    } else {
        content
    }
}

fn is_fence(line: &str) -> (b: bool)
    ensures
        b == is_fence_line(line@),
{
    let chars = chars_of(line);
    let fence = chars_of("```");
    has_prefix(trimmed_start(chars.as_slice()), fence.as_slice())
}

/// Strips a single layer of surrounding code fences from recipe text that was
/// pasted into a reply, so that the saved file contains the recipe text itself
/// rather than the markdown around it.
pub fn strip_fence(content: &str) -> (r: String)
    ensures
        r@ == fence_stripped(content@),
{
    let chars = chars_of(content);
    // A stray newline after the closing fence does not hide the fence.
    let all = lines_of(trimmed_end(chars.as_slice()));
    let n: usize = all.len();
    proof {
        assert(texts(all@).len() == n);
        if n >= 2 {
            assert(texts(all@)[0] == all@[0]@);
            assert(texts(all@).last() == all@[n - 1]@);
        }
    }
    if n >= 2 && is_fence(all[0].as_str()) && is_fence(all[n - 1].as_str()) {
        let inner = vstd::slice::slice_subrange(all.as_slice(), 1, n - 1);
        assert(texts(inner@) == texts(all@).subrange(1, n - 1));
        joined(inner, "\n")
    } else {
        content.to_owned()
    }
}

/// The parts of a text between its line feeds.
spec fn pieces(s: Seq<char>) -> Seq<Seq<char>>
    decreases s.len(),
{
    let n = until(s, '\n') as int;
    if n >= s.len() {
        seq![s]
    } else {
        seq![s.take(n)] + pieces(s.skip(n + 1))
    }
}

proof fn lemma_until_bounds(s: Seq<char>, c: char)
    ensures
        until(s, c) <= s.len(),
        until(s, c) < s.len() ==> s[until(s, c) as int] == c,
        forall|i: int| 0 <= i < until(s, c) ==> s[i] != c,
    decreases s.len(),
{
    if s.len() > 0 && s[0] != c {
        let tail = s.drop_first();
        lemma_until_bounds(tail, c);
        assert forall|i: int| 0 <= i < until(s, c) implies s[i] != c by {
            if i > 0 {
                assert(tail[i - 1] == s[i]);
            }
        }
    }
}

proof fn lemma_pieces_join(s: Seq<char>)
    ensures
        pieces(s).len() >= 1,
        join(pieces(s), "\n"@) == s,
    decreases s.len(),
{
    reveal_strlit("\n");
    lemma_until_bounds(s, '\n');
    let n = until(s, '\n') as int;
    if n < s.len() {
        let tail = s.skip(n + 1);
        lemma_pieces_join(tail);
        lemma_join_prepend(s.take(n), pieces(tail), "\n"@);
        assert(s == s.take(n) + "\n"@ + tail);
    }
}

/// Whether no line feed that follows a character of `s` directly, and none put
/// behind `s`, would follow a carriage return.
pub open spec fn no_return_before_newline(s: Seq<char>) -> bool {
    forall|i: int|
        0 <= i < s.len() && #[trigger] s[i] == '\r' ==> i + 1 < s.len() && s[i + 1] != '\n'
}

proof fn lemma_lines_of_pieces(s: Seq<char>, last: Seq<char>)
    requires
        no_return_before_newline(s),
    ensures
        lines(s + "\n"@ + last) == pieces(s) + lines(last),
    decreases s.len(),
{
    reveal_strlit("\n");
    lemma_until_bounds(s, '\n');
    let n = until(s, '\n') as int;
    let all = s + "\n"@ + last;
    assert forall|i: int| 0 <= i < n implies all[i] != '\n' by {
        assert(all[i] == s[i]);
    }
    lemma_until(all, '\n', n);
    assert(all.take(n) == s.take(n));
    assert(strip_return(s.take(n)) == s.take(n)) by {
        if n > 0 {
            assert(s.take(n).last() == s[n - 1]);
        }
    }
    if n < s.len() {
        let tail = s.skip(n + 1);
        assert(no_return_before_newline(tail)) by {
            assert forall|i: int|
                0 <= i < tail.len() && #[trigger] tail[i] == '\r' implies i + 1 < tail.len()
                && tail[i + 1] != '\n' by {
                assert(s[i + n + 1] == '\r');
                assert(tail[i + 1] == s[i + n + 2]);
            }
        }
        lemma_lines_of_pieces(tail, last);
        assert(all.skip(n + 1) == tail + "\n"@ + last);
        assert(seq![s.take(n)] + (pieces(tail) + lines(last)) == seq![s.take(n)] + pieces(tail)
            + lines(last));
    } else {
        assert(s.take(n) == s);
        assert(all.skip(n + 1) == last);
    }
}

/// Joining the lines of a text with line feeds gives the text back.
pub proof fn law_lines_rejoin(body: Seq<char>)
    requires
        no_return_before_newline(body),
    ensures
        join(lines(body + seq!['\n']), "\n"@) == body,
{
    reveal_strlit("\n");
    let none = Seq::<char>::empty();
    lemma_lines_of_pieces(body, none);
    assert("\n"@ == seq!['\n']);
    assert(body + "\n"@ + none == body + seq!['\n']);
    assert(lines(none) == Seq::<Seq<char>>::empty());
    assert(pieces(body) + lines(none) == pieces(body));
    lemma_pieces_join(body);
}

/// What stands between an opening fence, with any language tag, and a closing
/// fence comes out unchanged.
pub proof fn law_strip_fence_inverts_fencing(tag: Seq<char>, body: Seq<char>)
    requires
        forall|i: int| 0 <= i < tag.len() ==> tag[i] != '\n',
        no_return_before_newline(body),
    ensures
        fence_stripped("```"@ + tag + "\n"@ + body + "\n"@ + "```"@) == body,
{
    reveal_strlit("```");
    reveal_strlit("\n");
    let open = "```"@ + tag;
    let inner = body + "\n"@ + "```"@;
    let content = open + "\n"@ + body + "\n"@ + "```"@;
    assert(content.last() == '`');
    assert(trim_end(content) == content);
    assert(content == open + "\n"@ + inner);
    assert forall|i: int| 0 <= i < open.len() implies content[i] != '\n' by {
        assert(content[i] == open[i]);
        if i >= 3 {
            assert(open[i] == tag[i - 3]);
        }
    }
    assert(content[open.len() as int] == '\n');
    lemma_until(content, '\n', open.len() as int);
    assert(content.take(open.len() as int) == open);
    assert(content.skip(open.len() as int + 1) == inner);
    lemma_lines_of_pieces(body, "```"@);
    let first = strip_return(open);
    let all = lines(content);
    lemma_until("```"@, '\n', 3);
    assert(lines("```"@) == seq!["```"@]);
    assert(all == seq![first] + (pieces(body) + seq!["```"@]));
    lemma_pieces_join(body);
    assert(all.subrange(1, all.len() - 1) == pieces(body));
    assert(first[0] == '`');
    assert(trim_start(first) == first);
    assert(first.take(3) == "```"@);
    assert(trim_start("```"@) == "```"@);
    assert("```"@.take(3) == "```"@);
    assert(all.last() == "```"@);
    assert(is_fenced(content));
}

/// White space after the closing fence makes no difference.
pub proof fn law_strip_fence_ignores_trailing_space(content: Seq<char>, space: Seq<char>)
    requires
        is_fenced(content),
        forall|i: int| 0 <= i < space.len() ==> is_white_space(space[i]),
    ensures
        is_fenced(content + space),
        fence_stripped(content + space) == fence_stripped(content),
    decreases space.len(),
{
    if space.len() == 0 {
        assert(content + space == content);
    } else {
        law_strip_fence_ignores_trailing_space(content, space.drop_last());
        assert((content + space).last() == space.last());
        assert((content + space).drop_last() == content + space.drop_last());
    }
}

/// A text of a single line is left as it is, even if it begins like a fence.
pub proof fn law_single_line_untouched(content: Seq<char>)
    requires
        forall|i: int| 0 <= i < content.len() ==> content[i] != '\n',
    ensures
        fence_stripped(content) == content,
{
    let t = trim_end(content);
    lemma_trim_end_keeps(content);
    assert forall|i: int| 0 <= i < t.len() implies t[i] != '\n' by {
        assert(t[i] == content[i]);
    }
    lemma_until(t, '\n', t.len() as int);
}

proof fn lemma_trim_end_keeps(s: Seq<char>)
    ensures
        trim_end(s).len() <= s.len(),
        trim_end(s) == s.take(trim_end(s).len() as int),
    decreases s.len(),
{
    if s.len() > 0 && is_white_space(s.last()) {
        lemma_trim_end_keeps(s.drop_last());
        assert(s.drop_last().take(trim_end(s).len() as int) == s.take(trim_end(s).len() as int));
    } else {
        assert(s.take(s.len() as int) == s);
    }
}

/// A recipe file that is kept in step with a reply.
pub struct RecipeSession {
    pub path: String,
    pub name: String,
    /// The channel and the id of the bot's acknowledgement message.
    pub confirm: Option<(u64, u64)>,
}

/// What a session stands for.
pub struct SessionView {
    pub path: Seq<char>,
    pub name: Seq<char>,
    pub confirm: Option<(u64, u64)>,
}

impl View for RecipeSession {
    type V = SessionView;

    open spec fn view(&self) -> SessionView {
        SessionView { path: self.path@, name: self.name@, confirm: self.confirm }
    }
}

/// Maps the id of a recipe reply to the file that it is synced to.
pub struct RecipeSessions {
    sessions: HashMap<u64, RecipeSession>,
}

impl View for RecipeSessions {
    type V = Map<u64, SessionView>;

    closed spec fn view(&self) -> Map<u64, SessionView> {
        self.sessions@.map_values(|s: RecipeSession| s@)
    }
}

/// What is to be done after an edit of a tracked reply.
pub struct SyncPlan {
    /// The file to rewrite.
    pub path: String,
    /// The file's new content.
    pub content: String,
    /// The acknowledgement message to refresh, if there is one.
    pub confirm: Option<(u64, u64)>,
    /// The new text of the acknowledgement.
    pub text: String,
}

/// What a plan stands for.
pub struct SyncView {
    pub path: Seq<char>,
    pub content: Seq<char>,
    pub confirm: Option<(u64, u64)>,
    pub text: Seq<char>,
}

impl View for SyncPlan {
    type V = SyncView;

    open spec fn view(&self) -> SyncView {
        SyncView {
            path: self.path@,
            content: self.content@,
            confirm: self.confirm,
            text: self.text@,
        }
    }
}

/// The text that an edit carries, if it carries one.
pub open spec fn content_of(content: Option<&str>) -> Option<Seq<char>> {
    match content {
        Some(content) => Some(content@),
        None => None,
    }
}

/// The acknowledgement of a saved recipe.
pub open spec fn saved_message(name: Seq<char>, content: Seq<char>) -> Seq<char> {
    "Saved recipe `"@ + name + "` ("@ + size_text(vstd::utf8::encode_utf8(content).len())
        + "). Editing your reply updates the file."@
}

/// The acknowledgement of a recipe that was saved at `path`.
pub fn recipe_saved(path: &str, content: &str) -> (r: String)
    ensures
        r@ == saved_message(shown_name(path@, "capacitorfile"@), content@),
{
    let name = name_to_show(path, "capacitorfile");
    saved_text(name.as_str(), content)
}

fn saved_text(name: &str, content: &str) -> (r: String)
    ensures
        r@ == saved_message(name@, content@),
{
    let size = format_size(content.as_bytes().len() as u64);
    let mut r = "Saved recipe `".to_owned();
    r.append(name);
    r.append("` (");
    r.append(size.as_str());
    r.append("). Editing your reply updates the file.");
    r
}

/// Whether a message that refers to `reference` is a reply to the prompt.
pub fn is_reply_to(reference: Option<u64>, prompt: u64) -> (b: bool)
    ensures
        b == (reference == Some(prompt)),
{
    match reference {
        Some(id) => id == prompt,
        None => false,
    }
}

/// The sessions after a recipe was saved to `path` from the reply with the
/// given id, and acknowledged by the message `confirm`.
pub open spec fn with_session(
    sessions: Map<u64, SessionView>,
    reply: u64,
    path: Seq<char>,
    confirm: (u64, u64),
) -> Map<u64, SessionView> {
    sessions.insert(
        reply,
        SessionView { path, name: shown_name(path, "capacitorfile"@), confirm: Some(confirm) },
    )
}

/// What is to be done after an edit of the message with the given id: nothing,
/// unless it is a tracked reply and the edit carries a text.
pub open spec fn sync_of(
    sessions: Map<u64, SessionView>,
    id: u64,
    content: Option<Seq<char>>,
) -> Option<SyncView> {
    match content {
        Some(content) if sessions.contains_key(id) => {
            let kept = fence_stripped(content);
            Some(
                SyncView {
                    path: sessions[id].path,
                    content: kept,
                    confirm: sessions[id].confirm,
                    text: clipped(saved_message(sessions[id].name, kept), 2000),
                },
            )
        },
        _ => None,
    }
}

/// An edit of a reply that a recipe was saved from rewrites that recipe's file
/// with the new text, and refreshes the acknowledgement.
pub proof fn law_edited_reply_is_synced(
    sessions: Map<u64, SessionView>,
    reply: u64,
    path: Seq<char>,
    confirm: (u64, u64),
    content: Seq<char>,
)
    ensures
        sync_of(with_session(sessions, reply, path, confirm), reply, Some(content)) == Some(
            SyncView {
                path,
                content: fence_stripped(content),
                confirm: Some(confirm),
                text: clipped(
                    saved_message(shown_name(path, "capacitorfile"@), fence_stripped(content)),
                    2000,
                ),
            },
        ),
{
}

/// An edit of any other message is handled as before, and as long as no recipe
/// was saved from it, it changes nothing. Nor does an edit without a text.
pub proof fn law_other_edits_are_not_affected(
    sessions: Map<u64, SessionView>,
    reply: u64,
    path: Seq<char>,
    confirm: (u64, u64),
    other: u64,
    content: Option<Seq<char>>,
)
    requires
        other != reply,
    ensures
        sync_of(with_session(sessions, reply, path, confirm), other, content) == sync_of(
            sessions,
            other,
            content,
        ),
        sync_of(Map::<u64, SessionView>::empty(), other, content) is None,
        sync_of(with_session(sessions, reply, path, confirm), reply, None) is None,
{
}

/// What is shown of a prompt: a message holds no more than this.
pub fn prompt_message(prompt: &str) -> (r: String)
    ensures
        r@ == clipped(prompt@, 2000),
{
    clip(prompt, 2000)
}

/// Creates a fresh session registry.
pub fn new_sessions() -> (r: RecipeSessions)
    ensures
        r@ == Map::<u64, SessionView>::empty(),
{
    let r = RecipeSessions { sessions: HashMap::new() };
    assert(r@ == Map::<u64, SessionView>::empty());
    r
}

impl RecipeSessions {
    /// Registers a session for a recipe saved to `path` from the reply with the
    /// given id, acknowledged by the message `confirm`.
    pub fn register_session(&mut self, reply: u64, path: String, confirm: (u64, u64))
        ensures
            final(self)@ == with_session(old(self)@, reply, path@, confirm),
    {
        let name = name_to_show(path.as_str(), "capacitorfile");
        self.sessions.insert(reply, RecipeSession { path, name, confirm: Some(confirm) });
        assert(self@ == with_session(old(self)@, reply, path@, confirm));
    }

    /// Handles an edit of a message: if the edited message is a tracked recipe
    /// reply and the edit carries a text, the recipe file is to hold the new
    /// text and the acknowledgement is to be refreshed.
    pub fn sync_edited_message(&self, id: u64, content: Option<&str>) -> (r: Option<SyncPlan>)
        ensures
            match r {
                Some(plan) => sync_of(self@, id, content_of(content)) == Some(plan@),
                None => sync_of(self@, id, content_of(content)) is None,
            },
    {
        let content = match content {
            Some(content) => content,
            None => {
                return None;
            },
        };
        match self.sessions.get(&id) {
            Some(session) => {
                assert(self@[id] == session@);
                let kept = strip_fence(content);
                let text = saved_text(session.name.as_str(), kept.as_str());
                let text = clip(text.as_str(), 2000);
                Some(
                    SyncPlan {
                        path: session.path.clone(),
                        content: kept,
                        confirm: session.confirm,
                        text,
                    },
                )
            },
            None => None,
        }
    }
}

} // verus!
