//! The `/recipe` commands.

use vstd::prelude::*;

use crate::files::file_lines;
use crate::files::given_name;
use crate::files::list_files;
use crate::files::name_of_upload;
use crate::files::name_to_show;
use crate::files::provided_name;
use crate::files::shown_name;
use crate::files::upload_name;
use crate::files::StoredFile;
use crate::numbers::decimal;
use crate::numbers::decimal_of;
use crate::options::CommandOption;
use crate::options::OptionValue;
use crate::paths::path_join;
use crate::recipe::location;
use crate::recipe::reference_name;
use crate::recipe::referenced_name;
use crate::recipe::RecipeFile;
use crate::recipe_edit::fence_stripped;
use crate::recipe_edit::strip_fence;
use crate::store::entry_names;
use crate::store::find_entry;
use crate::store::first_match;
use crate::store::sanitized;
use crate::store::Store;
use crate::store::UniquePath;
use crate::text::join;
use crate::text::joined;
use crate::text::same_text;
use crate::text::texts;
use crate::util::clip;
use crate::util::clipped;
use crate::util::format_size;
use crate::util::law_clip_marks_the_cut;
use crate::util::size_text;

verus! {

/// What a `/recipe` command asks for.
pub enum RecipeAction<'a> {
    Create(&'a Vec<CommandOption>),
    Edit(&'a Vec<CommandOption>),
    Upload(&'a Vec<CommandOption>),
    List,
    Info(&'a Vec<CommandOption>),
    Delete(&'a Vec<CommandOption>),
    /// Nothing but an answer.
    Reply(String),
}

/// How a `/recipe` command without a subcommand is answered.
pub open spec fn recipe_usage() -> Seq<char> {
    "Usage: `/recipe upload|list|info`."@
}

/// Whether `action` is what a `/recipe` command with the given options asks
/// for: the first option is the subcommand.
pub open spec fn is_recipe_action(options: Seq<CommandOption>, action: RecipeAction) -> bool {
    if options.len() > 0 && options[0].value is SubCommand {
        let name = options[0].name@;
        let given = options[0].value->SubCommand_0;
        if name == "create"@ {
            action matches RecipeAction::Create(opts) && *opts == given
        } else if name == "edit"@ {
            action matches RecipeAction::Edit(opts) && *opts == given
        } else if name == "upload"@ {
            action matches RecipeAction::Upload(opts) && *opts == given
        } else if name == "list"@ {
            action is List
        } else if name == "info"@ {
            action matches RecipeAction::Info(opts) && *opts == given
        } else if name == "delete"@ {
            action matches RecipeAction::Delete(opts) && *opts == given
        } else {
            action matches RecipeAction::Reply(text) && text@
                == "Unknown recipe subcommand `"@ + name + "`."@
        }
    } else {
        action matches RecipeAction::Reply(text) && text@ == recipe_usage()
    }
}

/// Dispatches a `/recipe` command on its subcommand.
pub fn recipe(options: &[CommandOption]) -> (r: RecipeAction<'_>)
    ensures
        is_recipe_action(options@, r),
{
    if options.len() == 0 {
        return RecipeAction::Reply("Usage: `/recipe upload|list|info`.".to_owned());
    }
    let name = options[0].name.as_str();
    match &options[0].value {
        OptionValue::SubCommand(opts) => if same_text(name, "create") {
            RecipeAction::Create(opts)
        } else if same_text(name, "edit") {
            RecipeAction::Edit(opts)
        } else if same_text(name, "upload") {
            RecipeAction::Upload(opts)
        } else if same_text(name, "list") {
            RecipeAction::List
        } else if same_text(name, "info") {
            RecipeAction::Info(opts)
        } else if same_text(name, "delete") {
            RecipeAction::Delete(opts)
        } else {
            let mut message = "Unknown recipe subcommand `".to_owned();
            message.append(name);
            message.append("`.");
            RecipeAction::Reply(message)
        },
        _ => RecipeAction::Reply("Usage: `/recipe upload|list|info`.".to_owned()),
    }
}

/// Where an uploaded recipe is saved, or the answer to an upload without an
/// attachment. `attachment` is the attachment's file name.
pub fn recipe_upload(
    store: &Store,
    namespace: u64,
    options: &[CommandOption],
    attachment: Option<&str>,
) -> (r: Result<UniquePath, String>)
    ensures
        match attachment {
            None => r is Err && r->Err_0@ == "Please attach a recipe to upload."@,
            Some(filename) => {
                &&& r is Ok
                &&& r->Ok_0.attempt() == 0
                &&& r->Ok_0.wanted() == path_join(
                    store@.capacitorfiles_dir(namespace),
                    sanitized(name_of_upload(options@, filename@)),
                )
            },
        },
{
    match attachment {
        None => Err("Please attach a recipe to upload.".to_owned()),
        Some(filename) => {
            let name = upload_name(options, filename);
            Ok(store.save_capacitorfile(namespace, name.as_str()))
        },
    }
}

/// The answer to an upload of `size` bytes that was saved at `path`.
pub fn recipe_uploaded(path: &str, size: u64) -> (r: String)
    ensures
        r@ == "Uploaded recipe as `"@ + shown_name(path@, "capacitorfile"@) + "` ("@ + size_text(
            size as nat,
        ) + "). Use it with `/train recipe:"@ + shown_name(path@, "capacitorfile"@) + "`."@,
{
    let name = name_to_show(path, "capacitorfile");
    let size = format_size(size);
    let mut r = "Uploaded recipe as `".to_owned();
    r.append(name.as_str());
    r.append("` (");
    r.append(size.as_str());
    r.append("). Use it with `/train recipe:");
    r.append(name.as_str());
    r.append("`.");
    r
}

/// What `/recipe create` asks the user for.
pub fn create_prompt() -> (r: &'static str)
    ensures
        r@
            == "Reply to this message with the capacitorfile recipe content. Editing your reply will update the recipe file."@,
{
    "Reply to this message with the capacitorfile recipe content. Editing your reply will update the recipe file."
}

/// What is to be done once the user was asked for a new recipe.
pub enum CreateStep {
    /// No reply came in time: tell the user.
    TimedOut(String),
    /// Save the content under the name.
    Save { name: String, content: String },
    /// Save the content under the name that the recipe itself gives.
    SaveAsNamedInside { content: String },
}

/// Handles the reply to the prompt of `/recipe create`, `None` if there came
/// none in time.
pub fn recipe_create(options: &[CommandOption], reply: Option<&str>) -> (r: CreateStep)
    ensures
        match (reply, given_name(options@)) {
            (None, _) => r matches CreateStep::TimedOut(text) && text@
                == "Timed out waiting for your reply. No recipe was saved."@,
            (Some(reply), Some(given)) => r matches CreateStep::Save { name, content } && name@
                == given && content@ == fence_stripped(reply@),
            (Some(reply), None) => r matches CreateStep::SaveAsNamedInside { content } && content@
                == fence_stripped(reply@),
        },
{
    match reply {
        None => CreateStep::TimedOut(
            "Timed out waiting for your reply. No recipe was saved.".to_owned(),
        ),
        Some(reply) => {
            let content = strip_fence(reply);
            match provided_name(options) {
                Some(name) => CreateStep::Save { name, content },
                None => CreateStep::SaveAsNamedInside { content },
            }
        },
    }
}

/// The name of a recipe that was given none: the model name that it sets, if
/// it is a valid recipe that sets one.
pub fn recipe_name(model_name: Option<String>) -> (r: String)
    ensures
        r@ == match model_name {
            Some(name) => name@,
            None => "recipe.capacitor"@,
        },
{
    match model_name {
        Some(name) => name,
        None => "recipe.capacitor".to_owned(),
    }
}

/// How a command on a recipe that does not exist is answered.
pub open spec fn no_recipe_text(name: Seq<char>) -> Seq<char> {
    "No recipe named `"@ + name + "` in this server."@
}

/// How a command on a recipe that does not exist is answered.
pub fn no_recipe(name: &str) -> (r: String)
    ensures
        r@ == no_recipe_text(name@),
{
    let mut r = "No recipe named `".to_owned();
    r.append(name);
    r.append("` in this server.");
    r
}

/// What `/recipe edit` asks the user for, given what the recipe holds now.
pub fn edit_prompt(name: &str, current: &str) -> (r: String)
    ensures
        r@ == "**Current recipe `"@ + name@
            + "`**\n\nReply to this message with the updated capacitorfile recipe content. Editing your reply will update the recipe file.\n\n```\n"@
            + clipped(current@, 1800) + "\n```"@,
{
    let shown = clip(current, 1800);
    let mut r = "**Current recipe `".to_owned();
    r.append(name);
    r.append(
        "`**\n\nReply to this message with the updated capacitorfile recipe content. Editing your reply will update the recipe file.\n\n```\n",
    );
    r.append(shown.as_str());
    r.append("\n```");
    r
}

/// Handles the reply to the prompt of `/recipe edit`, `None` if there came
/// none in time: the recipe's new content, or what to tell the user.
pub fn recipe_edit(reply: Option<&str>) -> (r: Result<String, String>)
    ensures
        match reply {
            None => r is Err && r->Err_0@
                == "Timed out waiting for your reply. The recipe was not changed."@,
            Some(reply) => r is Ok && r->Ok_0@ == fence_stripped(reply@),
        },
{
    match reply {
        None => Err("Timed out waiting for your reply. The recipe was not changed.".to_owned()),
        Some(reply) => Ok(strip_fence(reply)),
    }
}

/// The answer to `/recipe list`, where `files` are the files found in the
/// recipes directory.
pub fn recipe_list(files: &[StoredFile]) -> (r: String)
    ensures
        r@ == if files@.len() == 0 {
            "No recipes uploaded in this server yet. Use `/recipe upload`."@
        } else {
            "Recipe in this server:\n"@ + file_lines(files@, "capacitorfile"@)
        },
{
    if files.len() == 0 {
        return "No recipes uploaded in this server yet. Use `/recipe upload`.".to_owned();
    }
    let lines = list_files(files, "capacitorfile");
    let mut r = "Recipe in this server:\n".to_owned();
    r.append(lines.as_str());
    r
}

/// The line for a dataset that a recipe refers to.
pub open spec fn reference_line(name: Seq<char>, uploaded: bool) -> Seq<char> {
    if uploaded {
        "- `"@ + name + "` (uploaded)"@
    } else {
        "- `"@ + name + "` (missing — `/dataset upload` it first)"@
    }
}

/// The lines for the datasets that a recipe refers to, where `entries` are the
/// file names found in the datasets directory. A file without a readable name
/// has no line.
pub open spec fn reference_lines(
    files: Seq<RecipeFile>,
    entries: Seq<Option<Seq<char>>>,
) -> Seq<Seq<char>>
    decreases files.len(),
{
    if files.len() == 0 {
        seq![]
    } else {
        let before = reference_lines(files.drop_last(), entries);
        match referenced_name(files.last()) {
            Some(name) => before.push(
                reference_line(name, first_match(entries, sanitized(name)) is Some),
            ),
            None => before,
        }
    }
}

/// `/recipe info` says of a dataset that it is uploaded exactly where a training
/// from the recipe finds it.
pub proof fn law_info_agrees_with_training(
    file: RecipeFile,
    dir: Seq<char>,
    entries: Seq<Option<Seq<char>>>,
)
    ensures
        reference_lines(seq![file], entries) == match referenced_name(file) {
            Some(name) => seq![reference_line(name, location(file, dir, entries) is Ok)],
            None => seq![],
        },
{
    assert(seq![file].drop_last() == Seq::<RecipeFile>::empty());
    assert(reference_lines(Seq::<RecipeFile>::empty(), entries) == Seq::<Seq<char>>::empty());
    assert(seq![file].last() == file);
}

/// What `/recipe info` says of the datasets that a recipe refers to; `None`
/// stands for a recipe that is not valid.
pub open spec fn references_text(
    files: Option<&Vec<RecipeFile>>,
    entries: Seq<Option<Seq<char>>>,
) -> Seq<char> {
    match files {
        Some(files) => join(reference_lines(files@, entries), "\n"@),
        None => "- *(not a valid recipe; saved as-is)*"@,
    }
}

/// The answer to `/recipe info`, before it is cut to the size of a message.
pub open spec fn info_body(
    name: Seq<char>,
    size: nat,
    references: Seq<char>,
    content: Seq<char>,
) -> Seq<char> {
    "**"@ + name + "** ("@ + decimal(size) + " bytes)\n\n**References**\n"@ + references
        + "\n\n```\n"@ + clipped(content, 1900) + "\n```"@
}

fn reference(name: &str, uploaded: bool) -> (r: String)
    ensures
        r@ == reference_line(name@, uploaded),
{
    let mut r = "- `".to_owned();
    r.append(name);
    if uploaded {
        r.append("` (uploaded)");
    } else {
        r.append("` (missing — `/dataset upload` it first)");
    }
    r
}

/// Says of each dataset that a recipe refers to whether it is uploaded. `files`
/// are the files that the recipe gives, `None` if it is not a valid recipe;
/// `entries` are the file names found in the datasets directory.
pub fn references(files: Option<&Vec<RecipeFile>>, entries: &Vec<Option<String>>) -> (r: String)
    ensures
        r@ == references_text(files, entry_names(entries@)),
{
    match files {
        None => "- *(not a valid recipe; saved as-is)*".to_owned(),
        Some(files) => {
            let mut lines: Vec<String> = Vec::new();
            assert(files@.take(0) == Seq::<RecipeFile>::empty());
            assert(texts(lines@) == Seq::<Seq<char>>::empty());
            for i in 0..files.len()
                invariant
                    texts(lines@) == reference_lines(
                        files@.take(i as int),
                        entry_names(entries@),
                    ),
            {
                let ghost before = lines@;
                assert(files@.take(i + 1).drop_last() == files@.take(i as int));
                assert(files@.take(i + 1).last() == files@[i as int]);
                match reference_name(&files[i]) {
                    Some(name) => {
                        let uploaded = find_entry(entries, name.as_str()).is_some();
                        let line = reference(name.as_str(), uploaded);
                        lines.push(line);
                        assert(texts(lines@) == texts(before).push(line@));
                    },
                    None => {},
                }
            }
            assert(files@.take(files@.len() as int) == files@);
            joined(lines.as_slice(), "\n")
        },
    }
}

/// The answer to `/recipe info` for a recipe of `size` bytes.
pub fn recipe_info(
    name: &str,
    size: u64,
    content: &str,
    files: Option<&Vec<RecipeFile>>,
    entries: &Vec<Option<String>>,
) -> (r: String)
    ensures
        r@ == clipped(
            info_body(
                name@,
                size as nat,
                references_text(files, entry_names(entries@)),
                content@,
            ),
            2000,
        ),
{
    let references = references(files, entries);
    let size = decimal_of(size);
    let shown = clip(content, 1900);
    let mut body = "**".to_owned();
    body.append(name);
    body.append("** (");
    body.append(size.as_str());
    body.append(" bytes)\n\n**References**\n");
    body.append(references.as_str());
    body.append("\n\n```\n");
    body.append(shown.as_str());
    body.append("\n```");
    clip(body.as_str(), 2000)
}

/// The answer to `/recipe delete`.
pub fn recipe_deleted(name: &str, removed: bool) -> (r: String)
    ensures
        r@ == if removed {
            "Deleted recipe `"@ + name@ + "`."@
        } else {
            no_recipe_text(name@)
        },
{
    if removed {
        let mut r = "Deleted recipe `".to_owned();
        r.append(name);
        r.append("`.");
        r
    } else {
        no_recipe(name)
    }
}

/// The answer to `/recipe info` names the recipe and its size, and shows the
/// references and the recipe's text, up to its limit, in this order.
pub proof fn law_info_body(
    name: Seq<char>,
    size: nat,
    references: Seq<char>,
    kept: Seq<char>,
    rest: Seq<char>,
)
    requires
        kept.len() == 1900,
        rest.len() > 0,
    ensures
        info_body(name, size, references, kept) == "**"@ + name + "** ("@ + decimal(size)
            + " bytes)\n\n**References**\n"@ + references + "\n\n```\n"@ + kept + "\n```"@,
        forall|short: Seq<char>|
            short.len() <= 1900 ==> #[trigger] info_body(name, size, references, short) == "**"@
                + name + "** ("@ + decimal(size) + " bytes)\n\n**References**\n"@ + references
                + "\n\n```\n"@ + short + "\n```"@,
        info_body(name, size, references, kept + rest) == "**"@ + name + "** ("@ + decimal(size)
            + " bytes)\n\n**References**\n"@ + references + "\n\n```\n"@ + (kept
            + "\n... (truncated)"@) + "\n```"@,
{
    law_clip_marks_the_cut(kept, rest);
}

/// What is said of a recipe that does not exist names it.
pub proof fn law_no_recipe_text(name: Seq<char>)
    ensures
        no_recipe_text(name) == "No recipe named `"@ + name + "` in this server."@,
        recipe_usage() == "Usage: `/recipe upload|list|info`."@,
{
}

} // verus!
