//! What holds of every answer that the functions give, whatever they are asked.

use vstd::prelude::*;

use crate::command_laws::law_first_choices;
use crate::command_laws::law_only_commands_are_handled;
use crate::command_laws::law_option_kinds;
use crate::command_laws::law_shown_name;
use crate::commands::CommandSpec;
use crate::commands::Handler;
use crate::commands::OptionKind;
use crate::commands::command_set;
use crate::commands::commands;
use crate::commands::interaction_create;
use crate::datasets::dataset_deleted;
use crate::datasets::dataset_list;
use crate::datasets::dataset_upload;
use crate::datasets::dataset_uploaded;
use crate::files::StoredFile;
use crate::files::file_lines;
use crate::jobs::forwarded_progress;
use crate::jobs::pool_size;
use crate::jobs::queue_capacity;
use crate::jobs::thread_name;
use crate::models::autocomplete;
use crate::models::first_choices;
use crate::models::law_choices_match;
use crate::models::law_matches_are_offered;
use crate::models::list;
use crate::models::lowercase;
use crate::models::matching;
use crate::models::query_response;
use crate::models::show;
use crate::numbers::decimal;
use crate::numbers::law_decimal_reads_back;
use crate::numbers::number;
use crate::options::CommandOption;
use crate::options::namespace;
use crate::options::option_text;
use crate::paths::is_component;
use crate::paths::path_join;
use crate::progress::BuildProgress;
use crate::recipe::RecipeFile;
use crate::recipe::count_documents;
use crate::recipe::location;
use crate::recipe::parse_failure;
use crate::recipe::referenced_name;
use crate::recipe_edit::is_reply_to;
use crate::recipe_edit::law_lines_rejoin;
use crate::recipe_edit::law_strip_fence_inverts_fencing;
use crate::recipe_edit::no_return_before_newline;
use crate::recipe_edit::prompt_message;
use crate::recipe_edit::strip_fence;
use crate::recipe_laws::is_line;
use crate::recipe_laws::law_documents_add_up;
use crate::recipe_laws::law_every_reference_is_told;
use crate::recipe_laws::law_fence_is_stripped;
use crate::recipe_laws::law_references_text;
use crate::recipe_laws::law_references_text_of_one;
use crate::recipe_laws::law_single_document;
use crate::recipe_laws::law_unfenced_first_line;
use crate::recipe_laws::law_unfenced_last_line;
use crate::recipe_laws::looks_fenced;
use crate::recipes::CreateStep;
use crate::recipes::edit_prompt;
use crate::recipes::recipe_create;
use crate::recipes::recipe_deleted;
use crate::recipes::recipe_edit;
use crate::recipes::recipe_info;
use crate::recipes::recipe_list;
use crate::recipes::recipe_name;
use crate::recipes::recipe_upload;
use crate::recipes::recipe_uploaded;
use crate::recipes::reference_lines;
use crate::recipes::references;
use crate::settings::parse_env;
use crate::store::ModelMeta;
use crate::store::ModelView;
use crate::store::Store;
use crate::store::UniquePath;
use crate::store::entry_names;
use crate::store::sanitized;
use crate::store_laws::law_find_named;
use crate::text::contains;
use crate::text::is_white_space;
use crate::text::join;
use crate::text::texts;
use crate::text_laws::ends_at_first;
use crate::text_laws::has_ink;
use crate::text_laws::is_free_of;
use crate::train::TrainRequest;
use crate::train::TrainResult;
use crate::train::Training;
use crate::train::config_failed;
use crate::train::start_failed;
use crate::train::train;
use crate::train::trained_model;
use crate::train::unusable_recipe;
use crate::util::size_text;

verus! {

/// A response begins with the prompt and a space. What was generated follows whole
/// where it is short, and is cut after 1900 characters where it is not; the whole
/// response is cut after 2000.
pub proof fn law_query_response(prompt: &str, generated: &str, r: String)
    requires
        call_ensures(query_response, (prompt, generated), r),
    ensures
        r@.len() <= 2016,
        prompt@.len() < 2000 ==> r@.take(prompt@.len() as int) == prompt@ && r@[prompt@.len() as int]
            == ' ',
        generated@.len() <= 1900 && prompt@.len() + 1 + generated@.len() <= 2000 ==> r@ == prompt@
            + seq![' '] + generated@,
        generated@.len() > 1900 && prompt@.len() <= 83 ==> r@ == prompt@ + seq![' ']
            + generated@.take(1900) + "\n... (truncated)"@,
        prompt@.len() + 1 + generated@.len() > 2000 && generated@.len() <= 1900 ==> r@ == (prompt@
            + seq![' '] + generated@).take(2000) + "\n... (truncated)"@,
{
    reveal_strlit(" ");
    reveal_strlit("\n... (truncated)");
    assert(" "@ == seq![' ']);
    if prompt@.len() < 2000 {
        assert(r@.take(prompt@.len() as int) == prompt@);
    }
}

/// A numeric setting that is not set is the default. One that is set does not
/// depend on the default: a number in decimal is read back, and what is refused is
/// quoted with the setting's name.
pub proof fn law_settings(
    name: &str,
    raw: &str,
    default: usize,
    other: usize,
    n: nat,
    unset: Result<usize, String>,
    r: Result<usize, String>,
    s: Result<usize, String>,
)
    requires
        call_ensures(parse_env, (name, None::<&str>, default), unset),
        call_ensures(parse_env, (name, Some(raw), default), r),
        call_ensures(parse_env, (name, Some(raw), other), s),
    ensures
        unset == Ok::<usize, String>(default),
        r is Ok <==> s is Ok,
        r is Ok ==> r->Ok_0 == s->Ok_0,
        raw@ == decimal(n) && n <= usize::MAX ==> r is Ok && r->Ok_0 == n,
        raw@ == decimal(n) && n > usize::MAX ==> r is Err,
        number(raw@) is None ==> r is Err,
        r is Err ==> r->Err_0@ == "invalid value for "@ + name@ + ": "@ + raw@,
{
    law_decimal_reads_back(n);
}

/// A training can begin exactly where a recipe is given, and trains from that
/// recipe. The model is named as asked, and like the recipe where no name is asked
/// for.
pub proof fn law_train(options: &[CommandOption], r: Result<TrainRequest, String>)
    requires
        call_ensures(train, (options,), r),
    ensures
        r is Ok <==> option_text(options@, "recipe"@) is Some,
        r is Ok ==> Some(r->Ok_0.source@) == option_text(options@, "recipe"@),
        r is Ok && option_text(options@, "model"@) is None ==> r->Ok_0.model@ == r->Ok_0.source@,
        r is Ok && option_text(options@, "model"@) == Some(Seq::<char>::empty())
            ==> r->Ok_0.model@ == r->Ok_0.source@,
        r is Ok && option_text(options@, "model"@) is Some && option_text(
            options@,
            "model"@,
        )->0.len() > 0 ==> Some(r->Ok_0.model@) == option_text(options@, "model"@),
{
}

/// What `/show` and `/list` answer rests on the models of the namespace alone.
pub proof fn law_answers_rest_on_the_namespace(
    store: &Store,
    other: &Store,
    namespace: u64,
    elsewhere: u64,
    options: &[CommandOption],
    shown: String,
    also_shown: String,
    listed: String,
    also_listed: String,
)
    requires
        store@.models(namespace) == other@.models(elsewhere),
        call_ensures(show, (store, namespace, options), shown),
        call_ensures(show, (other, elsewhere, options), also_shown),
        call_ensures(list, (store, namespace), listed),
        call_ensures(list, (other, elsewhere), also_listed),
    ensures
        shown@ == also_shown@,
        listed@ == also_listed@,
{
}

/// `/show` asks for the model where none is given, says that there is none of a
/// name that no model has, and else shows the first model of that name.
pub proof fn law_show(
    store: &Store,
    namespace: u64,
    options: &[CommandOption],
    before: Seq<ModelView>,
    model: ModelView,
    behind: Seq<ModelView>,
    r: String,
)
    requires
        call_ensures(show, (store, namespace, options), r),
        forall|i: int| 0 <= i < before.len() ==> (#[trigger] before[i]).name != model.name,
    ensures
        option_text(options@, "model"@) is None ==> r@ == "Missing required `model` option."@,
        option_text(options@, "model"@) == Some(model.name) && store@.models(namespace) == before
            ==> r@ == "No model named `"@ + model.name + "` in this server."@,
        option_text(options@, "model"@) == Some(model.name) && store@.models(namespace) == before
            + seq![model] + behind ==> r@ == "**"@ + model.name + "**\n- owner: <@"@ + decimal(
            model.owner as nat,
        ) + ">\n- datasets: "@ + join(model.datasets, ", "@) + "\n\n```\n"@ + model.recipe
            + "\n```"@,
{
    reveal_strlit("Missing required `");
    reveal_strlit("model");
    reveal_strlit("` option.");
    reveal_strlit("Missing required `model` option.");
    assert("Missing required `"@ + "model"@ + "` option."@ == "Missing required `model` option."@);
    law_find_named(before, model, behind);
}

/// An upload needs an attachment and nothing else. Datasets and recipes are saved
/// under the same name, each in its own directory: the name that is given, made
/// safe, else that of the attachment.
pub proof fn law_uploads(
    store: &Store,
    namespace: u64,
    options: &[CommandOption],
    filename: &str,
    dataset: Result<UniquePath, String>,
    recipe: Result<UniquePath, String>,
    no_dataset: Result<UniquePath, String>,
    no_recipe: Result<UniquePath, String>,
)
    requires
        call_ensures(dataset_upload, (store, namespace, options, Some(filename)), dataset),
        call_ensures(recipe_upload, (store, namespace, options, Some(filename)), recipe),
        call_ensures(dataset_upload, (store, namespace, options, None::<&str>), no_dataset),
        call_ensures(recipe_upload, (store, namespace, options, None::<&str>), no_recipe),
    ensures
        no_dataset is Err && no_recipe is Err,
        no_dataset->Err_0@ == "Please attach a text file to upload."@,
        no_recipe->Err_0@ == "Please attach a recipe to upload."@,
        dataset is Ok && recipe is Ok,
        dataset->Ok_0.attempt() == 0 && recipe->Ok_0.attempt() == 0,
        ({
            let name = if option_text(options@, "name"@) is Some && option_text(
                options@,
                "name"@,
            )->0.len() > 0 {
                option_text(options@, "name"@)->0
            } else {
                filename@
            };
            &&& dataset->Ok_0.wanted() == path_join(
                store@.datasets_dir(namespace),
                sanitized(name),
            )
            &&& recipe->Ok_0.wanted() == path_join(
                store@.capacitorfiles_dir(namespace),
                sanitized(name),
            )
        }),
{
}

/// An upload is confirmed with the name that the file got, twice, and its size.
pub proof fn law_uploads_are_confirmed(
    dir: &str,
    name: Seq<char>,
    path: &str,
    size: u64,
    dataset: String,
    recipe: String,
)
    requires
        is_component(name),
        path@ == path_join(dir@, name),
        call_ensures(dataset_uploaded, (path, size), dataset),
        call_ensures(recipe_uploaded, (path, size), recipe),
    ensures
        dataset@ == "Uploaded dataset as `"@ + name + "` ("@ + size_text(size as nat)
            + "). Use it with `/train dataset:"@ + name + "`."@,
        recipe@ == "Uploaded recipe as `"@ + name + "` ("@ + size_text(size as nat)
            + "). Use it with `/train recipe:"@ + name + "`."@,
{
    law_shown_name(dir@, name, "dataset"@);
    law_shown_name(dir@, name, "capacitorfile"@);
}

/// A listing says that there are no files exactly where there are none, and else
/// ends with the lines of all the files.
pub proof fn law_listings(files: &[StoredFile], datasets: String, recipes: String)
    requires
        call_ensures(dataset_list, (files,), datasets),
        call_ensures(recipe_list, (files,), recipes),
    ensures
        files@.len() == 0 ==> datasets@
            == "No datasets uploaded in this server yet. Use `/dataset upload`."@ && recipes@
            == "No recipes uploaded in this server yet. Use `/recipe upload`."@,
        files@.len() > 0 ==> datasets@ == "Datasets in this server:\n"@ + file_lines(
            files@,
            "dataset"@,
        ) && recipes@ == "Recipe in this server:\n"@ + file_lines(files@, "capacitorfile"@),
{
}

/// A deletion names the file, and what was deleted is told apart from what was not
/// there.
pub proof fn law_deletions(
    name: &str,
    dataset: String,
    no_dataset: String,
    recipe: String,
    no_recipe: String,
)
    requires
        call_ensures(dataset_deleted, (name, true), dataset),
        call_ensures(dataset_deleted, (name, false), no_dataset),
        call_ensures(recipe_deleted, (name, true), recipe),
        call_ensures(recipe_deleted, (name, false), no_recipe),
    ensures
        dataset@ == "Deleted dataset `"@ + name@ + "`."@,
        recipe@ == "Deleted recipe `"@ + name@ + "`."@,
        no_dataset@ == "No dataset named `"@ + name@ + "` in this server."@,
        no_recipe@ == "No recipe named `"@ + name@ + "` in this server."@,
        dataset@ != no_dataset@,
        recipe@ != no_recipe@,
{
    reveal_strlit("Deleted dataset `");
    reveal_strlit("Deleted recipe `");
    reveal_strlit("No dataset named `");
    reveal_strlit("No recipe named `");
    assert(dataset@[0] == 'D' && no_dataset@[0] == 'N');
    assert(recipe@[0] == 'D' && no_recipe@[0] == 'N');
}

/// A recipe that is replied in a fence is saved as it stands inside the fence, on
/// creation and on editing alike: under the name that was given on creation, and
/// where none was given under the name inside. Nothing is saved without a reply.
pub proof fn law_replies_are_saved(
    options: &[CommandOption],
    reply: &str,
    tag: Seq<char>,
    body: Seq<char>,
    created: CreateStep,
    edited: Result<String, String>,
    not_created: CreateStep,
    not_edited: Result<String, String>,
)
    requires
        call_ensures(recipe_create, (options, Some(reply)), created),
        call_ensures(recipe_edit, (Some(reply),), edited),
        call_ensures(recipe_create, (options, None::<&str>), not_created),
        call_ensures(recipe_edit, (None::<&str>,), not_edited),
        forall|i: int| 0 <= i < tag.len() ==> tag[i] != '\n',
        no_return_before_newline(body),
        reply@ == "```"@ + tag + "\n"@ + body + "\n"@ + "```"@,
    ensures
        edited is Ok && edited->Ok_0@ == body,
        not_created is TimedOut && not_edited is Err,
        option_text(options@, "name"@) is Some && option_text(options@, "name"@)->0.len() > 0 ==> (
        created matches CreateStep::Save { name, content } && Some(name@) == option_text(
            options@,
            "name"@,
        ) && content@ == body),
        option_text(options@, "name"@) is None ==> (
        created matches CreateStep::SaveAsNamedInside { content } && content@ == body),
{
    law_strip_fence_inverts_fencing(tag, body);
}

/// A recipe that gives no name is saved under `recipe.capacitor`, and one that
/// gives a name under that.
pub proof fn law_recipe_name(given: Option<String>, r: String)
    requires
        call_ensures(recipe_name, (given,), r),
    ensures
        given is Some ==> r@ == given->0@,
        given is None ==> r@ == "recipe.capacitor"@,
{
}

/// The prompt for an edit shows the whole current recipe in a fence where it is
/// short, and its first 1800 characters where it is not.
pub proof fn law_edit_prompt(name: &str, current: &str, r: String)
    requires
        call_ensures(edit_prompt, (name, current), r),
    ensures
        current@.len() <= 1800 ==> r@.skip(r@.len() - current@.len() - 9) == "\n```\n"@ + current@
            + "\n```"@,
        current@.len() > 1800 ==> r@.skip(r@.len() - 1825) == "\n```\n"@ + current@.take(1800)
            + "\n... (truncated)"@ + "\n```"@,
        r@.len() > 18 + name@.len() && r@.skip(18).take(name@.len() as int) == name@,
{
    let lead = "**Current recipe `"@ + name@;
    let rest =
        "`**\n\nReply to this message with the updated capacitorfile recipe content. Editing your reply will update the recipe file.\n\n```\n"@;
    reveal_strlit("**Current recipe `");
    reveal_strlit("\n```\n");
    reveal_strlit(
        "`**\n\nReply to this message with the updated capacitorfile recipe content. Editing your reply will update the recipe file.\n\n```\n",
    );
    reveal_strlit("\n```");
    reveal_strlit("\n... (truncated)");
    let n: int = rest.len() - 5;
    assert(rest.skip(n) == "\n```\n"@);
    let shown = if current@.len() <= 1800 {
        current@
    } else {
        current@.take(1800) + "\n... (truncated)"@
    };
    assert(r@ == lead + rest + shown + "\n```"@);
    assert(r@.skip(r@.len() - shown.len() - 9) == "\n```\n"@ + shown + "\n```"@);
    assert(r@.skip(18).take(name@.len() as int) == name@);
}

/// The workers of a pool have different names.
pub proof fn law_thread_names_are_distinct(i: usize, j: usize, r: String, s: String)
    requires
        call_ensures(thread_name, (i,), r),
        call_ensures(thread_name, (j,), s),
    ensures
        r@ == s@ <==> i == j,
        r@.take(16) == "capacitor-train-"@,
        number(r@.skip(16)) == Some(i as nat),
{
    reveal_strlit("capacitor-train-");
    law_decimal_reads_back(i as nat);
    law_decimal_reads_back(j as nat);
    assert(r@.skip(16) == decimal(i as nat));
    assert(s@.skip(16) == decimal(j as nat));
}

/// Every command of the command set is handled, and a name of no command is quoted
/// in the answer.
pub proof fn law_unknown_commands_are_quoted(name: &str, r: Result<Handler, String>)
    requires
        call_ensures(interaction_create, (name,), r),
    ensures
        r is Ok <==> exists|i: int|
            0 <= i < command_set().len() && #[trigger] command_set()[i].name == name@,
        r is Err ==> r->Err_0@ == "Unknown command `"@ + name@ + "`."@,
{
    law_only_commands_are_handled(name@);
}

/// What is done in a guild is kept for the guild, whoever does it, and what is done
/// outside for the user.
pub proof fn law_namespace(guild: Option<u64>, user: u64, other: u64, r: u64, s: u64)
    requires
        call_ensures(namespace, (guild, user), r),
        call_ensures(namespace, (guild, other), s),
    ensures
        guild is Some ==> r == s && Some(r) == guild,
        guild is None ==> r == user && s == other,
{
}

/// A recipe that cannot be used is named, and why it cannot is told.
pub proof fn law_refusals_tell_why(
    recipe: &str,
    reason: &str,
    unparsed: String,
    unusable: String,
    no_config: String,
    no_start: String,
)
    requires
        call_ensures(parse_failure, (recipe, reason), unparsed),
        call_ensures(unusable_recipe, (recipe,), unusable),
        call_ensures(config_failed, (reason,), no_config),
        call_ensures(start_failed, (reason,), no_start),
    ensures
        unparsed@ == "`"@ + recipe@ + "` did not parse as a capacitorfile recipe: "@ + reason@,
        unusable@ == "No usable recipe `"@ + recipe@
            + "` (unknown, empty, or split into zero documents)."@,
        no_config@ == "Could not build training config: "@ + reason@,
        no_start@ == "Could not start training: "@ + reason@,
{
}

/// Only reports of experts with a total are passed on, and they are as they were.
pub proof fn law_forwarded_progress(event: &BuildProgress, r: Option<(usize, usize)>)
    requires
        call_ensures(forwarded_progress, (event,), r),
    ensures
        forall|current: usize, total: usize|
            r == Some((current, total)) <==> #[trigger] is_experts_report(*event, current, total),
{
}

/// Whether a report is one of experts, with a total.
pub open spec fn is_experts_report(event: BuildProgress, current: usize, total: usize) -> bool {
    &&& event matches BuildProgress::BuildExperts { current: c, total: t }
    &&& c == current
    &&& t == total
    &&& total > 0
}

/// The model that a training leaves is the namespace's, and is what was trained.
pub proof fn law_trained_model(
    namespace: u64,
    model: String,
    path: String,
    datasets: Vec<String>,
    created_at: u64,
    recipe: String,
    r: ModelMeta,
)
    requires
        call_ensures(trained_model, (namespace, model, path, datasets, created_at, recipe), r),
    ensures
        r.owner == namespace,
        r.created_at == created_at,
        r.name@ == model@,
        r.path@ == path@,
        r.recipe@ == recipe@,
        r.datasets@.len() == datasets@.len(),
        forall|i: int| 0 <= i < datasets@.len() ==> #[trigger] r.datasets@[i]@ == datasets@[i]@,
{
    assert(texts(r.datasets@).len() == datasets@.len());
    assert forall|i: int| 0 <= i < datasets@.len() implies #[trigger] r.datasets@[i]@
        == datasets@[i]@ by {
        assert(texts(r.datasets@)[i] == texts(datasets@)[i]);
    }
}

/// What stands before the first delimiter is a document exactly where it holds more
/// than white space, and adds one to the documents behind the delimiter. A text
/// without the delimiter is at most one document.
pub proof fn law_counted_documents(
    raw: &str,
    delimiter: &str,
    behind: &str,
    head: Seq<char>,
    r: usize,
    s: usize,
)
    requires
        call_ensures(count_documents, (raw, delimiter), r),
        call_ensures(count_documents, (behind, delimiter), s),
    ensures
        delimiter@.len() > 0 && ends_at_first(head, delimiter@) && raw@ == head + delimiter@
            + behind@ ==> r == s + if has_ink(head) {
            1int
        } else {
            0
        },
        delimiter@.len() == 0 || is_free_of(raw@, delimiter@) ==> r == if has_ink(raw@) {
            1int
        } else {
            0
        },
{
    if delimiter@.len() > 0 && ends_at_first(head, delimiter@) {
        law_documents_add_up(head, delimiter@, behind@);
    }
    if delimiter@.len() == 0 || is_free_of(raw@, delimiter@) {
        law_single_document(raw@, delimiter@);
    }
}

/// A text in a fence comes out without it, and a text whose first line or last line
/// is no fence comes out as it is.
pub proof fn law_stripped_fence(
    content: &str,
    front: Seq<char>,
    body: Seq<char>,
    back: Seq<char>,
    r: String,
)
    requires
        call_ensures(strip_fence, (content,), r),
        is_line(front),
        is_line(back),
        back.len() > 0,
        !is_white_space(back.last()),
        content@ == front + seq!['\n'] + body + seq!['\n'] + back,
        no_return_before_newline(body),
    ensures
        r@ == if looks_fenced(front) && looks_fenced(back) {
            body
        } else {
            content@
        },
{
    let none = Seq::<char>::empty();
    assert(content@ + none == content@);
    if !looks_fenced(front) {
        assert(content@ == front + seq!['\n'] + (body + seq!['\n'] + back));
        law_unfenced_first_line(front, body + seq!['\n'] + back);
    } else if !looks_fenced(back) {
        law_unfenced_last_line(front + seq!['\n'] + body, back, none);
    } else {
        law_fence_is_stripped(front, body, back, none);
        law_lines_rejoin(body);
    }
}

proof fn lemma_named_file_has_a_line(files: Seq<RecipeFile>, entries: Seq<Option<Seq<char>>>)
    requires
        exists|i: int| 0 <= i < files.len() && referenced_name(#[trigger] files[i]) is Some,
    ensures
        reference_lines(files, entries).len() > 0,
{
    let i = choose|i: int| 0 <= i < files.len() && referenced_name(#[trigger] files[i]) is Some;
    assert(files == files.take(i) + seq![files[i]] + files.skip(i + 1));
    law_every_reference_is_told(files.take(i), files[i], files.skip(i + 1), seq![], entries);
}

/// The references of a longer list are those of its parts, one below the other.
pub proof fn law_listed_references(
    files: &Vec<RecipeFile>,
    front: &Vec<RecipeFile>,
    back: &Vec<RecipeFile>,
    entries: &Vec<Option<String>>,
    r: String,
    s: String,
    t: String,
)
    requires
        call_ensures(references, (Some(files), entries), r),
        call_ensures(references, (Some(front), entries), s),
        call_ensures(references, (Some(back), entries), t),
        files@ == front@ + back@,
        exists|i: int| 0 <= i < front@.len() && referenced_name(#[trigger] front@[i]) is Some,
        exists|i: int| 0 <= i < back@.len() && referenced_name(#[trigger] back@[i]) is Some,
    ensures
        r@ == s@ + "\n"@ + t@,
{
    let names = entry_names(entries@);
    lemma_named_file_has_a_line(front@, names);
    lemma_named_file_has_a_line(back@, names);
    law_references_text(*files, front@, back@, names);
}

/// A single reference is named, and told to be uploaded exactly where a training
/// from the recipe finds the dataset.
pub proof fn law_listed_reference(
    files: &Vec<RecipeFile>,
    entries: &Vec<Option<String>>,
    dir: Seq<char>,
    r: String,
)
    requires
        call_ensures(references, (Some(files), entries), r),
        files@.len() == 1,
        referenced_name(files@[0]) is Some,
    ensures
        r@ == "- `"@ + referenced_name(files@[0])->0 + if location(
            files@[0],
            dir,
            entry_names(entries@),
        ) is Ok {
            "` (uploaded)"@
        } else {
            "` (missing — `/dataset upload` it first)"@
        },
{
    let names = entry_names(entries@);
    let none = Seq::<RecipeFile>::empty();
    assert(files@ == none + seq![files@[0]] + none);
    law_every_reference_is_told(none, files@[0], none, dir, names);
    assert(reference_lines(none, names).len() == 0);
    law_references_text_of_one(*files, names);
}

/// In the registered commands, an option is a file exactly where it is named
/// `file`; every other option that is no subcommand is a text.
pub proof fn law_registered_kinds(r: Vec<CommandSpec>, i: int, j: int, k: int)
    requires
        call_ensures(commands, (), r),
        0 <= i < r@.len(),
        0 <= j < r@[i].options@.len(),
    ensures
        ({
            let option = r@[i].options@[j];
            &&& option.kind == OptionKind::SubCommand <==> r@[i].name@ == "dataset"@ || r@[i].name@
                == "recipe"@
            &&& option.kind != OptionKind::SubCommand ==> option.kind == OptionKind::Text
            &&& 0 <= k < option.sub_options@.len() ==> option.sub_options@[k].kind == (
            if option.sub_options@[k].name@ == "file"@ {
                OptionKind::Attachment
            } else {
                OptionKind::Text
            })
        }),
{
    let views = r@.map_values(|c: CommandSpec| c@);
    assert(views[i] == r@[i]@);
    assert(views[i].options[j] == r@[i].options@[j]@);
    if 0 <= k < r@[i].options@[j].sub_options@.len() {
        assert(views[i].options[j].sub_options[k] == r@[i].options@[j].sub_options@[k]@);
    }
    law_option_kinds(i, j, k);
}

/// A training is registered exactly where the model was built, as it stands; each of
/// the three ends has its own message.
pub proof fn law_concluded(
    training: &Training,
    entry: ModelMeta,
    reason: &str,
    result: &TrainResult<'_>,
    r: (Option<ModelMeta>, String),
)
    requires
        call_ensures(Training::concluded, (training, result, entry), r),
    ensures
        *result is Built ==> r.0 is Some && r.0->0@ == entry@ && r.1@ == "Model `"@
            + training.model() + "` trained and saved. Query it with `/query model:"@
            + training.model() + " prompt:<your prompt>`."@,
        *result == TrainResult::Failed(reason) ==> r.0 is None && r.1@ == "Training `"@
            + training.model() + "` failed: "@ + reason@,
        *result is Aborted ==> r.0 is None && r.1@ == "Training `"@ + training.model()
            + "` was aborted before completing."@,
{
}

/// `/recipe info` tells the name, the size in bytes, the references and the content
/// where they fit in a message, and never much more than a message holds.
pub proof fn law_recipe_info(
    name: &str,
    size: u64,
    content: &str,
    files: Option<&Vec<RecipeFile>>,
    entries: &Vec<Option<String>>,
    listed: String,
    r: String,
)
    requires
        call_ensures(references, (files, entries), listed),
        call_ensures(recipe_info, (name, size, content, files, entries), r),
    ensures
        r@.len() <= 2016,
        ({
            let whole = "**"@ + name@ + "** ("@ + decimal(size as nat)
                + " bytes)\n\n**References**\n"@ + listed@ + "\n\n```\n"@ + content@ + "\n```"@;
            &&& content@.len() <= 1900 && whole.len() <= 2000 ==> r@ == whole
            &&& content@.len() <= 1900 && whole.len() > 2000 ==> r@ == whole.take(2000)
                + "\n... (truncated)"@
        }),
{
    reveal_strlit("\n... (truncated)");
}

/// A prompt is shown whole where it fits in a message, and a message is a reply to
/// it exactly where it refers to it.
pub proof fn law_prompts(
    prompt: &str,
    reference: Option<u64>,
    id: u64,
    shown: String,
    is_reply: bool,
)
    requires
        call_ensures(prompt_message, (prompt,), shown),
        call_ensures(is_reply_to, (reference, id), is_reply),
    ensures
        prompt@.len() <= 2000 ==> shown@ == prompt@,
        prompt@.len() > 2000 ==> shown@ == prompt@.take(2000) + "\n... (truncated)"@,
        is_reply ==> reference is Some && reference->0 == id,
        reference == Some(id) ==> is_reply,
{
}

/// A pool has the workers that were asked for, but at least one, and queues two jobs
/// for each of them.
pub proof fn law_pool(workers: usize, size: usize, queued: usize)
    requires
        call_ensures(pool_size, (workers,), size),
        call_ensures(queue_capacity, (size,), queued),
    ensures
        size >= 1,
        workers >= 1 ==> size == workers,
        workers == 0 ==> size == 1,
        queued >= size,
        2 * size <= usize::MAX ==> queued == 2 * size,
        2 * size > usize::MAX ==> queued == usize::MAX,
{
}

/// What is typed completes to names that hold it, whatever the case of either; all
/// that do are offered where they are no more than twenty-five.
pub proof fn law_autocomplete(names: &[String], typed: &str, i: int, r: Vec<String>)
    requires
        call_ensures(autocomplete, (names, typed), r),
    ensures
        r@.len() <= 25,
        0 <= i < r@.len() ==> exists|j: int|
            0 <= j < names@.len() && #[trigger] names@[j]@ == r@[i]@ && contains(
                lowercase(names@[j]@),
                lowercase(typed@),
            ),
        0 <= i < names@.len() && contains(lowercase(names@[i]@), lowercase(typed@)) && r@.len()
            < 25 ==> exists|j: int| 0 <= j < r@.len() && #[trigger] r@[j]@ == names@[i]@,
{
    let all = texts(names@);
    let lowered = all.map_values(|n: Seq<char>| lowercase(n));
    let query = lowercase(typed@);
    let found = matching(all, lowered, query);
    let offered = first_choices(found);
    assert(texts(r@) == offered);
    assert(r@.len() == offered.len());
    law_first_choices(found);
    if 0 <= i < r@.len() {
        law_choices_match(all, lowered, query, i);
        let j = choose|j: int|
            0 <= j < all.len() && #[trigger] all[j] == offered[i] && contains(lowered[j], query);
        assert(names@[j]@ == all[j]);
        assert(r@[i]@ == texts(r@)[i]);
    }
    if 0 <= i < names@.len() && contains(lowercase(names@[i]@), query) && r@.len() < 25 {
        assert(lowered[i] == lowercase(all[i]));
        law_matches_are_offered(all, lowered, query, i);
        let j = choose|j: int| 0 <= j < offered.len() && offered[j] == all[i];
        assert(r@[j]@ == texts(r@)[j]);
        assert(names@[i]@ == all[i]);
    }
}

} // verus!
