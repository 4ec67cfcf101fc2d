//! The commands on trained models.

use vstd::prelude::*;

use crate::commands::command_set;
use crate::files::missing_option_text;
use crate::files::required_option;
use crate::numbers::decimal;
use crate::numbers::decimal_of;
use crate::options::option_str;
use crate::options::option_text;
use crate::options::CommandOption;
use crate::order::law_name_sorted_map;
use crate::order::name_sorted;
use crate::order::sort_by_name;
use crate::order::HasName;
use crate::order::Named;
use crate::paths::file_name;
use crate::paths::is_component;
use crate::paths::law_join_file_name;
use crate::paths::path_file_name;
use crate::store::distinct_names;
use crate::store::entry_names;
use crate::store::find_named;
use crate::store::model_views;
use crate::store::paths_in;
use crate::store::registered;
use crate::store::removed;
use crate::store::ModelMeta;
use crate::store::ModelView;
use crate::store::Store;
use crate::store::StoreView;
use crate::store_laws::law_deleted_is_gone;
use crate::store_laws::law_registered_is_found;
use crate::text::chars_of;
use crate::text::contains;
use crate::text::has_occurrence;
use crate::text::join;
use crate::text::joined;
use crate::text::same_text;
use crate::text::texts;
use crate::util::clip;
use crate::util::clipped;

verus! {

/// The lower-case equivalent of a text.
pub uninterp spec fn lowercase(s: Seq<char>) -> Seq<char>;

/// `str::to_lowercase` returns the lower-case equivalent of the text, by the
/// Unicode property `Lowercase`. It depends on the text alone: the locale plays
/// no part. What the equivalent of a given text is, is left unsaid.
pub assume_specification[ str::to_lowercase ](s: &str) -> (r: String)
    ensures
        r@ == lowercase(s@),
;

impl HasName for ModelView {
    open spec fn spec_name(&self) -> Seq<char> {
        self.name
    }
}

impl HasName for ModelMeta {
    open spec fn spec_name(&self) -> Seq<char> {
        self.name@
    }
}

impl Named for ModelMeta {
    fn name(&self) -> (r: &str) {
        self.name.as_str()
    }
}

/// What is to be done for a `/query`.
pub enum QueryOutcome {
    /// Nothing but to answer.
    Reply(String),
    /// Generate from the model.
    Run { prompt: String, model: ModelMeta },
}

/// How a `/query` goes on.
pub struct QueryPlan {
    /// Whether the registry changed and is to be written out first.
    pub changed: bool,
    pub outcome: QueryOutcome,
}

/// The model that a `/query` is for: the one that the options give, else the
/// one that was queried last.
pub open spec fn queried_model(
    store: StoreView,
    namespace: u64,
    options: Seq<CommandOption>,
) -> Option<Seq<char>> {
    match option_text(options, "model"@) {
        Some(name) => Some(name),
        None => store.last_used(namespace),
    }
}

/// The store after a `/query`: a model that the options give is remembered,
/// whether it exists or not.
pub open spec fn store_after_query(
    store: StoreView,
    namespace: u64,
    options: Seq<CommandOption>,
) -> StoreView {
    match (option_text(options, "prompt"@), option_text(options, "model"@)) {
        (Some(_), Some(name)) => store.with_last_used(namespace, name),
        _ => store,
    }
}

/// How a `/query` without a model is answered.
pub open spec fn no_model_given_text() -> Seq<char> {
    "No `model` given and no model has been used in this server yet. Run `/query model:<name> ...` (autocomplete available) or `/list`."@
}

/// Whether `outcome` is what a `/query` leads to.
pub open spec fn is_query_outcome(
    store: StoreView,
    namespace: u64,
    options: Seq<CommandOption>,
    outcome: QueryOutcome,
) -> bool {
    match (option_text(options, "prompt"@), queried_model(store, namespace, options)) {
        (None, _) => outcome matches QueryOutcome::Reply(text) && text@ == missing_option_text(
            "prompt"@,
        ),
        (Some(_), None) => outcome matches QueryOutcome::Reply(text) && text@
            == no_model_given_text(),
        (Some(asked), Some(name)) => match find_named(store.models(namespace), name) {
            None => outcome matches QueryOutcome::Reply(text) && text@ == "No model named `"@ + name
                + "` in this server. Use `/list`."@,
            Some(found) => outcome matches QueryOutcome::Run { prompt, model } && prompt@ == asked
                && model@ == found,
        },
    }
}

/// Decides how a `/query` goes on, and remembers the model that it names.
pub fn query(store: &mut Store, namespace: u64, options: &[CommandOption]) -> (r: QueryPlan)
    ensures
        final(store)@ == store_after_query(old(store)@, namespace, options@),
        r.changed == (option_text(options@, "prompt"@) is Some && option_text(
            options@,
            "model"@,
        ) is Some),
        is_query_outcome(old(store)@, namespace, options@, r.outcome),
{
    let prompt = match required_option(options, "prompt") {
        Ok(prompt) => prompt,
        Err(message) => {
            return QueryPlan { changed: false, outcome: QueryOutcome::Reply(message) };
        },
    };
    let (name, changed) = match option_str(options, "model") {
        Some(name) => {
            store.set_last_used(namespace, name.as_str());
            assert(store@.models(namespace) == old(store)@.models(namespace));
            (Some(name), true)
        },
        None => (store.last_used(namespace), false),
    };
    let outcome = match name {
        None => QueryOutcome::Reply(
            "No `model` given and no model has been used in this server yet. Run `/query model:<name> ...` (autocomplete available) or `/list`.".to_owned(),
        ),
        Some(name) => match store.get(namespace, name.as_str()) {
            Some(model) => QueryOutcome::Run { prompt, model },
            None => {
                let mut message = "No model named `".to_owned();
                message.append(name.as_str());
                message.append("` in this server. Use `/list`.");
                QueryOutcome::Reply(message)
            },
        },
    };
    QueryPlan { changed, outcome }
}

/// The answer to a `/query`: the prompt and what was generated from it, cut to
/// the size of a message.
pub fn query_response(prompt: &str, generated: &str) -> (r: String)
    ensures
        r@ == clipped(prompt@ + " "@ + clipped(generated@, 1900), 2000),
{
    let shown = clip(generated, 1900);
    let mut response = prompt.to_owned();
    response.append(" ");
    response.append(shown.as_str());
    clip(response.as_str(), 2000)
}

/// A model that a `/query` names is the one that a later `/query` without a
/// model is for, in the same namespace.
pub proof fn law_query_remembers_model(
    store: StoreView,
    namespace: u64,
    first: Seq<CommandOption>,
    second: Seq<CommandOption>,
)
    requires
        option_text(first, "prompt"@) is Some,
        option_text(first, "model"@) is Some,
        option_text(second, "model"@) is None,
    ensures
        queried_model(store_after_query(store, namespace, first), namespace, second)
            == option_text(first, "model"@),
{
}

/// A `/query` changes nothing but what its own namespace used last.
pub proof fn law_query_keeps_the_rest(
    store: StoreView,
    namespace: u64,
    options: Seq<CommandOption>,
    other: u64,
)
    ensures
        store_after_query(store, namespace, options).models(other) == store.models(other),
        other != namespace ==> store_after_query(store, namespace, options).last_used(other)
            == store.last_used(other),
{
}

/// A model that was trained and registered can be queried by its name, in its
/// own namespace.
pub proof fn law_trained_model_can_be_queried(
    store: StoreView,
    namespace: u64,
    meta: ModelView,
    options: Seq<CommandOption>,
    outcome: QueryOutcome,
)
    requires
        option_text(options, "prompt"@) is Some,
        option_text(options, "model"@) == Some(meta.name),
        is_query_outcome(
            store.with_models(namespace, registered(store.models(namespace), meta)),
            namespace,
            options,
            outcome,
        ),
    ensures
        outcome matches QueryOutcome::Run { prompt, model } && Some(prompt@) == option_text(
            options,
            "prompt"@,
        ) && model@ == meta,
{
    law_registered_is_found(store.models(namespace), meta);
}

/// A model that was deleted can no longer be queried.
pub proof fn law_deleted_model_is_refused(
    store: StoreView,
    namespace: u64,
    name: Seq<char>,
    options: Seq<CommandOption>,
    outcome: QueryOutcome,
)
    requires
        distinct_names(store.models(namespace)),
        option_text(options, "prompt"@) is Some,
        option_text(options, "model"@) == Some(name),
        is_query_outcome(
            store.with_models(namespace, removed(store.models(namespace), name)),
            namespace,
            options,
            outcome,
        ),
    ensures
        outcome matches QueryOutcome::Reply(text) && text@ == "No model named `"@ + name
            + "` in this server. Use `/list`."@,
{
    law_deleted_is_gone(store.models(namespace), name);
}

/// The line for a model.
pub open spec fn model_line(model: ModelView) -> Seq<char> {
    "- `"@ + model.name + "` (owner <@"@ + decimal(model.owner as nat) + ">, "@ + decimal(
        model.datasets.len(),
    ) + " datasets)"@
}

/// The answer to `/list` for some models.
pub open spec fn list_text(models: Seq<ModelView>) -> Seq<char> {
    if models.len() == 0 {
        "No models in this server yet. Use `/dataset upload` and `/train` one."@
    } else {
        "Models in this server:\n"@ + join(
            name_sorted(models).map_values(|m: ModelView| model_line(m)),
            "\n"@,
        )
    }
}

fn line_of(model: &ModelMeta) -> (r: String)
    ensures
        r@ == model_line(model@),
{
    let owner = decimal_of(model.owner);
    let datasets = decimal_of(model.datasets.len() as u64);
    let mut r = "- `".to_owned();
    r.append(model.name.as_str());
    r.append("` (owner <@");
    r.append(owner.as_str());
    r.append(">, ");
    r.append(datasets.as_str());
    r.append(" datasets)");
    r
}

/// The answer to `/list`.
pub fn list(store: &Store, namespace: u64) -> (r: String)
    ensures
        r@ == list_text(store@.models(namespace)),
{
    let models = store.list(namespace);
    let ghost views = store@.models(namespace);
    assert(views.len() == models@.len());
    if models.len() == 0 {
        return "No models in this server yet. Use `/dataset upload` and `/train` one.".to_owned();
    }
    let ghost view = |m: ModelMeta| m@;
    proof {
        law_name_sorted_map(models@, view);
    }
    let sorted = sort_by_name(models);
    let ghost sorted_views = name_sorted(views);
    assert(sorted@.map_values(view) == sorted_views);
    let ghost all = sorted_views.map_values(|m: ModelView| model_line(m));
    let mut lines: Vec<String> = Vec::new();
    assert(texts(lines@) == all.take(0));
    for i in 0..sorted.len()
        invariant
            view == (|m: ModelMeta| m@),
            sorted@.map_values(view) == sorted_views,
            all == sorted_views.map_values(|m: ModelView| model_line(m)),
            texts(lines@) == all.take(i as int),
    {
        let ghost before = lines@;
        assert(sorted@.map_values(view)[i as int] == sorted@[i as int]@);
        let line = line_of(&sorted[i]);
        lines.push(line);
        assert(texts(lines@) == texts(before).push(line@));
        assert(all.take(i + 1) == all.take(i as int).push(all[i as int]));
    }
    assert(all.take(sorted@.len() as int) == all);
    let lines = joined(lines.as_slice(), "\n");
    let mut r = "Models in this server:\n".to_owned();
    r.append(lines.as_str());
    r
}

/// How a command on a model that does not exist is answered.
pub open spec fn no_model_text(name: Seq<char>) -> Seq<char> {
    "No model named `"@ + name + "` in this server."@
}

fn no_model(name: &str) -> (r: String)
    ensures
        r@ == no_model_text(name@),
{
    let mut r = "No model named `".to_owned();
    r.append(name);
    r.append("` in this server.");
    r
}

/// What `/show` says of a model.
pub open spec fn details_text(model: ModelView) -> Seq<char> {
    "**"@ + model.name + "**\n- owner: <@"@ + decimal(model.owner as nat) + ">\n- datasets: "@
        + join(model.datasets, ", "@) + "\n\n```\n"@ + model.recipe + "\n```"@
}

/// The answer to `/show`.
pub fn show(store: &Store, namespace: u64, options: &[CommandOption]) -> (r: String)
    ensures
        r@ == match option_text(options@, "model"@) {
            None => missing_option_text("model"@),
            Some(name) => match find_named(store@.models(namespace), name) {
                None => no_model_text(name),
                Some(model) => details_text(model),
            },
        },
{
    let name = match required_option(options, "model") {
        Ok(name) => name,
        Err(message) => {
            return message;
        },
    };
    match store.get(namespace, name.as_str()) {
        None => no_model(name.as_str()),
        Some(model) => {
            let owner = decimal_of(model.owner);
            let datasets = joined(model.datasets.as_slice(), ", ");
            let mut r = "**".to_owned();
            r.append(model.name.as_str());
            r.append("**\n- owner: <@");
            r.append(owner.as_str());
            r.append(">\n- datasets: ");
            r.append(datasets.as_str());
            r.append("\n\n```\n");
            r.append(model.recipe.as_str());
            r.append("\n```");
            r
        },
    }
}

/// What is to be done for a `/delete`.
pub enum Deletion {
    /// Nothing but to answer.
    Reply(String),
    /// Remove the model's file, if it exists, write the registry out, and
    /// answer.
    Remove { path: String, reply: String },
}

/// Handles `/delete`: takes the model out of the registry.
pub fn delete(store: &mut Store, namespace: u64, options: &[CommandOption]) -> (r: Deletion)
    ensures
        match option_text(options@, "model"@) {
            None => {
                &&& final(store)@ == old(store)@
                &&& r matches Deletion::Reply(text) && text@ == missing_option_text("model"@)
            },
            Some(name) => match find_named(old(store)@.models(namespace), name) {
                None => {
                    &&& final(store)@ == old(store)@
                    &&& r matches Deletion::Reply(text) && text@ == no_model_text(name)
                },
                Some(model) => {
                    &&& final(store)@ == old(store)@.with_models(
                        namespace,
                        removed(old(store)@.models(namespace), name),
                    )
                    &&& r matches Deletion::Remove { path, reply } && path@ == model.path && reply@
                        == "Deleted model `"@ + name + "`."@
                },
            },
        },
{
    let name = match required_option(options, "model") {
        Ok(name) => name,
        Err(message) => {
            return Deletion::Reply(message);
        },
    };
    match store.delete(namespace, name.as_str()) {
        None => Deletion::Reply(no_model(name.as_str())),
        Some(model) => {
            let mut reply = "Deleted model `".to_owned();
            reply.append(name.as_str());
            reply.append("`.");
            Deletion::Remove { path: model.path, reply }
        },
    }
}

/// Which names an autocomplete offers.
#[derive(Clone, Copy, PartialEq, Eq, Structural, Debug)]
pub enum NameSource {
    Recipes,
    Datasets,
    Models,
}

/// The names to offer for an option of a command.
pub open spec fn name_source(command: Seq<char>, option: Seq<char>) -> NameSource {
    if (command == "train"@ && option == "recipe"@) || (command == "recipe"@ && option
        == "name"@) {
        NameSource::Recipes
    } else if command == "dataset"@ && option == "name"@ {
        NameSource::Datasets
    } else {
        NameSource::Models
    }
}

/// Finds which names to offer for an option of a command.
pub fn autocomplete_source(command: &str, option: &str) -> (r: NameSource)
    ensures
        r == name_source(command@, option@),
{
    if (same_text(command, "train") && same_text(option, "recipe")) || (same_text(command, "recipe")
        && same_text(option, "name")) {
        NameSource::Recipes
    } else if same_text(command, "dataset") && same_text(option, "name") {
        NameSource::Datasets
    } else {
        NameSource::Models
    }
}

/// A dataset selector never offers recipes, a recipe selector never offers
/// datasets, and a model selector offers neither: of all options of the command
/// set that complete what is typed, those of `/dataset` are for datasets, those
/// of `/recipe` and the option `recipe` are for recipes, and those named `model`
/// are for models.
pub proof fn law_selectors_offer_their_own(i: int, j: int, k: int)
    requires
        0 <= i < command_set().len(),
        0 <= j < command_set()[i].options.len(),
    ensures
        ({
            let command = command_set()[i];
            let option = command.options[j];
            &&& option.autocomplete ==> name_source(command.name, option.name) == (if option.name
                == "recipe"@ {
                NameSource::Recipes
            } else {
                NameSource::Models
            }) && (option.name == "recipe"@ || option.name == "model"@)
            &&& 0 <= k < option.sub_options.len() && option.sub_options[k].autocomplete
                ==> name_source(command.name, option.sub_options[k].name) == (if command.name
                == "dataset"@ {
                NameSource::Datasets
            } else {
                NameSource::Recipes
            })
        }),
{
    reveal_strlit("dataset");
    reveal_strlit("recipe");
    reveal_strlit("train");
    reveal_strlit("query");
    reveal_strlit("show");
    reveal_strlit("delete");
    reveal_strlit("name");
    reveal_strlit("model");
    assert("dataset"@.len() == 7 && "recipe"@.len() == 6 && "delete"@.len() == 6);
    assert("train"@.len() == 5 && "query"@.len() == 5 && "show"@.len() == 4);
    assert("name"@.len() == 4 && "model"@.len() == 5);
    assert("recipe"@[0] == 'r' && "delete"@[0] == 'd' && "train"@[0] == 't');
    assert("name"@[0] == 'n');
}

/// Recipes are offered for the option `recipe` of `/train` and the option `name` of
/// `/recipe` alone, datasets for the option `name` of `/dataset` alone, and models
/// for every other option of every command.
pub proof fn law_name_sources(command: Seq<char>, option: Seq<char>)
    ensures
        option != "recipe"@ && option != "name"@ ==> name_source(command, option)
            == NameSource::Models,
        option == "recipe"@ ==> (name_source(command, option) == NameSource::Recipes <==> command
            == "train"@),
        option == "name"@ ==> (name_source(command, option) == NameSource::Recipes <==> command
            == "recipe"@),
        name_source(command, option) == NameSource::Datasets <==> command == "dataset"@ && option
            == "name"@,
{
    reveal_strlit("recipe");
    reveal_strlit("name");
    reveal_strlit("dataset");
    reveal_strlit("train");
    assert("recipe"@.len() == 6 && "name"@.len() == 4);
    assert("dataset"@.len() == 7 && "train"@.len() == 5);
}

/// The file names of some paths, in their order; a path without a readable file
/// name has none.
pub open spec fn names_of_paths(paths: Seq<Option<Seq<char>>>) -> Seq<Seq<char>>
    decreases paths.len(),
{
    if paths.len() == 0 {
        seq![]
    } else {
        let before = names_of_paths(paths.drop_last());
        match paths.last() {
            Some(path) => match path_file_name(path) {
                Some(name) => before.push(name),
                None => before,
            },
            None => before,
        }
    }
}

/// The names that there are to offer: those of the stored recipes, of the stored
/// datasets or of the models of the namespace, where `recipes` and `datasets`
/// are the file names found in the directories of the recipes and the datasets.
pub open spec fn names_to_offer(
    store: StoreView,
    namespace: u64,
    source: NameSource,
    recipes: Seq<Option<Seq<char>>>,
    datasets: Seq<Option<Seq<char>>>,
) -> Seq<Seq<char>> {
    match source {
        NameSource::Recipes => names_of_paths(
            paths_in(store.capacitorfiles_dir(namespace), recipes),
        ),
        NameSource::Datasets => names_of_paths(paths_in(store.datasets_dir(namespace), datasets)),
        NameSource::Models => store.models(namespace).map_values(|m: ModelView| m.name),
    }
}

fn file_names(paths: &[Option<String>]) -> (r: Vec<String>)
    ensures
        texts(r@) == names_of_paths(entry_names(paths@)),
{
    let ghost all = entry_names(paths@);
    let mut r: Vec<String> = Vec::new();
    assert(all.take(0) == Seq::<Option<Seq<char>>>::empty());
    assert(texts(r@) == Seq::<Seq<char>>::empty());
    for i in 0..paths.len()
        invariant
            all == entry_names(paths@),
            texts(r@) == names_of_paths(all.take(i as int)),
    {
        let ghost before = r@;
        assert(all.take(i + 1).drop_last() == all.take(i as int));
        assert(all.take(i + 1).last() == all[i as int]);
        match &paths[i] {
            Some(path) => {
                assert(all[i as int] == Some(path@));
                match file_name(path.as_str()) {
                    Some(name) => {
                        r.push(name);
                        assert(texts(r@) == texts(before).push(name@));
                    },
                    None => {},
                }
            },
            None => {},
        }
    }
    assert(all.take(paths@.len() as int) == all);
    r
}

/// Collects the names that there are to offer.
pub fn offered_names(
    store: &Store,
    namespace: u64,
    source: NameSource,
    recipes: &Vec<Option<String>>,
    datasets: &Vec<Option<String>>,
) -> (r: Vec<String>)
    ensures
        texts(r@) == names_to_offer(
            store@,
            namespace,
            source,
            entry_names(recipes@),
            entry_names(datasets@),
        ),
{
    match source {
        NameSource::Recipes => file_names(
            store.list_capacitorfiles(namespace, recipes).as_slice(),
        ),
        NameSource::Datasets => file_names(store.list_datasets(namespace, datasets).as_slice()),
        NameSource::Models => {
            let models = store.list(namespace);
            let ghost all = store@.models(namespace).map_values(|m: ModelView| m.name);
            let mut r: Vec<String> = Vec::new();
            assert(texts(r@) == all.take(0));
            for i in 0..models.len()
                invariant
                    model_views(models@) == store@.models(namespace),
                    all == store@.models(namespace).map_values(|m: ModelView| m.name),
                    texts(r@) == all.take(i as int),
            {
                let ghost before = r@;
                assert(model_views(models@)[i as int] == models@[i as int]@);
                r.push(models[i].name.clone());
                assert(texts(r@) == texts(before).push(all[i as int]));
                assert(all.take(i + 1) == all.take(i as int).push(all[i as int]));
            }
            assert(model_views(models@).len() == models@.len());
            assert(all.take(models@.len() as int) == all);
            r
        },
    }
}

/// A stored file is offered under its own name, as the names in a directory are
/// plain components.
pub proof fn law_stored_names_are_offered(dir: Seq<char>, names: Seq<Option<Seq<char>>>)
    requires
        forall|i: int|
            0 <= i < names.len() && (#[trigger] names[i]) is Some ==> is_component(names[i]->0),
    ensures
        forall|name: Seq<char>|
            names.contains(Some(name)) <==> #[trigger] names_of_paths(
                paths_in(dir, names),
            ).contains(name),
    decreases names.len(),
{
    if names.len() > 0 {
        let rest = names.drop_last();
        assert forall|i: int| 0 <= i < rest.len() && (#[trigger] rest[i]) is Some implies is_component(
            rest[i]->0,
        ) by {
            assert(rest[i] == names[i]);
        }
        law_stored_names_are_offered(dir, rest);
        assert(paths_in(dir, names).drop_last() == paths_in(dir, rest));
        let before = names_of_paths(paths_in(dir, rest));
        let all = names_of_paths(paths_in(dir, names));
        if names.last() is Some {
            assert(is_component(names[names.len() - 1]->0));
            law_join_file_name(dir, names.last()->0);
            assert(all == before.push(names.last()->0));
        }
        assert forall|name: Seq<char>| names.contains(Some(name)) <==> #[trigger] all.contains(
            name,
        ) by {
            assert(rest.contains(Some(name)) <==> before.contains(name));
            if names.contains(Some(name)) {
                let i = choose|i: int| 0 <= i < names.len() && names[i] == Some(name);
                if i < rest.len() {
                    assert(rest[i] == Some(name));
                    let k = choose|k: int| 0 <= k < before.len() && before[k] == name;
                    assert(all[k] == name);
                } else {
                    assert(all[all.len() - 1] == name);
                }
            }
            if all.contains(name) {
                let k = choose|k: int| 0 <= k < all.len() && all[k] == name;
                if k < before.len() {
                    assert(before[k] == name);
                    let i = choose|i: int| 0 <= i < rest.len() && rest[i] == Some(name);
                    assert(names[i] == Some(name));
                } else {
                    assert(names[names.len() - 1] == Some(name));
                }
            }
        }
    }
}

/// The most choices that an autocomplete offers.
pub const MAX_CHOICES: usize = 25;

/// The names in whose lower-case form the query occurs, in their order.
pub open spec fn matching(
    names: Seq<Seq<char>>,
    lowered: Seq<Seq<char>>,
    query: Seq<char>,
) -> Seq<Seq<char>>
    decreases names.len(),
{
    if names.len() == 0 {
        seq![]
    } else {
        let before = matching(names.drop_last(), lowered.drop_last(), query);
        if contains(lowered.last(), query) {
            before.push(names.last())
        } else {
            before
        }
    }
}

/// The first of some names, as many as an autocomplete offers.
pub open spec fn first_choices(names: Seq<Seq<char>>) -> Seq<Seq<char>> {
    if names.len() <= MAX_CHOICES {
        names
    } else {
        names.take(MAX_CHOICES as int)
    }
}

/// Picks the choices of an autocomplete, given the names and the query in
/// lower case.
pub fn choices(names: &[String], lowered: &[String], query: &str) -> (r: Vec<String>)
    requires
        names@.len() == lowered@.len(),
    ensures
        texts(r@) == first_choices(matching(texts(names@), texts(lowered@), query@)),
{
    let needle = chars_of(query);
    let ghost all = texts(names@);
    let ghost low = texts(lowered@);
    let mut r: Vec<String> = Vec::new();
    assert(all.take(0) == Seq::<Seq<char>>::empty());
    assert(texts(r@) == Seq::<Seq<char>>::empty());
    for i in 0..names.len()
        invariant
            names@.len() == lowered@.len(),
            all == texts(names@),
            low == texts(lowered@),
            needle@ == query@,
            texts(r@) == first_choices(matching(all.take(i as int), low.take(i as int), query@)),
    {
        let ghost before = r@;
        let ghost found = matching(all.take(i as int), low.take(i as int), query@);
        assert(all.take(i + 1).drop_last() == all.take(i as int));
        assert(low.take(i + 1).drop_last() == low.take(i as int));
        assert(all.take(i + 1).last() == names@[i as int]@);
        assert(low.take(i + 1).last() == lowered@[i as int]@);
        assert(texts(r@).len() == r@.len());
        let chars = chars_of(lowered[i].as_str());
        if has_occurrence(chars.as_slice(), needle.as_slice()) {
            if r.len() < MAX_CHOICES {
                r.push(names[i].clone());
                assert(texts(r@) == texts(before).push(names@[i as int]@));
            } else {
                assert(first_choices(found.push(names@[i as int]@)) == first_choices(found));
            }
        }
    }
    assert(all.take(names@.len() as int) == all);
    assert(low.take(names@.len() as int) == low);
    r
}

/// The choices of an autocomplete: the first names that hold what was typed,
/// upper and lower case taken as the same.
pub fn autocomplete(names: &[String], typed: &str) -> (r: Vec<String>)
    ensures
        texts(r@) == first_choices(
            matching(
                texts(names@),
                texts(names@).map_values(|n: Seq<char>| lowercase(n)),
                lowercase(typed@),
            ),
        ),
{
    let query = typed.to_lowercase();
    let ghost all = texts(names@).map_values(|n: Seq<char>| lowercase(n));
    let mut lowered: Vec<String> = Vec::new();
    assert(texts(lowered@) == all.take(0));
    for i in 0..names.len()
        invariant
            all == texts(names@).map_values(|n: Seq<char>| lowercase(n)),
            texts(lowered@) == all.take(i as int),
    {
        let ghost before = lowered@;
        let low = names[i].as_str().to_lowercase();
        lowered.push(low);
        assert(texts(lowered@) == texts(before).push(low@));
        assert(all.take(i + 1) == all.take(i as int).push(all[i as int]));
    }
    assert(all.take(names@.len() as int) == all);
    assert(texts(lowered@).len() == lowered@.len());
    choices(names, lowered.as_slice(), query.as_str())
}

/// An autocomplete offers no more than the allowed number of choices, and each
/// of them is one of the names, and one that holds the query.
pub proof fn law_choices_match(
    names: Seq<Seq<char>>,
    lowered: Seq<Seq<char>>,
    query: Seq<char>,
    k: int,
)
    requires
        names.len() == lowered.len(),
        0 <= k < first_choices(matching(names, lowered, query)).len(),
    ensures
        first_choices(matching(names, lowered, query)).len() <= MAX_CHOICES,
        exists|i: int|
            0 <= i < names.len() && #[trigger] names[i] == first_choices(
                matching(names, lowered, query),
            )[k] && contains(lowered[i], query),
{
    lemma_matching(names, lowered, query, k);
}

proof fn lemma_matching(
    names: Seq<Seq<char>>,
    lowered: Seq<Seq<char>>,
    query: Seq<char>,
    k: int,
)
    requires
        names.len() == lowered.len(),
        0 <= k < matching(names, lowered, query).len(),
    ensures
        exists|i: int|
            0 <= i < names.len() && #[trigger] names[i] == matching(names, lowered, query)[k]
                && contains(lowered[i], query),
    decreases names.len(),
{
    if names.len() > 0 {
        let n = names.drop_last();
        let l = lowered.drop_last();
        let before = matching(n, l, query);
        if k < before.len() {
            lemma_matching(n, l, query, k);
            let i = choose|i: int|
                0 <= i < n.len() && #[trigger] n[i] == before[k] && contains(l[i], query);
            assert(names[i] == n[i] && lowered[i] == l[i]);
        } else {
            assert(names[names.len() - 1] == matching(names, lowered, query)[k]);
        }
    }
}

/// A name that holds the query is offered, unless there are more such names
/// than the allowed number of choices.
pub proof fn law_matches_are_offered(
    names: Seq<Seq<char>>,
    lowered: Seq<Seq<char>>,
    query: Seq<char>,
    i: int,
)
    requires
        names.len() == lowered.len(),
        0 <= i < names.len(),
        contains(lowered[i], query),
        matching(names, lowered, query).len() <= MAX_CHOICES,
    ensures
        first_choices(matching(names, lowered, query)).contains(names[i]),
    decreases names.len(),
{
    let n = names.drop_last();
    let l = lowered.drop_last();
    let before = matching(n, l, query);
    let found = matching(names, lowered, query);
    if i < n.len() {
        assert(n[i] == names[i] && l[i] == lowered[i]);
        law_matches_are_offered(n, l, query, i);
        let k = choose|k: int| 0 <= k < before.len() && before[k] == names[i];
        assert(found[k] == names[i]);
    } else {
        assert(found.last() == names[i]);
    }
}

} // verus!
