//! What holds of the commands, their options and their answers, whatever they
//! are.

use vstd::prelude::*;

use crate::commands::command_set;
use crate::commands::handler;
use crate::commands::ids_of;
use crate::commands::InstallTarget;
use crate::commands::OptionKind;
use crate::commands::Registered;
use crate::commands::UsageContext;
use crate::datasets::is_dataset_action;
use crate::datasets::DatasetAction;
use crate::files::file_lines;
use crate::files::given_name;
use crate::files::listed;
use crate::files::missing_option_text;
use crate::files::name_of_upload;
use crate::files::shown_name;
use crate::files::FileView;
use crate::files::StoredFile;
use crate::models::details_text;
use crate::models::first_choices;
use crate::models::is_query_outcome;
use crate::models::list_text;
use crate::models::matching;
use crate::models::names_of_paths;
use crate::models::names_to_offer;
use crate::models::no_model_text;
use crate::models::store_after_query;
use crate::models::NameSource;
use crate::models::QueryOutcome;
use crate::numbers::decimal;
use crate::options::option_named;
use crate::options::option_number;
use crate::options::option_text;
use crate::options::CommandOption;
use crate::options::OptionValue;
use crate::order::is_name_sorting;
use crate::order::law_name_sorted;
use crate::order::name_sorted;
use crate::paths::is_component;
use crate::paths::law_join_file_name;
use crate::paths::path_file_name;
use crate::paths::path_join;
use crate::recipes::is_recipe_action;
use crate::recipes::RecipeAction;
use crate::store::find_named;
use crate::store::index_named;
use crate::store::lemma_index_named_bounds;
use crate::store::ModelView;
use crate::store::StoreView;
use crate::text::contains;
use crate::text::join;
use crate::util::size_text;

verus! {

/// The kinds of the options of the command set. Subcommands are the options of
/// `/dataset` and `/recipe`, and no others. Whatever else a command reads is a
/// text, and only an option named `file` takes an attachment.
pub proof fn law_option_kinds(i: int, j: int, k: int)
    requires
        0 <= i < command_set().len(),
        0 <= j < command_set()[i].options.len(),
    ensures
        ({
            let command = command_set()[i];
            let option = command.options[j];
            &&& option.kind == OptionKind::SubCommand <==> command.name == "dataset"@
                || command.name == "recipe"@
            &&& option.kind != OptionKind::SubCommand ==> option.kind == OptionKind::Text
                && option.sub_options.len() == 0 && (option.name == "model"@ || option.name
                == "recipe"@ || option.name == "split"@ || option.name == "prompt"@)
            &&& 0 <= k < option.sub_options.len() ==> if option.sub_options[k].name == "file"@ {
                option.sub_options[k].kind == OptionKind::Attachment
            } else {
                option.sub_options[k].kind == OptionKind::Text && option.sub_options[k].name
                    == "name"@
            }
        }),
{
    lemma_names_differ();
}

proof fn lemma_names_differ()
    ensures
        "dataset"@.len() == 7,
        "recipe"@.len() == 6,
        "delete"@.len() == 6,
        "upload"@.len() == 6,
        "create"@.len() == 6,
        "prompt"@.len() == 6,
        "train"@.len() == 5,
        "query"@.len() == 5,
        "about"@.len() == 5,
        "model"@.len() == 5,
        "split"@.len() == 5,
        "list"@.len() == 4,
        "show"@.len() == 4,
        "edit"@.len() == 4,
        "info"@.len() == 4,
        "file"@.len() == 4,
        "name"@.len() == 4,
        "recipe"@[0] == 'r',
        "delete"@[0] == 'd',
        "upload"@[0] == 'u',
        "create"@[0] == 'c',
        "prompt"@[0] == 'p',
        "train"@[0] == 't',
        "query"@[0] == 'q',
        "about"@[0] == 'a',
        "model"@[0] == 'm',
        "split"@[0] == 's',
        "list"@[0] == 'l',
        "show"@[0] == 's',
        "edit"@[0] == 'e',
        "info"@[0] == 'i',
        "file"@[0] == 'f',
        "name"@[0] == 'n',
{
    reveal_strlit("dataset");
    reveal_strlit("recipe");
    reveal_strlit("delete");
    reveal_strlit("upload");
    reveal_strlit("create");
    reveal_strlit("prompt");
    reveal_strlit("train");
    reveal_strlit("query");
    reveal_strlit("about");
    reveal_strlit("model");
    reveal_strlit("split");
    reveal_strlit("list");
    reveal_strlit("show");
    reveal_strlit("edit");
    reveal_strlit("info");
    reveal_strlit("file");
    reveal_strlit("name");
}

/// What has to be given, and what is completed while it is typed. A prompt, a
/// model to show or delete, a file to upload, and the name of something that
/// exists have to be given; a name to be given to something new need not. The
/// names of things that exist are completed.
pub proof fn law_option_flags(i: int, j: int, k: int)
    requires
        0 <= i < command_set().len(),
        0 <= j < command_set()[i].options.len(),
    ensures
        ({
            let command = command_set()[i];
            let option = command.options[j];
            let at = command.name;
            let picks = option.name == "delete"@ || option.name == "edit"@ || option.name
                == "info"@;
            &&& option.required <==> option.name == "prompt"@ || (option.name == "model"@ && (at
                == "show"@ || at == "delete"@))
            &&& option.autocomplete <==> (at == "train"@ && option.name == "recipe"@) || (
            option.name == "model"@ && at != "train"@)
            &&& 0 <= k < option.sub_options.len() ==> {
                let sub_option = option.sub_options[k];
                &&& sub_option.required <==> sub_option.name == "file"@ || picks
                &&& sub_option.autocomplete <==> picks
            }
            &&& option.sub_options.len() == if option.name == "upload"@ {
                2nat
            } else if picks || option.name == "create"@ {
                1
            } else {
                0
            }
            &&& option.name == "upload"@ ==> option.sub_options[0].name == "file"@
                && option.sub_options[1].name == "name"@
            &&& picks || option.name == "create"@ ==> option.sub_options[0].name == "name"@
        }),
{
    lemma_names_differ();
}

/// The commands, and the options that each has, in their order. Every command can
/// be used everywhere, and is installed for guilds and for users.
pub proof fn law_command_names(i: int, context: UsageContext, target: InstallTarget)
    requires
        0 <= i < command_set().len(),
    ensures
        command_set().map_values(|c: crate::commands::CommandView| c.name) == seq![
            "dataset"@,
            "recipe"@,
            "train"@,
            "query"@,
            "list"@,
            "show"@,
            "delete"@,
            "about"@,
        ],
        ({
            let command = command_set()[i];
            let names = command.options.map_values(|o: crate::commands::OptionView| o.name);
            &&& command.contexts.contains(context)
            &&& command.contexts.len() == 3
            &&& command.targets.contains(target)
            &&& command.targets.len() == 2
            &&& names == (if command.name == "dataset"@ {
                seq!["upload"@, "list"@, "delete"@]
            } else if command.name == "recipe"@ {
                seq!["create"@, "edit"@, "upload"@, "list"@, "info"@, "delete"@]
            } else if command.name == "train"@ {
                seq!["model"@, "recipe"@, "split"@]
            } else if command.name == "query"@ {
                seq!["prompt"@, "model"@]
            } else if command.name == "show"@ || command.name == "delete"@ {
                seq!["model"@]
            } else {
                seq![]
            })
        }),
{
    lemma_names_differ();
    let command = command_set()[i];
    let names = command.options.map_values(|o: crate::commands::OptionView| o.name);
    assert(command.contexts[0] == UsageContext::Guild);
    assert(command.contexts[1] == UsageContext::BotDm);
    assert(command.contexts[2] == UsageContext::PrivateChannel);
    assert(command.targets[0] == InstallTarget::Guild);
    assert(command.targets[1] == InstallTarget::User);
    if i == 0 {
        assert(names == seq!["upload"@, "list"@, "delete"@]);
    } else if i == 1 {
        assert(names == seq!["create"@, "edit"@, "upload"@, "list"@, "info"@, "delete"@]);
    } else if i == 2 {
        assert(names == seq!["model"@, "recipe"@, "split"@]);
    } else if i == 3 {
        assert(names == seq!["prompt"@, "model"@]);
    } else if i == 5 || i == 6 {
        assert(names == seq!["model"@]);
    } else {
        assert(names == Seq::<Seq<char>>::empty());
    }
}

/// A command is handled exactly where it is registered.
pub proof fn law_only_commands_are_handled(name: Seq<char>)
    ensures
        handler(name) is Some <==> exists|i: int|
            0 <= i < command_set().len() && (#[trigger] command_set()[i]).name == name,
{
    let all = command_set();
    assert(all[0].name == "dataset"@ && all[1].name == "recipe"@ && all[2].name == "train"@);
    assert(all[3].name == "query"@ && all[4].name == "list"@ && all[5].name == "show"@);
    assert(all[6].name == "delete"@ && all[7].name == "about"@);
}

/// The commands to be deleted go by each command on its own.
pub proof fn law_own_commands_concat(a: Seq<Registered>, b: Seq<Registered>, application: u64)
    ensures
        ids_of(a + b, application) == ids_of(a, application) + ids_of(b, application),
        forall|c: Registered| #[trigger]
            ids_of(seq![c], application) == if c.application == application {
                seq![c.id]
            } else {
                seq![]
            },
    decreases b.len(),
{
    assert forall|c: Registered| #[trigger]
        ids_of(seq![c], application) == if c.application == application {
            seq![c.id]
        } else {
            seq![]
        } by {
        assert(seq![c].drop_last() == Seq::<Registered>::empty());
        assert(ids_of(Seq::<Registered>::empty(), application) == Seq::<u64>::empty());
        assert(seq![c].last() == c);
    }
    if b.len() > 0 {
        law_own_commands_concat(a, b.drop_last(), application);
        assert((a + b).drop_last() == a + b.drop_last());
        assert((a + b).last() == b.last());
    } else {
        assert(a + b == a);
        assert(ids_of(a, application) + Seq::<u64>::empty() == ids_of(a, application));
    }
}

/// A `/dataset` command does what its first option says, and hands on the options
/// of that subcommand; anything else is answered.
pub proof fn law_dataset_actions(
    sub: CommandOption,
    rest: Seq<CommandOption>,
    action: DatasetAction,
)
    requires
        is_dataset_action(seq![sub] + rest, action),
    ensures
        sub.value is SubCommand ==> {
            &&& action is Upload <==> sub.name@ == "upload"@
            &&& action is List <==> sub.name@ == "list"@
            &&& action is Delete <==> sub.name@ == "delete"@
            &&& action is Upload ==> *action->Upload_0 == sub.value->SubCommand_0
            &&& action is Delete ==> *action->Delete_0 == sub.value->SubCommand_0
            &&& action is Reply ==> action->Reply_0@ == "Unknown dataset subcommand `"@ + sub.name@
                + "`."@
        },
        !(sub.value is SubCommand) ==> action is Reply && action->Reply_0@
            == "Usage: `/dataset upload|list|delete`."@,
{
    lemma_names_differ();
    assert((seq![sub] + rest)[0] == sub);
}

/// A `/recipe` command does what its first option says, and hands on the options
/// of that subcommand; anything else is answered.
pub proof fn law_recipe_actions(sub: CommandOption, rest: Seq<CommandOption>, action: RecipeAction)
    requires
        is_recipe_action(seq![sub] + rest, action),
    ensures
        sub.value is SubCommand ==> {
            let given = sub.value->SubCommand_0;
            &&& action is Create <==> sub.name@ == "create"@
            &&& action is Edit <==> sub.name@ == "edit"@
            &&& action is Upload <==> sub.name@ == "upload"@
            &&& action is List <==> sub.name@ == "list"@
            &&& action is Info <==> sub.name@ == "info"@
            &&& action is Delete <==> sub.name@ == "delete"@
            &&& action is Create ==> *action->Create_0 == given
            &&& action is Edit ==> *action->Edit_0 == given
            &&& action is Upload ==> *action->Upload_0 == given
            &&& action is Info ==> *action->Info_0 == given
            &&& action is Delete ==> *action->Delete_0 == given
            &&& action is Reply ==> action->Reply_0@ == "Unknown recipe subcommand `"@ + sub.name@
                + "`."@
        },
        !(sub.value is SubCommand) ==> action is Reply && action->Reply_0@
            == "Usage: `/recipe upload|list|info`."@,
{
    lemma_names_differ();
    assert((seq![sub] + rest)[0] == sub);
}

/// A command group without any option is answered with its usage.
pub proof fn law_groups_need_a_subcommand(dataset: DatasetAction, recipe: RecipeAction)
    requires
        is_dataset_action(seq![], dataset),
        is_recipe_action(seq![], recipe),
    ensures
        dataset is Reply && dataset->Reply_0@ == "Usage: `/dataset upload|list|delete`."@,
        recipe is Reply && recipe->Reply_0@ == "Usage: `/recipe upload|list|info`."@,
{
}

/// An option is read exactly where it is the first of its name and of the kind
/// that is asked for.
pub proof fn law_options(before: Seq<CommandOption>, option: CommandOption, after: Seq<CommandOption>)
    requires
        forall|i: int| 0 <= i < before.len() ==> (#[trigger] before[i]).name@ != option.name@,
    ensures
        option_text(before, option.name@) is None,
        option_number(before, option.name@) is None,
        option_text(before + seq![option] + after, option.name@) == match option.value {
            OptionValue::Text(text) => Some(text@),
            _ => None,
        },
        option_number(before + seq![option] + after, option.name@) == match option.value {
            OptionValue::Integer(n) => Some(n),
            _ => None,
        },
{
    crate::options::law_first_option_counts(before, option, after);
    lemma_option_absent(before, option.name@);
}

proof fn lemma_option_absent(options: Seq<CommandOption>, name: Seq<char>)
    requires
        forall|i: int| 0 <= i < options.len() ==> (#[trigger] options[i]).name@ != name,
    ensures
        option_named(options, name) is None,
    decreases options.len(),
{
    if options.len() > 0 {
        let rest = options.drop_first();
        assert(options[0].name@ != name);
        assert forall|i: int| 0 <= i < rest.len() implies (#[trigger] rest[i]).name@ != name by {
            assert(rest[i] == options[i + 1]);
        }
        lemma_option_absent(rest, name);
    }
}

/// An upload is saved under the name that is given, and under the file's own where
/// none is given or an empty one.
pub proof fn law_upload_name(options: Seq<CommandOption>, filename: Seq<char>)
    ensures
        given_name(options) is Some ==> given_name(options) == option_text(options, "name"@)
            && given_name(options)->0.len() > 0,
        given_name(options) is None ==> option_text(options, "name"@) is None || option_text(
            options,
            "name"@,
        )->0.len() == 0,
        option_text(options, "name"@) is None ==> name_of_upload(options, filename) == filename,
        option_text(options, "name"@) == Some(Seq::<char>::empty()) ==> name_of_upload(
            options,
            filename,
        ) == filename,
        option_text(options, "name"@) is Some && option_text(options, "name"@)->0.len() > 0
            ==> name_of_upload(options, filename) == option_text(options, "name"@)->0,
{
}

/// A file is shown under its own name, and something that has none under the
/// fallback.
pub proof fn law_shown_name(dir: Seq<char>, name: Seq<char>, fallback: Seq<char>)
    ensures
        is_component(name) ==> shown_name(path_join(dir, name), fallback) == name,
        path_file_name(name) is None ==> shown_name(name, fallback) == fallback,
        missing_option_text(name) == "Missing required `"@ + name + "` option."@,
{
    if is_component(name) {
        law_join_file_name(dir, name);
    }
}

/// A listing of files has exactly one line for each file, with its name and size,
/// in the order of the names; files of one name keep their order.
pub proof fn law_file_lines(files: Seq<StoredFile>, fallback: Seq<char>)
    ensures
        exists|sorted: Seq<FileView>, views: Seq<FileView>|
            {
                &&& #[trigger] is_name_sorting(sorted, views)
                &&& views.len() == files.len()
                &&& forall|i: int|
                    0 <= i < files.len() ==> (#[trigger] views[i]).size == files[i].size
                        && views[i].name == (if files[i].name is Some {
                        files[i].name->0@
                    } else {
                        fallback
                    })
                &&& file_lines(files, fallback) == join(
                    Seq::new(
                        files.len(),
                        |i: int|
                            "- `"@ + sorted[i].name + "` ("@ + size_text(sorted[i].size as nat)
                                + ")"@,
                    ),
                    "\n"@,
                )
            },
{
    let views = files.map_values(|f: StoredFile| listed(f, fallback));
    let sorted = name_sorted(views);
    law_name_sorted(views);
    let lines = Seq::new(
        files.len(),
        |i: int| "- `"@ + sorted[i].name + "` ("@ + size_text(sorted[i].size as nat) + ")"@,
    );
    assert(sorted.map_values(|e: FileView| crate::files::file_line(e)) == lines);
    assert(is_name_sorting(sorted, views));
}

/// A listing of models has exactly one line for each model, with its name, owner
/// and number of datasets, in the order of the names.
pub proof fn law_list_text(models: Seq<ModelView>)
    ensures
        models.len() == 0 ==> list_text(models)
            == "No models in this server yet. Use `/dataset upload` and `/train` one."@,
        models.len() > 0 ==> exists|sorted: Seq<ModelView>|
            {
                &&& #[trigger] is_name_sorting(sorted, models)
                &&& list_text(models) == "Models in this server:\n"@ + join(
                    Seq::new(
                        models.len(),
                        |i: int|
                            "- `"@ + sorted[i].name + "` (owner <@"@ + decimal(
                                sorted[i].owner as nat,
                            ) + ">, "@ + decimal(sorted[i].datasets.len()) + " datasets)"@,
                    ),
                    "\n"@,
                )
            },
{
    let sorted = name_sorted(models);
    law_name_sorted(models);
    let lines = Seq::new(
        models.len(),
        |i: int|
            "- `"@ + sorted[i].name + "` (owner <@"@ + decimal(sorted[i].owner as nat) + ">, "@
                + decimal(sorted[i].datasets.len()) + " datasets)"@,
    );
    assert(sorted.map_values(|m: ModelView| crate::models::model_line(m)) == lines);
    assert(is_name_sorting(sorted, models));
}

/// What is shown of a model is its name, its owner, all its datasets and its
/// recipe.
pub proof fn law_details_text(model: ModelView, name: Seq<char>)
    ensures
        details_text(model) == "**"@ + model.name + "**\n- owner: <@"@ + decimal(
            model.owner as nat,
        ) + ">\n- datasets: "@ + join(model.datasets, ", "@) + "\n\n```\n"@ + model.recipe
            + "\n```"@,
        no_model_text(name) == "No model named `"@ + name + "` in this server."@,
{
}

/// The model that a `/query` asks for: the option's, else the one used last.
pub open spec fn asked_for(
    store: StoreView,
    namespace: u64,
    options: Seq<CommandOption>,
) -> Option<Seq<char>> {
    if option_text(options, "model"@) is Some {
        option_text(options, "model"@)
    } else {
        store.last_used(namespace)
    }
}

/// A `/query` runs exactly where there is a prompt, a model is named or was used
/// last, and the namespace has a model of that name. What is run is the very
/// prompt that was given, with the first model of that name, whichever way the
/// model was named.
pub proof fn law_query_runs_the_prompt(
    store: StoreView,
    namespace: u64,
    options: Seq<CommandOption>,
    outcome: QueryOutcome,
)
    requires
        is_query_outcome(store, namespace, options, outcome),
    ensures
        outcome is Run <==> option_text(options, "prompt"@) is Some && asked_for(
            store,
            namespace,
            options,
        ) is Some && exists|i: int|
            0 <= i < store.models(namespace).len() && (#[trigger] store.models(
                namespace,
            )[i]).name == asked_for(store, namespace, options)->0,
        outcome is Run ==> Some(outcome->prompt@) == option_text(options, "prompt"@),
        outcome is Run ==> Some(outcome->model@.name) == asked_for(store, namespace, options),
        outcome is Run ==> exists|i: int|
            0 <= i < store.models(namespace).len() && #[trigger] store.models(namespace)[i]
                == outcome->model@ && forall|j: int|
                0 <= j < i ==> (#[trigger] store.models(namespace)[j]).name
                    != outcome->model@.name,
{
    let models = store.models(namespace);
    if asked_for(store, namespace, options) is Some {
        let name = asked_for(store, namespace, options)->0;
        lemma_index_named_bounds(models, name);
        let i = index_named(models, name) as int;
        if outcome is Run {
            assert(models[i].name == name);
            assert(find_named(models, name) == Some(models[i]));
        }
    }
}

/// A `/query` that does not run says what is missing: the prompt, a model, or the
/// model of the name that was asked for.
pub proof fn law_query_says_what_is_missing(
    store: StoreView,
    namespace: u64,
    options: Seq<CommandOption>,
    outcome: QueryOutcome,
)
    requires
        is_query_outcome(store, namespace, options, outcome),
        outcome is Reply,
    ensures
        outcome->0@ == (if option_text(options, "prompt"@) is None {
            "Missing required `"@ + "prompt"@ + "` option."@
        } else if asked_for(store, namespace, options) is None {
            "No `model` given and no model has been used in this server yet. Run `/query model:<name> ...` (autocomplete available) or `/list`."@
        } else {
            "No model named `"@ + asked_for(store, namespace, options)->0
                + "` in this server. Use `/list`."@
        }),
{
}

/// A `/query` is remembered exactly where it has a prompt and names a model.
pub proof fn law_query_memory(store: StoreView, namespace: u64, options: Seq<CommandOption>)
    ensures
        option_text(options, "prompt"@) is Some && option_text(options, "model"@) is Some
            ==> store_after_query(store, namespace, options).last_used(namespace) == option_text(
            options,
            "model"@,
        ),
        option_text(options, "prompt"@) is None || option_text(options, "model"@) is None
            ==> store_after_query(store, namespace, options) == store,
        store_after_query(store, namespace, options).root == store.root,
        store_after_query(store, namespace, options).registry.namespaces
            == store.registry.namespaces,
{
}

/// Which names match goes by each name on its own, in their order.
pub proof fn law_matching_concat(
    a: Seq<Seq<char>>,
    la: Seq<Seq<char>>,
    b: Seq<Seq<char>>,
    lb: Seq<Seq<char>>,
    query: Seq<char>,
)
    requires
        a.len() == la.len(),
        b.len() == lb.len(),
    ensures
        matching(a + b, la + lb, query) == matching(a, la, query) + matching(b, lb, query),
        forall|name: Seq<char>, low: Seq<char>| #[trigger]
            matching(seq![name], seq![low], query) == if contains(low, query) {
                seq![name]
            } else {
                seq![]
            },
    decreases b.len(),
{
    assert forall|name: Seq<char>, low: Seq<char>| #[trigger]
        matching(seq![name], seq![low], query) == if contains(low, query) {
            seq![name]
        } else {
            seq![]
        } by {
        assert(seq![name].drop_last() == Seq::<Seq<char>>::empty());
        assert(matching(seq![], seq![low].drop_last(), query) == Seq::<Seq<char>>::empty());
        assert(seq![name].last() == name && seq![low].last() == low);
    }
    if b.len() > 0 {
        law_matching_concat(a, la, b.drop_last(), lb.drop_last(), query);
        assert((a + b).drop_last() == a + b.drop_last());
        assert((la + lb).drop_last() == la + lb.drop_last());
        assert((a + b).last() == b.last() && (la + lb).last() == lb.last());
    } else {
        assert(a + b == a && la + lb == la);
        assert(matching(a, la, query) + Seq::<Seq<char>>::empty() == matching(a, la, query));
    }
}

/// Of the names that match, the first are offered, up to twenty-five.
pub proof fn law_first_choices(names: Seq<Seq<char>>)
    ensures
        first_choices(names).len() == if names.len() < 25 {
            names.len()
        } else {
            25
        },
        forall|i: int|
            0 <= i < first_choices(names).len() ==> #[trigger] first_choices(names)[i] == names[i],
{
}

/// The file names of some paths go by each path on its own, in their order.
pub proof fn law_names_of_paths(a: Seq<Option<Seq<char>>>, b: Seq<Option<Seq<char>>>)
    ensures
        names_of_paths(a + b) == names_of_paths(a) + names_of_paths(b),
        forall|path: Option<Seq<char>>| #[trigger]
            names_of_paths(seq![path]) == if path is Some && path_file_name(path->0) is Some {
                seq![path_file_name(path->0)->0]
            } else {
                seq![]
            },
    decreases b.len(),
{
    assert forall|path: Option<Seq<char>>| #[trigger]
        names_of_paths(seq![path]) == if path is Some && path_file_name(path->0) is Some {
            seq![path_file_name(path->0)->0]
        } else {
            seq![]
        } by {
        assert(seq![path].drop_last() == Seq::<Option<Seq<char>>>::empty());
        assert(names_of_paths(Seq::<Option<Seq<char>>>::empty()) == Seq::<Seq<char>>::empty());
        assert(seq![path].last() == path);
    }
    if b.len() > 0 {
        law_names_of_paths(a, b.drop_last());
        assert((a + b).drop_last() == a + b.drop_last());
        assert((a + b).last() == b.last());
    } else {
        assert(a + b == a);
        assert(names_of_paths(a) + Seq::<Seq<char>>::empty() == names_of_paths(a));
    }
}

/// What is offered for models are the names of all the namespace's models, what is
/// offered for datasets and recipes are the names of their files; and none depends
/// on the others.
pub proof fn law_names_to_offer(
    store: StoreView,
    namespace: u64,
    recipes: Seq<Option<Seq<char>>>,
    datasets: Seq<Option<Seq<char>>>,
    other: Seq<Option<Seq<char>>>,
    i: int,
)
    ensures
        names_to_offer(store, namespace, NameSource::Models, recipes, datasets).len()
            == store.models(namespace).len(),
        0 <= i < store.models(namespace).len() ==> names_to_offer(
            store,
            namespace,
            NameSource::Models,
            recipes,
            datasets,
        )[i] == store.models(namespace)[i].name,
        names_to_offer(store, namespace, NameSource::Recipes, recipes, datasets) == names_to_offer(
            store,
            namespace,
            NameSource::Recipes,
            recipes,
            other,
        ),
        names_to_offer(store, namespace, NameSource::Datasets, recipes, datasets)
            == names_to_offer(store, namespace, NameSource::Datasets, other, datasets),
        names_to_offer(store, namespace, NameSource::Recipes, recipes, datasets)
            == names_of_paths(
            crate::store::paths_in(store.capacitorfiles_dir(namespace), recipes),
        ),
        names_to_offer(store, namespace, NameSource::Datasets, recipes, datasets)
            == names_of_paths(crate::store::paths_in(store.datasets_dir(namespace), datasets)),
{
}

/// What the user is told of each command and of each of its options.
pub proof fn law_descriptions()
    ensures
        ({
            let all = command_set();
            let upload = all[0].options[0].sub_options;
            let recipe_upload = all[1].options[2].sub_options;
            &&& all[0].description == "Manage text datasets for this server"@
            &&& all[0].options[0].description
                == "Upload a text dataset (raw corpus) for training"@
            &&& upload[0].description == "The text file to use as training data"@
            &&& upload[1].description == "Custom name for the dataset (avoids collisions)"@
            &&& all[0].options[1].description == "List datasets in this server"@
            &&& all[0].options[2].description == "Delete a dataset from this server"@
            &&& all[0].options[2].sub_options[0].description == "Name of the dataset to delete"@
            &&& all[1].description == "Manage capacitorfile recipes for this server"@
            &&& all[1].options[0].description
                == "Create a capacitorfile recipe by replying with its content"@
            &&& all[1].options[0].sub_options[0].description
                == "Custom name for the capacitorfile (avoids collisions)"@
            &&& all[1].options[1].description
                == "Edit an existing capacitorfile recipe by replying"@
            &&& all[1].options[1].sub_options[0].description
                == "Name of the capacitorfile to edit"@
            &&& all[1].options[2].description == "Upload a capacitorfile recipe"@
            &&& recipe_upload[0].description == "The capacitorfile recipe to upload"@
            &&& recipe_upload[1].description
                == "Custom name for the capacitorfile (avoids collisions)"@
            &&& all[1].options[3].description == "List capacitorfile recipes in this server"@
            &&& all[1].options[4].description == "Show details of a capacitorfile recipe"@
            &&& all[1].options[4].sub_options[0].description == "Name of the capacitorfile"@
            &&& all[1].options[5].description
                == "Delete a capacitorfile recipe from this server"@
            &&& all[1].options[5].sub_options[0].description
                == "Name of the capacitorfile to delete"@
            &&& all[2].description == "Train a model from a corpus or a capacitorfile recipe"@
            &&& all[2].options[0].description
                == "Name for the new model (defaults to name set by recipe)"@
            &&& all[2].options[1].description
                == "Name of an uploaded capacitorfile recipe to train from"@
            &&& all[2].options[2].description == "Optional document delimiter"@
            &&& all[3].description
                == "Query a trained model for text generation (last-used model if omitted)"@
            &&& all[3].options[0].description == "The prompt to generate from"@
            &&& all[3].options[1].description == "Name of the model (defaults to last used)"@
            &&& all[4].description == "List models available in this server"@
            &&& all[5].description == "Show details of a model"@
            &&& all[5].options[0].description == "Name of the model"@
            &&& all[6].description == "Delete a model"@
            &&& all[6].options[0].description == "Name of the model"@
            &&& all[7].description == "About this bot"@
        }),
{
}

} // verus!
