use capacitor_bot::commands::about_text;
use capacitor_bot::commands::commands;
use capacitor_bot::commands::failure_text;
use capacitor_bot::commands::interaction_create;
use capacitor_bot::commands::sync_commands;
use capacitor_bot::commands::Handler;
use capacitor_bot::commands::InstallTarget;
use capacitor_bot::commands::OptionKind;
use capacitor_bot::commands::Registered;
use capacitor_bot::commands::UsageContext;
use capacitor_bot::datasets::dataset;
use capacitor_bot::datasets::dataset_deleted;
use capacitor_bot::datasets::dataset_list;
use capacitor_bot::datasets::dataset_upload;
use capacitor_bot::datasets::dataset_uploaded;
use capacitor_bot::datasets::DatasetAction;
use capacitor_bot::files::required_option;
use capacitor_bot::files::StoredFile;
use capacitor_bot::models::autocomplete;
use capacitor_bot::models::autocomplete_source;
use capacitor_bot::models::choices;
use capacitor_bot::models::delete;
use capacitor_bot::models::list;
use capacitor_bot::models::offered_names;
use capacitor_bot::models::query;
use capacitor_bot::models::query_response;
use capacitor_bot::models::show;
use capacitor_bot::models::Deletion;
use capacitor_bot::models::NameSource;
use capacitor_bot::models::QueryOutcome;
use capacitor_bot::options::namespace;
use capacitor_bot::options::CommandOption;
use capacitor_bot::options::OptionValue;
use capacitor_bot::recipe::RecipeFile;
use capacitor_bot::recipes::create_prompt;
use capacitor_bot::recipes::edit_prompt;
use capacitor_bot::recipes::no_recipe;
use capacitor_bot::recipes::recipe;
use capacitor_bot::recipes::recipe_create;
use capacitor_bot::recipes::recipe_deleted;
use capacitor_bot::recipes::recipe_edit;
use capacitor_bot::recipes::recipe_info;
use capacitor_bot::recipes::recipe_list;
use capacitor_bot::recipes::recipe_name;
use capacitor_bot::recipes::recipe_upload;
use capacitor_bot::recipes::recipe_uploaded;
use capacitor_bot::recipes::references;
use capacitor_bot::recipes::CreateStep;
use capacitor_bot::recipes::RecipeAction;
use capacitor_bot::store::ModelMeta;
use capacitor_bot::store::Registry;
use capacitor_bot::store::Store;

fn text(name: &str, value: &str) -> CommandOption {
    CommandOption {
        name: name.to_string(),
        value: OptionValue::Text(value.to_string()),
    }
}

fn group(name: &str, options: Vec<CommandOption>) -> CommandOption {
    CommandOption {
        name: name.to_string(),
        value: OptionValue::SubCommand(options),
    }
}

fn strings(names: &[&str]) -> Vec<String> {
    names.iter().map(|n| n.to_string()).collect()
}

fn stored(name: Option<&str>, size: u64) -> StoredFile {
    StoredFile {
        name: name.map(|n| n.to_string()),
        size,
    }
}

fn model(name: &str) -> ModelMeta {
    ModelMeta {
        name: name.to_string(),
        path: format!("/data/1/models/{name}.capacitor"),
        datasets: strings(&["/d/a", "/d/b"]),
        owner: 42,
        created_at: 5,
        recipe: "the recipe".to_string(),
    }
}

fn store_with(names: &[&str]) -> Store {
    let mut store = Store::new("/data".to_string(), Registry::default());
    for name in names {
        store.register_model(1, model(name));
    }
    store
}

#[test]
fn every_command_is_registered() {
    let commands = commands();
    let names: Vec<&str> = commands.iter().map(|c| c.name).collect();
    assert_eq!(
        names,
        ["dataset", "recipe", "train", "query", "list", "show", "delete", "about"]
    );
    let options: Vec<Vec<&str>> = commands
        .iter()
        .map(|c| c.options.iter().map(|o| o.name).collect())
        .collect();
    assert_eq!(options[0], ["upload", "list", "delete"]);
    assert_eq!(options[1], ["create", "edit", "upload", "list", "info", "delete"]);
    assert_eq!(options[2], ["model", "recipe", "split"]);
    assert_eq!(options[3], ["prompt", "model"]);
    assert!(options[4].is_empty());
    assert_eq!(options[5], ["model"]);
    assert_eq!(options[6], ["model"]);
    assert!(options[7].is_empty());
    for command in &commands {
        assert_eq!(
            command.contexts,
            [UsageContext::Guild, UsageContext::BotDm, UsageContext::PrivateChannel]
        );
        assert_eq!(command.targets, [InstallTarget::Guild, InstallTarget::User]);
        assert!(interaction_create(command.name).is_ok());
    }
}

#[test]
fn command_options_are_described() {
    let commands = commands();
    let upload = &commands[0].options[0];
    assert_eq!(commands[0].description, "Manage text datasets for this server");
    assert_eq!(upload.kind, OptionKind::SubCommand);
    assert_eq!(upload.description, "Upload a text dataset (raw corpus) for training");
    assert_eq!(upload.sub_options[0].kind, OptionKind::Attachment);
    assert_eq!(upload.sub_options[0].name, "file");
    assert!(upload.sub_options[0].required && !upload.sub_options[0].autocomplete);
    assert_eq!(upload.sub_options[1].kind, OptionKind::Text);
    assert_eq!(
        upload.sub_options[1].description,
        "Custom name for the dataset (avoids collisions)"
    );
    assert!(!upload.sub_options[1].required);
    let remove = &commands[0].options[2].sub_options[0];
    assert!(remove.required && remove.autocomplete);
    let prompt = &commands[3].options[0];
    assert!(prompt.required && !prompt.autocomplete);
    let name = &commands[3].options[1];
    assert!(!name.required && name.autocomplete);
    assert_eq!(commands[7].description, "About this bot");
}

#[test]
fn commands_are_dispatched_by_name() {
    assert_eq!(interaction_create("train"), Ok(Handler::Train));
    assert_eq!(interaction_create("about"), Ok(Handler::About));
    assert_eq!(
        interaction_create("Train"),
        Err("Unknown command `Train`.".to_string())
    );
    assert_eq!(
        failure_text(),
        "Something went wrong while processing that command."
    );
    assert!(about_text().starts_with("**Capacitor bot**\nCommands: `/dataset` ("));
    assert!(about_text().ends_with("`/train`, `/query`, `/list`, `/show`, `/delete`."));
}

#[test]
fn only_own_commands_are_deleted() {
    let existing = [
        Registered { id: 1, application: 7 },
        Registered { id: 2, application: 8 },
        Registered { id: 3, application: 7 },
    ];
    assert_eq!(sync_commands(&existing, 7), [1, 3]);
    assert!(sync_commands(&existing, 9).is_empty());
}

#[test]
fn the_namespace_is_the_guild_or_the_user() {
    assert_eq!(namespace(Some(5), 6), 5);
    assert_eq!(namespace(None, 6), 6);
}

#[test]
fn a_missing_option_is_named() {
    assert_eq!(
        required_option(&[text("a", "x")], "name"),
        Err("Missing required `name` option.".to_string())
    );
    assert_eq!(required_option(&[text("name", "")], "name"), Ok("".to_string()));
}

#[test]
fn dataset_commands_are_dispatched() {
    let usage = "Usage: `/dataset upload|list|delete`.";
    assert!(matches!(dataset(&[]), DatasetAction::Reply(t) if t == usage));
    assert!(matches!(dataset(&[text("upload", "x")]), DatasetAction::Reply(t) if t == usage));
    let options = [group("upload", vec![text("name", "n")])];
    assert!(matches!(dataset(&options), DatasetAction::Upload(o) if o.len() == 1));
    assert!(matches!(dataset(&[group("list", vec![])]), DatasetAction::List));
    let options = [group("delete", vec![])];
    assert!(matches!(dataset(&options), DatasetAction::Delete(_)));
    let options = [group("edit", vec![])];
    assert!(matches!(
        dataset(&options),
        DatasetAction::Reply(t) if t == "Unknown dataset subcommand `edit`."
    ));
}

#[test]
fn an_upload_is_saved_under_its_name() {
    let store = Store::new("/data".to_string(), Registry::default());
    let path = |options: &[CommandOption], file: Option<&str>| {
        dataset_upload(&store, 3, options, file).map(|u| u.candidate())
    };
    assert_eq!(path(&[], Some("my file.txt")), Ok("/data/3/datasets/my_file.txt".to_string()));
    assert_eq!(
        path(&[text("name", "corpus")], Some("my file.txt")),
        Ok("/data/3/datasets/corpus".to_string())
    );
    assert_eq!(path(&[text("name", "")], Some("a.txt")), Ok("/data/3/datasets/a.txt".to_string()));
    assert_eq!(path(&[], None), Err("Please attach a text file to upload.".to_string()));
    assert_eq!(
        dataset_uploaded("/data/3/datasets/a.txt.1", 2048),
        "Uploaded dataset as `a.txt.1` (2.00 KB). Use it with `/train dataset:a.txt.1`."
    );
    assert_eq!(
        dataset_uploaded("/", 1),
        "Uploaded dataset as `dataset` (1 B). Use it with `/train dataset:dataset`."
    );
}

#[test]
fn datasets_are_listed_by_name() {
    assert_eq!(
        dataset_list(&[]),
        "No datasets uploaded in this server yet. Use `/dataset upload`."
    );
    let files = [stored(Some("b"), 10), stored(None, 7), stored(Some("a"), 1536), stored(Some("B"), 0)];
    assert_eq!(
        dataset_list(&files),
        "Datasets in this server:\n- `B` (0 B)\n- `a` (1.50 KB)\n- `b` (10 B)\n- `dataset` (7 B)"
    );
}

#[test]
fn dataset_deletions_are_answered() {
    assert_eq!(dataset_deleted("a", true), "Deleted dataset `a`.");
    assert_eq!(dataset_deleted("a", false), "No dataset named `a` in this server.");
}

#[test]
fn recipe_commands_are_dispatched() {
    let usage = "Usage: `/recipe upload|list|info`.";
    assert!(matches!(recipe(&[]), RecipeAction::Reply(t) if t == usage));
    assert!(matches!(recipe(&[text("list", "x")]), RecipeAction::Reply(t) if t == usage));
    assert!(matches!(recipe(&[group("create", vec![])]), RecipeAction::Create(_)));
    assert!(matches!(recipe(&[group("edit", vec![])]), RecipeAction::Edit(_)));
    assert!(matches!(recipe(&[group("upload", vec![])]), RecipeAction::Upload(_)));
    assert!(matches!(recipe(&[group("list", vec![])]), RecipeAction::List));
    assert!(matches!(recipe(&[group("info", vec![])]), RecipeAction::Info(_)));
    assert!(matches!(recipe(&[group("delete", vec![])]), RecipeAction::Delete(_)));
    assert!(matches!(
        recipe(&[group("x", vec![])]),
        RecipeAction::Reply(t) if t == "Unknown recipe subcommand `x`."
    ));
}

#[test]
fn recipe_uploads_are_answered() {
    let store = Store::new("/data".to_string(), Registry::default());
    let path = |options: &[CommandOption], file: Option<&str>| {
        recipe_upload(&store, 3, options, file).map(|u| u.candidate())
    };
    assert_eq!(path(&[], Some("r.cap")), Ok("/data/3/capacitorfiles/r.cap".to_string()));
    assert_eq!(
        path(&[text("name", "n")], Some("r.cap")),
        Ok("/data/3/capacitorfiles/n".to_string())
    );
    assert_eq!(path(&[], None), Err("Please attach a recipe to upload.".to_string()));
    assert_eq!(
        recipe_uploaded("/x/r.cap", 3),
        "Uploaded recipe as `r.cap` (3 B). Use it with `/train recipe:r.cap`."
    );
    assert_eq!(
        recipe_uploaded("..", 3),
        "Uploaded recipe as `capacitorfile` (3 B). Use it with `/train recipe:capacitorfile`."
    );
}

#[test]
fn a_recipe_is_created_from_a_reply() {
    assert!(create_prompt().starts_with("Reply to this message with the capacitorfile recipe content. "));
    match recipe_create(&[text("name", "n")], Some("```\na\n```")) {
        CreateStep::Save { name, content } => assert_eq!((name, content), ("n".to_string(), "a".to_string())),
        _ => panic!(),
    }
    match recipe_create(&[text("name", "")], Some("a")) {
        CreateStep::SaveAsNamedInside { content } => assert_eq!(content, "a"),
        _ => panic!(),
    }
    match recipe_create(&[text("name", "n")], None) {
        CreateStep::TimedOut(t) => {
            assert_eq!(t, "Timed out waiting for your reply. No recipe was saved.")
        }
        _ => panic!(),
    }
    assert_eq!(recipe_name(Some("m".to_string())), "m");
    assert_eq!(recipe_name(None), "recipe.capacitor");
}

#[test]
fn a_recipe_is_edited_by_a_reply() {
    assert_eq!(
        edit_prompt("r", "x"),
        "**Current recipe `r`**\n\nReply to this message with the updated capacitorfile recipe content. Editing your reply will update the recipe file.\n\n```\nx\n```"
    );
    assert!(edit_prompt("r", &"x".repeat(1801)).ends_with("x\n... (truncated)\n```"));
    assert_eq!(recipe_edit(Some("```\ny\n```")), Ok("y".to_string()));
    assert_eq!(
        recipe_edit(None),
        Err("Timed out waiting for your reply. The recipe was not changed.".to_string())
    );
    assert_eq!(no_recipe("r"), "No recipe named `r` in this server.");
}

#[test]
fn recipes_are_listed_by_name() {
    assert_eq!(
        recipe_list(&[]),
        "No recipes uploaded in this server yet. Use `/recipe upload`."
    );
    assert_eq!(
        recipe_list(&[stored(Some("z"), 1), stored(None, 2)]),
        "Recipe in this server:\n- `capacitorfile` (2 B)\n- `z` (1 B)"
    );
}

#[test]
fn recipe_info_tells_which_datasets_are_uploaded() {
    let entries = vec![Some("a.txt".to_string()), None];
    let file = |path: &str, readable: bool| RecipeFile {
        path: path.to_string(),
        readable,
        delimiter: String::new(),
    };
    let files = vec![file("x/a.txt", true), file("b.txt", true), file("/", true), file("a.txt", false)];
    assert_eq!(
        references(Some(&files), &entries),
        "- `a.txt` (uploaded)\n- `b.txt` (missing — `/dataset upload` it first)"
    );
    assert_eq!(references(None, &entries), "- *(not a valid recipe; saved as-is)*");
    assert_eq!(
        recipe_info("r", 12, "content", Some(&files), &entries),
        "**r** (12 bytes)\n\n**References**\n- `a.txt` (uploaded)\n- `b.txt` (missing — `/dataset upload` it first)\n\n```\ncontent\n```"
    );
    let long = recipe_info("r", 5000, &"x".repeat(5000), None, &entries);
    assert!(long.ends_with("x\n... (truncated)\n```"));
    let name = "r".repeat(100);
    let long = recipe_info(&name, 5000, &"x".repeat(5000), None, &entries);
    assert_eq!(long.chars().count(), 2000 + 16);
    assert!(long.ends_with("x\n... (truncated)"));
}

#[test]
fn recipe_deletions_are_answered() {
    assert_eq!(recipe_deleted("a", true), "Deleted recipe `a`.");
    assert_eq!(recipe_deleted("a", false), "No recipe named `a` in this server.");
}

#[test]
fn a_query_runs_the_named_model() {
    let mut store = store_with(&["m"]);
    let plan = query(&mut store, 1, &[text("prompt", "hi"), text("model", "m")]);
    assert!(plan.changed);
    match plan.outcome {
        QueryOutcome::Run { prompt, model } => {
            assert_eq!(prompt, "hi");
            assert_eq!(model.name, "m");
            assert_eq!(model.path, "/data/1/models/m.capacitor");
        }
        _ => panic!(),
    }
}

#[test]
fn a_query_remembers_the_model() {
    let mut store = store_with(&["m", "n"]);
    query(&mut store, 1, &[text("prompt", "hi"), text("model", "n")]);
    let plan = query(&mut store, 1, &[text("prompt", "again")]);
    assert!(!plan.changed);
    assert!(matches!(plan.outcome, QueryOutcome::Run { model, .. } if model.name == "n"));
    let plan = query(&mut store, 2, &[text("prompt", "again")]);
    assert!(matches!(
        plan.outcome,
        QueryOutcome::Reply(t) if t == "No `model` given and no model has been used in this server yet. Run `/query model:<name> ...` (autocomplete available) or `/list`."
    ));
}

#[test]
fn a_query_needs_a_prompt_and_a_model() {
    let mut store = store_with(&["m"]);
    let plan = query(&mut store, 1, &[text("model", "m")]);
    assert!(!plan.changed);
    assert!(matches!(
        plan.outcome,
        QueryOutcome::Reply(t) if t == "Missing required `prompt` option."
    ));
    assert_eq!(store.last_used(1), None);
    let plan = query(&mut store, 1, &[text("prompt", "hi"), text("model", "x")]);
    assert!(plan.changed);
    assert!(matches!(
        plan.outcome,
        QueryOutcome::Reply(t) if t == "No model named `x` in this server. Use `/list`."
    ));
    assert_eq!(store.last_used(1), Some("x".to_string()));
}

#[test]
fn a_response_holds_the_prompt_and_what_was_generated() {
    assert_eq!(query_response("a", "b c"), "a b c");
    let long = query_response("p", &"x".repeat(1901));
    assert_eq!(long, "p ".to_string() + &"x".repeat(1900) + "\n... (truncated)");
    let long = query_response(&"p".repeat(2000), "x");
    assert_eq!(long, "p".repeat(2000) + "\n... (truncated)");
}

#[test]
fn models_are_listed_by_name() {
    assert_eq!(
        list(&store_with(&[]), 1),
        "No models in this server yet. Use `/dataset upload` and `/train` one."
    );
    assert_eq!(
        list(&store_with(&["b", "a"]), 1),
        "Models in this server:\n- `a` (owner <@42>, 2 datasets)\n- `b` (owner <@42>, 2 datasets)"
    );
}

#[test]
fn a_model_is_shown_in_detail() {
    let store = store_with(&["m"]);
    assert_eq!(
        show(&store, 1, &[text("model", "m")]),
        "**m**\n- owner: <@42>\n- datasets: /d/a, /d/b\n\n```\nthe recipe\n```"
    );
    assert_eq!(show(&store, 2, &[text("model", "m")]), "No model named `m` in this server.");
    assert_eq!(show(&store, 1, &[]), "Missing required `model` option.");
}

#[test]
fn a_deleted_model_is_gone() {
    let mut store = store_with(&["m", "n"]);
    match delete(&mut store, 1, &[text("model", "m")]) {
        Deletion::Remove { path, reply } => {
            assert_eq!(path, "/data/1/models/m.capacitor");
            assert_eq!(reply, "Deleted model `m`.");
        }
        _ => panic!(),
    }
    assert!(store.get(1, "m").is_none());
    assert!(store.get(1, "n").is_some());
    assert!(matches!(
        delete(&mut store, 1, &[text("model", "m")]),
        Deletion::Reply(t) if t == "No model named `m` in this server."
    ));
    assert!(matches!(
        delete(&mut store, 1, &[]),
        Deletion::Reply(t) if t == "Missing required `model` option."
    ));
}

#[test]
fn autocomplete_looks_where_the_option_asks() {
    assert_eq!(autocomplete_source("train", "recipe"), NameSource::Recipes);
    assert_eq!(autocomplete_source("recipe", "name"), NameSource::Recipes);
    assert_eq!(autocomplete_source("dataset", "name"), NameSource::Datasets);
    assert_eq!(autocomplete_source("train", "model"), NameSource::Models);
    assert_eq!(autocomplete_source("query", "model"), NameSource::Models);
    assert_eq!(autocomplete_source("dataset", "recipe"), NameSource::Models);
}

#[test]
fn autocomplete_ignores_case() {
    let names = strings(&["Alpha", "beta", "ALPHABET", "ÄRGER"]);
    assert_eq!(autocomplete(&names, "aLph"), ["Alpha", "ALPHABET"]);
    assert_eq!(autocomplete(&names, "ärg"), ["ÄRGER"]);
    assert_eq!(autocomplete(&names, ""), names);
    assert!(autocomplete(&names, "x").is_empty());
}

#[test]
fn autocomplete_offers_a_limited_number() {
    let names: Vec<String> = (0..40).map(|i| format!("n{i}")).collect();
    assert_eq!(autocomplete(&names, "N"), names[..25]);
    let names: Vec<String> = (0..25).map(|i| format!("n{i}")).collect();
    assert_eq!(autocomplete(&names, "n"), names);
}

#[test]
fn choices_go_by_the_lowered_names() {
    let names = strings(&["A", "B", "C"]);
    let lowered = strings(&["xa", "b", "xc"]);
    assert_eq!(choices(&names, &lowered, "x"), ["A", "C"]);
}

#[test]
fn every_selector_offers_its_own_names() {
    for command in commands() {
        for option in &command.options {
            if option.autocomplete {
                let expected = if option.name == "recipe" {
                    NameSource::Recipes
                } else {
                    NameSource::Models
                };
                assert_eq!(autocomplete_source(command.name, option.name), expected);
            }
            for sub_option in &option.sub_options {
                if sub_option.autocomplete {
                    let expected = if command.name == "dataset" {
                        NameSource::Datasets
                    } else {
                        NameSource::Recipes
                    };
                    assert_eq!(autocomplete_source(command.name, sub_option.name), expected);
                }
            }
        }
    }
}

#[test]
fn names_are_offered_from_their_source() {
    let store = store_with(&["b", "a"]);
    let recipes = vec![Some("r.cap".to_string()), None, Some("s".to_string())];
    let datasets = vec![Some("d.txt".to_string())];
    let offered = |source: NameSource| offered_names(&store, 1, source, &recipes, &datasets);
    assert_eq!(offered(NameSource::Recipes), ["r.cap", "s"]);
    assert_eq!(offered(NameSource::Datasets), ["d.txt"]);
    assert_eq!(offered(NameSource::Models), ["b", "a"]);
    assert!(offered_names(&store, 2, NameSource::Models, &recipes, &datasets).is_empty());
}
