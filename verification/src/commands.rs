//! The bot's command set.

use vstd::prelude::*;

use crate::text::same_text;

verus! {

/// The kind of a command option.
#[derive(Clone, Copy, PartialEq, Eq, Structural, Debug)]
pub enum OptionKind {
    SubCommand,
    Attachment,
    Text,
}

/// Where a command can be used.
#[derive(Clone, Copy, PartialEq, Eq, Structural, Debug)]
pub enum UsageContext {
    Guild,
    BotDm,
    PrivateChannel,
}

/// Whom a command is installed for.
#[derive(Clone, Copy, PartialEq, Eq, Structural, Debug)]
pub enum InstallTarget {
    Guild,
    User,
}

/// An option of a subcommand.
pub struct SubOption {
    pub kind: OptionKind,
    pub name: &'static str,
    pub description: &'static str,
    pub required: bool,
    pub autocomplete: bool,
}

/// What an option of a subcommand stands for.
pub struct SubOptionView {
    pub kind: OptionKind,
    pub name: Seq<char>,
    pub description: Seq<char>,
    pub required: bool,
    pub autocomplete: bool,
}

impl View for SubOption {
    type V = SubOptionView;

    open spec fn view(&self) -> SubOptionView {
        SubOptionView {
            kind: self.kind,
            name: self.name@,
            description: self.description@,
            required: self.required,
            autocomplete: self.autocomplete,
        }
    }
}

/// An option of a command, or a subcommand with its options.
pub struct OptionSpec {
    pub kind: OptionKind,
    pub name: &'static str,
    pub description: &'static str,
    pub required: bool,
    pub autocomplete: bool,
    pub sub_options: Vec<SubOption>,
}

/// What an option of a command stands for.
#[verifier::ext_equal]
pub struct OptionView {
    pub kind: OptionKind,
    pub name: Seq<char>,
    pub description: Seq<char>,
    pub required: bool,
    pub autocomplete: bool,
    pub sub_options: Seq<SubOptionView>,
}

impl View for OptionSpec {
    type V = OptionView;

    open spec fn view(&self) -> OptionView {
        OptionView {
            kind: self.kind,
            name: self.name@,
            description: self.description@,
            required: self.required,
            autocomplete: self.autocomplete,
            sub_options: self.sub_options@.map_values(|o: SubOption| o@),
        }
    }
}

/// A command.
pub struct CommandSpec {
    pub name: &'static str,
    pub description: &'static str,
    pub options: Vec<OptionSpec>,
    pub contexts: Vec<UsageContext>,
    pub targets: Vec<InstallTarget>,
}

/// What a command stands for.
#[verifier::ext_equal]
pub struct CommandView {
    pub name: Seq<char>,
    pub description: Seq<char>,
    pub options: Seq<OptionView>,
    pub contexts: Seq<UsageContext>,
    pub targets: Seq<InstallTarget>,
}

impl View for CommandSpec {
    type V = CommandView;

    open spec fn view(&self) -> CommandView {
        CommandView {
            name: self.name@,
            description: self.description@,
            options: self.options@.map_values(|o: OptionSpec| o@),
            contexts: self.contexts@,
            targets: self.targets@,
        }
    }
}

/// A file that has to be attached.
pub open spec fn required_file(description: Seq<char>) -> SubOptionView {
    SubOptionView {
        kind: OptionKind::Attachment,
        name: "file"@,
        description,
        required: true,
        autocomplete: false,
    }
}

/// A name that may be given.
pub open spec fn optional_name(description: Seq<char>) -> SubOptionView {
    SubOptionView {
        kind: OptionKind::Text,
        name: "name"@,
        description,
        required: false,
        autocomplete: false,
    }
}

/// A name that has to be picked.
pub open spec fn picked_name(description: Seq<char>) -> SubOptionView {
    SubOptionView {
        kind: OptionKind::Text,
        name: "name"@,
        description,
        required: true,
        autocomplete: true,
    }
}

/// A subcommand.
pub open spec fn sub_command(
    name: Seq<char>,
    description: Seq<char>,
    sub_options: Seq<SubOptionView>,
) -> OptionView {
    OptionView {
        kind: OptionKind::SubCommand,
        name,
        description,
        required: false,
        autocomplete: false,
        sub_options,
    }
}

/// A text option of a command.
pub open spec fn text_option(
    name: Seq<char>,
    description: Seq<char>,
    required: bool,
    autocomplete: bool,
) -> OptionView {
    OptionView {
        kind: OptionKind::Text,
        name,
        description,
        required,
        autocomplete,
        sub_options: seq![],
    }
}

/// A command that can be used everywhere and is installed for guilds and users.
pub open spec fn user_app_command(
    name: Seq<char>,
    description: Seq<char>,
    options: Seq<OptionView>,
) -> CommandView {
    CommandView {
        name,
        description,
        options,
        contexts: seq![UsageContext::Guild, UsageContext::BotDm, UsageContext::PrivateChannel],
        targets: seq![InstallTarget::Guild, InstallTarget::User],
    }
}

/// `/dataset`.
pub open spec fn dataset_command() -> CommandView {
    user_app_command(
        "dataset"@,
        "Manage text datasets for this server"@,
        seq![
            sub_command(
                "upload"@,
                "Upload a text dataset (raw corpus) for training"@,
                seq![
                    required_file("The text file to use as training data"@),
                    optional_name("Custom name for the dataset (avoids collisions)"@),
                ],
            ),
            sub_command("list"@, "List datasets in this server"@, seq![]),
            sub_command(
                "delete"@,
                "Delete a dataset from this server"@,
                seq![picked_name("Name of the dataset to delete"@)],
            ),
        ],
    )
}

/// `/recipe`.
pub open spec fn recipe_command() -> CommandView {
    user_app_command(
        "recipe"@,
        "Manage capacitorfile recipes for this server"@,
        seq![
            sub_command(
                "create"@,
                "Create a capacitorfile recipe by replying with its content"@,
                seq![optional_name("Custom name for the capacitorfile (avoids collisions)"@)],
            ),
            sub_command(
                "edit"@,
                "Edit an existing capacitorfile recipe by replying"@,
                seq![picked_name("Name of the capacitorfile to edit"@)],
            ),
            sub_command(
                "upload"@,
                "Upload a capacitorfile recipe"@,
                seq![
                    required_file("The capacitorfile recipe to upload"@),
                    optional_name("Custom name for the capacitorfile (avoids collisions)"@),
                ],
            ),
            sub_command("list"@, "List capacitorfile recipes in this server"@, seq![]),
            sub_command(
                "info"@,
                "Show details of a capacitorfile recipe"@,
                seq![picked_name("Name of the capacitorfile"@)],
            ),
            sub_command(
                "delete"@,
                "Delete a capacitorfile recipe from this server"@,
                seq![picked_name("Name of the capacitorfile to delete"@)],
            ),
        ],
    )
}

/// `/train`.
pub open spec fn train_command() -> CommandView {
    user_app_command(
        "train"@,
        "Train a model from a corpus or a capacitorfile recipe"@,
        seq![
            text_option(
                "model"@,
                "Name for the new model (defaults to name set by recipe)"@,
                false,
                false,
            ),
            text_option(
                "recipe"@,
                "Name of an uploaded capacitorfile recipe to train from"@,
                false,
                true,
            ),
            text_option("split"@, "Optional document delimiter"@, false, false),
        ],
    )
}

/// `/query`.
pub open spec fn query_command() -> CommandView {
    user_app_command(
        "query"@,
        "Query a trained model for text generation (last-used model if omitted)"@,
        seq![
            text_option("prompt"@, "The prompt to generate from"@, true, false),
            text_option("model"@, "Name of the model (defaults to last used)"@, false, true),
        ],
    )
}

/// `/list`.
pub open spec fn list_command() -> CommandView {
    user_app_command("list"@, "List models available in this server"@, seq![])
}

/// `/show`.
pub open spec fn show_command() -> CommandView {
    user_app_command(
        "show"@,
        "Show details of a model"@,
        seq![text_option("model"@, "Name of the model"@, true, true)],
    )
}

/// `/delete`.
pub open spec fn delete_command() -> CommandView {
    user_app_command(
        "delete"@,
        "Delete a model"@,
        seq![text_option("model"@, "Name of the model"@, true, true)],
    )
}

/// `/about`.
pub open spec fn about_command() -> CommandView {
    user_app_command("about"@, "About this bot"@, seq![])
}

/// The bot's commands.
pub open spec fn command_set() -> Seq<CommandView> {
    seq![
        dataset_command(),
        recipe_command(),
        train_command(),
        query_command(),
        list_command(),
        show_command(),
        delete_command(),
        about_command(),
    ]
}

fn file_required(description: &'static str) -> (r: SubOption)
    ensures
        r@ == required_file(description@),
{
    SubOption {
        kind: OptionKind::Attachment,
        name: "file",
        description,
        required: true,
        autocomplete: false,
    }
}

fn name_optional(description: &'static str) -> (r: SubOption)
    ensures
        r@ == optional_name(description@),
{
    SubOption {
        kind: OptionKind::Text,
        name: "name",
        description,
        required: false,
        autocomplete: false,
    }
}

fn name_picked(description: &'static str) -> (r: SubOption)
    ensures
        r@ == picked_name(description@),
{
    SubOption {
        kind: OptionKind::Text,
        name: "name",
        description,
        required: true,
        autocomplete: true,
    }
}

fn grouped(name: &'static str, description: &'static str, sub_options: Vec<SubOption>) -> (r: OptionSpec)
    ensures
        r@ == sub_command(
            name@,
            description@,
            sub_options@.map_values(|o: SubOption| o@),
        ),
{
    OptionSpec {
        kind: OptionKind::SubCommand,
        name,
        description,
        required: false,
        autocomplete: false,
        sub_options,
    }
}

fn text(
    name: &'static str,
    description: &'static str,
    required: bool,
    autocomplete: bool,
) -> (r: OptionSpec)
    ensures
        r@ == text_option(name@, description@, required, autocomplete),
{
    let r = OptionSpec {
        kind: OptionKind::Text,
        name,
        description,
        required,
        autocomplete,
        sub_options: Vec::new(),
    };
    assert(r@.sub_options == Seq::<SubOptionView>::empty());
    r
}

fn command(name: &'static str, description: &'static str, options: Vec<OptionSpec>) -> (r:
    CommandSpec)
    ensures
        r@ == user_app_command(name@, description@, options@.map_values(|o: OptionSpec| o@)),
{
    let r = CommandSpec {
        name,
        description,
        options,
        contexts: vec![UsageContext::Guild, UsageContext::BotDm, UsageContext::PrivateChannel],
        targets: vec![InstallTarget::Guild, InstallTarget::User],
    };
    assert(r@ =~= user_app_command(
        name@,
        description@,
        options@.map_values(|o: OptionSpec| o@),
    ));
    r
}

fn dataset() -> (r: CommandSpec)
    ensures
        r@ == dataset_command(),
{
    let upload = vec![
        file_required("The text file to use as training data"),
        name_optional("Custom name for the dataset (avoids collisions)"),
    ];
    let delete = vec![name_picked("Name of the dataset to delete")];
    let options = vec![
        grouped("upload", "Upload a text dataset (raw corpus) for training", upload),
        grouped("list", "List datasets in this server", Vec::new()),
        grouped("delete", "Delete a dataset from this server", delete),
    ];
    assert(options@.map_values(|o: OptionSpec| o@) =~~= dataset_command().options);
    command("dataset", "Manage text datasets for this server", options)
}

fn recipe() -> (r: CommandSpec)
    ensures
        r@ == recipe_command(),
{
    let create = vec![name_optional("Custom name for the capacitorfile (avoids collisions)")];
    let edit = vec![name_picked("Name of the capacitorfile to edit")];
    let upload = vec![
        file_required("The capacitorfile recipe to upload"),
        name_optional("Custom name for the capacitorfile (avoids collisions)"),
    ];
    let info = vec![name_picked("Name of the capacitorfile")];
    let delete = vec![name_picked("Name of the capacitorfile to delete")];
    let options = vec![
        grouped("create", "Create a capacitorfile recipe by replying with its content", create),
        grouped("edit", "Edit an existing capacitorfile recipe by replying", edit),
        grouped("upload", "Upload a capacitorfile recipe", upload),
        grouped("list", "List capacitorfile recipes in this server", Vec::new()),
        grouped("info", "Show details of a capacitorfile recipe", info),
        grouped("delete", "Delete a capacitorfile recipe from this server", delete),
    ];
    assert(options@.map_values(|o: OptionSpec| o@) =~~= recipe_command().options);
    command("recipe", "Manage capacitorfile recipes for this server", options)
}

fn train() -> (r: CommandSpec)
    ensures
        r@ == train_command(),
{
    let options = vec![
        text("model", "Name for the new model (defaults to name set by recipe)", false, false),
        text("recipe", "Name of an uploaded capacitorfile recipe to train from", false, true),
        text("split", "Optional document delimiter", false, false),
    ];
    assert(options@.map_values(|o: OptionSpec| o@) =~~= train_command().options);
    command("train", "Train a model from a corpus or a capacitorfile recipe", options)
}

fn query() -> (r: CommandSpec)
    ensures
        r@ == query_command(),
{
    let options = vec![
        text("prompt", "The prompt to generate from", true, false),
        text("model", "Name of the model (defaults to last used)", false, true),
    ];
    assert(options@.map_values(|o: OptionSpec| o@) =~~= query_command().options);
    command(
        "query",
        "Query a trained model for text generation (last-used model if omitted)",
        options,
    )
}

fn list() -> (r: CommandSpec)
    ensures
        r@ == list_command(),
{
    let options: Vec<OptionSpec> = Vec::new();
    assert(options@.map_values(|o: OptionSpec| o@) =~~= list_command().options);
    command("list", "List models available in this server", options)
}

fn show() -> (r: CommandSpec)
    ensures
        r@ == show_command(),
{
    let options = vec![text("model", "Name of the model", true, true)];
    assert(options@.map_values(|o: OptionSpec| o@) =~~= show_command().options);
    command("show", "Show details of a model", options)
}

fn delete() -> (r: CommandSpec)
    ensures
        r@ == delete_command(),
{
    let options = vec![text("model", "Name of the model", true, true)];
    assert(options@.map_values(|o: OptionSpec| o@) =~~= delete_command().options);
    command("delete", "Delete a model", options)
}

fn about() -> (r: CommandSpec)
    ensures
        r@ == about_command(),
{
    let options: Vec<OptionSpec> = Vec::new();
    assert(options@.map_values(|o: OptionSpec| o@) =~~= about_command().options);
    command("about", "About this bot", options)
}

/// The bot's commands, in the order in which they are registered.
pub fn commands() -> (r: Vec<CommandSpec>)
    ensures
        r@.map_values(|c: CommandSpec| c@) == command_set(),
{
    let r = vec![dataset(), recipe(), train(), query(), list(), show(), delete(), about()];
    assert(r@.map_values(|c: CommandSpec| c@) =~= command_set());
    r
}

/// What an invoked command is handled as.
#[derive(Clone, Copy, PartialEq, Eq, Structural, Debug)]
pub enum Handler {
    Dataset,
    Recipe,
    Train,
    Query,
    List,
    Show,
    Delete,
    About,
}

/// The handler of a command, by its name.
pub open spec fn handler(name: Seq<char>) -> Option<Handler> {
    if name == "dataset"@ {
        Some(Handler::Dataset)
    } else if name == "recipe"@ {
        Some(Handler::Recipe)
    } else if name == "train"@ {
        Some(Handler::Train)
    } else if name == "query"@ {
        Some(Handler::Query)
    } else if name == "list"@ {
        Some(Handler::List)
    } else if name == "show"@ {
        Some(Handler::Show)
    } else if name == "delete"@ {
        Some(Handler::Delete)
    } else if name == "about"@ {
        Some(Handler::About)
    } else {
        None
    }
}

/// Finds the handler of an invoked command; an unknown command is answered
/// with a message.
pub fn interaction_create(name: &str) -> (r: Result<Handler, String>)
    ensures
        match handler(name@) {
            Some(h) => r == Ok::<Handler, String>(h),
            None => r is Err && r->Err_0@ == "Unknown command `"@ + name@ + "`."@,
        },
{
    if same_text(name, "dataset") {
        Ok(Handler::Dataset)
    } else if same_text(name, "recipe") {
        Ok(Handler::Recipe)
    } else if same_text(name, "train") {
        Ok(Handler::Train)
    } else if same_text(name, "query") {
        Ok(Handler::Query)
    } else if same_text(name, "list") {
        Ok(Handler::List)
    } else if same_text(name, "show") {
        Ok(Handler::Show)
    } else if same_text(name, "delete") {
        Ok(Handler::Delete)
    } else if same_text(name, "about") {
        Ok(Handler::About)
    } else {
        let mut message = "Unknown command `".to_owned();
        message.append(name);
        message.append("`.");
        Err(message)
    }
}

/// What is answered when a command fails.
pub fn failure_text() -> (r: &'static str)
    ensures
        r@ == "Something went wrong while processing that command."@,
{
    "Something went wrong while processing that command."
}

/// The answer to `/about`.
pub fn about_text() -> (r: &'static str)
    ensures
        r@
            == "**Capacitor bot**\nCommands: `/dataset` (`upload`/`list`/`delete`), `/recipe` (`create`/`edit`/`upload`/`list`/`info`/`delete`), `/train`, `/query`, `/list`, `/show`, `/delete`."@,
{
    "**Capacitor bot**\nCommands: `/dataset` (`upload`/`list`/`delete`), `/recipe` (`create`/`edit`/`upload`/`list`/`info`/`delete`), `/train`, `/query`, `/list`, `/show`, `/delete`."
}

/// The position of a handler's command in the command set.
pub open spec fn position(h: Handler) -> int {
    match h {
        Handler::Dataset => 0,
        Handler::Recipe => 1,
        Handler::Train => 2,
        Handler::Query => 3,
        Handler::List => 4,
        Handler::Show => 5,
        Handler::Delete => 6,
        Handler::About => 7,
    }
}

/// Every registered command has a handler of its own, and every handler has a
/// registered command. So no two commands share a name.
pub proof fn law_every_command_is_handled(i: int)
    requires
        0 <= i < command_set().len(),
    ensures
        handler(command_set()[i].name) is Some,
        position(handler(command_set()[i].name)->0) == i,
{
    reveal_strlit("dataset");
    reveal_strlit("recipe");
    reveal_strlit("train");
    reveal_strlit("query");
    reveal_strlit("list");
    reveal_strlit("show");
    reveal_strlit("delete");
    reveal_strlit("about");
    assert("dataset"@.len() == 7 && "recipe"@.len() == 6 && "delete"@.len() == 6);
    assert("train"@.len() == 5 && "query"@.len() == 5 && "about"@.len() == 5);
    assert("list"@.len() == 4 && "show"@.len() == 4);
    assert("recipe"@[0] == 'r' && "delete"@[0] == 'd');
    assert("train"@[0] == 't' && "query"@[0] == 'q' && "about"@[0] == 'a');
    assert("list"@[0] == 'l' && "show"@[0] == 's');
}

/// A registered command: its id, and the application that registered it.
#[derive(Clone, Copy)]
pub struct Registered {
    pub id: u64,
    pub application: u64,
}

/// The ids of the commands that the given application registered.
pub open spec fn ids_of(existing: Seq<Registered>, application: u64) -> Seq<u64>
    decreases existing.len(),
{
    if existing.len() == 0 {
        seq![]
    } else if existing.last().application == application {
        ids_of(existing.drop_last(), application).push(existing.last().id)
    } else {
        ids_of(existing.drop_last(), application)
    }
}

/// Picks the commands that are to be deleted before the command set is
/// registered anew: those of the bot's own application, in their order.
pub fn sync_commands(existing: &[Registered], application: u64) -> (r: Vec<u64>)
    ensures
        r@ == ids_of(existing@, application),
{
    let mut r: Vec<u64> = Vec::new();
    assert(existing@.take(0) == Seq::<Registered>::empty());
    for i in 0..existing.len()
        invariant
            r@ == ids_of(existing@.take(i as int), application),
    {
        assert(existing@.take(i + 1).drop_last() == existing@.take(i as int));
        if existing[i].application == application {
            r.push(existing[i].id);
        }
    }
    assert(existing@.take(existing@.len() as int) == existing@);
    r
}

/// A command is deleted exactly where the application itself registered it.
pub proof fn law_only_own_commands_are_deleted(
    existing: Seq<Registered>,
    application: u64,
    id: u64,
)
    ensures
        ids_of(existing, application).contains(id) <==> exists|i: int|
            0 <= i < existing.len() && (#[trigger] existing[i]).id == id && existing[i].application
                == application,
    decreases existing.len(),
{
    if existing.len() > 0 {
        let rest = existing.drop_last();
        let ids = ids_of(rest, application);
        law_only_own_commands_are_deleted(rest, application, id);
        if ids.contains(id) {
            let i = choose|i: int|
                0 <= i < rest.len() && (#[trigger] rest[i]).id == id && rest[i].application
                    == application;
            assert(existing[i] == rest[i]);
            let k = choose|k: int| 0 <= k < ids.len() && ids[k] == id;
            assert(ids_of(existing, application)[k] == id);
        }
        if existing.last().application == application {
            assert(ids_of(existing, application).last() == existing.last().id);
        }
        if exists|i: int|
            0 <= i < existing.len() && (#[trigger] existing[i]).id == id && existing[i].application
                == application {
            let i = choose|i: int|
                0 <= i < existing.len() && (#[trigger] existing[i]).id == id
                    && existing[i].application == application;
            if i < rest.len() {
                assert(rest[i] == existing[i]);
            } else {
                assert(existing[i] == existing.last());
            }
        }
    }
}

} // verus!
