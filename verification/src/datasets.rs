//! The `/dataset` commands.

use vstd::prelude::*;

use crate::files::file_lines;
use crate::files::list_files;
use crate::files::name_of_upload;
use crate::files::name_to_show;
use crate::files::shown_name;
use crate::files::upload_name;
use crate::files::StoredFile;
use crate::options::CommandOption;
use crate::options::OptionValue;
use crate::paths::path_join;
use crate::store::sanitized;
use crate::store::Store;
use crate::store::UniquePath;
use crate::text::same_text;
use crate::util::format_size;
use crate::util::size_text;

verus! {

/// What a `/dataset` command asks for.
pub enum DatasetAction<'a> {
    Upload(&'a Vec<CommandOption>),
    List,
    Delete(&'a Vec<CommandOption>),
    /// Nothing but an answer.
    Reply(String),
}

/// How a `/dataset` command without a subcommand is answered.
pub open spec fn dataset_usage() -> Seq<char> {
    "Usage: `/dataset upload|list|delete`."@
}

/// Whether `action` is what a `/dataset` command with the given options asks
/// for: the first option is the subcommand.
pub open spec fn is_dataset_action(options: Seq<CommandOption>, action: DatasetAction) -> bool {
    if options.len() > 0 && options[0].value is SubCommand {
        let name = options[0].name@;
        let given = options[0].value->SubCommand_0;
        if name == "upload"@ {
            action matches DatasetAction::Upload(opts) && *opts == given
        } else if name == "list"@ {
            action is List
        } else if name == "delete"@ {
            action matches DatasetAction::Delete(opts) && *opts == given
        } else {
            action matches DatasetAction::Reply(text) && text@
                == "Unknown dataset subcommand `"@ + name + "`."@
        }
    } else {
        action matches DatasetAction::Reply(text) && text@ == dataset_usage()
    }
}

/// Dispatches a `/dataset` command on its subcommand.
pub fn dataset(options: &[CommandOption]) -> (r: DatasetAction<'_>)
    ensures
        is_dataset_action(options@, r),
{
    if options.len() == 0 {
        return DatasetAction::Reply("Usage: `/dataset upload|list|delete`.".to_owned());
    }
    let name = options[0].name.as_str();
    match &options[0].value {
        OptionValue::SubCommand(opts) => if same_text(name, "upload") {
            DatasetAction::Upload(opts)
        } else if same_text(name, "list") {
            DatasetAction::List
        } else if same_text(name, "delete") {
            DatasetAction::Delete(opts)
        } else {
            let mut message = "Unknown dataset subcommand `".to_owned();
            message.append(name);
            message.append("`.");
            DatasetAction::Reply(message)
        },
        _ => DatasetAction::Reply("Usage: `/dataset upload|list|delete`.".to_owned()),
    }
}

/// Where an uploaded dataset is saved, or the answer to an upload without an
/// attachment. `attachment` is the attachment's file name.
pub fn dataset_upload(
    store: &Store,
    namespace: u64,
    options: &[CommandOption],
    attachment: Option<&str>,
) -> (r: Result<UniquePath, String>)
    ensures
        match attachment {
            None => r is Err && r->Err_0@ == "Please attach a text file to upload."@,
            Some(filename) => {
                &&& r is Ok
                &&& r->Ok_0.attempt() == 0
                &&& r->Ok_0.wanted() == path_join(
                    store@.datasets_dir(namespace),
                    sanitized(name_of_upload(options@, filename@)),
                )
            },
        },
{
    match attachment {
        None => Err("Please attach a text file to upload.".to_owned()),
        Some(filename) => {
            let name = upload_name(options, filename);
            Ok(store.save_dataset(namespace, name.as_str()))
        },
    }
}

/// The answer to an upload of `size` bytes that was saved at `path`.
pub fn dataset_uploaded(path: &str, size: u64) -> (r: String)
    ensures
        r@ == "Uploaded dataset as `"@ + shown_name(path@, "dataset"@) + "` ("@ + size_text(
            size as nat,
        ) + "). Use it with `/train dataset:"@ + shown_name(path@, "dataset"@) + "`."@,
{
    let name = name_to_show(path, "dataset");
    let size = format_size(size);
    let mut r = "Uploaded dataset as `".to_owned();
    r.append(name.as_str());
    r.append("` (");
    r.append(size.as_str());
    r.append("). Use it with `/train dataset:");
    r.append(name.as_str());
    r.append("`.");
    r
}

/// The answer to `/dataset list`, where `files` are the files found in the
/// datasets directory.
pub fn dataset_list(files: &[StoredFile]) -> (r: String)
    ensures
        r@ == if files@.len() == 0 {
            "No datasets uploaded in this server yet. Use `/dataset upload`."@
        } else {
            "Datasets in this server:\n"@ + file_lines(files@, "dataset"@)
        },
{
    if files.len() == 0 {
        return "No datasets uploaded in this server yet. Use `/dataset upload`.".to_owned();
    }
    let lines = list_files(files, "dataset");
    let mut r = "Datasets in this server:\n".to_owned();
    r.append(lines.as_str());
    r
}

/// The answer to `/dataset delete`.
pub fn dataset_deleted(name: &str, removed: bool) -> (r: String)
    ensures
        r@ == if removed {
            "Deleted dataset `"@ + name@ + "`."@
        } else {
            "No dataset named `"@ + name@ + "` in this server."@
        },
{
    if removed {
        let mut r = "Deleted dataset `".to_owned();
        r.append(name);
        r.append("`.");
        r
    } else {
        let mut r = "No dataset named `".to_owned();
        r.append(name);
        r.append("` in this server.");
        r
    }
}

} // verus!
