//! What the dataset and recipe commands have in common: stored files, their
//! listings, and the options that name them.

use vstd::prelude::*;

use crate::options::option_str;
use crate::options::option_text;
use crate::options::CommandOption;
use crate::order::law_name_sorted_map;
use crate::order::name_sorted;
use crate::order::sort_by_name;
use crate::order::HasName;
use crate::order::Named;
use crate::paths::file_name;
use crate::paths::path_file_name;
use crate::text::join;
use crate::text::joined;
use crate::text::texts;
use crate::util::format_size;
use crate::util::size_text;

verus! {

/// How a command without a required option is answered.
pub open spec fn missing_option_text(name: Seq<char>) -> Seq<char> {
    "Missing required `"@ + name + "` option."@
}

/// The text of a required option, or the answer to a command that lacks it.
pub fn required_option(options: &[CommandOption], name: &str) -> (r: Result<String, String>)
    ensures
        match option_text(options@, name@) {
            Some(text) => r is Ok && r->Ok_0@ == text,
            None => r is Err && r->Err_0@ == missing_option_text(name@),
        },
{
    match option_str(options, name) {
        Some(text) => Ok(text),
        None => {
            let mut message = "Missing required `".to_owned();
            message.append(name);
            message.append("` option.");
            Err(message)
        },
    }
}

/// The name that a command's options give to a file, if they give any.
pub open spec fn given_name(options: Seq<CommandOption>) -> Option<Seq<char>> {
    match option_text(options, "name"@) {
        Some(name) if name.len() > 0 => Some(name),
        _ => None,
    }
}

/// The name that a command's options give to a file; an empty one counts as
/// none.
pub fn provided_name(options: &[CommandOption]) -> (r: Option<String>)
    ensures
        match r {
            Some(name) => given_name(options@) == Some(name@),
            None => given_name(options@) is None,
        },
{
    match option_str(options, "name") {
        Some(name) => if name.as_str().is_empty() {
            None
        } else {
            Some(name)
        },
        None => None,
    }
}

/// The name under which an attachment is saved: an explicit `name` overrides
/// the attachment's file name.
pub open spec fn name_of_upload(options: Seq<CommandOption>, filename: Seq<char>) -> Seq<char> {
    match given_name(options) {
        Some(name) => name,
        None => filename,
    }
}

/// The name under which an attachment is saved.
pub fn upload_name(options: &[CommandOption], filename: &str) -> (r: String)
    ensures
        r@ == name_of_upload(options@, filename@),
{
    match provided_name(options) {
        Some(name) => name,
        None => filename.to_owned(),
    }
}

/// The file name of a path, or something to show in its place.
pub open spec fn shown_name(path: Seq<char>, fallback: Seq<char>) -> Seq<char> {
    match path_file_name(path) {
        Some(name) => name,
        None => fallback,
    }
}

/// The file name of a path, or something to show in its place.
pub fn name_to_show(path: &str, fallback: &str) -> (r: String)
    ensures
        r@ == shown_name(path@, fallback@),
{
    match file_name(path) {
        Some(name) => name,
        None => fallback.to_owned(),
    }
}

/// A file found in a directory. A name that is not valid Unicode is `None`.
pub struct StoredFile {
    pub name: Option<String>,
    pub size: u64,
}

/// A file to be listed.
pub struct FileEntry {
    pub name: String,
    pub size: u64,
}

/// What a file to be listed stands for.
pub struct FileView {
    pub name: Seq<char>,
    pub size: u64,
}

impl View for FileEntry {
    type V = FileView;

    open spec fn view(&self) -> FileView {
        FileView { name: self.name@, size: self.size }
    }
}

impl HasName for FileView {
    open spec fn spec_name(&self) -> Seq<char> {
        self.name
    }
}

impl HasName for FileEntry {
    open spec fn spec_name(&self) -> Seq<char> {
        self.name@
    }
}

impl Named for FileEntry {
    fn name(&self) -> (r: &str) {
        self.name.as_str()
    }
}

/// How a file is listed; one without a readable name goes by the fallback.
pub open spec fn listed(file: StoredFile, fallback: Seq<char>) -> FileView {
    FileView {
        name: match file.name {
            Some(name) => name@,
            None => fallback,
        },
        size: file.size,
    }
}

/// The line for a file.
pub open spec fn file_line(file: FileView) -> Seq<char> {
    "- `"@ + file.name + "` ("@ + size_text(file.size as nat) + ")"@
}

/// The lines for some files, sorted by name.
pub open spec fn file_lines(files: Seq<StoredFile>, fallback: Seq<char>) -> Seq<char> {
    let entries = files.map_values(|f: StoredFile| listed(f, fallback));
    join(name_sorted(entries).map_values(|e: FileView| file_line(e)), "\n"@)
}

fn line_of(file: &FileEntry) -> (r: String)
    ensures
        r@ == file_line(file@),
{
    let size = format_size(file.size);
    let mut r = "- `".to_owned();
    r.append(file.name.as_str());
    r.append("` (");
    r.append(size.as_str());
    r.append(")");
    r
}

fn entry_of(file: &StoredFile, fallback: &str) -> (r: FileEntry)
    ensures
        r@ == listed(*file, fallback@),
{
    let name = match &file.name {
        Some(name) => name.clone(),
        None => fallback.to_owned(),
    };
    FileEntry { name, size: file.size }
}

/// Lists files, sorted by name, one to a line.
pub fn list_files(files: &[StoredFile], fallback: &str) -> (r: String)
    ensures
        r@ == file_lines(files@, fallback@),
{
    let ghost views = files@.map_values(|f: StoredFile| listed(f, fallback@));
    let ghost view = |e: FileEntry| e@;
    let mut entries: Vec<FileEntry> = Vec::new();
    assert(entries@.map_values(view) == views.take(0));
    for i in 0..files.len()
        invariant
            view == (|e: FileEntry| e@),
            views == files@.map_values(|f: StoredFile| listed(f, fallback@)),
            entries@.map_values(view) == views.take(i as int),
    {
        let ghost before = entries@;
        let entry = entry_of(&files[i], fallback);
        entries.push(entry);
        assert(entries@.map_values(view) == before.map_values(view).push(entry@));
        assert(views.take(i + 1) == views.take(i as int).push(views[i as int]));
    }
    assert(views.take(files@.len() as int) == views);
    proof {
        law_name_sorted_map(entries@, view);
    }
    let sorted = sort_by_name(entries);
    let ghost sorted_views = name_sorted(views);
    assert(sorted@.map_values(view) == sorted_views);
    let ghost all = sorted_views.map_values(|e: FileView| file_line(e));
    let mut lines: Vec<String> = Vec::new();
    assert(texts(lines@) == all.take(0));
    for i in 0..sorted.len()
        invariant
            view == (|e: FileEntry| e@),
            sorted@.map_values(view) == sorted_views,
            all == sorted_views.map_values(|e: FileView| file_line(e)),
            texts(lines@) == all.take(i as int),
    {
        let ghost before = lines@;
        assert(sorted@.map_values(view)[i as int] == sorted@[i as int]@);
        let line = line_of(&sorted[i]);
        lines.push(line);
        assert(texts(lines@) == texts(before).push(line@));
        assert(all.take(i + 1) == all.take(i as int).push(all[i as int]));
    }
    assert(all.take(sorted@.len() as int) == all);
    joined(lines.as_slice(), "\n")
}

} // verus!
