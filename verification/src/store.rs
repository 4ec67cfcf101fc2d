//! Uploaded datasets, compiled models and the registry of models.

use std::collections::HashMap;

use vstd::prelude::*;

use crate::numbers::decimal;
use crate::numbers::decimal_of;
use crate::paths::file_name;
use crate::paths::is_absolute;
use crate::paths::joined_path;
use crate::paths::parent;
use crate::paths::path_file_name;
use crate::paths::path_join;
use crate::paths::path_parent;
use crate::store_laws::law_paths_stay_absolute;
use crate::store_laws::law_saved_paths_are_absolute;
use crate::text::chars_of;
use crate::text::same_text;
use crate::text::string_of;
use crate::text::texts;
use crate::text::trim;
use crate::text::trimmed;

verus! {

broadcast use vstd::std_specs::hash::group_hash_axioms;

/// Registry metadata for a single trained model.
pub struct ModelMeta {
    pub name: String,
    /// Absolute path to the compiled model binary.
    pub path: String,
    /// Absolute paths to the dataset files that the model was trained on.
    pub datasets: Vec<String>,
    pub owner: u64,
    pub created_at: u64,
    /// The recipe text used to build the model, for reproducibility.
    pub recipe: String,
}

/// What registry metadata stands for.
#[verifier::ext_equal]
pub struct ModelView {
    pub name: Seq<char>,
    pub path: Seq<char>,
    pub datasets: Seq<Seq<char>>,
    pub owner: u64,
    pub created_at: u64,
    pub recipe: Seq<char>,
}

impl View for ModelMeta {
    type V = ModelView;

    open spec fn view(&self) -> ModelView {
        ModelView {
            name: self.name@,
            path: self.path@,
            datasets: texts(self.datasets@),
            owner: self.owner,
            created_at: self.created_at,
            recipe: self.recipe@,
        }
    }
}

impl Clone for ModelMeta {
    fn clone(&self) -> (r: Self)
        ensures
            r@ == self@,
    {
        let datasets = self.datasets.clone();
        assert(texts(datasets@) == texts(self.datasets@));
        ModelMeta {
            name: self.name.clone(),
            path: self.path.clone(),
            datasets,
            owner: self.owner,
            created_at: self.created_at,
            recipe: self.recipe.clone(),
        }
    }
}

/// What a list of models stands for.
pub open spec fn model_views(models: Seq<ModelMeta>) -> Seq<ModelView> {
    models.map_values(|m: ModelMeta| m@)
}

/// Per-namespace model list, and the model that was queried last.
pub struct Registry {
    pub namespaces: HashMap<u64, Vec<ModelMeta>>,
    /// Namespace to name of the most recently queried model.
    pub last_used: HashMap<u64, String>,
}

/// What a registry stands for.
#[verifier::ext_equal]
pub struct RegistryView {
    pub namespaces: Map<u64, Seq<ModelView>>,
    pub last_used: Map<u64, Seq<char>>,
}

impl View for Registry {
    type V = RegistryView;

    open spec fn view(&self) -> RegistryView {
        RegistryView {
            namespaces: self.namespaces@.map_values(|v: Vec<ModelMeta>| model_views(v@)),
            last_used: self.last_used@.map_values(|s: String| s@),
        }
    }
}

impl Default for Registry {
    fn default() -> (r: Self)
        ensures
            r@.namespaces == Map::<u64, Seq<ModelView>>::empty(),
            r@.last_used == Map::<u64, Seq<char>>::empty(),
    {
        let r = Registry { namespaces: HashMap::new(), last_used: HashMap::new() };
        assert(r@.namespaces == Map::<u64, Seq<ModelView>>::empty());
        assert(r@.last_used == Map::<u64, Seq<char>>::empty());
        r
    }
}

/// The position of the first model with the given name, or the length of the
/// list where no model has it.
pub open spec fn index_named(models: Seq<ModelView>, name: Seq<char>) -> nat
    decreases models.len(),
{
    if models.len() == 0 || models[0].name == name {
        0
    } else {
        1 + index_named(models.drop_first(), name)
    }
}

/// The first model with the given name.
pub open spec fn find_named(models: Seq<ModelView>, name: Seq<char>) -> Option<ModelView> {
    let i = index_named(models, name) as int;
    if i < models.len() {
        Some(models[i])
    } else {
        None
    }
}

/// A list in which `meta` has taken the place of the first model of its name,
/// or has been added at the end.
pub open spec fn registered(models: Seq<ModelView>, meta: ModelView) -> Seq<ModelView> {
    let i = index_named(models, meta.name) as int;
    if i < models.len() {
        models.update(i, meta)
    } else {
        models.push(meta)
    }
}

/// A list without the first model of the given name.
pub open spec fn removed(models: Seq<ModelView>, name: Seq<char>) -> Seq<ModelView> {
    let i = index_named(models, name) as int;
    if i < models.len() {
        models.remove(i)
    } else {
        models
    }
}

/// Whether no two models have the same name.
pub open spec fn distinct_names(models: Seq<ModelView>) -> bool {
    forall|i: int, j: int|
        0 <= i < j < models.len() ==> (#[trigger] models[i]).name != (#[trigger] models[j]).name
}

/// `index_named` is the only position that it can be.
pub proof fn lemma_index_named(models: Seq<ModelView>, name: Seq<char>, n: int)
    requires
        0 <= n <= models.len(),
        forall|i: int| 0 <= i < n ==> (#[trigger] models[i]).name != name,
        n == models.len() || models[n].name == name,
    ensures
        index_named(models, name) == n,
    decreases models.len(),
{
    if n > 0 {
        assert(models[0].name != name);
        let tail = models.drop_first();
        assert forall|i: int| 0 <= i < n - 1 implies (#[trigger] tail[i]).name != name by {
            assert(tail[i] == models[i + 1]);
        }
        lemma_index_named(tail, name, n - 1);
    }
}

/// `index_named` is in bounds, and nothing before it has the name.
pub proof fn lemma_index_named_bounds(models: Seq<ModelView>, name: Seq<char>)
    ensures
        index_named(models, name) <= models.len(),
        forall|i: int| 0 <= i < index_named(models, name) ==> (#[trigger] models[i]).name != name,
        index_named(models, name) < models.len() ==> models[index_named(models, name) as int].name
            == name,
    decreases models.len(),
{
    if models.len() > 0 && models[0].name != name {
        let tail = models.drop_first();
        lemma_index_named_bounds(tail, name);
        assert forall|i: int| 0 <= i < index_named(models, name) implies (#[trigger] models[i]).name
            != name by {
            if i > 0 {
                assert(tail[i - 1] == models[i]);
            }
        }
    }
}

fn index_of_name(models: &Vec<ModelMeta>, name: &str) -> (r: usize)
    ensures
        r == index_named(model_views(models@), name@),
        r <= models@.len(),
{
    let mut i: usize = 0;
    let ghost views = model_views(models@);
    while i < models.len() && !same_text(models[i].name.as_str(), name)
        invariant
            views == model_views(models@),
            i <= models@.len(),
            forall|j: int| 0 <= j < i ==> (#[trigger] views[j]).name != name@,
        decreases models@.len() - i,
    {
        assert(views[i as int] == models@[i as int]@);
        i = i + 1;
    }
    proof {
        if i < models@.len() {
            assert(views[i as int] == models@[i as int]@);
        }
        lemma_index_named(views, name@, i as int);
    }
    i
}

/// The rules for what is stored, apart from the files themselves.
pub struct Store {
    root: String,
    registry: Registry,
}

/// What a store stands for.
#[verifier::ext_equal]
pub struct StoreView {
    pub root: Seq<char>,
    pub registry: RegistryView,
}

impl StoreView {
    /// The models of a namespace, none where it has no list.
    pub open spec fn models(self, namespace: u64) -> Seq<ModelView> {
        if self.registry.namespaces.contains_key(namespace) {
            self.registry.namespaces[namespace]
        } else {
            seq![]
        }
    }

    /// The store with another list of models for a namespace.
    pub open spec fn with_models(self, namespace: u64, models: Seq<ModelView>) -> StoreView {
        StoreView {
            registry: RegistryView {
                namespaces: self.registry.namespaces.insert(namespace, models),
                ..self.registry
            },
            ..self
        }
    }

    /// The name of the most recently queried model for a namespace, if any.
    pub open spec fn last_used(self, namespace: u64) -> Option<Seq<char>> {
        if self.registry.last_used.contains_key(namespace) {
            Some(self.registry.last_used[namespace])
        } else {
            None
        }
    }

    /// The store with another most recently queried model for a namespace.
    pub open spec fn with_last_used(self, namespace: u64, name: Seq<char>) -> StoreView {
        StoreView {
            registry: RegistryView {
                last_used: self.registry.last_used.insert(namespace, name),
                ..self.registry
            },
            ..self
        }
    }

    /// The directory of a namespace.
    pub open spec fn namespace_dir(self, namespace: u64) -> Seq<char> {
        path_join(self.root, decimal(namespace as nat))
    }

    /// The directory of a namespace's datasets.
    pub open spec fn datasets_dir(self, namespace: u64) -> Seq<char> {
        path_join(self.namespace_dir(namespace), "datasets"@)
    }

    /// The directory of a namespace's recipes.
    pub open spec fn capacitorfiles_dir(self, namespace: u64) -> Seq<char> {
        path_join(self.namespace_dir(namespace), "capacitorfiles"@)
    }

    /// The directory of a namespace's models.
    pub open spec fn models_dir(self, namespace: u64) -> Seq<char> {
        path_join(self.namespace_dir(namespace), "models"@)
    }

    /// The file of a model.
    pub open spec fn model_path(self, namespace: u64, model: Seq<char>) -> Seq<char> {
        path_join(self.models_dir(namespace), model + ".capacitor"@)
    }
}

impl View for Store {
    type V = StoreView;

    closed spec fn view(&self) -> StoreView {
        StoreView { root: self.root@, registry: self.registry@ }
    }
}

impl Store {
    /// A store rooted at `root`, with the registry that was found there. `root`
    /// is to be an absolute path: then every path that the store gives is
    /// absolute too, see `law_paths_stay_absolute`.
    pub fn new(root: String, registry: Registry) -> (r: Self)
        ensures
            r@ == (StoreView { root: root@, registry: registry@ }),
    {
        Store { root, registry }
    }

    /// The file that holds the registry.
    pub fn registry_path(&self) -> (r: String)
        ensures
            r@ == path_join(self@.root, "registry.json"@),
    {
        joined_path(self.root.as_str(), "registry.json")
    }

    /// The registry, to be written out after a change. A store that is opened
    /// over the same registry is the same store, see
    /// `law_reopened_store_is_the_same`; the form that the file has is left to
    /// the program that writes it.
    pub fn registry(&self) -> (r: &Registry)
        ensures
            r@ == self@.registry,
    {
        &self.registry
    }

    /// The directory of a namespace.
    pub fn namespace_dir(&self, namespace: u64) -> (r: String)
        ensures
            r@ == self@.namespace_dir(namespace),
    {
        let name = decimal_of(namespace);
        joined_path(self.root.as_str(), name.as_str())
    }

    /// The directory of a namespace's datasets.
    pub fn datasets_dir(&self, namespace: u64) -> (r: String)
        ensures
            r@ == self@.datasets_dir(namespace),
    {
        let dir = self.namespace_dir(namespace);
        joined_path(dir.as_str(), "datasets")
    }

    /// The directory of a namespace's recipes.
    pub fn capacitorfiles_dir(&self, namespace: u64) -> (r: String)
        ensures
            r@ == self@.capacitorfiles_dir(namespace),
    {
        let dir = self.namespace_dir(namespace);
        joined_path(dir.as_str(), "capacitorfiles")
    }

    /// The directory of a namespace's models.
    pub fn models_dir(&self, namespace: u64) -> (r: String)
        ensures
            r@ == self@.models_dir(namespace),
    {
        let dir = self.namespace_dir(namespace);
        joined_path(dir.as_str(), "models")
    }

    /// The file that a model of the given name is written to.
    pub fn model_path(&self, namespace: u64, model: &str) -> (r: String)
        ensures
            r@ == self@.model_path(namespace, model@),
            is_absolute(self@.root) ==> is_absolute(r@),
    {
        proof {
            if is_absolute(self@.root) {
                law_paths_stay_absolute(self@, namespace, model@);
            }
        }
        let dir = self.models_dir(namespace);
        let mut name = model.to_owned();
        name.append(".capacitor");
        joined_path(dir.as_str(), name.as_str())
    }

    /// Where an uploaded attachment is persisted as a dataset: the first free
    /// one of the candidates that the search goes through, each an absolute
    /// path where the store's root is one.
    pub fn save_dataset(&self, namespace: u64, filename: &str) -> (r: UniquePath)
        ensures
            r.wanted() == path_join(self@.datasets_dir(namespace), sanitized(filename@)),
            r.attempt() == 0,
            is_absolute(self@.root) ==> forall|n: nat|
                is_absolute(#[trigger] candidate_path(r.wanted(), n)),
    {
        proof {
            if is_absolute(self@.root) {
                law_paths_stay_absolute(self@, namespace, seq![]);
                law_saved_paths_are_absolute(self@.datasets_dir(namespace), filename@);
            }
        }
        let dir = self.datasets_dir(namespace);
        let safe = sanitize_filename(filename);
        unique_path(joined_path(dir.as_str(), safe.as_str()))
    }

    /// The path of the dataset with the given name (exact, sanitized), where
    /// `entries` are the file names found in the datasets directory. `None` if
    /// no dataset matches.
    pub fn find_dataset(&self, namespace: u64, name: &str, entries: &Vec<Option<String>>) -> (r:
        Option<String>)
        ensures
            match r {
                Some(path) => found_in(
                    self@.datasets_dir(namespace),
                    name@,
                    entry_names(entries@),
                ) == Some(path@),
                None => found_in(
                    self@.datasets_dir(namespace),
                    name@,
                    entry_names(entries@),
                ) is None,
            },
    {
        let dir = self.datasets_dir(namespace);
        find_in(dir.as_str(), name, entries)
    }

    /// The paths of the dataset files of a namespace, where `entries` are the
    /// file names found in the datasets directory, none where there is no such
    /// directory.
    pub fn list_datasets(&self, namespace: u64, entries: &Vec<Option<String>>) -> (r: Vec<
        Option<String>,
    >)
        ensures
            entry_names(r@) == paths_in(self@.datasets_dir(namespace), entry_names(entries@)),
    {
        let dir = self.datasets_dir(namespace);
        list_in(dir.as_str(), entries)
    }

    /// Where a recipe is persisted: the first free one of the candidates that
    /// the search goes through, each an absolute path where the store's root is
    /// one.
    pub fn save_capacitorfile(&self, namespace: u64, filename: &str) -> (r: UniquePath)
        ensures
            r.wanted() == path_join(self@.capacitorfiles_dir(namespace), sanitized(filename@)),
            r.attempt() == 0,
            is_absolute(self@.root) ==> forall|n: nat|
                is_absolute(#[trigger] candidate_path(r.wanted(), n)),
    {
        proof {
            if is_absolute(self@.root) {
                law_paths_stay_absolute(self@, namespace, seq![]);
                law_saved_paths_are_absolute(self@.capacitorfiles_dir(namespace), filename@);
            }
        }
        let dir = self.capacitorfiles_dir(namespace);
        let safe = sanitize_filename(filename);
        unique_path(joined_path(dir.as_str(), safe.as_str()))
    }

    /// The path of the recipe with the given name (exact, sanitized), where
    /// `entries` are the file names found in the recipes directory. `None` if
    /// no recipe matches.
    pub fn find_capacitorfile(&self, namespace: u64, name: &str, entries: &Vec<Option<String>>) -> (r:
        Option<String>)
        ensures
            match r {
                Some(path) => exactly_in(
                    self@.capacitorfiles_dir(namespace),
                    name@,
                    entry_names(entries@),
                ) == Some(path@),
                None => exactly_in(
                    self@.capacitorfiles_dir(namespace),
                    name@,
                    entry_names(entries@),
                ) is None,
            },
    {
        let dir = self.capacitorfiles_dir(namespace);
        find_exactly_in(dir.as_str(), name, entries)
    }

    /// The paths of the recipes of a namespace, where `entries` are the file
    /// names found in the recipes directory, none where there is no such
    /// directory.
    pub fn list_capacitorfiles(&self, namespace: u64, entries: &Vec<Option<String>>) -> (r: Vec<
        Option<String>,
    >)
        ensures
            entry_names(r@) == paths_in(
                self@.capacitorfiles_dir(namespace),
                entry_names(entries@),
            ),
    {
        let dir = self.capacitorfiles_dir(namespace);
        list_in(dir.as_str(), entries)
    }

    /// Records the name of the most recently queried model for a namespace.
    pub fn set_last_used(&mut self, namespace: u64, name: &str)
        ensures
            final(self)@ == old(self)@.with_last_used(namespace, name@),
    {
        self.registry.last_used.insert(namespace, name.to_owned());
        assert(self@.registry.last_used == old(self)@.registry.last_used.insert(namespace, name@));
    }

    /// Name of the most recently queried model for a namespace, if any.
    pub fn last_used(&self, namespace: u64) -> (r: Option<String>)
        ensures
            match r {
                Some(name) => self@.last_used(namespace) == Some(name@),
                None => self@.last_used(namespace) is None,
            },
    {
        match self.registry.last_used.get(&namespace) {
            Some(name) => {
                assert(self@.registry.last_used[namespace] == name@);
                Some(name.clone())
            },
            None => None,
        }
    }

    /// Registers a freshly built model.
    pub fn register_model(&mut self, namespace: u64, meta: ModelMeta)
        ensures
            final(self)@ == old(self)@.with_models(
                namespace,
                registered(old(self)@.models(namespace), meta@),
            ),
    {
        let mut models = match self.registry.namespaces.remove(&namespace) {
            Some(models) => models,
            None => Vec::new(),
        };
        let ghost before = model_views(models@);
        assert(before == old(self)@.models(namespace));
        let i: usize = index_of_name(&models, meta.name.as_str());
        if i < models.len() {
            models[i] = meta;
            assert(model_views(models@) == before.update(i as int, meta@));
        } else {
            models.push(meta);
            assert(model_views(models@) == before.push(meta@));
        }
        self.registry.namespaces.insert(namespace, models);
        assert(self@.registry.namespaces == old(self)@.registry.namespaces.insert(
            namespace,
            registered(before, meta@),
        ));
    }

    /// Lists the models of a namespace.
    pub fn list(&self, namespace: u64) -> (r: Vec<ModelMeta>)
        ensures
            model_views(r@) == self@.models(namespace),
    {
        match self.registry.namespaces.get(&namespace) {
            Some(models) => {
                let r = models.clone();
                assert(model_views(r@) == model_views(models@));
                assert(self@.registry.namespaces[namespace] == model_views(models@));
                r
            },
            None => {
                let r: Vec<ModelMeta> = Vec::new();
                assert(model_views(r@) == Seq::<ModelView>::empty());
                r
            },
        }
    }

    /// Looks up a model by name for a namespace.
    pub fn get(&self, namespace: u64, name: &str) -> (r: Option<ModelMeta>)
        ensures
            match r {
                Some(meta) => find_named(self@.models(namespace), name@) == Some(meta@),
                None => find_named(self@.models(namespace), name@) is None,
            },
    {
        match self.registry.namespaces.get(&namespace) {
            Some(models) => {
                assert(self@.registry.namespaces[namespace] == model_views(models@));
                let i: usize = index_of_name(models, name);
                if i < models.len() {
                    Some(models[i].clone())
                } else {
                    None
                }
            },
            None => None,
        }
    }

    /// Removes a model's registry entry and hands it back, so that its binary
    /// can be removed too. `None` if there was no such entry.
    pub fn delete(&mut self, namespace: u64, name: &str) -> (r: Option<ModelMeta>)
        ensures
            match r {
                Some(meta) => {
                    &&& find_named(old(self)@.models(namespace), name@) == Some(meta@)
                    &&& final(self)@ == old(self)@.with_models(
                        namespace,
                        removed(old(self)@.models(namespace), name@),
                    )
                },
                None => {
                    &&& find_named(old(self)@.models(namespace), name@) is None
                    &&& final(self)@ == old(self)@
                },
            },
    {
        let mut models = match self.registry.namespaces.remove(&namespace) {
            Some(models) => models,
            None => {
                assert(self@.registry.namespaces == old(self)@.registry.namespaces);
                return None;
            },
        };
        let ghost before = model_views(models@);
        assert(before == old(self)@.models(namespace));
        let i: usize = index_of_name(&models, name);
        if i < models.len() {
            let meta = models.remove(i);
            assert(before[i as int] == meta@);
            assert(model_views(models@) == before.remove(i as int));
            self.registry.namespaces.insert(namespace, models);
            assert(self@.registry.namespaces == old(self)@.registry.namespaces.insert(
                namespace,
                removed(before, name@),
            ));
            Some(meta)
        } else {
            self.registry.namespaces.insert(namespace, models);
            assert(self@.registry.namespaces == old(self)@.registry.namespaces);
            None
        }
    }
}

/// Whether a character may stand in a stored file's name: a printable ASCII
/// character other than the space and the path separators.
pub open spec fn is_safe(c: char) -> bool {
    '!' <= c <= '~' && c != '/' && c != '\\'
}

/// Whether a character is dropped from the ends of a stored file's name.
pub open spec fn is_mark(c: char) -> bool {
    c == '.' || c == '_'
}

/// A text without the marks at its end.
pub open spec fn strip_marks_end(s: Seq<char>) -> Seq<char>
    decreases s.len(),
{
    if s.len() > 0 && is_mark(s.last()) {
        strip_marks_end(s.drop_last())
    } else {
        s
    }
}

/// A text without the marks at its beginning.
pub open spec fn strip_marks_start(s: Seq<char>) -> Seq<char>
    decreases s.len(),
{
    if s.len() > 0 && is_mark(s[0]) {
        strip_marks_start(s.drop_first())
    } else {
        s
    }
}

/// A text with `_` in place of each character that is not safe.
pub open spec fn with_safe_chars(s: Seq<char>) -> Seq<char> {
    s.map_values(
        |c: char|
            if is_safe(c) {
                c
            } else {
                '_'
            },
    )
}

/// The name under which a file is stored.
pub open spec fn sanitized(name: Seq<char>) -> Seq<char> {
    let cleaned = strip_marks_end(strip_marks_start(with_safe_chars(trim(name))));
    if cleaned.len() == 0 {
        "dataset"@
    } else {
        cleaned
    }
}

/// Derives a filesystem-safe name from a raw file name: one that names a file
/// directly below whatever directory it is joined to.
pub fn sanitize_filename(name: &str) -> (r: String)
    ensures
        r@ == sanitized(name@),
{
    let chars = chars_of(name);
    let raw = trimmed(chars.as_slice());
    let mut cleaned: Vec<char> = Vec::new();
    for i in 0..raw.len()
        invariant
            cleaned@ == with_safe_chars(raw@.take(i as int)),
    {
        let c = raw[i];
        cleaned.push(
            if '!' <= c && c <= '~' && c != '/' && c != '\\' {
                c
            } else {
                '_'
            },
        );
        assert(with_safe_chars(raw@.take(i + 1)) == with_safe_chars(raw@.take(i as int)).push(
            cleaned@.last(),
        ));
    }
    assert(raw@.take(raw@.len() as int) == raw@);
    let ghost all = cleaned@;
    let mut start: usize = 0;
    assert(all.skip(0) == all);
    while start < cleaned.len() && (cleaned[start] == '.' || cleaned[start] == '_')
        invariant
            cleaned@ == all,
            start <= all.len(),
            strip_marks_start(all) == strip_marks_start(all.skip(start as int)),
        decreases all.len() - start,
    {
        assert(all.skip(start as int).drop_first() == all.skip(start + 1));
        start = start + 1;
    }
    let ghost rest = all.skip(start as int);
    assert(strip_marks_start(all) == rest);
    let mut end: usize = cleaned.len();
    assert(rest.take(rest.len() as int) == rest);
    while start < end && (cleaned[end - 1] == '.' || cleaned[end - 1] == '_')
        invariant
            cleaned@ == all,
            start <= end <= all.len(),
            rest == all.skip(start as int),
            strip_marks_end(rest) == strip_marks_end(rest.take(end - start)),
        decreases end,
    {
        assert(rest.take(end - start).drop_last() == rest.take(end - start - 1));
        assert(rest.take(end - start).last() == all[end - 1]);
        end = end - 1;
    }
    let kept = vstd::slice::slice_subrange(cleaned.as_slice(), start, end);
    assert(kept@ == rest.take(end - start));
    if kept.len() > 0 {
        assert(kept@.last() == all[end - 1]);
    }
    assert(kept@ == strip_marks_end(rest));
    if kept.len() == 0 {
        "dataset".to_owned()
    } else {
        string_of(kept)
    }
}

/// The file names of a directory listing. A name that is not valid Unicode is
/// `None`.
pub open spec fn entry_names(entries: Seq<Option<String>>) -> Seq<Option<Seq<char>>> {
    entries.map_values(
        |e: Option<String>|
            match e {
                Some(s) => Some(s@),
                None => None,
            },
    )
}

/// Whether a stored file goes by the given name.
pub open spec fn entry_matches(entry: Option<Seq<char>>, wanted: Seq<char>) -> bool {
    entry == Some(wanted) || entry == Some(wanted + ".dataset"@)
}

/// The first entry that goes by the given name.
pub open spec fn first_match(entries: Seq<Option<Seq<char>>>, wanted: Seq<char>) -> Option<nat>
    decreases entries.len(),
{
    if entries.len() == 0 {
        None
    } else if entry_matches(entries[0], wanted) {
        Some(0nat)
    } else {
        match first_match(entries.drop_first(), wanted) {
            Some(n) => Some(n + 1),
            None => None,
        }
    }
}

/// `first_match` is the least position that matches.
pub proof fn lemma_first_match(entries: Seq<Option<Seq<char>>>, wanted: Seq<char>)
    ensures
        match first_match(entries, wanted) {
            Some(n) => {
                &&& n < entries.len()
                &&& entry_matches(entries[n as int], wanted)
                &&& forall|i: int| 0 <= i < n ==> !entry_matches(#[trigger] entries[i], wanted)
            },
            None => forall|i: int|
                0 <= i < entries.len() ==> !entry_matches(#[trigger] entries[i], wanted),
        },
    decreases entries.len(),
{
    if entries.len() > 0 && !entry_matches(entries[0], wanted) {
        let tail = entries.drop_first();
        lemma_first_match(tail, wanted);
        assert forall|i: int| 1 <= i < entries.len() implies #[trigger] entries[i] == tail[i
            - 1] by {}
    }
}

/// Finds the entry of a directory listing that goes by the given name, once
/// that is sanitized.
pub fn find_entry(entries: &Vec<Option<String>>, name: &str) -> (r: Option<usize>)
    ensures
        match r {
            Some(i) => first_match(entry_names(entries@), sanitized(name@)) == Some(i as nat),
            None => first_match(entry_names(entries@), sanitized(name@)) is None,
        },
{
    let wanted = sanitize_filename(name);
    let mut suffixed = wanted.clone();
    suffixed.append(".dataset");
    let ghost names = entry_names(entries@);
    proof {
        lemma_first_match(names, wanted@);
    }
    for i in 0..entries.len()
        invariant
            names == entry_names(entries@),
            wanted@ == sanitized(name@),
            suffixed@ == wanted@ + ".dataset"@,
            forall|j: int| 0 <= j < i ==> !entry_matches(#[trigger] names[j], wanted@),
    {
        match &entries[i] {
            Some(entry) => {
                assert(names[i as int] == Some(entry@));
                if *entry == wanted || *entry == suffixed {
                    proof {
                        lemma_first_match(names, wanted@);
                    }
                    return Some(i);
                }
            },
            None => {
                assert(names[i as int] is None);
            },
        }
    }
    proof {
        lemma_first_match(names, wanted@);
    }
    None
}

/// The path of the first file in the directory `dir` that goes by the given
/// name, once that is sanitized, where `names` are the file names found there.
pub open spec fn found_in(
    dir: Seq<char>,
    name: Seq<char>,
    names: Seq<Option<Seq<char>>>,
) -> Option<Seq<char>> {
    match first_match(names, sanitized(name)) {
        Some(i) => Some(path_join(dir, names[i as int]->0)),
        None => None,
    }
}

/// The path of the file in the directory `dir` that has the given name, once
/// that is sanitized, where `names` are the file names found there.
pub open spec fn exactly_in(
    dir: Seq<char>,
    name: Seq<char>,
    names: Seq<Option<Seq<char>>>,
) -> Option<Seq<char>> {
    if names.contains(Some(sanitized(name))) {
        Some(path_join(dir, sanitized(name)))
    } else {
        None
    }
}

/// The paths of the files in the directory `dir`, where `names` are the file
/// names found there. A file whose name is not valid Unicode has none.
pub open spec fn paths_in(dir: Seq<char>, names: Seq<Option<Seq<char>>>) -> Seq<
    Option<Seq<char>>,
> {
    names.map_values(
        |name: Option<Seq<char>>|
            match name {
                Some(name) => Some(path_join(dir, name)),
                None => None,
            },
    )
}

fn find_in(dir: &str, name: &str, entries: &Vec<Option<String>>) -> (r: Option<String>)
    ensures
        match r {
            Some(path) => found_in(dir@, name@, entry_names(entries@)) == Some(path@),
            None => found_in(dir@, name@, entry_names(entries@)) is None,
        },
{
    proof {
        lemma_first_match(entry_names(entries@), sanitized(name@));
    }
    match find_entry(entries, name) {
        Some(i) => match &entries[i] {
            Some(entry) => {
                assert(entry_names(entries@)[i as int] == Some(entry@));
                Some(joined_path(dir, entry.as_str()))
            },
            None => {
                assert(entry_names(entries@)[i as int] is None);
                None
            },
        },
        None => None,
    }
}

fn find_exactly_in(dir: &str, name: &str, entries: &Vec<Option<String>>) -> (r: Option<String>)
    ensures
        match r {
            Some(path) => exactly_in(dir@, name@, entry_names(entries@)) == Some(path@),
            None => exactly_in(dir@, name@, entry_names(entries@)) is None,
        },
{
    let wanted = sanitize_filename(name);
    let ghost names = entry_names(entries@);
    for i in 0..entries.len()
        invariant
            names == entry_names(entries@),
            wanted@ == sanitized(name@),
            forall|j: int| 0 <= j < i ==> #[trigger] names[j] != Some(wanted@),
    {
        match &entries[i] {
            Some(entry) => {
                assert(names[i as int] == Some(entry@));
                if *entry == wanted {
                    return Some(joined_path(dir, wanted.as_str()));
                }
            },
            None => {
                assert(names[i as int] is None);
            },
        }
    }
    None
}

fn list_in(dir: &str, entries: &Vec<Option<String>>) -> (r: Vec<Option<String>>)
    ensures
        entry_names(r@) == paths_in(dir@, entry_names(entries@)),
{
    let ghost paths = paths_in(dir@, entry_names(entries@));
    let mut r: Vec<Option<String>> = Vec::new();
    assert(entry_names(r@) == paths.take(0));
    for i in 0..entries.len()
        invariant
            paths == paths_in(dir@, entry_names(entries@)),
            entry_names(r@) == paths.take(i as int),
    {
        let ghost before = r@;
        let path = match &entries[i] {
            Some(name) => {
                assert(entry_names(entries@)[i as int] == Some(name@));
                Some(joined_path(dir, name.as_str()))
            },
            None => None,
        };
        r.push(path);
        assert(entry_names(r@) == entry_names(before).push(paths[i as int]));
        assert(paths.take(i + 1) == paths.take(i as int).push(paths[i as int]));
    }
    assert(paths.take(entries@.len() as int) == paths);
    r
}

/// The `n`-th path to try for a file: the wanted path itself, then the path
/// with `.1`, `.2` and so on behind its file name.
pub open spec fn candidate_path(path: Seq<char>, n: nat) -> Seq<char> {
    if n == 0 {
        path
    } else {
        let name = match path_file_name(path) {
            Some(name) => name,
            None => "file"@,
        };
        let dir = match path_parent(path) {
            Some(dir) => dir,
            None => seq![],
        };
        path_join(dir, name + "."@ + decimal(n))
    }
}

/// A search for a path at which no file exists yet.
pub struct UniquePath {
    path: String,
    tried: u64,
}

impl UniquePath {
    /// The path that was asked for.
    pub closed spec fn wanted(&self) -> Seq<char> {
        self.path@
    }

    /// How many candidates have been found taken.
    pub closed spec fn attempt(&self) -> nat {
        self.tried as nat
    }

    /// The path to try now.
    pub fn candidate(&self) -> (r: String)
        ensures
            r@ == candidate_path(self.wanted(), self.attempt()),
    {
        if self.tried == 0 {
            return self.path.clone();
        }
        let mut name = match file_name(self.path.as_str()) {
            Some(name) => name,
            None => "file".to_owned(),
        };
        let dir = match parent(self.path.as_str()) {
            Some(dir) => dir,
            None => String::new(),
        };
        let number = decimal_of(self.tried);
        name.append(".");
        name.append(number.as_str());
        joined_path(dir.as_str(), name.as_str())
    }

    /// Goes on to the next candidate, as the present one is taken.
    pub fn taken(&mut self)
        requires
            old(self).attempt() < u64::MAX,
        ensures
            final(self).wanted() == old(self).wanted(),
            final(self).attempt() == old(self).attempt() + 1,
    {
        self.tried = self.tried + 1;
    }
}

/// Starts the search for a free path: a numeric suffix is appended until the
/// path is free.
pub fn unique_path(path: String) -> (r: UniquePath)
    ensures
        r.wanted() == path@,
        r.attempt() == 0,
{
    UniquePath { path, tried: 0 }
}

} // verus!
