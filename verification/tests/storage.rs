use std::sync::Arc;

use capacitor_bot::query::ModelCache;
use capacitor_bot::query::QueryEngine;
use capacitor_bot::store::find_entry;
use capacitor_bot::store::sanitize_filename;
use capacitor_bot::store::unique_path;
use capacitor_bot::store::ModelMeta;
use capacitor_bot::store::Registry;
use capacitor_bot::store::Store;

fn model(name: &str, owner: u64) -> ModelMeta {
    ModelMeta {
        name: name.to_string(),
        path: format!("/m/{name}"),
        datasets: Vec::new(),
        owner,
        created_at: 1,
        recipe: String::new(),
    }
}

fn empty_store() -> Store {
    Store::new("root".to_string(), Registry::default())
}

fn names(models: &[ModelMeta]) -> Vec<String> {
    models.iter().map(|m| m.name.clone()).collect()
}

#[test]
fn directories_lie_below_the_root() {
    let store = empty_store();
    assert_eq!(store.namespace_dir(12), "root/12");
    assert_eq!(store.datasets_dir(12), "root/12/datasets");
    assert_eq!(store.models_dir(12), "root/12/models");
    assert_eq!(store.model_path(12, "m"), "root/12/models/m.capacitor");
    assert_eq!(store.registry_path(), "root/registry.json");
}

#[test]
fn a_registered_model_is_found_in_its_namespace() {
    let mut store = empty_store();
    store.register_model(1, model("a", 5));
    assert_eq!(store.get(1, "a").unwrap().owner, 5);
    assert!(store.get(1, "b").is_none());
    assert!(store.get(2, "a").is_none());
    assert!(store.list(2).is_empty());
}

#[test]
fn registering_again_replaces_the_model() {
    let mut store = empty_store();
    store.register_model(1, model("a", 5));
    store.register_model(1, model("b", 6));
    store.register_model(1, model("a", 7));
    assert_eq!(names(&store.list(1)), ["a", "b"]);
    assert_eq!(store.get(1, "a").unwrap().owner, 7);
}

#[test]
fn deleting_undoes_registering() {
    let mut store = empty_store();
    store.register_model(1, model("a", 5));
    store.register_model(1, model("b", 6));
    assert_eq!(store.delete(1, "b").unwrap().path, "/m/b");
    assert_eq!(names(&store.list(1)), ["a"]);
    assert!(store.delete(1, "b").is_none());
    assert!(store.delete(2, "a").is_none());
}

#[test]
fn the_last_used_model_is_kept_for_each_namespace() {
    let mut store = empty_store();
    assert_eq!(store.last_used(1), None);
    store.set_last_used(1, "a");
    store.set_last_used(2, "b");
    store.set_last_used(1, "c");
    assert_eq!(store.last_used(1), Some("c".to_string()));
    assert_eq!(store.last_used(2), Some("b".to_string()));
    assert_eq!(store.registry().last_used.len(), 2);
}

#[test]
fn names_are_made_safe() {
    assert_eq!(sanitize_filename("corpus.txt"), "corpus.txt");
    assert_eq!(sanitize_filename("  my file.txt\n"), "my_file.txt");
    assert_eq!(sanitize_filename("._x_."), "x");
    assert_eq!(sanitize_filename("äö"), "dataset");
    assert_eq!(sanitize_filename(""), "dataset");
    assert_eq!(sanitize_filename(" . "), "dataset");
    assert_eq!(sanitize_filename("a\u{e4}b"), "a_b");
    assert_eq!(sanitize_filename("a~!{}b"), "a~!{}b");
    assert_eq!(sanitize_filename("a\u{7f}b"), "a_b");
    assert_eq!(sanitize_filename("a/b"), "a_b");
    assert_eq!(sanitize_filename("a\\b"), "a_b");
    assert_eq!(sanitize_filename("../../etc/x"), "etc_x");
    assert_eq!(sanitize_filename("/"), "dataset");
    assert_eq!(sanitize_filename(".."), "dataset");
}

#[test]
fn a_saved_file_stays_in_its_directory() {
    let store = Store::new("/srv/bot".to_string(), Registry::default());
    for name in ["../../etc/x", "/etc/x", "..", "a/b", "C:\\x", ""] {
        let mut path = store.save_dataset(1, name);
        for _ in 0..3 {
            let candidate = path.candidate();
            let parent = std::path::Path::new(&candidate).parent().unwrap();
            assert_eq!(parent.to_str().unwrap(), "/srv/bot/1/datasets");
            path.taken();
        }
    }
}

#[test]
fn making_safe_agrees_with_std() {
    for n in 0..0x3000u32 {
        if let Some(c) = char::from_u32(n) {
            let separator = c == '/' || c == '\\';
            let kept = c.is_ascii_alphanumeric() || c.is_ascii_punctuation();
            let expected: String = if kept && !separator {
                c.to_string()
            } else {
                "_".to_string()
            };
            assert_eq!(sanitize_filename(&format!("a{c}b")), format!("a{expected}b"), "{n:x}");
        }
    }
}

#[test]
fn making_safe_twice_changes_nothing() {
    for s in ["", "._a_.", "x y", "__", "dataset", "..a b..", "/a/b/"] {
        let once = sanitize_filename(s);
        assert_eq!(sanitize_filename(&once), once);
    }
}

fn entries(names: &[&str]) -> Vec<Option<String>> {
    names.iter().map(|n| Some(n.to_string())).collect()
}

#[test]
fn a_dataset_is_found_by_its_name() {
    let store = empty_store();
    let entries = entries(&["x", "my_file.txt", "y.dataset", "y"]);
    assert_eq!(
        store.find_dataset(3, "my file.txt", &entries),
        Some("root/3/datasets/my_file.txt".to_string())
    );
    assert_eq!(
        store.find_dataset(3, "y", &entries),
        Some("root/3/datasets/y.dataset".to_string())
    );
    assert_eq!(store.find_dataset(3, "z", &entries), None);
    assert_eq!(store.find_dataset(3, "z", &Vec::new()), None);
}

#[test]
fn unreadable_entries_are_passed_over() {
    let entries = vec![None, Some("a".to_string())];
    assert_eq!(find_entry(&entries, "a"), Some(1));
    assert_eq!(find_entry(&entries, ".dataset"), None);
    assert_eq!(
        empty_store().list_datasets(3, &entries),
        [None, Some("root/3/datasets/a".to_string())]
    );
}

#[test]
fn an_upload_goes_to_the_datasets_directory() {
    let store = empty_store();
    assert_eq!(store.save_dataset(3, "a b").candidate(), "root/3/datasets/a_b");
}

#[test]
fn a_taken_path_gets_a_number() {
    let mut path = unique_path("d/a.txt".to_string());
    assert_eq!(path.candidate(), "d/a.txt");
    path.taken();
    assert_eq!(path.candidate(), "d/a.txt.1");
    path.taken();
    assert_eq!(path.candidate(), "d/a.txt.2");
    for _ in 0..8 {
        path.taken();
    }
    assert_eq!(path.candidate(), "d/a.txt.10");
}

#[test]
fn a_path_without_a_file_name_is_numbered_too() {
    let mut path = unique_path("..".to_string());
    path.taken();
    assert_eq!(path.candidate(), "file.1");
    let mut path = unique_path("a".to_string());
    path.taken();
    assert_eq!(path.candidate(), "a.1");
}

#[test]
fn the_cache_drops_the_oldest_model() {
    let mut cache: ModelCache<u32> = ModelCache::new(2);
    cache.insert(1, "a".to_string(), 10);
    cache.insert(1, "b".to_string(), 11);
    assert_eq!(cache.get(1, "a"), Some(&10));
    cache.insert(1, "c".to_string(), 12);
    assert_eq!(cache.get(1, "a"), None);
    assert_eq!(cache.get(1, "b"), Some(&11));
    assert_eq!(cache.get(1, "c"), Some(&12));
}

#[test]
fn a_cached_model_is_not_replaced() {
    let mut cache: ModelCache<u32> = ModelCache::new(2);
    cache.insert(1, "a".to_string(), 10);
    cache.insert(1, "a".to_string(), 99);
    assert_eq!(cache.get(1, "a"), Some(&10));
    assert_eq!(cache.get(2, "a"), None);
    assert_eq!(cache.get(1, "A"), None);
}

#[test]
fn an_engine_keeps_one_semaphore_for_each_namespace() {
    let mut engine: QueryEngine<u32> = QueryEngine::new(3, 1);
    let first = engine.semaphore(5);
    assert_eq!(first.available_permits(), 3);
    let again = engine.semaphore(5);
    assert!(Arc::ptr_eq(&first, &again));
    let other = engine.semaphore(6);
    assert!(!Arc::ptr_eq(&first, &other));
    let permit = first.try_acquire().unwrap();
    assert_eq!(again.available_permits(), 2);
    assert_eq!(other.available_permits(), 3);
    drop(permit);
}

#[test]
fn an_engine_allows_at_least_one_query() {
    let mut engine: QueryEngine<u32> = QueryEngine::new(0, 0);
    assert_eq!(engine.per_guild_limit(), 1);
    assert_eq!(engine.semaphore(1).available_permits(), 1);
    engine.model_loaded(1, "a".to_string(), 10);
    assert_eq!(engine.cached_model(1, "a"), Some(&10));
    engine.model_loaded(1, "b".to_string(), 11);
    assert_eq!(engine.cached_model(1, "a"), None);
    assert_eq!(engine.cached_model(1, "b"), Some(&11));
}

#[test]
fn a_dataset_is_found_under_the_name_that_is_shown() {
    let store = empty_store();
    let mut path = store.save_dataset(3, "my file.txt");
    path.taken();
    let saved = path.candidate();
    assert_eq!(saved, "root/3/datasets/my_file.txt.1");
    let entries = entries(&["my_file.txt", "my_file.txt.1"]);
    assert_eq!(store.find_dataset(3, "my_file.txt.1", &entries), Some(saved));
}

#[test]
fn an_absolute_root_gives_absolute_paths() {
    let store = Store::new("/srv/bot".to_string(), Registry::default());
    assert_eq!(store.datasets_dir(1), "/srv/bot/1/datasets");
    assert_eq!(store.model_path(1, "m"), "/srv/bot/1/models/m.capacitor");
    let mut path = store.save_dataset(1, "a");
    path.taken();
    assert_eq!(path.candidate(), "/srv/bot/1/datasets/a.1");
}

#[test]
fn namespaces_have_their_own_directories() {
    let store = empty_store();
    assert_ne!(store.datasets_dir(1), store.datasets_dir(11));
    assert_ne!(store.datasets_dir(1), store.models_dir(1));
}

#[test]
fn recipes_have_their_own_directory() {
    let store = empty_store();
    assert_eq!(store.capacitorfiles_dir(3), "root/3/capacitorfiles");
    assert_ne!(store.capacitorfiles_dir(3), store.datasets_dir(3));
    let mut path = store.save_capacitorfile(3, "my recipe");
    assert_eq!(path.candidate(), "root/3/capacitorfiles/my_recipe");
    path.taken();
    assert_eq!(path.candidate(), "root/3/capacitorfiles/my_recipe.1");
    let entries = entries(&["x", "my_recipe"]);
    assert_eq!(
        store.find_capacitorfile(3, "my recipe", &entries),
        Some("root/3/capacitorfiles/my_recipe".to_string())
    );
    assert_eq!(store.find_capacitorfile(3, "y", &entries), None);
    let suffixed = vec![Some("y.dataset".to_string()), None];
    assert_eq!(store.find_capacitorfile(3, "y", &suffixed), None);
    assert_eq!(
        store.list_capacitorfiles(3, &entries),
        [
            Some("root/3/capacitorfiles/x".to_string()),
            Some("root/3/capacitorfiles/my_recipe".to_string())
        ]
    );
}

#[test]
fn saving_adds_one_path_to_the_listing() {
    let store = empty_store();
    let before = entries(&["a", "b"]);
    let mut path = store.save_dataset(3, "a");
    while store.list_datasets(3, &before).contains(&Some(path.candidate())) {
        path.taken();
    }
    let saved = path.candidate();
    assert_eq!(saved, "root/3/datasets/a.1");
    let mut listing = store.list_datasets(3, &before);
    listing.push(Some(saved.clone()));
    let after = entries(&["a", "b", "a.1"]);
    assert_eq!(store.list_datasets(3, &after), listing);
    assert_eq!(store.find_dataset(3, "a.1", &after), Some(saved));
    assert!(store.list_datasets(3, &Vec::new()).is_empty());
}

#[test]
fn a_store_over_the_same_registry_is_the_same() {
    let mut store = empty_store();
    store.register_model(1, model("b", 5));
    store.register_model(1, model("a", 6));
    store.set_last_used(1, "b");
    let registry = Registry {
        namespaces: store.registry().namespaces.clone(),
        last_used: store.registry().last_used.clone(),
    };
    let reopened = Store::new("root".to_string(), registry);
    assert_eq!(names(&reopened.list(1)), names(&store.list(1)));
    assert_eq!(reopened.get(1, "a").unwrap().owner, 6);
    assert_eq!(reopened.last_used(1), store.last_used(1));
}
