//! What holds of the registry and of stored names as a whole.

use vstd::prelude::*;

use crate::numbers::decimal;
use crate::numbers::law_decimal_reads_back;
use crate::paths::is_absolute;
use crate::paths::is_component;
use crate::paths::last_len;
use crate::paths::law_join_file_name;
use crate::paths::law_join_injective;
use crate::paths::lemma_last_len;
use crate::paths::lemma_last_len_bounds;
use crate::paths::path_file_name;
use crate::paths::path_join;
use crate::paths::path_parent;
use crate::paths::strip_tail;
use crate::store::candidate_path;
use crate::store::distinct_names;
use crate::store::entry_matches;
use crate::store::entry_names;
use crate::store::exactly_in;
use crate::store::find_named;
use crate::store::first_match;
use crate::store::found_in;
use crate::store::index_named;
use crate::store::is_mark;
use crate::store::is_safe;
use crate::store::lemma_first_match;
use crate::store::lemma_index_named;
use crate::store::lemma_index_named_bounds;
use crate::store::model_views;
use crate::store::paths_in;
use crate::store::registered;
use crate::store::removed;
use crate::store::sanitized;
use crate::store::strip_marks_end;
use crate::store::strip_marks_start;
use crate::store::with_safe_chars;
use crate::store::ModelMeta;
use crate::store::ModelView;
use crate::store::StoreView;
use crate::text::is_white_space;
use crate::text::texts;
use crate::text::trim;
use crate::text::trim_end;
use crate::text::trim_start;
use crate::text_laws::has_ink;
use crate::text_laws::law_parent;
use crate::text_laws::law_trim;
use crate::text_laws::law_trim_ignores_space;

verus! {

/// A model that has just been registered is found under its name, with all
/// that was registered.
pub proof fn law_registered_is_found(models: Seq<ModelView>, meta: ModelView)
    ensures
        find_named(registered(models, meta), meta.name) == Some(meta),
{
    lemma_index_named_bounds(models, meta.name);
    let i = index_named(models, meta.name) as int;
    let after = registered(models, meta);
    assert forall|j: int| 0 <= j < i implies (#[trigger] after[j]).name != meta.name by {
        assert(after[j] == models[j]);
    }
    lemma_index_named(after, meta.name, i);
}

/// Registering a model does not change what any other name finds.
pub proof fn law_register_keeps_others(models: Seq<ModelView>, meta: ModelView, other: Seq<char>)
    requires
        other != meta.name,
    ensures
        find_named(registered(models, meta), other) == find_named(models, other),
{
    lemma_index_named_bounds(models, meta.name);
    lemma_index_named_bounds(models, other);
    let i = index_named(models, meta.name) as int;
    let k = index_named(models, other) as int;
    let after = registered(models, meta);
    assert forall|j: int| 0 <= j < k implies (#[trigger] after[j]).name != other by {
        if j != i {
            assert(after[j] == models[j]);
        }
    }
    if k < models.len() {
        lemma_index_named(after, other, k);
    } else {
        lemma_index_named(after, other, after.len() as int);
    }
}

/// Registering never gives two models of a namespace the same name.
pub proof fn law_register_keeps_names_distinct(models: Seq<ModelView>, meta: ModelView)
    requires
        distinct_names(models),
    ensures
        distinct_names(registered(models, meta)),
{
    lemma_index_named_bounds(models, meta.name);
}

/// Registering a model of a known name replaces it; only a new name makes the
/// list longer, at its end.
pub proof fn law_register_length(models: Seq<ModelView>, meta: ModelView)
    ensures
        registered(models, meta).len() == if find_named(models, meta.name) is Some {
            models.len()
        } else {
            models.len() + 1
        },
        find_named(models, meta.name) is None ==> registered(models, meta) == models.push(meta),
{
    lemma_index_named_bounds(models, meta.name);
}

/// A deleted model is no longer found.
pub proof fn law_deleted_is_gone(models: Seq<ModelView>, name: Seq<char>)
    requires
        distinct_names(models),
    ensures
        find_named(removed(models, name), name) is None,
        distinct_names(removed(models, name)),
{
    lemma_index_named_bounds(models, name);
    let i = index_named(models, name) as int;
    let after = removed(models, name);
    assert forall|j: int| 0 <= j < after.len() implies (#[trigger] after[j]).name != name by {
        if j < i {
            assert(after[j] == models[j]);
        } else if i < models.len() {
            assert(after[j] == models[j + 1]);
            assert(models[i].name != models[j + 1].name);
        }
    }
    lemma_index_named(after, name, after.len() as int);
    assert forall|a: int, b: int| 0 <= a < b < after.len() implies (#[trigger] after[a]).name != (
    #[trigger] after[b]).name by {
        let x = if a < i {
            a
        } else {
            a + 1
        };
        let y = if b < i {
            b
        } else {
            b + 1
        };
        if i < models.len() {
            assert(after[a] == models[x]);
            assert(after[b] == models[y]);
        }
    }
}

/// Deleting a model does not change what any other name finds.
pub proof fn law_delete_keeps_others(models: Seq<ModelView>, name: Seq<char>, other: Seq<char>)
    requires
        other != name,
    ensures
        find_named(removed(models, name), other) == find_named(models, other),
{
    lemma_index_named_bounds(models, name);
    lemma_index_named_bounds(models, other);
    let i = index_named(models, name) as int;
    let k = index_named(models, other) as int;
    let after = removed(models, name);
    if i < models.len() {
        let at = if k <= i {
            k
        } else {
            k - 1
        };
        assert forall|j: int| 0 <= j < at implies (#[trigger] after[j]).name != other by {
            if j < i {
                assert(after[j] == models[j]);
            } else {
                assert(after[j] == models[j + 1]);
            }
        }
        if k < models.len() {
            assert(after[at] == models[k]);
        }
        lemma_index_named(after, other, at);
    }
}

/// Deleting a model that was registered under a new name leaves the list as it
/// was before.
pub proof fn law_delete_undoes_register(models: Seq<ModelView>, meta: ModelView)
    requires
        find_named(models, meta.name) is None,
    ensures
        removed(registered(models, meta), meta.name) == models,
{
    lemma_index_named_bounds(models, meta.name);
    let after = registered(models, meta);
    assert forall|j: int| 0 <= j < models.len() implies (#[trigger] after[j]).name
        != meta.name by {
        assert(after[j] == models[j]);
    }
    lemma_index_named(after, meta.name, models.len() as int);
    assert(after.remove(models.len() as int) == models);
}

/// A change to one namespace's models leaves every other namespace, the root
/// and the most recently queried models alone.
pub proof fn law_namespaces_are_separate(
    store: StoreView,
    namespace: u64,
    models: Seq<ModelView>,
    other: u64,
)
    ensures
        store.with_models(namespace, models).models(namespace) == models,
        other != namespace ==> store.with_models(namespace, models).models(other) == store.models(
            other,
        ),
        store.with_models(namespace, models).last_used(other) == store.last_used(other),
        store.with_models(namespace, models).root == store.root,
{
}

/// The most recently queried model is the one that was recorded last, for each
/// namespace on its own, and recording it changes no model.
pub proof fn law_last_used_reads_back(
    store: StoreView,
    namespace: u64,
    name: Seq<char>,
    other: u64,
)
    ensures
        store.with_last_used(namespace, name).last_used(namespace) == Some(name),
        other != namespace ==> store.with_last_used(namespace, name).last_used(other)
            == store.last_used(other),
        store.with_last_used(namespace, name).models(other) == store.models(other),
        store.with_last_used(namespace, name).root == store.root,
{
}

proof fn lemma_strip_marks_end(s: Seq<char>)
    ensures
        strip_marks_end(s).len() <= s.len(),
        strip_marks_end(s) == s.take(strip_marks_end(s).len() as int),
        strip_marks_end(s).len() > 0 ==> !is_mark(strip_marks_end(s).last()),
    decreases s.len(),
{
    if s.len() > 0 && is_mark(s.last()) {
        lemma_strip_marks_end(s.drop_last());
        let n = strip_marks_end(s).len() as int;
        assert(s.drop_last().take(n) == s.take(n));
    } else {
        assert(s.take(s.len() as int) == s);
    }
}

proof fn lemma_strip_marks_start(s: Seq<char>)
    ensures
        strip_marks_start(s).len() <= s.len(),
        strip_marks_start(s) == s.skip(s.len() - strip_marks_start(s).len()),
        strip_marks_start(s).len() > 0 ==> !is_mark(strip_marks_start(s)[0]),
    decreases s.len(),
{
    if s.len() > 0 && is_mark(s[0]) {
        lemma_strip_marks_start(s.drop_first());
        let n = strip_marks_start(s).len() as int;
        assert(s.drop_first().skip(s.len() - 1 - n) == s.skip(s.len() - n));
    } else {
        assert(s.skip(0) == s);
    }
}

/// A stored name is never empty, holds printable ASCII characters only, none of
/// them a path separator, and neither begins nor ends with a dot or an
/// underscore. So it is one plain path component, and names a file directly
/// below any directory that it is joined to.
pub proof fn law_sanitized_shape(dir: Seq<char>, name: Seq<char>)
    ensures
        sanitized(name).len() > 0,
        forall|i: int| 0 <= i < sanitized(name).len() ==> is_safe(#[trigger] sanitized(name)[i]),
        !is_mark(sanitized(name)[0]),
        !is_mark(sanitized(name).last()),
        is_component(sanitized(name)),
        path_file_name(path_join(dir, sanitized(name))) == Some(sanitized(name)),
{
    reveal_strlit("dataset");
    let a = with_safe_chars(trim(name));
    let b = strip_marks_start(a);
    let c = strip_marks_end(b);
    lemma_strip_marks_start(a);
    lemma_strip_marks_end(b);
    assert forall|i: int| 0 <= i < c.len() implies is_safe(#[trigger] c[i]) by {
        assert(c[i] == b[i]);
        assert(b[i] == a[i + a.len() - b.len()]);
    }
    if c.len() > 0 {
        assert(c[0] == b[0]);
    }
    let s = sanitized(name);
    assert forall|i: int| 0 <= i < s.len() implies s[i] != '/' by {
        assert(is_safe(s[i]));
    }
    law_join_file_name(dir, s);
}

proof fn lemma_safe_name_is_kept(s: Seq<char>)
    requires
        s.len() > 0,
        forall|i: int| 0 <= i < s.len() ==> is_safe(#[trigger] s[i]),
        !is_mark(s[0]),
        !is_mark(s.last()),
    ensures
        sanitized(s) == s,
{
    assert(is_safe(s[0]));
    assert(is_safe(s[s.len() - 1]));
    assert(trim_start(s) == s);
    assert(trim_end(s) == s);
    assert(with_safe_chars(s) == s);
    assert(strip_marks_start(s) == s);
    assert(strip_marks_end(s) == s);
}

/// A name that is safe as it is, and has no dot or underscore at its ends, is
/// kept as it is, however long it is.
pub proof fn law_safe_name_is_kept(s: Seq<char>)
    requires
        s.len() > 0,
        forall|i: int| 0 <= i < s.len() ==> is_safe(#[trigger] s[i]),
        !is_mark(s[0]),
        !is_mark(s.last()),
    ensures
        sanitized(s) == s,
{
    lemma_safe_name_is_kept(s);
}

/// Sanitizing a stored name again gives the same name.
pub proof fn law_sanitize_idempotent(name: Seq<char>)
    ensures
        sanitized(sanitized(name)) == sanitized(name),
{
    law_sanitized_shape(seq![], name);
    lemma_safe_name_is_kept(sanitized(name));
}

/// What is found is the first entry that is the sanitized name, as it is or with
/// `.dataset` behind it, below the directory; nothing is found where no entry is
/// that.
pub proof fn law_found_in(dir: Seq<char>, name: Seq<char>, names: Seq<Option<Seq<char>>>)
    ensures
        ({
            let plain = Some(sanitized(name));
            let suffixed = Some(sanitized(name) + ".dataset"@);
            match found_in(dir, name, names) {
                Some(path) => exists|k: int|
                    0 <= k < names.len() && #[trigger] names[k] is Some && (names[k] == plain
                        || names[k] == suffixed) && path == path_join(dir, names[k]->0)
                        && forall|i: int|
                        0 <= i < k ==> #[trigger] names[i] != plain && names[i] != suffixed,
                None => forall|i: int|
                    0 <= i < names.len() ==> #[trigger] names[i] != plain && names[i] != suffixed,
            }
        }),
{
    lemma_first_match(names, sanitized(name));
    match first_match(names, sanitized(name)) {
        Some(k) => {
            assert(entry_matches(names[k as int], sanitized(name)));
            assert forall|i: int| 0 <= i < k implies #[trigger] names[i] != Some(sanitized(name))
                && names[i] != Some(sanitized(name) + ".dataset"@) by {
                assert(!entry_matches(names[i], sanitized(name)));
            }
        },
        None => {
            assert forall|i: int| 0 <= i < names.len() implies #[trigger] names[i] != Some(
                sanitized(name),
            ) && names[i] != Some(sanitized(name) + ".dataset"@) by {
                assert(!entry_matches(names[i], sanitized(name)));
            }
        },
    }
}

/// A dataset is found under the name that it was uploaded with, and under the
/// name that it was stored with.
pub proof fn law_stored_dataset_is_found(entries: Seq<Option<Seq<char>>>, name: Seq<char>, k: int)
    requires
        0 <= k < entries.len(),
        entries[k] == Some(sanitized(name)),
    ensures
        first_match(entries, sanitized(name)) is Some,
        first_match(entries, sanitized(name))->0 <= k,
        entry_matches(
            entries[first_match(entries, sanitized(name))->0 as int],
            sanitized(name),
        ),
        first_match(entries, sanitized(sanitized(name))) == first_match(entries, sanitized(name)),
{
    law_sanitize_idempotent(name);
    lemma_first_match(entries, sanitized(name));
    assert(entry_matches(entries[k], sanitized(name)));
}

proof fn lemma_decimal_has_no_separator(n: nat)
    ensures
        decimal(n).len() >= 1,
        forall|i: int| 0 <= i < decimal(n).len() ==> '0' <= #[trigger] decimal(n)[i] <= '9',
    decreases n,
{
    if n >= 10 {
        lemma_decimal_has_no_separator(n / 10);
    }
}

proof fn lemma_candidate(path: Seq<char>, n: nat)
    requires
        n > 0,
    ensures
        ({
            let name = match path_file_name(path) {
                Some(name) => name,
                None => "file"@,
            };
            path_file_name(candidate_path(path, n)) == Some(name + "."@ + decimal(n))
        }),
{
    let name = match path_file_name(path) {
        Some(name) => name,
        None => "file"@,
    };
    reveal_strlit("file");
    reveal_strlit(".");
    lemma_decimal_has_no_separator(n);
    let q = strip_tail(path);
    lemma_last_len_bounds(q);
    let full = name + "."@ + decimal(n);
    assert forall|i: int| 0 <= i < name.len() implies name[i] != '/' by {
        if path_file_name(path) is Some {
            assert(name[i] == q[i + q.len() - last_len(q)]);
        }
    }
    assert forall|i: int| 0 <= i < full.len() implies full[i] != '/' by {
        if i < name.len() {
            assert(full[i] == name[i]);
        } else if i > name.len() {
            assert(full[i] == decimal(n)[i - name.len() - 1]);
        }
    }
    assert(full.last() == decimal(n).last());
    let dir = match path_parent(path) {
        Some(dir) => dir,
        None => seq![],
    };
    law_join_file_name(dir, full);
}

/// An uploaded dataset or recipe is found under the name that the answer to the
/// upload shows, whichever candidate was free.
pub proof fn law_shown_name_is_found(
    dir: Seq<char>,
    name: Seq<char>,
    n: nat,
    entries: Seq<Option<Seq<char>>>,
    k: int,
)
    requires
        0 <= k < entries.len(),
        entries[k] == path_file_name(candidate_path(path_join(dir, sanitized(name)), n)),
    ensures
        entries[k] is Some,
        first_match(entries, sanitized(entries[k]->0)) is Some,
        first_match(entries, sanitized(entries[k]->0))->0 <= k,
        exactly_in(dir, entries[k]->0, entries) == Some(path_join(dir, entries[k]->0)),
{
    let safe = sanitized(name);
    let path = path_join(dir, safe);
    law_sanitized_shape(dir, name);
    if n > 0 {
        reveal_strlit(".");
        lemma_candidate(path, n);
        lemma_decimal_has_no_separator(n);
        let shown = safe + "."@ + decimal(n);
        assert forall|i: int| 0 <= i < shown.len() implies is_safe(#[trigger] shown[i]) by {
            if i < safe.len() {
                assert(shown[i] == safe[i]);
            } else if i > safe.len() {
                assert(shown[i] == decimal(n)[i - safe.len() - 1]);
            }
        }
        assert(shown[0] == safe[0]);
        assert(shown.last() == decimal(n)[decimal(n).len() - 1]);
        lemma_safe_name_is_kept(shown);
    } else {
        lemma_safe_name_is_kept(safe);
    }
    lemma_first_match(entries, sanitized(entries[k]->0));
    assert(entry_matches(entries[k], sanitized(entries[k]->0)));
}

/// The search for a free path never tries a path twice.
pub proof fn law_candidates_are_distinct(path: Seq<char>, a: nat, b: nat)
    requires
        a != b,
    ensures
        candidate_path(path, a) != candidate_path(path, b),
    decreases a,
{
    reveal_strlit(".");
    if a > b {
        law_candidates_are_distinct(path, b, a);
    } else {
        lemma_candidate(path, b);
        if a > 0 {
            lemma_candidate(path, a);
        }
        let name = match path_file_name(path) {
            Some(name) => name,
            None => "file"@,
        };
        let x = name + "."@ + decimal(a);
        let y = name + "."@ + decimal(b);
        if candidate_path(path, a) == candidate_path(path, b) {
            if a == 0 {
                assert(path_file_name(path) == Some(y));
                assert(name == y);
                assert(y.len() > name.len());
            } else {
                assert(x == y);
                assert(decimal(a) == x.skip(name.len() as int + 1));
                assert(decimal(b) == y.skip(name.len() as int + 1));
                law_decimal_reads_back(a);
                law_decimal_reads_back(b);
            }
        }
    }
}

/// The first `n` candidates.
spec fn first_candidates(path: Seq<char>, n: nat) -> Set<Seq<char>>
    decreases n,
{
    if n == 0 {
        Set::empty()
    } else {
        first_candidates(path, (n - 1) as nat).insert(candidate_path(path, (n - 1) as nat))
    }
}

proof fn lemma_first_candidates(path: Seq<char>, n: nat)
    ensures
        first_candidates(path, n).finite(),
        first_candidates(path, n).len() == n,
        forall|p: Seq<char>|
            first_candidates(path, n).contains(p) ==> exists|i: nat|
                i < n && p == #[trigger] candidate_path(path, i),
    decreases n,
{
    if n > 0 {
        let m = (n - 1) as nat;
        lemma_first_candidates(path, m);
        assert(!first_candidates(path, m).contains(candidate_path(path, m))) by {
            if first_candidates(path, m).contains(candidate_path(path, m)) {
                let i = choose|i: nat|
                    i < m && candidate_path(path, m) == #[trigger] candidate_path(path, i);
                law_candidates_are_distinct(path, i, m);
            }
        }
        assert forall|p: Seq<char>| first_candidates(path, n).contains(p) implies exists|i: nat|
            i < n && p == #[trigger] candidate_path(path, i) by {
            if p == candidate_path(path, m) {
                assert(m < n);
            } else {
                let i = choose|i: nat| i < m && p == #[trigger] candidate_path(path, i);
                assert(i < n);
            }
        }
    }
}

/// Where only finitely many paths are taken, the search ends: one of the first
/// candidates, at most one more than there are taken paths, is free.
pub proof fn law_some_candidate_is_free(path: Seq<char>, taken: Set<Seq<char>>)
    requires
        taken.finite(),
    ensures
        exists|n: nat| n <= taken.len() && !taken.contains(#[trigger] candidate_path(path, n)),
{
    let k = (taken.len() + 1) as nat;
    lemma_first_candidates(path, k);
    if forall|n: nat| n <= taken.len() ==> taken.contains(#[trigger] candidate_path(path, n)) {
        assert(first_candidates(path, k).subset_of(taken)) by {
            assert forall|p: Seq<char>| first_candidates(path, k).contains(p) implies taken.contains(
                p,
            ) by {
                let i = choose|i: nat| i < k && p == #[trigger] candidate_path(path, i);
                assert(taken.contains(candidate_path(path, i)));
            }
        }
        vstd::set_lib::lemma_len_subset(first_candidates(path, k), taken);
    }
}

/// In a store with an absolute root, whatever is below it has an absolute path.
pub proof fn law_paths_stay_absolute(store: StoreView, namespace: u64, name: Seq<char>)
    requires
        is_absolute(store.root),
    ensures
        is_absolute(store.datasets_dir(namespace)),
        is_absolute(store.capacitorfiles_dir(namespace)),
        is_absolute(store.models_dir(namespace)),
        is_absolute(store.model_path(namespace, name)),
        is_absolute(path_join(store.datasets_dir(namespace), name)),
        is_absolute(path_join(store.capacitorfiles_dir(namespace), name)),
{
    reveal_strlit("datasets");
    reveal_strlit("capacitorfiles");
    reveal_strlit("models");
}

proof fn lemma_strip_tail_keeps_first(p: Seq<char>)
    requires
        p.len() > 0,
    ensures
        strip_tail(p).len() > 0,
        strip_tail(p)[0] == p[0],
    decreases p.len(),
{
    if p.len() >= 2 && (p.last() == '/' || (p.last() == '.' && p[p.len() - 2] == '/')) {
        lemma_strip_tail_keeps_first(p.drop_last());
    }
}

/// The search for a free path keeps to absolute paths where it begins with the
/// absolute path of a file.
pub proof fn law_candidates_stay_absolute(path: Seq<char>, n: nat)
    requires
        is_absolute(path),
        path_file_name(path) is Some,
    ensures
        is_absolute(candidate_path(path, n)),
{
    if n > 0 {
        let q = strip_tail(path);
        lemma_strip_tail_keeps_first(path);
        lemma_last_len_bounds(q);
        let dir = q.take(q.len() - last_len(q));
        assert(dir[0] == '/');
        lemma_strip_tail_keeps_first(dir);
    }
}

/// Whatever name a file is saved under, and whichever candidate was free, its
/// path is absolute where the directory's is.
pub proof fn law_saved_paths_are_absolute(dir: Seq<char>, name: Seq<char>)
    requires
        is_absolute(dir),
    ensures
        forall|n: nat|
            is_absolute(#[trigger] candidate_path(path_join(dir, sanitized(name)), n)),
{
    law_sanitized_shape(dir, name);
    assert forall|n: nat|
        is_absolute(#[trigger] candidate_path(path_join(dir, sanitized(name)), n)) by {
        law_candidates_stay_absolute(path_join(dir, sanitized(name)), n);
    }
}

/// No two namespaces share a directory, and datasets, recipes and models are
/// never kept in the same one.
pub proof fn law_directories_are_separate(store: StoreView, a: u64, b: u64)
    ensures
        a != b ==> store.namespace_dir(a) != store.namespace_dir(b),
        a != b ==> store.datasets_dir(a) != store.datasets_dir(b),
        a != b ==> store.capacitorfiles_dir(a) != store.capacitorfiles_dir(b),
        a != b ==> store.models_dir(a) != store.models_dir(b),
        store.datasets_dir(a) != store.capacitorfiles_dir(b),
        store.capacitorfiles_dir(a) != store.models_dir(b),
        store.datasets_dir(a) != store.models_dir(b),
{
    reveal_strlit("datasets");
    reveal_strlit("capacitorfiles");
    reveal_strlit("models");
    let x = store.namespace_dir(a);
    let y = store.namespace_dir(b);
    lemma_decimal_has_no_separator(a as nat);
    lemma_decimal_has_no_separator(b as nat);
    assert(decimal(a as nat)[0] != '.' && decimal(b as nat)[0] != '.');
    assert(is_component(decimal(a as nat)));
    assert(is_component(decimal(b as nat)));
    if x == y {
        law_join_injective(store.root, decimal(a as nat), decimal(b as nat));
        law_decimal_reads_back(a as nat);
        law_decimal_reads_back(b as nat);
    }
    assert(x.last() == decimal(a as nat).last());
    assert(y.last() == decimal(b as nat).last());
    assert(x.last() != '/' && y.last() != '/');
    assert("datasets"@.len() == 8 && "datasets"@[0] == 'd');
    assert("models"@.len() == 6 && "models"@[0] == 'm');
    if store.datasets_dir(a) == store.datasets_dir(b) {
        assert(x == store.datasets_dir(a).take(store.datasets_dir(a).len() - 9));
        assert(y == store.datasets_dir(b).take(store.datasets_dir(b).len() - 9));
    }
    assert("capacitorfiles"@.len() == 14 && "capacitorfiles"@[0] == 'c');
    if store.capacitorfiles_dir(a) == store.capacitorfiles_dir(b) {
        assert(x == store.capacitorfiles_dir(a).take(store.capacitorfiles_dir(a).len() - 15));
        assert(y == store.capacitorfiles_dir(b).take(store.capacitorfiles_dir(b).len() - 15));
    }
    if store.models_dir(a) == store.models_dir(b) {
        assert(x == store.models_dir(a).take(store.models_dir(a).len() - 7));
        assert(y == store.models_dir(b).take(store.models_dir(b).len() - 7));
    }
    assert(is_component("datasets"@));
    assert(is_component("models"@));
    law_join_file_name(x, "datasets"@);
    assert(is_component("capacitorfiles"@));
    law_join_file_name(y, "models"@);
    law_join_file_name(x, "capacitorfiles"@);
    law_join_file_name(y, "capacitorfiles"@);
}

/// A directory as it can be given to a search for a free path: it is not empty
/// and ends in a plain component.
pub open spec fn is_plain_dir(dir: Seq<char>) -> bool {
    dir.len() > 0 && dir.last() != '/' && dir.last() != '.'
}

/// The directories of a namespace end in a plain component.
pub proof fn law_directories_are_plain(store: StoreView, namespace: u64)
    ensures
        is_plain_dir(store.datasets_dir(namespace)),
        is_plain_dir(store.capacitorfiles_dir(namespace)),
        is_plain_dir(store.models_dir(namespace)),
{
    reveal_strlit("datasets");
    reveal_strlit("capacitorfiles");
    reveal_strlit("models");
}

/// Whatever name a file is saved under, and whichever candidate was free, the
/// file lies directly below the directory that it was saved in.
pub proof fn law_saved_file_stays_in_its_directory(dir: Seq<char>, name: Seq<char>, n: nat)
    requires
        is_plain_dir(dir),
    ensures
        ({
            let path = candidate_path(path_join(dir, sanitized(name)), n);
            &&& path_file_name(path) is Some
            &&& is_component(path_file_name(path)->0)
            &&& path == path_join(dir, path_file_name(path)->0)
        }),
{
    let safe = sanitized(name);
    let path = path_join(dir, safe);
    law_sanitized_shape(dir, name);
    assert(safe[0] != '/');
    assert(path == dir + seq!['/'] + safe);
    if n > 0 {
        reveal_strlit(".");
        lemma_candidate(path, n);
        lemma_decimal_has_no_separator(n);
        let shown = safe + "."@ + decimal(n);
        assert forall|i: int| 0 <= i < shown.len() implies shown[i] != '/' by {
            if i < safe.len() {
                assert(shown[i] == safe[i]);
            } else if i > safe.len() {
                assert(shown[i] == decimal(n)[i - safe.len() - 1]);
            }
        }
        assert(shown.len() >= 3);
        // The parent of the wanted path is the directory itself.
        assert(path.last() == safe.last());
        assert(strip_tail(path) == path);
        assert forall|i: int| path.len() - safe.len() <= i < path.len() implies path[i] != '/' by {
            assert(path[i] == safe[i - dir.len() - 1]);
        }
        lemma_last_len(path, safe.len() as int);
        assert(path.take(path.len() - safe.len()) == dir.push('/'));
        assert(dir.push('/').drop_last() == dir);
        assert(strip_tail(dir.push('/')) == strip_tail(dir));
        assert(strip_tail(dir) == dir);
        assert(path_parent(path) == Some(dir));
    }
}

/// Saving a file at a free path adds exactly that path to the listing of the
/// directory, wherever the new name turns up among the old ones.
pub proof fn law_saving_adds_one_path(
    dir: Seq<char>,
    name: Seq<char>,
    n: nat,
    before: Seq<Option<Seq<char>>>,
    k: int,
)
    requires
        is_plain_dir(dir),
        0 <= k <= before.len(),
        !paths_in(dir, before).contains(Some(candidate_path(path_join(dir, sanitized(name)), n))),
    ensures
        ({
            let path = candidate_path(path_join(dir, sanitized(name)), n);
            let after = before.insert(k, path_file_name(path));
            &&& !before.contains(path_file_name(path))
            &&& paths_in(dir, after) == paths_in(dir, before).insert(k, Some(path))
            &&& forall|p: Option<Seq<char>>| #[trigger]
                paths_in(dir, after).contains(p) <==> paths_in(dir, before).contains(p) || p
                    == Some(path)
        }),
{
    law_saved_file_stays_in_its_directory(dir, name, n);
    let path = candidate_path(path_join(dir, sanitized(name)), n);
    let file = path_file_name(path);
    let after = before.insert(k, file);
    let old = paths_in(dir, before);
    let new = paths_in(dir, after);
    assert(new == old.insert(k, Some(path)));
    if before.contains(file) {
        let i = choose|i: int| 0 <= i < before.len() && before[i] == file;
        assert(old[i] == Some(path));
    }
    assert forall|p: Option<Seq<char>>| #[trigger] new.contains(p) <==> old.contains(p) || p == Some(
        path,
    ) by {
        if new.contains(p) {
            let i = choose|i: int| 0 <= i < new.len() && new[i] == p;
            if i < k {
                assert(old[i] == p);
            } else if i > k {
                assert(old[i - 1] == p);
            }
        }
        if old.contains(p) {
            let i = choose|i: int| 0 <= i < old.len() && old[i] == p;
            if i < k {
                assert(new[i] == p);
            } else {
                assert(new[i + 1] == p);
            }
        }
        assert(new[k] == Some(path));
    }
}

/// A file that is found is listed, and an empty or missing directory lists
/// nothing.
pub proof fn law_found_file_is_listed(
    dir: Seq<char>,
    name: Seq<char>,
    names: Seq<Option<Seq<char>>>,
)
    ensures
        found_in(dir, name, names) is Some ==> paths_in(dir, names).contains(
            found_in(dir, name, names),
        ),
        exactly_in(dir, name, names) is Some ==> paths_in(dir, names).contains(
            exactly_in(dir, name, names),
        ),
        paths_in(dir, seq![]) == Seq::<Option<Seq<char>>>::empty(),
{
    lemma_first_match(names, sanitized(name));
    match first_match(names, sanitized(name)) {
        Some(i) => {
            assert(paths_in(dir, names)[i as int] == found_in(dir, name, names));
        },
        None => {},
    }
    if names.contains(Some(sanitized(name))) {
        let i = choose|i: int| 0 <= i < names.len() && names[i] == Some(sanitized(name));
        assert(paths_in(dir, names)[i] == exactly_in(dir, name, names));
    }
    assert(paths_in(dir, seq![]) == Seq::<Option<Seq<char>>>::empty());
}

/// A listing holds the path of each readable file exactly once, as the names in
/// a directory are distinct components.
pub proof fn law_listing_is_distinct(
    dir: Seq<char>,
    names: Seq<Option<Seq<char>>>,
    i: int,
    j: int,
)
    requires
        0 <= i < j < names.len(),
        names[i] != names[j],
        names[i] is Some ==> is_component(names[i]->0),
        names[j] is Some ==> is_component(names[j]->0),
    ensures
        paths_in(dir, names)[i] != paths_in(dir, names)[j],
{
    if names[i] is Some && names[j] is Some {
        let a = names[i]->0;
        let b = names[j]->0;
        if path_join(dir, a) == path_join(dir, b) {
            law_join_injective(dir, a, b);
        }
    }
}

/// A store that is opened over the registry that another one of the same root
/// wrote out gives the same answers: the same models in the same order, and the
/// same model queried last.
pub proof fn law_reopened_store_is_the_same(
    store: StoreView,
    reopened: StoreView,
    namespace: u64,
    name: Seq<char>,
)
    requires
        reopened.root == store.root,
        reopened.registry == store.registry,
    ensures
        reopened == store,
        reopened.models(namespace) == store.models(namespace),
        find_named(reopened.models(namespace), name) == find_named(store.models(namespace), name),
        reopened.last_used(namespace) == store.last_used(namespace),
{
}

/// The characters that a stored name may hold: ASCII letters, digits and
/// punctuation, but no path separator. A dot and an underscore are dropped at its
/// ends.
pub proof fn law_safe_chars(c: char)
    ensures
        is_safe(c) <==> 0x21 <= c as int <= 0x7e && c as int != 0x2f && c as int != 0x5c,
        is_mark(c) <==> c as int == 0x2e || c as int == 0x5f,
{
}

/// White space around a name makes no difference, and a name of white space alone
/// is stored as `dataset`.
pub proof fn law_sanitize_ignores_space(lead: Seq<char>, s: Seq<char>, trail: Seq<char>)
    requires
        forall|i: int| 0 <= i < lead.len() ==> is_white_space(#[trigger] lead[i]),
        forall|i: int| 0 <= i < trail.len() ==> is_white_space(#[trigger] trail[i]),
        s.len() > 0,
        !is_white_space(s[0]),
        !is_white_space(s.last()),
    ensures
        sanitized(lead + s + trail) == sanitized(s),
        sanitized(lead) == "dataset"@,
{
    law_trim_ignores_space(lead, s, trail);
    let none = Seq::<char>::empty();
    law_trim_ignores_space(none, s, none);
    assert(none + s + none == s);
    law_trim(lead);
    if has_ink(lead) {
        let i = choose|i: int| 0 <= i < lead.len() && !is_white_space(#[trigger] lead[i]);
        assert(is_white_space(lead[i]));
    }
    assert(trim(lead) == none);
    assert(with_safe_chars(none) == none);
}

/// A character that is not safe counts as an underscore.
pub proof fn law_sanitize_replaces(s: Seq<char>, i: int)
    requires
        0 <= i < s.len(),
        !is_white_space(s[0]),
        !is_white_space(s.last()),
        !is_safe(s[i]),
    ensures
        sanitized(s) == sanitized(s.update(i, '_')),
{
    let t = s.update(i, '_');
    let none = Seq::<char>::empty();
    law_trim_ignores_space(none, s, none);
    law_trim_ignores_space(none, t, none);
    assert(none + s + none == s);
    assert(none + t + none == t);
    assert(with_safe_chars(s) == with_safe_chars(t));
}

/// A dot or an underscore at an end of a name makes no difference, and a name of
/// nothing else is stored as `dataset`.
pub proof fn law_sanitize_drops_marks(mark: char, s: Seq<char>)
    requires
        is_mark(mark),
        s.len() > 0,
        !is_white_space(s[0]),
        !is_white_space(s.last()),
    ensures
        sanitized(seq![mark] + s) == sanitized(s),
        sanitized(s.push(mark)) == sanitized(s),
        sanitized(seq![mark]) == "dataset"@,
{
    let none = Seq::<char>::empty();
    let a = seq![mark] + s;
    let b = s.push(mark);
    let one = seq![mark];
    law_trim_ignores_space(none, s, none);
    law_trim_ignores_space(none, a, none);
    law_trim_ignores_space(none, b, none);
    law_trim_ignores_space(none, one, none);
    assert(none + s + none == s);
    assert(none + a + none == a);
    assert(none + b + none == b);
    assert(none + one + none == one);
    let w = with_safe_chars(s);
    assert(with_safe_chars(a) == seq![mark] + w);
    assert((seq![mark] + w).drop_first() == w);
    assert(with_safe_chars(b) == w.push(mark));
    lemma_strip_marks_push(w, mark);
    assert(with_safe_chars(one) == one);
    assert(one.drop_first() == none);
    assert(strip_marks_start(none) == none);
    assert(strip_marks_start(one) == none);
}

proof fn lemma_strip_marks_push(w: Seq<char>, mark: char)
    requires
        is_mark(mark),
    ensures
        strip_marks_end(strip_marks_start(w.push(mark))) == strip_marks_end(strip_marks_start(w)),
    decreases w.len(),
{
    let p = w.push(mark);
    if w.len() > 0 && is_mark(w[0]) {
        assert(p[0] == w[0]);
        assert(p.drop_first() == w.drop_first().push(mark));
        lemma_strip_marks_push(w.drop_first(), mark);
    } else if w.len() > 0 {
        assert(p[0] == w[0]);
        assert(p.drop_last() == w);
        assert(p.last() == mark);
    } else {
        assert(p.drop_first() == w);
        assert(strip_marks_start(p) == strip_marks_start(w));
    }
}

/// The candidates for a file are its path, and then its path with `.1`, `.2` and
/// so on behind the file name, in the same directory.
pub proof fn law_candidates(dir: Seq<char>, name: Seq<char>, n: nat)
    requires
        is_plain_dir(dir),
    ensures
        candidate_path(path_join(dir, sanitized(name)), 0) == path_join(dir, sanitized(name)),
        n > 0 ==> candidate_path(path_join(dir, sanitized(name)), n) == path_join(
            dir,
            sanitized(name) + "."@ + decimal(n),
        ),
{
    law_saved_file_stays_in_its_directory(dir, name, n);
    law_sanitized_shape(dir, name);
    if n > 0 {
        lemma_candidate(path_join(dir, sanitized(name)), n);
    }
}

/// The directories lie below the root, each namespace's under its number; and a
/// model's file lies in its namespace's models directory, under the model's name.
pub proof fn law_layout(store: StoreView, namespace: u64, model: Seq<char>)
    requires
        is_component(model + ".capacitor"@),
    ensures
        path_file_name(store.namespace_dir(namespace)) == Some(decimal(namespace as nat)),
        path_file_name(store.datasets_dir(namespace)) == Some("datasets"@),
        path_file_name(store.capacitorfiles_dir(namespace)) == Some("capacitorfiles"@),
        path_file_name(store.models_dir(namespace)) == Some("models"@),
        path_file_name(store.model_path(namespace, model)) == Some(model + ".capacitor"@),
        path_parent(store.model_path(namespace, model)) == Some(store.models_dir(namespace)),
        path_parent(store.models_dir(namespace)) == Some(store.namespace_dir(namespace)),
        path_parent(store.datasets_dir(namespace)) == Some(store.namespace_dir(namespace)),
        path_parent(store.capacitorfiles_dir(namespace)) == Some(store.namespace_dir(namespace)),
        store.namespace_dir(namespace) == path_join(store.root, decimal(namespace as nat)),
{
    reveal_strlit("datasets");
    reveal_strlit("capacitorfiles");
    reveal_strlit("models");
    let number = decimal(namespace as nat);
    lemma_decimal_has_no_separator(namespace as nat);
    assert(number[0] != '.');
    assert(is_component(number));
    assert("datasets"@.len() == 8 && "capacitorfiles"@.len() == 14 && "models"@.len() == 6);
    assert(is_component("datasets"@));
    assert(is_component("capacitorfiles"@));
    assert(is_component("models"@));
    let dir = store.namespace_dir(namespace);
    law_join_file_name(store.root, number);
    law_join_file_name(dir, "datasets"@);
    law_join_file_name(dir, "capacitorfiles"@);
    law_join_file_name(dir, "models"@);
    law_join_file_name(store.models_dir(namespace), model + ".capacitor"@);
    assert(dir.last() == number.last());
    assert('0' <= number[number.len() - 1] <= '9');
    law_directories_are_plain(store, namespace);
    law_parent(dir, "datasets"@);
    law_parent(dir, "capacitorfiles"@);
    law_parent(dir, "models"@);
    law_parent(store.models_dir(namespace), model + ".capacitor"@);
}

/// A model is found under a name exactly where it is the first of that name.
pub proof fn law_find_named(a: Seq<ModelView>, m: ModelView, b: Seq<ModelView>)
    requires
        forall|i: int| 0 <= i < a.len() ==> (#[trigger] a[i]).name != m.name,
    ensures
        find_named(a + seq![m] + b, m.name) == Some(m),
        find_named(a, m.name) is None,
{
    let all = a + seq![m] + b;
    assert forall|i: int| 0 <= i < a.len() implies (#[trigger] all[i]).name != m.name by {
        assert(all[i] == a[i]);
    }
    lemma_index_named(all, m.name, a.len() as int);
    lemma_index_named(a, m.name, a.len() as int);
}

/// Registering a model of a known name puts it in the place of the old one and
/// leaves the others where they are; deleting one takes out the first of its name
/// and nothing else.
pub proof fn law_models_keep_their_places(
    a: Seq<ModelView>,
    m: ModelView,
    b: Seq<ModelView>,
    meta: ModelView,
)
    requires
        forall|i: int| 0 <= i < a.len() ==> (#[trigger] a[i]).name != m.name,
        meta.name == m.name,
    ensures
        registered(a + seq![m] + b, meta) == a + seq![meta] + b,
        registered(a, meta) == a.push(meta),
        removed(a + seq![m] + b, m.name) == a + b,
        removed(a, m.name) == a,
{
    let all = a + seq![m] + b;
    let n = a.len() as int;
    assert forall|i: int| 0 <= i < n implies (#[trigger] all[i]).name != m.name by {
        assert(all[i] == a[i]);
    }
    lemma_index_named(all, m.name, n);
    lemma_index_named(a, m.name, n);
    assert(all.update(n, meta) == a + seq![meta] + b);
    assert(all.remove(n) == a + b);
}

/// A recipe is found exactly where its directory holds a file of its sanitized
/// name.
pub proof fn law_exactly_in(dir: Seq<char>, name: Seq<char>, names: Seq<Option<Seq<char>>>)
    ensures
        exactly_in(dir, name, names) is Some <==> exists|i: int|
            0 <= i < names.len() && #[trigger] names[i] == Some(sanitized(name)),
        exactly_in(dir, name, names) is Some ==> exactly_in(dir, name, names) == Some(
            path_join(dir, sanitized(name)),
        ),
{
}

/// A listing has one path for each file, in the order of the files.
pub proof fn law_listing(dir: Seq<char>, names: Seq<Option<Seq<char>>>, i: int)
    requires
        0 <= i < names.len(),
    ensures
        paths_in(dir, names).len() == names.len(),
        names[i] is Some ==> paths_in(dir, names)[i] == Some(path_join(dir, names[i]->0)),
        names[i] is None ==> paths_in(dir, names)[i] is None,
{
}

/// What lists of strings, of file names and of models stand for: one thing for
/// each, in their order.
pub proof fn law_lists_stand_for_their_items(
    strings: Seq<String>,
    entries: Seq<Option<String>>,
    models: Seq<ModelMeta>,
    i: int,
)
    ensures
        texts(strings).len() == strings.len(),
        0 <= i < strings.len() ==> texts(strings)[i] == strings[i]@,
        entry_names(entries).len() == entries.len(),
        0 <= i < entries.len() && entries[i] is Some ==> entry_names(entries)[i] == Some(
            entries[i]->0@,
        ),
        0 <= i < entries.len() && entries[i] is None ==> entry_names(entries)[i] is None,
        model_views(models).len() == models.len(),
        0 <= i < models.len() ==> model_views(models)[i].name == models[i].name@
            && model_views(models)[i].path == models[i].path@ && model_views(models)[i].owner
            == models[i].owner && model_views(models)[i].created_at == models[i].created_at
            && model_views(models)[i].recipe == models[i].recipe@
            && model_views(models)[i].datasets == texts(models[i].datasets@),
{
}

/// A namespace that was never written to has no models and no model used last;
/// any other has what was written.
pub proof fn law_store_reads(store: StoreView, namespace: u64)
    ensures
        store.registry.namespaces.contains_key(namespace) ==> store.models(namespace)
            == store.registry.namespaces[namespace],
        !store.registry.namespaces.contains_key(namespace) ==> store.models(namespace)
            == Seq::<ModelView>::empty(),
        store.registry.last_used.contains_key(namespace) ==> store.last_used(namespace) == Some(
            store.registry.last_used[namespace],
        ),
        !store.registry.last_used.contains_key(namespace) ==> store.last_used(namespace) is None,
{
}

} // verus!
