//! What holds of the functions that change what they are given, call by call.

use vstd::prelude::*;

use crate::command_laws::asked_for;
use crate::command_laws::law_query_runs_the_prompt;
use crate::jobs::Dispatcher;
use crate::jobs::JobCounter;
use crate::jobs::JobId;
use crate::jobs::law_round_robin;
use crate::models::Deletion;
use crate::models::QueryPlan;
use crate::models::delete;
use crate::models::query;
use crate::options::CommandOption;
use crate::options::option_text;
use crate::progress::BuildProgress;
use crate::progress::phase_label;
use crate::progress::phase_text;
use crate::query::QueryEngine;
use crate::query::law_cached_model_is_kept;
use crate::query::law_loaded_model_is_cached;
use crate::recipe::Experts;
use crate::recipe::ResolvedRecipe;
use crate::recipe::Resolver;
use crate::recipe::is_step;
use crate::recipe::law_clamped_fits;
use crate::recipe::overridden;
use crate::recipe::referenced_name;
use crate::recipe_edit::RecipeSessions;
use crate::recipe_edit::SyncPlan;
use crate::recipe_edit::fence_stripped;
use crate::store::ModelMeta;
use crate::store::ModelView;
use crate::store::Store;
use crate::store::UniquePath;
use crate::store::entry_names;
use crate::store::found_in;
use crate::store_laws::law_candidates_are_distinct;
use crate::store_laws::law_find_named;
use crate::store_laws::law_models_keep_their_places;
use crate::store_laws::law_register_keeps_others;
use crate::store_laws::law_registered_is_found;
use crate::text::texts;
use crate::train::TrainAction;
use crate::train::TrainEvent;
use crate::train::Training;
use crate::train::training_prefix;

verus! {

/// A `/query` runs exactly where there is a prompt, a model is named or was used
/// last, and the namespace has a model of that name. What is run is the very prompt
/// that was given, with a model of that name. No model changes, and a model that is
/// named together with a prompt is the one used last from then on.
pub proof fn law_query(store: &mut Store, namespace: u64, options: &[CommandOption], r: QueryPlan)
    requires
        call_ensures(query, (store, namespace, options), r),
    ensures
        r.outcome is Run <==> option_text(options@, "prompt"@) is Some && asked_for(
            old(store)@,
            namespace,
            options@,
        ) is Some && exists|i: int|
            0 <= i < old(store)@.models(namespace).len() && (#[trigger] old(store)@.models(
                namespace,
            )[i]).name == asked_for(old(store)@, namespace, options@)->0,
        r.outcome is Run ==> Some(r.outcome->prompt@) == option_text(options@, "prompt"@),
        r.outcome is Run ==> Some(r.outcome->model@.name) == asked_for(
            old(store)@,
            namespace,
            options@,
        ),
        r.outcome is Run ==> old(store)@.models(namespace).contains(r.outcome->model@),
        forall|n: u64| #[trigger] final(store)@.models(n) == old(store)@.models(n),
        forall|n: u64|
            n != namespace ==> #[trigger] final(store)@.last_used(n) == old(store)@.last_used(n),
        option_text(options@, "prompt"@) is Some && option_text(options@, "model"@) is Some
            ==> r.changed && final(store)@.last_used(namespace) == option_text(
            options@,
            "model"@,
        ),
        option_text(options@, "prompt"@) is None || option_text(options@, "model"@) is None
            ==> !r.changed && final(store)@ == old(store)@,
{
    law_query_runs_the_prompt(store@, namespace, options@, r.outcome);
}

/// `/delete` takes the first model of the name out of the namespace and hands its
/// file over for removal; where there is none of that name, nothing changes. Other
/// namespaces are left alone.
pub proof fn law_delete(
    store: &mut Store,
    namespace: u64,
    options: &[CommandOption],
    before: Seq<ModelView>,
    model: ModelView,
    behind: Seq<ModelView>,
    r: Deletion,
)
    requires
        call_ensures(delete, (store, namespace, options), r),
        forall|i: int| 0 <= i < before.len() ==> (#[trigger] before[i]).name != model.name,
    ensures
        forall|n: u64|
            n != namespace ==> #[trigger] final(store)@.models(n) == old(store)@.models(n),
        forall|n: u64| #[trigger] final(store)@.last_used(n) == old(store)@.last_used(n),
        option_text(options@, "model"@) is None ==> r is Reply && final(store)@ == old(store)@,
        option_text(options@, "model"@) == Some(model.name) && old(store)@.models(namespace)
            == before ==> r is Reply && final(store)@ == old(store)@,
        option_text(options@, "model"@) == Some(model.name) && old(store)@.models(namespace)
            == before + seq![model] + behind ==> r is Remove && r->path@ == model.path
            && r->reply@ == "Deleted model `"@ + model.name + "`."@ && final(store)@.models(
            namespace,
        ) == before + behind,
{
    law_find_named(before, model, behind);
    law_models_keep_their_places(before, model, behind, model);
}

/// A model that was registered is what its name finds from then on; every other
/// name, and every other namespace, finds what it found before.
pub proof fn law_register_then_get(
    store: &mut Store,
    namespace: u64,
    meta: ModelMeta,
    elsewhere: u64,
    name: &str,
    after: &Store,
    found: Option<ModelMeta>,
    found_before: Option<ModelMeta>,
)
    requires
        call_ensures(Store::register_model, (store, namespace, meta), ()),
        *after == *final(store),
        call_ensures(Store::get, (&*old(store), elsewhere, name), found_before),
        call_ensures(Store::get, (after, elsewhere, name), found),
    ensures
        elsewhere == namespace && name@ == meta@.name ==> found is Some && found->0@ == meta@,
        elsewhere != namespace || name@ != meta@.name ==> (found is Some <==> found_before is Some)
            && (found is Some ==> found->0@ == found_before->0@),
{
    let models = store@.models(namespace);
    law_registered_is_found(models, meta@);
    if name@ != meta@.name {
        law_register_keeps_others(models, meta@, name@);
    }
}

/// The model that was recorded last is the one used last.
pub proof fn law_last_used(
    store: &mut Store,
    namespace: u64,
    name: &str,
    elsewhere: u64,
    after: &Store,
    used: Option<String>,
    used_before: Option<String>,
)
    requires
        call_ensures(Store::set_last_used, (store, namespace, name), ()),
        *after == *final(store),
        call_ensures(Store::last_used, (&*old(store), elsewhere), used_before),
        call_ensures(Store::last_used, (after, elsewhere), used),
    ensures
        elsewhere == namespace ==> used is Some && used->0@ == name@,
        elsewhere != namespace ==> (used is Some <==> used_before is Some) && (used is Some
            ==> used->0@ == used_before->0@),
        forall|n: u64| #[trigger] final(store)@.models(n) == old(store)@.models(n),
{
}

/// A file is resolved in two calls: what was located becomes the dataset of the
/// next file, and its documents are added up.
pub proof fn law_locate_then_resolved(
    resolver: &mut Resolver,
    located: &mut Resolver,
    store: &Store,
    namespace: u64,
    entries: &Vec<Option<String>>,
    raw: &str,
    path: Result<String, String>,
    fits: bool,
)
    requires
        old(resolver).pending(),
        call_ensures(Resolver::locate, (resolver, store, namespace, entries), path),
        path is Ok,
        *old(located) == *final(resolver),
        call_ensures(Resolver::resolved, (located, raw), fits),
        fits,
    ensures
        is_step(
            *old(resolver),
            *final(located),
            store@.datasets_dir(namespace),
            entry_names(entries@),
            raw@,
        ),
        final(located).datasets() == old(resolver).datasets().push(path->Ok_0@),
{
}

/// A recipe is refused at a file exactly where its dataset cannot be located, and
/// then nothing was taken in.
pub proof fn law_locate(
    resolver: &mut Resolver,
    store: &Store,
    namespace: u64,
    entries: &Vec<Option<String>>,
    r: Result<String, String>,
)
    requires
        old(resolver).pending(),
        call_ensures(Resolver::locate, (resolver, store, namespace, entries), r),
    ensures
        final(resolver).files() == old(resolver).files(),
        final(resolver).datasets() == old(resolver).datasets(),
        final(resolver).documents() == old(resolver).documents(),
        r is Ok <==> referenced_name(old(resolver).current()) is Some && found_in(
            store@.datasets_dir(namespace),
            referenced_name(old(resolver).current())->0,
            entry_names(entries@),
        ) is Some,
        r is Ok ==> Some(r->Ok_0@) == found_in(
            store@.datasets_dir(namespace),
            referenced_name(old(resolver).current())->0,
            entry_names(entries@),
        ),
{
}

/// There is something to train exactly where there are documents. What is trained
/// are all the datasets, in their order, with a document for every
/// centroid of every expert.
pub proof fn law_finish(
    resolver: Resolver,
    model: &str,
    experts: Experts,
    options: &[CommandOption],
    r: Option<ResolvedRecipe>,
)
    requires
        resolver.wf(),
        !resolver.pending(),
        call_ensures(Resolver::finish, (resolver, model, experts, options), r),
    ensures
        r is Some <==> resolver.documents() > 0,
        r is Some ==> r->0.documents == resolver.documents() && r->0.model_name@ == model@,
        r is Some ==> texts(r->0.datasets@) == resolver.datasets() && r->0.datasets@.len()
            == resolver.files().len(),
        r is Some ==> r->0.experts.num_total * r->0.experts.num_centroids <= r->0.documents,
{
    if r is Some {
        law_clamped_fits(overridden(experts, options@), r->0.documents);
    }
}

/// A report of a new phase is passed on at once, one of the same phase two seconds
/// after the last update unless the token has expired. What is passed on begins
/// with the model and the job and ends with the report's text.
pub proof fn law_progress(
    training: &mut Training,
    later: &mut Training,
    first: &BuildProgress,
    second: &BuildProgress,
    seconds: u64,
    seconds_later: u64,
    expired: bool,
    r: Option<String>,
    s: Option<String>,
)
    requires
        call_ensures(Training::progress, (training, first, seconds, expired), r),
        *old(later) == *final(training),
        call_ensures(Training::progress, (later, second, seconds_later, expired), s),
    ensures
        s is Some <==> phase_label(*first) != phase_label(*second) || (seconds_later >= 2
            && !expired),
        s is Some ==> s->0@ == training_prefix(old(training).model(), old(training).job()) + ": "@
            + phase_text(*second),
        final(later).model() == old(training).model(),
        final(later).job() == old(training).job(),
{
}

/// A step does with a report what `progress` says of it; without one it waits a
/// quarter of a second; and after either it goes on, until the build has stopped
/// reporting.
pub proof fn law_step(
    training: &mut Training,
    same: &mut Training,
    report: BuildProgress,
    event: &TrainEvent,
    seconds: u64,
    expired: bool,
    r: TrainAction,
    s: Option<String>,
)
    requires
        *old(same) == *old(training),
        call_ensures(Training::step, (training, event, seconds, expired), r),
        call_ensures(Training::progress, (same, &report, seconds, expired), s),
    ensures
        *event == TrainEvent::Report(report) ==> (r is Deliver <==> s is Some) && (r is Pass
            <==> s is None) && (r matches TrainAction::Deliver(text) ==> text@ == s->0@)
            && final(training).last_phase() == final(same).last_phase(),
        *event is NoReport ==> (r matches TrainAction::Wait { millis } && millis == 250),
        *event == (TrainEvent::Acted { closed: true }) ==> r is Stop,
        *event == (TrainEvent::Acted { closed: false }) ==> r is Poll,
        !(*event is Report) ==> final(training).last_phase() == old(training).last_phase(),
{
}

/// Jobs are numbered one after the other, and two in a row never alike.
pub proof fn law_job_numbers(
    counter: &mut JobCounter,
    later: &mut JobCounter,
    r: JobId,
    s: JobId,
)
    requires
        call_ensures(JobCounter::submitted, (counter,), r),
        *old(later) == *final(counter),
        call_ensures(JobCounter::submitted, (later,), s),
    ensures
        r < u64::MAX ==> s == r + 1,
        r == u64::MAX ==> s == 0,
{
}

/// While the first worker asked takes the job, the workers take turns.
pub proof fn law_turns(
    dispatcher: &mut Dispatcher,
    after: &Dispatcher,
    r: usize,
    s: usize,
)
    requires
        old(dispatcher).wf(),
        old(dispatcher).turns() < usize::MAX,
        call_ensures(Dispatcher::target, (&*old(dispatcher),), r),
        call_ensures(Dispatcher::advance, (dispatcher, true), ()),
        *after == *final(dispatcher),
        call_ensures(Dispatcher::target, (after,), s),
    ensures
        r < old(dispatcher).size(),
        s == if r + 1 == old(dispatcher).size() {
            0int
        } else {
            r + 1
        },
{
    law_round_robin(dispatcher.turns(), dispatcher.size());
}

/// A path that was found taken is tried no more: the next one to try is another.
pub proof fn law_taken_path_is_not_tried_again(
    path: &mut UniquePath,
    after: &UniquePath,
    r: String,
    s: String,
)
    requires
        old(path).attempt() < u64::MAX,
        call_ensures(UniquePath::candidate, (&*old(path),), r),
        call_ensures(UniquePath::taken, (path,), ()),
        *after == *final(path),
        call_ensures(UniquePath::candidate, (after,), s),
    ensures
        old(path).attempt() == 0 ==> r@ == old(path).wanted(),
        final(path).wanted() == old(path).wanted(),
        s@ != r@,
{
    law_candidates_are_distinct(path.wanted(), path.attempt(), path.attempt() + 1);
}

/// An edit of a tracked reply rewrites the file that the reply was saved to, with
/// the edited text out of its fence, and refreshes the acknowledgement. An edit of
/// another message does what it did before.
pub proof fn law_session_is_synced(
    sessions: &mut RecipeSessions,
    reply: u64,
    path: String,
    confirm: (u64, u64),
    id: u64,
    content: &str,
    after: &RecipeSessions,
    plan: Option<SyncPlan>,
    plan_before: Option<SyncPlan>,
)
    requires
        call_ensures(RecipeSessions::register_session, (sessions, reply, path, confirm), ()),
        *after == *final(sessions),
        call_ensures(
            RecipeSessions::sync_edited_message,
            (&*old(sessions), id, Some(content)),
            plan_before,
        ),
        call_ensures(RecipeSessions::sync_edited_message, (after, id, Some(content)), plan),
    ensures
        id == reply ==> plan is Some && plan->0.path@ == path@ && plan->0.content@
            == fence_stripped(content@) && plan->0.confirm == Some(confirm),
        id != reply ==> (plan is Some <==> plan_before is Some) && (plan is Some ==> plan->0@
            == plan_before->0@),
{
}

/// A model that was loaded is found in the cache from then on, by its namespace and
/// name.
pub proof fn law_loaded_model_is_found<M>(
    engine: &mut QueryEngine<M>,
    namespace: u64,
    name: String,
    asked: &str,
    model: M,
    after: &QueryEngine<M>,
    before: Option<&M>,
    found: Option<&M>,
)
    requires
        old(engine).wf(),
        asked@ == name@,
        call_ensures(QueryEngine::<M>::cached_model, (&*old(engine), namespace, asked), before),
        call_ensures(QueryEngine::<M>::model_loaded, (engine, namespace, name, model), ()),
        *after == *final(engine),
        call_ensures(QueryEngine::<M>::cached_model, (after, namespace, asked), found),
    ensures
        before is None ==> found == Some(&model),
        before is Some ==> found == before,
{
    engine.law_limits_hold(namespace, namespace);
    if before is None {
        law_loaded_model_is_cached(
            engine.cached_items(),
            namespace,
            name@,
            model,
            engine.cache_limit() as nat,
        );
    } else {
        law_cached_model_is_kept(
            engine.cached_items(),
            namespace,
            name@,
            model,
            engine.cache_limit() as nat,
        );
    }
}

} // verus!
