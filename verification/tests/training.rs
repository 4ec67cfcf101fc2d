use capacitor_bot::jobs::forwarded_progress;
use capacitor_bot::jobs::log_progress;
use capacitor_bot::jobs::pool_size;
use capacitor_bot::jobs::queue_capacity;
use capacitor_bot::jobs::thread_name;
use capacitor_bot::jobs::Dispatcher;
use capacitor_bot::jobs::JobCounter;
use capacitor_bot::options::option_int;
use capacitor_bot::options::option_str;
use capacitor_bot::options::CommandOption;
use capacitor_bot::options::OptionValue;
use capacitor_bot::progress::progress_phase;
use capacitor_bot::progress::progress_phase_label;
use capacitor_bot::progress::BuildProgress;
use capacitor_bot::recipe::clamp_clustering;
use capacitor_bot::recipe::count_documents;
use capacitor_bot::recipe::model_name_key;
use capacitor_bot::recipe::override_experts;
use capacitor_bot::recipe::parse_failure;
use capacitor_bot::recipe::Experts;
use capacitor_bot::recipe::RecipeFile;
use capacitor_bot::recipe::Resolver;
use capacitor_bot::store::ModelMeta;
use capacitor_bot::store::Registry;
use capacitor_bot::store::Store;
use capacitor_bot::train::config_failed;
use capacitor_bot::train::deliver_update;
use capacitor_bot::train::start_failed;
use capacitor_bot::train::train;
use capacitor_bot::train::trained_model;
use capacitor_bot::train::unusable_recipe;
use capacitor_bot::train::DeliveryStep;
use capacitor_bot::train::TrainAction;
use capacitor_bot::train::TrainEvent;
use capacitor_bot::train::TrainResult;
use capacitor_bot::train::Training;

fn text(name: &str, value: &str) -> CommandOption {
    CommandOption {
        name: name.to_string(),
        value: OptionValue::Text(value.to_string()),
    }
}

fn integer(name: &str, value: i64) -> CommandOption {
    CommandOption {
        name: name.to_string(),
        value: OptionValue::Integer(value),
    }
}

fn file(path: &str, delimiter: &str) -> RecipeFile {
    RecipeFile {
        path: path.to_string(),
        readable: true,
        delimiter: delimiter.to_string(),
    }
}

fn clamped(total: usize, active: usize, centroids: usize, documents: usize) -> (usize, usize, usize) {
    let mut experts = Experts {
        num_total: total,
        num_active: active,
        num_centroids: centroids,
    };
    clamp_clustering(&mut experts, documents);
    (experts.num_total, experts.num_active, experts.num_centroids)
}

#[test]
fn the_first_option_of_a_name_counts() {
    let options = [text("a", "x"), integer("b", 3), text("a", "y"), integer("c", 1), text("c", "z")];
    assert_eq!(option_str(&options, "a"), Some("x".to_string()));
    assert_eq!(option_str(&options, "b"), None);
    assert_eq!(option_int(&options, "b"), Some(3));
    assert_eq!(option_int(&options, "a"), None);
    assert_eq!(option_str(&options, "c"), None);
    assert_eq!(option_int(&options, "d"), None);
}

#[test]
fn clustering_is_clamped_to_the_documents() {
    assert_eq!(clamped(8, 4, 16, 100), (8, 4, 12));
    assert_eq!(clamped(200, 150, 5, 100), (100, 100, 1));
    assert_eq!(clamped(3, 9, 2, 10), (3, 3, 2));
    assert_eq!(clamped(4, 2, 3, 10), (4, 2, 2));
}

#[test]
fn zeros_stay_automatic() {
    assert_eq!(clamped(0, 0, 0, 10), (0, 0, 0));
    assert_eq!(clamped(0, 5, 20, 10), (0, 1, 10));
    assert_eq!(clamped(0, 0, 5, 10), (0, 0, 5));
}

#[test]
fn without_documents_there_are_no_experts() {
    assert_eq!(clamped(2, 1, 3, 0), (0, 1, 0));
    assert_eq!(clamped(5, 5, 5, 0), (0, 1, 0));
    assert_eq!(clamped(0, 0, 5, 0), (0, 0, 0));
}

#[test]
fn clamping_never_exceeds_the_documents() {
    for documents in 0..12 {
        for total in 0..14 {
            for centroids in 0..14 {
                let (t, a, c) = clamped(total, 6, centroids, documents);
                assert!(t * c <= documents);
                assert!(a <= t.max(1));
                assert_eq!(clamped(t, a, c, documents), (t, a, c));
            }
        }
    }
}

#[test]
fn documents_are_counted_between_delimiters() {
    assert_eq!(count_documents("a\n---\nb\n---\n \n", "---"), 2);
    assert_eq!(count_documents("", "---"), 0);
    assert_eq!(count_documents(" \t\n", "\n"), 0);
    assert_eq!(count_documents("aXXXb", "XX"), 2);
    assert_eq!(count_documents("no delimiter here", "---"), 1);
}

#[test]
fn without_a_delimiter_a_dataset_is_one_document() {
    assert_eq!(count_documents("a\nb", ""), 1);
    assert_eq!(count_documents("", ""), 0);
    assert_eq!(count_documents(" \n\t", ""), 0);
}

#[test]
fn counting_agrees_with_std() {
    for raw in ["a,b,,c", ",", ",,", "aaaa", "a , b", "ä,ö", " , , x"] {
        for delimiter in [",", "a", "aa", ",,", " , "] {
            let expected = raw
                .split(delimiter)
                .map(str::trim)
                .filter(|d| !d.is_empty())
                .count();
            assert_eq!(count_documents(raw, delimiter), expected, "{raw:?} {delimiter:?}");
        }
    }
}

fn entries(names: &[&str]) -> Vec<Option<String>> {
    names.iter().map(|n| Some(n.to_string())).collect()
}

#[test]
fn a_recipe_is_resolved_to_uploaded_datasets() {
    let store = Store::new("/data".to_string(), Registry::default());
    let entries = entries(&["other.txt", "a.txt", "b.dataset"]);
    let mut resolver = Resolver::new(vec![file("x/a.txt", "\n"), file("b", "")]);
    assert!(resolver.is_pending());
    let path = resolver.locate(&store, 5, &entries).unwrap();
    assert_eq!(path, "/data/5/datasets/a.txt");
    assert!(resolver.resolved("one\ntwo\n\n"));
    let path = resolver.locate(&store, 5, &entries).unwrap();
    assert_eq!(path, "/data/5/datasets/b.dataset");
    assert!(resolver.resolved("three"));
    assert!(!resolver.is_pending());
    let experts = Experts {
        num_total: 9,
        num_active: 2,
        num_centroids: 4,
    };
    let resolved = resolver.finish("m", experts, &[integer("total_experts", 2)]).unwrap();
    assert_eq!(resolved.documents, 3);
    assert_eq!(
        resolved.datasets,
        ["/data/5/datasets/a.txt", "/data/5/datasets/b.dataset"]
    );
    assert_eq!(resolved.experts.num_total, 2);
    assert_eq!(resolved.experts.num_active, 2);
    assert_eq!(resolved.experts.num_centroids, 1);
    assert_eq!(resolved.model_name, "m");
    assert_eq!(model_name_key(), "model.name");
}

#[test]
fn a_recipe_with_a_missing_dataset_is_refused() {
    let store = Store::new("/data".to_string(), Registry::default());
    let mut resolver = Resolver::new(vec![file("x/a.txt", "\n")]);
    assert_eq!(
        resolver.locate(&store, 5, &entries(&["b.txt"])),
        Err("recipe references `a.txt`, but no dataset with that name is uploaded in this server. `/dataset upload` it first.".to_string())
    );
}

#[test]
fn a_recipe_with_an_unreadable_name_is_refused() {
    let store = Store::new("/data".to_string(), Registry::default());
    let mut resolver = Resolver::new(vec![file("x/..", "\n")]);
    assert_eq!(
        resolver.locate(&store, 5, &entries(&["b.txt"])),
        Err("recipe references a dataset with an unreadable name: x/..".to_string())
    );
    let mut unreadable = file("x/b\u{fffd}", "");
    unreadable.readable = false;
    let mut resolver = Resolver::new(vec![unreadable]);
    assert_eq!(
        resolver.locate(&store, 5, &entries(&["b_"])),
        Err("recipe references a dataset with an unreadable name: x/b\u{fffd}".to_string())
    );
}

#[test]
fn a_recipe_without_documents_has_nothing_to_train() {
    let store = Store::new("/data".to_string(), Registry::default());
    let mut resolver = Resolver::new(vec![file("a", ",")]);
    assert!(resolver.locate(&store, 5, &entries(&["a"])).is_ok());
    assert!(resolver.resolved(" , "));
    let experts = Experts {
        num_total: 1,
        num_active: 1,
        num_centroids: 1,
    };
    assert!(resolver.finish("m", experts, &[]).is_none());
    assert!(Resolver::new(Vec::new()).finish("m", experts, &[]).is_none());
}

#[test]
fn options_override_the_numbers_of_a_recipe() {
    let experts = Experts {
        num_total: 1,
        num_active: 2,
        num_centroids: 3,
    };
    let options = [
        integer("total_experts", 10),
        integer("active_experts", -1),
        text("centroids", "7"),
    ];
    let r = override_experts(experts, &options);
    assert_eq!(r.num_total, 10);
    assert_eq!(r.num_active, -1i64 as usize);
    assert_eq!(r.num_centroids, 3);
    let r = override_experts(experts, &[integer("centroids", i64::MIN)]);
    assert_eq!(r.num_centroids, i64::MIN as usize);
}

#[test]
fn recipe_failures_are_named() {
    assert_eq!(
        parse_failure("m", "bad line"),
        "`m` did not parse as a capacitorfile recipe: bad line"
    );
    assert_eq!(
        unusable_recipe("r"),
        "No usable recipe `r` (unknown, empty, or split into zero documents)."
    );
    assert_eq!(config_failed("e"), "Could not build training config: e");
    assert_eq!(start_failed("e"), "Could not start training: e");
}

#[test]
fn training_takes_its_name_from_the_recipe() {
    let request = train(&[text("recipe", "r")]).ok().unwrap();
    assert_eq!(request.model, "r");
    assert_eq!(request.source, "r");
    let request = train(&[text("model", ""), text("recipe", "r")]).ok().unwrap();
    assert_eq!(request.model, "r");
    let request = train(&[text("model", "m"), text("recipe", "r")]).ok().unwrap();
    assert_eq!(request.model, "m");
    assert_eq!(request.source, "r");
}

#[test]
fn training_needs_a_recipe() {
    assert_eq!(
        train(&[]).err().unwrap(),
        "Missing `model` name and no `recipe` provided to derive it from."
    );
    assert_eq!(
        train(&[text("model", "m")]).err().unwrap(),
        "Missing input. Provide either `dataset` (a raw corpus to train on directly) or `recipe` (a recipe referencing uploaded datasets)."
    );
}

#[test]
fn updates_are_edited_until_the_token_expires() {
    let mut expired = false;
    assert_eq!(deliver_update(&mut expired, None), DeliveryStep::EditResponse);
    assert_eq!(deliver_update(&mut expired, Some(true)), DeliveryStep::Delivered);
    assert!(!expired);
    assert_eq!(deliver_update(&mut expired, None), DeliveryStep::EditResponse);
    assert_eq!(deliver_update(&mut expired, Some(false)), DeliveryStep::SendMessage);
    assert!(expired);
    assert_eq!(deliver_update(&mut expired, None), DeliveryStep::SendMessage);
    assert!(expired);
}

#[test]
fn a_training_is_reported_from_start_to_end() {
    let mut training = Training::new("m".to_string(), 3);
    let experts = Experts {
        num_total: 4,
        num_active: 2,
        num_centroids: 5,
    };
    assert_eq!(
        training.started(20, experts),
        "Training `m` (job `#3`) on 20 documents: 4 experts / 2 active / 5 centroids..."
    );
    let first = BuildProgress::BuildExperts {
        current: 0,
        total: 4,
    };
    let later = BuildProgress::BuildExperts {
        current: 3,
        total: 4,
    };
    assert_eq!(
        training.progress(&first, 0, false),
        Some("Training `m` (job `#3`): experts 0/4 (0%)".to_string())
    );
    assert_eq!(training.progress(&later, 1, false), None);
    assert_eq!(
        training.progress(&later, 2, false),
        Some("Training `m` (job `#3`): experts 3/4 (75%)".to_string())
    );
    assert_eq!(training.progress(&later, 9, true), None);
    assert_eq!(
        training.progress(&BuildProgress::Done, 0, true),
        Some("Training `m` (job `#3`): finalizing".to_string())
    );
    let (entry, message) = training.concluded(&TrainResult::Built, built("m"));
    assert_eq!(entry.unwrap().name, "m");
    assert_eq!(
        message,
        "Model `m` trained and saved. Query it with `/query model:m prompt:<your prompt>`."
    );
}

#[test]
fn only_a_model_that_was_built_is_registered() {
    let training = Training::new("m".to_string(), 3);
    let (entry, message) = training.concluded(&TrainResult::Failed("e"), built("m"));
    assert!(entry.is_none());
    assert_eq!(message, "Training `m` failed: e");
    let (entry, message) = training.concluded(&TrainResult::Aborted, built("m"));
    assert!(entry.is_none());
    assert_eq!(message, "Training `m` was aborted before completing.");
}

fn built(name: &str) -> ModelMeta {
    trained_model(
        9,
        name.to_string(),
        "/p".to_string(),
        Vec::new(),
        77,
        "r".to_string(),
    )
}

#[test]
fn a_training_is_followed_until_it_stops_reporting() {
    let mut training = Training::new("m".to_string(), 3);
    let report = TrainEvent::Report(BuildProgress::BuildExperts {
        current: 1,
        total: 2,
    });
    assert!(matches!(
        training.step(&report, 0, false),
        TrainAction::Deliver(m) if m == "Training `m` (job `#3`): experts 1/2 (50%)"
    ));
    assert!(matches!(training.step(&report, 0, false), TrainAction::Pass));
    assert!(matches!(training.step(&report, 2, false), TrainAction::Deliver(_)));
    assert!(matches!(
        training.step(&TrainEvent::NoReport, 9, false),
        TrainAction::Wait { millis: 250 }
    ));
    assert!(matches!(
        training.step(&TrainEvent::Acted { closed: false }, 9, false),
        TrainAction::Poll
    ));
    assert!(matches!(
        training.step(&TrainEvent::Acted { closed: true }, 9, false),
        TrainAction::Stop
    ));
}

#[test]
fn jobs_are_numbered_from_zero() {
    let mut counter = JobCounter::new();
    assert_eq!(counter.submitted(), 0);
    assert_eq!(counter.submitted(), 1);
    assert_eq!(counter.submitted(), 2);
}

#[test]
fn a_trained_model_is_owned_by_its_namespace() {
    let meta = trained_model(
        9,
        "m".to_string(),
        "/p".to_string(),
        vec!["/d".to_string()],
        77,
        "r".to_string(),
    );
    assert_eq!(meta.name, "m");
    assert_eq!(meta.path, "/p");
    assert_eq!(meta.datasets, ["/d"]);
    assert_eq!(meta.owner, 9);
    assert_eq!(meta.created_at, 77);
    assert_eq!(meta.recipe, "r");
}

#[test]
fn phases_are_shown_with_their_share() {
    assert_eq!(
        progress_phase(&BuildProgress::ReadFiles { current: 1, total: 3 }),
        "reading files: 1/3 (33%)"
    );
    assert_eq!(
        progress_phase(&BuildProgress::PreTokenize { current: 5, total: 10 }),
        "pre-tokenizing: 5/10 bytes (50%)"
    );
    assert_eq!(
        progress_phase(&BuildProgress::FitTokenizer { current: 2, total: 0 }),
        "fitting tokenizer: 2/0 tokens"
    );
    assert_eq!(progress_phase(&BuildProgress::BuildTokensMap), "building tokens map");
    assert_eq!(
        progress_phase(&BuildProgress::BuildSharedTransitions),
        "building shared transitions"
    );
    assert_eq!(progress_phase(&BuildProgress::ClusterizeDatasets), "clustering documents");
    assert_eq!(
        progress_phase(&BuildProgress::BuildExperts { current: 3, total: 4 }),
        "experts 3/4 (75%)"
    );
    assert_eq!(progress_phase(&BuildProgress::Done), "finalizing");
}

fn share_in_doubles(current: u64, total: u64) -> String {
    format!(
        "pre-tokenizing: {current}/{total} bytes ({:.0}%)",
        current as f64 / total as f64 * 100.0
    )
}

#[test]
fn shares_agree_with_double_precision() {
    for total in 1..=400u64 {
        for current in 0..=(total + 5) {
            assert_eq!(
                progress_phase(&BuildProgress::PreTokenize { current, total }),
                share_in_doubles(current, total)
            );
        }
    }
    let mut n: u64 = 12345;
    for i in 0..40000u64 {
        n = n.wrapping_mul(6364136223846793005).wrapping_add(1442695040888963407);
        let current = n >> (i % 61);
        n = n.wrapping_mul(6364136223846793005).wrapping_add(1442695040888963407);
        let total = (n >> (i / 61 % 61)).max(1);
        assert_eq!(
            progress_phase(&BuildProgress::PreTokenize { current, total }),
            share_in_doubles(current, total)
        );
    }
    for (current, total) in [(1, u64::MAX), (u64::MAX, 1), (u64::MAX, u64::MAX), (u64::MAX - 1, 3)] {
        assert_eq!(
            progress_phase(&BuildProgress::PreTokenize { current, total }),
            share_in_doubles(current, total)
        );
    }
}

#[test]
fn ties_in_a_share_go_as_doubles_go() {
    // 0.285 times a hundred is a little less than 28.5 in double precision.
    assert_eq!(
        progress_phase(&BuildProgress::PreTokenize { current: 57, total: 200 }),
        "pre-tokenizing: 57/200 bytes (28%)"
    );
    assert_eq!(
        progress_phase(&BuildProgress::PreTokenize { current: 3, total: 200 }),
        "pre-tokenizing: 3/200 bytes (2%)"
    );
}

#[test]
fn labels_tell_phases_apart() {
    let events = [
        BuildProgress::ReadFiles { current: 1, total: 2 },
        BuildProgress::PreTokenize { current: 1, total: 2 },
        BuildProgress::FitTokenizer { current: 1, total: 2 },
        BuildProgress::BuildTokensMap,
        BuildProgress::BuildSharedTransitions,
        BuildProgress::ClusterizeDatasets,
        BuildProgress::BuildExperts { current: 1, total: 2 },
        BuildProgress::Done,
    ];
    let labels: Vec<&str> = events.iter().map(progress_phase_label).collect();
    assert_eq!(
        labels,
        [
            "read_files",
            "pre_tokenize",
            "fit_tokenizer",
            "tokens_map",
            "shared_transitions",
            "clusterize",
            "experts",
            "done"
        ]
    );
}

#[test]
fn the_pool_has_at_least_one_worker() {
    assert_eq!(pool_size(0), 1);
    assert_eq!(pool_size(4), 4);
    assert_eq!(queue_capacity(4), 8);
    assert_eq!(queue_capacity(usize::MAX), usize::MAX);
    assert_eq!(thread_name(2), "capacitor-train-2");
}

#[test]
fn jobs_go_round_the_workers() {
    let mut dispatcher = Dispatcher::new(3);
    let mut targets = Vec::new();
    for _ in 0..7 {
        targets.push(dispatcher.target());
        dispatcher.advance(true);
    }
    assert_eq!(targets, [0, 1, 2, 0, 1, 2, 0]);
}

#[test]
fn a_worker_is_skipped_after_one_that_is_gone() {
    let mut dispatcher = Dispatcher::new(3);
    dispatcher.advance(false);
    assert_eq!(dispatcher.target(), 2);
    dispatcher.advance(true);
    assert_eq!(dispatcher.target(), 0);
}

#[test]
fn only_expert_counts_are_forwarded() {
    assert_eq!(log_progress(2, 5), Some((2, 5)));
    assert_eq!(log_progress(2, 0), None);
    assert_eq!(
        forwarded_progress(&BuildProgress::BuildExperts { current: 1, total: 2 }),
        Some((1, 2))
    );
    assert_eq!(
        forwarded_progress(&BuildProgress::BuildExperts { current: 0, total: 0 }),
        None
    );
    assert_eq!(
        forwarded_progress(&BuildProgress::ReadFiles { current: 1, total: 2 }),
        None
    );
    assert_eq!(forwarded_progress(&BuildProgress::Done), None);
}
