//! The `/train` command: what it asks for, and how a training is reported.

use vstd::prelude::*;

use crate::jobs::JobId;
use crate::numbers::decimal;
use crate::numbers::decimal_of;
use crate::options::option_str;
use crate::options::option_text;
use crate::options::CommandOption;
use crate::progress::phase_label;
use crate::progress::phase_text;
use crate::progress::progress_phase;
use crate::progress::progress_phase_label;
use crate::progress::BuildProgress;
use crate::recipe::Experts;
use crate::store::ModelMeta;
use crate::store::ModelView;
use crate::text::same_text;
use crate::text::texts;

verus! {

/// How many seconds lie at least between two reports of one phase.
pub const MIN_INTERVAL_SECONDS: u64 = 2;

/// How many milliseconds to wait where there is no report.
pub const WAIT_MILLIS: u64 = 250;

/// What a `/train` command asks for.
pub struct TrainRequest {
    /// The name of the model to be.
    pub model: String,
    /// The recipe to train from.
    pub source: String,
}

/// The name that a `/train` command gives to the model: an explicit one, else
/// that of the recipe.
pub open spec fn model_to_train(options: Seq<CommandOption>) -> Option<Seq<char>> {
    match option_text(options, "model"@) {
        Some(name) if name.len() > 0 => Some(name),
        _ => option_text(options, "recipe"@),
    }
}

/// Reads a `/train` command, or answers one that lacks something.
pub fn train(options: &[CommandOption]) -> (r: Result<TrainRequest, String>)
    ensures
        match (model_to_train(options@), option_text(options@, "recipe"@)) {
            (None, _) => r is Err && r->Err_0@
                == "Missing `model` name and no `recipe` provided to derive it from."@,
            (Some(_), None) => r is Err && r->Err_0@
                == "Missing input. Provide either `dataset` (a raw corpus to train on directly) or `recipe` (a recipe referencing uploaded datasets)."@,
            (Some(model), Some(source)) => r is Ok && r->Ok_0.model@ == model && r->Ok_0.source@
                == source,
        },
{
    let source = option_str(options, "recipe");
    let given = match option_str(options, "model") {
        Some(name) => if name.as_str().is_empty() {
            None
        } else {
            Some(name)
        },
        None => None,
    };
    match (given, source) {
        (Some(model), Some(source)) => Ok(TrainRequest { model, source }),
        (None, Some(source)) => Ok(TrainRequest { model: source.clone(), source }),
        (Some(_), None) => Err(
            "Missing input. Provide either `dataset` (a raw corpus to train on directly) or `recipe` (a recipe referencing uploaded datasets).".to_owned(),
        ),
        (None, None) => Err(
            "Missing `model` name and no `recipe` provided to derive it from.".to_owned(),
        ),
    }
}

/// What is told of a recipe that there is nothing to train from.
pub fn unusable_recipe(source: &str) -> (r: String)
    ensures
        r@ == "No usable recipe `"@ + source@
            + "` (unknown, empty, or split into zero documents)."@,
{
    let mut r = "No usable recipe `".to_owned();
    r.append(source);
    r.append("` (unknown, empty, or split into zero documents).");
    r
}

/// What is told of a recipe that could not be resolved.
pub fn config_failed(reason: &str) -> (r: String)
    ensures
        r@ == "Could not build training config: "@ + reason@,
{
    let mut r = "Could not build training config: ".to_owned();
    r.append(reason);
    r
}

/// What is told of a training that could not be submitted.
pub fn start_failed(reason: &str) -> (r: String)
    ensures
        r@ == "Could not start training: "@ + reason@,
{
    let mut r = "Could not start training: ".to_owned();
    r.append(reason);
    r
}

/// What is to be done to deliver an update.
#[derive(Clone, Copy, PartialEq, Eq, Structural, Debug)]
pub enum DeliveryStep {
    /// Edit the response to the interaction.
    EditResponse,
    /// Post a fresh message to the channel.
    SendMessage,
    /// Nothing more.
    Delivered,
}

/// How the delivery of an update goes on, and whether the interaction token
/// counts as expired from then on. `edited` is `None` at the start, and after
/// an attempt to edit the response it says whether that worked.
pub open spec fn delivery(expired: bool, edited: Option<bool>) -> (bool, DeliveryStep) {
    match edited {
        None => if expired {
            (true, DeliveryStep::SendMessage)
        } else {
            (false, DeliveryStep::EditResponse)
        },
        Some(true) => (expired, DeliveryStep::Delivered),
        Some(false) => (true, DeliveryStep::SendMessage),
    }
}

/// Decides how the delivery of an update goes on. While the interaction token
/// is valid the response is edited; once that stops working a fresh channel
/// message is posted instead, which does not need the token.
pub fn deliver_update(token_expired: &mut bool, edited: Option<bool>) -> (r: DeliveryStep)
    ensures
        (*final(token_expired), r) == delivery(*old(token_expired), edited),
{
    match edited {
        None => if *token_expired {
            DeliveryStep::SendMessage
        } else {
            DeliveryStep::EditResponse
        },
        Some(worked) => if worked {
            DeliveryStep::Delivered
        } else {
            *token_expired = true;
            DeliveryStep::SendMessage
        },
    }
}

/// A token that has expired stays expired, and is not tried again.
pub proof fn law_expired_token_is_not_tried(edited: Option<bool>)
    ensures
        delivery(true, edited).0,
        !(delivery(true, edited).1 is EditResponse),
{
}

/// An update reaches the user in one of two ways: by an edit that worked, and
/// otherwise by a message. The token counts as expired afterwards exactly where
/// a message was needed.
pub proof fn law_update_is_edited_or_sent(expired: bool, works: bool)
    ensures
        ({
            let (after, step) = delivery(expired, None);
            if step is EditResponse {
                let (after, step) = delivery(after, Some(works));
                !expired && after == !works && step == if works {
                    DeliveryStep::Delivered
                } else {
                    DeliveryStep::SendMessage
                }
            } else {
                expired && after && step is SendMessage
            }
        }),
{
}

/// How a training ended.
pub enum TrainResult<'a> {
    /// The model was built.
    Built,
    /// The build failed for the given reason.
    Failed(&'a str),
    /// The build was aborted.
    Aborted,
}

/// What happens while a training is under way.
pub enum TrainEvent {
    /// The build had a report.
    Report(BuildProgress),
    /// The build had no report.
    NoReport,
    /// What was to be done is done; `closed` says whether the build has stopped
    /// reporting.
    Acted { closed: bool },
}

/// What is to be done while a training is under way.
pub enum TrainAction {
    /// Ask the build for a report.
    Poll,
    /// Deliver the message as an update.
    Deliver(String),
    /// Wait for the given number of milliseconds.
    Wait { millis: u64 },
    /// Do nothing, and see whether the build has stopped reporting.
    Pass,
    /// Go on to the result of the training.
    Stop,
}

/// A training that is under way.
pub struct Training {
    model: String,
    job: JobId,
    last_phase: &'static str,
}

/// How messages on a training begin.
pub open spec fn training_prefix(model: Seq<char>, job: nat) -> Seq<char> {
    "Training `"@ + model + "` (job `#"@ + decimal(job) + "`)"@
}

/// The message on a training that has begun.
pub open spec fn started_text(
    model: Seq<char>,
    job: nat,
    documents: nat,
    experts: Experts,
) -> Seq<char> {
    training_prefix(model, job) + " on "@ + decimal(documents) + " documents: "@ + decimal(
        experts.num_total as nat,
    ) + " experts / "@ + decimal(experts.num_active as nat) + " active / "@ + decimal(
        experts.num_centroids as nat,
    ) + " centroids..."@
}

/// Whether a report from the build is passed on: always when it begins a new
/// phase, else only after some time, and only while the token is valid, so that
/// a phase with many reports does not flood the channel.
pub open spec fn is_due(
    last_phase: Seq<char>,
    event: BuildProgress,
    seconds: u64,
    token_expired: bool,
) -> bool {
    phase_label(event) != last_phase || (seconds >= MIN_INTERVAL_SECONDS && !token_expired)
}

/// What is told of a training that has ended.
pub open spec fn outcome_text(model: Seq<char>, result: TrainResult) -> Seq<char> {
    match result {
        TrainResult::Built => "Model `"@ + model
            + "` trained and saved. Query it with `/query model:"@ + model
            + " prompt:<your prompt>`."@,
        TrainResult::Failed(reason) => "Training `"@ + model + "` failed: "@ + reason@,
        TrainResult::Aborted => "Training `"@ + model + "` was aborted before completing."@,
    }
}

impl Training {
    /// The name of the model.
    pub closed spec fn model(&self) -> Seq<char> {
        self.model@
    }

    /// The number of the job.
    pub closed spec fn job(&self) -> nat {
        self.job as nat
    }

    /// The label of the phase that was reported last.
    pub closed spec fn last_phase(&self) -> Seq<char> {
        self.last_phase@
    }

    /// A training whose job was submitted.
    pub fn new(model: String, job: JobId) -> (r: Self)
        ensures
            r.model() == model@,
            r.job() == job,
            r.last_phase() == ""@,
    {
        Training { model, job, last_phase: "" }
    }

    fn prefix(&self) -> (r: String)
        ensures
            r@ == training_prefix(self.model(), self.job()),
    {
        let job = decimal_of(self.job);
        let mut r = "Training `".to_owned();
        r.append(self.model.as_str());
        r.append("` (job `#");
        r.append(job.as_str());
        r.append("`)");
        r
    }

    /// The message that the training has begun.
    pub fn started(&self, documents: usize, experts: Experts) -> (r: String)
        ensures
            r@ == started_text(self.model(), self.job(), documents as nat, experts),
    {
        let documents = decimal_of(documents as u64);
        let total = decimal_of(experts.num_total as u64);
        let active = decimal_of(experts.num_active as u64);
        let centroids = decimal_of(experts.num_centroids as u64);
        let mut r = self.prefix();
        r.append(" on ");
        r.append(documents.as_str());
        r.append(" documents: ");
        r.append(total.as_str());
        r.append(" experts / ");
        r.append(active.as_str());
        r.append(" active / ");
        r.append(centroids.as_str());
        r.append(" centroids...");
        r
    }

    /// Handles a report from the build, `seconds` after the last update. Where
    /// it is to be passed on, gives the message.
    pub fn progress(&mut self, event: &BuildProgress, seconds: u64, token_expired: bool) -> (r:
        Option<String>)
        ensures
            final(self).model() == old(self).model(),
            final(self).job() == old(self).job(),
            final(self).last_phase() == phase_label(*event),
            r is Some <==> is_due(old(self).last_phase(), *event, seconds, token_expired),
            match r {
                Some(message) => message@ == training_prefix(old(self).model(), old(self).job())
                    + ": "@ + phase_text(*event),
                None => true,
            },
    {
        let phase = progress_phase_label(event);
        let changed = !same_text(phase, self.last_phase);
        self.last_phase = phase;
        if changed || (seconds >= MIN_INTERVAL_SECONDS && !token_expired) {
            let text = progress_phase(event);
            let mut message = self.prefix();
            message.append(": ");
            message.append(text.as_str());
            Some(message)
        } else {
            None
        }
    }

    /// Decides what is to be done next, `seconds` after the last update: a
    /// report is delivered where it is due, there is a pause where there is no
    /// report, and after each of these the build is asked again, until it has
    /// stopped reporting.
    pub fn step(&mut self, event: &TrainEvent, seconds: u64, token_expired: bool) -> (r: TrainAction)
        ensures
            final(self).model() == old(self).model(),
            final(self).job() == old(self).job(),
            final(self).last_phase() == match *event {
                TrainEvent::Report(report) => phase_label(report),
                _ => old(self).last_phase(),
            },
            match *event {
                TrainEvent::Report(report) => if is_due(
                    old(self).last_phase(),
                    report,
                    seconds,
                    token_expired,
                ) {
                    r matches TrainAction::Deliver(message) && message@ == training_prefix(
                        old(self).model(),
                        old(self).job(),
                    ) + ": "@ + phase_text(report)
                } else {
                    r is Pass
                },
                TrainEvent::NoReport => r matches TrainAction::Wait { millis } && millis
                    == WAIT_MILLIS,
                TrainEvent::Acted { closed } => if closed {
                    r is Stop
                } else {
                    r is Poll
                },
            },
    {
        match event {
            TrainEvent::Report(report) => match self.progress(report, seconds, token_expired) {
                Some(message) => TrainAction::Deliver(message),
                None => TrainAction::Pass,
            },
            TrainEvent::NoReport => TrainAction::Wait { millis: WAIT_MILLIS },
            TrainEvent::Acted { closed } => if *closed {
                TrainAction::Stop
            } else {
                TrainAction::Poll
            },
        }
    }

    /// Concludes a training: the entry to be registered, which is `entry` where
    /// the model was built and none otherwise, and the message that the training
    /// has ended.
    pub fn concluded(&self, result: &TrainResult<'_>, entry: ModelMeta) -> (r: (
        Option<ModelMeta>,
        String,
    ))
        ensures
            r.0 is Some <==> *result is Built,
            r.0 is Some ==> r.0->0@ == entry@,
            r.1@ == outcome_text(self.model(), *result),
    {
        let message = self.ended(result);
        match result {
            TrainResult::Built => (Some(entry), message),
            _ => (None, message),
        }
    }

    fn ended(&self, result: &TrainResult<'_>) -> (r: String)
        ensures
            r@ == outcome_text(self.model(), *result),
    {
        match result {
            TrainResult::Built => {
                let mut r = "Model `".to_owned();
                r.append(self.model.as_str());
                r.append("` trained and saved. Query it with `/query model:");
                r.append(self.model.as_str());
                r.append(" prompt:<your prompt>`.");
                r
            },
            TrainResult::Failed(reason) => {
                let mut r = "Training `".to_owned();
                r.append(self.model.as_str());
                r.append("` failed: ");
                r.append(reason);
                r
            },
            TrainResult::Aborted => {
                let mut r = "Training `".to_owned();
                r.append(self.model.as_str());
                r.append("` was aborted before completing.");
                r
            },
        }
    }
}

/// Two reports in a row of one phase are both passed on only where enough time
/// lies between them and the token is still valid; the first report of another
/// phase is always passed on.
pub proof fn law_phase_changes_are_reported(
    first: BuildProgress,
    second: BuildProgress,
    seconds: u64,
    token_expired: bool,
)
    ensures
        phase_label(first) != phase_label(second) ==> is_due(
            phase_label(first),
            second,
            seconds,
            token_expired,
        ),
        phase_label(first) == phase_label(second) ==> (is_due(
            phase_label(first),
            second,
            seconds,
            token_expired,
        ) <==> seconds >= MIN_INTERVAL_SECONDS && !token_expired),
{
}

/// The first report of a training is passed on whatever it is.
pub proof fn law_first_report_is_passed_on(
    event: BuildProgress,
    seconds: u64,
    token_expired: bool,
)
    ensures
        is_due(""@, event, seconds, token_expired),
{
    reveal_strlit("");
    reveal_strlit("read_files");
    reveal_strlit("pre_tokenize");
    reveal_strlit("fit_tokenizer");
    reveal_strlit("tokens_map");
    reveal_strlit("shared_transitions");
    reveal_strlit("clusterize");
    reveal_strlit("experts");
    reveal_strlit("done");
    assert(""@.len() == 0);
    assert("read_files"@.len() > 0 && "pre_tokenize"@.len() > 0 && "fit_tokenizer"@.len() > 0);
    assert("tokens_map"@.len() > 0 && "shared_transitions"@.len() > 0 && "clusterize"@.len() > 0);
    assert("experts"@.len() > 0 && "done"@.len() > 0);
}

/// The registry entry of a model that was built; its owner is the namespace.
pub fn trained_model(
    namespace: u64,
    model: String,
    path: String,
    datasets: Vec<String>,
    created_at: u64,
    recipe: String,
) -> (r: ModelMeta)
    ensures
        r@ == (ModelView {
            name: model@,
            path: path@,
            datasets: texts(datasets@),
            owner: namespace,
            created_at,
            recipe: recipe@,
        }),
{
    ModelMeta { name: model, path, datasets, owner: namespace, created_at, recipe }
}

/// The name that a model gets is the one that the command gives, unless that is
/// empty or missing: then it is the recipe's.
pub proof fn law_model_to_train(options: Seq<CommandOption>)
    ensures
        option_text(options, "model"@) is Some && option_text(options, "model"@)->0.len() > 0
            ==> model_to_train(options) == option_text(options, "model"@),
        option_text(options, "model"@) is None ==> model_to_train(options) == option_text(
            options,
            "recipe"@,
        ),
        option_text(options, "model"@) == Some(Seq::<char>::empty()) ==> model_to_train(options)
            == option_text(options, "recipe"@),
{
}

/// What is told of a training names the model, the job and the numbers, and tells
/// success, failure and abortion apart.
pub proof fn law_training_messages(
    model: Seq<char>,
    job: nat,
    documents: nat,
    experts: Experts,
    reason: &str,
)
    ensures
        training_prefix(model, job) == "Training `"@ + model + "` (job `#"@ + decimal(job)
            + "`)"@,
        started_text(model, job, documents, experts) == "Training `"@ + model + "` (job `#"@
            + decimal(job) + "`)"@ + " on "@ + decimal(documents) + " documents: "@ + decimal(
            experts.num_total as nat,
        ) + " experts / "@ + decimal(experts.num_active as nat) + " active / "@ + decimal(
            experts.num_centroids as nat,
        ) + " centroids..."@,
        outcome_text(model, TrainResult::Built) == "Model `"@ + model
            + "` trained and saved. Query it with `/query model:"@ + model
            + " prompt:<your prompt>`."@,
        outcome_text(model, TrainResult::Failed(reason)) == "Training `"@ + model + "` failed: "@
            + reason@,
        outcome_text(model, TrainResult::Aborted) == "Training `"@ + model
            + "` was aborted before completing."@,
{
}

} // verus!
