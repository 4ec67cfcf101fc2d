//! The phases of a model build and how they are reported.

use vstd::prelude::*;

use crate::numbers::decimal;
use crate::numbers::decimal_of;
use crate::numbers::wide_decimal_of;
use crate::percent::percent;
use crate::percent::percent_of;

verus! {

/// A report from a model build.
#[allow(inconsistent_fields)]
#[derive(Clone, Copy)]
pub enum BuildProgress {
    ReadFiles { current: usize, total: usize },
    PreTokenize { current: u64, total: u64 },
    FitTokenizer { current: usize, total: usize },
    BuildTokensMap,
    BuildSharedTransitions,
    ClusterizeDatasets,
    BuildExperts { current: usize, total: usize },
    Done,
}

/// `current/total`.
pub open spec fn ratio(current: nat, total: nat) -> Seq<char> {
    decimal(current) + "/"@ + decimal(total)
}

/// The share that is shown behind a ratio; nothing where the total is zero.
pub open spec fn share(current: nat, total: nat) -> Seq<char> {
    if total == 0 {
        seq![]
    } else {
        " ("@ + decimal(percent(current, total)) + "%)"@
    }
}

/// A report as a human-readable phase.
pub open spec fn phase_text(event: BuildProgress) -> Seq<char> {
    match event {
        BuildProgress::ReadFiles { current, total } => "reading files: "@ + ratio(
            current as nat,
            total as nat,
        ) + share(current as nat, total as nat),
        BuildProgress::PreTokenize { current, total } => "pre-tokenizing: "@ + ratio(
            current as nat,
            total as nat,
        ) + " bytes"@ + share(current as nat, total as nat),
        BuildProgress::FitTokenizer { current, total } => "fitting tokenizer: "@ + ratio(
            current as nat,
            total as nat,
        ) + " tokens"@ + share(current as nat, total as nat),
        BuildProgress::BuildTokensMap => "building tokens map"@,
        BuildProgress::BuildSharedTransitions => "building shared transitions"@,
        BuildProgress::ClusterizeDatasets => "clustering documents"@,
        BuildProgress::BuildExperts { current, total } => "experts "@ + ratio(
            current as nat,
            total as nat,
        ) + share(current as nat, total as nat),
        BuildProgress::Done => "finalizing"@,
    }
}

fn counted_phase(prefix: &str, current: u64, total: u64, unit: &str) -> (r: String)
    ensures
        r@ == prefix@ + ratio(current as nat, total as nat) + unit@ + share(
            current as nat,
            total as nat,
        ),
{
    let mut r = prefix.to_owned();
    let done = decimal_of(current);
    let all = decimal_of(total);
    r.append(done.as_str());
    r.append("/");
    r.append(all.as_str());
    assert(r@ == prefix@ + ratio(current as nat, total as nat));
    r.append(unit);
    let ghost before = r@;
    if total != 0 {
        let percent = wide_decimal_of(percent_of(current, total));
        r.append(" (");
        r.append(percent.as_str());
        r.append("%)");
    }
    assert(r@ == before + share(current as nat, total as nat));
    r
}

/// Renders a build report as a human-readable phase, e.g. `experts 3/4 (75%)`
/// or `building tokens map`.
pub fn progress_phase(event: &BuildProgress) -> (r: String)
    ensures
        r@ == phase_text(*event),
{
    proof {
        reveal_strlit("");
    }
    match event {
        BuildProgress::ReadFiles { current, total } => {
            let r = counted_phase("reading files: ", *current as u64, *total as u64, "");
            assert(r@ == phase_text(*event));
            r
        },
        BuildProgress::PreTokenize { current, total } => counted_phase(
            "pre-tokenizing: ",
            *current,
            *total,
            " bytes",
        ),
        BuildProgress::FitTokenizer { current, total } => counted_phase(
            "fitting tokenizer: ",
            *current as u64,
            *total as u64,
            " tokens",
        ),
        BuildProgress::BuildTokensMap => "building tokens map".to_owned(),
        BuildProgress::BuildSharedTransitions => "building shared transitions".to_owned(),
        BuildProgress::ClusterizeDatasets => "clustering documents".to_owned(),
        BuildProgress::BuildExperts { current, total } => {
            let r = counted_phase("experts ", *current as u64, *total as u64, "");
            assert(r@ == phase_text(*event));
            r
        },
        BuildProgress::Done => "finalizing".to_owned(),
    }
}

/// The stable label of a phase.
pub open spec fn phase_label(event: BuildProgress) -> Seq<char> {
    match event {
        BuildProgress::ReadFiles { .. } => "read_files"@,
        BuildProgress::PreTokenize { .. } => "pre_tokenize"@,
        BuildProgress::FitTokenizer { .. } => "fit_tokenizer"@,
        BuildProgress::BuildTokensMap => "tokens_map"@,
        BuildProgress::BuildSharedTransitions => "shared_transitions"@,
        BuildProgress::ClusterizeDatasets => "clusterize"@,
        BuildProgress::BuildExperts { .. } => "experts"@,
        BuildProgress::Done => "done"@,
    }
}

/// Stable label for a build phase. It tells phase transitions apart from the
/// ticks of one phase.
pub fn progress_phase_label(event: &BuildProgress) -> (r: &'static str)
    ensures
        r@ == phase_label(*event),
{
    match event {
        BuildProgress::ReadFiles { .. } => "read_files",
        BuildProgress::PreTokenize { .. } => "pre_tokenize",
        BuildProgress::FitTokenizer { .. } => "fit_tokenizer",
        BuildProgress::BuildTokensMap => "tokens_map",
        BuildProgress::BuildSharedTransitions => "shared_transitions",
        BuildProgress::ClusterizeDatasets => "clusterize",
        BuildProgress::BuildExperts { .. } => "experts",
        BuildProgress::Done => "done",
    }
}

/// The number of a phase, in the order in which a build goes through them.
pub open spec fn phase_number(event: BuildProgress) -> nat {
    match event {
        BuildProgress::ReadFiles { .. } => 0,
        BuildProgress::PreTokenize { .. } => 1,
        BuildProgress::FitTokenizer { .. } => 2,
        BuildProgress::BuildTokensMap => 3,
        BuildProgress::BuildSharedTransitions => 4,
        BuildProgress::ClusterizeDatasets => 5,
        BuildProgress::BuildExperts { .. } => 6,
        BuildProgress::Done => 7,
    }
}

/// Two reports have the same label exactly where they are of the same phase,
/// however far that has come; no label is empty.
pub proof fn law_labels_tell_phases_apart(a: BuildProgress, b: BuildProgress)
    ensures
        phase_label(a) == phase_label(b) <==> phase_number(a) == phase_number(b),
        phase_label(a).len() > 0,
{
    reveal_strlit("read_files");
    reveal_strlit("pre_tokenize");
    reveal_strlit("fit_tokenizer");
    reveal_strlit("tokens_map");
    reveal_strlit("shared_transitions");
    reveal_strlit("clusterize");
    reveal_strlit("experts");
    reveal_strlit("done");
    // Lengths tell most labels apart, the first letter the others.
    assert("read_files"@.len() == 10 && "tokens_map"@.len() == 10 && "clusterize"@.len() == 10);
    assert("pre_tokenize"@.len() == 12 && "fit_tokenizer"@.len() == 13);
    assert("shared_transitions"@.len() == 18 && "experts"@.len() == 7 && "done"@.len() == 4);
    assert("read_files"@[0] == 'r');
    assert("tokens_map"@[0] == 't');
    assert("clusterize"@[0] == 'c');
}

/// A counted phase is shown with its count and, unless the total is zero, with its
/// share; each phase begins with words of its own.
pub proof fn law_phase_text(current: usize, total: usize, bytes: u64, all: u64)
    ensures
        phase_text(BuildProgress::ReadFiles { current, total }) == "reading files: "@ + counted(
            current as nat,
            total as nat,
            Seq::empty(),
        ),
        phase_text(BuildProgress::PreTokenize { current: bytes, total: all })
            == "pre-tokenizing: "@ + counted(bytes as nat, all as nat, " bytes"@),
        phase_text(BuildProgress::FitTokenizer { current, total }) == "fitting tokenizer: "@
            + counted(current as nat, total as nat, " tokens"@),
        phase_text(BuildProgress::BuildExperts { current, total }) == "experts "@ + counted(
            current as nat,
            total as nat,
            Seq::empty(),
        ),
        phase_text(BuildProgress::BuildTokensMap) == "building tokens map"@,
        phase_text(BuildProgress::BuildSharedTransitions) == "building shared transitions"@,
        phase_text(BuildProgress::ClusterizeDatasets) == "clustering documents"@,
        phase_text(BuildProgress::Done) == "finalizing"@,
{
    let event = BuildProgress::ReadFiles { current, total };
    assert(phase_text(event) == "reading files: "@ + counted(
        current as nat,
        total as nat,
        Seq::empty(),
    ));
    let event = BuildProgress::PreTokenize { current: bytes, total: all };
    assert(phase_text(event) == "pre-tokenizing: "@ + counted(
        bytes as nat,
        all as nat,
        " bytes"@,
    ));
    let event = BuildProgress::FitTokenizer { current, total };
    assert(phase_text(event) == "fitting tokenizer: "@ + counted(
        current as nat,
        total as nat,
        " tokens"@,
    ));
    let event = BuildProgress::BuildExperts { current, total };
    assert(phase_text(event) == "experts "@ + counted(current as nat, total as nat, Seq::empty()));
}

/// A count, what it counts, and its share.
pub open spec fn counted(current: nat, total: nat, unit: Seq<char>) -> Seq<char> {
    decimal(current) + "/"@ + decimal(total) + unit + (if total == 0 {
        seq![]
    } else {
        " ("@ + decimal(percent(current, total)) + "%)"@
    })
}

} // verus!
