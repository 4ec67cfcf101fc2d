//! Training configuration: resolving a recipe's datasets and fitting the
//! numbers of experts and centroids to the documents.

use vstd::prelude::*;

use crate::options::option_int;
use crate::options::option_number;
use crate::options::CommandOption;
use crate::paths::file_name;
use crate::paths::path_file_name;
use crate::store::entry_names;
use crate::store::found_in;
use crate::store::Store;
use crate::text::chars_of;
use crate::text::lemma_find;
use crate::text::position_of;
use crate::text::split;
use crate::text::texts;
use crate::text::trim;
use crate::text::trimmed;

verus! {

/// The numbers that shape a model. Zero stands for "auto".
#[derive(Clone, Copy)]
pub struct Experts {
    pub num_total: usize,
    pub num_active: usize,
    pub num_centroids: usize,
}

/// A dataset that a recipe refers to.
pub struct RecipeFile {
    /// The path, as far as it can be shown.
    pub path: String,
    /// Whether the file name is valid Unicode.
    pub readable: bool,
    /// What stands between two documents; empty where the file is one document.
    pub delimiter: String,
}

/// The lesser of two numbers.
pub open spec fn lesser(a: int, b: int) -> int {
    if a < b {
        a
    } else {
        b
    }
}

/// The greater of two numbers.
pub open spec fn greater(a: int, b: int) -> int {
    if a < b {
        b
    } else {
        a
    }
}

/// The numbers fitted to a number of documents: no more experts than
/// documents, no more active experts than experts, and no more centroids per
/// expert than there are documents per expert.
pub open spec fn clamped(experts: Experts, documents: usize) -> Experts {
    let total = lesser(experts.num_total as int, documents as int);
    Experts {
        num_total: total as usize,
        num_active: lesser(experts.num_active as int, greater(total, 1)) as usize,
        num_centroids: lesser(
            experts.num_centroids as int,
            documents as int / greater(total, 1),
        ) as usize,
    }
}

fn least(a: usize, b: usize) -> (r: usize)
    ensures
        r == lesser(a as int, b as int),
{
    if a < b {
        a
    } else {
        b
    }
}

/// Clamps the numbers of experts, active experts and centroids so that experts
/// times centroids never exceeds the number of documents. Zeros are left as
/// they are, since they stand for "auto".
pub fn clamp_clustering(experts: &mut Experts, documents: usize)
    ensures
        *final(experts) == clamped(*old(experts), documents),
{
    experts.num_total = least(experts.num_total, documents);
    let at_least_one: usize = if experts.num_total < 1 {
        1
    } else {
        experts.num_total
    };
    experts.num_active = least(experts.num_active, at_least_one);
    assert(0 <= documents as int / at_least_one as int <= documents) by (nonlinear_arith)
        requires
            at_least_one >= 1,
    ;
    experts.num_centroids = least(experts.num_centroids, documents / at_least_one);
}

/// Clamping keeps experts times centroids within the number of documents, never
/// raises a number, so that zeros stay zeros, and has no more active experts
/// than experts, or one where the number of experts is zero. As long as there
/// are documents, nothing but zeros becomes zero.
pub proof fn law_clamped_fits(experts: Experts, documents: usize)
    ensures
        clamped(experts, documents).num_total * clamped(experts, documents).num_centroids
            <= documents,
        clamped(experts, documents).num_total <= experts.num_total,
        clamped(experts, documents).num_active <= experts.num_active,
        clamped(experts, documents).num_centroids <= experts.num_centroids,
        clamped(experts, documents).num_active <= greater(
            clamped(experts, documents).num_total as int,
            1,
        ),
        clamped(experts, documents).num_active == 0 <==> experts.num_active == 0,
        documents >= 1 ==> (clamped(experts, documents).num_total == 0 <==> experts.num_total
            == 0),
        documents >= 1 ==> (clamped(experts, documents).num_centroids == 0
            <==> experts.num_centroids == 0),
{
    let t = lesser(experts.num_total as int, documents as int);
    let g = greater(t, 1);
    let d = documents as int / g;
    let c = lesser(experts.num_centroids as int, d);
    assert(0 <= d && g * d <= documents) by (nonlinear_arith)
        requires
            d == documents as int / g,
            g >= 1,
            documents >= 0,
    ;
    assert(documents >= 1 ==> d >= 1) by (nonlinear_arith)
        requires
            d == documents as int / g,
            1 <= g,
            g <= documents || g == 1,
    ;
    assert(d <= documents) by (nonlinear_arith)
        requires
            g * d <= documents,
            g >= 1,
            d >= 0,
    ;
    assert(t * c <= g * d) by (nonlinear_arith)
        requires
            0 <= t <= g,
            0 <= c <= d,
    ;
}

/// Clamping numbers that are clamped already changes nothing.
pub proof fn law_clamp_idempotent(experts: Experts, documents: usize)
    ensures
        clamped(clamped(experts, documents), documents) == clamped(experts, documents),
{
}

/// The number of parts that hold more than white space.
pub open spec fn non_blank(parts: Seq<Seq<char>>) -> nat
    decreases parts.len(),
{
    if parts.len() == 0 {
        0
    } else {
        non_blank(parts.drop_first()) + if trim(parts[0]).len() > 0 {
            1nat
        } else {
            0
        }
    }
}

/// The number of documents in a dataset that hold more than white space.
/// Without a delimiter the dataset is a single document.
pub open spec fn document_count(raw: Seq<char>, delimiter: Seq<char>) -> nat {
    if delimiter.len() == 0 {
        if trim(raw).len() > 0 {
            1
        } else {
            0
        }
    } else {
        non_blank(split(raw, delimiter))
    }
}

/// Counts how many non-empty documents a dataset contains when split by the
/// given delimiter. Without a delimiter the dataset is a single document.
pub fn count_documents(raw: &str, delimiter: &str) -> (r: usize)
    ensures
        r == document_count(raw@, delimiter@),
{
    let chars = chars_of(raw);
    let needle = chars_of(delimiter);
    if needle.len() == 0 {
        return if trimmed(chars.as_slice()).len() > 0 {
            1
        } else {
            0
        };
    }
    let all = chars.as_slice();
    let mut start: usize = 0;
    let mut count: usize = 0;
    assert(all@.skip(0) == all@);
    loop
        invariant
            needle@ == delimiter@,
            needle@.len() > 0,
            all@ == raw@,
            start <= all@.len(),
            count <= start,
            document_count(raw@, delimiter@) == count + non_blank(
                split(all@.skip(start as int), needle@),
            ),
        decreases all@.len() - start,
    {
        let rest = vstd::slice::slice_subrange(all, start, all.len());
        assert(rest@ == all@.skip(start as int));
        proof {
            lemma_find(rest@, needle@);
        }
        match position_of(rest, needle.as_slice()) {
            Some(n) => {
                let part = vstd::slice::slice_subrange(rest, 0, n);
                assert(part@ == rest@.take(n as int));
                assert(rest@.skip(n + needle@.len()) == all@.skip(start + n + needle@.len()));
                let ghost parts = split(rest@, needle@);
                assert(parts.drop_first() == split(rest@.skip(n + needle@.len()), needle@));
                assert(parts[0] == part@);
                if trimmed(part).len() > 0 {
                    count = count + 1;
                }
                start = start + n + needle.len();
            },
            None => {
                let ghost parts = split(rest@, needle@);
                assert(parts[0] == rest@);
                assert(parts.drop_first() == Seq::<Seq<char>>::empty());
                assert(non_blank(parts.drop_first()) == 0);
                if trimmed(rest).len() > 0 {
                    assert(rest@.len() > 0) by {
                        if rest@.len() == 0 {
                            assert(trim(rest@).len() == 0);
                        }
                    }
                    count = count + 1;
                }
                return count;
            },
        }
    }
}

/// How a recipe that refers to a dataset without a readable name is refused.
pub open spec fn unreadable_text(path: Seq<char>) -> Seq<char> {
    "recipe references a dataset with an unreadable name: "@ + path
}

/// How a recipe that refers to a dataset that was not uploaded is refused.
pub open spec fn missing_text(name: Seq<char>) -> Seq<char> {
    "recipe references `"@ + name
        + "`, but no dataset with that name is uploaded in this server. `/dataset upload` it first."@
}

/// The name of the dataset that a recipe's file refers to, if it can be read.
pub open spec fn referenced_name(file: RecipeFile) -> Option<Seq<char>> {
    if file.readable {
        path_file_name(file.path@)
    } else {
        None
    }
}

/// Reads the name of the dataset that a recipe's file refers to.
pub fn reference_name(file: &RecipeFile) -> (r: Option<String>)
    ensures
        match r {
            Some(name) => referenced_name(*file) == Some(name@),
            None => referenced_name(*file) is None,
        },
{
    if file.readable {
        file_name(file.path.as_str())
    } else {
        None
    }
}

/// The path of the dataset that a recipe's file refers to, where `entries` are
/// the file names found in the datasets directory `dir`; or the reason why the
/// recipe cannot be used.
pub open spec fn location(
    file: RecipeFile,
    dir: Seq<char>,
    entries: Seq<Option<Seq<char>>>,
) -> Result<Seq<char>, Seq<char>> {
    match referenced_name(file) {
        None => Err(unreadable_text(file.path@)),
        Some(name) => match found_in(dir, name, entries) {
            None => Err(missing_text(name)),
            Some(path) => Ok(path),
        },
    }
}

/// What came of resolving a recipe.
pub struct ResolvedRecipe {
    /// The path of each dataset, in the order of the recipe's files.
    pub datasets: Vec<String>,
    /// How many documents the datasets hold.
    pub documents: usize,
    /// The numbers to train with.
    pub experts: Experts,
    /// The model name that the recipe is to set.
    pub model_name: String,
}

/// The key under which a recipe sets the model name.
pub fn model_name_key() -> (r: &'static str)
    ensures
        r@ == "model.name"@,
{
    "model.name"
}

/// Resolves a recipe's dataset references, one file after the other, to
/// datasets uploaded in the current server.
pub struct Resolver {
    files: Vec<RecipeFile>,
    datasets: Vec<String>,
    documents: usize,
    located: Option<String>,
}

impl Resolver {
    /// The files of the recipe.
    pub closed spec fn files(&self) -> Seq<RecipeFile> {
        self.files@
    }

    /// The datasets that were resolved.
    pub closed spec fn datasets(&self) -> Seq<Seq<char>> {
        texts(self.datasets@)
    }

    /// The documents that were counted in them.
    pub closed spec fn documents(&self) -> nat {
        self.documents as nat
    }

    /// Where the dataset of the next file lies, once that was found out.
    pub closed spec fn located(&self) -> Option<Seq<char>> {
        match self.located {
            Some(path) => Some(path@),
            None => None,
        }
    }

    /// Whether there is a file left to resolve.
    pub open spec fn pending(&self) -> bool {
        self.datasets().len() < self.files().len()
    }

    /// The file that is to be resolved next.
    pub open spec fn current(&self) -> RecipeFile {
        self.files()[self.datasets().len() as int]
    }

    /// No more datasets were resolved than there are files.
    pub open spec fn wf(&self) -> bool {
        self.datasets().len() <= self.files().len()
    }

    /// Starts with a recipe's files.
    pub fn new(files: Vec<RecipeFile>) -> (r: Self)
        ensures
            r.wf(),
            r.files() == files@,
            r.datasets() == Seq::<Seq<char>>::empty(),
            r.documents() == 0,
            r.located() is None,
    {
        let r = Resolver { files, datasets: Vec::new(), documents: 0, located: None };
        assert(r.datasets() == Seq::<Seq<char>>::empty());
        r
    }

    /// Whether there is a file left to resolve.
    pub fn is_pending(&self) -> (r: bool)
        ensures
            r == self.pending(),
    {
        self.datasets.len() < self.files.len()
    }

    /// Finds the dataset that the next file refers to, where `entries` are the
    /// file names found in the datasets directory: its path, or the reason why
    /// the recipe cannot be used.
    pub fn locate(&mut self, store: &Store, namespace: u64, entries: &Vec<Option<String>>) -> (r:
        Result<String, String>)
        requires
            old(self).pending(),
        ensures
            final(self).files() == old(self).files(),
            final(self).datasets() == old(self).datasets(),
            final(self).documents() == old(self).documents(),
            match location(
                old(self).current(),
                store@.datasets_dir(namespace),
                entry_names(entries@),
            ) {
                Ok(path) => r is Ok && r->Ok_0@ == path && final(self).located() == Some(path),
                Err(reason) => r is Err && r->Err_0@ == reason && final(self).located() is None,
            },
    {
        self.located = None;
        let file = &self.files[self.datasets.len()];
        match reference_name(file) {
            None => {
                let mut reason = "recipe references a dataset with an unreadable name: ".to_owned();
                reason.append(file.path.as_str());
                Err(reason)
            },
            Some(name) => match store.find_dataset(namespace, name.as_str(), entries) {
                Some(path) => {
                    self.located = Some(path.clone());
                    Ok(path)
                },
                None => {
                    let mut reason = "recipe references `".to_owned();
                    reason.append(name.as_str());
                    reason.append(
                        "`, but no dataset with that name is uploaded in this server. `/dataset upload` it first.",
                    );
                    Err(reason)
                },
            },
        }
    }

    /// Takes the dataset that was located, which holds `raw`, for the next
    /// file, and counts its documents. Nothing changes where the count does not
    /// fit in a machine word.
    pub fn resolved(&mut self, raw: &str) -> (fits: bool)
        requires
            old(self).pending(),
            old(self).located() is Some,
        ensures
            fits == (old(self).documents() + document_count(raw@, old(self).current().delimiter@)
                <= usize::MAX),
            fits ==> {
                &&& final(self).wf()
                &&& final(self).files() == old(self).files()
                &&& final(self).datasets() == old(self).datasets().push(old(self).located()->0)
                &&& final(self).documents() == old(self).documents() + document_count(
                    raw@,
                    old(self).current().delimiter@,
                )
                &&& final(self).located() is None
            },
            !fits ==> *final(self) == *old(self),
    {
        let documents: usize = count_documents(
            raw,
            self.files[self.datasets.len()].delimiter.as_str(),
        );
        if documents > usize::MAX - self.documents {
            return false;
        }
        if let Some(path) = self.located.take() {
            self.datasets.push(path);
        }
        self.documents = self.documents + documents;
        assert(self.datasets() == old(self).datasets().push(old(self).located()->0));
        true
    }

    /// The training configuration: the recipe's numbers, overridden by the
    /// command's options and fitted to the documents. `None` if there are no
    /// documents to train on. All files have to be resolved by then.
    pub fn finish(self, model_name: &str, experts: Experts, options: &[CommandOption]) -> (r: Option<
        ResolvedRecipe,
    >)
        requires
            self.wf(),
            !self.pending(),
        ensures
            r is None <==> self.documents() == 0,
            match r {
                Some(resolved) => {
                    &&& resolved.datasets@.len() == self.files().len()
                    &&& texts(resolved.datasets@) == self.datasets()
                    &&& resolved.documents == self.documents()
                    &&& resolved.experts == clamped(
                        overridden(experts, options@),
                        resolved.documents,
                    )
                    &&& resolved.model_name@ == model_name@
                },
                None => true,
            },
    {
        assert(self.datasets@.len() == self.datasets().len());
        if self.documents == 0 {
            return None;
        }
        let mut experts = override_experts(experts, options);
        clamp_clustering(&mut experts, self.documents);
        Some(
            ResolvedRecipe {
                datasets: self.datasets,
                documents: self.documents,
                experts,
                model_name: model_name.to_owned(),
            },
        )
    }
}

/// Whether `after` is what a resolver becomes when it locates the dataset of its
/// next file and takes it in: `entries` are the file names found in the datasets
/// directory `dir`, and `raw` is what the dataset holds.
pub open spec fn is_step(
    before: Resolver,
    after: Resolver,
    dir: Seq<char>,
    entries: Seq<Option<Seq<char>>>,
    raw: Seq<char>,
) -> bool {
    &&& before.pending()
    &&& location(before.current(), dir, entries) is Ok
    &&& after.files() == before.files()
    &&& after.datasets() == before.datasets().push(
        location(before.current(), dir, entries)->Ok_0,
    )
    &&& after.documents() == before.documents() + document_count(
        raw,
        before.current().delimiter@,
    )
}

/// Whether `run` is what a resolver goes through from its start: one step for
/// each file, where `listings` are the file names found in the datasets
/// directory at each step, and `contents` what each dataset holds.
pub open spec fn is_run(
    run: Seq<Resolver>,
    dir: Seq<char>,
    listings: Seq<Seq<Option<Seq<char>>>>,
    contents: Seq<Seq<char>>,
) -> bool {
    &&& run.len() == contents.len() + 1
    &&& listings.len() == contents.len()
    &&& run[0].datasets() == Seq::<Seq<char>>::empty()
    &&& run[0].documents() == 0
    &&& forall|i: int|
        0 <= i < contents.len() ==> is_step(
            run[i],
            run[i + 1],
            dir,
            #[trigger] listings[i],
            contents[i],
        )
}

/// The documents that the first datasets of a recipe hold together.
pub open spec fn total_documents(files: Seq<RecipeFile>, contents: Seq<Seq<char>>) -> nat
    decreases contents.len(),
{
    if contents.len() == 0 {
        0
    } else {
        total_documents(files, contents.drop_last()) + document_count(
            contents.last(),
            files[contents.len() - 1].delimiter@,
        )
    }
}

/// A run that has resolved all files has one path for each file, in the order of
/// the files, each where the file's dataset was located, and has counted the
/// documents of all of them.
pub proof fn law_run_resolves_every_file(
    run: Seq<Resolver>,
    dir: Seq<char>,
    listings: Seq<Seq<Option<Seq<char>>>>,
    contents: Seq<Seq<char>>,
)
    requires
        is_run(run, dir, listings, contents),
        run.last().wf(),
        !run.last().pending(),
    ensures
        run.last().files() == run[0].files(),
        contents.len() == run[0].files().len(),
        run.last().datasets().len() == run[0].files().len(),
        forall|i: int|
            0 <= i < run[0].files().len() ==> location(run[0].files()[i], dir, listings[i])
                == Ok::<Seq<char>, Seq<char>>(#[trigger] run.last().datasets()[i]),
        run.last().documents() == total_documents(run[0].files(), contents),
{
    lemma_run(run, dir, listings, contents, contents.len() as int);
    assert(contents.take(contents.len() as int) == contents);
}

proof fn lemma_run(
    run: Seq<Resolver>,
    dir: Seq<char>,
    listings: Seq<Seq<Option<Seq<char>>>>,
    contents: Seq<Seq<char>>,
    k: int,
)
    requires
        is_run(run, dir, listings, contents),
        0 <= k <= contents.len(),
    ensures
        run[k].files() == run[0].files(),
        run[k].datasets().len() == k,
        forall|i: int|
            0 <= i < k ==> location(run[0].files()[i], dir, listings[i]) == Ok::<
                Seq<char>,
                Seq<char>,
            >(#[trigger] run[k].datasets()[i]),
        run[k].documents() == total_documents(run[0].files(), contents.take(k)),
    decreases k,
{
    if k > 0 {
        lemma_run(run, dir, listings, contents, k - 1);
        assert(is_step(run[k - 1], run[k - 1 + 1], dir, listings[k - 1], contents[k - 1]));
        assert(contents.take(k).drop_last() == contents.take(k - 1));
        assert forall|i: int| 0 <= i < k implies location(run[0].files()[i], dir, listings[i])
            == Ok::<Seq<char>, Seq<char>>(#[trigger] run[k].datasets()[i]) by {
            if i < k - 1 {
                assert(run[k].datasets()[i] == run[k - 1].datasets()[i]);
            }
        }
    } else {
        assert(contents.take(0) == Seq::<Seq<char>>::empty());
    }
}

/// The word that an option's number becomes; what does not fit wraps around.
pub open spec fn word(n: i64) -> usize {
    (n as int % (usize::MAX + 1)) as usize
}

fn to_word(n: i64) -> (r: usize)
    ensures
        r == word(n),
{
    assert(usize::BITS == 64 ==> n as usize == (n as int % 0x1_0000_0000_0000_0000)) by (bit_vector);
    assert(usize::BITS == 32 ==> n as usize == (n as int % 0x1_0000_0000)) by (bit_vector);
    n as usize
}

/// A recipe's numbers, with those that the command's options set.
pub open spec fn overridden(experts: Experts, options: Seq<CommandOption>) -> Experts {
    Experts {
        num_total: match option_number(options, "total_experts"@) {
            Some(n) => word(n),
            None => experts.num_total,
        },
        num_active: match option_number(options, "active_experts"@) {
            Some(n) => word(n),
            None => experts.num_active,
        },
        num_centroids: match option_number(options, "centroids"@) {
            Some(n) => word(n),
            None => experts.num_centroids,
        },
    }
}

/// Sets the numbers that the command's options give.
pub fn override_experts(experts: Experts, options: &[CommandOption]) -> (r: Experts)
    ensures
        r == overridden(experts, options@),
{
    let mut r = experts;
    if let Some(n) = option_int(options, "total_experts") {
        r.num_total = to_word(n);
    }
    if let Some(n) = option_int(options, "active_experts") {
        r.num_active = to_word(n);
    }
    if let Some(n) = option_int(options, "centroids") {
        r.num_centroids = to_word(n);
    }
    r
}

/// How a recipe that cannot be read is refused.
pub fn parse_failure(recipe: &str, reason: &str) -> (r: String)
    ensures
        r@ == "`"@ + recipe@ + "` did not parse as a capacitorfile recipe: "@ + reason@,
{
    let mut r = "`".to_owned();
    r.append(recipe);
    r.append("` did not parse as a capacitorfile recipe: ");
    r.append(reason);
    r
}

} // verus!
