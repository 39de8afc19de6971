//! The results of an experiment, assembled from the ledger, the prompt log, the
//! failure log and the reported outcomes.
//!
//! A run is every request that shares a user and a correlation id. Run-level
//! figures belong to the variant of the run's earliest stamped row;
//! request-level figures belong to the variant stamped on each row. Amounts of
//! money, scores and spans are handed on as lists of terms, in the order in
//! which they are to be added.

use crate::api::admin::compare::LatencySummary;
use crate::api::admin::dashboard::DashboardError;
use crate::api::admin::experiments::{no_experiment, no_experiment_text, RunPage};
use crate::api::error::ApiError;
use crate::clock::{span_millis, span_millis_of};
use crate::ordered::{
    ascending, lemma_lookup_is_entry, lemma_lookup_map, lemma_sorted_labels, lemma_with_entry_map,
    lookup, sorted_labels, with_entry, OrderedKey, OrderedMap, Ranked,
};
use crate::records::{Experiment, RunOutcome, Usd};
use crate::sums::{
    column, counted, labelled_total, lemma_labelled_absent, lemma_labelled_bounded,
    lemma_labelled_is_total, lemma_labelled_plus, lemma_labelled_step, lemma_labelled_within,
    lemma_partition, lemma_picked_len, lemma_picked_selects, lemma_picked_step, lemma_total_alike,
    lemma_total_bounded, lemma_total_plus, lemma_total_step, lemma_total_within, lemma_total_zero,
    picked, selects, selects_at, total,
};
use crate::text::{copy_text, holds_text, is_before, opt_text, precedes, same, texts};
use vstd::prelude::*;

verus! {

/// A run: user and correlation id.
pub type RunKey = (i64, String);

pub type RunRank = (i64, Seq<char>);

/// A run as the ledger groups it.
pub struct RunKeyRow {
    pub user_id: i64,
    pub correlation_id: String,
    pub variant: String,
    pub mixed: bool,
    pub requests: i64,
    pub first_at: String,
    pub last_at: String,
}

/// The failures of one run under one variant.
pub struct FailureRow {
    pub user_id: i64,
    pub correlation_id: String,
    pub variant: Option<String>,
    pub failures: i64,
    pub first_at: String,
    pub last_at: String,
}

/// What is known of every run before paging.
pub struct RunInfo {
    pub variant: String,
    pub mixed: bool,
    pub requests: i64,
    pub first_at: String,
    pub last_at: String,
    /// False for a run known only from failures.
    pub in_ledger: bool,
}

pub struct RunModel {
    pub variant: Seq<char>,
    pub mixed: bool,
    pub requests: i64,
    pub first_at: Seq<char>,
    pub last_at: Seq<char>,
    pub in_ledger: bool,
}

impl View for RunInfo {
    type V = RunModel;

    open spec fn view(&self) -> RunModel {
        RunModel {
            variant: self.variant@,
            mixed: self.mixed,
            requests: self.requests,
            first_at: self.first_at@,
            last_at: self.last_at@,
            in_ledger: self.in_ledger,
        }
    }
}

pub fn key_of(user_id: i64, correlation_id: &str) -> (r: RunKey)
    ensures
        r.rank() == (user_id, correlation_id@),
        r.0 == user_id,
        r.1@ == correlation_id@,
{
    (user_id, correlation_id.to_owned())
}

/// A text, or the empty one.
pub open spec fn or_empty(s: Option<String>) -> Seq<char> {
    match s {
        Some(t) => t@,
        None => Seq::empty(),
    }
}

fn text_or_empty(s: &Option<String>) -> (r: String)
    ensures
        r@ == or_empty(*s),
{
    match s {
        Some(t) => t.clone(),
        None => String::new(),
    }
}

// ---------------------------------------------------------------------------
// The runs
// ---------------------------------------------------------------------------

pub open spec fn ledger_run(row: RunKeyRow) -> RunModel {
    RunModel {
        variant: row.variant@,
        mixed: row.mixed,
        requests: row.requests,
        first_at: row.first_at@,
        last_at: row.last_at@,
        in_ledger: true,
    }
}

/// The runs that the ledger knows, by ascending key.
pub open spec fn ledger_runs(rows: Seq<RunKeyRow>) -> Seq<(RunRank, RunModel)>
    decreases rows.len(),
{
    if rows.len() == 0 {
        Seq::empty()
    } else {
        with_entry(
            ledger_runs(rows.drop_last()),
            (rows.last().user_id, rows.last().correlation_id@),
            ledger_run(rows.last()),
        )
    }
}

/// A run of which only failures are known, from the first of them.
pub open spec fn failed_run(f: FailureRow) -> RunModel {
    RunModel {
        variant: or_empty(f.variant),
        mixed: false,
        requests: 0,
        first_at: f.first_at@,
        last_at: f.last_at@,
        in_ledger: false,
    }
}

/// A run of which only failures are known, with those under a further variant:
/// the earliest decides the variant.
pub open spec fn merged_run(run: RunModel, f: FailureRow) -> RunModel {
    let earlier = precedes(f.first_at@, run.first_at);
    RunModel {
        variant: if earlier {
            or_empty(f.variant)
        } else {
            run.variant
        },
        mixed: true,
        requests: run.requests,
        first_at: if earlier {
            f.first_at@
        } else {
            run.first_at
        },
        last_at: if precedes(run.last_at, f.last_at@) {
            f.last_at@
        } else {
            run.last_at
        },
        in_ledger: run.in_ledger,
    }
}

/// The runs after one more group of failures. What the ledger knows of a run
/// stands.
pub open spec fn with_failure(runs: Seq<(RunRank, RunModel)>, f: FailureRow) -> Seq<
    (RunRank, RunModel),
> {
    let key = (f.user_id, f.correlation_id@);
    match lookup(runs, key) {
        Some(run) => if run.in_ledger {
            runs
        } else {
            with_entry(runs, key, merged_run(run, f))
        },
        None => with_entry(runs, key, failed_run(f)),
    }
}

pub open spec fn with_failures(runs: Seq<(RunRank, RunModel)>, rows: Seq<FailureRow>) -> Seq<
    (RunRank, RunModel),
>
    decreases rows.len(),
{
    if rows.len() == 0 {
        runs
    } else {
        with_failure(with_failures(runs, rows.drop_last()), rows.last())
    }
}

/// Every run of the experiment, by ascending key: those of the ledger, then
/// those known only from failures.
pub open spec fn all_runs(run_keys: Seq<RunKeyRow>, failures: Seq<FailureRow>) -> Seq<
    (RunRank, RunModel),
> {
    with_failures(ledger_runs(run_keys), failures)
}

pub open spec fn run_entry() -> spec_fn((RunRank, RunInfo)) -> (RunRank, RunModel) {
    |e: (RunRank, RunInfo)| (e.0, e.1@)
}

pub open spec fn run_models(m: Seq<(RunRank, RunInfo)>) -> Seq<(RunRank, RunModel)> {
    m.map_values(run_entry())
}

/// Indexes the runs.
pub fn index_runs(run_keys: &Vec<RunKeyRow>, failures: &Vec<FailureRow>) -> (r: OrderedMap<
    RunKey,
    RunInfo,
>)
    ensures
        r.wf(),
        run_models(r@) == all_runs(run_keys@, failures@),
{
    let mut index: OrderedMap<RunKey, RunInfo> = OrderedMap::new();
    assert(run_models(index@) =~= Seq::empty());
    let mut i: usize = 0;
    while i < run_keys.len()
        invariant
            i <= run_keys@.len(),
            index.wf(),
            run_models(index@) == ledger_runs(run_keys@.take(i as int)),
        decreases run_keys@.len() - i,
    {
        let row = &run_keys[i];
        assert(run_keys@.take(i + 1).drop_last() =~= run_keys@.take(i as int));
        let key = key_of(row.user_id, row.correlation_id.as_str());
        let run = RunInfo {
            variant: row.variant.clone(),
            mixed: row.mixed,
            requests: row.requests,
            first_at: row.first_at.clone(),
            last_at: row.last_at.clone(),
            in_ledger: true,
        };
        proof {
            lemma_with_entry_map(index@, key.rank(), run, run_entry());
        }
        index.insert(key, run);
        i += 1;
    }
    assert(run_keys@.take(i as int) =~= run_keys@);
    let ghost ledger = run_models(index@);
    let mut j: usize = 0;
    assert(failures@.take(0) =~= Seq::empty());
    while j < failures.len()
        invariant
            j <= failures@.len(),
            index.wf(),
            ledger == ledger_runs(run_keys@),
            run_models(index@) == with_failures(ledger, failures@.take(j as int)),
        decreases failures@.len() - j,
    {
        let f = &failures[j];
        assert(failures@.take(j + 1).drop_last() =~= failures@.take(j as int));
        let key = key_of(f.user_id, f.correlation_id.as_str());
        proof {
            lemma_lookup_map(index@, key.rank(), run_entry());
        }
        let updated = match index.get(&key) {
            Some(run) => if run.in_ledger {
                None
            } else {
                let earlier = is_before(f.first_at.as_str(), run.first_at.as_str());
                let later = is_before(run.last_at.as_str(), f.last_at.as_str());
                Some(
                    RunInfo {
                        variant: if earlier {
                            text_or_empty(&f.variant)
                        } else {
                            run.variant.clone()
                        },
                        mixed: true,
                        requests: run.requests,
                        first_at: if earlier {
                            f.first_at.clone()
                        } else {
                            run.first_at.clone()
                        },
                        last_at: if later {
                            f.last_at.clone()
                        } else {
                            run.last_at.clone()
                        },
                        in_ledger: false,
                    },
                )
            },
            None => Some(
                RunInfo {
                    variant: text_or_empty(&f.variant),
                    mixed: false,
                    requests: 0,
                    first_at: f.first_at.clone(),
                    last_at: f.last_at.clone(),
                    in_ledger: false,
                },
            ),
        };
        if let Some(run) = updated {
            proof {
                lemma_with_entry_map(index@, key.rank(), run, run_entry());
            }
            index.insert(key, run);
        }
        j += 1;
    }
    assert(failures@.take(j as int) =~= failures@);
    index
}

// ---------------------------------------------------------------------------
// The other rows, and how they are joined to runs
// ---------------------------------------------------------------------------

/// A row that belongs to a run.
pub trait OfRun {
    spec fn run(&self) -> RunRank;

    /// Whether the row says anything of the run.
    spec fn telling(&self) -> bool;

    fn run_key(&self) -> (r: RunKey)
        ensures
            r.rank() == self.run(),
    ;

    fn is_telling(&self) -> (r: bool)
        ensures
            r == self.telling(),
    ;
}

/// Requests that share a run's key but were sent without the experiment.
pub struct UnboundRow {
    pub user_id: i64,
    pub correlation_id: String,
    pub requests: i64,
}

/// The measured latency of a run; the mean as the bits of a double.
pub struct LatencyRow {
    pub user_id: i64,
    pub correlation_id: String,
    pub samples: i64,
    pub mean_ms: Option<u64>,
}

impl OfRun for UnboundRow {
    open spec fn run(&self) -> RunRank {
        (self.user_id, self.correlation_id@)
    }

    open spec fn telling(&self) -> bool {
        true
    }

    fn run_key(&self) -> (r: RunKey) {
        key_of(self.user_id, self.correlation_id.as_str())
    }

    fn is_telling(&self) -> (r: bool) {
        true
    }
}

impl OfRun for LatencyRow {
    open spec fn run(&self) -> RunRank {
        (self.user_id, self.correlation_id@)
    }

    open spec fn telling(&self) -> bool {
        self.samples > 0
    }

    fn run_key(&self) -> (r: RunKey) {
        key_of(self.user_id, self.correlation_id.as_str())
    }

    fn is_telling(&self) -> (r: bool) {
        self.samples > 0
    }
}

impl OfRun for RunOutcome {
    open spec fn run(&self) -> RunRank {
        (self.user_id, self.attribution_correlation_id@)
    }

    open spec fn telling(&self) -> bool {
        true
    }

    fn run_key(&self) -> (r: RunKey) {
        key_of(self.user_id, self.attribution_correlation_id.as_str())
    }

    fn is_telling(&self) -> (r: bool) {
        true
    }
}

/// The place of the last telling row of each run, by ascending run.
pub open spec fn row_places<T: OfRun>(rows: Seq<T>) -> Seq<(RunRank, usize)>
    decreases rows.len(),
{
    if rows.len() == 0 {
        Seq::empty()
    } else if rows.last().telling() {
        with_entry(row_places(rows.drop_last()), rows.last().run(), (rows.len() - 1) as usize)
    } else {
        row_places(rows.drop_last())
    }
}

/// The last telling row of a run.
pub open spec fn row_of<T: OfRun>(rows: Seq<T>, key: RunRank) -> Option<T> {
    match lookup(row_places(rows), key) {
        Some(i) => Some(rows[i as int]),
        None => None,
    }
}

proof fn lemma_places_in_bounds<T: OfRun>(rows: Seq<T>)
    ensures
        forall|k: int| 0 <= k < row_places(rows).len() ==> (#[trigger] row_places(rows)[k]).1 < rows.len(),
    decreases rows.len(),
{
    if rows.len() > 0 {
        lemma_places_in_bounds(rows.drop_last());
        let rest = row_places(rows.drop_last());
        if rows.last().telling() {
            let key = rows.last().run();
            let i = (rows.len() - 1) as usize;
            crate::ordered::lemma_with_entry_members(rest, key, i);
            let all = row_places(rows);
            assert forall|k: int| 0 <= k < all.len() implies (#[trigger] all[k]).1 < rows.len() by {
                if all[k] != (key, i) {
                    let j = choose|j: int| 0 <= j < rest.len() && rest[j] == all[k];
                    assert(rest[j].1 < rows.len());
                }
            }
        }
    }
}

fn index_rows<T: OfRun>(rows: &Vec<T>) -> (r: OrderedMap<RunKey, usize>)
    ensures
        r.wf(),
        r@ == row_places(rows@),
{
    let mut index: OrderedMap<RunKey, usize> = OrderedMap::new();
    let mut i: usize = 0;
    while i < rows.len()
        invariant
            i <= rows@.len(),
            index.wf(),
            index@ == row_places(rows@.take(i as int)),
        decreases rows@.len() - i,
    {
        assert(rows@.take(i + 1).drop_last() =~= rows@.take(i as int));
        if rows[i].is_telling() {
            index.insert(rows[i].run_key(), i);
        }
        i += 1;
    }
    assert(rows@.take(i as int) =~= rows@);
    index
}

fn find_row<'a, T: OfRun>(
    rows: &'a Vec<T>,
    index: &OrderedMap<RunKey, usize>,
    key: &RunKey,
) -> (r: Option<&'a T>)
    requires
        index.wf(),
        index@ == row_places(rows@),
    ensures
        match r {
            Some(row) => row_of(rows@, key.rank()) == Some(*row),
            None => row_of(rows@, key.rank()) is None,
        },
{
    match index.get(key) {
        Some(i) => {
            proof {
                lemma_places_in_bounds(rows@);
                crate::ordered::lemma_lookup_is_entry(index@, key.rank());
            }
            Some(&rows[*i])
        },
        None => None,
    }
}

/// The unbound requests of a run.
pub open spec fn unbound_of(rows: Seq<UnboundRow>, key: RunRank) -> int {
    match row_of(rows, key) {
        Some(u) => u.requests as int,
        None => 0,
    }
}

pub open spec fn same_run(key: RunRank) -> spec_fn(FailureRow) -> int {
    |f: FailureRow| counted((f.user_id, f.correlation_id@) == key, f.failures as int)
}

/// The failures of a run.
pub open spec fn failures_of(rows: Seq<FailureRow>, key: RunRank) -> int {
    total(rows, same_run(key))
}

// ---------------------------------------------------------------------------
// Tokens and outcomes
// ---------------------------------------------------------------------------

/// Prompt and completion tokens, with their sum.
#[derive(Debug, Clone, Copy, PartialEq, Eq, Structural)]
pub struct TokenTotals {
    pub prompt: i64,
    pub completion: i64,
    pub total: i64,
}

impl Default for TokenTotals {
    fn default() -> (r: TokenTotals)
        ensures
            r == (TokenTotals { prompt: 0, completion: 0, total: 0 }),
    {
        TokenTotals { prompt: 0, completion: 0, total: 0 }
    }
}

impl TokenTotals {
    pub fn new(prompt: i64, completion: i64) -> (r: TokenTotals)
        requires
            i64::MIN <= prompt + completion <= i64::MAX,
        ensures
            r.prompt == prompt,
            r.completion == completion,
            r.total == prompt + completion,
    {
        TokenTotals { prompt, completion, total: prompt + completion }
    }

    pub fn add(&mut self, other: TokenTotals)
        requires
            i64::MIN <= old(self).prompt + other.prompt <= i64::MAX,
            i64::MIN <= old(self).completion + other.completion <= i64::MAX,
            i64::MIN <= old(self).total + other.total <= i64::MAX,
        ensures
            final(self).prompt == old(self).prompt + other.prompt,
            final(self).completion == old(self).completion + other.completion,
            final(self).total == old(self).total + other.total,
    {
        self.prompt = self.prompt + other.prompt;
        self.completion = self.completion + other.completion;
        self.total = self.total + other.total;
    }
}

/// Reported outcomes over a set of runs: how many, and what a mean is to be
/// taken of. Where nothing was reported there is nothing to average, so that an
/// arm without feedback is not mistaken for one that always failed.
#[derive(Debug, PartialEq, Eq)]
pub struct OutcomeStats {
    /// Runs with any outcome reported.
    pub reported: i64,
    pub success: i64,
    pub failure: i64,
    /// The reported scores, as the bits of doubles.
    pub scores: Vec<u64>,
    pub ratings: Vec<i64>,
}

impl Default for OutcomeStats {
    fn default() -> (r: OutcomeStats)
        ensures
            r.summarises(Seq::empty()),
    {
        OutcomeStats {
            reported: 0,
            success: 0,
            failure: 0,
            scores: Vec::new(),
            ratings: Vec::new(),
        }
    }
}

pub open spec fn succeeded() -> spec_fn(RunOutcome) -> int {
    |o: RunOutcome| counted(o.outcome@ == "success"@, 1)
}

pub open spec fn has_score() -> spec_fn(RunOutcome) -> bool {
    |o: RunOutcome| o.score is Some
}

pub open spec fn the_score() -> spec_fn(RunOutcome) -> u64 {
    |o: RunOutcome| o.score->0
}

pub open spec fn has_rating() -> spec_fn(RunOutcome) -> bool {
    |o: RunOutcome| o.rating is Some
}

pub open spec fn the_rating() -> spec_fn(RunOutcome) -> i64 {
    |o: RunOutcome| o.rating->0
}

impl OutcomeStats {
    /// Whether these are the figures of the outcomes in `list`.
    pub open spec fn summarises(&self, list: Seq<RunOutcome>) -> bool {
        &&& self.reported == list.len()
        &&& self.success == total(list, succeeded())
        &&& self.failure == list.len() - total(list, succeeded())
        &&& self.scores@ == picked(list, has_score(), the_score())
        &&& self.ratings@ == picked(list, has_rating(), the_rating())
    }

    /// Adds one outcome. Anything but a success is a failure.
    pub fn add(&mut self, o: &RunOutcome)
        requires
            old(self).reported < i64::MAX,
            old(self).success < i64::MAX,
            old(self).failure < i64::MAX,
        ensures
            final(self).reported == old(self).reported + 1,
            o.outcome@ == "success"@ ==> final(self).success == old(self).success + 1
                && final(self).failure == old(self).failure,
            o.outcome@ != "success"@ ==> final(self).success == old(self).success
                && final(self).failure == old(self).failure + 1,
            final(self).scores@ == match o.score {
                Some(s) => old(self).scores@.push(s),
                None => old(self).scores@,
            },
            final(self).ratings@ == match o.rating {
                Some(n) => old(self).ratings@.push(n),
                None => old(self).ratings@,
            },
            forall|list: Seq<RunOutcome>| #[trigger]
                old(self).summarises(list) ==> final(self).summarises(list.push(*o)),
    {
        self.reported = self.reported + 1;
        if same(o.outcome.as_str(), "success") {
            self.success = self.success + 1;
        } else {
            self.failure = self.failure + 1;
        }
        if let Some(score) = o.score {
            self.scores.push(score);
        }
        if let Some(rating) = o.rating {
            self.ratings.push(rating);
        }
        proof {
            assert forall|list: Seq<RunOutcome>| #[trigger]
                old(self).summarises(list) implies self.summarises(list.push(*o)) by {
                let longer = list.push(*o);
                assert(longer.drop_last() =~= list);
                assert(longer.last() == *o);
            }
        }
    }
}

// ---------------------------------------------------------------------------
// Per-variant figures
// ---------------------------------------------------------------------------

/// The ledger's totals for one variant.
pub struct VariantTotalRow {
    pub variant: String,
    pub requests: i64,
    pub cost_usd: Usd,
    pub saved_usd: Usd,
    pub tokens_in: i64,
    pub tokens_out: i64,
    pub estimated_rows: i64,
}

/// The ledger's totals for one model under one variant, and whether the model
/// has a price.
pub struct VariantModelRow {
    pub variant: String,
    pub model: String,
    pub requests: i64,
    pub cost_usd: Usd,
    pub saved_usd: Usd,
    pub tokens_in: i64,
    pub tokens_out: i64,
    pub estimated_rows: i64,
    pub priced: bool,
}

/// One model's share of a variant's stamped requests.
pub struct VariantModelMetrics {
    pub model: String,
    pub requests: i64,
    pub cost_usd: Usd,
    pub saved_usd: Usd,
    pub tokens: TokenTotals,
    pub estimated_rows: i64,
    /// No pricing entry, so the cost was recorded as zero.
    pub unpriced: bool,
}

/// Everything that is read for an experiment's results.
pub struct ResultRows {
    /// The labels that the experiment declares.
    pub declared: Vec<String>,
    pub totals: Vec<VariantTotalRow>,
    pub models: Vec<VariantModelRow>,
    pub run_keys: Vec<RunKeyRow>,
    pub failures: Vec<FailureRow>,
    pub unbound: Vec<UnboundRow>,
    pub latency: Vec<LatencyRow>,
    pub outcomes: Vec<RunOutcome>,
    /// The latency of each variant, over all of its requests.
    pub summaries: Vec<VariantLatency>,
}

/// The latency of one variant, as the prompt log has it.
pub struct VariantLatency {
    pub variant: String,
    pub summary: LatencySummary,
}

/// The latency that is known of a variant.
pub open spec fn summary_of(summaries: Seq<VariantLatency>, label: Seq<char>) -> Option<
    LatencySummary,
>
    decreases summaries.len(),
{
    if summaries.len() == 0 {
        None
    } else if summaries.last().variant@ == label {
        Some(summaries.last().summary)
    } else {
        summary_of(summaries.drop_last(), label)
    }
}

/// How many samples the latency of each variant rests on.
pub open spec fn samples_under(summaries: Seq<VariantLatency>) -> spec_fn(Seq<char>) -> int {
    |label: Seq<char>|
        match summary_of(summaries, label) {
            Some(s) => s.samples as int,
            None => 0,
        }
}

/// The latency that is shown: none without samples.
pub open spec fn shown_latency(summary: Option<LatencySummary>) -> Option<LatencySummary> {
    match summary {
        Some(s) => if s.samples > 0 {
            Some(s)
        } else {
            None
        },
        None => None,
    }
}

fn find_summary(summaries: &Vec<VariantLatency>, label: &str) -> (r: Option<LatencySummary>)
    ensures
        r == summary_of(summaries@, label@),
{
    let mut i: usize = summaries.len();
    assert(summaries@.take(i as int) =~= summaries@);
    while i > 0
        invariant
            i <= summaries@.len(),
            summary_of(summaries@.take(i as int), label@) == summary_of(summaries@, label@),
        decreases i,
    {
        i -= 1;
        assert(summaries@.take(i + 1).drop_last() =~= summaries@.take(i as int));
        if same(summaries[i].variant.as_str(), label) {
            return Some(summaries[i].summary);
        }
    }
    None
}

impl ResultRows {
    pub open spec fn runs(&self) -> Seq<(RunRank, RunModel)> {
        all_runs(self.run_keys@, self.failures@)
    }
}

/// Aggregates for one variant. The lists of amounts are what is to be summed.
pub struct VariantResults {
    pub label: String,
    pub runs: i64,
    /// Runs attributed here that were also seen under another variant.
    pub mixed_runs: i64,
    pub requests: i64,
    /// Requests that share a run's key but were sent without the experiment.
    /// Counted, never merged.
    pub unbound_requests: i64,
    /// Stamped requests of the runs attributed to this variant.
    pub turns: i64,
    pub costs_usd: Vec<Usd>,
    pub savings_usd: Vec<Usd>,
    pub tokens: TokenTotals,
    /// Rows whose token counts were estimated rather than reported.
    pub estimated_rows: i64,
    pub failures: i64,
    /// Absent without samples.
    pub latency: Option<LatencySummary>,
    pub latency_samples: i64,
    pub models: Vec<VariantModelMetrics>,
    /// Whether any model of the variant has no price.
    pub unpriced: bool,
    pub unpriced_models: Vec<String>,
    pub outcomes: OutcomeStats,
    /// The spans of the attributed runs, in milliseconds.
    pub spans_ms: Vec<i64>,
}

// What a row counts for, and under which label.
pub open spec fn row_label() -> spec_fn(VariantTotalRow) -> Seq<char> {
    |t: VariantTotalRow| t.variant@
}

pub open spec fn row_requests() -> spec_fn(VariantTotalRow) -> int {
    |t: VariantTotalRow| t.requests as int
}

pub open spec fn row_prompt() -> spec_fn(VariantTotalRow) -> int {
    |t: VariantTotalRow| t.tokens_in as int
}

pub open spec fn row_completion() -> spec_fn(VariantTotalRow) -> int {
    |t: VariantTotalRow| t.tokens_out as int
}

pub open spec fn row_tokens() -> spec_fn(VariantTotalRow) -> int {
    |t: VariantTotalRow| t.tokens_in + t.tokens_out
}

pub open spec fn row_estimated() -> spec_fn(VariantTotalRow) -> int {
    |t: VariantTotalRow| t.estimated_rows as int
}

pub open spec fn row_is(label: Seq<char>) -> spec_fn(VariantTotalRow) -> bool {
    |t: VariantTotalRow| t.variant@ == label
}

pub open spec fn row_cost() -> spec_fn(VariantTotalRow) -> Usd {
    |t: VariantTotalRow| t.cost_usd
}

pub open spec fn row_saved() -> spec_fn(VariantTotalRow) -> Usd {
    |t: VariantTotalRow| t.saved_usd
}

pub open spec fn failure_label() -> spec_fn(FailureRow) -> Seq<char> {
    |f: FailureRow| or_empty(f.variant)
}

pub open spec fn failure_count() -> spec_fn(FailureRow) -> int {
    |f: FailureRow| f.failures as int
}

pub open spec fn run_label() -> spec_fn((RunRank, RunModel)) -> Seq<char> {
    |e: (RunRank, RunModel)| e.1.variant
}

pub open spec fn run_one() -> spec_fn((RunRank, RunModel)) -> int {
    |e: (RunRank, RunModel)| 1
}

pub open spec fn run_mixed() -> spec_fn((RunRank, RunModel)) -> int {
    |e: (RunRank, RunModel)| counted(e.1.mixed, 1)
}

pub open spec fn run_turns() -> spec_fn((RunRank, RunModel)) -> int {
    |e: (RunRank, RunModel)| e.1.requests as int
}

pub open spec fn run_unbound(unbound: Seq<UnboundRow>) -> spec_fn((RunRank, RunModel)) -> int {
    |e: (RunRank, RunModel)| unbound_of(unbound, e.0)
}

pub open spec fn run_is(label: Seq<char>) -> spec_fn((RunRank, RunModel)) -> bool {
    |e: (RunRank, RunModel)| e.1.variant == label
}

pub open spec fn run_span() -> spec_fn((RunRank, RunModel)) -> i64 {
    |e: (RunRank, RunModel)| span_millis_of(e.1.first_at, e.1.last_at)
}

pub open spec fn model_is(label: Seq<char>) -> spec_fn(VariantModelRow) -> bool {
    |m: VariantModelRow| m.variant@ == label
}

pub open spec fn model_row() -> spec_fn(VariantModelRow) -> VariantModelRow {
    |m: VariantModelRow| m
}

/// The models of a variant without a price, each once, in the order in which
/// they are first met.
pub open spec fn unpriced_names(models: Seq<VariantModelRow>, label: Seq<char>) -> Seq<Seq<char>>
    decreases models.len(),
{
    if models.len() == 0 {
        Seq::empty()
    } else {
        let rest = unpriced_names(models.drop_last(), label);
        let m = models.last();
        if m.variant@ == label && !m.priced && !rest.contains(m.model@) {
            rest.push(m.model@)
        } else {
            rest
        }
    }
}

/// Whether a metric is the one of a row.
pub open spec fn metric_of(m: VariantModelMetrics, row: VariantModelRow) -> bool {
    &&& m.model@ == row.model@
    &&& m.requests == row.requests
    &&& m.cost_usd == row.cost_usd
    &&& m.saved_usd == row.saved_usd
    &&& m.tokens.prompt == row.tokens_in
    &&& m.tokens.completion == row.tokens_out
    &&& m.tokens.total == row.tokens_in + row.tokens_out
    &&& m.estimated_rows == row.estimated_rows
    &&& m.unpriced == !row.priced
}

pub open spec fn metrics_of(ms: Seq<VariantModelMetrics>, rows: Seq<VariantModelRow>) -> bool {
    &&& ms.len() == rows.len()
    &&& forall|i: int| 0 <= i < ms.len() ==> metric_of(#[trigger] ms[i], rows[i])
}

/// The variant that an outcome belongs to: the run's own, or the one stamped on
/// the outcome where the run's rows are gone.
pub open spec fn outcome_label(runs: Seq<(RunRank, RunModel)>, o: RunOutcome) -> Seq<char> {
    match lookup(runs, o.run()) {
        Some(run) => run.variant,
        None => or_empty(o.experiment_variant),
    }
}

pub open spec fn outcome_at(outcomes: Seq<RunOutcome>) -> spec_fn((RunRank, usize)) -> RunOutcome {
    |e: (RunRank, usize)| outcomes[e.1 as int]
}

pub open spec fn outcome_is(
    outcomes: Seq<RunOutcome>,
    runs: Seq<(RunRank, RunModel)>,
    label: Seq<char>,
) -> spec_fn((RunRank, usize)) -> bool {
    |e: (RunRank, usize)| outcome_label(runs, outcomes[e.1 as int]) == label
}

/// The outcomes of a variant, one per run, by ascending run.
pub open spec fn outcomes_under(
    outcomes: Seq<RunOutcome>,
    runs: Seq<(RunRank, RunModel)>,
    label: Seq<char>,
) -> Seq<RunOutcome> {
    picked(row_places(outcomes), outcome_is(outcomes, runs, label), outcome_at(outcomes))
}

/// Whether `v` holds the figures of the variant `label`.
pub open spec fn is_variant(v: VariantResults, rows: ResultRows, label: Seq<char>) -> bool {
    let runs = rows.runs();
    &&& v.label@ == label
    &&& v.runs == labelled_total(runs, run_label(), run_one(), label)
    &&& v.mixed_runs == labelled_total(runs, run_label(), run_mixed(), label)
    &&& v.requests == labelled_total(rows.totals@, row_label(), row_requests(), label)
    &&& v.unbound_requests == labelled_total(runs, run_label(), run_unbound(rows.unbound@), label)
    &&& v.turns == labelled_total(runs, run_label(), run_turns(), label)
    &&& v.costs_usd@ == picked(rows.totals@, row_is(label), row_cost())
    &&& v.savings_usd@ == picked(rows.totals@, row_is(label), row_saved())
    &&& v.tokens.prompt == labelled_total(rows.totals@, row_label(), row_prompt(), label)
    &&& v.tokens.completion == labelled_total(rows.totals@, row_label(), row_completion(), label)
    &&& v.tokens.total == labelled_total(rows.totals@, row_label(), row_tokens(), label)
    &&& v.estimated_rows == labelled_total(rows.totals@, row_label(), row_estimated(), label)
    &&& v.failures == labelled_total(rows.failures@, failure_label(), failure_count(), label)
    &&& v.latency == shown_latency(summary_of(rows.summaries@, label))
    &&& v.latency_samples == samples_under(rows.summaries@)(label)
    &&& metrics_of(v.models@, picked(rows.models@, model_is(label), model_row()))
    &&& texts(v.unpriced_models@) == unpriced_names(rows.models@, label)
    &&& v.unpriced == (unpriced_names(rows.models@, label).len() > 0)
    &&& v.outcomes.summarises(outcomes_under(rows.outcomes@, runs, label))
    &&& v.spans_ms@ == picked(runs, run_is(label), run_span())
}

// ---------------------------------------------------------------------------
// Counts that fit
// ---------------------------------------------------------------------------

/// Whether a 64-bit integer can hold a sum.
pub open spec fn fits(n: int) -> bool {
    i64::MIN <= n <= i64::MAX
}

fn narrow(n: i128) -> (r: Option<i64>)
    ensures
        match r {
            Some(m) => m == n,
            None => !fits(n as int),
        },
{
    if n < -0x8000_0000_0000_0000i128 || n > 0x7fff_ffff_ffff_ffffi128 {
        None
    } else {
        Some(n as i64)
    }
}

/// Whether the columns that come from the ledger's totals can be held.
pub open spec fn ledger_fits(totals: Seq<VariantTotalRow>, label: Seq<char>) -> bool {
    &&& fits(labelled_total(totals, row_label(), row_requests(), label))
    &&& fits(labelled_total(totals, row_label(), row_prompt(), label))
    &&& fits(labelled_total(totals, row_label(), row_completion(), label))
    &&& fits(labelled_total(totals, row_label(), row_tokens(), label))
    &&& fits(labelled_total(totals, row_label(), row_estimated(), label))
}

/// Whether the columns that come from the runs can be held.
pub open spec fn runs_fit(
    runs: Seq<(RunRank, RunModel)>,
    unbound: Seq<UnboundRow>,
    label: Seq<char>,
) -> bool {
    &&& fits(labelled_total(runs, run_label(), run_turns(), label))
    &&& fits(labelled_total(runs, run_label(), run_unbound(unbound), label))
}

/// Whether the figures of a variant can be held.
pub open spec fn variant_fits(rows: ResultRows, label: Seq<char>) -> bool {
    &&& ledger_fits(rows.totals@, label)
    &&& fits(labelled_total(rows.failures@, failure_label(), failure_count(), label))
    &&& runs_fit(rows.runs(), rows.unbound@, label)
}

/// Whether the figures of the whole experiment can be held.
pub open spec fn totals_fit(rows: ResultRows) -> bool {
    let runs = rows.runs();
    &&& fits(total(rows.totals@, row_requests()))
    &&& fits(total(rows.totals@, row_prompt()))
    &&& fits(total(rows.totals@, row_completion()))
    &&& fits(total(rows.totals@, row_tokens()))
    &&& fits(total(rows.totals@, row_estimated()))
    &&& fits(total(rows.failures@, failure_count()))
    &&& fits(total(runs, run_turns()))
    &&& fits(total(runs, run_unbound(rows.unbound@)))
    &&& fits(total(labels_of(rows), samples_under(rows.summaries@)))
}

pub open spec fn model_fits(m: VariantModelRow) -> bool {
    fits(m.tokens_in + m.tokens_out)
}

/// Whether every sum that the results show can be held by a 64-bit integer.
pub open spec fn countable(rows: ResultRows) -> bool {
    &&& forall|label: Seq<char>| #[trigger] variant_fits(rows, label)
    &&& totals_fit(rows)
    &&& forall|i: int| 0 <= i < rows.models@.len() ==> model_fits(#[trigger] rows.models@[i])
    &&& forall|key: RunRank| fits(#[trigger] failures_of(rows.failures@, key))
    &&& fits(rows.runs().len() as int)
    &&& fits(rows.outcomes@.len() as int)
}

// ---------------------------------------------------------------------------
// Labels
// ---------------------------------------------------------------------------

pub open spec fn model_label() -> spec_fn(VariantModelRow) -> Seq<char> {
    |m: VariantModelRow| m.variant@
}

pub open spec fn place_label(
    outcomes: Seq<RunOutcome>,
    runs: Seq<(RunRank, RunModel)>,
) -> spec_fn((RunRank, usize)) -> Seq<char> {
    |e: (RunRank, usize)| outcome_label(runs, outcomes[e.1 as int])
}

/// Every label that the experiment declares or a row carries, in the order in
/// which they are met.
pub open spec fn met_labels(rows: ResultRows) -> Seq<Seq<char>> {
    texts(rows.declared@) + rows.totals@.map_values(row_label()) + rows.models@.map_values(
        model_label(),
    ) + rows.failures@.map_values(failure_label()) + rows.runs().map_values(run_label())
        + row_places(rows.outcomes@).map_values(place_label(rows.outcomes@, rows.runs()))
}

fn find_run<'a>(index: &'a OrderedMap<RunKey, RunInfo>, key: &RunKey, Ghost(runs): Ghost<
    Seq<(RunRank, RunModel)>,
>) -> (r: Option<&'a RunInfo>)
    requires
        index.wf(),
        run_models(index@) == runs,
    ensures
        match r {
            Some(run) => lookup(runs, key.rank()) == Some(run@),
            None => lookup(runs, key.rank()) is None,
        },
{
    proof {
        lemma_lookup_map(index@, key.rank(), run_entry());
    }
    index.get(key)
}

fn label_of_outcome(o: &RunOutcome, index: &OrderedMap<RunKey, RunInfo>, Ghost(runs): Ghost<
    Seq<(RunRank, RunModel)>,
>) -> (r: String)
    requires
        index.wf(),
        run_models(index@) == runs,
    ensures
        r@ == outcome_label(runs, *o),
{
    match find_run(index, &o.run_key(), Ghost(runs)) {
        Some(run) => run.variant.clone(),
        None => text_or_empty(&o.experiment_variant),
    }
}

/// Collects the labels, sorted.
fn collect_labels(
    rows: &ResultRows,
    index: &OrderedMap<RunKey, RunInfo>,
    places: &OrderedMap<RunKey, usize>,
) -> (r: OrderedMap<String, ()>)
    requires
        index.wf(),
        run_models(index@) == rows.runs(),
        places.wf(),
        places@ == row_places(rows.outcomes@),
    ensures
        r.wf(),
        r@ == sorted_labels(met_labels(*rows)),
{
    let ghost runs = rows.runs();
    let mut all: Vec<String> = Vec::new();
    let mut i: usize = 0;
    assert(texts(all@) =~= texts(rows.declared@).take(0));
    while i < rows.declared.len()
        invariant
            i <= rows.declared@.len(),
            texts(all@) == texts(rows.declared@).take(i as int),
        decreases rows.declared@.len() - i,
    {
        let ghost before = texts(all@);
        all.push(rows.declared[i].clone());
        assert(texts(all@) =~= before.push(rows.declared@[i as int]@));
        assert(texts(all@) =~= texts(rows.declared@).take(i + 1));
        i += 1;
    }
    let ghost base = texts(all@);
    assert(base =~= texts(rows.declared@));
    i = 0;
    assert(texts(all@) =~= base + rows.totals@.map_values(row_label()).take(0));
    while i < rows.totals.len()
        invariant
            i <= rows.totals@.len(),
            texts(all@) == base + rows.totals@.map_values(row_label()).take(i as int),
        decreases rows.totals@.len() - i,
    {
        let ghost before = texts(all@);
        all.push(rows.totals[i].variant.clone());
        assert(texts(all@) =~= before.push(rows.totals@[i as int].variant@));
        assert(texts(all@) =~= base + rows.totals@.map_values(row_label()).take(i + 1));
        i += 1;
    }
    let ghost base = texts(all@);
    assert(base =~= texts(rows.declared@) + rows.totals@.map_values(row_label()));
    i = 0;
    assert(texts(all@) =~= base + rows.models@.map_values(model_label()).take(0));
    while i < rows.models.len()
        invariant
            i <= rows.models@.len(),
            texts(all@) == base + rows.models@.map_values(model_label()).take(i as int),
        decreases rows.models@.len() - i,
    {
        let ghost before = texts(all@);
        all.push(rows.models[i].variant.clone());
        assert(texts(all@) =~= before.push(rows.models@[i as int].variant@));
        assert(texts(all@) =~= base + rows.models@.map_values(model_label()).take(i + 1));
        i += 1;
    }
    let ghost base2 = texts(all@);
    assert(base2 =~= base + rows.models@.map_values(model_label()));
    i = 0;
    assert(texts(all@) =~= base2 + rows.failures@.map_values(failure_label()).take(0));
    while i < rows.failures.len()
        invariant
            i <= rows.failures@.len(),
            texts(all@) == base2 + rows.failures@.map_values(failure_label()).take(i as int),
        decreases rows.failures@.len() - i,
    {
        let ghost before = texts(all@);
        all.push(text_or_empty(&rows.failures[i].variant));
        assert(texts(all@) =~= before.push(or_empty(rows.failures@[i as int].variant)));
        assert(texts(all@) =~= base2 + rows.failures@.map_values(failure_label()).take(i + 1));
        i += 1;
    }
    let ghost base3 = texts(all@);
    assert(base3 =~= base2 + rows.failures@.map_values(failure_label()));
    i = 0;
    assert(texts(all@) =~= base3 + runs.map_values(run_label()).take(0));
    while i < index.len()
        invariant
            i <= index@.len(),
            run_models(index@) == runs,
            texts(all@) == base3 + runs.map_values(run_label()).take(i as int),
        decreases index@.len() - i,
    {
        let ghost before = texts(all@);
        assert(runs[i as int] == run_entry()(index@[i as int]));
        all.push(index.value(i).variant.clone());
        assert(texts(all@) =~= before.push(runs[i as int].1.variant));
        assert(texts(all@) =~= base3 + runs.map_values(run_label()).take(i + 1));
        i += 1;
    }
    let ghost base4 = texts(all@);
    assert(base4 =~= base3 + runs.map_values(run_label()));
    i = 0;
    let ghost pl = place_label(rows.outcomes@, runs);
    assert(texts(all@) =~= base4 + row_places(rows.outcomes@).map_values(pl).take(0));
    while i < places.len()
        invariant
            i <= places@.len(),
            index.wf(),
            run_models(index@) == runs,
            places@ == row_places(rows.outcomes@),
            pl == place_label(rows.outcomes@, runs),
            texts(all@) == base4 + row_places(rows.outcomes@).map_values(pl).take(i as int),
        decreases places@.len() - i,
    {
        let ghost before = texts(all@);
        proof {
            lemma_places_in_bounds(rows.outcomes@);
        }
        let o = &rows.outcomes[*places.value(i)];
        let label = label_of_outcome(o, index, Ghost(runs));
        all.push(label);
        assert(texts(all@) =~= before.push(outcome_label(runs, *o)));
        assert(texts(all@) =~= base4 + row_places(rows.outcomes@).map_values(pl).take(i + 1));
        i += 1;
    }
    assert(texts(all@) =~= met_labels(*rows));
    let mut labels: OrderedMap<String, ()> = OrderedMap::new();
    i = 0;
    while i < all.len()
        invariant
            i <= all@.len(),
            labels.wf(),
            labels@ == sorted_labels(texts(all@).take(i as int)),
        decreases all@.len() - i,
    {
        assert(texts(all@).take(i + 1).drop_last() =~= texts(all@).take(i as int));
        assert(texts(all@).take(i + 1).last() == all@[i as int]@);
        labels.insert(all[i].clone(), ());
        i += 1;
    }
    assert(texts(all@).take(i as int) =~= texts(all@));
    labels
}

// ---------------------------------------------------------------------------
// Tallying one variant
// ---------------------------------------------------------------------------

/// The columns that come from the ledger's totals.
struct LedgerColumns {
    requests: i64,
    costs_usd: Vec<Usd>,
    savings_usd: Vec<Usd>,
    tokens: TokenTotals,
    estimated_rows: i64,
}

fn ledger_columns(rows: &Vec<VariantTotalRow>, label: &str) -> (r: Option<LedgerColumns>)
    ensures
        match r {
            Some(c) => {
                &&& c.requests == labelled_total(rows@, row_label(), row_requests(), label@)
                &&& c.costs_usd@ == picked(rows@, row_is(label@), row_cost())
                &&& c.savings_usd@ == picked(rows@, row_is(label@), row_saved())
                &&& c.tokens.prompt == labelled_total(rows@, row_label(), row_prompt(), label@)
                &&& c.tokens.completion == labelled_total(
                    rows@,
                    row_label(),
                    row_completion(),
                    label@,
                )
                &&& c.tokens.total == labelled_total(rows@, row_label(), row_tokens(), label@)
                &&& c.estimated_rows == labelled_total(rows@, row_label(), row_estimated(), label@)
            },
            None => !ledger_fits(rows@, label@),
        },
{
    let mut requests: i128 = 0;
    let mut costs_usd: Vec<Usd> = Vec::new();
    let mut savings_usd: Vec<Usd> = Vec::new();
    let mut prompt: i128 = 0;
    let mut completion: i128 = 0;
    let mut estimated: i128 = 0;
    let ghost l = label@;
    let mut i: usize = 0;
    while i < rows.len()
        invariant
            i <= rows@.len(),
            l == label@,
            requests == labelled_total(rows@.take(i as int), row_label(), row_requests(), l),
            costs_usd@ == picked(rows@.take(i as int), row_is(l), row_cost()),
            savings_usd@ == picked(rows@.take(i as int), row_is(l), row_saved()),
            prompt == labelled_total(rows@.take(i as int), row_label(), row_prompt(), l),
            completion == labelled_total(rows@.take(i as int), row_label(), row_completion(), l),
            estimated == labelled_total(rows@.take(i as int), row_label(), row_estimated(), l),
        decreases rows@.len() - i,
    {
        let len: usize = rows.len();
        let t = &rows[i];
        proof {
            lemma_labelled_step(rows@, row_label(), row_requests(), l, i as int);
            lemma_labelled_step(rows@, row_label(), row_prompt(), l, i as int);
            lemma_labelled_step(rows@, row_label(), row_completion(), l, i as int);
            lemma_labelled_step(rows@, row_label(), row_estimated(), l, i as int);
            lemma_picked_step(rows@, row_is(l), row_cost(), i as int);
            lemma_picked_step(rows@, row_is(l), row_saved(), i as int);
            lemma_labelled_bounded(rows@, row_label(), row_requests(), l, i + 1);
            lemma_labelled_bounded(rows@, row_label(), row_prompt(), l, i + 1);
            lemma_labelled_bounded(rows@, row_label(), row_completion(), l, i + 1);
            lemma_labelled_bounded(rows@, row_label(), row_estimated(), l, i + 1);
            assert(i + 1 <= len);
        }
        if same(t.variant.as_str(), label) {
            requests = requests + t.requests as i128;
            costs_usd.push(t.cost_usd);
            savings_usd.push(t.saved_usd);
            prompt = prompt + t.tokens_in as i128;
            completion = completion + t.tokens_out as i128;
            estimated = estimated + t.estimated_rows as i128;
        }
        i += 1;
    }
    assert(rows@.take(i as int) =~= rows@);
    proof {
        lemma_labelled_plus(
            rows@,
            row_label(),
            row_prompt(),
            row_completion(),
            row_tokens(),
            l,
        );
    }
    let tokens = match sum_tokens(prompt, completion) {
        Some(t) => t,
        None => {
            return None;
        },
    };
    match (narrow(requests), narrow(estimated)) {
        (Some(requests), Some(estimated_rows)) => Some(
            LedgerColumns { requests, costs_usd, savings_usd, tokens, estimated_rows },
        ),
        _ => None,
    }
}

/// Token sums, where they and their sum can be held.
fn sum_tokens(prompt: i128, completion: i128) -> (r: Option<TokenTotals>)
    ensures
        match r {
            Some(t) => t.prompt == prompt && t.completion == completion && t.total == prompt
                + completion,
            None => !(fits(prompt as int) && fits(completion as int) && fits(prompt + completion)),
        },
{
    match (narrow(prompt), narrow(completion)) {
        (Some(p), Some(c)) => match narrow(p as i128 + c as i128) {
            Some(_) => Some(TokenTotals::new(p, c)),
            None => None,
        },
        _ => None,
    }
}

fn model_columns(rows: &Vec<VariantModelRow>, label: &str) -> (r: (
    Vec<VariantModelMetrics>,
    Vec<String>,
))
    requires
        forall|i: int| 0 <= i < rows@.len() ==> model_fits(#[trigger] rows@[i]),
    ensures
        metrics_of(r.0@, picked(rows@, model_is(label@), model_row())),
        texts(r.1@) == unpriced_names(rows@, label@),
{
    let mut models: Vec<VariantModelMetrics> = Vec::new();
    let mut unpriced: Vec<String> = Vec::new();
    let ghost l = label@;
    let mut i: usize = 0;
    assert(texts(unpriced@) =~= Seq::empty());
    while i < rows.len()
        invariant
            i <= rows@.len(),
            l == label@,
            forall|k: int| 0 <= k < rows@.len() ==> model_fits(#[trigger] rows@[k]),
            metrics_of(models@, picked(rows@.take(i as int), model_is(l), model_row())),
            texts(unpriced@) == unpriced_names(rows@.take(i as int), l),
        decreases rows@.len() - i,
    {
        let m = &rows[i];
        proof {
            assert(model_fits(rows@[i as int]));
            lemma_picked_step(rows@, model_is(l), model_row(), i as int);
            assert(rows@.take(i + 1).drop_last() =~= rows@.take(i as int));
        }
        if same(m.variant.as_str(), label) {
            if !m.priced && !holds_text(&unpriced, m.model.as_str()) {
                let ghost before = texts(unpriced@);
                unpriced.push(m.model.clone());
                assert(texts(unpriced@) =~= before.push(m.model@));
            }
            models.push(
                VariantModelMetrics {
                    model: m.model.clone(),
                    requests: m.requests,
                    cost_usd: m.cost_usd,
                    saved_usd: m.saved_usd,
                    tokens: TokenTotals::new(m.tokens_in, m.tokens_out),
                    estimated_rows: m.estimated_rows,
                    unpriced: !m.priced,
                },
            );
        }
        i += 1;
    }
    assert(rows@.take(i as int) =~= rows@);
    (models, unpriced)
}

fn failure_column(rows: &Vec<FailureRow>, label: &str) -> (r: Option<i64>)
    ensures
        match r {
            Some(n) => n == labelled_total(rows@, failure_label(), failure_count(), label@),
            None => !fits(labelled_total(rows@, failure_label(), failure_count(), label@)),
        },
{
    let mut n: i128 = 0;
    let ghost l = label@;
    let mut i: usize = 0;
    while i < rows.len()
        invariant
            i <= rows@.len(),
            l == label@,
            n == labelled_total(rows@.take(i as int), failure_label(), failure_count(), l),
        decreases rows@.len() - i,
    {
        let len: usize = rows.len();
        proof {
            lemma_labelled_step(rows@, failure_label(), failure_count(), l, i as int);
            lemma_labelled_bounded(rows@, failure_label(), failure_count(), l, i + 1);
            assert(i + 1 <= len);
        }
        if same(text_or_empty(&rows[i].variant).as_str(), label) {
            n = n + rows[i].failures as i128;
        }
        i += 1;
    }
    assert(rows@.take(i as int) =~= rows@);
    narrow(n)
}

/// The columns that come from the runs.
struct RunColumns {
    runs: i64,
    mixed_runs: i64,
    turns: i64,
    unbound_requests: i64,
    spans_ms: Vec<i64>,
}

proof fn lemma_count_is_len(runs: Seq<(RunRank, RunModel)>)
    ensures
        total(runs, run_one()) == runs.len(),
    decreases runs.len(),
{
    if runs.len() > 0 {
        lemma_count_is_len(runs.drop_last());
    }
}

fn run_columns(
    index: &OrderedMap<RunKey, RunInfo>,
    unbound: &Vec<UnboundRow>,
    unbound_places: &OrderedMap<RunKey, usize>,
    label: &str,
    Ghost(runs): Ghost<Seq<(RunRank, RunModel)>>,
) -> (r: Option<RunColumns>)
    requires
        index.wf(),
        run_models(index@) == runs,
        unbound_places.wf(),
        unbound_places@ == row_places(unbound@),
        fits(runs.len() as int),
    ensures
        match r {
            Some(c) => {
                &&& c.runs == labelled_total(runs, run_label(), run_one(), label@)
                &&& c.mixed_runs == labelled_total(runs, run_label(), run_mixed(), label@)
                &&& c.turns == labelled_total(runs, run_label(), run_turns(), label@)
                &&& c.unbound_requests == labelled_total(
                    runs,
                    run_label(),
                    run_unbound(unbound@),
                    label@,
                )
                &&& c.spans_ms@ == picked(runs, run_is(label@), run_span())
            },
            None => !runs_fit(runs, unbound@, label@),
        },
{
    let mut n: i64 = 0;
    let mut mixed: i64 = 0;
    let mut turns: i128 = 0;
    let mut unbound_requests: i128 = 0;
    let mut spans_ms: Vec<i64> = Vec::new();
    let ghost l = label@;
    let ghost ub = run_unbound(unbound@);
    let mut i: usize = 0;
    while i < index.len()
        invariant
            i <= index@.len(),
            l == label@,
            ub == run_unbound(unbound@),
            index.wf(),
            run_models(index@) == runs,
            unbound_places.wf(),
            unbound_places@ == row_places(unbound@),
            fits(runs.len() as int),
            n == labelled_total(runs.take(i as int), run_label(), run_one(), l),
            mixed == labelled_total(runs.take(i as int), run_label(), run_mixed(), l),
            turns == labelled_total(runs.take(i as int), run_label(), run_turns(), l),
            unbound_requests == labelled_total(runs.take(i as int), run_label(), ub, l),
            spans_ms@ == picked(runs.take(i as int), run_is(l), run_span()),
        decreases index@.len() - i,
    {
        let len: usize = index.len();
        let run = index.value(i);
        let key = index.key(i);
        let more: i64 = unbound_requests_of(unbound, unbound_places, key);
        proof {
            assert(runs[i as int] == run_entry()(index@[i as int]));
            lemma_labelled_step(runs, run_label(), run_one(), l, i as int);
            lemma_labelled_step(runs, run_label(), run_mixed(), l, i as int);
            lemma_labelled_step(runs, run_label(), run_turns(), l, i as int);
            lemma_labelled_step(runs, run_label(), ub, l, i as int);
            lemma_picked_step(runs, run_is(l), run_span(), i as int);
            lemma_labelled_within(runs, run_label(), run_one(), l, i + 1);
            lemma_labelled_within(runs, run_label(), run_mixed(), l, i + 1);
            lemma_labelled_bounded(runs, run_label(), run_turns(), l, i + 1);
            lemma_labelled_bounded(runs, run_label(), ub, l, i + 1);
            lemma_count_is_len(runs);
            lemma_total_within(runs, run_mixed(), run_one(), runs.len() as int);
            assert(runs.take(runs.len() as int) =~= runs);
            assert(i + 1 <= len);
        }
        if same(run.variant.as_str(), label) {
            n = n + 1;
            if run.mixed {
                mixed = mixed + 1;
            }
            turns = turns + run.requests as i128;
            unbound_requests = unbound_requests + more as i128;
            spans_ms.push(span_millis(run.first_at.as_str(), run.last_at.as_str()));
        }
        i += 1;
    }
    assert(runs.take(i as int) =~= runs);
    match (narrow(turns), narrow(unbound_requests)) {
        (Some(turns), Some(unbound_requests)) => Some(
            RunColumns { runs: n, mixed_runs: mixed, turns, unbound_requests, spans_ms },
        ),
        _ => None,
    }
}

fn unbound_requests_of(
    rows: &Vec<UnboundRow>,
    places: &OrderedMap<RunKey, usize>,
    key: &RunKey,
) -> (r: i64)
    requires
        places.wf(),
        places@ == row_places(rows@),
    ensures
        r == unbound_of(rows@, key.rank()),
{
    match find_row(rows, places, key) {
        Some(u) => u.requests,
        None => 0,
    }
}

proof fn lemma_places_len<T: OfRun>(rows: Seq<T>)
    ensures
        row_places(rows).len() <= rows.len(),
    decreases rows.len(),
{
    if rows.len() > 0 {
        lemma_places_len(rows.drop_last());
        crate::ordered::lemma_with_entry_members(
            row_places(rows.drop_last()),
            rows.last().run(),
            (rows.len() - 1) as usize,
        );
    }
}

proof fn lemma_successes(list: Seq<RunOutcome>)
    ensures
        0 <= total(list, succeeded()) <= list.len(),
    decreases list.len(),
{
    if list.len() > 0 {
        lemma_successes(list.drop_last());
    }
}

fn outcome_column(
    outcomes: &Vec<RunOutcome>,
    places: &OrderedMap<RunKey, usize>,
    index: &OrderedMap<RunKey, RunInfo>,
    label: &str,
    Ghost(runs): Ghost<Seq<(RunRank, RunModel)>>,
) -> (r: OutcomeStats)
    requires
        index.wf(),
        run_models(index@) == runs,
        places@ == row_places(outcomes@),
        fits(outcomes@.len() as int),
    ensures
        r.summarises(outcomes_under(outcomes@, runs, label@)),
{
    let mut stats = OutcomeStats::default();
    let ghost keep = outcome_is(outcomes@, runs, label@);
    let ghost at = outcome_at(outcomes@);
    let ghost all = row_places(outcomes@);
    let mut i: usize = 0;
    while i < places.len()
        invariant
            i <= places@.len(),
            index.wf(),
            run_models(index@) == runs,
            places@ == all,
            all == row_places(outcomes@),
            keep == outcome_is(outcomes@, runs, label@),
            at == outcome_at(outcomes@),
            fits(outcomes@.len() as int),
            stats.summarises(picked(all.take(i as int), keep, at)),
        decreases places@.len() - i,
    {
        proof {
            lemma_places_in_bounds(outcomes@);
            lemma_places_len(outcomes@);
            lemma_picked_step(all, keep, at, i as int);
            lemma_picked_len(all.take(i as int), keep, at);
            lemma_successes(picked(all.take(i as int), keep, at));
        }
        let o = &outcomes[*places.value(i)];
        let own = label_of_outcome(o, index, Ghost(runs));
        if same(own.as_str(), label) {
            stats.add(o);
        }
        i += 1;
    }
    assert(all.take(i as int) =~= all);
    stats
}

fn tally_variant(
    rows: &ResultRows,
    index: &OrderedMap<RunKey, RunInfo>,
    unbound_places: &OrderedMap<RunKey, usize>,
    places: &OrderedMap<RunKey, usize>,
    label: &String,
) -> (r: Option<VariantResults>)
    requires
        forall|i: int| 0 <= i < rows.models@.len() ==> model_fits(#[trigger] rows.models@[i]),
        fits(rows.runs().len() as int),
        fits(rows.outcomes@.len() as int),
        index.wf(),
        run_models(index@) == rows.runs(),
        unbound_places.wf(),
        unbound_places@ == row_places(rows.unbound@),
        places@ == row_places(rows.outcomes@),
    ensures
        match r {
            Some(v) => is_variant(v, *rows, label@),
            None => !variant_fits(*rows, label@),
        },
{
    let ghost runs = rows.runs();
    let (models, unpriced_models) = model_columns(&rows.models, label.as_str());
    let outcomes = outcome_column(&rows.outcomes, places, index, label.as_str(), Ghost(runs));
    let (latency, latency_samples) = match find_summary(&rows.summaries, label.as_str()) {
        Some(summary) => variant_latency(summary),
        None => (None, 0),
    };
    let unpriced = unpriced_models.len() > 0;
    assert(texts(unpriced_models@).len() == unpriced_models@.len());
    let ledger = ledger_columns(&rows.totals, label.as_str());
    let failures = failure_column(&rows.failures, label.as_str());
    let run = run_columns(index, &rows.unbound, unbound_places, label.as_str(), Ghost(runs));
    match (ledger, failures, run) {
        (Some(ledger), Some(failures), Some(run)) => Some(
            VariantResults {
                label: label.clone(),
                runs: run.runs,
                mixed_runs: run.mixed_runs,
                requests: ledger.requests,
                unbound_requests: run.unbound_requests,
                turns: run.turns,
                costs_usd: ledger.costs_usd,
                savings_usd: ledger.savings_usd,
                tokens: ledger.tokens,
                estimated_rows: ledger.estimated_rows,
                failures,
                latency,
                latency_samples,
                models,
                unpriced,
                unpriced_models,
                outcomes,
                spans_ms: run.spans_ms,
            },
        ),
        _ => None,
    }
}

// ---------------------------------------------------------------------------
// Totals
// ---------------------------------------------------------------------------

/// The whole experiment. Run-level and request-level columns are sums of the
/// per-variant ones, so the two views always agree.
pub struct ExperimentTotals {
    pub runs: i64,
    /// Runs seen under more than one variant, each counted once.
    pub mixed_runs: i64,
    pub requests: i64,
    pub unbound_requests: i64,
    pub turns: i64,
    pub tokens: TokenTotals,
    pub estimated_rows: i64,
    pub failures: i64,
    pub latency_samples: i64,
    pub outcomes: OutcomeStats,
}

/// Every reported outcome, one per run, by ascending run.
pub open spec fn all_outcomes(outcomes: Seq<RunOutcome>) -> Seq<RunOutcome> {
    row_places(outcomes).map_values(outcome_at(outcomes))
}

/// Whether `t` holds the totals of the rows.
pub open spec fn is_total(t: ExperimentTotals, rows: ResultRows) -> bool {
    let runs = rows.runs();
    &&& t.runs == runs.len()
    &&& t.mixed_runs == total(runs, run_mixed())
    &&& t.requests == total(rows.totals@, row_requests())
    &&& t.unbound_requests == total(runs, run_unbound(rows.unbound@))
    &&& t.turns == total(runs, run_turns())
    &&& t.tokens.prompt == total(rows.totals@, row_prompt())
    &&& t.tokens.completion == total(rows.totals@, row_completion())
    &&& t.tokens.total == total(rows.totals@, row_tokens())
    &&& t.estimated_rows == total(rows.totals@, row_estimated())
    &&& t.failures == total(rows.failures@, failure_count())
    &&& t.latency_samples == total(labels_of(rows), samples_under(rows.summaries@))
    &&& t.outcomes.summarises(all_outcomes(rows.outcomes@))
}

/// Whether there is one variant for each label, by ascending label, with its
/// figures.
pub open spec fn are_variants(variants: Seq<VariantResults>, rows: ResultRows) -> bool {
    &&& variants.len() == sorted_labels(met_labels(rows)).len()
    &&& forall|i: int|
        0 <= i < variants.len() ==> is_variant(
            #[trigger] variants[i],
            rows,
            sorted_labels(met_labels(rows))[i].0,
        )
}

/// The distinct labels, in ascending order.
pub open spec fn labels_of(rows: ResultRows) -> Seq<Seq<char>> {
    sorted_labels(met_labels(rows)).map_values(|e: (Seq<char>, ())| e.0)
}

proof fn lemma_labels_distinct(rows: ResultRows)
    ensures
        labels_of(rows).no_duplicates(),
{
    let s = sorted_labels(met_labels(rows));
    let l = labels_of(rows);
    lemma_sorted_labels(met_labels(rows), Seq::empty());
    assert forall|i: int, j: int| 0 <= i < l.len() && 0 <= j < l.len() && i != j implies l[i] != l[j] by {
        if i < j {
            assert(precedes(s[i].0, s[j].0));
            crate::text::precedes_is_irreflexive(s[i].0);
        } else {
            assert(precedes(s[j].0, s[i].0));
            crate::text::precedes_is_irreflexive(s[j].0);
        }
    }
}

proof fn lemma_met_label_listed(rows: ResultRows, label: Seq<char>)
    requires
        met_labels(rows).contains(label),
    ensures
        labels_of(rows).contains(label),
{
    let s = sorted_labels(met_labels(rows));
    lemma_sorted_labels(met_labels(rows), label);
    crate::ordered::lemma_lookup_is_entry(s, label);
    let i = choose|i: int| 0 <= i < s.len() && #[trigger] s[i] == (label, ());
    assert(labels_of(rows)[i] == label);
}

proof fn lemma_rows_are_labelled(rows: ResultRows)
    ensures
        forall|i: int|
            0 <= i < rows.totals@.len() ==> labels_of(rows).contains(
                row_label()(#[trigger] rows.totals@[i]),
            ),
        forall|i: int|
            0 <= i < rows.failures@.len() ==> labels_of(rows).contains(
                failure_label()(#[trigger] rows.failures@[i]),
            ),
        forall|i: int|
            0 <= i < rows.runs().len() ==> labels_of(rows).contains(
                run_label()(#[trigger] rows.runs()[i]),
            ),
{
    let m = met_labels(rows);
    let d = texts(rows.declared@).len() as int;
    let t = rows.totals@.len() as int;
    let k = rows.models@.len() as int;
    let f = rows.failures@.len() as int;
    assert forall|i: int| 0 <= i < rows.totals@.len() implies labels_of(rows).contains(
        row_label()(#[trigger] rows.totals@[i]),
    ) by {
        assert(m[d + i] == row_label()(rows.totals@[i]));
        lemma_met_label_listed(rows, row_label()(rows.totals@[i]));
    }
    assert forall|i: int| 0 <= i < rows.failures@.len() implies labels_of(rows).contains(
        failure_label()(#[trigger] rows.failures@[i]),
    ) by {
        assert(m[d + t + k + i] == failure_label()(rows.failures@[i]));
        lemma_met_label_listed(rows, failure_label()(rows.failures@[i]));
    }
    assert forall|i: int| 0 <= i < rows.runs().len() implies labels_of(rows).contains(
        run_label()(#[trigger] rows.runs()[i]),
    ) by {
        assert(m[d + t + k + f + i] == run_label()(rows.runs()[i]));
        lemma_met_label_listed(rows, run_label()(rows.runs()[i]));
    }
}

/// The columns of the variants add up to the totals: nothing is lost and
/// nothing counted twice, whichever variant it belongs to.
pub proof fn columns_sum_to_totals(rows: ResultRows)
    ensures
        total(labels_of(rows), column(rows.totals@, row_label(), row_requests())) == total(
            rows.totals@,
            row_requests(),
        ),
        total(labels_of(rows), column(rows.totals@, row_label(), row_prompt())) == total(
            rows.totals@,
            row_prompt(),
        ),
        total(labels_of(rows), column(rows.totals@, row_label(), row_completion())) == total(
            rows.totals@,
            row_completion(),
        ),
        total(labels_of(rows), column(rows.totals@, row_label(), row_tokens())) == total(
            rows.totals@,
            row_tokens(),
        ),
        total(labels_of(rows), column(rows.totals@, row_label(), row_estimated())) == total(
            rows.totals@,
            row_estimated(),
        ),
        total(labels_of(rows), column(rows.failures@, failure_label(), failure_count())) == total(
            rows.failures@,
            failure_count(),
        ),
        total(labels_of(rows), column(rows.runs(), run_label(), run_one())) == rows.runs().len(),
        total(labels_of(rows), column(rows.runs(), run_label(), run_mixed())) == total(
            rows.runs(),
            run_mixed(),
        ),
        total(labels_of(rows), column(rows.runs(), run_label(), run_turns())) == total(
            rows.runs(),
            run_turns(),
        ),
        total(labels_of(rows), column(rows.runs(), run_label(), run_unbound(rows.unbound@)))
            == total(rows.runs(), run_unbound(rows.unbound@)),
{
    let l = labels_of(rows);
    lemma_labels_distinct(rows);
    lemma_rows_are_labelled(rows);
    lemma_partition(rows.totals@, l, row_label(), row_requests());
    lemma_partition(rows.totals@, l, row_label(), row_prompt());
    lemma_partition(rows.totals@, l, row_label(), row_completion());
    lemma_partition(rows.totals@, l, row_label(), row_tokens());
    lemma_partition(rows.totals@, l, row_label(), row_estimated());
    lemma_partition(rows.failures@, l, failure_label(), failure_count());
    lemma_partition(rows.runs(), l, run_label(), run_one());
    lemma_partition(rows.runs(), l, run_label(), run_mixed());
    lemma_partition(rows.runs(), l, run_label(), run_turns());
    lemma_partition(rows.runs(), l, run_label(), run_unbound(rows.unbound@));
    lemma_count_is_len(rows.runs());
}

proof fn lemma_column_bounded<A>(
    s: Seq<A>,
    label_of: spec_fn(A) -> Seq<char>,
    f: spec_fn(A) -> int,
    labels: Seq<Seq<char>>,
    i: int,
)
    requires
        0 <= i <= labels.len(),
        forall|k: int|
            0 <= k < labels.len() ==> fits(labelled_total(s, label_of, f, #[trigger] labels[k])),
    ensures
        -0x8000_0000_0000_0000 * i <= total(labels.take(i), column(s, label_of, f))
            <= 0x8000_0000_0000_0000 * i,
{
    let c = column(s, label_of, f);
    assert forall|k: int| 0 <= k < labels.len() implies i64::MIN <= c(#[trigger] labels[k])
        <= i64::MAX by {
        assert(fits(labelled_total(s, label_of, f, labels[k])));
    }
    lemma_total_bounded(labels, c, i);
}

fn sum_outcomes(outcomes: &Vec<RunOutcome>, places: &OrderedMap<RunKey, usize>) -> (r: OutcomeStats)
    requires
        places@ == row_places(outcomes@),
        fits(outcomes@.len() as int),
    ensures
        r.summarises(all_outcomes(outcomes@)),
{
    let mut stats = OutcomeStats::default();
    let ghost all = all_outcomes(outcomes@);
    let mut i: usize = 0;
    assert(all.take(0) =~= Seq::empty());
    while i < places.len()
        invariant
            i <= places@.len(),
            places@ == row_places(outcomes@),
            all == all_outcomes(outcomes@),
            fits(outcomes@.len() as int),
            stats.summarises(all.take(i as int)),
        decreases places@.len() - i,
    {
        proof {
            lemma_places_in_bounds(outcomes@);
            lemma_places_len(outcomes@);
            lemma_successes(all.take(i as int));
        }
        let o = &outcomes[*places.value(i)];
        assert(all[i as int] == *o);
        stats.add(o);
        assert(all.take(i + 1) =~= all.take(i as int).push(*o));
        i += 1;
    }
    assert(all.take(i as int) =~= all);
    stats
}

/// The sums of the variants' columns.
struct Sums {
    runs: i128,
    mixed_runs: i128,
    requests: i128,
    unbound_requests: i128,
    turns: i128,
    prompt: i128,
    completion: i128,
    estimated_rows: i128,
    failures: i128,
    latency_samples: i128,
}

impl Sums {
    /// Whether these are the sums over some of the labels.
    spec fn over(&self, rows: ResultRows, l: Seq<Seq<char>>) -> bool {
        let runs = rows.runs();
        &&& self.runs == total(l, column(runs, run_label(), run_one()))
        &&& self.mixed_runs == total(l, column(runs, run_label(), run_mixed()))
        &&& self.requests == total(l, column(rows.totals@, row_label(), row_requests()))
        &&& self.unbound_requests == total(
            l,
            column(runs, run_label(), run_unbound(rows.unbound@)),
        )
        &&& self.turns == total(l, column(runs, run_label(), run_turns()))
        &&& self.prompt == total(l, column(rows.totals@, row_label(), row_prompt()))
        &&& self.completion == total(l, column(rows.totals@, row_label(), row_completion()))
        &&& self.estimated_rows == total(l, column(rows.totals@, row_label(), row_estimated()))
        &&& self.failures == total(l, column(rows.failures@, failure_label(), failure_count()))
        &&& self.latency_samples == total(l, samples_under(rows.summaries@))
    }

    fn add(&mut self, v: &VariantResults, Ghost(rows): Ghost<ResultRows>, Ghost(i): Ghost<int>)
        requires
            labels_of(rows).len() <= usize::MAX,
            0 <= i < labels_of(rows).len(),
            old(self).over(rows, labels_of(rows).take(i)),
            is_variant(*v, rows, labels_of(rows)[i]),
            forall|k: int|
                0 <= k < labels_of(rows).len() ==> shows_variant(
                    rows,
                    #[trigger] labels_of(rows)[k],
                ),
        ensures
            final(self).over(rows, labels_of(rows).take(i + 1)),
    {
        let ghost l = labels_of(rows);
        let ghost runs = rows.runs();
        let ghost ub = run_unbound(rows.unbound@);
        proof {
            lemma_total_step(l, column(rows.totals@, row_label(), row_requests()), i);
            lemma_total_step(l, column(rows.totals@, row_label(), row_prompt()), i);
            lemma_total_step(l, column(rows.totals@, row_label(), row_completion()), i);
            lemma_total_step(l, column(rows.totals@, row_label(), row_estimated()), i);
            lemma_total_step(l, column(rows.failures@, failure_label(), failure_count()), i);
            lemma_total_step(l, column(runs, run_label(), run_one()), i);
            lemma_total_step(l, column(runs, run_label(), run_mixed()), i);
            lemma_total_step(l, column(runs, run_label(), run_turns()), i);
            lemma_total_step(l, column(runs, run_label(), ub), i);
            lemma_total_step(l, samples_under(rows.summaries@), i);
            lemma_columns_bounded(rows, i + 1);
        }
        self.runs = self.runs + v.runs as i128;
        self.mixed_runs = self.mixed_runs + v.mixed_runs as i128;
        self.requests = self.requests + v.requests as i128;
        self.unbound_requests = self.unbound_requests + v.unbound_requests as i128;
        self.turns = self.turns + v.turns as i128;
        self.prompt = self.prompt + v.tokens.prompt as i128;
        self.completion = self.completion + v.tokens.completion as i128;
        self.estimated_rows = self.estimated_rows + v.estimated_rows as i128;
        self.failures = self.failures + v.failures as i128;
        self.latency_samples = self.latency_samples + v.latency_samples as i128;
    }
}

/// Whether there are figures of a variant.
spec fn shows_variant(rows: ResultRows, label: Seq<char>) -> bool {
    exists|v: VariantResults| is_variant(v, rows, label)
}

proof fn lemma_columns_bounded(rows: ResultRows, i: int)
    requires
        0 <= i <= labels_of(rows).len() <= usize::MAX,
        forall|k: int|
            0 <= k < labels_of(rows).len() ==> shows_variant(rows, #[trigger] labels_of(rows)[k]),
    ensures
        ({
            let l = labels_of(rows).take(i);
            let runs = rows.runs();
            let ub = run_unbound(rows.unbound@);
            &&& i128::MIN <= total(l, column(runs, run_label(), run_one())) <= i128::MAX
            &&& i128::MIN <= total(l, column(runs, run_label(), run_mixed())) <= i128::MAX
            &&& i128::MIN <= total(l, column(runs, run_label(), run_turns())) <= i128::MAX
            &&& i128::MIN <= total(l, column(runs, run_label(), ub)) <= i128::MAX
            &&& i128::MIN <= total(l, column(rows.totals@, row_label(), row_requests()))
                <= i128::MAX
            &&& i128::MIN <= total(l, column(rows.totals@, row_label(), row_prompt())) <= i128::MAX
            &&& i128::MIN <= total(l, column(rows.totals@, row_label(), row_completion()))
                <= i128::MAX
            &&& i128::MIN <= total(l, column(rows.totals@, row_label(), row_estimated()))
                <= i128::MAX
            &&& i128::MIN <= total(l, column(rows.failures@, failure_label(), failure_count()))
                <= i128::MAX
            &&& i128::MIN <= total(l, samples_under(rows.summaries@)) <= i128::MAX
        }),
{
    let l = labels_of(rows);
    let runs = rows.runs();
    let ub = run_unbound(rows.unbound@);
    assert forall|k: int| 0 <= k < l.len() implies {
        let label = #[trigger] l[k];
        &&& fits(labelled_total(runs, run_label(), run_one(), label))
        &&& fits(labelled_total(runs, run_label(), run_mixed(), label))
        &&& variant_fits(rows, label)
        &&& fits(samples_under(rows.summaries@)(label))
    } by {
        assert(shows_variant(rows, l[k]));
        let v = choose|v: VariantResults| is_variant(v, rows, l[k]);
        assert(is_variant(v, rows, l[k]));
    }
    lemma_column_bounded(runs, run_label(), run_one(), l, i);
    lemma_column_bounded(runs, run_label(), run_mixed(), l, i);
    lemma_column_bounded(runs, run_label(), run_turns(), l, i);
    lemma_column_bounded(runs, run_label(), ub, l, i);
    lemma_column_bounded(rows.totals@, row_label(), row_requests(), l, i);
    lemma_column_bounded(rows.totals@, row_label(), row_prompt(), l, i);
    lemma_column_bounded(rows.totals@, row_label(), row_completion(), l, i);
    lemma_column_bounded(rows.totals@, row_label(), row_estimated(), l, i);
    lemma_column_bounded(rows.failures@, failure_label(), failure_count(), l, i);
    lemma_total_bounded(l, samples_under(rows.summaries@), i);
}

fn sum_variants(
    rows: &ResultRows,
    variants: &Vec<VariantResults>,
    places: &OrderedMap<RunKey, usize>,
) -> (r: Option<ExperimentTotals>)
    requires
        fits(rows.runs().len() as int),
        fits(rows.outcomes@.len() as int),
        are_variants(variants@, *rows),
        places@ == row_places(rows.outcomes@),
    ensures
        match r {
            Some(t) => is_total(t, *rows),
            None => !totals_fit(*rows),
        },
{
    let ghost runs = rows.runs();
    let ghost l = labels_of(*rows);
    let mut sums = Sums {
        runs: 0,
        mixed_runs: 0,
        requests: 0,
        unbound_requests: 0,
        turns: 0,
        prompt: 0,
        completion: 0,
        estimated_rows: 0,
        failures: 0,
        latency_samples: 0,
    };
    let len: usize = variants.len();
    proof {
        assert(l.len() == len);
        assert forall|k: int| 0 <= k < l.len() implies shows_variant(*rows, #[trigger] l[k]) by {
            assert(is_variant(variants@[k], *rows, l[k]));
        }
    }
    let mut i: usize = 0;
    while i < variants.len()
        invariant
            i <= variants@.len(),
            variants@.len() == len,
            are_variants(variants@, *rows),
            l == labels_of(*rows),
            l.len() == len,
            forall|k: int| 0 <= k < l.len() ==> shows_variant(*rows, #[trigger] l[k]),
            sums.over(*rows, l.take(i as int)),
        decreases variants@.len() - i,
    {
        assert(is_variant(variants@[i as int], *rows, l[i as int]));
        sums.add(&variants[i], Ghost(*rows), Ghost(i as int));
        i += 1;
    }
    assert(l.take(i as int) =~= l);
    proof {
        columns_sum_to_totals(*rows);
        lemma_total_plus(rows.totals@, row_prompt(), row_completion(), row_tokens());
        lemma_total_within(runs, run_mixed(), run_one(), runs.len() as int);
        assert(runs.take(runs.len() as int) =~= runs);
        lemma_count_is_len(runs);
    }
    let tokens = match sum_tokens(sums.prompt, sums.completion) {
        Some(t) => t,
        None => {
            return None;
        },
    };
    match (
        narrow(sums.requests),
        narrow(sums.unbound_requests),
        narrow(sums.turns),
        narrow(sums.estimated_rows),
        narrow(sums.failures),
        narrow(sums.latency_samples),
    ) {
        (
            Some(requests),
            Some(unbound_requests),
            Some(turns),
            Some(estimated_rows),
            Some(failures),
            Some(latency_samples),
        ) => Some(
            ExperimentTotals {
                runs: sums.runs as i64,
                mixed_runs: sums.mixed_runs as i64,
                requests,
                unbound_requests,
                turns,
                tokens,
                estimated_rows,
                failures,
                latency_samples,
                outcomes: sum_outcomes(&rows.outcomes, places),
            },
        ),
        _ => None,
    }
}

// ---------------------------------------------------------------------------
// The list of runs
// ---------------------------------------------------------------------------

/// One run of a page, as the ledger groups it.
pub struct ExperimentRunRow {
    pub user_id: i64,
    pub correlation_id: String,
    pub variant: String,
    pub mixed: bool,
    pub requests: i64,
    pub cost_usd: Usd,
    pub saved_usd: Usd,
    pub tokens_in: i64,
    pub tokens_out: i64,
    pub estimated_rows: i64,
    pub first_at: String,
    pub last_at: String,
}

/// The latency of one run: only measured requests count.
pub struct RunLatency {
    pub samples: i64,
    /// The bits of a double.
    pub mean_ms: u64,
}

/// The reported outcome of one run.
pub struct RunOutcomeView {
    pub outcome: String,
    pub score: Option<u64>,
    pub rating: Option<i64>,
    pub note: Option<String>,
    pub reported_at: String,
}

/// One run. A run whose every request failed has no ledger rows: it appears with
/// no turns and its failure count.
pub struct RunResult {
    pub user_id: i64,
    pub correlation_id: String,
    /// Variant of the earliest stamped row.
    pub variant: String,
    /// Seen under more than one variant.
    pub mixed: bool,
    pub requests: i64,
    pub unbound_requests: i64,
    pub turns: i64,
    pub cost_usd: Usd,
    pub saved_usd: Usd,
    pub tokens: TokenTotals,
    pub estimated_rows: i64,
    pub failures: i64,
    pub latency: Option<RunLatency>,
    pub latency_samples: i64,
    /// Milliseconds between the earliest and the latest stamped row.
    pub span_ms: i64,
    pub first_at: String,
    pub last_at: String,
    pub outcome: Option<RunOutcomeView>,
}

pub struct RunsPage {
    pub total: i64,
    pub limit: i64,
    pub offset: i64,
    pub items: Vec<RunResult>,
}

/// Whether `v` shows the outcome `o`.
pub open spec fn shows_outcome(v: RunOutcomeView, o: RunOutcome) -> bool {
    &&& v.outcome@ == o.outcome@
    &&& v.score == o.score
    &&& v.rating == o.rating
    &&& opt_text(v.note) == opt_text(o.note)
    &&& v.reported_at@ == o.updated_at@
}

pub open spec fn shows_latency(v: RunLatency, l: LatencyRow) -> bool {
    &&& v.samples == l.samples
    &&& v.mean_ms == match l.mean_ms {
        Some(bits) => bits,
        None => 0,
    }
}

/// Whether `r` describes a run: what is known of it, its row on the page if it
/// has one, and what is joined to it by its key.
pub open spec fn describes(
    r: RunResult,
    key: RunRank,
    run: RunModel,
    row: Option<ExperimentRunRow>,
    rows: ResultRows,
) -> bool {
    &&& r.user_id == key.0
    &&& r.correlation_id@ == key.1
    &&& r.variant@ == run.variant
    &&& r.mixed == run.mixed
    &&& r.requests == run.requests
    &&& r.turns == run.requests
    &&& r.unbound_requests == unbound_of(rows.unbound@, key)
    &&& r.failures == failures_of(rows.failures@, key)
    &&& r.span_ms == span_millis_of(run.first_at, run.last_at)
    &&& r.first_at@ == run.first_at
    &&& r.last_at@ == run.last_at
    &&& match row {
        Some(row) => {
            &&& r.cost_usd == row.cost_usd
            &&& r.saved_usd == row.saved_usd
            &&& r.tokens.prompt == row.tokens_in
            &&& r.tokens.completion == row.tokens_out
            &&& r.tokens.total == row.tokens_in + row.tokens_out
            &&& r.estimated_rows == row.estimated_rows
        },
        None => {
            &&& r.cost_usd == Usd::zero_spec()
            &&& r.saved_usd == Usd::zero_spec()
            &&& r.tokens == (TokenTotals { prompt: 0, completion: 0, total: 0 })
            &&& r.estimated_rows == 0
        },
    }
    &&& match row_of(rows.latency@, key) {
        Some(l) => r.latency matches Some(v) && shows_latency(v, l) && r.latency_samples
            == l.samples,
        None => r.latency is None && r.latency_samples == 0,
    }
    &&& match row_of(rows.outcomes@, key) {
        Some(o) => r.outcome matches Some(v) && shows_outcome(v, o),
        None => r.outcome is None,
    }
}

/// What is known of a run on the page: what the index says, or, where it landed
/// after the index was read, what its own row says.
pub open spec fn known_run(runs: Seq<(RunRank, RunModel)>, row: ExperimentRunRow) -> RunModel {
    match lookup(runs, (row.user_id, row.correlation_id@)) {
        Some(run) => run,
        None => RunModel {
            variant: row.variant@,
            mixed: row.mixed,
            requests: row.requests,
            first_at: row.first_at@,
            last_at: row.last_at@,
            in_ledger: true,
        },
    }
}

/// The order of runs that only failed: the newest failure first, then by run.
pub struct Recency {
    pub last_at: Seq<char>,
    pub run: RunRank,
}

impl Ranked for Recency {
    open spec fn before(a: Recency, b: Recency) -> bool {
        precedes(b.last_at, a.last_at) || (a.last_at == b.last_at && RunRank::before(a.run, b.run))
    }

    proof fn lemma_irreflexive(a: Recency) {
        crate::text::precedes_is_irreflexive(a.last_at);
        RunRank::lemma_irreflexive(a.run);
    }

    proof fn lemma_transitive(a: Recency, b: Recency, c: Recency) {
        if precedes(b.last_at, a.last_at) && precedes(c.last_at, b.last_at) {
            crate::text::precedes_is_transitive(c.last_at, b.last_at, a.last_at);
        } else if a.last_at == b.last_at && b.last_at == c.last_at {
            RunRank::lemma_transitive(a.run, b.run, c.run);
        }
    }

    proof fn lemma_total(a: Recency, b: Recency) {
        crate::text::precedes_is_total(a.last_at, b.last_at);
        RunRank::lemma_total(a.run, b.run);
    }
}

struct RecencyKey {
    last_at: String,
    run: RunKey,
}

impl OrderedKey for RecencyKey {
    type Rank = Recency;

    closed spec fn rank(&self) -> Recency {
        Recency { last_at: self.last_at@, run: self.run.rank() }
    }

    fn is_before(&self, other: &RecencyKey) -> (r: bool) {
        is_before(other.last_at.as_str(), self.last_at.as_str()) || (same(
            self.last_at.as_str(),
            other.last_at.as_str(),
        ) && self.run.is_before(&other.run))
    }
}

/// The runs that have no ledger rows, the newest failure first: the place of
/// each among all runs.
pub open spec fn failure_only(runs: Seq<(RunRank, RunModel)>) -> Seq<(Recency, usize)>
    decreases runs.len(),
{
    if runs.len() == 0 {
        Seq::empty()
    } else {
        let rest = failure_only(runs.drop_last());
        let (key, run) = runs.last();
        if run.in_ledger {
            rest
        } else {
            with_entry(
                rest,
                Recency { last_at: run.last_at, run: key },
                (runs.len() - 1) as usize,
            )
        }
    }
}

proof fn lemma_failure_only(runs: Seq<(RunRank, RunModel)>)
    requires
        runs.len() <= usize::MAX,
    ensures
        ascending(failure_only(runs)),
        failure_only(runs).len() <= runs.len(),
        forall|k: int|
            0 <= k < failure_only(runs).len() ==> {
                let e = #[trigger] failure_only(runs)[k];
                &&& e.1 < runs.len()
                &&& !runs[e.1 as int].1.in_ledger
                &&& e.0 == (Recency { last_at: runs[e.1 as int].1.last_at, run: runs[e.1 as int].0 })
            },
    decreases runs.len(),
{
    if runs.len() > 0 {
        let front = runs.drop_last();
        lemma_failure_only(front);
        let rest = failure_only(front);
        let (key, run) = runs.last();
        let n = (runs.len() - 1) as usize;
        let all = failure_only(runs);
        if !run.in_ledger {
            let rank = Recency { last_at: run.last_at, run: key };
            crate::ordered::lemma_with_entry_members(rest, rank, n);
            crate::ordered::lemma_with_entry_ascends(rest, rank, n);
        }
        assert forall|k: int| 0 <= k < all.len() implies {
            let e = #[trigger] all[k];
            &&& e.1 < runs.len()
            &&& !runs[e.1 as int].1.in_ledger
            &&& e.0 == (Recency { last_at: runs[e.1 as int].1.last_at, run: runs[e.1 as int].0 })
        } by {
            if run.in_ledger {
                assert(all[k] == rest[k]);
                assert(front[rest[k].1 as int] == runs[rest[k].1 as int]);
            } else if all[k] != (Recency { last_at: run.last_at, run: key }, n) {
                let j = choose|j: int| 0 <= j < rest.len() && rest[j] == all[k];
                assert(rest[j].1 < front.len());
                assert(front[rest[j].1 as int] == runs[rest[j].1 as int]);
            }
        }
    }
}

fn list_failure_only(index: &OrderedMap<RunKey, RunInfo>, Ghost(runs): Ghost<
    Seq<(RunRank, RunModel)>,
>) -> (r: Vec<usize>)
    requires
        run_models(index@) == runs,
    ensures
        r@.len() == failure_only(runs).len(),
        forall|k: int| 0 <= k < r@.len() ==> #[trigger] r@[k] == failure_only(runs)[k].1,
{
    let mut sorted: OrderedMap<RecencyKey, usize> = OrderedMap::new();
    let mut i: usize = 0;
    while i < index.len()
        invariant
            i <= index@.len(),
            run_models(index@) == runs,
            sorted.wf(),
            sorted@ == failure_only(runs.take(i as int)),
        decreases index@.len() - i,
    {
        assert(runs.take(i + 1).drop_last() =~= runs.take(i as int));
        assert(runs[i as int] == run_entry()(index@[i as int]));
        assert(runs.take(i + 1).last() == runs[i as int]);
        let run = index.value(i);
        if !run.in_ledger {
            let key = index.key(i);
            let rank = RecencyKey { last_at: run.last_at.clone(), run: (key.0, key.1.clone()) };
            sorted.insert(rank, i);
        }
        i += 1;
    }
    assert(runs.take(i as int) =~= runs);
    let mut out: Vec<usize> = Vec::new();
    let mut k: usize = 0;
    while k < sorted.len()
        invariant
            k <= sorted@.len(),
            sorted@ == failure_only(runs),
            out@.len() == k,
            forall|j: int| 0 <= j < k ==> #[trigger] out@[j] == failure_only(runs)[j].1,
        decreases sorted@.len() - k,
    {
        out.push(*sorted.value(k));
        k += 1;
    }
    out
}

fn add_failures(rows: &Vec<FailureRow>, key: &RunKey) -> (r: i128)
    ensures
        r == failures_of(rows@, key.rank()),
{
    let mut n: i128 = 0;
    let ghost f = same_run(key.rank());
    let mut i: usize = 0;
    while i < rows.len()
        invariant
            i <= rows@.len(),
            f == same_run(key.rank()),
            n == total(rows@.take(i as int), f),
        decreases rows@.len() - i,
    {
        let len: usize = rows.len();
        proof {
            lemma_total_step(rows@, f, i as int);
            lemma_total_bounded(rows@, f, i + 1);
            assert(i + 1 <= len);
        }
        if rows[i].user_id == key.0 && same(rows[i].correlation_id.as_str(), key.1.as_str()) {
            n = n + rows[i].failures as i128;
        }
        i += 1;
    }
    assert(rows@.take(i as int) =~= rows@);
    n
}

/// What is joined to the runs.
struct Joins<'a> {
    rows: &'a ResultRows,
    unbound: OrderedMap<RunKey, usize>,
    latency: OrderedMap<RunKey, usize>,
    outcomes: OrderedMap<RunKey, usize>,
}

impl<'a> Joins<'a> {
    spec fn wf(&self) -> bool {
        &&& self.unbound.wf()
        &&& self.unbound@ == row_places(self.rows.unbound@)
        &&& self.latency.wf()
        &&& self.latency@ == row_places(self.rows.latency@)
        &&& self.outcomes.wf()
        &&& self.outcomes@ == row_places(self.rows.outcomes@)
        &&& forall|key: RunRank| fits(#[trigger] failures_of(self.rows.failures@, key))
    }

    fn describe(&self, key: &RunKey, run: &RunInfo, row: Option<&ExperimentRunRow>) -> (r: RunResult)
        requires
            self.wf(),
            row matches Some(w) ==> i64::MIN <= w.tokens_in + w.tokens_out <= i64::MAX,
        ensures
            describes(
                r,
                key.rank(),
                run@,
                match row {
                    Some(w) => Some(*w),
                    None => None,
                },
                *self.rows,
            ),
    {
        let all_failures: i128 = add_failures(&self.rows.failures, key);
        assert(fits(failures_of(self.rows.failures@, key.rank())));
        let failures: i64 = all_failures as i64;
        let latency = find_row(&self.rows.latency, &self.latency, key);
        let outcome = find_row(&self.rows.outcomes, &self.outcomes, key);
        let unbound_requests: i64 = match find_row(&self.rows.unbound, &self.unbound, key) {
            Some(u) => u.requests,
            None => 0,
        };
        let (cost_usd, saved_usd, tokens, estimated_rows) = match row {
            Some(w) => (
                w.cost_usd,
                w.saved_usd,
                TokenTotals::new(w.tokens_in, w.tokens_out),
                w.estimated_rows,
            ),
            None => (Usd::zero(), Usd::zero(), TokenTotals::default(), 0),
        };
        RunResult {
            user_id: key.0,
            correlation_id: key.1.clone(),
            variant: run.variant.clone(),
            mixed: run.mixed,
            requests: run.requests,
            unbound_requests,
            turns: run.requests,
            cost_usd,
            saved_usd,
            tokens,
            estimated_rows,
            failures,
            latency: match latency {
                Some(l) => Some(
                    RunLatency {
                        samples: l.samples,
                        mean_ms: match l.mean_ms {
                            Some(bits) => bits,
                            None => 0,
                        },
                    },
                ),
                None => None,
            },
            latency_samples: match latency {
                Some(l) => l.samples,
                None => 0,
            },
            span_ms: span_millis(run.first_at.as_str(), run.last_at.as_str()),
            first_at: run.first_at.clone(),
            last_at: run.last_at.clone(),
            outcome: match outcome {
                Some(o) => Some(
                    RunOutcomeView {
                        outcome: o.outcome.clone(),
                        score: o.score,
                        rating: o.rating,
                        note: copy_text(&o.note),
                        reported_at: o.updated_at.clone(),
                    },
                ),
                None => None,
            },
        }
    }
}

pub open spec fn floor_zero(n: int) -> int {
    if n > 0 {
        n
    } else {
        0
    }
}

/// How many runs that only failed come behind the first `shown` runs of a page
/// with room for `limit`, when the first `skip` of `available` are left out.
pub open spec fn failed_on_page(limit: int, shown: int, available: int, skip: int) -> int {
    let room = floor_zero(limit - shown);
    let left = floor_zero(available - skip);
    if room < left {
        room
    } else {
        left
    }
}

/// Whether `p` is the page of runs: the rows that the ledger gave for it, then
/// as many runs that only failed as fit.
pub open spec fn is_page(
    p: RunsPage,
    rows: ResultRows,
    page_rows: Seq<ExperimentRunRow>,
    ledger_total: i64,
    page: RunPage,
) -> bool {
    let runs = rows.runs();
    let failed = failure_only(runs);
    let skip = floor_zero(page.offset - ledger_total);
    let shown = page_rows.len() as int;
    let n = failed_on_page(page.limit as int, shown, failed.len() as int, skip);
    &&& p.total == ledger_total + failed.len()
    &&& p.limit == page.limit
    &&& p.offset == page.offset
    &&& p.items@.len() == shown + n
    &&& forall|i: int|
        0 <= i < shown ==> describes(
            #[trigger] p.items@[i],
            (page_rows[i].user_id, page_rows[i].correlation_id@),
            known_run(runs, page_rows[i]),
            Some(page_rows[i]),
            rows,
        )
    &&& forall|k: int|
        shown <= k < shown + n ==> describes(
            #[trigger] p.items@[k],
            runs[failed[skip + k - shown].1 as int].0,
            runs[failed[skip + k - shown].1 as int].1,
            None,
            rows,
        )
}

fn page_of_runs(
    joins: &Joins,
    index: &OrderedMap<RunKey, RunInfo>,
    page_rows: &Vec<ExperimentRunRow>,
    ledger_total: i64,
    page: RunPage,
) -> (r: RunsPage)
    requires
        joins.wf(),
        index.wf(),
        run_models(index@) == joins.rows.runs(),
        forall|i: int|
            0 <= i < page_rows@.len() ==> i64::MIN <= (#[trigger] page_rows@[i]).tokens_in
                + page_rows@[i].tokens_out <= i64::MAX,
        joins.rows.runs().len() <= usize::MAX,
        fits(joins.rows.runs().len() as int),
        ledger_total + failure_only(joins.rows.runs()).len() <= i64::MAX,
    ensures
        is_page(r, *joins.rows, page_rows@, ledger_total, page),
{
    let ghost runs = joins.rows.runs();
    let ghost failed = failure_only(runs);
    let mut items: Vec<RunResult> = Vec::new();
    let mut i: usize = 0;
    while i < page_rows.len()
        invariant
            i <= page_rows@.len(),
            joins.wf(),
            index.wf(),
            runs == joins.rows.runs(),
            run_models(index@) == runs,
            forall|j: int|
                0 <= j < page_rows@.len() ==> i64::MIN <= (#[trigger] page_rows@[j]).tokens_in
                    + page_rows@[j].tokens_out <= i64::MAX,
            items@.len() == i,
            forall|j: int|
                0 <= j < i ==> describes(
                    #[trigger] items@[j],
                    (page_rows@[j].user_id, page_rows@[j].correlation_id@),
                    known_run(runs, page_rows@[j]),
                    Some(page_rows@[j]),
                    *joins.rows,
                ),
        decreases page_rows@.len() - i,
    {
        let row = &page_rows[i];
        let key = key_of(row.user_id, row.correlation_id.as_str());
        let item = match find_run(index, &key, Ghost(runs)) {
            Some(run) => joins.describe(&key, run, Some(row)),
            None => {
                let fallback = RunInfo {
                    variant: row.variant.clone(),
                    mixed: row.mixed,
                    requests: row.requests,
                    first_at: row.first_at.clone(),
                    last_at: row.last_at.clone(),
                    in_ledger: true,
                };
                joins.describe(&key, &fallback, Some(row))
            },
        };
        items.push(item);
        i += 1;
    }
    let index_len: usize = index.len();
    let order = list_failure_only(index, Ghost(runs));
    proof {
        assert(runs.len() == index_len);
        lemma_failure_only(runs);
    }
    let shown: usize = items.len();
    let skip: i128 = {
        let d: i128 = page.offset as i128 - ledger_total as i128;
        if d > 0 {
            d
        } else {
            0
        }
    };
    let room: i128 = {
        let d: i128 = page.limit as i128 - shown as i128;
        if d > 0 {
            d
        } else {
            0
        }
    };
    let left: i128 = {
        let d: i128 = order.len() as i128 - skip;
        if d > 0 {
            d
        } else {
            0
        }
    };
    let n: usize = if room < left {
        room as usize
    } else {
        left as usize
    };
    let mut k: usize = 0;
    while k < n
        invariant
            k <= n,
            n == failed_on_page(page.limit as int, shown as int, failed.len() as int, skip as int),
            skip == floor_zero(page.offset - ledger_total),
            joins.wf(),
            index.wf(),
            runs == joins.rows.runs(),
            run_models(index@) == runs,
            failed == failure_only(runs),
            order@.len() == failed.len(),
            forall|j: int| 0 <= j < order@.len() ==> #[trigger] order@[j] == failed[j].1,
            forall|j: int| 0 <= j < failed.len() ==> (#[trigger] failed[j]).1 < runs.len(),
            shown == page_rows@.len(),
            items@.len() == shown + k,
            forall|j: int|
                0 <= j < shown ==> describes(
                    #[trigger] items@[j],
                    (page_rows@[j].user_id, page_rows@[j].correlation_id@),
                    known_run(runs, page_rows@[j]),
                    Some(page_rows@[j]),
                    *joins.rows,
                ),
            forall|j: int|
                shown <= j < shown + k ==> describes(
                    #[trigger] items@[j],
                    runs[failed[skip + j - shown].1 as int].0,
                    runs[failed[skip + j - shown].1 as int].1,
                    None,
                    *joins.rows,
                ),
        decreases n - k,
    {
        let len: usize = order.len();
        assert(0 <= skip && skip + k < len);
        let from: usize = skip as usize;
        assert(from == skip);
        let at: usize = order[from + k];
        assert(at == failed[skip + k].1);
        assert(runs[at as int] == run_entry()(index@[at as int]));
        let item = joins.describe(index.key(at), index.value(at), None);
        items.push(item);
        k += 1;
    }
    let total: i64 = ledger_total + order.len() as i64;
    RunsPage { total, limit: page.limit, offset: page.offset, items }
}

// ---------------------------------------------------------------------------
// The results
// ---------------------------------------------------------------------------

pub struct ExperimentResults {
    /// By ascending label.
    pub variants: Vec<VariantResults>,
    pub totals: ExperimentTotals,
    pub runs: RunsPage,
}

/// Whether a page of the ledger can be shown: its token counts can be added,
/// and so can the runs that only failed.
pub open spec fn showable(
    rows: ResultRows,
    page_rows: Seq<ExperimentRunRow>,
    ledger_total: i64,
) -> bool {
    &&& forall|i: int|
        0 <= i < page_rows.len() ==> i64::MIN <= (#[trigger] page_rows[i]).tokens_in
            + page_rows[i].tokens_out <= i64::MAX
    &&& ledger_total + failure_only(rows.runs()).len() <= i64::MAX
}

/// The labels of the results, in ascending order: for each of them the latency is
/// to be read.
pub fn result_labels(rows: &ResultRows) -> (r: Vec<String>)
    ensures
        texts(r@) == labels_of(*rows),
{
    let index = index_runs(&rows.run_keys, &rows.failures);
    let places = index_rows(&rows.outcomes);
    let labels = collect_labels(rows, &index, &places);
    let mut out: Vec<String> = Vec::new();
    let mut i: usize = 0;
    assert(texts(out@) =~= labels_of(*rows).take(0));
    while i < labels.len()
        invariant
            i <= labels@.len(),
            labels@ == sorted_labels(met_labels(*rows)),
            texts(out@) == labels_of(*rows).take(i as int),
        decreases labels@.len() - i,
    {
        let ghost before = texts(out@);
        out.push(labels.key(i).clone());
        assert(texts(out@) =~= before.push(labels_of(*rows)[i as int]));
        assert(texts(out@) =~= labels_of(*rows).take(i + 1));
        i += 1;
    }
    assert(labels_of(*rows).take(i as int) =~= labels_of(*rows));
    out
}

/// Assembles the results. The list of runs has the ledger's page first, then
/// the runs whose every request failed, the newest failure first.
pub fn build_results(
    rows: &ResultRows,
    page_rows: &Vec<ExperimentRunRow>,
    ledger_total: i64,
    page: RunPage,
) -> (r: ExperimentResults)
    requires
        countable(*rows),
        showable(*rows, page_rows@, ledger_total),
    ensures
        are_variants(r.variants@, *rows),
        is_total(r.totals, *rows),
        is_page(r.runs, *rows, page_rows@, ledger_total, page),
{
    counted_results(rows, page_rows, ledger_total, page).unwrap()
}

// ---------------------------------------------------------------------------
// Results that can be counted
// ---------------------------------------------------------------------------

fn models_fit(rows: &Vec<VariantModelRow>) -> (r: bool)
    ensures
        r == forall|i: int| 0 <= i < rows@.len() ==> model_fits(#[trigger] rows@[i]),
{
    let mut i: usize = 0;
    while i < rows.len()
        invariant
            i <= rows@.len(),
            forall|k: int| 0 <= k < i ==> model_fits(#[trigger] rows@[k]),
        decreases rows@.len() - i,
    {
        let m = &rows[i];
        if m.tokens_in.checked_add(m.tokens_out).is_none() {
            assert(!model_fits(rows@[i as int]));
            return false;
        }
        i += 1;
    }
    true
}

fn failures_fit(rows: &Vec<FailureRow>) -> (r: bool)
    ensures
        r == forall|key: RunRank| fits(#[trigger] failures_of(rows@, key)),
{
    let mut i: usize = 0;
    while i < rows.len()
        invariant
            i <= rows@.len(),
            forall|k: int|
                0 <= k < i ==> fits(
                    failures_of(rows@, ((#[trigger] rows@[k]).user_id, rows@[k].correlation_id@)),
                ),
        decreases rows@.len() - i,
    {
        let key = key_of(rows[i].user_id, rows[i].correlation_id.as_str());
        let n: i128 = add_failures(rows, &key);
        if narrow(n).is_none() {
            assert(!fits(failures_of(rows@, key.rank())));
            return false;
        }
        i += 1;
    }
    proof {
        assert forall|key: RunRank| fits(#[trigger] failures_of(rows@, key)) by {
            if exists|k: int|
                0 <= k < rows@.len() && ((#[trigger] rows@[k]).user_id, rows@[k].correlation_id@)
                    == key {
                let k = choose|k: int|
                    0 <= k < rows@.len() && (
                    (#[trigger] rows@[k]).user_id, rows@[k].correlation_id@) == key;
                assert(fits(failures_of(rows@, (rows@[k].user_id, rows@[k].correlation_id@))));
            } else {
                lemma_total_zero(rows@, same_run(key));
            }
        }
    }
    true
}

fn page_fits(page_rows: &Vec<ExperimentRunRow>) -> (r: bool)
    ensures
        r == forall|i: int|
            0 <= i < page_rows@.len() ==> i64::MIN <= (#[trigger] page_rows@[i]).tokens_in
                + page_rows@[i].tokens_out <= i64::MAX,
{
    let mut i: usize = 0;
    while i < page_rows.len()
        invariant
            i <= page_rows@.len(),
            forall|k: int|
                0 <= k < i ==> i64::MIN <= (#[trigger] page_rows@[k]).tokens_in
                    + page_rows@[k].tokens_out <= i64::MAX,
        decreases page_rows@.len() - i,
    {
        let row = &page_rows[i];
        if row.tokens_in.checked_add(row.tokens_out).is_none() {
            return false;
        }
        i += 1;
    }
    true
}

/// A variant that is not listed has nothing to count.
proof fn lemma_unlisted_fits(rows: ResultRows, label: Seq<char>)
    requires
        !labels_of(rows).contains(label),
    ensures
        variant_fits(rows, label),
{
    let runs = rows.runs();
    lemma_rows_are_labelled(rows);
    assert forall|i: int| 0 <= i < rows.totals@.len() implies row_label()(
        #[trigger] rows.totals@[i],
    ) != label by {
        assert(labels_of(rows).contains(row_label()(rows.totals@[i])));
    }
    assert forall|i: int| 0 <= i < rows.failures@.len() implies failure_label()(
        #[trigger] rows.failures@[i],
    ) != label by {
        assert(labels_of(rows).contains(failure_label()(rows.failures@[i])));
    }
    assert forall|i: int| 0 <= i < runs.len() implies run_label()(#[trigger] runs[i]) != label by {
        assert(labels_of(rows).contains(run_label()(rows.runs()[i])));
    }
    lemma_labelled_absent(rows.totals@, row_label(), row_requests(), label);
    lemma_labelled_absent(rows.totals@, row_label(), row_prompt(), label);
    lemma_labelled_absent(rows.totals@, row_label(), row_completion(), label);
    lemma_labelled_absent(rows.totals@, row_label(), row_tokens(), label);
    lemma_labelled_absent(rows.totals@, row_label(), row_estimated(), label);
    lemma_labelled_absent(rows.failures@, failure_label(), failure_count(), label);
    lemma_labelled_absent(runs, run_label(), run_turns(), label);
    lemma_labelled_absent(runs, run_label(), run_unbound(rows.unbound@), label);
}

/// The results where they can be counted, and nothing where a sum is too large to
/// hold.
pub fn counted_results(
    rows: &ResultRows,
    page_rows: &Vec<ExperimentRunRow>,
    ledger_total: i64,
    page: RunPage,
) -> (r: Option<ExperimentResults>)
    ensures
        r is Some <==> countable(*rows) && showable(*rows, page_rows@, ledger_total),
        r matches Some(x) ==> are_variants(x.variants@, *rows) && is_total(x.totals, *rows) && is_page(
            x.runs,
            *rows,
            page_rows@,
            ledger_total,
            page,
        ),
{
    let index = index_runs(&rows.run_keys, &rows.failures);
    let top: i128 = 0x7fff_ffff_ffff_ffff;
    let index_len: usize = index.len();
    assert(run_models(index@).len() == index@.len());
    if index_len as i128 > top || rows.outcomes.len() as i128 > top || !models_fit(&rows.models)
        || !failures_fit(&rows.failures) || !page_fits(page_rows) {
        return None;
    }
    let failed: usize = list_failure_only(&index, Ghost(rows.runs())).len();
    if ledger_total as i128 + failed as i128 > top {
        return None;
    }
    let joins = Joins {
        rows,
        unbound: index_rows(&rows.unbound),
        latency: index_rows(&rows.latency),
        outcomes: index_rows(&rows.outcomes),
    };
    let labels = collect_labels(rows, &index, &joins.outcomes);
    let ghost sorted = sorted_labels(met_labels(*rows));
    let mut variants: Vec<VariantResults> = Vec::new();
    let mut i: usize = 0;
    while i < labels.len()
        invariant
            i <= labels@.len(),
            labels@ == sorted,
            sorted == sorted_labels(met_labels(*rows)),
            forall|k: int| 0 <= k < rows.models@.len() ==> model_fits(#[trigger] rows.models@[k]),
            fits(rows.runs().len() as int),
            fits(rows.outcomes@.len() as int),
            index.wf(),
            run_models(index@) == rows.runs(),
            joins.wf(),
            *joins.rows == *rows,
            variants@.len() == i,
            forall|k: int| 0 <= k < i ==> is_variant(#[trigger] variants@[k], *rows, sorted[k].0),
        decreases labels@.len() - i,
    {
        match tally_variant(rows, &index, &joins.unbound, &joins.outcomes, labels.key(i)) {
            Some(v) => {
                variants.push(v);
            },
            None => {
                assert(!variant_fits(*rows, sorted[i as int].0));
                return None;
            },
        }
        i += 1;
    }
    let totals = match sum_variants(rows, &variants, &joins.outcomes) {
        Some(t) => t,
        None => {
            return None;
        },
    };
    let runs = page_of_runs(&joins, &index, page_rows, ledger_total, page);
    proof {
        assert forall|label: Seq<char>| #[trigger] variant_fits(*rows, label) by {
            if labels_of(*rows).contains(label) {
                let k = choose|k: int|
                    0 <= k < labels_of(*rows).len() && labels_of(*rows)[k] == label;
                assert(is_variant(variants@[k], *rows, sorted[k].0));
            } else {
                lemma_unlisted_fits(*rows, label);
            }
        }
    }
    Some(ExperimentResults { variants, totals, runs })
}

/// Why there are no results.
#[derive(Debug, Clone, PartialEq, Eq)]
pub enum ResultsError {
    /// The question is at fault, and this is how.
    Invalid(String),
    /// What was needed to answer could not be had.
    Db(String),
}

impl ResultsError {
    /// How the endpoint answers it. What went wrong inside is not told.
    pub fn into_api_error(self) -> (r: ApiError)
        ensures
            match self {
                ResultsError::Invalid(m) => r == ApiError::InvalidRequest(m),
                ResultsError::Db(_) => r == ApiError::Internal,
            },
    {
        match self {
            ResultsError::Invalid(m) => ApiError::InvalidRequest(m),
            ResultsError::Db(_) => ApiError::Internal,
        }
    }

    /// How the dashboard answers it.
    pub fn into_dashboard_error(self) -> (r: DashboardError)
        ensures
            match self {
                ResultsError::Invalid(m) => r == DashboardError::BadRequest(m),
                ResultsError::Db(_) => r == DashboardError::Internal,
            },
    {
        match self {
            ResultsError::Invalid(m) => DashboardError::BadRequest(m),
            ResultsError::Db(_) => DashboardError::Internal,
        }
    }
}

/// The experiment whose results are asked for.
pub fn find_experiment<'a>(id: i64, found: &'a Option<Experiment>) -> (r: Result<
    &'a Experiment,
    ResultsError,
>)
    ensures
        match *found {
            Some(e) => r matches Ok(x) && *x == e,
            None => r matches Err(ResultsError::Invalid(m)) && m@ == no_experiment(id),
        },
{
    match found {
        Some(e) => Ok(e),
        None => Err(ResultsError::Invalid(no_experiment_text(id))),
    }
}

/// The latency of a variant and the number of samples it rests on. Without any
/// there is none.
pub fn variant_latency(summary: LatencySummary) -> (r: (Option<LatencySummary>, i64))
    ensures
        r.1 == summary.samples,
        r.0 == if summary.samples > 0 {
            Some(summary)
        } else {
            None
        },
{
    if summary.samples > 0 {
        (Some(summary), summary.samples)
    } else {
        (None, summary.samples)
    }
}

impl VariantResults {
    /// By what the figures per run and per request are divided; absent where
    /// there are none to divide by.
    pub fn divisors(&self) -> (r: (Option<i64>, Option<i64>))
        ensures
            r.0 == if self.runs > 0 {
                Some(self.runs)
            } else {
                None
            },
            r.1 == if self.requests > 0 {
                Some(self.requests)
            } else {
                None
            },
    {
        let per_run: Option<i64> = if self.runs > 0 {
            Some(self.runs)
        } else {
            None
        };
        let per_request: Option<i64> = if self.requests > 0 {
            Some(self.requests)
        } else {
            None
        };
        (per_run, per_request)
    }
}

#[derive(Debug, Clone, PartialEq, Eq)]
pub struct ResultsQuery {
    pub limit: Option<String>,
    pub offset: Option<String>,
}

impl ResultsQuery {
    /// The page that is asked for.
    pub fn page(&self) -> (r: Result<RunPage, ApiError>)
        ensures
            match RunPage::parsed(opt_text(self.limit), opt_text(self.offset)) {
                Ok(p) => r == Ok::<RunPage, ApiError>(p),
                Err(message) => r matches Err(ApiError::InvalidRequest(m)) && m@ == message,
            },
    {
        let limit = match &self.limit {
            Some(t) => Some(t.as_str()),
            None => None,
        };
        let offset = match &self.offset {
            Some(t) => Some(t.as_str()),
            None => None,
        };
        match RunPage::parse(limit, offset) {
            Ok(p) => Ok(p),
            Err(m) => Err(ApiError::InvalidRequest(m)),
        }
    }
}

// ---------------------------------------------------------------------------
// Laws
// ---------------------------------------------------------------------------

// The columns of a variant that have a total.
pub open spec fn v_runs() -> spec_fn(VariantResults) -> int {
    |v: VariantResults| v.runs as int
}

pub open spec fn v_mixed() -> spec_fn(VariantResults) -> int {
    |v: VariantResults| v.mixed_runs as int
}

pub open spec fn v_requests() -> spec_fn(VariantResults) -> int {
    |v: VariantResults| v.requests as int
}

pub open spec fn v_unbound() -> spec_fn(VariantResults) -> int {
    |v: VariantResults| v.unbound_requests as int
}

pub open spec fn v_turns() -> spec_fn(VariantResults) -> int {
    |v: VariantResults| v.turns as int
}

pub open spec fn v_prompt() -> spec_fn(VariantResults) -> int {
    |v: VariantResults| v.tokens.prompt as int
}

pub open spec fn v_completion() -> spec_fn(VariantResults) -> int {
    |v: VariantResults| v.tokens.completion as int
}

pub open spec fn v_tokens() -> spec_fn(VariantResults) -> int {
    |v: VariantResults| v.tokens.total as int
}

pub open spec fn v_estimated() -> spec_fn(VariantResults) -> int {
    |v: VariantResults| v.estimated_rows as int
}

pub open spec fn v_failures() -> spec_fn(VariantResults) -> int {
    |v: VariantResults| v.failures as int
}

pub open spec fn v_samples() -> spec_fn(VariantResults) -> int {
    |v: VariantResults| v.latency_samples as int
}

/// Every column of the totals is the sum of that column over the variants. The
/// variants come by strictly ascending label, and every label that the experiment
/// declares is among them, even one without traffic.
pub proof fn totals_sum_the_variants(
    variants: Seq<VariantResults>,
    t: ExperimentTotals,
    rows: ResultRows,
)
    requires
        are_variants(variants, rows),
        is_total(t, rows),
    ensures
        t.runs == total(variants, v_runs()),
        t.mixed_runs == total(variants, v_mixed()),
        t.requests == total(variants, v_requests()),
        t.unbound_requests == total(variants, v_unbound()),
        t.turns == total(variants, v_turns()),
        t.tokens.prompt == total(variants, v_prompt()),
        t.tokens.completion == total(variants, v_completion()),
        t.tokens.total == total(variants, v_tokens()),
        t.estimated_rows == total(variants, v_estimated()),
        t.failures == total(variants, v_failures()),
        t.latency_samples == total(variants, v_samples()),
        forall|i: int, j: int|
            0 <= i < j < variants.len() ==> precedes(
                (#[trigger] variants[i]).label@,
                (#[trigger] variants[j]).label@,
            ),
        forall|d: int|
            0 <= d < rows.declared@.len() ==> exists|i: int|
                0 <= i < variants.len() && (#[trigger] variants[i]).label@ == (
                #[trigger] rows.declared@[d])@,
{
    let l = labels_of(rows);
    let runs = rows.runs();
    let sorted = sorted_labels(met_labels(rows));
    assert forall|i: int| 0 <= i < variants.len() implies is_variant(
        #[trigger] variants[i],
        rows,
        l[i],
    ) by {
        assert(l[i] == sorted[i].0);
    }
    columns_sum_to_totals(rows);
    lemma_total_alike(variants, v_runs(), l, column(runs, run_label(), run_one()));
    lemma_total_alike(variants, v_mixed(), l, column(runs, run_label(), run_mixed()));
    lemma_total_alike(variants, v_requests(), l, column(rows.totals@, row_label(), row_requests()));
    lemma_total_alike(
        variants,
        v_unbound(),
        l,
        column(runs, run_label(), run_unbound(rows.unbound@)),
    );
    lemma_total_alike(variants, v_turns(), l, column(runs, run_label(), run_turns()));
    lemma_total_alike(variants, v_prompt(), l, column(rows.totals@, row_label(), row_prompt()));
    lemma_total_alike(
        variants,
        v_completion(),
        l,
        column(rows.totals@, row_label(), row_completion()),
    );
    lemma_total_alike(variants, v_tokens(), l, column(rows.totals@, row_label(), row_tokens()));
    lemma_total_alike(
        variants,
        v_estimated(),
        l,
        column(rows.totals@, row_label(), row_estimated()),
    );
    lemma_total_alike(
        variants,
        v_failures(),
        l,
        column(rows.failures@, failure_label(), failure_count()),
    );
    lemma_total_alike(variants, v_samples(), l, samples_under(rows.summaries@));
    lemma_sorted_labels(met_labels(rows), Seq::empty());
    assert forall|i: int, j: int| 0 <= i < j < variants.len() implies precedes(
        (#[trigger] variants[i]).label@,
        (#[trigger] variants[j]).label@,
    ) by {
        assert(precedes(sorted[i].0, sorted[j].0));
    }
    assert forall|d: int| 0 <= d < rows.declared@.len() implies exists|i: int|
        0 <= i < variants.len() && (#[trigger] variants[i]).label@ == (
        #[trigger] rows.declared@[d])@ by {
        assert(met_labels(rows)[d] == rows.declared@[d]@);
        lemma_met_label_listed(rows, rows.declared@[d]@);
        let i = choose|i: int| 0 <= i < l.len() && l[i] == rows.declared@[d]@;
        assert(variants[i].label@ == rows.declared@[d]@);
    }
}

/// A page never holds more runs than its limit, unless the ledger itself gave
/// more.
pub proof fn pages_are_bounded(
    p: RunsPage,
    rows: ResultRows,
    page_rows: Seq<ExperimentRunRow>,
    ledger_total: i64,
    page: RunPage,
)
    requires
        is_page(p, rows, page_rows, ledger_total, page),
        page_rows.len() <= page.limit,
    ensures
        p.items@.len() <= page.limit,
{
}

/// Behind the ledger's rows, runs come by their last failure, the newest first.
pub proof fn failed_runs_come_newest_first(
    p: RunsPage,
    rows: ResultRows,
    page_rows: Seq<ExperimentRunRow>,
    ledger_total: i64,
    page: RunPage,
    i: int,
    j: int,
)
    requires
        is_page(p, rows, page_rows, ledger_total, page),
        rows.runs().len() <= usize::MAX,
        page_rows.len() <= i < j < p.items@.len(),
    ensures
        p.items@[i].last_at@ == p.items@[j].last_at@ || precedes(
            p.items@[j].last_at@,
            p.items@[i].last_at@,
        ),
{
    let runs = rows.runs();
    let failed = failure_only(runs);
    lemma_failure_only(runs);
    let skip = floor_zero(page.offset - ledger_total);
    let shown = page_rows.len() as int;
    let a = skip + i - shown;
    let b = skip + j - shown;
    assert(Recency::before(failed[a].0, failed[b].0));
    assert(failed[a].0.last_at == runs[failed[a].1 as int].1.last_at);
    assert(failed[b].0.last_at == runs[failed[b].1 as int].1.last_at);
}

/// A run that is shown behind the ledger's rows has no turns and cost nothing.
pub proof fn failed_runs_cost_nothing(
    p: RunsPage,
    rows: ResultRows,
    page_rows: Seq<ExperimentRunRow>,
    ledger_total: i64,
    page: RunPage,
    i: int,
)
    requires
        is_page(p, rows, page_rows, ledger_total, page),
        rows.runs().len() <= usize::MAX,
        page_rows.len() <= i < p.items@.len(),
    ensures
        p.items@[i].cost_usd == Usd::zero_spec(),
        p.items@[i].tokens.total == 0,
        p.items@[i].turns == 0,
{
    let runs = rows.runs();
    let failed = failure_only(runs);
    lemma_failure_only(runs);
    let skip = floor_zero(page.offset - ledger_total);
    let shown = page_rows.len() as int;
    let at = failed[skip + i - shown].1 as int;
    assert(!runs[at].1.in_ledger);
    lemma_failed_runs_have_no_turns(rows.run_keys@, rows.failures@);
    assert(idle_unless_in_ledger(runs[at].1));
}

pub open spec fn idle_unless_in_ledger(run: RunModel) -> bool {
    run.in_ledger || run.requests == 0
}

proof fn lemma_failed_runs_have_no_turns(run_keys: Seq<RunKeyRow>, failures: Seq<FailureRow>)
    ensures
        forall|i: int|
            0 <= i < all_runs(run_keys, failures).len() ==> idle_unless_in_ledger(
                (#[trigger] all_runs(run_keys, failures)[i]).1,
            ),
    decreases failures.len(),
{
    if failures.len() == 0 {
        lemma_ledger_runs_are_in_ledger(run_keys);
    } else {
        let front = failures.drop_last();
        lemma_failed_runs_have_no_turns(run_keys, front);
        let before = all_runs(run_keys, front);
        let after = all_runs(run_keys, failures);
        let f = failures.last();
        let key = (f.user_id, f.correlation_id@);
        crate::ordered::lemma_lookup_is_entry(before, key);
        let run = match lookup(before, key) {
            Some(run) => merged_run(run, f),
            None => failed_run(f),
        };
        if let Some(old_run) = lookup(before, key) {
            let j = choose|j: int| 0 <= j < before.len() && #[trigger] before[j] == (key, old_run);
            assert(idle_unless_in_ledger(before[j].1));
        }
        crate::ordered::lemma_with_entry_members(before, key, run);
        assert forall|i: int| 0 <= i < after.len() implies idle_unless_in_ledger(
            (#[trigger] after[i]).1,
        ) by {
            if after == before {
                assert(idle_unless_in_ledger(before[i].1));
            } else if after[i] != (key, run) {
                let j = choose|j: int| 0 <= j < before.len() && before[j] == after[i];
                assert(idle_unless_in_ledger(before[j].1));
            }
        }
    }
}

proof fn lemma_ledger_runs_are_in_ledger(rows: Seq<RunKeyRow>)
    ensures
        forall|i: int| 0 <= i < ledger_runs(rows).len() ==> (#[trigger] ledger_runs(rows)[i]).1.in_ledger,
    decreases rows.len(),
{
    if rows.len() > 0 {
        lemma_ledger_runs_are_in_ledger(rows.drop_last());
        let before = ledger_runs(rows.drop_last());
        let key = (rows.last().user_id, rows.last().correlation_id@);
        let run = ledger_run(rows.last());
        crate::ordered::lemma_with_entry_members(before, key, run);
        let after = ledger_runs(rows);
        assert forall|i: int| 0 <= i < after.len() implies (#[trigger] after[i]).1.in_ledger by {
            if after[i] != (key, run) {
                let j = choose|j: int| 0 <= j < before.len() && before[j] == after[i];
                assert(before[j].1.in_ledger);
            }
        }
    }
}

// ---------------------------------------------------------------------------
// Paging
// ---------------------------------------------------------------------------

pub open spec fn row_run() -> spec_fn(ExperimentRunRow) -> RunRank {
    |w: ExperimentRunRow| (w.user_id, w.correlation_id@)
}

pub open spec fn key_run() -> spec_fn(RunKeyRow) -> RunRank {
    |w: RunKeyRow| (w.user_id, w.correlation_id@)
}

pub open spec fn item_run() -> spec_fn(RunResult) -> RunRank {
    |r: RunResult| (r.user_id, r.correlation_id@)
}

pub open spec fn recent_run() -> spec_fn((Recency, usize)) -> RunRank {
    |e: (Recency, usize)| e.0.run
}

/// The whole list of runs, of which pages are parts: the runs with ledger rows, in
/// the order in which the ledger gives them, then those that only failed, the
/// newest failure first.
pub open spec fn run_list(rows: ResultRows, ledger: Seq<ExperimentRunRow>) -> Seq<RunRank> {
    ledger.map_values(row_run()) + failure_only(rows.runs()).map_values(recent_run())
}

pub open spec fn at_most(n: int, top: int) -> int {
    if n < top {
        n
    } else {
        top
    }
}

/// The part of a list that a page has room for.
pub open spec fn part<A>(s: Seq<A>, offset: int, limit: int) -> Seq<A> {
    s.subrange(at_most(offset, s.len() as int), at_most(offset + limit, s.len() as int))
}

/// Whether the ledger's list is that of the runs whose keys it gave: each run once.
pub open spec fn lists_runs(ledger: Seq<ExperimentRunRow>, run_keys: Seq<RunKeyRow>) -> bool {
    &&& ledger.map_values(row_run()).no_duplicates()
    &&& forall|key: RunRank| #[trigger]
        ledger.map_values(row_run()).contains(key) <==> run_keys.map_values(key_run()).contains(key)
}

/// Whether these are the first pages of so many runs each.
pub open spec fn are_pages(
    pages: Seq<RunsPage>,
    rows: ResultRows,
    ledger: Seq<ExperimentRunRow>,
    limit: i64,
) -> bool {
    forall|k: int|
        0 <= k < pages.len() ==> k * limit <= i64::MAX && is_page(
            #[trigger] pages[k],
            rows,
            part(ledger, k * limit, limit as int),
            ledger.len() as i64,
            (RunPage { limit, offset: (k * limit) as i64 }),
        )
}

/// The runs on some pages, one after the other.
pub open spec fn runs_on(pages: Seq<RunsPage>) -> Seq<RunRank>
    decreases pages.len(),
{
    if pages.len() == 0 {
        Seq::empty()
    } else {
        runs_on(pages.drop_last()) + pages.last().items@.map_values(item_run())
    }
}

/// A page is the part of the whole list that it has room for, and says how long the
/// whole list is.
pub proof fn a_page_is_a_part_of_the_list(
    p: RunsPage,
    rows: ResultRows,
    ledger: Seq<ExperimentRunRow>,
    page: RunPage,
)
    requires
        0 <= page.offset,
        1 <= page.limit,
        fits(ledger.len() as int),
        rows.runs().len() <= usize::MAX,
        is_page(
            p,
            rows,
            part(ledger, page.offset as int, page.limit as int),
            ledger.len() as i64,
            page,
        ),
    ensures
        p.items@.map_values(item_run()) == part(
            run_list(rows, ledger),
            page.offset as int,
            page.limit as int,
        ),
        p.items@.len() <= page.limit,
        p.total == run_list(rows, ledger).len(),
{
    let runs = rows.runs();
    let failed = failure_only(runs);
    let all = run_list(rows, ledger);
    let shown = part(ledger, page.offset as int, page.limit as int);
    let skip = floor_zero(page.offset - ledger.len());
    let from = at_most(page.offset as int, all.len() as int);
    let names = p.items@.map_values(item_run());
    let want = part(all, page.offset as int, page.limit as int);
    lemma_failure_only(runs);
    assert(names.len() == want.len());
    assert forall|i: int| 0 <= i < names.len() implies names[i] == want[i] by {
        if i < shown.len() {
            assert(describes(
                p.items@[i],
                (shown[i].user_id, shown[i].correlation_id@),
                known_run(runs, shown[i]),
                Some(shown[i]),
                rows,
            ));
            assert(want[i] == all[page.offset + i]);
            assert(shown[i] == ledger[page.offset + i]);
        } else {
            let at = skip + i - shown.len();
            assert(describes(
                p.items@[i],
                runs[failed[at].1 as int].0,
                runs[failed[at].1 as int].1,
                None,
                rows,
            ));
            assert(failed[at].0.run == runs[failed[at].1 as int].0);
            assert(want[i] == all[page.offset + i]);
            assert(page.offset + i == ledger.len() + at);
        }
    }
    assert(names =~= want);
}

/// The pages of runs, read one after the other while nothing changes, name every
/// run of the experiment exactly once: first the runs with ledger rows, as the
/// ledger orders them, then those that only failed, the newest failure first. Each
/// page keeps to its limit, and all say the same total: the length of the whole
/// list.
pub proof fn pages_name_every_run_once(
    pages: Seq<RunsPage>,
    rows: ResultRows,
    ledger: Seq<ExperimentRunRow>,
    limit: i64,
)
    requires
        1 <= limit,
        fits(ledger.len() as int),
        rows.runs().len() <= usize::MAX,
        lists_runs(ledger, rows.run_keys@),
        are_pages(pages, rows, ledger, limit),
        pages.len() * limit >= run_list(rows, ledger).len(),
    ensures
        runs_on(pages) == run_list(rows, ledger),
        runs_on(pages).no_duplicates(),
        forall|key: RunRank| #[trigger]
            runs_on(pages).contains(key) <==> lookup(rows.runs(), key) is Some,
        forall|k: int|
            0 <= k < pages.len() ==> (#[trigger] pages[k]).items@.len() <= limit && pages[k].total
                == runs_on(pages).len(),
        forall|i: int|
            0 <= i < ledger.len() ==> #[trigger] runs_on(pages)[i] == (
                ledger[i].user_id,
                ledger[i].correlation_id@,
            ),
        forall|i: int, j: int|
            ledger.len() <= i < j < runs_on(pages).len() ==> goes_before(
                rows,
                #[trigger] runs_on(pages)[i],
                #[trigger] runs_on(pages)[j],
            ),
{
    let all = run_list(rows, ledger);
    let failed = failure_only(rows.runs());
    lemma_pages_join(pages, rows, ledger, limit, pages.len() as int);
    assert(pages.take(pages.len() as int) =~= pages);
    assert(all.subrange(0, all.len() as int) =~= all);
    lemma_list_is_complete(rows, ledger);
    lemma_failure_only(rows.runs());
    lemma_runs_ascend(rows.run_keys@, rows.failures@);
    assert forall|k: int| 0 <= k < pages.len() implies (#[trigger] pages[k]).items@.len() <= limit
        && pages[k].total == all.len() by {
        lemma_offset_is_natural(k, limit);
        a_page_is_a_part_of_the_list(
            pages[k],
            rows,
            ledger,
            RunPage { limit, offset: (k * limit) as i64 },
        );
    }
    assert forall|i: int, j: int| ledger.len() <= i < j < all.len() implies goes_before(
        rows,
        #[trigger] all[i],
        #[trigger] all[j],
    ) by {
        let a = failed[i - ledger.len()];
        let b = failed[j - ledger.len()];
        assert(Recency::before(a.0, b.0));
        lemma_entry_is_found(rows.runs(), a.1 as int);
        lemma_entry_is_found(rows.runs(), b.1 as int);
    }
}

/// Whether one run that only failed comes before another: it failed later, or at the
/// same time and has the smaller key.
pub open spec fn goes_before(rows: ResultRows, a: RunRank, b: RunRank) -> bool {
    match (lookup(rows.runs(), a), lookup(rows.runs(), b)) {
        (Some(x), Some(y)) => !x.in_ledger && !y.in_ledger && Recency::before(
            Recency { last_at: x.last_at, run: a },
            Recency { last_at: y.last_at, run: b },
        ),
        _ => false,
    }
}

proof fn lemma_offset_is_natural(k: int, limit: i64)
    requires
        0 <= k,
        1 <= limit,
    ensures
        0 <= k * limit,
        (k + 1) * limit == k * limit + limit,
{
    assert(0 <= k * limit && (k + 1) * limit == k * limit + limit) by (nonlinear_arith)
        requires
            0 <= k,
            1 <= limit,
    ;
}

proof fn lemma_pages_join(
    pages: Seq<RunsPage>,
    rows: ResultRows,
    ledger: Seq<ExperimentRunRow>,
    limit: i64,
    n: int,
)
    requires
        1 <= limit,
        fits(ledger.len() as int),
        rows.runs().len() <= usize::MAX,
        are_pages(pages, rows, ledger, limit),
        0 <= n <= pages.len(),
    ensures
        runs_on(pages.take(n)) == run_list(rows, ledger).subrange(
            0,
            at_most(n * limit, run_list(rows, ledger).len() as int),
        ),
    decreases n,
{
    let all = run_list(rows, ledger);
    lemma_offset_is_natural(n, limit);
    if n == 0 {
        assert(pages.take(n) =~= Seq::empty());
        assert(n * limit == 0) by (nonlinear_arith)
            requires
                n == 0,
        ;
        assert(all.subrange(0, at_most(n * limit, all.len() as int)) =~= Seq::empty());
    } else {
        let k = n - 1;
        lemma_offset_is_natural(k, limit);
        lemma_pages_join(pages, rows, ledger, limit, k);
        let page = RunPage { limit, offset: (k * limit) as i64 };
        assert(is_page(
            pages[k],
            rows,
            part(ledger, k * limit, limit as int),
            ledger.len() as i64,
            page,
        ));
        a_page_is_a_part_of_the_list(pages[k], rows, ledger, page);
        assert(n * limit == k * limit + limit);
        assert(pages.take(n).drop_last() =~= pages.take(k));
        assert(pages.take(n).last() == pages[k]);
        assert(all.subrange(0, at_most(k * limit, all.len() as int)) + part(
            all,
            k * limit,
            limit as int,
        ) =~= all.subrange(0, at_most(n * limit, all.len() as int)));
    }
}

/// In ascending entries, each is found under its key.
proof fn lemma_entry_is_found<T>(s: Seq<(RunRank, T)>, i: int)
    requires
        ascending(s),
        0 <= i < s.len(),
    ensures
        lookup(s, s[i].0) == Some(s[i].1),
{
    let key = s[i].0;
    crate::ordered::lemma_lookup_is_entry(s, key);
    match lookup(s, key) {
        Some(v) => {
            let j = choose|j: int| 0 <= j < s.len() && #[trigger] s[j] == (key, v);
            RunRank::lemma_irreflexive(key);
            if j < i {
                assert(RunRank::before(s[j].0, s[i].0));
            } else if i < j {
                assert(RunRank::before(s[i].0, s[j].0));
            }
        },
        None => {
            assert(s[i].0 == key);
        },
    }
}

proof fn lemma_ledger_runs(rows: Seq<RunKeyRow>)
    ensures
        ascending(ledger_runs(rows)),
        forall|key: RunRank| #[trigger]
            lookup(ledger_runs(rows), key) is Some <==> rows.map_values(key_run()).contains(key),
        forall|key: RunRank|
            (#[trigger] lookup(ledger_runs(rows), key)) matches Some(run) ==> run.in_ledger,
    decreases rows.len(),
{
    if rows.len() > 0 {
        let front = rows.drop_last();
        lemma_ledger_runs(front);
        let before = ledger_runs(front);
        let key = key_run()(rows.last());
        let run = ledger_run(rows.last());
        crate::ordered::lemma_with_entry_ascends(before, key, run);
        let keys = rows.map_values(key_run());
        let front_keys = front.map_values(key_run());
        assert(keys =~= front_keys.push(key));
        assert forall|other: RunRank| (#[trigger] lookup(ledger_runs(rows), other) is Some
            <==> keys.contains(other)) && (lookup(ledger_runs(rows), other) matches Some(r)
            ==> r.in_ledger) by {
            crate::ordered::lemma_lookup_with_entry(before, key, run, other);
            if other == key {
                assert(keys[keys.len() - 1] == key);
            } else {
                if front_keys.contains(other) {
                    let i = choose|i: int| 0 <= i < front_keys.len() && front_keys[i] == other;
                    assert(keys[i] == other);
                }
                if keys.contains(other) {
                    let i = choose|i: int| 0 <= i < keys.len() && keys[i] == other;
                    assert(front_keys[i] == other);
                }
            }
        }
    }
}

/// The runs stand by ascending key, and those with ledger rows are the ones whose
/// keys the ledger gave.
proof fn lemma_runs_ascend(run_keys: Seq<RunKeyRow>, failures: Seq<FailureRow>)
    ensures
        ascending(all_runs(run_keys, failures)),
        forall|key: RunRank|
            (#[trigger] lookup(all_runs(run_keys, failures), key) matches Some(run)
                && run.in_ledger) <==> run_keys.map_values(key_run()).contains(key),
    decreases failures.len(),
{
    lemma_ledger_runs(run_keys);
    if failures.len() > 0 {
        let front = failures.drop_last();
        lemma_runs_ascend(run_keys, front);
        let before = all_runs(run_keys, front);
        let after = all_runs(run_keys, failures);
        let f = failures.last();
        let key = (f.user_id, f.correlation_id@);
        let run = match lookup(before, key) {
            Some(run) => merged_run(run, f),
            None => failed_run(f),
        };
        crate::ordered::lemma_with_entry_ascends(before, key, run);
        assert forall|other: RunRank|
            (#[trigger] lookup(after, other) matches Some(r) && r.in_ledger)
                <==> run_keys.map_values(key_run()).contains(other) by {
            assert((lookup(before, other) matches Some(r) && r.in_ledger)
                <==> run_keys.map_values(key_run()).contains(other));
            if after != before {
                crate::ordered::lemma_lookup_with_entry(before, key, run, other);
            }
        }
    }
}

/// Every run without ledger rows is among those that only failed.
proof fn lemma_failed_runs_are_listed(runs: Seq<(RunRank, RunModel)>, i: int)
    requires
        ascending(runs),
        runs.len() <= usize::MAX,
        0 <= i < runs.len(),
        !runs[i].1.in_ledger,
    ensures
        lookup(failure_only(runs), Recency { last_at: runs[i].1.last_at, run: runs[i].0 }) == Some(
            i as usize,
        ),
    decreases runs.len(),
{
    let front = runs.drop_last();
    let rest = failure_only(front);
    let (key, run) = runs.last();
    let n = (runs.len() - 1) as usize;
    let last = Recency { last_at: run.last_at, run: key };
    let wanted = Recency { last_at: runs[i].1.last_at, run: runs[i].0 };
    if i < front.len() {
        assert(ascending(front)) by {
            assert forall|a: int, b: int| 0 <= a < b < front.len() implies RunRank::before(
                (#[trigger] front[a]).0,
                (#[trigger] front[b]).0,
            ) by {
                assert(RunRank::before(runs[a].0, runs[b].0));
            }
        }
        assert(front[i] == runs[i]);
        lemma_failed_runs_are_listed(front, i);
        assert(RunRank::before(runs[i].0, runs[runs.len() - 1].0));
        RunRank::lemma_irreflexive(key);
        assert(wanted != last);
    }
    if !run.in_ledger {
        crate::ordered::lemma_lookup_with_entry(rest, last, n, wanted);
    }
}

/// The whole list has every run once and no other.
proof fn lemma_list_is_complete(rows: ResultRows, ledger: Seq<ExperimentRunRow>)
    requires
        rows.runs().len() <= usize::MAX,
        lists_runs(ledger, rows.run_keys@),
    ensures
        run_list(rows, ledger).no_duplicates(),
        forall|key: RunRank| #[trigger]
            run_list(rows, ledger).contains(key) <==> lookup(rows.runs(), key) is Some,
{
    let runs = rows.runs();
    let all = run_list(rows, ledger);
    let front = ledger.map_values(row_run());
    let failed = failure_only(runs);
    lemma_runs_ascend(rows.run_keys@, rows.failures@);
    lemma_failure_only(runs);
    assert forall|i: int| 0 <= i < all.len() implies (lookup(runs, #[trigger] all[i]) matches Some(
        run,
    ) && run.in_ledger == (i < ledger.len())) by {
        if i < ledger.len() {
            assert(front[i] == all[i]);
            assert(front.contains(all[i]));
            assert(rows.run_keys@.map_values(key_run()).contains(all[i]));
            assert(lookup(runs, all[i]) matches Some(run) && run.in_ledger);
        } else {
            let e = failed[i - ledger.len()];
            lemma_entry_is_found(runs, e.1 as int);
            assert(all[i] == runs[e.1 as int].0);
        }
    }
    assert forall|i: int, j: int| 0 <= i < j < all.len() implies all[i] != all[j] by {
        assert(lookup(runs, all[i]) is Some && lookup(runs, all[j]) is Some);
        if j < ledger.len() {
            assert(front[i] == all[i] && front[j] == all[j]);
        } else if i >= ledger.len() {
            let a = failed[i - ledger.len()];
            let b = failed[j - ledger.len()];
            assert(Recency::before(a.0, b.0));
            lemma_entry_is_found(runs, a.1 as int);
            lemma_entry_is_found(runs, b.1 as int);
            if all[i] == all[j] {
                assert(a.0 == b.0);
                Recency::lemma_irreflexive(a.0);
            }
        }
    }
    assert forall|key: RunRank| #[trigger] all.contains(key) <==> lookup(runs, key) is Some by {
        if all.contains(key) {
            let i = choose|i: int| 0 <= i < all.len() && all[i] == key;
            assert(lookup(runs, all[i]) is Some);
        }
        if let Some(run) = lookup(runs, key) {
            if run.in_ledger {
                assert(rows.run_keys@.map_values(key_run()).contains(key));
                assert(front.contains(key));
                let i = choose|i: int| 0 <= i < front.len() && front[i] == key;
                assert(all[i] == key);
            } else {
                crate::ordered::lemma_lookup_is_entry(runs, key);
                let i = choose|i: int| 0 <= i < runs.len() && #[trigger] runs[i] == (key, run);
                let rank = Recency { last_at: run.last_at, run: key };
                lemma_failed_runs_are_listed(runs, i);
                crate::ordered::lemma_lookup_is_entry(failed, rank);
                let k = choose|k: int|
                    0 <= k < failed.len() && #[trigger] failed[k] == (rank, i as usize);
                assert(all[ledger.len() + k] == key);
            }
        }
    }
}

/// Every figure of a variant is that of its own rows: counts are the sums over the rows that
/// carry its label, and costs, savings and spans are listed term by term, one for each of
/// those rows, in their order.
pub proof fn variants_tally_their_own_rows(v: VariantResults, rows: ResultRows, label: Seq<char>)
    requires
        is_variant(v, rows, label),
    ensures
        v.label@ == label,
        v.requests == total(
            rows.totals@,
            |t: VariantTotalRow|
                if t.variant@ == label {
                    t.requests as int
                } else {
                    0
                },
        ),
        v.tokens.prompt == total(
            rows.totals@,
            |t: VariantTotalRow|
                if t.variant@ == label {
                    t.tokens_in as int
                } else {
                    0
                },
        ),
        v.tokens.completion == total(
            rows.totals@,
            |t: VariantTotalRow|
                if t.variant@ == label {
                    t.tokens_out as int
                } else {
                    0
                },
        ),
        v.tokens.total == total(
            rows.totals@,
            |t: VariantTotalRow|
                if t.variant@ == label {
                    t.tokens_in + t.tokens_out
                } else {
                    0
                },
        ),
        v.estimated_rows == total(
            rows.totals@,
            |t: VariantTotalRow|
                if t.variant@ == label {
                    t.estimated_rows as int
                } else {
                    0
                },
        ),
        v.runs == total(
            rows.runs(),
            |e: (RunRank, RunModel)|
                if e.1.variant == label {
                    1
                } else {
                    0
                },
        ),
        v.mixed_runs == total(
            rows.runs(),
            |e: (RunRank, RunModel)|
                if e.1.variant == label {
                    if e.1.mixed {
                        1
                    } else {
                        0
                    }
                } else {
                    0
                },
        ),
        v.turns == total(
            rows.runs(),
            |e: (RunRank, RunModel)|
                if e.1.variant == label {
                    e.1.requests as int
                } else {
                    0
                },
        ),
        v.unbound_requests == total(
            rows.runs(),
            |e: (RunRank, RunModel)|
                if e.1.variant == label {
                    unbound_of(rows.unbound@, e.0)
                } else {
                    0
                },
        ),
        v.failures == total(
            rows.failures@,
            |f: FailureRow|
                if or_empty(f.variant) == label {
                    f.failures as int
                } else {
                    0
                },
        ),
        selects(
            v.costs_usd@,
            rows.totals@,
            |t: VariantTotalRow| t.variant@ == label,
            |t: VariantTotalRow| t.cost_usd,
        ),
        selects(
            v.savings_usd@,
            rows.totals@,
            |t: VariantTotalRow| t.variant@ == label,
            |t: VariantTotalRow| t.saved_usd,
        ),
        selects(
            v.spans_ms@,
            rows.runs(),
            |e: (RunRank, RunModel)| e.1.variant == label,
            |e: (RunRank, RunModel)| span_millis_of(e.1.first_at, e.1.last_at),
        ),
{
    lemma_labelled_is_total(
        rows.totals@,
        row_label(),
        row_requests(),
        label,
        |t: VariantTotalRow|
            if t.variant@ == label {
                t.requests as int
            } else {
                0
            },
    );
    lemma_labelled_is_total(
        rows.totals@,
        row_label(),
        row_prompt(),
        label,
        |t: VariantTotalRow|
            if t.variant@ == label {
                t.tokens_in as int
            } else {
                0
            },
    );
    lemma_labelled_is_total(
        rows.totals@,
        row_label(),
        row_completion(),
        label,
        |t: VariantTotalRow|
            if t.variant@ == label {
                t.tokens_out as int
            } else {
                0
            },
    );
    lemma_labelled_is_total(
        rows.totals@,
        row_label(),
        row_tokens(),
        label,
        |t: VariantTotalRow|
            if t.variant@ == label {
                t.tokens_in + t.tokens_out
            } else {
                0
            },
    );
    lemma_labelled_is_total(
        rows.totals@,
        row_label(),
        row_estimated(),
        label,
        |t: VariantTotalRow|
            if t.variant@ == label {
                t.estimated_rows as int
            } else {
                0
            },
    );
    lemma_labelled_is_total(
        rows.runs(),
        run_label(),
        run_one(),
        label,
        |e: (RunRank, RunModel)|
            if e.1.variant == label {
                1
            } else {
                0
            },
    );
    lemma_labelled_is_total(
        rows.runs(),
        run_label(),
        run_mixed(),
        label,
        |e: (RunRank, RunModel)|
            if e.1.variant == label {
                if e.1.mixed {
                    1
                } else {
                    0
                }
            } else {
                0
            },
    );
    lemma_labelled_is_total(
        rows.runs(),
        run_label(),
        run_turns(),
        label,
        |e: (RunRank, RunModel)|
            if e.1.variant == label {
                e.1.requests as int
            } else {
                0
            },
    );
    lemma_labelled_is_total(
        rows.runs(),
        run_label(),
        run_unbound(rows.unbound@),
        label,
        |e: (RunRank, RunModel)|
            if e.1.variant == label {
                unbound_of(rows.unbound@, e.0)
            } else {
                0
            },
    );
    lemma_labelled_is_total(
        rows.failures@,
        failure_label(),
        failure_count(),
        label,
        |f: FailureRow|
            if or_empty(f.variant) == label {
                f.failures as int
            } else {
                0
            },
    );
    lemma_picked_selects(
        rows.totals@,
        row_is(label),
        row_cost(),
        |t: VariantTotalRow| t.variant@ == label,
        |t: VariantTotalRow| t.cost_usd,
    );
    lemma_picked_selects(
        rows.totals@,
        row_is(label),
        row_saved(),
        |t: VariantTotalRow| t.variant@ == label,
        |t: VariantTotalRow| t.saved_usd,
    );
    lemma_picked_selects(
        rows.runs(),
        run_is(label),
        run_span(),
        |e: (RunRank, RunModel)| e.1.variant == label,
        |e: (RunRank, RunModel)| span_millis_of(e.1.first_at, e.1.last_at),
    );
}

/// The models of a variant are those of its own rows, in their order, each with the figures
/// of its row.
pub proof fn variants_list_their_own_models(v: VariantResults, rows: ResultRows, label: Seq<char>)
    requires
        is_variant(v, rows, label),
    ensures
        selects(
            v.models@.map_values(|m: VariantModelMetrics| (
                m.model@,
                m.requests,
                m.cost_usd,
                m.saved_usd,
                (m.tokens.prompt, m.tokens.completion, m.tokens.total as int),
                m.estimated_rows,
                m.unpriced,
            )),
            rows.models@,
            |m: VariantModelRow| m.variant@ == label,
            |m: VariantModelRow| (
                m.model@,
                m.requests,
                m.cost_usd,
                m.saved_usd,
                (m.tokens_in, m.tokens_out, m.tokens_in + m.tokens_out),
                m.estimated_rows,
                !m.priced,
            ),
        ),
        v.unpriced <==> exists|i: int|
            0 <= i < rows.models@.len() && (#[trigger] rows.models@[i]).variant@ == label
                && !rows.models@[i].priced,
        forall|name: Seq<char>| #[trigger]
            texts(v.unpriced_models@).contains(name) <==> exists|i: int|
                0 <= i < rows.models@.len() && (#[trigger] rows.models@[i]).variant@ == label
                    && !rows.models@[i].priced && rows.models@[i].model@ == name,
        texts(v.unpriced_models@).no_duplicates(),
{
    let keep = |m: VariantModelRow| m.variant@ == label;
    let shown = |m: VariantModelMetrics| (
            m.model@,
            m.requests,
            m.cost_usd,
            m.saved_usd,
            (m.tokens.prompt, m.tokens.completion, m.tokens.total as int),
            m.estimated_rows,
            m.unpriced,
        );
    let term = |m: VariantModelRow| (
            m.model@,
            m.requests,
            m.cost_usd,
            m.saved_usd,
            (m.tokens_in, m.tokens_out, m.tokens_in + m.tokens_out),
            m.estimated_rows,
            !m.priced,
        );
    let listed = picked(rows.models@, model_is(label), model_row());
    lemma_picked_selects(rows.models@, model_is(label), model_row(), keep, model_row());
    let places = choose|places: Seq<int>| #[trigger]
        selects_at(listed, rows.models@, keep, model_row(), places);
    let cells = v.models@.map_values(shown);
    assert forall|k: int| 0 <= k < places.len() implies 0 <= #[trigger] places[k] < rows.models@.len()
        && keep(rows.models@[places[k]]) && cells[k] == term(rows.models@[places[k]]) by {
        assert(metric_of(v.models@[k], listed[k]));
    }
    assert(selects_at(cells, rows.models@, keep, term, places));
    lemma_unpriced_names(rows.models@, label);
    let names = unpriced_names(rows.models@, label);
    if names.len() > 0 {
        assert(names.contains(names[0]));
        assert(texts(v.unpriced_models@).contains(names[0]));
    }
    if exists|i: int|
        0 <= i < rows.models@.len() && (#[trigger] rows.models@[i]).variant@ == label
            && !rows.models@[i].priced {
        let i = choose|i: int|
            0 <= i < rows.models@.len() && (#[trigger] rows.models@[i]).variant@ == label
                && !rows.models@[i].priced;
        assert(names.contains(rows.models@[i].model@));
    }
}

proof fn lemma_unpriced_names(models: Seq<VariantModelRow>, label: Seq<char>)
    ensures
        unpriced_names(models, label).no_duplicates(),
        forall|name: Seq<char>| #[trigger]
            unpriced_names(models, label).contains(name) <==> exists|i: int|
                0 <= i < models.len() && (#[trigger] models[i]).variant@ == label && !models[i].priced
                    && models[i].model@ == name,
    decreases models.len(),
{
    if models.len() > 0 {
        let front = models.drop_last();
        let m = models.last();
        let n = models.len() - 1;
        lemma_unpriced_names(front, label);
        let rest = unpriced_names(front, label);
        let all = unpriced_names(models, label);
        assert forall|name: Seq<char>| #[trigger] all.contains(name) <==> exists|i: int|
            0 <= i < models.len() && (#[trigger] models[i]).variant@ == label && !models[i].priced
                && models[i].model@ == name by {
            if all.contains(name) {
                let k = choose|k: int| 0 <= k < all.len() && all[k] == name;
                if k < rest.len() {
                    assert(rest[k] == name);
                    assert(rest.contains(name));
                    let i = choose|i: int|
                        0 <= i < front.len() && (#[trigger] front[i]).variant@ == label
                            && !front[i].priced && front[i].model@ == name;
                    assert(models[i] == front[i]);
                } else {
                    assert(models[n].model@ == name);
                }
            }
            if exists|i: int|
                0 <= i < models.len() && (#[trigger] models[i]).variant@ == label
                    && !models[i].priced && models[i].model@ == name {
                let i = choose|i: int|
                    0 <= i < models.len() && (#[trigger] models[i]).variant@ == label
                        && !models[i].priced && models[i].model@ == name;
                if i < n {
                    assert(front[i] == models[i]);
                }
                if rest.contains(name) {
                    let k = choose|k: int| 0 <= k < rest.len() && rest[k] == name;
                    assert(all[k] == name);
                } else {
                    assert(all[rest.len() as int] == name);
                }
            }
        }
    }
}

/// The outcomes of a variant are counted one for each run: a reported outcome is a success
/// or a failure, and the scores and ratings are listed in the order of the outcomes, none
/// left out.
pub proof fn outcomes_are_counted_once(s: OutcomeStats, list: Seq<RunOutcome>)
    requires
        s.summarises(list),
    ensures
        s.reported == list.len(),
        s.success + s.failure == list.len(),
        s.success == total(
            list,
            |o: RunOutcome|
                if o.outcome@ == "success"@ {
                    1
                } else {
                    0
                },
        ),
        selects(s.scores@, list, |o: RunOutcome| o.score is Some, |o: RunOutcome| o.score->0),
        selects(s.ratings@, list, |o: RunOutcome| o.rating is Some, |o: RunOutcome| o.rating->0),
{
    let one = |o: RunOutcome|
        if o.outcome@ == "success"@ {
            1
        } else {
            0
        };
    lemma_total_alike(list, succeeded(), list, one);
    lemma_picked_selects(
        list,
        has_score(),
        the_score(),
        |o: RunOutcome| o.score is Some,
        |o: RunOutcome| o.score->0,
    );
    lemma_picked_selects(
        list,
        has_rating(),
        the_rating(),
        |o: RunOutcome| o.rating is Some,
        |o: RunOutcome| o.rating->0,
    );
}

/// An outcome counts under the variant of its run; under the one it names itself only where
/// the run is not known.
pub proof fn outcomes_follow_their_run(
    outcomes: Seq<RunOutcome>,
    runs: Seq<(RunRank, RunModel)>,
    label: Seq<char>,
)
    ensures
        selects(
            outcomes_under(outcomes, runs, label),
            row_places(outcomes),
            |e: (RunRank, usize)|
                {
                    let o = outcomes[e.1 as int];
                    let key = (o.user_id, o.attribution_correlation_id@);
                    match lookup(runs, key) {
                        Some(run) => run.variant == label,
                        None => match o.experiment_variant {
                            Some(own) => own@ == label,
                            None => label == Seq::<char>::empty(),
                        },
                    }
                },
            |e: (RunRank, usize)| outcomes[e.1 as int],
        ),
{
    lemma_picked_selects(
        row_places(outcomes),
        outcome_is(outcomes, runs, label),
        outcome_at(outcomes),
        |e: (RunRank, usize)|
            {
                let o = outcomes[e.1 as int];
                let key = (o.user_id, o.attribution_correlation_id@);
                match lookup(runs, key) {
                    Some(run) => run.variant == label,
                    None => match o.experiment_variant {
                        Some(own) => own@ == label,
                        None => label == Seq::<char>::empty(),
                    },
                }
            },
        |e: (RunRank, usize)| outcomes[e.1 as int],
    );
}

/// Of the rows that tell something of a run, the last one counts; a run of which no row
/// tells anything has none.
pub proof fn the_last_telling_row_counts<T: OfRun>(rows: Seq<T>, key: RunRank)
    requires
        rows.len() <= usize::MAX,
    ensures
        match row_of(rows, key) {
            Some(row) => exists|i: int|
                0 <= i < rows.len() && #[trigger] rows[i] == row && row.telling() && row.run() == key
                    && forall|j: int| i < j < rows.len() ==> !(#[trigger] rows[j]).telling()
                    || rows[j].run() != key,
            None => forall|j: int|
                0 <= j < rows.len() ==> !(#[trigger] rows[j]).telling() || rows[j].run() != key,
        },
    decreases rows.len(),
{
    broadcast use {
        crate::ordered::entries_are_found,
        crate::ordered::nothing_is_found_in_nothing,
    };

    if rows.len() > 0 {
        let front = rows.drop_last();
        let n = rows.len() - 1;
        the_last_telling_row_counts(front, key);
        lemma_places_in_bounds(front);
        lemma_lookup_is_entry(row_places(front), key);
        assert(forall|j: int| 0 <= j < n ==> #[trigger] rows[j] == front[j]);
        if rows.last().telling() && rows.last().run() == key {
            assert(rows[n] == rows.last());
        } else if row_of(front, key) is Some {
            let i = choose|i: int|
                0 <= i < front.len() && #[trigger] front[i] == row_of(front, key)->0
                    && front[i].telling() && front[i].run() == key && forall|j: int|
                    i < j < front.len() ==> !(#[trigger] front[j]).telling() || front[j].run() != key;
            assert(rows[i] == front[i]);
        }
    }
}

/// A row belongs to the run of its user and correlation id; a latency tells something
/// where anything was measured.
pub proof fn rows_belong_to_their_run(u: UnboundRow, l: LatencyRow, o: RunOutcome)
    ensures
        u.run() == (u.user_id, u.correlation_id@),
        l.run() == (l.user_id, l.correlation_id@),
        o.run() == (o.user_id, o.attribution_correlation_id@),
        u.telling() && o.telling(),
        l.telling() <==> l.samples > 0,
{
}

/// A run of the ledger is as its last row there tells it, whatever failed besides.
pub proof fn the_ledger_tells_a_run(
    run_keys: Seq<RunKeyRow>,
    failures: Seq<FailureRow>,
    i: int,
)
    requires
        0 <= i < run_keys.len(),
        forall|j: int|
            i < j < run_keys.len() ==> (#[trigger] run_keys[j]).user_id != run_keys[i].user_id
                || run_keys[j].correlation_id@ != run_keys[i].correlation_id@,
    ensures
        lookup(
            all_runs(run_keys, failures),
            (run_keys[i].user_id, run_keys[i].correlation_id@),
        ) matches Some(run) && run.variant == run_keys[i].variant@ && run.mixed == run_keys[i].mixed
            && run.requests == run_keys[i].requests && run.first_at == run_keys[i].first_at@
            && run.last_at == run_keys[i].last_at@ && run.in_ledger,
    decreases run_keys.len() + failures.len(),
{
    broadcast use {
        crate::ordered::entries_are_found,
        crate::ordered::nothing_is_found_in_nothing,
    };

    if failures.len() > 0 {
        the_ledger_tells_a_run(run_keys, failures.drop_last(), i);
    } else if i < run_keys.len() - 1 {
        let front = run_keys.drop_last();
        assert forall|j: int| i < j < front.len() implies (#[trigger] front[j]).user_id
            != front[i].user_id || front[j].correlation_id@ != front[i].correlation_id@ by {
            assert(front[j] == run_keys[j]);
        }
        assert(run_keys[run_keys.len() - 1] == run_keys.last());
        the_ledger_tells_a_run(front, failures, i);
    }
}

/// What a further failure changes: nothing of a run in the ledger and nothing of other
/// runs; a run not met before is as the failure tells it; and one known from failures
/// alone takes the variant of the earliest of them, the latest end, and counts as mixed.
pub proof fn a_failure_changes_its_own_run(
    run_keys: Seq<RunKeyRow>,
    failures: Seq<FailureRow>,
    f: FailureRow,
    other: RunRank,
)
    ensures
        ({
            let was = all_runs(run_keys, failures);
            let is = all_runs(run_keys, failures.push(f));
            let key = (f.user_id, f.correlation_id@);
            &&& other != key ==> lookup(is, other) == lookup(was, other)
            &&& lookup(was, key) matches Some(run) ==> (run.in_ledger ==> lookup(is, key) == Some(
                run,
            ))
            &&& lookup(was, key) is None ==> (lookup(is, key) matches Some(new) && new.variant
                == or_empty(f.variant) && !new.mixed && new.requests == 0 && new.first_at
                == f.first_at@ && new.last_at == f.last_at@ && !new.in_ledger)
            &&& lookup(was, key) matches Some(run) ==> (!run.in_ledger ==> (lookup(is, key) matches Some(
                new,
            ) && new.mixed && new.requests == run.requests && !new.in_ledger && (if precedes(
                f.first_at@,
                run.first_at,
            ) {
                new.first_at == f.first_at@ && new.variant == or_empty(f.variant)
            } else {
                new.first_at == run.first_at && new.variant == run.variant
            }) && (if precedes(run.last_at, f.last_at@) {
                new.last_at == f.last_at@
            } else {
                new.last_at == run.last_at
            })))
        }),
{
    broadcast use {
        crate::ordered::entries_are_found,
        crate::ordered::nothing_is_found_in_nothing,
    };

    assert(failures.push(f).drop_last() =~= failures);
}

/// The totals are those of all rows, whatever their variant.
pub proof fn totals_are_those_of_all_rows(t: ExperimentTotals, rows: ResultRows)
    requires
        is_total(t, rows),
    ensures
        t.runs == rows.runs().len(),
        t.requests == total(rows.totals@, |w: VariantTotalRow| w.requests as int),
        t.tokens.prompt == total(rows.totals@, |w: VariantTotalRow| w.tokens_in as int),
        t.tokens.completion == total(rows.totals@, |w: VariantTotalRow| w.tokens_out as int),
        t.tokens.total == total(rows.totals@, |w: VariantTotalRow| w.tokens_in + w.tokens_out),
        t.estimated_rows == total(rows.totals@, |w: VariantTotalRow| w.estimated_rows as int),
        t.failures == total(rows.failures@, |f: FailureRow| f.failures as int),
        t.turns == total(
            rows.runs(),
            |e: (RunRank, RunModel)|
                e.1.requests as int,
        ),
        t.unbound_requests == total(
            rows.runs(),
            |e: (RunRank, RunModel)|
                unbound_of(rows.unbound@, e.0),
        ),
        t.mixed_runs == total(
            rows.runs(),
            |e: (RunRank, RunModel)|
                if e.1.mixed {
                    1
                } else {
                    0
                },
        ),
{
    lemma_total_alike(rows.totals@, row_requests(), rows.totals@, |w: VariantTotalRow| w.requests as int);
    lemma_total_alike(rows.totals@, row_prompt(), rows.totals@, |w: VariantTotalRow| w.tokens_in as int);
    lemma_total_alike(rows.totals@, row_completion(), rows.totals@, |w: VariantTotalRow| w.tokens_out as int);
    lemma_total_alike(rows.totals@, row_tokens(), rows.totals@, |w: VariantTotalRow| w.tokens_in + w.tokens_out);
    lemma_total_alike(rows.totals@, row_estimated(), rows.totals@, |w: VariantTotalRow| w.estimated_rows as int);
    lemma_total_alike(rows.failures@, failure_count(), rows.failures@, |f: FailureRow| f.failures as int);
    lemma_total_alike(
        rows.runs(),
        run_turns(),
        rows.runs(),
        |e: (RunRank, RunModel)|
            e.1.requests as int,
    );
    lemma_total_alike(
        rows.runs(),
        run_unbound(rows.unbound@),
        rows.runs(),
        |e: (RunRank, RunModel)|
            unbound_of(rows.unbound@, e.0),
    );
    lemma_total_alike(
        rows.runs(),
        run_mixed(),
        rows.runs(),
        |e: (RunRank, RunModel)|
            if e.1.mixed {
                1
            } else {
                0
            },
    );
}

/// A run on a page shows the amounts and counts of its own row of the ledger, the failures
/// of its own rows, and its own outcome and latency.
pub proof fn listed_runs_show_their_own_row(
    p: RunsPage,
    rows: ResultRows,
    page_rows: Seq<ExperimentRunRow>,
    ledger_total: i64,
    page: RunPage,
    i: int,
)
    requires
        is_page(p, rows, page_rows, ledger_total, page),
        0 <= i < page_rows.len(),
    ensures
        p.items@[i].user_id == page_rows[i].user_id,
        p.items@[i].correlation_id@ == page_rows[i].correlation_id@,
        p.items@[i].cost_usd == page_rows[i].cost_usd,
        p.items@[i].saved_usd == page_rows[i].saved_usd,
        p.items@[i].tokens.prompt == page_rows[i].tokens_in,
        p.items@[i].tokens.completion == page_rows[i].tokens_out,
        p.items@[i].tokens.total == page_rows[i].tokens_in + page_rows[i].tokens_out,
        p.items@[i].estimated_rows == page_rows[i].estimated_rows,
        p.items@[i].turns == p.items@[i].requests,
        p.items@[i].span_ms == span_millis_of(p.items@[i].first_at@, p.items@[i].last_at@),
        p.items@[i].failures == total(
            rows.failures@,
            |f: FailureRow|
                if f.user_id == page_rows[i].user_id && f.correlation_id@ == page_rows[i].correlation_id@ {
                    f.failures as int
                } else {
                    0
                },
        ),
        row_of(rows.outcomes@, (page_rows[i].user_id, page_rows[i].correlation_id@)) matches Some(o) ==> (
        p.items@[i].outcome matches Some(v) && v.outcome@ == o.outcome@ && v.score == o.score && v.rating
            == o.rating && v.reported_at@ == o.updated_at@),
        row_of(rows.latency@, (page_rows[i].user_id, page_rows[i].correlation_id@)) matches Some(l) ==> (
        p.items@[i].latency matches Some(v) && v.samples == l.samples && (l.mean_ms matches Some(bits)
            ==> v.mean_ms == bits)),
        lookup(rows.runs(), (page_rows[i].user_id, page_rows[i].correlation_id@)) is None ==> p.items@[i].variant@
            == page_rows[i].variant@ && p.items@[i].mixed == page_rows[i].mixed && p.items@[i].requests
            == page_rows[i].requests && p.items@[i].first_at@ == page_rows[i].first_at@
            && p.items@[i].last_at@ == page_rows[i].last_at@,
{
    let key = (page_rows[i].user_id, page_rows[i].correlation_id@);
    assert(describes(p.items@[i], key, known_run(rows.runs(), page_rows[i]), Some(page_rows[i]), rows));
    lemma_total_alike(
        rows.failures@,
        same_run(key),
        rows.failures@,
        |f: FailureRow|
            if f.user_id == page_rows[i].user_id && f.correlation_id@ == page_rows[i].correlation_id@ {
                f.failures as int
            } else {
                0
            },
    );
}

/// There is a variant for a label exactly where the experiment declares it or some row, run
/// or outcome carries it.
pub proof fn labels_are_those_met(rows: ResultRows, label: Seq<char>)
    ensures
        labels_of(rows).contains(label) <==> ({
            ||| texts(rows.declared@).contains(label)
            ||| exists|i: int| 0 <= i < rows.totals@.len() && (#[trigger] rows.totals@[i]).variant@ == label
            ||| exists|i: int| 0 <= i < rows.models@.len() && (#[trigger] rows.models@[i]).variant@ == label
            ||| exists|i: int|
                0 <= i < rows.failures@.len() && or_empty((#[trigger] rows.failures@[i]).variant) == label
            ||| exists|i: int| 0 <= i < rows.runs().len() && (#[trigger] rows.runs()[i]).1.variant == label
            ||| exists|i: int|
                0 <= i < row_places(rows.outcomes@).len() && outcome_label(
                    rows.runs(),
                    rows.outcomes@[(#[trigger] row_places(rows.outcomes@)[i]).1 as int],
                ) == label
        }),
{
    let s = sorted_labels(met_labels(rows));
    lemma_sorted_labels(met_labels(rows), label);
    lemma_lookup_is_entry(s, label);
    if labels_of(rows).contains(label) {
        let i = choose|i: int| 0 <= i < labels_of(rows).len() && labels_of(rows)[i] == label;
        assert(s[i].0 == label);
    }
    if met_labels(rows).contains(label) {
        let i = choose|i: int| 0 <= i < s.len() && #[trigger] s[i] == (label, ());
        assert(labels_of(rows)[i] == label);
    }
    let a = texts(rows.declared@);
    let b = rows.totals@.map_values(row_label());
    let c = rows.models@.map_values(model_label());
    let d = rows.failures@.map_values(failure_label());
    let e = rows.runs().map_values(run_label());
    let places = row_places(rows.outcomes@);
    let f = places.map_values(place_label(rows.outcomes@, rows.runs()));
    lemma_contains_either(a, b, label);
    lemma_contains_either(a + b, c, label);
    lemma_contains_either(a + b + c, d, label);
    lemma_contains_either(a + b + c + d, e, label);
    lemma_contains_either(a + b + c + d + e, f, label);
    assert forall|i: int| 0 <= i < rows.totals@.len() && (#[trigger] rows.totals@[i]).variant@ == label implies b.contains(
        label,
    ) by {
        assert(b[i] == label);
    }
    assert forall|i: int| 0 <= i < rows.models@.len() && (#[trigger] rows.models@[i]).variant@ == label implies c.contains(
        label,
    ) by {
        assert(c[i] == label);
    }
    assert forall|i: int|
        0 <= i < rows.failures@.len() && or_empty((#[trigger] rows.failures@[i]).variant) == label implies d.contains(
        label,
    ) by {
        assert(d[i] == label);
    }
    assert forall|i: int| 0 <= i < rows.runs().len() && (#[trigger] rows.runs()[i]).1.variant == label implies e.contains(
        label,
    ) by {
        assert(e[i] == label);
    }
    assert forall|i: int|
        0 <= i < places.len() && outcome_label(
            rows.runs(),
            rows.outcomes@[(#[trigger] places[i]).1 as int],
        ) == label implies f.contains(label) by {
        assert(f[i] == label);
    }
}

proof fn lemma_contains_either(a: Seq<Seq<char>>, b: Seq<Seq<char>>, l: Seq<char>)
    ensures
        (a + b).contains(l) <==> a.contains(l) || b.contains(l),
{
    if a.contains(l) {
        let i = choose|i: int| 0 <= i < a.len() && a[i] == l;
        assert((a + b)[i] == l);
    }
    if b.contains(l) {
        let i = choose|i: int| 0 <= i < b.len() && b[i] == l;
        assert((a + b)[a.len() + i] == l);
    }
}

/// The latency shown under a label is the last summary that carries it, where anything
/// was measured.
pub proof fn the_last_summary_is_shown(summaries: Seq<VariantLatency>, label: Seq<char>, i: int)
    requires
        0 <= i < summaries.len(),
        summaries[i].variant@ == label,
        forall|j: int| i < j < summaries.len() ==> (#[trigger] summaries[j]).variant@ != label,
    ensures
        samples_under(summaries)(label) == summaries[i].summary.samples,
        summaries[i].summary.samples > 0 ==> shown_latency(summary_of(summaries, label)) == Some(
            summaries[i].summary,
        ),
        summaries[i].summary.samples <= 0 ==> shown_latency(summary_of(summaries, label)) is None,
    decreases summaries.len(),
{
    assert(summaries[summaries.len() - 1] == summaries.last());
    if i < summaries.len() - 1 {
        let front = summaries.drop_last();
        assert forall|j: int| i < j < front.len() implies (#[trigger] front[j]).variant@ != label by {
            assert(front[j] == summaries[j]);
        }
        the_last_summary_is_shown(front, label, i);
    }
}

/// What is known of a run is shown part by part.
pub proof fn runs_show_their_parts(r: RunInfo)
    ensures
        r@.variant == r.variant@,
        r@.mixed == r.mixed,
        r@.requests == r.requests,
        r@.first_at == r.first_at@,
        r@.last_at == r.last_at@,
        r@.in_ledger == r.in_ledger,
{
}

/// A run that is known is shown as it is known: its variant, whether it is mixed, its turns
/// and when it began and ended.
pub proof fn known_runs_are_shown_as_known(
    p: RunsPage,
    rows: ResultRows,
    page_rows: Seq<ExperimentRunRow>,
    ledger_total: i64,
    page: RunPage,
    i: int,
    run: RunModel,
)
    requires
        is_page(p, rows, page_rows, ledger_total, page),
        0 <= i < page_rows.len(),
        lookup(rows.runs(), (page_rows[i].user_id, page_rows[i].correlation_id@)) == Some(run),
    ensures
        p.items@[i].variant@ == run.variant && p.items@[i].mixed == run.mixed,
        p.items@[i].requests == run.requests && p.items@[i].turns == run.requests,
        p.items@[i].first_at@ == run.first_at && p.items@[i].last_at@ == run.last_at,
        p.limit == page.limit && p.offset == page.offset,
        p.total == ledger_total + failure_only(rows.runs()).len(),
{
    let key = (page_rows[i].user_id, page_rows[i].correlation_id@);
    assert(describes(p.items@[i], key, known_run(rows.runs(), page_rows[i]), Some(page_rows[i]), rows));
}

/// All outcomes are counted once for each run, by ascending run, whatever their variant; a
/// latency without a mean is told as zero, and requests outside the experiment are those of
/// the run's row.
pub proof fn all_outcomes_are_counted(outcomes: Seq<RunOutcome>, i: int, l: LatencyRow, v: RunLatency, u: Seq<UnboundRow>, key: RunRank)
    ensures
        all_outcomes(outcomes).len() == row_places(outcomes).len(),
        0 <= i < row_places(outcomes).len() ==> all_outcomes(outcomes)[i] == outcomes[row_places(
            outcomes,
        )[i].1 as int],
        shows_latency(v, l) ==> v.samples == l.samples && (l.mean_ms is None ==> v.mean_ms == 0),
        row_of(u, key) matches Some(w) ==> unbound_of(u, key) == w.requests,
        row_of(u, key) is None ==> unbound_of(u, key) == 0,
        fits(0) && !fits(0x8000_0000_0000_0000) && fits(0x7fff_ffff_ffff_ffff),
{
}

} // verus!
