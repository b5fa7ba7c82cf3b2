//! Compact operator view of sampled request load; never a billing ledger.
use crate::phrase::{blank, plain, plain_line, push_piece, push_words, Piece, PieceModel};
use crate::providers::{comparable, same_request, RequestUsage, UsageModel};
use crate::recent::{first_where, keep_newest, lemma_is_first, newest};
use crate::sample::{Sample, SampleModel};
use crate::telemetry::TelemetrySource;
use crate::text::{decimal, grouped, push_decimal, push_grouped, same_text};
use crate::time::{fresh, is_fresh, Timestamp};
use std::collections::VecDeque;
use vstd::prelude::*;
use vstd::relations::{sorted_by, total_ordering};
use vstd::seq_lib::{lemma_sorted_unique, to_multiset_insert};

verus! {

/// How many requests the history holds.
pub const HISTORY_LIMIT: usize = 240;

/// The prompt count at the top of the chart; a display scale, not a limit of any
/// model.
pub const TREND_CEILING: u64 = 65_536;

/// A request in the history.
#[derive(Debug)]
pub struct Entry {
    /// Counts the requests in the order in which they were first seen.
    pub number: u64,
    pub usage: RequestUsage,
    pub last_seen: Timestamp,
}

/// The content of an [`Entry`].
pub struct EntryModel {
    pub number: u64,
    pub usage: UsageModel,
    pub last_seen: Timestamp,
}

impl DeepView for Entry {
    type V = EntryModel;

    open spec fn deep_view(&self) -> EntryModel {
        EntryModel {
            number: self.number,
            usage: self.usage.deep_view(),
            last_seen: self.last_seen,
        }
    }
}

/// The requests that were observed, the newest last.
#[derive(Debug)]
pub struct History {
    pub entries: VecDeque<Entry>,
    pub next_number: u64,
}

/// The content of a [`History`].
#[verifier::ext_equal]
pub struct HistoryModel {
    pub entries: Seq<EntryModel>,
    pub next_number: u64,
}

impl DeepView for History {
    type V = HistoryModel;

    open spec fn deep_view(&self) -> HistoryModel {
        HistoryModel { entries: self.entries.deep_view(), next_number: self.next_number }
    }
}

impl Clone for Entry {
    fn clone(&self) -> (r: Self)
        ensures
            r.deep_view() == self.deep_view(),
    {
        Entry { number: self.number, usage: self.usage.clone(), last_seen: self.last_seen }
    }
}

impl Clone for History {
    fn clone(&self) -> (r: Self)
        ensures
            r.deep_view() == self.deep_view(),
    {
        let entries = self.entries.clone();
        assert(entries.deep_view() =~= self.entries.deep_view());
        History { entries, next_number: self.next_number }
    }
}

/// The entries of one request.
pub open spec fn entry_of(usage: UsageModel) -> spec_fn(EntryModel) -> bool {
    |entry: EntryModel| entry.usage.same(usage)
}

/// A time, or another where it is not known.
pub open spec fn time_or(at: Option<Timestamp>, other: Timestamp) -> Timestamp {
    match at {
        Some(at) => at,
        None => other,
    }
}

impl HistoryModel {
    /// The history before any observation.
    pub open spec fn nothing() -> HistoryModel {
        HistoryModel { entries: Seq::empty(), next_number: 0 }
    }

    /// The place of a request's entry; the number of entries, if it has none.
    pub open spec fn place(self, usage: UsageModel) -> nat {
        first_where(self.entries, entry_of(usage))
    }

    /// The history after one observation. A known request keeps its place and its
    /// number, and without a time of its own also its age; a new one is added, and
    /// the oldest leave.
    pub open spec fn after_one(self, usage: UsageModel, now: Timestamp) -> HistoryModel {
        let i = self.place(usage) as int;
        if i < self.entries.len() {
            let entry = EntryModel {
                number: self.entries[i].number,
                usage,
                last_seen: time_or(usage.observed_at, self.entries[i].last_seen),
            };
            HistoryModel { entries: self.entries.update(i, entry), ..self }
        } else {
            let number = if self.next_number < u64::MAX {
                (self.next_number + 1) as u64
            } else {
                u64::MAX
            };
            let entry = EntryModel {
                number,
                usage,
                last_seen: time_or(usage.observed_at, now),
            };
            HistoryModel {
                entries: newest(self.entries.push(entry), HISTORY_LIMIT as nat),
                next_number: number,
            }
        }
    }

    /// The history after some observations, one after the other.
    pub open spec fn after(self, requests: Seq<UsageModel>, now: Timestamp) -> HistoryModel
        decreases requests.len(),
    {
        if requests.len() == 0 {
            self
        } else {
            self.after(requests.drop_last(), now).after_one(requests.last(), now)
        }
    }
}

impl Default for History {
    fn default() -> (r: Self)
        ensures
            r.deep_view() == HistoryModel::nothing(),
    {
        let r = History { entries: VecDeque::new(), next_number: 0 };
        assert(r.entries.deep_view() =~= Seq::empty());
        r
    }
}

impl History {
    /// The number of requests in the history.
    pub fn len(&self) -> (r: usize)
        ensures
            r == self.deep_view().entries.len(),
    {
        self.entries.len()
    }

    fn place(&self, usage: &RequestUsage) -> (r: usize)
        ensures
            r == self.deep_view().place(usage.deep_view()),
            r <= self.entries@.len(),
    {
        let ghost all = self.entries.deep_view();
        let ghost wanted = entry_of(usage.deep_view());
        let mut i: usize = 0;
        while i < self.entries.len()
            invariant
                i <= self.entries@.len(),
                all == self.entries.deep_view(),
                wanted == entry_of(usage.deep_view()),
                forall|k: int| 0 <= k < i ==> !wanted(#[trigger] all[k]),
            decreases self.entries@.len() - i,
        {
            assert(all[i as int] == self.entries@[i as int].deep_view());
            if same_request(&self.entries[i].usage, usage) {
                proof {
                    lemma_is_first(all, wanted, i as int);
                }
                return i;
            }
            i += 1;
        }
        proof {
            lemma_is_first(all, wanted, i as int);
        }
        i
    }

    fn observe_one(&mut self, usage: &RequestUsage, now: Timestamp)
        ensures
            final(self).deep_view() == old(self).deep_view().after_one(usage.deep_view(), now),
    {
        let ghost all = self.entries.deep_view();
        let i = self.place(usage);
        if i < self.entries.len() {
            let entry = self.entries.remove(i).unwrap();
            assert(entry.deep_view() == all[i as int]);
            let last_seen = match usage.observed_at {
                Some(at) => at,
                None => entry.last_seen,
            };
            let renewed = Entry { number: entry.number, usage: usage.clone(), last_seen };
            self.entries.insert(i, renewed);
            assert(self.entries.deep_view() =~= all.update(i as int, renewed.deep_view()));
        } else {
            self.next_number = self.next_number.saturating_add(1);
            let last_seen = match usage.observed_at {
                Some(at) => at,
                None => now,
            };
            let entry = Entry { number: self.next_number, usage: usage.clone(), last_seen };
            self.entries.push_back(entry);
            keep_newest(&mut self.entries, HISTORY_LIMIT);
            assert(self.entries.deep_view() =~= newest(
                all.push(entry.deep_view()),
                HISTORY_LIMIT as nat,
            ));
        }
    }

    /// Takes in what was observed by `now`.
    pub fn observe(&mut self, requests: &[RequestUsage], now: Timestamp)
        ensures
            final(self).deep_view() == old(self).deep_view().after(requests.deep_view(), now),
    {
        let ghost all = requests.deep_view();
        let ghost before = self.deep_view();
        let mut i: usize = 0;
        assert(all.take(0) =~= Seq::empty());
        while i < requests.len()
            invariant
                i <= requests@.len(),
                all == requests.deep_view(),
                self.deep_view() == before.after(all.take(i as int), now),
            decreases requests@.len() - i,
        {
            assert(all.take(i + 1).drop_last() =~= all.take(i as int));
            assert(all[i as int] == requests@[i as int].deep_view());
            self.observe_one(&requests[i], now);
            i += 1;
        }
        assert(all.take(all.len() as int) =~= all);
    }
}

/// A number with a comma before every group of three digits.
pub fn exact(n: u64) -> (r: String)
    ensures
        r@ == grouped(n as nat),
{
    let mut out = String::new();
    push_grouped(&mut out, n);
    assert(out@ =~= grouped(n as nat));
    out
}

/// How a request compares with the one observed before it.
#[derive(Clone, Copy, Debug, PartialEq, Eq, Structural)]
pub enum Change {
    /// There is none before it.
    Awaiting,
    /// The one before it went elsewhere.
    Different,
    /// The previous prompt count, and by how much this one is greater.
    Grown { previous: u64, amount: u64 },
    /// The previous prompt count, and by how much this one is smaller.
    Shrunk { previous: u64, amount: u64 },
}

/// The usage of an optional entry.
pub open spec fn usage_of(entry: Option<&Entry>) -> Option<UsageModel> {
    match entry {
        Some(entry) => Some(entry.usage.deep_view()),
        None => None,
    }
}

/// How a request compares with the one observed before it.
pub open spec fn change_from(current: UsageModel, previous: Option<UsageModel>) -> Change {
    match previous {
        Some(old) => if !current.comparable(old) {
            Change::Different
        } else if current.prompt >= old.prompt {
            Change::Grown { previous: old.prompt, amount: (current.prompt - old.prompt) as u64 }
        } else {
            Change::Shrunk { previous: old.prompt, amount: (old.prompt - current.prompt) as u64 }
        },
        None => Change::Awaiting,
    }
}

/// How a request compares with the one observed before it.
pub fn change(current: &RequestUsage, previous: Option<&Entry>) -> (r: Change)
    ensures
        r == change_from(current.deep_view(), usage_of(previous)),
{
    let old = match previous {
        Some(entry) => &entry.usage,
        None => return Change::Awaiting,
    };
    if !comparable(current, old) {
        Change::Different
    } else if current.prompt >= old.prompt {
        Change::Grown { previous: old.prompt, amount: current.prompt - old.prompt }
    } else {
        Change::Shrunk { previous: old.prompt, amount: old.prompt - current.prompt }
    }
}

/// A change of the prompt count in words, up to the share that it is of the previous
/// count.
pub open spec fn change_words(sign: Seq<char>, previous: u64, amount: u64) -> Seq<char> {
    "PREVIOUS OBSERVED "@ + grouped(previous as nat) + " · CHANGE "@ + sign + grouped(
        amount as nat,
    )
}

/// A change of the prompt count. The share is told only of a previous count above zero.
pub open spec fn change_line(sign: Seq<char>, previous: u64, amount: u64) -> Seq<PieceModel> {
    if previous > 0 {
        seq![
            PieceModel::Words(change_words(sign, previous, amount) + " ("@ + sign),
            PieceModel::Percent { part: amount, whole: previous },
            PieceModel::Words("%)"@),
        ]
    } else {
        plain(change_words(sign, previous, amount))
    }
}

/// The comparison with the request observed before.
pub open spec fn comparison_line(change: Change) -> Seq<PieceModel> {
    match change {
        Change::Awaiting => plain("PREVIOUS OBSERVED — awaiting another request"@),
        Change::Different => plain("PREVIOUS OBSERVED — different provider/model; no comparison"@),
        Change::Grown { previous, amount } => change_line("+"@, previous, amount),
        Change::Shrunk { previous, amount } => change_line("−"@, previous, amount),
    }
}

fn tell_change(sign: &str, previous: u64, amount: u64) -> (r: Vec<Piece>)
    ensures
        r.deep_view() == change_line(sign@, previous, amount),
{
    let mut text = "PREVIOUS OBSERVED ".to_owned();
    push_grouped(&mut text, previous);
    text.append(" · CHANGE ");
    text.append(sign);
    push_grouped(&mut text, amount);
    if previous > 0 {
        text.append(" (");
        text.append(sign);
        let mut line = blank();
        push_words(&mut line, text.as_str());
        push_piece(&mut line, Piece::Percent { part: amount, whole: previous });
        push_words(&mut line, "%)");
        assert(line.deep_view() =~= change_line(sign@, previous, amount));
        line
    } else {
        plain_line(text.as_str())
    }
}

/// The comparison with the request observed before.
pub fn comparison(current: &RequestUsage, previous: Option<&Entry>) -> (r: Vec<Piece>)
    ensures
        r.deep_view() == comparison_line(change_from(current.deep_view(), usage_of(previous))),
{
    match change(current, previous) {
        Change::Awaiting => plain_line("PREVIOUS OBSERVED — awaiting another request"),
        Change::Different => {
            plain_line("PREVIOUS OBSERVED — different provider/model; no comparison")
        },
        Change::Grown { previous, amount } => tell_change("+", previous, amount),
        Change::Shrunk { previous, amount } => tell_change("−", previous, amount),
    }
}

/// A prompt count as far as the chart reaches.
pub open spec fn charted(prompt: u64) -> u64 {
    if prompt <= TREND_CEILING {
        prompt
    } else {
        TREND_CEILING
    }
}

/// A prompt count as far as the chart reaches.
pub fn chart_value(prompt: u64) -> (r: u64)
    ensures
        r == charted(prompt),
{
    if prompt <= TREND_CEILING {
        prompt
    } else {
        TREND_CEILING
    }
}

/// Whether a prompt is materially larger than the one before it: by at least 2048
/// tokens and a quarter of a comparable prompt that was not empty.
pub open spec fn is_jump(current: UsageModel, previous: Option<UsageModel>) -> bool {
    match previous {
        Some(old) => current.comparable(old) && current.prompt - old.prompt >= 2048 && old.prompt
            > 0 && current.prompt * 100 >= old.prompt * 125,
        None => false,
    }
}

/// Whether a prompt is materially larger than the one before it.
pub fn material_jump(current: &RequestUsage, previous: Option<&Entry>) -> (r: bool)
    ensures
        r == is_jump(current.deep_view(), usage_of(previous)),
{
    match previous {
        Some(entry) => {
            let old = &entry.usage;
            comparable(current, old) && current.prompt.saturating_sub(old.prompt) >= 2048
                && old.prompt > 0 && current.prompt as u128 * 100 >= old.prompt as u128 * 125
        },
        None => false,
    }
}

/// How many requests directly before `index` went to the same model.
pub open spec fn run_before(entries: Seq<EntryModel>, current: UsageModel, index: int) -> nat
    decreases index,
{
    if index <= 0 || !current.comparable(entries[index - 1].usage) {
        0
    } else {
        1 + run_before(entries, current, index - 1)
    }
}

/// How many earlier requests an assessment looks back on.
pub const BASELINE_LIMIT: usize = 8;

/// The prompt counts of the requests directly before `index` that went to the same
/// model, the latest first.
pub open spec fn baseline(entries: Seq<EntryModel>, index: int) -> Seq<u64> {
    let run = run_before(entries, entries[index].usage, index);
    Seq::new(
        if run <= BASELINE_LIMIT {
            run
        } else {
            BASELINE_LIMIT as nat
        },
        |k: int| entries[index - 1 - k].usage.prompt,
    )
}

pub open spec fn not_greater() -> spec_fn(u64, u64) -> bool {
    |a: u64, b: u64| a <= b
}

/// The middle one of some counts; the upper middle one of an even number.
pub open spec fn median(counts: Seq<u64>) -> u64 {
    counts.sort_by(not_greater())[counts.len() as int / 2]
}

/// The typical prompt count before `index`, once three earlier requests show it.
pub open spec fn typical(entries: Seq<EntryModel>, index: int) -> Option<u64> {
    let counts = baseline(entries, index);
    if counts.len() >= 3 {
        Some(median(counts))
    } else {
        None
    }
}

/// How a prompt stands to those before it.
#[derive(Clone, Copy, Debug, PartialEq, Eq, Structural)]
pub enum Assessment {
    /// Materially larger than the one before it.
    Jump,
    /// Much larger than the median, which is given.
    Large { median: u64 },
    /// Much smaller than the median.
    Smaller,
    /// Near the median.
    Typical,
    /// Too little is known.
    Baseline,
}

/// The entry before `index`.
pub open spec fn usage_before(entries: Seq<EntryModel>, index: int) -> Option<UsageModel> {
    if index > 0 {
        Some(entries[index - 1].usage)
    } else {
        None
    }
}

/// How the prompt at `index` stands to those before it.
pub open spec fn assessment(entries: Seq<EntryModel>, index: int) -> Assessment {
    let current = entries[index].usage;
    if is_jump(current, usage_before(entries, index)) {
        Assessment::Jump
    } else {
        match typical(entries, index) {
            Some(median) => if median == 0 {
                Assessment::Baseline
            } else if current.prompt * 2 >= median * 3 && current.prompt - median >= 2048 {
                Assessment::Large { median }
            } else if current.prompt * 4 <= median * 3 {
                Assessment::Smaller
            } else {
                Assessment::Typical
            },
            None => Assessment::Baseline,
        }
    }
}

/// Puts a count into its place among sorted ones.
fn insert_sorted(counts: &mut Vec<u64>, count: u64)
    requires
        sorted_by(old(counts)@, not_greater()),
    ensures
        sorted_by(final(counts)@, not_greater()),
        final(counts)@.to_multiset() == old(counts)@.to_multiset().insert(count),
        final(counts)@.len() == old(counts)@.len() + 1,
{
    let ghost before = counts@;
    let mut i: usize = 0;
    while i < counts.len() && counts[i] < count
        invariant
            i <= counts@.len(),
            counts@ == before,
            forall|k: int| 0 <= k < i ==> counts@[k] < count,
        ensures
            i < counts@.len() ==> counts@[i as int] >= count,
        decreases counts@.len() - i,
    {
        i += 1;
    }
    counts.insert(i, count);
    proof {
        let le = not_greater();
        to_multiset_insert(before, i as int, count);
        assert forall|a: int, b: int| 0 <= a < b < counts@.len() implies #[trigger] le(
            counts@[a],
            counts@[b],
        ) by {
            let shifted = |k: int| if k < i { k } else { k - 1 };
            if a != i && b != i {
                assert(le(before[shifted(a)], before[shifted(b)]));
            } else if a == i {
                if i < before.len() && b - 1 > i {
                    assert(le(before[i as int], before[b - 1]));
                }
            }
        }
    }
}

/// The middle one of some sorted counts is the median of what they were sorted from.
proof fn lemma_median(counts: Seq<u64>, sorted: Seq<u64>)
    requires
        sorted_by(sorted, not_greater()),
        sorted.to_multiset() == counts.to_multiset(),
        counts.len() > 0,
    ensures
        median(counts) == sorted[counts.len() as int / 2],
{
    assert(total_ordering(not_greater()));
    counts.lemma_sort_by_ensures(not_greater());
    lemma_sorted_unique(counts.sort_by(not_greater()), sorted, not_greater());
}

impl History {
    /// The counts of the baseline, sorted.
    fn sorted_baseline(&self, index: usize) -> (r: Vec<u64>)
        requires
            index < self.entries@.len(),
        ensures
            sorted_by(r@, not_greater()),
            r@.to_multiset() == baseline(
                self.deep_view().entries,
                index as int,
            ).to_multiset(),
            r@.len() == baseline(self.deep_view().entries, index as int).len(),
    {
        let ghost all = self.deep_view().entries;
        let ghost wanted = baseline(all, index as int);
        let current = &self.entries[index].usage;
        let ghost model = all[index as int].usage;
        assert(current.deep_view() == model);
        let mut counts: Vec<u64> = Vec::new();
        let mut n: usize = 0;
        assert(counts@ =~= Seq::empty());
        assert(wanted.take(0) =~= Seq::empty());
        while n < index && n < BASELINE_LIMIT && comparable(
            current,
            &self.entries[index - 1 - n].usage,
        )
            invariant
                n <= index < self.entries@.len(),
                n <= BASELINE_LIMIT,
                all == self.deep_view().entries,
                current.deep_view() == model,
                model == all[index as int].usage,
                wanted == baseline(all, index as int),
                run_before(all, model, index as int) == n + run_before(all, model, index - n),
                counts@.len() == n,
                sorted_by(counts@, not_greater()),
                counts@.to_multiset() == wanted.take(n as int).to_multiset(),
            ensures
                n == wanted.len(),
            decreases index - n,
        {
            let ghost place = index - 1 - n;
            assert(all[place] == self.entries@[place].deep_view());
            let count = self.entries[index - 1 - n].usage.prompt;
            proof {
                assert(wanted[n as int] == count);
                let part = wanted.take(n as int);
                part.to_multiset_ensures();
                assert(wanted.take(n + 1) =~= part.push(count));
            }
            insert_sorted(&mut counts, count);
            n += 1;
        }
        assert(wanted.take(n as int) =~= wanted);
        counts
    }

    /// How the prompt at `index` stands to those before it.
    pub fn assess(&self, index: usize) -> (r: Assessment)
        requires
            index < self.deep_view().entries.len(),
        ensures
            r == assessment(self.deep_view().entries, index as int),
    {
        let counts = self.sorted_baseline(index);
        self.assess_with(index, &counts)
    }

    fn assess_with(&self, index: usize, counts: &Vec<u64>) -> (r: Assessment)
        requires
            index < self.entries@.len(),
            sorted_by(counts@, not_greater()),
            counts@.to_multiset() == baseline(
                self.deep_view().entries,
                index as int,
            ).to_multiset(),
            counts@.len() == baseline(self.deep_view().entries, index as int).len(),
        ensures
            r == assessment(self.deep_view().entries, index as int),
    {
        let ghost all = self.deep_view().entries;
        let current = &self.entries[index].usage;
        assert(all[index as int] == self.entries@[index as int].deep_view());
        let previous: Option<&Entry> = if index > 0 {
            assert(all[index - 1] == self.entries@[index - 1].deep_view());
            Some(&self.entries[index - 1])
        } else {
            None
        };
        if material_jump(current, previous) {
            return Assessment::Jump;
        }
        if counts.len() < 3 {
            return Assessment::Baseline;
        }
        let median = counts[counts.len() / 2];
        proof {
            lemma_median(baseline(all, index as int), counts@);
        }
        if median == 0 {
            Assessment::Baseline
        } else if current.prompt as u128 * 2 >= median as u128 * 3 && current.prompt.saturating_sub(
            median,
        ) >= 2048 {
            Assessment::Large { median }
        } else if current.prompt as u128 * 4 <= median as u128 * 3 {
            Assessment::Smaller
        } else {
            Assessment::Typical
        }
    }
}

/// How a text is emphasized.
#[derive(Clone, Copy, Debug, PartialEq, Eq, Structural)]
pub enum Tone {
    Muted,
    Cyan,
    Yellow,
}

/// What an operator may do about a request.
#[derive(Clone, Copy, Debug, PartialEq, Eq, Structural)]
pub enum Advice {
    InspectContext,
    CheckReuse,
    ComparePrefill,
    CheckQueue,
    CollectMore,
}

impl Advice {
    /// The advice in a sentence.
    pub open spec fn words(self) -> Seq<char> {
        match self {
            Advice::InspectContext => "Inspect added context or large tool results."@,
            Advice::CheckReuse => "For repeating prompts, check prefix reuse."@,
            Advice::ComparePrefill => "Less input; check prefill time for impact."@,
            Advice::CheckQueue => "If slow, inspect prefill, queue and GPU."@,
            Advice::CollectMore => "Compare more requests before judging size."@,
        }
    }

    /// The advice in a few words, for a narrow panel.
    pub open spec fn short_words(self) -> Seq<char> {
        match self {
            Advice::InspectContext => "Inspect context/tool results."@,
            Advice::CheckReuse => "Repeating input? Check reuse."@,
            Advice::ComparePrefill => "Compare prefill time."@,
            Advice::CheckQueue => "Check prefill, queue and GPU."@,
            Advice::CollectMore => "Collect more requests."@,
        }
    }

    /// The advice in a sentence.
    pub fn text(&self) -> (r: &'static str)
        ensures
            r@ == self.words(),
    {
        match self {
            Advice::InspectContext => "Inspect added context or large tool results.",
            Advice::CheckReuse => "For repeating prompts, check prefix reuse.",
            Advice::ComparePrefill => "Less input; check prefill time for impact.",
            Advice::CheckQueue => "If slow, inspect prefill, queue and GPU.",
            Advice::CollectMore => "Compare more requests before judging size.",
        }
    }

    /// The advice in a few words, for a narrow panel.
    pub fn short(&self) -> (r: &'static str)
        ensures
            r@ == self.short_words(),
    {
        match self {
            Advice::InspectContext => "Inspect context/tool results.",
            Advice::CheckReuse => "Repeating input? Check reuse.",
            Advice::ComparePrefill => "Compare prefill time.",
            Advice::CheckQueue => "Check prefill, queue and GPU.",
            Advice::CollectMore => "Collect more requests.",
        }
    }
}

/// What the history shows of one request.
#[derive(Debug)]
pub struct Insight {
    pub title: Vec<Piece>,
    pub detail: String,
    pub action: Advice,
    pub tone: Tone,
}

/// The content of an [`Insight`].
pub struct InsightModel {
    pub title: Seq<PieceModel>,
    pub detail: Seq<char>,
    pub action: Advice,
    pub tone: Tone,
}

impl DeepView for Insight {
    type V = InsightModel;

    open spec fn deep_view(&self) -> InsightModel {
        InsightModel {
            title: self.title.deep_view(),
            detail: self.detail@,
            action: self.action,
            tone: self.tone,
        }
    }
}

/// The title of an assessment of a prompt count.
pub open spec fn assessment_title(assessment: Assessment, prompt: u64) -> Seq<PieceModel> {
    match assessment {
        Assessment::Jump => plain("PROMPT JUMP · input increased"@),
        Assessment::Large { median } => seq![
            PieceModel::Words("LARGE VS RECENT · "@),
            PieceModel::Times { count: prompt, base: median },
            PieceModel::Words("× median"@),
        ],
        Assessment::Smaller => plain("SMALLER INPUT · below recent median"@),
        Assessment::Typical => plain("TYPICAL INPUT · near recent median"@),
        Assessment::Baseline => plain("BASELINE SAMPLING"@),
    }
}

/// What an assessment is based on.
pub open spec fn baseline_words(typical: Option<u64>, count: nat) -> Seq<char> {
    match typical {
        Some(median) => "Recent median "@ + grouped(median as nat) + " · "@ + decimal(count)
            + " prior requests"@,
        None => "Building a same-model baseline"@,
    }
}

/// What the history shows of the request at `index`.
pub open spec fn insight_at(entries: Seq<EntryModel>, index: int) -> InsightModel {
    let found = assessment(entries, index);
    InsightModel {
        title: assessment_title(found, entries[index].usage.prompt),
        detail: baseline_words(typical(entries, index), baseline(entries, index).len()),
        action: match found {
            Assessment::Jump | Assessment::Large { .. } => Advice::InspectContext,
            Assessment::Smaller => Advice::ComparePrefill,
            Assessment::Typical => Advice::CheckQueue,
            Assessment::Baseline => Advice::CollectMore,
        },
        tone: match found {
            Assessment::Jump | Assessment::Large { .. } => Tone::Yellow,
            Assessment::Smaller | Assessment::Typical => Tone::Cyan,
            Assessment::Baseline => Tone::Muted,
        },
    }
}

/// What the history shows of the request at `index`.
pub fn insight(history: &History, index: usize) -> (r: Insight)
    requires
        index < history.deep_view().entries.len(),
    ensures
        r.deep_view() == insight_at(history.deep_view().entries, index as int),
{
    let counts = history.sorted_baseline(index);
    let ghost all = history.deep_view().entries;
    let detail = if counts.len() >= 3 {
        let median = counts[counts.len() / 2];
        proof {
            lemma_median(baseline(all, index as int), counts@);
        }
        let mut text = "Recent median ".to_owned();
        push_grouped(&mut text, median);
        text.append(" · ");
        push_decimal(&mut text, counts.len() as u64);
        text.append(" prior requests");
        text
    } else {
        "Building a same-model baseline".to_owned()
    };
    match history.assess_with(index, &counts) {
        Assessment::Jump => Insight {
            title: plain_line("PROMPT JUMP · input increased"),
            detail,
            action: Advice::InspectContext,
            tone: Tone::Yellow,
        },
        Assessment::Large { median } => {
            let prompt = history.entries[index].usage.prompt;
            assert(all[index as int] == history.entries@[index as int].deep_view());
            let mut title = blank();
            push_words(&mut title, "LARGE VS RECENT · ");
            push_piece(&mut title, Piece::Times { count: prompt, base: median });
            push_words(&mut title, "× median");
            assert(title.deep_view() =~= assessment_title(Assessment::Large { median }, prompt));
            Insight { title, detail, action: Advice::InspectContext, tone: Tone::Yellow }
        },
        Assessment::Smaller => Insight {
            title: plain_line("SMALLER INPUT · below recent median"),
            detail,
            action: Advice::ComparePrefill,
            tone: Tone::Cyan,
        },
        Assessment::Typical => Insight {
            title: plain_line("TYPICAL INPUT · near recent median"),
            detail,
            action: Advice::CheckQueue,
            tone: Tone::Cyan,
        },
        Assessment::Baseline => Insight {
            title: plain_line("BASELINE SAMPLING"),
            detail,
            action: Advice::CollectMore,
            tone: Tone::Muted,
        },
    }
}

/// Whether a request is at work now: a fresh live sample lists it, it was seen
/// lately, and it was not reported as completed.
pub open spec fn live_at(entry: EntryModel, sample: SampleModel, now: Timestamp) -> bool {
    &&& sample.llm_source == TelemetrySource::Live
    &&& sample.llm_status != "stale"@
    &&& !entry.usage.completed
    &&& entry.last_seen.fresh_at(now)
    &&& fresh(sample.llm_observed_at, now)
    &&& exists|i: int|
        0 <= i < sample.llm_requests.len() && entry.usage.same(#[trigger] sample.llm_requests[i])
}

/// Whether a request is at work now.
pub fn is_live(entry: &Entry, sample: &Sample, now: Timestamp) -> (r: bool)
    ensures
        r == live_at(entry.deep_view(), sample.deep_view(), now),
{
    if sample.llm_source != TelemetrySource::Live || same_text(
        sample.llm_status.as_str(),
        "stale",
    ) || entry.usage.completed || !entry.last_seen.is_fresh(now) || !is_fresh(
        sample.llm_observed_at,
        now,
    ) {
        return false;
    }
    let ghost all = sample.deep_view().llm_requests;
    let mut i: usize = 0;
    while i < sample.llm_requests.len()
        invariant
            i <= sample.llm_requests@.len(),
            all == sample.deep_view().llm_requests,
            forall|k: int| 0 <= k < i ==> !entry.deep_view().usage.same(#[trigger] all[k]),
            sample.llm_source == TelemetrySource::Live,
            sample.llm_status@ != "stale"@,
            !entry.usage.completed,
            entry.last_seen.fresh_at(now),
            fresh(sample.llm_observed_at, now),
        decreases sample.llm_requests@.len() - i,
    {
        assert(all[i as int] == sample.llm_requests@[i as int].deep_view());
        if same_request(&entry.usage, &sample.llm_requests[i]) {
            return true;
        }
        i += 1;
    }
    false
}

} // verus!
