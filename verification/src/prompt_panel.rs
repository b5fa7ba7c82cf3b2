//! The prompt load panel: one bar for each request, and what they say together.
use crate::canvas::{Ink, Rect};
use crate::operator_charts::div_up;
use crate::phrase::{
    blank, joined, opening, plain, plain_line, push_piece, push_words, to_opening, Piece, PieceModel,
};
use crate::providers::{keep_plausible, plausible_cache, RequestUsage, UsageModel};
use crate::request_dashboard::{
    change_from, chart_value, comparison, comparison_line, insight, insight_at, is_jump, is_live,
    live_at, material_jump, usage_before, Advice, Entry, EntryModel, History, InsightModel, Tone,
    TREND_CEILING,
};
use crate::reuse::{below_a_fifth, from_four_fifths, is_below_a_fifth, is_from_four_fifths};
use crate::sample::{Sample, SampleModel};
use crate::text::{
    decimal, first_part, grouped, push_decimal, push_grouped, same_text, to_first_part,
};
use crate::time::Timestamp;
use vstd::prelude::*;

verus! {

/// How many columns a bar takes, with the gap after it.
pub const BAR_STEP: u16 = 6;

/// The most bars that are shown.
pub const BAR_LIMIT: u16 = 32;

/// The width below which the text beside the bars is shortened.
pub const WIDE_SIDE: u16 = 48;

/// The prompt count from which little reuse is worth a look.
pub const REUSE_FLOOR: u64 = 4096;

/// A text in one row.
#[derive(Debug)]
pub struct Label {
    pub y: u16,
    pub text: Piece,
    pub ink: Ink,
}

/// The content of a [`Label`].
pub struct LabelModel {
    pub y: u16,
    pub text: PieceModel,
    pub ink: Ink,
}

impl DeepView for Label {
    type V = LabelModel;

    open spec fn deep_view(&self) -> LabelModel {
        LabelModel { y: self.y, text: self.text.deep_view(), ink: self.ink }
    }
}

/// One row of a bar, over its whole width.
#[derive(Clone, Copy, Debug, PartialEq, Eq, Structural)]
pub struct Block {
    pub y: u16,
    pub glyph: char,
    pub ink: Ink,
    pub ground: Ink,
}

/// The bar of one request.
#[derive(Debug)]
pub struct Bar {
    pub x: u16,
    pub width: u16,
    /// The prompt count, in a row of its own so that a short bar never hides it.
    pub value: Label,
    /// The request's number, below the bar.
    pub tag: Option<Label>,
    /// The rows of the bar from the bottom up.
    pub blocks: Vec<Block>,
}

/// The content of a [`Bar`].
#[verifier::ext_equal]
pub struct BarModel {
    pub x: u16,
    pub width: u16,
    pub value: LabelModel,
    pub tag: Option<LabelModel>,
    pub blocks: Seq<Block>,
}

impl DeepView for Bar {
    type V = BarModel;

    open spec fn deep_view(&self) -> BarModel {
        BarModel {
            x: self.x,
            width: self.width,
            value: self.value.deep_view(),
            tag: self.tag.deep_view(),
            blocks: self.blocks@,
        }
    }
}

/// The entry that is selected after scrolling back by `scroll` requests.
pub open spec fn selection(count: nat, scroll: nat) -> int {
    if scroll < count {
        count - 1 - scroll
    } else {
        0
    }
}

/// The entry that is selected after scrolling back by `scroll` requests.
pub fn selected_index(history: &History, scroll: usize) -> (r: usize)
    requires
        history.deep_view().entries.len() > 0,
    ensures
        r == selection(history.deep_view().entries.len(), scroll as nat),
        r < history.deep_view().entries.len(),
{
    let count = history.len();
    if scroll < count {
        count - 1 - scroll
    } else {
        0
    }
}

/// How many bars a plot has room for.
pub open spec fn bar_room(width: u16) -> nat {
    let room: int = if width > 0 {
        (width - 1) / BAR_STEP as int
    } else {
        0
    };
    if room < 1 {
        1
    } else if room > BAR_LIMIT {
        BAR_LIMIT as nat
    } else {
        room as nat
    }
}

/// The entry of the first bar, where the last one is that of `index`.
pub open spec fn first_bar(index: int, width: u16) -> int {
    if index + 1 > bar_room(width) {
        index + 1 - bar_room(width)
    } else {
        0
    }
}

/// The entry of the first bar, where the last one is that of `index`.
pub fn first_bar_index(index: usize, width: u16) -> (r: usize)
    ensures
        r == first_bar(index as int, width),
        r <= index,
        index - r < bar_room(width),
{
    let room = width.saturating_sub(1) / BAR_STEP;
    let room = if room < 1 {
        1
    } else if room > BAR_LIMIT {
        BAR_LIMIT
    } else {
        room
    };
    if index >= room as usize {
        index - (room as usize - 1)
    } else {
        0
    }
}

/// The height of a bar in eighths of a row. A bar with two segments fills whole rows,
/// so that a short one can show both in one cell.
pub open spec fn bar_total(usage: UsageModel, height: nat) -> nat {
    let shown: nat = if usage.prompt <= TREND_CEILING {
        usage.prompt as nat
    } else {
        TREND_CEILING as nat
    };
    match plausible_cache(usage.cached, usage.prompt) {
        Some(_) => div_up(shown * height, TREND_CEILING as nat) * 8,
        None => shown * height * 8 / TREND_CEILING as nat,
    }
}

/// The height of a bar's cached segment in eighths of a row.
pub open spec fn bar_cached(usage: UsageModel, total: nat) -> nat {
    match plausible_cache(usage.cached, usage.prompt) {
        Some(n) => if usage.prompt > 0 {
            n as nat * total / usage.prompt as nat
        } else {
            0
        },
        None => 0,
    }
}

/// How much of a row, in eighths, a height fills.
pub open spec fn row_part(total: nat, row: nat) -> nat {
    if total <= row * 8 {
        0
    } else if total - row * 8 >= 8 {
        8
    } else {
        (total - row * 8) as nat
    }
}

/// The glyph that fills some eighths of a cell from below.
pub open spec fn eighths(n: nat) -> char {
    if n == 0 {
        ' '
    } else if n == 1 {
        '▁'
    } else if n == 2 {
        '▂'
    } else if n == 3 {
        '▃'
    } else if n == 4 {
        '▄'
    } else if n == 5 {
        '▅'
    } else if n == 6 {
        '▆'
    } else if n == 7 {
        '▇'
    } else {
        '█'
    }
}

/// One row of a bar: green as far as the prompt was cached, else in the bar's own
/// color.
pub open spec fn bar_block(total: nat, cached: nat, ink: Ink, row: nat, y: u16) -> Block {
    let filled = row_part(total, row);
    let green = row_part(cached, row);
    if green == filled {
        Block { y, glyph: eighths(filled), ink: Ink::Green, ground: Ink::Panel }
    } else if green > 0 && filled == 8 {
        Block { y, glyph: eighths(green), ink: Ink::Green, ground: ink }
    } else {
        Block { y, glyph: eighths(filled), ink, ground: Ink::Panel }
    }
}

/// The rows of a bar from the bottom up; the lowest stands above the tag.
pub open spec fn bar_blocks(usage: UsageModel, plot: Rect, ink: Ink) -> Seq<Block> {
    let height: nat = if plot.height >= 2 {
        (plot.height - 2) as nat
    } else {
        0
    };
    let total = bar_total(usage, height);
    let cached = bar_cached(usage, total);
    Seq::new(
        div_up(total, 8),
        |row: int|
            bar_block(
                total,
                cached,
                ink,
                row as nat,
                (plot.y + plot.height - 2 - row) as u16,
            ),
    )
}

/// The mark before a request's number: selected, a jump, both, or neither.
pub open spec fn tag_mark(selected: bool, jump: bool) -> Seq<char> {
    if selected && jump {
        "▶!"@
    } else if selected {
        "▶"@
    } else if jump {
        "!"@
    } else {
        "#"@
    }
}

/// The bar of entry `i`, with its prompt count unless that is beyond the chart.
pub open spec fn bar_at(
    entries: Seq<EntryModel>,
    sample: SampleModel,
    now: Timestamp,
    plot: Rect,
    index: int,
    i: int,
) -> BarModel {
    let entry = entries[i];
    let jump = is_jump(entry.usage, usage_before(entries, i));
    let ink = if live_at(entry, sample, now) {
        Ink::Cyan
    } else {
        Ink::Blue
    };
    let x = plot.x + (i - first_bar(index, plot.width)) * BAR_STEP;
    let room = plot.x + plot.width - x;
    BarModel {
        x: x as u16,
        width: if room < 5 {
            room as u16
        } else {
            5
        },
        value: LabelModel {
            y: plot.y,
            text: if entry.usage.prompt > TREND_CEILING {
                PieceModel::Words("↑"@)
            } else {
                PieceModel::Tokens(entry.usage.prompt)
            },
            ink: if jump {
                Ink::Yellow
            } else {
                ink
            },
        },
        tag: if plot.height >= 2 {
            Some(
                LabelModel {
                    y: (plot.y + plot.height - 1) as u16,
                    text: PieceModel::Words(
                        tag_mark(i == index, jump) + decimal(entry.number as nat),
                    ),
                    ink: if jump {
                        Ink::Yellow
                    } else {
                        Ink::Muted
                    },
                },
            )
        } else {
            None
        },
        blocks: bar_blocks(entry.usage, plot, ink),
    }
}

/// The bars that end with that of entry `index`.
pub open spec fn bars_at(
    entries: Seq<EntryModel>,
    sample: SampleModel,
    now: Timestamp,
    plot: Rect,
    index: int,
) -> Seq<BarModel> {
    if plot.width == 0 || plot.height == 0 {
        Seq::empty()
    } else {
        let start = first_bar(index, plot.width);
        Seq::new(
            (index + 1 - start) as nat,
            |k: int| bar_at(entries, sample, now, plot, index, start + k),
        )
    }
}

/// A bar and its cached segment stay within the chart, and the segment within the bar.
pub proof fn lemma_total(usage: UsageModel, height: nat)
    ensures
        bar_total(usage, height) <= height * 8,
        bar_cached(usage, bar_total(usage, height)) <= bar_total(usage, height),
        usage.prompt >= TREND_CEILING ==> bar_total(usage, height) == height * 8,
{
    let shown: nat = if usage.prompt <= TREND_CEILING {
        usage.prompt as nat
    } else {
        TREND_CEILING as nat
    };
    let n = shown * height;
    assert(n <= TREND_CEILING * height) by (nonlinear_arith)
        requires
            n == shown * height,
            shown <= TREND_CEILING,
    ;
    if usage.prompt >= TREND_CEILING {
        assert(n == TREND_CEILING * height);
    }
    assert(div_up(n, TREND_CEILING as nat) <= height);
    assert(n * 8 / TREND_CEILING as nat <= height * 8);
    let total = bar_total(usage, height);
    if let Some(cached) = plausible_cache(usage.cached, usage.prompt) {
        if usage.prompt > 0 {
            let p = usage.prompt as nat;
            let q = cached as nat * total / p;
            assert(q <= total) by (nonlinear_arith)
                requires
                    q == cached * total / p as int,
                    cached <= p,
                    p > 0,
                    total >= 0,
            ;
        }
    }
}

fn find_total(usage: &RequestUsage, height: u16) -> (r: (u64, u64))
    ensures
        r.0 == bar_total(usage.deep_view(), height as nat),
        r.1 == bar_cached(usage.deep_view(), r.0 as nat),
        r.0 <= height * 8,
        r.1 <= r.0,
{
    proof {
        lemma_total(usage.deep_view(), height as nat);
    }
    let shown = chart_value(usage.prompt);
    assert(shown * height <= TREND_CEILING * u16::MAX) by (nonlinear_arith)
        requires
            0 <= shown <= TREND_CEILING,
            0 <= height <= u16::MAX,
    ;
    let product = shown * height as u64;
    match keep_plausible(usage.cached, usage.prompt) {
        Some(n) => {
            let total = (product + (TREND_CEILING - 1)) / TREND_CEILING * 8;
            let cached = if usage.prompt > 0 {
                assert(n * total <= u64::MAX * u64::MAX) by (nonlinear_arith)
                    requires
                        0 <= n <= u64::MAX,
                        0 <= total <= u64::MAX,
                ;
                (n as u128 * total as u128 / usage.prompt as u128) as u64
            } else {
                0
            };
            (total, cached)
        },
        None => (product * 8 / TREND_CEILING, 0),
    }
}

fn find_part(total: u64, row: u16) -> (r: u64)
    ensures
        r == row_part(total as nat, row as nat),
        r <= 8,
{
    let rest = total.saturating_sub(row as u64 * 8);
    if rest >= 8 {
        8
    } else {
        rest
    }
}

fn find_eighths(n: u64) -> (r: char)
    ensures
        r == eighths(n as nat),
{
    match n {
        0 => ' ',
        1 => '▁',
        2 => '▂',
        3 => '▃',
        4 => '▄',
        5 => '▅',
        6 => '▆',
        7 => '▇',
        _ => '█',
    }
}

fn draw_blocks(usage: &RequestUsage, plot: Rect, ink: Ink) -> (r: Vec<Block>)
    requires
        plot.fits(),
    ensures
        r@ == bar_blocks(usage.deep_view(), plot, ink),
{
    let height = if plot.height >= 2 {
        plot.height - 2
    } else {
        0
    };
    let (total, cached) = find_total(usage, height);
    let ghost wanted = bar_blocks(usage.deep_view(), plot, ink);
    let mut blocks: Vec<Block> = Vec::new();
    let mut row: u16 = 0;
    assert(blocks@ =~= wanted.take(0));
    while row < height && (row as u64) * 8 < total
        invariant
            row <= height,
            row <= wanted.len(),
            plot.fits(),
            height == if plot.height >= 2 {
                plot.height - 2
            } else {
                0
            },
            wanted == bar_blocks(usage.deep_view(), plot, ink),
            wanted.len() == div_up(total as nat, 8),
            total == bar_total(usage.deep_view(), height as nat),
            cached == bar_cached(usage.deep_view(), total as nat),
            total <= height * 8,
            blocks@ == wanted.take(row as int),
        ensures
            row == wanted.len(),
        decreases height - row,
    {
        let y = plot.y + (plot.height - 2 - row);
        let filled = find_part(total, row);
        let green = find_part(cached, row);
        let block = if green == filled {
            Block { y, glyph: find_eighths(filled), ink: Ink::Green, ground: Ink::Panel }
        } else if green > 0 && filled == 8 {
            Block { y, glyph: find_eighths(green), ink: Ink::Green, ground: ink }
        } else {
            Block { y, glyph: find_eighths(filled), ink, ground: Ink::Panel }
        };
        assert(block == wanted[row as int]);
        blocks.push(block);
        row += 1;
        assert(blocks@ =~= wanted.take(row as int));
    }
    assert(wanted.take(wanted.len() as int) =~= wanted);
    blocks
}

fn draw_bar(
    history: &History,
    sample: &Sample,
    now: Timestamp,
    plot: Rect,
    index: usize,
    i: usize,
) -> (r: Bar)
    requires
        plot.fits(),
        plot.width > 0,
        plot.height > 0,
        index < history.deep_view().entries.len(),
        first_bar(index as int, plot.width) <= i <= index,
    ensures
        r.deep_view() == bar_at(
            history.deep_view().entries,
            sample.deep_view(),
            now,
            plot,
            index as int,
            i as int,
        ),
{
    let ghost entries = history.deep_view().entries;
    let entry = &history.entries[i];
    assert(entries[i as int] == entry.deep_view());
    let previous: Option<&Entry> = if i > 0 {
        assert(entries[i - 1] == history.entries@[i - 1].deep_view());
        Some(&history.entries[i - 1])
    } else {
        None
    };
    let jump = material_jump(&entry.usage, previous);
    let ink = if is_live(entry, sample, now) {
        Ink::Cyan
    } else {
        Ink::Blue
    };
    let start = first_bar_index(index, plot.width);
    let step = (i - start) as u16 * BAR_STEP;
    let x = plot.x + step;
    let room = plot.width - step;
    let width = if room < 5 {
        room
    } else {
        5
    };
    let value = Label {
        y: plot.y,
        text: if entry.usage.prompt > TREND_CEILING {
            Piece::Words("↑".to_owned())
        } else {
            Piece::Tokens(entry.usage.prompt)
        },
        ink: if jump {
            Ink::Yellow
        } else {
            ink
        },
    };
    let tag = if plot.height >= 2 {
        let mark = if i == index && jump {
            "▶!"
        } else if i == index {
            "▶"
        } else if jump {
            "!"
        } else {
            "#"
        };
        let mut text = mark.to_owned();
        push_decimal(&mut text, entry.number);
        Some(
            Label {
                y: plot.y + (plot.height - 1),
                text: Piece::Words(text),
                ink: if jump {
                    Ink::Yellow
                } else {
                    Ink::Muted
                },
            },
        )
    } else {
        None
    };
    let blocks = draw_blocks(&entry.usage, plot, ink);
    Bar { x, width, value, tag, blocks }
}

/// A drawn prompt load panel.
#[derive(Debug)]
pub struct Panel {
    pub headline: Vec<Piece>,
    pub headline_ink: Ink,
    pub change: Vec<Piece>,
    pub bars: Vec<Bar>,
    pub title: Vec<Piece>,
    pub title_ink: Ink,
    pub detail: String,
    pub cache: Vec<Piece>,
    pub cache_ink: Ink,
    pub action: String,
    pub action_ink: Ink,
}

/// The content of a [`Panel`].
#[verifier::ext_equal]
pub struct PanelModel {
    pub headline: Seq<PieceModel>,
    pub headline_ink: Ink,
    pub change: Seq<PieceModel>,
    pub bars: Seq<BarModel>,
    pub title: Seq<PieceModel>,
    pub title_ink: Ink,
    pub detail: Seq<char>,
    pub cache: Seq<PieceModel>,
    pub cache_ink: Ink,
    pub action: Seq<char>,
    pub action_ink: Ink,
}

impl DeepView for Panel {
    type V = PanelModel;

    open spec fn deep_view(&self) -> PanelModel {
        PanelModel {
            headline: self.headline.deep_view(),
            headline_ink: self.headline_ink,
            change: self.change.deep_view(),
            bars: self.bars.deep_view(),
            title: self.title.deep_view(),
            title_ink: self.title_ink,
            detail: self.detail@,
            cache: self.cache.deep_view(),
            cache_ink: self.cache_ink,
            action: self.action@,
            action_ink: self.action_ink,
        }
    }
}

/// The line in place of the chart while there is no request.
pub open spec fn waiting_words(sample: SampleModel) -> Seq<char> {
    if sample.llm_provider == "oMLX"@ || sample.llm_provider == "KoboldCpp"@ {
        "Waiting for per-request prompt counts."@
    } else {
        "No per-request counts received. Connect client usage to see prompt load."@
    }
}

/// The line in place of the chart while there is no request.
pub fn empty_text(sample: &Sample) -> (r: &'static str)
    ensures
        r@ == waiting_words(sample.deep_view()),
{
    let provider = sample.llm_provider.as_str();
    if same_text(provider, "oMLX") || same_text(provider, "KoboldCpp") {
        "Waiting for per-request prompt counts."
    } else {
        "No per-request counts received. Connect client usage to see prompt load."
    }
}

/// How many rows the heading takes in a panel of this inner width.
pub open spec fn heading_rows(width: u16) -> u16 {
    if width < 120 {
        2
    } else {
        1
    }
}

/// How many rows the heading takes in a panel of this inner width.
pub fn header_height(width: u16) -> (r: u16)
    ensures
        r == heading_rows(width),
{
    if width < 120 {
        2
    } else {
        1
    }
}

/// Whether a request is live, reported, or was seen last some time ago.
pub open spec fn state_words(entry: EntryModel, live: bool) -> Seq<char> {
    if live {
        "LIVE"@
    } else if entry.usage.completed {
        "REPORTED"@
    } else {
        "LAST SEEN"@
    }
}

/// The headline of the selected request: its number, its exact prompt count, its state
/// and its age.
pub open spec fn headline_line(entry: EntryModel, live: bool) -> Seq<PieceModel> {
    seq![
        PieceModel::Words(
            "#"@ + decimal(entry.number as nat) + " · "@ + grouped(entry.usage.prompt as nat)
                + " tokens · "@ + state_words(entry, live) + " · "@,
        ),
        PieceModel::Age(entry.last_seen),
    ]
}

fn headline(entry: &Entry, live: bool) -> (r: Vec<Piece>)
    ensures
        r.deep_view() == headline_line(entry.deep_view(), live),
{
    let state = if live {
        "LIVE"
    } else if entry.usage.completed {
        "REPORTED"
    } else {
        "LAST SEEN"
    };
    let mut text = "#".to_owned();
    push_decimal(&mut text, entry.number);
    text.append(" · ");
    push_grouped(&mut text, entry.usage.prompt);
    text.append(" tokens · ");
    text.append(state);
    text.append(" · ");
    let mut line = blank();
    push_words(&mut line, text.as_str());
    push_piece(&mut line, Piece::Age(entry.last_seen));
    assert(line.deep_view() =~= headline_line(entry.deep_view(), live));
    line
}

/// Whether little of a large prompt was reused, by a reported count.
pub open spec fn little_reuse(usage: UsageModel) -> bool {
    match plausible_cache(usage.cached, usage.prompt) {
        Some(cached) => below_a_fifth(cached, usage.prompt) && usage.prompt >= REUSE_FLOOR,
        None => false,
    }
}

/// The line about the cached part of the prompt. An unknown part is not shown as zero.
pub open spec fn cache_line(usage: UsageModel) -> Seq<PieceModel> {
    match plausible_cache(usage.cached, usage.prompt) {
        Some(cached) => seq![
            PieceModel::Words("CACHE "@),
            PieceModel::Share { part: cached, whole: usage.prompt },
            PieceModel::Words(
                "% · "@ + grouped((usage.prompt - cached) as nat) + " uncached"@,
            ),
        ],
        None => plain("CACHE — not reported"@),
    }
}

/// The color of the line about the cached part of the prompt.
pub open spec fn cache_ink(usage: UsageModel) -> Ink {
    match plausible_cache(usage.cached, usage.prompt) {
        Some(cached) => if from_four_fifths(cached, usage.prompt) {
            Ink::Green
        } else if little_reuse(usage) {
            Ink::Yellow
        } else {
            Ink::Cyan
        },
        None => Ink::Muted,
    }
}

pub open spec fn tone_ink(tone: Tone) -> Ink {
    match tone {
        Tone::Muted => Ink::Muted,
        Tone::Cyan => Ink::Cyan,
        Tone::Yellow => Ink::Yellow,
    }
}

/// The advice that stands with an insight.
pub open spec fn advice_for(insight: InsightModel, usage: UsageModel) -> Advice {
    if little_reuse(usage) {
        Advice::CheckReuse
    } else {
        insight.action
    }
}

/// The panel for the entry at `index`.
pub open spec fn panel_at(
    entries: Seq<EntryModel>,
    sample: SampleModel,
    now: Timestamp,
    plot: Rect,
    side: u16,
    index: int,
) -> PanelModel {
    let entry = entries[index];
    let live = live_at(entry, sample, now);
    let found = insight_at(entries, index);
    let narrow = side < WIDE_SIDE;
    let title = if narrow {
        opening(found.title)
    } else {
        found.title
    };
    let advice = advice_for(found, entry.usage);
    PanelModel {
        headline: headline_line(entry, live),
        headline_ink: if live {
            Ink::Cyan
        } else {
            Ink::Blue
        },
        change: comparison_line(change_from(entry.usage, usage_before(entries, index))),
        bars: bars_at(entries, sample, now, plot, index),
        title: if live {
            title
        } else {
            plain("HISTORY · "@) + title
        },
        title_ink: tone_ink(found.tone),
        detail: if narrow {
            first_part(found.detail)
        } else {
            found.detail
        },
        cache: cache_line(entry.usage),
        cache_ink: cache_ink(entry.usage),
        action: if narrow {
            advice.short_words()
        } else {
            advice.words()
        },
        action_ink: if live {
            Ink::White
        } else {
            Ink::Muted
        },
    }
}

/// The line about the cached part of the prompt, its color, and whether it tells of
/// little reuse.
fn tell_cache(usage: &RequestUsage) -> (r: (Vec<Piece>, Ink, bool))
    ensures
        r.0.deep_view() == cache_line(usage.deep_view()),
        r.1 == cache_ink(usage.deep_view()),
        r.2 == little_reuse(usage.deep_view()),
{
    let cached = match keep_plausible(usage.cached, usage.prompt) {
        Some(cached) => cached,
        None => return (plain_line("CACHE — not reported"), Ink::Muted, false),
    };
    let little = is_below_a_fifth(cached, usage.prompt) && usage.prompt >= REUSE_FLOOR;
    let ink = if is_from_four_fifths(cached, usage.prompt) {
        Ink::Green
    } else if little {
        Ink::Yellow
    } else {
        Ink::Cyan
    };
    let mut text = "% · ".to_owned();
    push_grouped(&mut text, usage.prompt - cached);
    text.append(" uncached");
    let mut line = blank();
    push_words(&mut line, "CACHE ");
    push_piece(&mut line, Piece::Share { part: cached, whole: usage.prompt });
    push_words(&mut line, text.as_str());
    assert(line.deep_view() =~= cache_line(usage.deep_view()));
    (line, ink, little)
}

fn draw_bars(
    history: &History,
    sample: &Sample,
    now: Timestamp,
    plot: Rect,
    index: usize,
) -> (r: Vec<Bar>)
    requires
        plot.fits(),
        index < history.deep_view().entries.len(),
    ensures
        r.deep_view() == bars_at(
            history.deep_view().entries,
            sample.deep_view(),
            now,
            plot,
            index as int,
        ),
{
    let ghost entries = history.deep_view().entries;
    let ghost wanted = bars_at(entries, sample.deep_view(), now, plot, index as int);
    let mut bars: Vec<Bar> = Vec::new();
    if plot.width == 0 || plot.height == 0 {
        assert(bars.deep_view() =~= wanted);
        return bars;
    }
    let start = first_bar_index(index, plot.width);
    let mut i = start;
    assert(bars.deep_view() =~= wanted.take(0));
    while i <= index
        invariant
            start <= i <= index + 1,
            start == first_bar(index as int, plot.width),
            plot.fits(),
            plot.width > 0,
            plot.height > 0,
            entries == history.deep_view().entries,
            index < entries.len(),
            entries.len() == history.entries@.len(),
            wanted == bars_at(entries, sample.deep_view(), now, plot, index as int),
            wanted.len() == index + 1 - start,
            bars.deep_view() == wanted.take(i - start),
        decreases index + 1 - i,
    {
        let ghost before = bars.deep_view();
        assert(history.entries.len() == history.entries@.len());
        let bar = draw_bar(history, sample, now, plot, index, i);
        assert(bar.deep_view() == wanted[i - start]);
        bars.push(bar);
        assert(bars.deep_view() =~= before.push(bar.deep_view()));
        i += 1;
        assert(bars.deep_view() =~= wanted.take(i - start));
    }
    assert(wanted.take(wanted.len() as int) =~= wanted);
    bars
}

/// Draws the panel of a history that holds requests.
fn draw_panel(
    history: &History,
    sample: &Sample,
    scroll: usize,
    now: Timestamp,
    plot: Rect,
    side: u16,
) -> (r: Panel)
    requires
        history.deep_view().entries.len() > 0,
        plot.fits(),
    ensures
        r.deep_view() == panel_at(
            history.deep_view().entries,
            sample.deep_view(),
            now,
            plot,
            side,
            selection(history.deep_view().entries.len(), scroll as nat),
        ),
{
    let index = selected_index(history, scroll);
    let ghost entries = history.deep_view().entries;
    let entry = &history.entries[index];
    assert(entries[index as int] == entry.deep_view());
    let previous: Option<&Entry> = if index > 0 {
        assert(entries[index - 1] == history.entries@[index - 1].deep_view());
        Some(&history.entries[index - 1])
    } else {
        None
    };
    let live = is_live(entry, sample, now);
    let found = insight(history, index);
    let (cache, cache_ink, little) = tell_cache(&entry.usage);
    let advice = if little {
        Advice::CheckReuse
    } else {
        found.action
    };
    let narrow = side < WIDE_SIDE;
    let (short_title, detail, action) = if narrow {
        (
            to_opening(&found.title),
            to_first_part(found.detail.as_str()),
            advice.short().to_owned(),
        )
    } else {
        (found.title, found.detail, advice.text().to_owned())
    };
    let title = if live {
        short_title
    } else {
        joined(plain_line("HISTORY · "), short_title)
    };
    Panel {
        headline: headline(entry, live),
        headline_ink: if live {
            Ink::Cyan
        } else {
            Ink::Blue
        },
        change: comparison(&entry.usage, previous),
        bars: draw_bars(history, sample, now, plot, index),
        title,
        title_ink: match found.tone {
            Tone::Muted => Ink::Muted,
            Tone::Cyan => Ink::Cyan,
            Tone::Yellow => Ink::Yellow,
        },
        detail,
        cache,
        cache_ink,
        action,
        action_ink: if live {
            Ink::White
        } else {
            Ink::Muted
        },
    }
}

/// What stands in the prompt load panel: a line, while there is no request, or else the
/// chart with what it says.
#[derive(Debug)]
pub enum PromptLoad {
    Empty(&'static str),
    Shown(Panel),
}

/// The content of a [`PromptLoad`].
pub enum PromptLoadModel {
    Empty(Seq<char>),
    Shown(PanelModel),
}

impl DeepView for PromptLoad {
    type V = PromptLoadModel;

    open spec fn deep_view(&self) -> PromptLoadModel {
        match self {
            PromptLoad::Empty(text) => PromptLoadModel::Empty(text@),
            PromptLoad::Shown(panel) => PromptLoadModel::Shown(panel.deep_view()),
        }
    }
}

/// What stands in the prompt load panel after scrolling back by `scroll` requests.
pub open spec fn prompt_load(
    entries: Seq<EntryModel>,
    sample: SampleModel,
    scroll: nat,
    now: Timestamp,
    plot: Rect,
    side: u16,
) -> PromptLoadModel {
    if entries.len() == 0 {
        PromptLoadModel::Empty(waiting_words(sample))
    } else {
        PromptLoadModel::Shown(
            panel_at(entries, sample, now, plot, side, selection(entries.len(), scroll)),
        )
    }
}

/// Draws the prompt load panel for the request that is selected after scrolling back
/// by `scroll`. The chart has the place `plot`, and the text beside it is `side` columns
/// wide.
pub fn draw(
    history: &History,
    sample: &Sample,
    scroll: usize,
    now: Timestamp,
    plot: Rect,
    side: u16,
) -> (r: PromptLoad)
    requires
        plot.fits(),
    ensures
        r.deep_view() == prompt_load(
            history.deep_view().entries,
            sample.deep_view(),
            scroll as nat,
            now,
            plot,
            side,
        ),
{
    if history.len() == 0 {
        PromptLoad::Empty(empty_text(sample))
    } else {
        PromptLoad::Shown(draw_panel(history, sample, scroll, now, plot, side))
    }
}

} // verus!
