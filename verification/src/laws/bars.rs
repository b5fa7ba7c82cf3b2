//! What the prompt load panel shows: the size, place and colors of its bars, and the text
//! beside them.
use crate::canvas::{Ink, Rect};
use crate::operator_charts::div_up;
use crate::phrase::PieceModel;
use crate::prompt_panel::{
    bar_cached, bar_total, eighths, heading_rows, panel_at, prompt_load, Block, PanelModel,
    PromptLoadModel,
};
use crate::providers::UsageModel;
use crate::request_dashboard::{
    assessment, change_from, comparison_line, insight_at, is_jump, live_at, Advice, Assessment,
    EntryModel, Tone,
};
use crate::reuse::{below_a_fifth, from_four_fifths};
use crate::sample::SampleModel;
use crate::text::{at_dot, decimal, first_part, grouped};
use crate::time::Timestamp;
use vstd::prelude::*;

verus! {

/// Whether a cached count is reported that could be part of the prompt.
pub open spec fn cache_known(usage: UsageModel) -> bool {
    usage.cached matches Some(n) && n <= usage.prompt
}

/// A prompt count as far as the chart reaches.
pub open spec fn within_chart(prompt: u64) -> int {
    if prompt <= 65_536 {
        prompt as int
    } else {
        65_536
    }
}

/// With a reported cached count, the height of a bar is the least number of whole rows that
/// is not below the prompt's share of the chart. Without one it is the greatest number of
/// eighths that is not above it.
pub proof fn bar_heights_are_in_proportion(usage: UsageModel, rows: nat)
    ensures
        cache_known(usage) ==> {
            let total = bar_total(usage, rows);
            &&& total % 8 == 0
            &&& within_chart(usage.prompt) * rows <= (total / 8) * 65_536
            &&& (total / 8) * 65_536 < within_chart(usage.prompt) * rows + 65_536
        },
        !cache_known(usage) ==> {
            let total = bar_total(usage, rows);
            &&& total * 65_536 <= within_chart(usage.prompt) * rows * 8
            &&& within_chart(usage.prompt) * rows * 8 < (total + 1) * 65_536
        },
{
    let n = within_chart(usage.prompt) * rows;
    assert(n >= 0) by (nonlinear_arith)
        requires
            n == within_chart(usage.prompt) * rows,
            within_chart(usage.prompt) >= 0,
            rows >= 0,
    ;
}

/// With a reported cached count, no smaller number of rows than that of a bar would hold
/// the prompt.
pub proof fn bars_with_parts_are_the_least_that_hold(usage: UsageModel, rows: nat, h: int)
    requires
        cache_known(usage),
        0 <= h,
        h * 65_536 >= within_chart(usage.prompt) * rows,
    ensures
        bar_total(usage, rows) <= h * 8,
{
    bar_heights_are_in_proportion(usage, rows);
}

/// The cached part of a bar is to the bar as the cached count to the prompt, in whole
/// eighths. There is none without a reported count.
pub proof fn cached_parts_are_in_proportion(usage: UsageModel, total: nat)
    ensures
        cache_known(usage) && usage.prompt > 0 ==> {
            let part = bar_cached(usage, total);
            &&& part * usage.prompt <= usage.cached->0 * total
            &&& usage.cached->0 * total < (part + 1) * usage.prompt
        },
        !cache_known(usage) ==> bar_cached(usage, total) == 0,
{
    if cache_known(usage) && usage.prompt > 0 {
        let n = (usage.cached->0 as nat * total) as int;
        let p = usage.prompt as int;
        vstd::arithmetic::div_mod::lemma_fundamental_div_mod(n, p);
        vstd::arithmetic::div_mod::lemma_mod_bound(n, p);
        let q = n / p;
        assert(q * p <= n < (q + 1) * p) by (nonlinear_arith)
            requires
                n == p * q + n % p,
                0 <= n % p < p,
        ;
    }
}

/// Glyphs fill their cells by eighths from below.
pub proof fn glyphs_fill_by_eighths(n: nat)
    requires
        n <= 8,
    ensures
        n > 0 ==> eighths(n) as int == 0x2580 + n,
        n == 0 ==> eighths(n) == ' ',
{
}

/// The request whose bar stands at a place, the last one being that of `index`.
pub open spec fn shown_entry(
    entries: Seq<EntryModel>,
    panel: PanelModel,
    index: int,
    k: int,
) -> EntryModel {
    entries[index + 1 - panel.bars.len() + k]
}

/// There are as many bars as there is room for, up to thirty-two and to the requests up to
/// the selected one; the last bar is that of the selected one.
pub proof fn bars_fill_the_room(
    entries: Seq<EntryModel>,
    sample: SampleModel,
    now: Timestamp,
    plot: Rect,
    side: u16,
    index: int,
)
    requires
        0 <= index < entries.len(),
    ensures
        ({
            let n = panel_at(entries, sample, now, plot, side, index).bars.len();
            if plot.width == 0 || plot.height == 0 {
                n == 0
            } else {
                &&& 1 <= n <= 32
                &&& n <= index + 1
                &&& n > 1 ==> 6 * n <= plot.width - 1
                &&& n < 32 && n < index + 1 ==> 6 * (n + 1) > plot.width - 1
            }
        }),
{
}

/// The color of a bar: cyan while its request is live, else blue.
pub open spec fn own_ink(entry: EntryModel, sample: SampleModel, now: Timestamp) -> Ink {
    if live_at(entry, sample, now) {
        Ink::Cyan
    } else {
        Ink::Blue
    }
}

/// Bars stand side by side, six columns apart and up to five columns wide, in the order of
/// their requests. Above each stands its prompt count, or an arrow where that is beyond the
/// chart; below it its number, after a mark of whether it is selected and of whether it is
/// a jump.
pub proof fn bars_stand_in_order(
    entries: Seq<EntryModel>,
    sample: SampleModel,
    now: Timestamp,
    plot: Rect,
    side: u16,
    index: int,
    k: int,
)
    requires
        0 <= index < entries.len(),
        plot.fits(),
        0 <= k < panel_at(entries, sample, now, plot, side, index).bars.len(),
    ensures
        ({
            let panel = panel_at(entries, sample, now, plot, side, index);
            let bar = panel.bars[k];
            let entry = shown_entry(entries, panel, index, k);
            let place = index + 1 - panel.bars.len() + k;
            let jump = place > 0 && is_jump(entry.usage, Some(entries[place - 1].usage));
            let last = k == panel.bars.len() - 1;
            &&& bar.x == plot.x + 6 * k
            &&& bar.width <= 5
            &&& bar.x + bar.width <= plot.x + plot.width
            &&& bar.width < 5 ==> bar.x + bar.width == plot.x + plot.width
            &&& bar.value.y == plot.y
            &&& bar.value.text == if entry.usage.prompt > 65_536 {
                PieceModel::Words("↑"@)
            } else {
                PieceModel::Tokens(entry.usage.prompt)
            }
            &&& bar.value.ink == if jump {
                Ink::Yellow
            } else {
                own_ink(entry, sample, now)
            }
            &&& plot.height >= 2 ==> (bar.tag matches Some(tag) && {
                &&& tag.y == plot.y + plot.height - 1
                &&& tag.ink == if jump {
                    Ink::Yellow
                } else {
                    Ink::Muted
                }
                &&& last && jump ==> tag.text == PieceModel::Words(
                    "▶!"@ + decimal(entry.number as nat),
                )
                &&& last && !jump ==> tag.text == PieceModel::Words(
                    "▶"@ + decimal(entry.number as nat),
                )
                &&& !last && jump ==> tag.text == PieceModel::Words(
                    "!"@ + decimal(entry.number as nat),
                )
                &&& !last && !jump ==> tag.text == PieceModel::Words(
                    "#"@ + decimal(entry.number as nat),
                )
            })
            &&& plot.height < 2 ==> bar.tag is None && bar.blocks.len() == 0
        }),
{
    bars_fill_the_room(entries, sample, now, plot, side, index);
    if plot.height < 2 {
        let panel = panel_at(entries, sample, now, plot, side, index);
        let usage = shown_entry(entries, panel, index, k).usage;
        crate::prompt_panel::lemma_total(usage, 0);
        assert(bar_total(usage, 0) == 0);
    }
}

proof fn lemma_bar(
    entries: Seq<EntryModel>,
    sample: SampleModel,
    now: Timestamp,
    plot: Rect,
    side: u16,
    index: int,
    k: int,
)
    requires
        0 <= index < entries.len(),
        plot.height >= 2,
        0 <= k < panel_at(entries, sample, now, plot, side, index).bars.len(),
    ensures
        ({
            let panel = panel_at(entries, sample, now, plot, side, index);
            let entry = shown_entry(entries, panel, index, k);
            panel.bars[k].blocks == crate::prompt_panel::bar_blocks(
                entry.usage,
                plot,
                own_ink(entry, sample, now),
            )
        }),
{
}

/// The bar of a request with a reported cached count has the least number of rows that
/// holds its prompt's share of the chart. From below, in eighths of a row, it is green as
/// far as the cached count's share of it reaches, and of its own color above.
pub proof fn bars_with_parts_show_both(
    entries: Seq<EntryModel>,
    sample: SampleModel,
    now: Timestamp,
    plot: Rect,
    side: u16,
    index: int,
    k: int,
    part: int,
    r: int,
)
    requires
        0 <= index < entries.len(),
        plot.fits(),
        plot.height >= 2,
        0 <= k < panel_at(entries, sample, now, plot, side, index).bars.len(),
        cache_known(
            shown_entry(
                entries,
                panel_at(entries, sample, now, plot, side, index),
                index,
                k,
            ).usage,
        ),
    ensures
        ({
            let panel = panel_at(entries, sample, now, plot, side, index);
            let blocks = panel.bars[k].blocks;
            let entry = shown_entry(entries, panel, index, k);
            let prompt = entry.usage.prompt;
            let cached = entry.usage.cached->0;
            let ink = own_ink(entry, sample, now);
            let rows = plot.height - 2;
            &&& within_chart(prompt) * rows <= blocks.len() * 65_536
            &&& blocks.len() * 65_536 < within_chart(prompt) * rows + 65_536
            &&& 0 <= r < blocks.len() ==> blocks[r].y == plot.y + plot.height - 2 - r
            &&& 0 <= r < blocks.len() && part * prompt <= cached * (8 * blocks.len()) && cached * (
            8 * blocks.len()) < (part + 1) * prompt ==> {
                &&& 8 * (r + 1) <= part ==> blocks[r] == (Block {
                    y: blocks[r].y,
                    glyph: '█',
                    ink: Ink::Green,
                    ground: Ink::Panel,
                })
                &&& part <= 8 * r ==> blocks[r] == (Block {
                    y: blocks[r].y,
                    glyph: '█',
                    ink,
                    ground: Ink::Panel,
                })
                &&& 8 * r < part < 8 * (r + 1) ==> {
                    &&& blocks[r].glyph as int == 0x2580 + part - 8 * r
                    &&& blocks[r].ink == Ink::Green
                    &&& blocks[r].ground == ink
                }
            }
        }),
{
    let panel = panel_at(entries, sample, now, plot, side, index);
    let blocks = panel.bars[k].blocks;
    let entry = shown_entry(entries, panel, index, k);
    let usage = entry.usage;
    let rows = (plot.height - 2) as nat;
    let total = bar_total(usage, rows);
    lemma_bar(entries, sample, now, plot, side, index, k);
    bar_heights_are_in_proportion(usage, rows);
    crate::prompt_panel::lemma_total(usage, rows);
    cached_parts_are_in_proportion(usage, total);
    assert(div_up(total, 8) == total / 8);
    assert(blocks.len() == total / 8);
    let green = bar_cached(usage, total) as int;
    let p = usage.prompt as int;
    let c = usage.cached->0 * total;
    assert(8 * blocks.len() == total);
    if 0 <= r < blocks.len() && part * p <= usage.cached->0 * (8 * blocks.len())
        && usage.cached->0 * (8 * blocks.len()) < (part + 1) * p {
        if p == 0 {
            assert(within_chart(usage.prompt) * rows == 0) by (nonlinear_arith)
                requires
                    within_chart(usage.prompt) == 0,
            ;
        } else {
            assert(part == green) by (nonlinear_arith)
                requires
                    p > 0,
                    part * p <= c < (part + 1) * p,
                    green * p <= c < (green + 1) * p,
            ;
        }
    }
}

/// The bar of a request without a reported cached count is of its own color throughout, in
/// full rows under a topmost one that is filled as far as the prompt's share of the chart
/// reaches in whole eighths.
pub proof fn bars_without_parts_are_plain(
    entries: Seq<EntryModel>,
    sample: SampleModel,
    now: Timestamp,
    plot: Rect,
    side: u16,
    index: int,
    k: int,
    r: int,
)
    requires
        0 <= index < entries.len(),
        plot.fits(),
        plot.height >= 2,
        0 <= k < panel_at(entries, sample, now, plot, side, index).bars.len(),
        !cache_known(
            shown_entry(
                entries,
                panel_at(entries, sample, now, plot, side, index),
                index,
                k,
            ).usage,
        ),
    ensures
        ({
            let panel = panel_at(entries, sample, now, plot, side, index);
            let blocks = panel.bars[k].blocks;
            let entry = shown_entry(entries, panel, index, k);
            let top = if blocks.len() == 0 {
                0
            } else {
                blocks.last().glyph as int - 0x2580
            };
            let total = if blocks.len() == 0 {
                0
            } else {
                8 * (blocks.len() - 1) + top
            };
            let share = within_chart(entry.usage.prompt) * (plot.height - 2) * 8;
            &&& blocks.len() > 0 ==> 1 <= top <= 8
            &&& total * 65_536 <= share < (total + 1) * 65_536
            &&& 0 <= r < blocks.len() ==> {
                &&& blocks[r].y == plot.y + plot.height - 2 - r
                &&& blocks[r].ink == own_ink(entry, sample, now)
                &&& blocks[r].ground == Ink::Panel
                &&& r < blocks.len() - 1 ==> blocks[r].glyph == '█'
            }
        }),
{
    let panel = panel_at(entries, sample, now, plot, side, index);
    let blocks = panel.bars[k].blocks;
    let entry = shown_entry(entries, panel, index, k);
    let usage = entry.usage;
    let rows = (plot.height - 2) as nat;
    let total = bar_total(usage, rows);
    lemma_bar(entries, sample, now, plot, side, index, k);
    bar_heights_are_in_proportion(usage, rows);
    crate::prompt_panel::lemma_total(usage, rows);
    if blocks.len() > 0 {
        let n = (total - 8 * (blocks.len() - 1)) as nat;
        glyphs_fill_by_eighths(n);
    }
}

proof fn lemma_no_dot(s: Seq<char>)
    requires
        forall|i: int| 0 <= i < s.len() ==> s[i] != '·',
    ensures
        first_part(s) == s,
    decreases s.len(),
{
    if s.len() > 0 {
        assert(!at_dot(s));
        lemma_no_dot(s.drop_first());
        assert(seq![s[0]] + s.drop_first() =~= s);
    }
}

/// The first part of a label ends before its first dot; a label without one is its own
/// first part.
pub proof fn first_parts_end_at_the_dot(a: Seq<char>, b: Seq<char>)
    requires
        forall|i: int| 0 <= i < a.len() ==> a[i] != '·',
    ensures
        first_part(a) == a,
        first_part(a + " · "@ + b) == a,
    decreases a.len(),
{
    reveal_strlit(" · ");
    lemma_no_dot(a);
    let s = a + " · "@ + b;
    if a.len() == 0 {
        assert(at_dot(s));
    } else {
        assert(s[0] == a[0]);
        if a.len() == 1 {
            assert(s[1] == ' ');
        } else {
            assert(s[1] == a[1]);
        }
        assert(!at_dot(s));
        first_parts_end_at_the_dot(a.drop_first(), b);
        assert(s.drop_first() =~= a.drop_first() + " · "@ + b);
        assert(seq![a[0]] + a.drop_first() =~= a);
    }
}

/// The title of a judgement in a narrow panel.
pub open spec fn narrow_title(found: Assessment) -> Seq<char> {
    match found {
        Assessment::Jump => "PROMPT JUMP"@,
        Assessment::Large { .. } => "LARGE VS RECENT"@,
        Assessment::Smaller => "SMALLER INPUT"@,
        Assessment::Typical => "TYPICAL INPUT"@,
        Assessment::Baseline => "BASELINE SAMPLING"@,
    }
}

proof fn lemma_narrow_title(entries: Seq<EntryModel>, index: int)
    ensures
        crate::phrase::opening(insight_at(entries, index).title) == seq![
            PieceModel::Words(narrow_title(assessment(entries, index))),
        ],
{
    reveal_strlit("PROMPT JUMP · input increased");
    reveal_strlit("PROMPT JUMP");
    reveal_strlit("LARGE VS RECENT · ");
    reveal_strlit("LARGE VS RECENT");
    reveal_strlit("SMALLER INPUT · below recent median");
    reveal_strlit("SMALLER INPUT");
    reveal_strlit("TYPICAL INPUT · near recent median");
    reveal_strlit("TYPICAL INPUT");
    reveal_strlit("BASELINE SAMPLING");
    reveal_strlit(" · ");
    reveal_strlit("input increased");
    reveal_strlit("below recent median");
    reveal_strlit("near recent median");
    assert("PROMPT JUMP · input increased"@ =~= "PROMPT JUMP"@ + " · "@ + "input increased"@);
    assert("LARGE VS RECENT · "@ =~= "LARGE VS RECENT"@ + " · "@ + Seq::<char>::empty());
    assert("SMALLER INPUT · below recent median"@ =~= "SMALLER INPUT"@ + " · "@
        + "below recent median"@);
    assert("TYPICAL INPUT · near recent median"@ =~= "TYPICAL INPUT"@ + " · "@
        + "near recent median"@);
    first_parts_end_at_the_dot("PROMPT JUMP"@, "input increased"@);
    first_parts_end_at_the_dot("LARGE VS RECENT"@, Seq::<char>::empty());
    first_parts_end_at_the_dot("SMALLER INPUT"@, "below recent median"@);
    first_parts_end_at_the_dot("TYPICAL INPUT"@, "near recent median"@);
    first_parts_end_at_the_dot("BASELINE SAMPLING"@, Seq::<char>::empty());
}

/// The text beside the bars is of the selected request: its number, its exact prompt count,
/// its state and its age, the comparison with the one before it, and what the history shows
/// of it, in full from forty-eight columns on.
pub proof fn panel_tells_of_the_selected_request(
    entries: Seq<EntryModel>,
    sample: SampleModel,
    now: Timestamp,
    plot: Rect,
    side: u16,
    index: int,
)
    requires
        0 <= index < entries.len(),
    ensures
        ({
            let panel = panel_at(entries, sample, now, plot, side, index);
            let entry = entries[index];
            let live = live_at(entry, sample, now);
            let insight = insight_at(entries, index);
            let lead = "#"@ + decimal(entry.number as nat) + " · "@ + grouped(
                entry.usage.prompt as nat,
            ) + " tokens · "@;
            let previous = if index > 0 {
                Some(entries[index - 1].usage)
            } else {
                None
            };
            let title = if side >= 48 {
                insight.title
            } else {
                seq![PieceModel::Words(narrow_title(assessment(entries, index)))]
            };
            &&& live ==> panel.headline == seq![
                PieceModel::Words(lead + "LIVE"@ + " · "@),
                PieceModel::Age(entry.last_seen),
            ]
            &&& !live && entry.usage.completed ==> panel.headline == seq![
                PieceModel::Words(lead + "REPORTED"@ + " · "@),
                PieceModel::Age(entry.last_seen),
            ]
            &&& !live && !entry.usage.completed ==> panel.headline == seq![
                PieceModel::Words(lead + "LAST SEEN"@ + " · "@),
                PieceModel::Age(entry.last_seen),
            ]
            &&& panel.headline_ink == own_ink(entry, sample, now)
            &&& panel.change == comparison_line(change_from(entry.usage, previous))
            &&& live ==> panel.title == title
            &&& !live ==> panel.title == seq![PieceModel::Words("HISTORY · "@)] + title
            &&& panel.title_ink == (match insight.tone {
                Tone::Muted => Ink::Muted,
                Tone::Cyan => Ink::Cyan,
                Tone::Yellow => Ink::Yellow,
            })
            &&& side >= 48 ==> panel.detail == insight.detail
            &&& side < 48 ==> panel.detail == first_part(insight.detail)
            &&& panel.action_ink == if live {
                Ink::White
            } else {
                Ink::Muted
            }
        }),
{
    lemma_narrow_title(entries, index);
}

/// What is cached of a prompt, and what is not, is told with a reported count alone. The
/// advice is to check the reuse of a prompt from 4096 tokens on of which less than a fifth
/// was cached; else it goes by the judgement. The color tells little, some and much reuse.
pub proof fn panel_tells_what_was_reused(
    entries: Seq<EntryModel>,
    sample: SampleModel,
    now: Timestamp,
    plot: Rect,
    side: u16,
    index: int,
)
    requires
        0 <= index < entries.len(),
    ensures
        ({
            let panel = panel_at(entries, sample, now, plot, side, index);
            let usage = entries[index].usage;
            let prompt = usage.prompt;
            let cached = usage.cached->0;
            let known = cache_known(usage);
            let little = known && below_a_fifth(cached, prompt) && prompt >= 4096;
            let advice = if little {
                Advice::CheckReuse
            } else {
                insight_at(entries, index).action
            };
            &&& known ==> panel.cache == seq![
                PieceModel::Words("CACHE "@),
                PieceModel::Share { part: cached, whole: prompt },
                PieceModel::Words("% · "@ + grouped((prompt - cached) as nat) + " uncached"@),
            ]
            &&& !known ==> panel.cache == seq![PieceModel::Words("CACHE — not reported"@)]
            &&& panel.cache_ink == if !known {
                Ink::Muted
            } else if from_four_fifths(cached, prompt) {
                Ink::Green
            } else if little {
                Ink::Yellow
            } else {
                Ink::Cyan
            }
            &&& side >= 48 ==> panel.action == advice.words()
            &&& side < 48 ==> panel.action == advice.short_words()
        }),
{
}

/// Up to two to the power fifty-three, what the panel tells of the reuse goes by the counts
/// exactly.
pub proof fn reuse_is_told_by_the_counts(
    entries: Seq<EntryModel>,
    sample: SampleModel,
    now: Timestamp,
    plot: Rect,
    side: u16,
    index: int,
)
    requires
        0 <= index < entries.len(),
        entries[index].usage.prompt < 0x20_0000_0000_0000,
        cache_known(entries[index].usage),
    ensures
        ({
            let panel = panel_at(entries, sample, now, plot, side, index);
            let prompt = entries[index].usage.prompt;
            let cached = entries[index].usage.cached->0;
            let much = prompt > 0 && 5 * cached >= 4 * prompt;
            let little = 5 * cached < prompt && prompt >= 4096;
            &&& panel.cache_ink == Ink::Green <==> much
            &&& panel.cache_ink == Ink::Yellow <==> little
            &&& panel.cache_ink == Ink::Cyan <==> !much && !little
            &&& little && side >= 48 ==> panel.action
                == "For repeating prompts, check prefix reuse."@
            &&& little && side < 48 ==> panel.action == "Repeating input? Check reuse."@
        }),
{
    let usage = entries[index].usage;
    crate::laws::requests::shares_are_judged_exactly(usage.cached->0, usage.prompt);
}

/// Scrolling back by some requests shows the panel of the one so far before the last; of
/// the oldest one, where there are not so many. Without a request there is a line that
/// tells whether the provider would give counts.
pub proof fn scrolling_goes_back_from_the_last(
    entries: Seq<EntryModel>,
    sample: SampleModel,
    scroll: nat,
    now: Timestamp,
    plot: Rect,
    side: u16,
)
    ensures
        entries.len() == 0 ==> prompt_load(entries, sample, scroll, now, plot, side)
            == PromptLoadModel::Empty(
            if sample.llm_provider == "oMLX"@ || sample.llm_provider == "KoboldCpp"@ {
                "Waiting for per-request prompt counts."@
            } else {
                "No per-request counts received. Connect client usage to see prompt load."@
            },
        ),
        scroll < entries.len() ==> prompt_load(entries, sample, scroll, now, plot, side)
            == PromptLoadModel::Shown(
            panel_at(entries, sample, now, plot, side, entries.len() - 1 - scroll),
        ),
        0 < entries.len() <= scroll ==> prompt_load(entries, sample, scroll, now, plot, side)
            == PromptLoadModel::Shown(panel_at(entries, sample, now, plot, side, 0)),
{
}

/// The heading of a panel takes one row from a hundred and twenty columns on, else two.
pub proof fn wide_panels_have_one_heading_row(width: u16)
    ensures
        width >= 120 ==> heading_rows(width) == 1,
        width < 120 ==> heading_rows(width) == 2,
{
}

} // verus!
