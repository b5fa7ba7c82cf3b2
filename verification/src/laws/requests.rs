//! What tells requests apart, how they are written down, and what they are counted in.
use crate::double::{parsed_bits, unit, Double};
use crate::llama::{
    first_usable, gauges, line_value, metric_reading, metric_values, page_gauges, readings,
    whole_reading, LlamaMetrics,
};
use crate::laws::text::{metric_line_reads_back, one_word, words_are_parted_by_space};
use crate::providers::{canonical, journal_after, journal_line, UsageModel};
use crate::recent::newest;
use crate::reuse::{
    below_a_fifth, from_four_fifths, lemma_exact, FIFTH_STEPS, FOUR_FIFTHS_STEPS, MIDDLE,
};
use crate::text::{decimal, lines, lowered, words};
use crate::time::{fresh, Timestamp};
use vstd::prelude::*;

verus! {

/// A request is told by its identifier, its provider and its model, all three; requests
/// compare where the last two agree. Its key is the three, with null characters between.
pub proof fn requests_are_told_by_three_names(a: UsageModel, b: UsageModel)
    ensures
        a.same(b) <==> a.id == b.id && a.provider == b.provider && a.model == b.model,
        a.comparable(b) <==> a.provider == b.provider && a.model == b.model,
        a.same(b) ==> a.comparable(b),
        a.key() == a.provider + seq!['\0'] + a.model + seq!['\0'] + a.id,
{
    assert(a.key() =~= a.provider + seq!['\0'] + a.model + seq!['\0'] + a.id);
}

/// Some parts of a line, with dots between them.
pub open spec fn dotted(parts: Seq<Seq<char>>) -> Seq<char>
    decreases parts.len(),
{
    if parts.len() == 0 {
        Seq::empty()
    } else if parts.len() == 1 {
        parts[0]
    } else {
        dotted(parts.drop_last()) + " · "@ + parts.last()
    }
}

/// The parts of a journal line, in their order. What is unknown of the output is a dash;
/// what is unknown of the rest is left out.
pub open spec fn line_parts(request: UsageModel) -> Seq<Seq<char>> {
    let first = if request.completed {
        "reported"@ + " prompt "@ + decimal(request.prompt as nat)
    } else {
        "observed"@ + " prompt "@ + decimal(request.prompt as nat)
    };
    let output = match request.output {
        Some(n) => "out "@ + decimal(n as nat),
        None => "out "@ + "—"@,
    };
    let known = seq![first, output, request.provider, request.model, request.id];
    let cached = match request.cached {
        Some(n) => known.push("cached "@ + decimal(n as nat)),
        None => known,
    };
    match request.ttft_ms {
        Some(n) => cached.push("first token "@ + decimal(n as nat) + " ms (reported)"@),
        None => cached,
    }
}

/// A journal line is its parts, each from the field of its own, with dots between them.
pub proof fn journal_lines_show_their_parts(request: UsageModel)
    ensures
        request.summary() == dotted(line_parts(request)),
{
    reveal_strlit(" · out ");
    reveal_strlit(" · cached ");
    reveal_strlit(" · first token ");
    reveal_strlit(" · ");
    reveal_strlit("out ");
    reveal_strlit("cached ");
    reveal_strlit("first token ");
    let first = if request.completed {
        "reported"@ + " prompt "@ + decimal(request.prompt as nat)
    } else {
        "observed"@ + " prompt "@ + decimal(request.prompt as nat)
    };
    let output = match request.output {
        Some(n) => "out "@ + decimal(n as nat),
        None => "out "@ + "—"@,
    };
    let one = seq![first];
    let two = seq![first, output];
    let three = seq![first, output, request.provider];
    let four = seq![first, output, request.provider, request.model];
    let five = seq![first, output, request.provider, request.model, request.id];
    assert(two.drop_last() =~= one);
    assert(three.drop_last() =~= two);
    assert(four.drop_last() =~= three);
    assert(five.drop_last() =~= four);
    assert(" · out "@ =~= " · "@ + "out "@);
    assert(" · cached "@ =~= " · "@ + "cached "@);
    assert(" · first token "@ =~= " · "@ + "first token "@);
    assert(dotted(one) == first);
    assert(dotted(two) == first + " · "@ + output);
    assert(dotted(three) == dotted(two) + " · "@ + request.provider);
    assert(dotted(four) == dotted(three) + " · "@ + request.model);
    assert(dotted(five) == dotted(four) + " · "@ + request.id);
    let shown = crate::text::shown_count(request.output);
    let lead = first + " · out "@ + shown;
    assert(dotted(two) =~= lead);
    let head = lead + " · "@ + request.provider + " · "@ + request.model + " · "@ + request.id;
    assert(dotted(five) == head);
    let cached = match request.cached {
        Some(n) => five.push("cached "@ + decimal(n as nat)),
        None => five,
    };
    let middle = match request.cached {
        Some(n) => head + " · cached "@ + decimal(n as nat),
        None => head,
    };
    if let Some(n) = request.cached {
        assert(cached.drop_last() =~= five);
        assert(dotted(cached) =~= middle);
    }
    if let Some(n) = request.ttft_ms {
        let part = "first token "@ + decimal(n as nat) + " ms (reported)"@;
        assert(cached.push(part).drop_last() =~= cached);
        assert(dotted(cached.push(part)) =~= middle + " · first token "@ + decimal(n as nat)
            + " ms (reported)"@);
    }
}

/// The journal gives a line exactly to what it does not remember: a request by its names
/// and its prompt count. It then remembers it last, and of the rest the newest.
pub proof fn journal_remembers_what_it_wrote(
    seen: Seq<(Seq<char>, u64)>,
    request: UsageModel,
    i: int,
)
    ensures
        journal_line(seen, request) is Some <==> !seen.contains((request.key(), request.prompt)),
        journal_line(seen, request) matches Some(line) ==> line == dotted(line_parts(request)),
        journal_line(seen, request) is None ==> journal_after(seen, request) == seen,
        journal_line(seen, request) is Some ==> {
            let after = journal_after(seen, request);
            &&& after.last() == (request.key(), request.prompt)
            &&& after.len() == if seen.len() < 512 {
                seen.len() + 1
            } else {
                512
            }
            &&& 0 <= i < after.len() - 1 ==> after[i] == seen[i + seen.len() + 1 - after.len()]
        },
{
    journal_lines_show_their_parts(request);
}

/// Of some items in a row the last ones are kept, as many as there may be, in their order.
pub proof fn what_came_last_is_kept<T>(items: Seq<T>, limit: nat, i: int)
    ensures
        newest(items, limit).len() == if items.len() <= limit {
            items.len()
        } else {
            limit
        },
        0 <= i < newest(items, limit).len() ==> newest(items, limit)[i] == items[i + items.len()
            - newest(items, limit).len()],
{
}

/// Each provider is known under one name; it is meant by that name and by its others, in
/// letters of any case, and no other name means a provider.
pub proof fn providers_are_known_by_their_names(name: Seq<char>)
    ensures
        canonical(name) == Some("oMLX"@) <== lowered(name) == "omlx"@,
        canonical(name) == Some("mlx-lm"@) <== lowered(name) == "mlx-lm"@ || lowered(name)
            == "mlx_lm.server"@ || lowered(name) == "mlx_lm"@,
        canonical(name) == Some("Ollama"@) <== lowered(name) == "ollama"@,
        canonical(name) == Some("llama.cpp"@) <== lowered(name) == "llama.cpp"@ || lowered(name)
            == "llama-server"@,
        canonical(name) == Some("LM Studio"@) <== lowered(name) == "lm studio"@ || lowered(name)
            == "lmstudio"@,
        canonical(name) == Some("KoboldCpp"@) <== lowered(name) == "koboldcpp"@,
        canonical(name) == Some("LocalAI"@) <== lowered(name) == "localai"@,
        canonical(name) is Some ==> seq![
            "omlx"@,
            "mlx-lm"@,
            "mlx_lm.server"@,
            "mlx_lm"@,
            "ollama"@,
            "llama.cpp"@,
            "llama-server"@,
            "lm studio"@,
            "lmstudio"@,
            "koboldcpp"@,
            "localai"@,
        ].contains(lowered(name)),
{
    reveal_strlit("omlx");
    reveal_strlit("mlx-lm");
    reveal_strlit("mlx_lm.server");
    reveal_strlit("mlx_lm");
    reveal_strlit("ollama");
    reveal_strlit("llama.cpp");
    reveal_strlit("llama-server");
    reveal_strlit("lm studio");
    reveal_strlit("lmstudio");
    reveal_strlit("koboldcpp");
    reveal_strlit("localai");
    let s = lowered(name);
    let names = seq![
        "omlx"@,
        "mlx-lm"@,
        "mlx_lm.server"@,
        "mlx_lm"@,
        "ollama"@,
        "llama.cpp"@,
        "llama-server"@,
        "lm studio"@,
        "lmstudio"@,
        "koboldcpp"@,
        "localai"@,
    ];
    assert(names[0] == "omlx"@ && names[1] == "mlx-lm"@ && names[2] == "mlx_lm.server"@ && names[3]
        == "mlx_lm"@ && names[4] == "ollama"@ && names[5] == "llama.cpp"@ && names[6]
        == "llama-server"@ && names[7] == "lm studio"@ && names[8] == "lmstudio"@ && names[9]
        == "koboldcpp"@ && names[10] == "localai"@);
    assert("ollama"@[0] == 'o' && "mlx-lm"@[0] == 'm' && "mlx_lm"@[0] == 'm');
    assert("llama.cpp"@[1] == 'l' && "lm studio"@[1] == 'm' && "koboldcpp"@[1] == 'o');
    assert("omlx"@.len() == 4 && "mlx-lm"@.len() == 6 && "mlx_lm.server"@.len() == 13);
}

/// An ASCII capital is lowered by its distance to the small letters; nothing else changes.
pub proof fn only_capitals_are_lowered(s: Seq<char>, i: int)
    requires
        0 <= i < s.len(),
    ensures
        lowered(s).len() == s.len(),
        65 <= s[i] as nat <= 90 ==> lowered(s)[i] as nat == s[i] as nat + 32,
        !(65 <= s[i] as nat <= 90) ==> lowered(s)[i] == s[i],
{
}

/// An observation is fresh for five seconds from its time on; what was not observed never
/// is. A time in seconds is so many thousand million nanoseconds.
pub proof fn observations_are_fresh_for_five_seconds(at: Timestamp, now: Timestamp, seconds: u64)
    ensures
        fresh(Some(at), now) <==> at.nanos <= now.nanos <= at.nanos + 5_000_000_000,
        !fresh(None, now),
        Timestamp::of_seconds(seconds).nanos == seconds * 1_000_000_000,
{
    assert(0 <= seconds * 1_000_000_000 <= u64::MAX * 1_000_000_000) by (nonlinear_arith)
        requires
            0 <= seconds <= u64::MAX,
    ;
}

/// A count is read of a gauge exactly if the gauge is that whole number.
pub proof fn counts_are_whole_numbers(double: Double, n: u64)
    ensures
        whole_reading(Some(double)) == Some(n) <==> double.magnitude() == n * unit(),
        whole_reading(None) is None,
{
    vstd::arithmetic::power2::lemma_pow2_pos(1074);
    let m = double.magnitude() as int;
    let u = unit() as int;
    vstd::arithmetic::div_mod::lemma_fundamental_div_mod(m, u);
    if m == n * u {
        vstd::arithmetic::div_mod::lemma_fundamental_div_mod_converse(m, u, n as int, 0);
    }
    if whole_reading(Some(double)) == Some(n) {
        assert(m == n * u) by (nonlinear_arith)
            requires
                m == u * (m / u) + m % u,
                m % u == 0,
                m / u == n,
        ;
    }
}

/// The first reading that is usable counts; those before it and after it do not matter.
pub proof fn first_usable_reading_counts(
    before: Seq<Option<u64>>,
    bits: u64,
    after: Seq<Option<u64>>,
)
    requires
        forall|i: int|
            0 <= i < before.len() ==> ((#[trigger] before[i]) matches Some(b) ==> !(Double {
                bits: b,
            }).usable()),
    ensures
        first_usable(before) is None,
        (Double { bits }).usable() ==> first_usable(before.push(Some(bits)) + after) == Some(
            Double { bits },
        ),
    decreases before.len(),
{
    let all = before.push(Some(bits)) + after;
    if before.len() > 0 {
        let rest = before.drop_first();
        assert forall|i: int| 0 <= i < rest.len() implies ((#[trigger] rest[i]) matches Some(b)
            ==> !(Double { bits: b }).usable()) by {
            assert(rest[i] == before[i + 1]);
        }
        first_usable_reading_counts(rest, bits, after);
        assert(all.drop_first() =~= rest.push(Some(bits)) + after);
        assert(all[0] == before[0]);
    }
}

/// Each gauge of a metrics page stands under a name of its own: a page with the line of one
/// gives that one and no other.
pub proof fn gauges_stand_under_their_names(value: Seq<char>, bits: u64)
    requires
        one_word(value),
        parsed_bits(value) == Some(bits),
        (Double { bits }).usable(),
    ensures
        page_gauges("llamacpp:predicted_tokens_seconds"@.push(' ') + value) == (LlamaMetrics {
            generation: Some(Double { bits }),
            prefill: None,
            active: None,
            waiting: None,
        }),
        page_gauges("llamacpp:prompt_tokens_seconds"@.push(' ') + value) == (LlamaMetrics {
            generation: None,
            prefill: Some(Double { bits }),
            active: None,
            waiting: None,
        }),
        page_gauges("llamacpp:requests_processing"@.push(' ') + value) == (LlamaMetrics {
            generation: None,
            prefill: None,
            active: whole_reading(Some(Double { bits })),
            waiting: None,
        }),
        page_gauges("llamacpp:requests_deferred"@.push(' ') + value) == (LlamaMetrics {
            generation: None,
            prefill: None,
            active: None,
            waiting: whole_reading(Some(Double { bits })),
        }),
{
    reveal_strlit("llamacpp:predicted_tokens_seconds");
    reveal_strlit("llamacpp:prompt_tokens_seconds");
    reveal_strlit("llamacpp:requests_processing");
    reveal_strlit("llamacpp:requests_deferred");
    let a = "llamacpp:predicted_tokens_seconds"@;
    let b = "llamacpp:prompt_tokens_seconds"@;
    let c = "llamacpp:requests_processing"@;
    let d = "llamacpp:requests_deferred"@;
    assert(a.len() == 33 && b.len() == 30 && c.len() == 28 && d.len() == 26);
    lemma_one_gauge(a, b, value, bits);
    lemma_one_gauge(a, c, value, bits);
    lemma_one_gauge(a, d, value, bits);
    lemma_one_gauge(b, a, value, bits);
    lemma_one_gauge(b, c, value, bits);
    lemma_one_gauge(b, d, value, bits);
    lemma_one_gauge(c, a, value, bits);
    lemma_one_gauge(c, b, value, bits);
    lemma_one_gauge(c, d, value, bits);
    lemma_one_gauge(d, a, value, bits);
    lemma_one_gauge(d, b, value, bits);
    lemma_one_gauge(d, c, value, bits);
}

proof fn lemma_one_gauge(name: Seq<char>, other: Seq<char>, value: Seq<char>, bits: u64)
    requires
        one_word(name),
        one_word(value),
        other != name,
        parsed_bits(value) == Some(bits),
        (Double { bits }).usable(),
    ensures
        metric_reading(name.push(' ') + value, name) == Some(Double { bits }),
        metric_reading(name.push(' ') + value, other) is None,
{
    metric_line_reads_back(name, value, other);
    let one = seq![value];
    assert(readings(one)[0] == Some(bits));
    assert(readings(Seq::<Seq<char>>::empty()) =~= Seq::empty());
}

/// Lines give values to a metric one after the other.
pub proof fn metric_values_follow_the_lines(
    lines: Seq<Seq<char>>,
    more: Seq<Seq<char>>,
    name: Seq<char>,
)
    ensures
        metric_values(lines + more, name) == metric_values(lines, name) + metric_values(more, name),
    decreases more.len(),
{
    if more.len() == 0 {
        assert(lines + more =~= lines);
        assert(metric_values(lines, name) + metric_values(more, name) =~= metric_values(
            lines,
            name,
        ));
    } else {
        metric_values_follow_the_lines(lines, more.drop_last(), name);
        assert((lines + more).drop_last() =~= lines + more.drop_last());
        assert(metric_values(lines + more, name) =~= metric_values(lines, name) + metric_values(
            more,
            name,
        ));
    }
}

/// Without a page there are no gauges.
pub proof fn no_page_has_no_gauges(text: Seq<char>)
    ensures
        gauges(None) is None,
        gauges(Some(text)) == Some(page_gauges(text)),
{
}

/// Counts that are doubles are judged exactly: less than a fifth, and at least four fifths.
pub proof fn shares_are_judged_exactly(part: u64, whole: u64)
    requires
        part < 0x20_0000_0000_0000,
        whole < 0x20_0000_0000_0000,
    ensures
        below_a_fifth(part, whole) <==> 5 * part < whole,
        from_four_fifths(part, whole) <==> whole > 0 && 5 * part >= 4 * whole,
{
    lemma_exact(part as nat);
    lemma_exact(whole as nat);
    assert(5 * MIDDLE == FIFTH_STEPS - 1);
    assert(FIFTH_STEPS == 4 * FOUR_FIFTHS_STEPS);
}

/// A line gives its second word as the value of the metric that its first word names,
/// whatever follows; a line of one word gives none.
pub proof fn metric_lines_give_their_second_word(
    name: Seq<char>,
    value: Seq<char>,
    rest: Seq<char>,
    other: Seq<char>,
)
    requires
        one_word(name),
        one_word(value),
    ensures
        line_value(name.push(' ') + (value.push(' ') + rest), name) == Some(value),
        other != name ==> line_value(name.push(' ') + (value.push(' ') + rest), other) is None,
        line_value(name, name) is None,
        metric_values(Seq::empty(), name) == Seq::<Seq<char>>::empty(),
{
    words_are_parted_by_space(value, ' ', rest);
    words_are_parted_by_space(name, ' ', value.push(' ') + rest);
    let found = words(name.push(' ') + (value.push(' ') + rest));
    assert(found == seq![name] + (seq![value] + words(rest)));
    assert(found[0] == name);
    assert(found[1] == value);
}

/// A metric's value is the first usable number among its texts, as they are parsed.
pub proof fn metrics_are_the_first_usable_number(text: Seq<char>, name: Seq<char>, i: int)
    ensures
        metric_reading(text, name) == first_usable(readings(metric_values(lines(text), name))),
        readings(metric_values(lines(text), name)).len() == metric_values(lines(text), name).len(),
        0 <= i < metric_values(lines(text), name).len() ==> readings(
            metric_values(lines(text), name),
        )[i] == parsed_bits(metric_values(lines(text), name)[i]),
{
}

} // verus!
