//! Numbers as they are written, and texts as they are taken apart.
use crate::llama::{line_value, metric_values};
use crate::text::{
    all_digits, before_mark, decimal, digit, digits_value, grouped, is_digit, is_space,
    lemma_before_mark, lemma_first_mark, lemma_word_len, lines, lower, lowered, pieces,
    shown_count, word_len, words,
};
use vstd::prelude::*;

verus! {

/// The characters that are no commas.
pub open spec fn no_comma() -> spec_fn(char) -> bool {
    |c: char| c != ','
}

/// A written number has digits only, and reads as the number.
pub proof fn decimal_reads_back(n: nat)
    ensures
        digits_value(decimal(n)) == n,
        decimal(n).len() > 0,
        all_digits(decimal(n)),
    decreases n,
{
    if n >= 10 {
        decimal_reads_back(n / 10);
        assert(decimal(n).drop_last() =~= decimal(n / 10));
        assert forall|i: int| 0 <= i < decimal(n).len() implies is_digit(
            #[trigger] decimal(n)[i],
        ) by {
            if i < decimal(n / 10).len() {
                assert(is_digit(decimal(n / 10)[i]));
            }
        }
    } else {
        assert(decimal(n).drop_last() =~= Seq::empty());
        assert(digits_value(Seq::<char>::empty()) == 0);
    }
}

/// Different numbers are written differently.
pub proof fn decimals_differ(a: nat, b: nat)
    requires
        decimal(a) == decimal(b),
    ensures
        a == b,
{
    decimal_reads_back(a);
    decimal_reads_back(b);
}

proof fn lemma_thousands(n: nat)
    requires
        n >= 1000,
    ensures
        decimal(n) == decimal(n / 1000).push(digit(n / 100 % 10)).push(digit(n / 10 % 10)).push(
            digit(n % 10),
        ),
{
    assert(decimal(n) == decimal(n / 10).push(digit(n % 10)));
    assert(decimal(n / 10) == decimal(n / 10 / 10).push(digit(n / 10 % 10)));
    assert(decimal(n / 10 / 10) == decimal(n / 10 / 10 / 10).push(digit(n / 10 / 10 % 10)));
    assert(n / 10 / 10 == n / 100);
    assert(n / 10 / 10 / 10 == n / 1000);
}

/// Commas only part the digits: without them a grouped number is the plain one.
pub proof fn grouping_keeps_the_digits(n: nat)
    ensures
        grouped(n).filter(no_comma()) == decimal(n),
    decreases n,
{
    if n < 1000 {
        decimal_reads_back(n);
        let s = decimal(n);
        assert forall|i: int| 0 <= i < s.len() implies no_comma()(#[trigger] s[i]) by {
            assert(is_digit(s[i]));
        }
        lemma_filter_all(s);
    } else {
        grouping_keeps_the_digits(n / 1000);
        lemma_thousands(n);
        let head = grouped(n / 1000);
        let a = head.push(',');
        let b = a.push(digit(n / 100 % 10));
        let c = b.push(digit(n / 10 % 10));
        let d = c.push(digit(n % 10));
        head.lemma_filter_push(',', no_comma());
        a.lemma_filter_push(digit(n / 100 % 10), no_comma());
        b.lemma_filter_push(digit(n / 10 % 10), no_comma());
        c.lemma_filter_push(digit(n % 10), no_comma());
    }
}

proof fn lemma_filter_all(s: Seq<char>)
    requires
        forall|i: int| 0 <= i < s.len() ==> no_comma()(#[trigger] s[i]),
    ensures
        s.filter(no_comma()) == s,
    decreases s.len(),
{
    if s.len() == 0 {
        assert(s.filter(no_comma()) =~= s);
    } else {
        let t = s.drop_last();
        assert forall|i: int| 0 <= i < t.len() implies no_comma()(#[trigger] t[i]) by {
            assert(no_comma()(s[i]));
        }
        lemma_filter_all(t);
        t.lemma_filter_push(s.last(), no_comma());
        assert(t.push(s.last()) =~= s);
        assert(no_comma()(s[s.len() - 1]));
    }
}

/// Different numbers are grouped differently.
pub proof fn grouped_numbers_differ(a: nat, b: nat)
    requires
        grouped(a) == grouped(b),
    ensures
        a == b,
{
    grouping_keeps_the_digits(a);
    grouping_keeps_the_digits(b);
    decimals_differ(a, b);
}

/// A grouped number has a comma exactly in every fourth place from its end.
pub proof fn commas_part_groups_of_three(n: nat)
    ensures
        forall|i: int|
            0 <= i < grouped(n).len() ==> (#[trigger] grouped(n)[i] == ',' <==> (grouped(n).len()
                - 1 - i) % 4 == 3),
        grouped(n).len() > 0,
        grouped(n)[0] != ',',
    decreases n,
{
    let s = grouped(n);
    if n < 1000 {
        decimal_reads_back(n);
        lemma_short(n);
        assert forall|i: int| 0 <= i < s.len() implies (#[trigger] s[i] == ',' <==> (s.len() - 1
            - i) % 4 == 3) by {
            assert(is_digit(s[i]));
        }
        assert(is_digit(s[0]));
    } else {
        commas_part_groups_of_three(n / 1000);
        let head = grouped(n / 1000);
        assert(s.len() == head.len() + 4);
        assert forall|i: int| 0 <= i < s.len() implies (#[trigger] s[i] == ',' <==> (s.len() - 1
            - i) % 4 == 3) by {
            if i < head.len() {
                assert(s[i] == head[i]);
            }
        }
        assert(s[0] == head[0]);
    }
}

proof fn lemma_short(n: nat)
    requires
        n < 1000,
    ensures
        decimal(n).len() <= 3,
{
    reveal_with_fuel(decimal, 3);
}

/// What is unknown does not read as any number, not even as zero.
pub proof fn unknown_reads_as_no_number(n: u64)
    ensures
        shown_count(None) != shown_count(Some(n)),
{
    reveal_strlit("—");
    decimal_reads_back(n as nat);
    assert(is_digit(decimal(n as nat)[0]));
    assert(!is_digit("—"@[0]));
}

/// Lowering a text a second time changes nothing.
pub proof fn lowering_is_final(s: Seq<char>)
    ensures
        lowered(lowered(s)) == lowered(s),
{
    assert forall|i: int| 0 <= i < s.len() implies #[trigger] lowered(lowered(s))[i] == lowered(
        s,
    )[i] by {
        assert(lower(lower(s[i])) == lower(s[i]));
    }
    assert(lowered(lowered(s)) =~= lowered(s));
}

/// Whether a text is one word.
pub open spec fn one_word(s: Seq<char>) -> bool {
    s.len() > 0 && forall|i: int| 0 <= i < s.len() ==> !is_space(#[trigger] s[i])
}

proof fn lemma_word_ends(s: Seq<char>, n: int)
    requires
        0 <= n <= s.len(),
        forall|i: int| 0 <= i < n ==> !is_space(#[trigger] s[i]),
        n < s.len() ==> is_space(s[n]),
    ensures
        word_len(s) == n,
{
    lemma_word_len(s);
    if word_len(s) < n {
        assert(!is_space(s[word_len(s) as int]));
    }
}

/// Two words with a space between them are read as those two words.
pub proof fn words_read_back(a: Seq<char>, b: Seq<char>)
    requires
        one_word(a),
        one_word(b),
    ensures
        words(a.push(' ') + b) == seq![a, b],
{
    let s = a.push(' ') + b;
    lemma_word_ends(s, a.len() as int);
    assert(s.take(a.len() as int) =~= a);
    let rest = s.skip(a.len() as int);
    assert(rest[0] == ' ');
    lemma_word_ends(rest, 0);
    assert(rest.drop_first() =~= b);
    lemma_word_ends(b, b.len() as int);
    assert(words(b) == seq![b]);
    assert(words(rest) == seq![b]);
    assert(words(s) =~= seq![a, b]);
}

/// A line of a metrics page that gives a metric a value is read back as that value, and
/// says nothing of any other metric.
pub proof fn metric_line_reads_back(name: Seq<char>, value: Seq<char>, other: Seq<char>)
    requires
        one_word(name),
        one_word(value),
        other != name,
    ensures
        metric_values(lines(name.push(' ') + value), name) == seq![value],
        metric_values(lines(name.push(' ') + value), other) == Seq::<Seq<char>>::empty(),
{
    let s = name.push(' ') + value;
    words_read_back(name, value);
    assert forall|i: int| 0 <= i < s.len() implies s[i] != '\n' by {
        if i < name.len() {
            assert(!is_space(name[i]));
        } else if i > name.len() {
            assert(!is_space(value[i - name.len() - 1]));
        }
    }
    lemma_first_mark(s, '\n', s.len() as int);
    assert(pieces(s, '\n') == seq![s]);
    assert(lines(s) =~= seq![s]);
    let rows = lines(s);
    assert(rows.drop_last() =~= Seq::empty());
    assert(line_value(rows.last(), name) == Some(value));
    assert(line_value(rows.last(), other) is None);
    assert(metric_values(rows.drop_last(), name) =~= Seq::empty());
    assert(metric_values(rows, name) =~= seq![value]);
    assert(metric_values(rows.drop_last(), other) =~= Seq::empty());
}

/// Words are parted by white space: a text before a space and one after it have their own
/// words, and a text without a space is one word.
pub proof fn words_are_parted_by_space(a: Seq<char>, c: char, b: Seq<char>)
    requires
        is_space(c),
    ensures
        words(a.push(c) + b) == words(a) + words(b),
        one_word(a) ==> words(a) == seq![a],
        words(Seq::empty()) == Seq::<Seq<char>>::empty(),
    decreases a.len(),
{
    let s = a.push(c) + b;
    if one_word(a) {
        lemma_word_ends(a, a.len() as int);
    }
    if a.len() == 0 {
        assert(s[0] == c);
        lemma_word_ends(s, 0);
        assert(s.drop_first() =~= b);
        assert(words(a) + words(b) =~= words(b));
    } else if is_space(a[0]) {
        assert(s[0] == a[0]);
        lemma_word_ends(s, 0);
        lemma_word_ends(a, 0);
        words_are_parted_by_space(a.drop_first(), c, b);
        assert(s.drop_first() =~= a.drop_first().push(c) + b);
    } else {
        lemma_word_len(a);
        let n = word_len(a) as int;
        assert forall|i: int| 0 <= i < n implies !is_space(#[trigger] s[i]) by {
            assert(s[i] == a[i]);
        }
        assert(is_space(s[n])) by {
            if n < a.len() {
                assert(s[n] == a[n]);
            } else {
                assert(s[n] == c);
            }
        }
        lemma_word_ends(s, n);
        assert(n > 0) by {
            if n == 0 {
                assert(is_space(a[0]));
            }
        }
        words_are_parted_by_space(a.skip(n), c, b);
        assert(s.skip(n) =~= a.skip(n).push(c) + b);
        assert(s.take(n) =~= a.take(n));
        if n >= a.len() {
            assert(a.take(n) =~= a);
            assert(a.skip(n) =~= Seq::empty());
            assert(words(s) =~= words(a) + words(b));
        } else {
            assert(words(s) =~= words(a) + words(b));
        }
    }
}

/// Pieces are parted by marks: what stands before the first mark is the first piece, and
/// without a mark there is one piece.
pub proof fn pieces_are_parted_by_marks<T>(a: Seq<T>, mark: T, b: Seq<T>)
    requires
        forall|i: int| 0 <= i < a.len() ==> #[trigger] a[i] != mark,
    ensures
        pieces(a, mark) == seq![a],
        pieces(a.push(mark) + b, mark) == seq![a] + pieces(b, mark),
{
    lemma_first_mark(a, mark, a.len() as int);
    let s = a.push(mark) + b;
    assert forall|i: int| 0 <= i < a.len() implies s[i] != mark by {
        assert(s[i] == a[i]);
    }
    lemma_first_mark(s, mark, a.len() as int);
    assert(s.take(a.len() as int) =~= a);
    assert(s.skip(a.len() as int + 1) =~= b);
}

/// A last piece is added by a mark and a text without one.
pub proof fn pieces_are_added_last<T>(a: Seq<T>, mark: T, b: Seq<T>)
    requires
        forall|i: int| 0 <= i < b.len() ==> #[trigger] b[i] != mark,
    ensures
        pieces(a.push(mark) + b, mark) == pieces(a, mark).push(b),
    decreases a.len(),
{
    lemma_before_mark(a, mark);
    let n = before_mark(a, mark) as int;
    if n >= a.len() {
        assert forall|i: int| 0 <= i < a.len() implies #[trigger] a[i] != mark by {}
        pieces_are_parted_by_marks(a, mark, b);
        pieces_are_parted_by_marks(b, mark, b);
        assert(seq![a] + seq![b] =~= pieces(a, mark).push(b));
    } else {
        let head = a.take(n);
        let tail = a.skip(n + 1);
        assert forall|i: int| 0 <= i < head.len() implies #[trigger] head[i] != mark by {
            assert(head[i] == a[i]);
        }
        pieces_are_added_last(tail, mark, b);
        pieces_are_parted_by_marks(head, mark, tail);
        pieces_are_parted_by_marks(head, mark, tail.push(mark) + b);
        assert(a =~= head.push(mark) + tail);
        assert(a.push(mark) + b =~= head.push(mark) + (tail.push(mark) + b));
        assert(pieces(a.push(mark) + b, mark) =~= pieces(a, mark).push(b));
    }
}

/// Lines end at newlines, with a carriage return directly before one left out; what stands
/// after the last newline is the last line as it is.
pub proof fn lines_end_at_newlines(a: Seq<char>, b: Seq<char>)
    requires
        forall|i: int| 0 <= i < a.len() ==> #[trigger] a[i] != '\n',
    ensures
        lines(a) == seq![a],
        lines(a.push('\n') + b) == seq![
            if a.len() > 0 && a.last() == '\r' {
                a.drop_last()
            } else {
                a
            },
        ] + lines(b),
{
    pieces_are_parted_by_marks(a, '\n', b);
    assert(lines(a) =~= seq![a]);
    let parts = pieces(a.push('\n') + b, '\n');
    assert(pieces(b, '\n').len() > 0);
    assert forall|i: int| 0 <= i < pieces(b, '\n').len() implies parts[i + 1] == #[trigger] pieces(
        b,
        '\n',
    )[i] by {}
    assert(lines(a.push('\n') + b) =~= seq![
        if a.len() > 0 && a.last() == '\r' {
            a.drop_last()
        } else {
            a
        },
    ] + lines(b));
}

/// A counter is told by its digits, and one that is not known by a dash.
pub proof fn counts_are_told_by_their_digits(n: u64)
    ensures
        shown_count(Some(n)) == decimal(n as nat),
        shown_count(None) == "—"@,
{
}

/// A digit is the character so far after zero, and a number is told by its digits.
pub proof fn numbers_are_told_in_tens(n: nat, d: nat)
    requires
        d < 10,
    ensures
        digit(d) as nat == '0' as nat + d,
        decimal(d) == seq![digit(d)],
        n > 0 ==> decimal(10 * n + d) == decimal(n).push(digit(d)),
{
}

/// White space is what Unicode calls so.
pub proof fn white_space_is_of_unicode(c: char)
    ensures
        is_space(c) <==> seq![
            0x9nat, 0xa, 0xb, 0xc, 0xd, 0x20, 0x85, 0xa0, 0x1680, 0x2000, 0x2001, 0x2002, 0x2003,
            0x2004, 0x2005, 0x2006, 0x2007, 0x2008, 0x2009, 0x200a, 0x2028, 0x2029, 0x202f, 0x205f,
            0x3000,
        ].contains(c as nat),
{
    let spaces = seq![
        0x9nat, 0xa, 0xb, 0xc, 0xd, 0x20, 0x85, 0xa0, 0x1680, 0x2000, 0x2001, 0x2002, 0x2003,
        0x2004, 0x2005, 0x2006, 0x2007, 0x2008, 0x2009, 0x200a, 0x2028, 0x2029, 0x202f, 0x205f,
        0x3000,
    ];
    let n = c as nat;
    assert(spaces[0] == 0x9 && spaces[1] == 0xa && spaces[2] == 0xb && spaces[3] == 0xc && spaces[4]
        == 0xd && spaces[5] == 0x20 && spaces[6] == 0x85 && spaces[7] == 0xa0);
    assert(spaces[8] == 0x1680 && spaces[9] == 0x2000 && spaces[10] == 0x2001 && spaces[11]
        == 0x2002 && spaces[12] == 0x2003 && spaces[13] == 0x2004 && spaces[14] == 0x2005);
    assert(spaces[15] == 0x2006 && spaces[16] == 0x2007 && spaces[17] == 0x2008 && spaces[18]
        == 0x2009 && spaces[19] == 0x200a && spaces[20] == 0x2028 && spaces[21] == 0x2029);
    assert(spaces[22] == 0x202f && spaces[23] == 0x205f && spaces[24] == 0x3000);
}

} // verus!
