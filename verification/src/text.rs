//! Text pieces the dashboard is written in: numbers, labels and words.
use vstd::prelude::*;

verus! {

/// `String::push` appends one character at the end of the string.
pub assume_specification[ String::push ](s: &mut String, c: char)
    ensures
        final(s)@ == old(s)@.push(c),
;

/// The decimal digit of `d`, for `d` below ten.
pub open spec fn digit(d: nat) -> char {
    (48 + d) as char
}

/// A number in decimal, without leading zeros.
pub open spec fn decimal(n: nat) -> Seq<char>
    decreases n,
{
    if n < 10 {
        seq![digit(n)]
    } else {
        decimal(n / 10).push(digit(n % 10))
    }
}

/// A number in decimal with a comma before every group of three digits.
pub open spec fn grouped(n: nat) -> Seq<char>
    decreases n,
{
    if n < 1000 {
        decimal(n)
    } else {
        grouped(n / 1000).push(',').push(digit(n / 100 % 10)).push(digit(n / 10 % 10)).push(
            digit(n % 10),
        )
    }
}

fn push_digit(out: &mut String, d: u64)
    requires
        d < 10,
    ensures
        final(out)@ == old(out)@.push(digit(d as nat)),
{
    out.push((48 + d as u8) as char);
}

/// Appends a number in decimal.
pub fn push_decimal(out: &mut String, n: u64)
    ensures
        final(out)@ == old(out)@ + decimal(n as nat),
    decreases n,
{
    if n >= 10 {
        push_decimal(out, n / 10);
    }
    push_digit(out, n % 10);
    assert(out@ =~= old(out)@ + decimal(n as nat));
}

/// A number in decimal.
pub fn decimal_text(n: u64) -> (r: String)
    ensures
        r@ == decimal(n as nat),
{
    let mut out = String::new();
    push_decimal(&mut out, n);
    assert(out@ =~= decimal(n as nat));
    out
}

/// Appends a number in decimal with a comma before every group of three digits.
pub fn push_grouped(out: &mut String, n: u64)
    ensures
        final(out)@ == old(out)@ + grouped(n as nat),
    decreases n,
{
    if n < 1000 {
        push_decimal(out, n);
    } else {
        push_grouped(out, n / 1000);
        out.push(',');
        push_digit(out, n / 100 % 10);
        push_digit(out, n / 10 % 10);
        push_digit(out, n % 10);
        assert(out@ =~= old(out)@ + grouped(n as nat));
    }
}

/// A counter as shown: its decimal, or a dash where it is unknown.
pub open spec fn shown_count(n: Option<u64>) -> Seq<char> {
    match n {
        Some(n) => decimal(n as nat),
        None => "—"@,
    }
}

/// Appends a counter as shown.
pub fn push_count(out: &mut String, n: Option<u64>)
    ensures
        final(out)@ == old(out)@ + shown_count(n),
{
    match n {
        Some(n) => push_decimal(out, n),
        None => out.append("—"),
    }
}

/// The value of a text of decimal digits.
pub open spec fn digits_value(s: Seq<char>) -> nat
    decreases s.len(),
{
    if s.len() == 0 {
        0
    } else {
        digits_value(s.drop_last()) * 10 + (s.last() as nat - 48) as nat
    }
}

pub open spec fn is_digit(c: char) -> bool {
    '0' <= c <= '9'
}

pub open spec fn all_digits(s: Seq<char>) -> bool {
    forall|i: int| 0 <= i < s.len() ==> is_digit(#[trigger] s[i])
}

/// Whether two texts are the same.
pub fn same_text(a: &str, b: &str) -> (r: bool)
    ensures
        r == (a@ == b@),
{
    a.to_owned() == b.to_owned()
}

/// Whether two optional texts are the same.
pub fn same_optional(a: &Option<String>, b: &Option<String>) -> (r: bool)
    ensures
        r == (a.deep_view() == b.deep_view()),
{
    match (a, b) {
        (Some(a), Some(b)) => *a == *b,
        (None, None) => true,
        _ => false,
    }
}

/// A copy of an optional text.
pub fn copy_optional(a: &Option<String>) -> (r: Option<String>)
    ensures
        r.deep_view() == a.deep_view(),
{
    match a {
        Some(a) => Some(a.clone()),
        None => None,
    }
}

/// The lower-case form of an ASCII capital; any other character as it is.
pub open spec fn lower(c: char) -> char {
    if 'A' <= c <= 'Z' {
        (c as nat + 32) as char
    } else {
        c
    }
}

/// A text with its ASCII capitals in lower case.
pub open spec fn lowered(s: Seq<char>) -> Seq<char> {
    s.map_values(|c: char| lower(c))
}

fn lower_char(c: char) -> (r: char)
    ensures
        r == lower(c),
{
    let code = c as u32;
    if 65 <= code && code <= 90 {
        (code as u8 + 32) as char
    } else {
        c
    }
}

/// A text with its ASCII capitals in lower case.
pub fn to_lower(s: &str) -> (r: String)
    ensures
        r@ == lowered(s@),
{
    let mut out = String::new();
    for c in it: s.chars()
        invariant
            it.seq() == s@,
            out@ == lowered(s@.take(it.index())),
    {
        assert(s@.take(it.index() + 1) =~= s@.take(it.index()).push(c));
        out.push(lower_char(c));
        assert(out@ =~= lowered(s@.take(it.index() + 1)));
    }
    assert(s@.take(s@.len() as int) =~= s@);
    out
}

/// Whether a character is one of Unicode's control characters.
pub open spec fn is_control(c: char) -> bool {
    c as nat <= 0x1f || 0x7f <= c as nat <= 0x9f
}

fn control_char(c: char) -> (r: bool)
    ensures
        r == is_control(c),
{
    let code = c as u32;
    code <= 0x1f || (0x7f <= code && code <= 0x9f)
}

/// The characters that may be shown.
pub open spec fn visible() -> spec_fn(char) -> bool {
    |c: char| !is_control(c)
}

/// A text without control characters, cut after `limit` characters.
pub open spec fn printable(s: Seq<char>, limit: nat) -> Seq<char> {
    let kept = s.filter(visible());
    if kept.len() <= limit {
        kept
    } else {
        kept.take(limit as int)
    }
}

/// A text without control characters, cut after `limit` characters.
pub fn to_printable(s: &str, limit: usize) -> (r: String)
    ensures
        r@ == printable(s@, limit as nat),
{
    let mut out = String::new();
    let mut kept: usize = 0;
    for c in it: s.chars()
        invariant
            it.seq() == s@,
            kept == out@.len(),
            kept <= limit,
            out@ == printable(s@.take(it.index()), limit as nat),
    {
        let ghost before = s@.take(it.index());
        assert(s@.take(it.index() + 1) =~= before.push(c));
        assert(before.push(c).drop_last() =~= before);
        let control = control_char(c);
        if !control && kept < limit {
            out.push(c);
            kept += 1;
        }
        proof {
            before.lemma_filter_push(c, visible());
        }
        assert(out@ =~= printable(before.push(c), limit as nat));
    }
    assert(s@.take(s@.len() as int) =~= s@);
    out
}

/// How many items stand before the first `mark`; all of them, if there is none.
pub open spec fn before_mark<T>(s: Seq<T>, mark: T) -> nat
    decreases s.len(),
{
    if s.len() == 0 || s[0] == mark {
        0
    } else {
        1 + before_mark(s.drop_first(), mark)
    }
}

/// The stretches between the marks, one more than there are marks.
pub open spec fn pieces<T>(s: Seq<T>, mark: T) -> Seq<Seq<T>>
    decreases s.len(),
{
    let n = before_mark(s, mark);
    if n >= s.len() {
        seq![s]
    } else {
        seq![s.take(n as int)] + pieces(s.skip(n as int + 1), mark)
    }
}

/// Where the first mark stands.
pub proof fn lemma_before_mark<T>(s: Seq<T>, mark: T)
    ensures
        before_mark(s, mark) <= s.len(),
        before_mark(s, mark) < s.len() ==> s[before_mark(s, mark) as int] == mark,
        forall|i: int| 0 <= i < before_mark(s, mark) ==> s[i] != mark,
    decreases s.len(),
{
    if s.len() > 0 && s[0] != mark {
        lemma_before_mark(s.drop_first(), mark);
        assert forall|i: int| 0 <= i < before_mark(s, mark) implies s[i] != mark by {
            if i > 0 {
                assert(s.drop_first()[i - 1] == s[i]);
            }
        }
    }
}

/// The only place that can be the first mark.
pub proof fn lemma_first_mark<T>(s: Seq<T>, mark: T, n: int)
    requires
        0 <= n <= s.len(),
        n < s.len() ==> s[n] == mark,
        forall|i: int| 0 <= i < n ==> s[i] != mark,
    ensures
        before_mark(s, mark) == n,
{
    lemma_before_mark(s, mark);
}

/// Whether a character has Unicode's property White_Space.
pub open spec fn is_space(c: char) -> bool {
    let code = c as nat;
    ||| 0x9 <= code <= 0xd
    ||| code == 0x20
    ||| code == 0x85
    ||| code == 0xa0
    ||| code == 0x1680
    ||| 0x2000 <= code <= 0x200a
    ||| 0x2028 <= code <= 0x2029
    ||| code == 0x202f
    ||| code == 0x205f
    ||| code == 0x3000
}

/// Whether a character has Unicode's property White_Space.
pub fn space_char(c: char) -> (r: bool)
    ensures
        r == is_space(c),
{
    let code = c as u32;
    (0x9 <= code && code <= 0xd) || code == 0x20 || code == 0x85 || code == 0xa0 || code == 0x1680
        || (0x2000 <= code && code <= 0x200a) || code == 0x2028 || code == 0x2029 || code == 0x202f
        || code == 0x205f || code == 0x3000
}

/// How many characters stand before the first white space.
pub open spec fn word_len(s: Seq<char>) -> nat
    decreases s.len(),
{
    if s.len() == 0 || is_space(s[0]) {
        0
    } else {
        1 + word_len(s.drop_first())
    }
}

/// The words of a text: its longest stretches without white space.
pub open spec fn words(s: Seq<char>) -> Seq<Seq<char>>
    decreases s.len(),
{
    if s.len() == 0 {
        Seq::empty()
    } else if word_len(s) == 0 {
        words(s.drop_first())
    } else if word_len(s) >= s.len() {
        seq![s]
    } else {
        seq![s.take(word_len(s) as int)] + words(s.skip(word_len(s) as int))
    }
}

pub proof fn lemma_word_len(s: Seq<char>)
    ensures
        word_len(s) <= s.len(),
        word_len(s) < s.len() ==> is_space(s[word_len(s) as int]),
        forall|i: int| 0 <= i < word_len(s) ==> !is_space(s[i]),
    decreases s.len(),
{
    if s.len() > 0 && !is_space(s[0]) {
        lemma_word_len(s.drop_first());
        assert forall|i: int| 0 <= i < word_len(s) implies !is_space(s[i]) by {
            if i > 0 {
                assert(s.drop_first()[i - 1] == s[i]);
            }
        }
    }
}

/// The characters of a text.
pub fn characters(s: &str) -> (r: Vec<char>)
    ensures
        r@ == s@,
{
    let mut out: Vec<char> = Vec::new();
    for c in it: s.chars()
        invariant
            it.seq() == s@,
            out@ == s@.take(it.index()),
    {
        out.push(c);
        assert(out@ =~= s@.take(it.index() + 1));
    }
    assert(s@.take(s@.len() as int) =~= s@);
    out
}

/// The text of some characters.
pub fn text_of(s: &Vec<char>, from: usize, to: usize) -> (r: String)
    requires
        from <= to <= s@.len(),
    ensures
        r@ == s@.subrange(from as int, to as int),
{
    let mut out = String::new();
    let mut i = from;
    while i < to
        invariant
            from <= i <= to <= s@.len(),
            out@ == s@.subrange(from as int, i as int),
        decreases to - i,
    {
        out.push(s[i]);
        i += 1;
        assert(out@ =~= s@.subrange(from as int, i as int));
    }
    out
}

/// The words between two places of a text.
pub fn words_between(s: &Vec<char>, from: usize, to: usize) -> (r: Vec<String>)
    requires
        from <= to <= s@.len(),
    ensures
        r.deep_view() == words(s@.subrange(from as int, to as int)),
{
    let mut out: Vec<String> = Vec::new();
    let mut i = from;
    let ghost all = words(s@.subrange(from as int, to as int));
    assert(out.deep_view() + words(s@.subrange(i as int, to as int)) =~= all);
    while i < to
        invariant
            from <= i <= to <= s@.len(),
            out.deep_view() + words(s@.subrange(i as int, to as int)) == all,
        decreases to - i,
    {
        let ghost rest = s@.subrange(i as int, to as int);
        let mut j = i;
        proof {
            lemma_word_len(rest);
            assert(rest.drop_first() =~= s@.subrange(i + 1, to as int));
        }
        while j < to && !space_char(s[j])
            invariant
                i <= j <= to <= s@.len(),
                rest == s@.subrange(i as int, to as int),
                forall|k: int| 0 <= k < j - i ==> !is_space(#[trigger] rest[k]),
            ensures
                j < to ==> is_space(rest[j - i]),
            decreases to - j,
        {
            assert(rest[j - i] == s@[j as int]);
            j += 1;
        }
        proof {
            assert(word_len(rest) == j - i) by {
                if word_len(rest) < j - i {
                    assert(!is_space(rest[word_len(rest) as int]));
                }
            }
        }
        if j == i {
            i += 1;
        } else {
            let word = text_of(s, i, j);
            let ghost before = out.deep_view();
            out.push(word);
            proof {
                assert(rest.take(j - i) =~= word@);
                assert(rest.skip(j - i) =~= s@.subrange(j as int, to as int));
                assert(out.deep_view() =~= before.push(word@));
                assert(before + words(rest) =~= before.push(word@) + words(
                    s@.subrange(j as int, to as int),
                ));
            }
            i = j;
        }
    }
    assert(out.deep_view() =~= all);
    out
}

/// Items that executable code can tell apart.
pub trait Mark: Copy {
    fn same(&self, other: &Self) -> (r: bool)
        ensures
            r == (*self == *other),
    ;
}

impl Mark for char {
    fn same(&self, other: &Self) -> (r: bool) {
        *self == *other
    }
}

impl Mark for u8 {
    fn same(&self, other: &Self) -> (r: bool) {
        *self == *other
    }
}

/// Where the stretches between the marks begin and end.
pub fn piece_bounds<T: Mark>(s: &Vec<T>, from: usize, to: usize, mark: T) -> (r: Vec<
    (usize, usize),
>)
    requires
        from <= to <= s@.len(),
    ensures
        r@.len() == pieces(s@.subrange(from as int, to as int), mark).len(),
        forall|i: int|
            0 <= i < r@.len() ==> from <= (#[trigger] r@[i]).0 <= r@[i].1 <= to && s@.subrange(
                r@[i].0 as int,
                r@[i].1 as int,
            ) == pieces(s@.subrange(from as int, to as int), mark)[i],
{
    let mut out: Vec<(usize, usize)> = Vec::new();
    let mut start = from;
    let ghost all = pieces(s@.subrange(from as int, to as int), mark);
    let ghost done = Seq::<Seq<T>>::empty();
    assert(done + all =~= all);
    loop
        invariant_except_break
            done + pieces(s@.subrange(start as int, to as int), mark) == all,
        invariant
            from <= start <= to <= s@.len(),
            done.len() == out@.len(),
            forall|i: int|
                0 <= i < out@.len() ==> from <= (#[trigger] out@[i]).0 <= out@[i].1 <= to
                    && s@.subrange(out@[i].0 as int, out@[i].1 as int) == done[i],
        ensures
            done == all,
            done.len() == out@.len(),
            forall|i: int|
                0 <= i < out@.len() ==> from <= (#[trigger] out@[i]).0 <= out@[i].1 <= to
                    && s@.subrange(out@[i].0 as int, out@[i].1 as int) == done[i],
        decreases to - start,
    {
        let ghost rest = s@.subrange(start as int, to as int);
        let mut end = start;
        while end < to && !s[end].same(&mark)
            invariant
                start <= end <= to <= s@.len(),
                rest == s@.subrange(start as int, to as int),
                forall|k: int| 0 <= k < end - start ==> #[trigger] rest[k] != mark,
            ensures
                end < to ==> rest[end - start] == mark,
            decreases to - end,
        {
            assert(rest[end - start] == s@[end as int]);
            end += 1;
        }
        proof {
            lemma_first_mark(rest, mark, end - start);
        }
        out.push((start, end));
        let ghost piece = s@.subrange(start as int, end as int);
        let ghost before = done;
        proof {
            done = done.push(piece);
            assert(rest.take(end - start) =~= piece);
        }
        if end == to {
            proof {
                assert(rest =~= piece);
                assert(done =~= all);
            }
            break;
        }
        proof {
            assert(rest.skip(end - start + 1) =~= s@.subrange(end + 1, to as int));
            assert(done + pieces(s@.subrange(end + 1, to as int), mark) =~= before + pieces(
                rest,
                mark,
            ));
        }
        start = end + 1;
    }
    out
}

/// A line without the carriage return at its end.
pub open spec fn without_return(line: Seq<char>) -> Seq<char> {
    if line.len() > 0 && line.last() == '\r' {
        line.drop_last()
    } else {
        line
    }
}

/// The lines of a text. A line ends at a newline, and a carriage return directly
/// before the newline belongs to the line's end.
pub open spec fn lines(s: Seq<char>) -> Seq<Seq<char>> {
    let pieces = pieces(s, '\n');
    Seq::new(
        pieces.len(),
        |i: int|
            if i < pieces.len() - 1 {
                without_return(pieces[i])
            } else {
                pieces[i]
            },
    )
}

/// Whether a text begins with the dot that stands between two parts of a label.
pub open spec fn at_dot(s: Seq<char>) -> bool {
    s.len() >= 3 && s[0] == ' ' && s[1] == '·' && s[2] == ' '
}

/// The part of a label before its first dot; all of it, if there is none.
pub open spec fn first_part(s: Seq<char>) -> Seq<char>
    decreases s.len(),
{
    if s.len() == 0 || at_dot(s) {
        Seq::empty()
    } else {
        seq![s[0]] + first_part(s.drop_first())
    }
}

/// The part of a label before its first dot; all of it, if there is none.
pub fn to_first_part(s: &str) -> (r: String)
    ensures
        r@ == first_part(s@),
{
    let letters = characters(s);
    let mut out = String::new();
    let mut i: usize = 0;
    assert(letters@.skip(0) =~= letters@);
    assert(out@ + first_part(letters@) =~= first_part(letters@));
    while i < letters.len()
        invariant
            i <= letters@.len(),
            letters@ == s@,
            out@ + first_part(letters@.skip(i as int)) == first_part(s@),
        decreases letters@.len() - i,
    {
        let ghost rest = letters@.skip(i as int);
        proof {
            assert(rest.drop_first() =~= letters@.skip(i + 1));
        }
        if letters.len() - i >= 3 && letters[i] == ' ' && letters[i + 1] == '·' && letters[i + 2]
            == ' ' {
            assert(at_dot(rest));
            assert(out@ =~= first_part(s@));
            return out;
        }
        let ghost before = out@;
        out.push(letters[i]);
        i += 1;
        assert(out@ + first_part(letters@.skip(i as int)) =~= before + first_part(rest));
    }
    assert(out@ =~= first_part(s@));
    out
}

} // verus!
