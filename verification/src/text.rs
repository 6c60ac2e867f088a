//! Text as sequences of characters: searching, splitting, joining and numbers.
//!
//! Every function here states its result over `Seq<char>`, the view of `str`
//! and `String`. Executable code works on `Vec<char>`, which can be indexed
//! in constant time, and converts at its edges with [`to_chars`] and
//! [`from_chars`].

use vstd::prelude::*;

verus! {

/// `String::push` appends one character and keeps what was there.
pub assume_specification[ String::push ](s: &mut String, ch: char)
    ensures
        final(s)@ == old(s)@.push(ch),
;

/// The views of a list of character vectors, in order.
pub open spec fn views(parts: Seq<Vec<char>>) -> Seq<Seq<char>> {
    Seq::new(parts.len(), |i: int| parts[i]@)
}

/// The views of a list of strings, in order.
pub open spec fn string_views(parts: Seq<String>) -> Seq<Seq<char>> {
    Seq::new(parts.len(), |i: int| parts[i]@)
}

/// Whether `s` begins with `prefix`.
pub open spec fn starts_with(s: Seq<char>, prefix: Seq<char>) -> bool {
    prefix.len() <= s.len() && s.take(prefix.len() as int) == prefix
}

/// The position of the first `c` in `s`, or `s.len()` where there is none.
pub open spec fn index_of(s: Seq<char>, c: char) -> int
    decreases s.len(),
{
    if s.len() == 0 {
        0
    } else if s[0] == c {
        0
    } else {
        1 + index_of(s.drop_first(), c)
    }
}

/// `index_of` is within the text or at its end; no `c` stands before it, and
/// where it is within the text, `c` stands at it.
pub proof fn lemma_index_of(s: Seq<char>, c: char)
    ensures
        0 <= index_of(s, c) <= s.len(),
        forall|j: int| 0 <= j < index_of(s, c) ==> s[j] != c,
        index_of(s, c) < s.len() ==> s[index_of(s, c)] == c,
    decreases s.len(),
{
    if s.len() > 0 && s[0] != c {
        let t = s.drop_first();
        lemma_index_of(t, c);
        assert forall|j: int| 0 <= j < index_of(s, c) implies s[j] != c by {
            if j > 0 {
                assert(s[j] == t[j - 1]);
            }
        }
    }
}

/// The first position that holds `c` with no `c` before it is `index_of`.
pub proof fn lemma_index_of_is(s: Seq<char>, c: char, k: int)
    requires
        0 <= k <= s.len(),
        forall|j: int| 0 <= j < k ==> s[j] != c,
        k < s.len() ==> s[k] == c,
    ensures
        index_of(s, c) == k,
{
    lemma_index_of(s, c);
}

/// The pieces of `s` between occurrences of `sep`; never empty, and a
/// separator at either end gives an empty piece there.
pub open spec fn split(s: Seq<char>, sep: char) -> Seq<Seq<char>>
    decreases s.len(),
{
    let i = index_of(s, sep);
    if 0 <= i < s.len() {
        seq![s.take(i)] + split(s.skip(i + 1), sep)
    } else {
        seq![s]
    }
}

/// A line without the carriage return that stood before its line feed.
pub open spec fn strip_cr(line: Seq<char>) -> Seq<char> {
    if line.len() > 0 && line.last() == '\r' {
        line.drop_last()
    } else {
        line
    }
}

/// The lines of a text. A line ends at a line feed; the line feed, and a
/// carriage return directly before it, are not part of the line. What follows
/// the last line feed is a line if it is not empty, and it is kept as it is.
pub open spec fn lines(s: Seq<char>) -> Seq<Seq<char>>
    decreases s.len(),
{
    if s.len() == 0 {
        seq![]
    } else {
        let i = index_of(s, '\n');
        if 0 <= i < s.len() {
            seq![strip_cr(s.take(i))] + lines(s.skip(i + 1))
        } else {
            seq![s]
        }
    }
}

/// The parts in order with `sep` between each two of them.
pub open spec fn join(parts: Seq<Seq<char>>, sep: Seq<char>) -> Seq<char>
    decreases parts.len(),
{
    if parts.len() == 0 {
        seq![]
    } else if parts.len() == 1 {
        parts[0]
    } else {
        join(parts.drop_last(), sep) + sep + parts.last()
    }
}

/// `s` after every leading repetition of `prefix` is taken away.
pub open spec fn trim_start_matches(s: Seq<char>, prefix: Seq<char>) -> Seq<char>
    decreases s.len(),
{
    if prefix.len() > 0 && starts_with(s, prefix) {
        trim_start_matches(s.skip(prefix.len() as int), prefix)
    } else {
        s
    }
}

/// The character of a decimal digit.
pub open spec fn digit_char(d: nat) -> char {
    if d == 0 {
        '0'
    } else if d == 1 {
        '1'
    } else if d == 2 {
        '2'
    } else if d == 3 {
        '3'
    } else if d == 4 {
        '4'
    } else if d == 5 {
        '5'
    } else if d == 6 {
        '6'
    } else if d == 7 {
        '7'
    } else if d == 8 {
        '8'
    } else {
        '9'
    }
}

/// The value of a decimal digit, if `c` is one.
pub open spec fn digit_value(c: char) -> Option<nat> {
    if c == '0' {
        Some(0)
    } else if c == '1' {
        Some(1)
    } else if c == '2' {
        Some(2)
    } else if c == '3' {
        Some(3)
    } else if c == '4' {
        Some(4)
    } else if c == '5' {
        Some(5)
    } else if c == '6' {
        Some(6)
    } else if c == '7' {
        Some(7)
    } else if c == '8' {
        Some(8)
    } else if c == '9' {
        Some(9)
    } else {
        None
    }
}

/// `n` written in decimal, without leading zeros.
pub open spec fn decimal(n: nat) -> Seq<char>
    decreases n,
{
    if n < 10 {
        seq![digit_char(n)]
    } else {
        decimal(n / 10).push(digit_char(n % 10))
    }
}

/// The number that a run of decimal digits writes, if `s` holds only digits.
/// The empty run writes zero.
pub open spec fn digits_value(s: Seq<char>) -> Option<nat>
    decreases s.len(),
{
    if s.len() == 0 {
        Some(0)
    } else {
        match (digits_value(s.drop_last()), digit_value(s.last())) {
            (Some(high), Some(low)) => Some(high * 10 + low),
            _ => None,
        }
    }
}

/// The number that `s` writes as an unsigned integer: an optional `+`, then
/// at least one decimal digit and nothing else.
pub open spec fn parse_nat(s: Seq<char>) -> Option<nat> {
    let body = if s.len() > 0 && s[0] == '+' {
        s.drop_first()
    } else {
        s
    };
    if body.len() == 0 {
        None
    } else {
        digits_value(body)
    }
}

/// The number that `s` writes, if it is one and no greater than `max`.
pub open spec fn parse_bounded(s: Seq<char>, max: nat) -> Option<nat> {
    match parse_nat(s) {
        Some(n) if n <= max => Some(n),
        _ => None,
    }
}

/// Whether a text holds no line feed.
pub open spec fn is_one_line(s: Seq<char>) -> bool {
    forall|i: int| 0 <= i < s.len() ==> s[i] != '\n'
}

/// Whether a line ends in a carriage return.
pub open spec fn ends_with_cr(line: Seq<char>) -> bool {
    line.len() > 0 && line.last() == '\r'
}

/// The lines that are read from the text that `join` makes of `ls` with line
/// feeds: every line but the last loses a carriage return at its end, and
/// the last is left out if it is empty.
pub open spec fn reread(ls: Seq<Seq<char>>) -> Seq<Seq<char>> {
    if ls.len() == 0 {
        seq![]
    } else {
        let head = Seq::new((ls.len() - 1) as nat, |i: int| strip_cr(ls[i]));
        if ls.last().len() > 0 {
            head.push(ls.last())
        } else {
            head
        }
    }
}

/// No line of a text holds a line feed.
pub proof fn lemma_lines_are_one_line(s: Seq<char>)
    ensures
        forall|i: int| 0 <= i < lines(s).len() ==> is_one_line(#[trigger] lines(s)[i]),
    decreases s.len(),
{
    if s.len() > 0 {
        lemma_index_of(s, '\n');
        let at = index_of(s, '\n');
        if at < s.len() {
            let rest = s.skip(at + 1);
            lemma_lines_are_one_line(rest);
            let first = strip_cr(s.take(at));
            assert(is_one_line(first)) by {
                assert forall|j: int| 0 <= j < first.len() implies first[j] != '\n' by {}
            }
            assert forall|i: int| 0 <= i < lines(s).len() implies is_one_line(
                #[trigger] lines(s)[i],
            ) by {
                if i > 0 {
                    assert(lines(s)[i] == lines(rest)[i - 1]);
                }
            }
        }
    }
}

/// A text without a line feed is its own single line, or no line if empty.
pub proof fn lemma_lines_of_one_line(a: Seq<char>)
    requires
        is_one_line(a),
    ensures
        lines(a) == if a.len() == 0 {
            Seq::<Seq<char>>::empty()
        } else {
            seq![a]
        },
{
    if a.len() > 0 {
        lemma_index_of_is(a, '\n', a.len() as int);
    }
}

/// The lines of a line, a line feed and more text are that line, without
/// the carriage return at its end, and the lines of the rest.
pub proof fn lemma_lines_after_feed(a: Seq<char>, rest: Seq<char>)
    requires
        is_one_line(a),
    ensures
        lines(a + seq!['\n'] + rest) == seq![strip_cr(a)] + lines(rest),
{
    let s = a + seq!['\n'] + rest;
    assert forall|j: int| 0 <= j < a.len() implies s[j] != '\n' by {}
    lemma_index_of_is(s, '\n', a.len() as int);
    assert(s.take(a.len() as int) == a);
    assert(s.skip(a.len() as int + 1) == rest);
}

/// A joined text begins with its first part and the separator.
pub proof fn lemma_join_first(parts: Seq<Seq<char>>, sep: Seq<char>)
    requires
        parts.len() >= 2,
    ensures
        join(parts, sep) == parts[0] + sep + join(parts.drop_first(), sep),
    decreases parts.len(),
{
    let tail = parts.drop_first();
    if parts.len() == 2 {
        assert(join(parts.drop_last(), sep) == parts[0]);
    } else {
        lemma_join_first(parts.drop_last(), sep);
        assert(parts.drop_last().drop_first() == tail.drop_last());
        assert(join(parts, sep) == (parts[0] + sep + join(tail.drop_last(), sep)) + sep
            + parts.last());
        assert((parts[0] + sep + join(tail.drop_last(), sep)) + sep + parts.last() == parts[0]
            + sep + (join(tail.drop_last(), sep) + sep + tail.last()));
    }
}

/// What is read back from lines that were joined with line feeds.
pub proof fn lemma_lines_of_join(ls: Seq<Seq<char>>)
    requires
        forall|i: int| 0 <= i < ls.len() ==> is_one_line(#[trigger] ls[i]),
    ensures
        lines(join(ls, seq!['\n'])) == reread(ls),
    decreases ls.len(),
{
    let feed = seq!['\n'];
    if ls.len() == 1 {
        lemma_lines_of_one_line(ls[0]);
        assert(reread(ls) =~= if ls[0].len() == 0 {
            Seq::<Seq<char>>::empty()
        } else {
            seq![ls[0]]
        });
    } else if ls.len() >= 2 {
        let tail = ls.drop_first();
        lemma_join_first(ls, feed);
        assert forall|i: int| 0 <= i < tail.len() implies is_one_line(#[trigger] tail[i]) by {}
        lemma_lines_of_join(tail);
        lemma_lines_after_feed(ls[0], join(tail, feed));
    }
}

/// Lists of single lines that are joined with line feeds to the same text
/// are the same lists, if neither is empty.
pub proof fn lemma_join_is_one_to_one(a: Seq<Seq<char>>, b: Seq<Seq<char>>)
    requires
        a.len() >= 1,
        b.len() >= 1,
        forall|i: int| 0 <= i < a.len() ==> is_one_line(#[trigger] a[i]),
        forall|i: int| 0 <= i < b.len() ==> is_one_line(#[trigger] b[i]),
        join(a, seq!['\n']) == join(b, seq!['\n']),
    ensures
        a == b,
    decreases a.len(),
{
    let feed = seq!['\n'];
    let text = join(a, feed);
    if a.len() == 1 && b.len() == 1 {
        assert(a =~= b);
    } else if a.len() == 1 {
        lemma_join_first(b, feed);
        assert(text[b[0].len() as int] == '\n');
    } else if b.len() == 1 {
        lemma_join_first(a, feed);
        assert(text[a[0].len() as int] == '\n');
    } else {
        lemma_join_first(a, feed);
        lemma_join_first(b, feed);
        let rest_a = join(a.drop_first(), feed);
        let rest_b = join(b.drop_first(), feed);
        assert(text[a[0].len() as int] == '\n');
        assert(text[b[0].len() as int] == '\n');
        assert forall|j: int| 0 <= j < a[0].len() implies text[j] != '\n' by {}
        assert forall|j: int| 0 <= j < b[0].len() implies text[j] != '\n' by {}
        assert(a[0] =~= text.take(a[0].len() as int));
        assert(b[0] =~= text.take(b[0].len() as int));
        assert(rest_a =~= text.skip(a[0].len() as int + 1));
        assert(rest_b =~= text.skip(b[0].len() as int + 1));
        assert forall|i: int| 0 <= i < a.drop_first().len() implies is_one_line(
            #[trigger] a.drop_first()[i],
        ) by {}
        assert forall|i: int| 0 <= i < b.drop_first().len() implies is_one_line(
            #[trigger] b.drop_first()[i],
        ) by {}
        lemma_join_is_one_to_one(a.drop_first(), b.drop_first());
        assert(a =~= seq![a[0]] + a.drop_first());
    }
}

/// The characters of a string, in a vector.
pub fn to_chars(s: &str) -> (out: Vec<char>)
    ensures
        out@ == s@,
{
    let mut out: Vec<char> = Vec::new();
    for c in it: s.chars()
        invariant
            out@ == it.seq().take(it.index() as int),
            it.seq() == s@,
    {
        out.push(c);
    }
    out
}

/// The string that holds the given characters.
pub fn from_chars(v: &Vec<char>) -> (out: String)
    ensures
        out@ == v@,
{
    let mut out = String::new();
    let mut i: usize = 0;
    while i < v.len()
        invariant
            i <= v.len(),
            out@ == v@.take(i as int),
        decreases v.len() - i,
    {
        out.push(v[i]);
        i += 1;
    }
    out
}

/// Adds the characters of `tail` to the end of `out`.
pub fn extend_chars(out: &mut Vec<char>, tail: &Vec<char>)
    ensures
        final(out)@ == old(out)@ + tail@,
{
    let mut i: usize = 0;
    while i < tail.len()
        invariant
            i <= tail.len(),
            out@ == old(out)@ + tail@.take(i as int),
        decreases tail.len() - i,
    {
        out.push(tail[i]);
        i += 1;
    }
}

/// Whether two character vectors hold the same text.
pub fn chars_eq(a: &Vec<char>, b: &Vec<char>) -> (same: bool)
    ensures
        same == (a@ == b@),
{
    if a.len() != b.len() {
        return false;
    }
    let mut i: usize = 0;
    while i < a.len()
        invariant
            i <= a.len(),
            a.len() == b.len(),
            a@.take(i as int) == b@.take(i as int),
        decreases a.len() - i,
    {
        if a[i] != b[i] {
            return false;
        }
        i += 1;
    }
    assert(a@.take(a.len() as int) == a@);
    assert(b@.take(b.len() as int) == b@);
    true
}

/// Whether two strings hold the same text.
pub fn str_eq(a: &str, b: &str) -> (same: bool)
    ensures
        same == (a@ == b@),
{
    let x = to_chars(a);
    let y = to_chars(b);
    chars_eq(&x, &y)
}

/// Whether `s` begins with `prefix`.
pub fn chars_start_with(s: &Vec<char>, prefix: &Vec<char>) -> (yes: bool)
    ensures
        yes == starts_with(s@, prefix@),
{
    if prefix.len() > s.len() {
        return false;
    }
    let mut i: usize = 0;
    while i < prefix.len()
        invariant
            i <= prefix.len() <= s.len(),
            s@.take(i as int) == prefix@.take(i as int),
        decreases prefix.len() - i,
    {
        if s[i] != prefix[i] {
            assert(s@.take(prefix.len() as int)[i as int] != prefix@[i as int]);
            return false;
        }
        i += 1;
    }
    assert(prefix@.take(prefix.len() as int) == prefix@);
    true
}

/// The characters of `s` from `from` up to, not including, `to`.
pub fn slice_chars(s: &Vec<char>, from: usize, to: usize) -> (out: Vec<char>)
    requires
        from <= to <= s.len(),
    ensures
        out@ == s@.subrange(from as int, to as int),
{
    let mut out: Vec<char> = Vec::new();
    let mut i: usize = from;
    while i < to
        invariant
            from <= i <= to <= s.len(),
            out@ == s@.subrange(from as int, i as int),
        decreases to - i,
    {
        out.push(s[i]);
        assert(s@.subrange(from as int, i + 1) == s@.subrange(from as int, i as int).push(
            s@[i as int],
        ));
        i += 1;
    }
    out
}

/// The position of the first `c` in `s` at or after `from`, or `s.len()`.
pub fn find_char_from(s: &Vec<char>, c: char, from: usize) -> (at: usize)
    requires
        from <= s.len(),
    ensures
        at == from + index_of(s@.skip(from as int), c),
        from <= at <= s.len(),
{
    let mut i: usize = from;
    while i < s.len() && s[i] != c
        invariant
            from <= i <= s.len(),
            forall|j: int| from <= j < i ==> s@[j] != c,
        decreases s.len() - i,
    {
        i += 1;
    }
    proof {
        lemma_index_of_is(s@.skip(from as int), c, i - from);
    }
    i
}

/// Splits `s` at every `sep`.
pub fn split_chars(s: &Vec<char>, sep: char) -> (out: Vec<Vec<char>>)
    ensures
        views(out@) == split(s@, sep),
        out.len() >= 1,
{
    let mut out: Vec<Vec<char>> = Vec::new();
    let mut start: usize = 0;
    proof {
        assert(s@.skip(0) == s@);
    }
    loop
        invariant_except_break
            start <= s.len(),
            split(s@, sep) == views(out@) + split(s@.skip(start as int), sep),
        ensures
            views(out@) == split(s@, sep),
            out.len() >= 1,
        decreases s.len() - start,
    {
        let at = find_char_from(s, sep, start);
        let piece = slice_chars(s, start, at);
        let ghost rest = s@.skip(start as int);
        proof {
            lemma_index_of(rest, sep);
            assert(rest.take(at - start) == s@.subrange(start as int, at as int));
        }
        out.push(piece);
        if at == s.len() {
            break;
        }
        proof {
            assert(rest.skip(at - start + 1) == s@.skip(at + 1));
        }
        start = at + 1;
    }
    out
}

/// The lines of `s`.
pub fn split_lines(s: &Vec<char>) -> (out: Vec<Vec<char>>)
    ensures
        views(out@) == lines(s@),
{
    let mut out: Vec<Vec<char>> = Vec::new();
    let mut start: usize = 0;
    proof {
        assert(s@.skip(0) == s@);
    }
    while start < s.len()
        invariant
            start <= s.len(),
            lines(s@) == views(out@) + lines(s@.skip(start as int)),
        decreases s.len() - start,
    {
        let at = find_char_from(s, '\n', start);
        let ghost rest = s@.skip(start as int);
        let ghost before = views(out@);
        proof {
            lemma_index_of(rest, '\n');
            assert(rest.take(at - start) == s@.subrange(start as int, at as int));
        }
        if at == s.len() {
            let piece = slice_chars(s, start, at);
            out.push(piece);
            proof {
                assert(views(out@) == before.push(piece@));
            }
            start = at;
        } else {
            let end = if at > start && s[at - 1] == '\r' {
                at - 1
            } else {
                at
            };
            let piece = slice_chars(s, start, end);
            out.push(piece);
            proof {
                let raw = rest.take(at - start);
                if at > start {
                    assert(raw.drop_last() == s@.subrange(start as int, at - 1));
                }
                assert(rest.skip(at - start + 1) == s@.skip(at + 1));
            }
            start = at + 1;
        }
    }
    out
}

/// Joins `parts` with `sep` between each two.
pub fn join_chars(parts: &Vec<Vec<char>>, sep: &Vec<char>) -> (out: Vec<char>)
    ensures
        out@ == join(views(parts@), sep@),
{
    let mut out: Vec<char> = Vec::new();
    let mut i: usize = 0;
    while i < parts.len()
        invariant
            i <= parts.len(),
            out@ == join(views(parts@).take(i as int), sep@),
        decreases parts.len() - i,
    {
        let ghost done = views(parts@).take(i as int);
        let ghost next = views(parts@).take(i + 1);
        proof {
            assert(next.drop_last() == done);
            assert(next.last() == parts@[i as int]@);
        }
        if i > 0 {
            extend_chars(&mut out, sep);
        }
        extend_chars(&mut out, &parts[i]);
        i += 1;
    }
    assert(views(parts@).take(parts.len() as int) == views(parts@));
    out
}

/// `s` without any leading repetitions of `prefix`.
pub fn trim_prefixes(s: &Vec<char>, prefix: &Vec<char>) -> (out: Vec<char>)
    ensures
        out@ == trim_start_matches(s@, prefix@),
{
    let mut start: usize = 0;
    if prefix.len() > 0 {
        assert(s@.skip(0) == s@);
        loop
            invariant_except_break
                start <= s.len(),
                prefix.len() > 0,
                trim_start_matches(s@, prefix@) == trim_start_matches(
                    s@.skip(start as int),
                    prefix@,
                ),
            ensures
                start <= s.len(),
                trim_start_matches(s@, prefix@) == s@.skip(start as int),
            decreases s.len() - start,
        {
            let rest = slice_chars(s, start, s.len());
            if !chars_start_with(&rest, prefix) {
                break;
            }
            assert(rest@.skip(prefix.len() as int) == s@.skip(start + prefix.len()));
            start = start + prefix.len();
        }
    }
    slice_chars(s, start, s.len())
}

/// The character of the decimal digit `d`.
pub fn digit_to_char(d: u8) -> (c: char)
    requires
        d < 10,
    ensures
        c == digit_char(d as nat),
{
    if d == 0 {
        '0'
    } else if d == 1 {
        '1'
    } else if d == 2 {
        '2'
    } else if d == 3 {
        '3'
    } else if d == 4 {
        '4'
    } else if d == 5 {
        '5'
    } else if d == 6 {
        '6'
    } else if d == 7 {
        '7'
    } else if d == 8 {
        '8'
    } else {
        '9'
    }
}

/// The value of `c` as a decimal digit.
pub fn char_to_digit(c: char) -> (d: Option<u8>)
    ensures
        match d {
            Some(v) => digit_value(c) == Some(v as nat) && v < 10,
            None => digit_value(c) is None,
        },
{
    if c == '0' {
        Some(0)
    } else if c == '1' {
        Some(1)
    } else if c == '2' {
        Some(2)
    } else if c == '3' {
        Some(3)
    } else if c == '4' {
        Some(4)
    } else if c == '5' {
        Some(5)
    } else if c == '6' {
        Some(6)
    } else if c == '7' {
        Some(7)
    } else if c == '8' {
        Some(8)
    } else if c == '9' {
        Some(9)
    } else {
        None
    }
}

/// `n` in decimal.
pub fn decimal_chars(n: u64) -> (out: Vec<char>)
    ensures
        out@ == decimal(n as nat),
    decreases n,
{
    if n < 10 {
        let mut out: Vec<char> = Vec::new();
        out.push(digit_to_char(n as u8));
        out
    } else {
        let mut out = decimal_chars(n / 10);
        out.push(digit_to_char((n % 10) as u8));
        out
    }
}

/// Reads `s` as an unsigned integer no greater than `max`.
pub fn parse_chars(s: &Vec<char>, max: u64) -> (out: Option<u64>)
    ensures
        match out {
            Some(n) => parse_bounded(s@, max as nat) == Some(n as nat),
            None => parse_bounded(s@, max as nat) is None,
        },
{
    let first: usize = if s.len() > 0 && s[0] == '+' {
        1
    } else {
        0
    };
    let ghost body = s@.skip(first as int);
    assert(first == 0 ==> body == s@);
    if first == s.len() {
        return None;
    }
    let mut value: u64 = 0;
    let mut i: usize = first;
    while i < s.len()
        invariant
            first <= i <= s.len(),
            body == s@.skip(first as int),
            parse_nat(s@) == digits_value(body),
            digits_value(body.take(i - first)) == Some(value as nat),
            value <= max,
        decreases s.len() - i,
    {
        let ghost seen = body.take(i - first);
        let ghost more = body.take(i - first + 1);
        proof {
            assert(more.drop_last() == seen);
        }
        match char_to_digit(s[i]) {
            None => {
                proof {
                    lemma_digits_grow(body, i - first + 1);
                }
                return None;
            },
            Some(d) => {
                if d as u64 > max || value > (max - d as u64) / 10 {
                    proof {
                        assert(value as nat * 10 + d as nat > max as nat);
                        lemma_digits_grow(body, i - first + 1);
                    }
                    return None;
                }
                value = value * 10 + d as u64;
            },
        }
        i += 1;
    }
    assert(body.take(s.len() - first) == body);
    Some(value)
}

/// A run of digits is worth at least as much as any of its beginnings.
pub proof fn lemma_digits_grow(s: Seq<char>, k: int)
    requires
        0 <= k <= s.len(),
    ensures
        digits_value(s) matches Some(n) ==> (digits_value(s.take(k)) matches Some(m) && m <= n),
    decreases s.len(),
{
    if k == s.len() {
        assert(s.take(k) == s);
    } else {
        let t = s.drop_last();
        lemma_digits_grow(t, k);
        assert(t.take(k) == s.take(k));
    }
}

} // verus!
