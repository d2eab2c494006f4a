//! Character-level primitives shared by the detector, the path rules and the
//! renderer: white space, lines, prefixes and decimal numbers.
//!
//! Text is modelled as `Seq<char>`; executable code works on `Vec<char>` and
//! converts at the edges.

use vstd::prelude::*;

verus! {

/// The line feed, the only character that ends a line.
pub const LINE_FEED: char = '\n';

/// The carriage return.
pub const CARRIAGE_RETURN: char = '\r';

/// The characters that count as white space: the code points that carry
/// the Unicode `White_Space` property.
pub open spec fn is_whitespace(c: char) -> bool {
    let n = c as u32;
    ||| 0x09 <= n <= 0x0D
    ||| n == 0x20
    ||| n == 0x85
    ||| n == 0xA0
    ||| n == 0x1680
    ||| 0x2000 <= n <= 0x200A
    ||| n == 0x2028
    ||| n == 0x2029
    ||| n == 0x202F
    ||| n == 0x205F
    ||| n == 0x3000
}

/// Decides [`is_whitespace`].
pub fn char_is_whitespace(c: char) -> (b: bool)
    ensures
        b == is_whitespace(c),
{
    let n: u32 = c as u32;
    (0x09 <= n && n <= 0x0D) || n == 0x20 || n == 0x85 || n == 0xA0 || n == 0x1680 || (0x2000 <= n
        && n <= 0x200A) || n == 0x2028 || n == 0x2029 || n == 0x202F || n == 0x205F || n == 0x3000
}

/// The characters of a string, in order.
pub fn chars_of(s: &str) -> (v: Vec<char>)
    ensures
        v@ == s@,
{
    let mut v: Vec<char> = Vec::new();
    for c in it: s.chars()
        invariant
            v@ == it.seq().take(it.index() as int),
    {
        v.push(c);
    }
    v
}

/// `String::from_iter` over the characters of a vector: the string that is
/// made of exactly these characters, in this order.
#[verifier::external_body]
pub(crate) fn string_of(chars: &Vec<char>) -> (s: String)
    ensures
        s@ == chars@,
{
    String::from_iter(chars.iter())
}

/// The texts that a list of strings holds.
pub open spec fn texts(strings: Seq<String>) -> Seq<Seq<char>> {
    Seq::new(strings.len(), |i: int| strings[i]@)
}

/// Appends the characters of `tail` to `out`.
pub fn push_all(out: &mut Vec<char>, tail: &Vec<char>)
    ensures
        final(out)@ == old(out)@ + tail@,
{
    let mut i: usize = 0;
    while i < tail.len()
        invariant
            i <= tail.len(),
            out@ == old(out)@ + tail@.take(i as int),
        decreases tail.len() - i,
    {
        out.push(tail[i]);
        i += 1;
    }
}

/// Appends the characters of the string `tail` to `out`.
pub fn push_str(out: &mut Vec<char>, tail: &str)
    ensures
        final(out)@ == old(out)@ + tail@,
{
    let chars = chars_of(tail);
    push_all(out, &chars);
}

/// Whether two texts hold the same characters.
pub fn same_text(a: &Vec<char>, b: &Vec<char>) -> (same: bool)
    ensures
        same == (a@ == b@),
{
    if a.len() != b.len() {
        return false;
    }
    let mut i: usize = 0;
    while i < a.len()
        invariant
            i <= a.len(),
            a.len() == b.len(),
            a@.take(i as int) == b@.take(i as int),
        decreases a.len() - i,
    {
        if a[i] != b[i] {
            return false;
        }
        assert(a@.take(i + 1) == a@.take(i as int).push(a@[i as int]));
        assert(b@.take(i + 1) == b@.take(i as int).push(b@[i as int]));
        i += 1;
    }
    assert(a@ == a@.take(a.len() as int));
    assert(b@ == b@.take(b.len() as int));
    true
}

/// `text` begins with the characters of `prefix`.
pub open spec fn has_prefix(text: Seq<char>, prefix: Seq<char>) -> bool {
    prefix.len() <= text.len() && text.take(prefix.len() as int) == prefix
}

/// Decides [`has_prefix`].
pub fn starts_with(text: &Vec<char>, prefix: &Vec<char>) -> (b: bool)
    ensures
        b == has_prefix(text@, prefix@),
{
    if prefix.len() > text.len() {
        return false;
    }
    let mut i: usize = 0;
    while i < prefix.len()
        invariant
            i <= prefix.len() <= text.len(),
            text@.take(i as int) == prefix@.take(i as int),
        decreases prefix.len() - i,
    {
        if text[i] != prefix[i] {
            assert(text@.take(prefix.len() as int)[i as int] != prefix@[i as int]);
            return false;
        }
        assert(text@.take(i + 1) == text@.take(i as int).push(text@[i as int]));
        assert(prefix@.take(i + 1) == prefix@.take(i as int).push(prefix@[i as int]));
        i += 1;
    }
    assert(prefix@ == prefix@.take(prefix.len() as int));
    true
}

/// `text` holds the character `c` somewhere.
pub open spec fn has_char(text: Seq<char>, c: char) -> bool {
    exists|i: int| 0 <= i < text.len() && text[i] == c
}

/// Decides [`has_char`].
pub fn contains_char(text: &Vec<char>, c: char) -> (b: bool)
    ensures
        b == has_char(text@, c),
{
    let mut i: usize = 0;
    while i < text.len()
        invariant
            i <= text.len(),
            forall|j: int| 0 <= j < i ==> text@[j] != c,
        decreases text.len() - i,
    {
        if text[i] == c {
            return true;
        }
        i += 1;
    }
    false
}

/// `text` holds a carriage return directly followed by a line feed.
pub open spec fn has_crlf(text: Seq<char>) -> bool {
    exists|i: int|
        0 <= i && i + 1 < text.len() && text[i] == CARRIAGE_RETURN && #[trigger] text[i + 1]
            == LINE_FEED
}

/// Decides [`has_crlf`].
pub fn contains_crlf(text: &Vec<char>) -> (b: bool)
    ensures
        b == has_crlf(text@),
{
    let mut i: usize = 1;
    while i < text.len()
        invariant
            1 <= i,
            forall|j: int|
                0 <= j && j + 1 < i && j + 1 < text.len() ==> !(text@[j] == CARRIAGE_RETURN
                    && #[trigger] text@[j + 1] == LINE_FEED),
        decreases text.len() - i,
    {
        if text[i - 1] == CARRIAGE_RETURN && text[i] == LINE_FEED {
            assert(text@[(i - 1) + 1] == LINE_FEED);
            return true;
        }
        i += 1;
    }
    false
}

/// The last character of the line is white space.
pub open spec fn ends_in_whitespace(line: Seq<char>) -> bool {
    line.len() > 0 && is_whitespace(line.last())
}

/// Decides [`ends_in_whitespace`].
pub fn line_ends_in_whitespace(line: &Vec<char>) -> (b: bool)
    ensures
        b == ends_in_whitespace(line@),
{
    line.len() > 0 && char_is_whitespace(line[line.len() - 1])
}

/// What is left of a text once the white space at its end is taken away.
pub open spec fn trim_end(text: Seq<char>) -> Seq<char>
    decreases text.len(),
{
    if ends_in_whitespace(text) {
        trim_end(text.drop_last())
    } else {
        text
    }
}

/// What is left of a text once the white space at its start is taken away.
pub open spec fn trim_start(text: Seq<char>) -> Seq<char>
    decreases text.len(),
{
    if text.len() > 0 && is_whitespace(text.first()) {
        trim_start(text.drop_first())
    } else {
        text
    }
}

/// A text without the white space at either end.
pub open spec fn trim(text: Seq<char>) -> Seq<char> {
    trim_end(trim_start(text))
}

/// Taking the white space away from the end of a line shortens it exactly
/// when the line ends in white space.
pub proof fn lemma_trim_end_shortens(line: Seq<char>)
    ensures
        trim_end(line).len() <= line.len(),
        (trim_end(line).len() != line.len()) == ends_in_whitespace(line),
        trim_end(line) == line.take(trim_end(line).len() as int),
        !ends_in_whitespace(trim_end(line)),
    decreases line.len(),
{
    if ends_in_whitespace(line) {
        lemma_trim_end_shortens(line.drop_last());
        let rest = line.drop_last();
        assert(rest.take(trim_end(rest).len() as int) =~= line.take(trim_end(rest).len() as int));
    } else {
        assert(line.take(line.len() as int) =~= line);
    }
}

/// Computes [`trim`].
pub fn trimmed(text: &Vec<char>) -> (out: Vec<char>)
    ensures
        out@ == trim(text@),
{
    let mut start: usize = 0;
    assert(text@.skip(0) == text@);
    while start < text.len() && char_is_whitespace(text[start])
        invariant
            start <= text.len(),
            trim_start(text@) == trim_start(text@.skip(start as int)),
        decreases text.len() - start,
    {
        assert(text@.skip(start as int).drop_first() == text@.skip(start + 1));
        start += 1;
    }
    let mut end: usize = text.len();
    assert(text@.subrange(start as int, end as int) == text@.skip(start as int));
    while end > start && char_is_whitespace(text[end - 1])
        invariant
            start <= end <= text.len(),
            trim_start(text@) == text@.skip(start as int),
            trim(text@) == trim_end(text@.subrange(start as int, end as int)),
        decreases end,
    {
        assert(text@.subrange(start as int, end as int).drop_last() == text@.subrange(
            start as int,
            end - 1,
        ));
        end -= 1;
    }
    let mut out: Vec<char> = Vec::new();
    let mut i: usize = start;
    while i < end
        invariant
            start <= i <= end <= text.len(),
            out@ == text@.subrange(start as int, i as int),
        decreases end - i,
    {
        out.push(text[i]);
        assert(text@.subrange(start as int, i + 1) == text@.subrange(start as int, i as int).push(
            text@[i as int],
        ));
        i += 1;
    }
    out
}

/// The segments of a text between its line feeds, in order. A text with
/// `n` line feeds has `n + 1` segments; the last one is what follows the
/// last line feed, and is empty when the text ends in one.
pub open spec fn split_lines(text: Seq<char>) -> Seq<Seq<char>>
    decreases text.len(),
{
    if text.len() == 0 {
        seq![Seq::<char>::empty()]
    } else {
        let before = split_lines(text.drop_last());
        if text.last() == LINE_FEED {
            before.push(Seq::<char>::empty())
        } else {
            before.drop_last().push(before.last().push(text.last()))
        }
    }
}

/// The segments put together again, with one line feed between neighbours.
pub open spec fn join_lines(lines: Seq<Seq<char>>) -> Seq<char>
    decreases lines.len(),
{
    if lines.len() == 0 {
        Seq::<char>::empty()
    } else if lines.len() == 1 {
        lines[0]
    } else {
        join_lines(lines.drop_last()).push(LINE_FEED) + lines.last()
    }
}

/// No segment holds a line feed.
pub open spec fn line_feed_free(lines: Seq<Seq<char>>) -> bool {
    forall|i: int| 0 <= i < lines.len() ==> !has_char(#[trigger] lines[i], LINE_FEED)
}

/// Splitting never gives an empty list, gives segments without line
/// feeds, and loses nothing: joined again they are the text.
pub proof fn lemma_split_then_join(text: Seq<char>)
    ensures
        split_lines(text).len() >= 1,
        split_lines(text).len() <= text.len() + 1,
        line_feed_free(split_lines(text)),
        join_lines(split_lines(text)) == text,
    decreases text.len(),
{
    if text.len() == 0 {
        assert(split_lines(text)[0] =~= Seq::<char>::empty());
        assert(join_lines(split_lines(text)) =~= text);
    } else {
        let body = text.drop_last();
        let before = split_lines(body);
        lemma_split_then_join(body);
        let lines = split_lines(text);
        if text.last() == LINE_FEED {
            assert(lines.drop_last() =~= before);
            assert(join_lines(lines) =~= body.push(LINE_FEED) + Seq::<char>::empty());
            assert(body.push(LINE_FEED) + Seq::<char>::empty() =~= text);
            assert forall|i: int| 0 <= i < lines.len() implies !has_char(
                #[trigger] lines[i],
                LINE_FEED,
            ) by {
                if i < before.len() {
                    assert(lines[i] == before[i]);
                }
            }
        } else {
            let grown = before.last().push(text.last());
            assert(lines.last() == grown);
            assert forall|i: int| 0 <= i < lines.len() implies !has_char(
                #[trigger] lines[i],
                LINE_FEED,
            ) by {
                if i < before.len() - 1 {
                    assert(lines[i] == before[i]);
                } else {
                    assert(!has_char(before[i], LINE_FEED));
                    if has_char(grown, LINE_FEED) {
                        let j = choose|j: int| 0 <= j < grown.len() && grown[j] == LINE_FEED;
                        assert(before.last()[j] == LINE_FEED);
                    }
                }
            }
            if before.len() == 1 {
                assert(join_lines(before) == before[0]);
                assert(join_lines(lines) =~= text);
            } else {
                assert(lines.drop_last() =~= before.drop_last());
                assert(join_lines(before) == join_lines(before.drop_last()).push(LINE_FEED)
                    + before.last());
                assert(join_lines(lines) =~= join_lines(before).push(text.last()));
                assert(body.push(text.last()) =~= text);
            }
        }
    }
}

/// Appending characters other than the line feed lengthens the last segment.
proof fn lemma_split_grow_last(text: Seq<char>, tail: Seq<char>)
    requires
        !has_char(tail, LINE_FEED),
    ensures
        split_lines(text + tail) == split_lines(text).drop_last().push(
            split_lines(text).last() + tail,
        ),
    decreases tail.len(),
{
    lemma_split_then_join(text);
    let lines = split_lines(text);
    if tail.len() == 0 {
        assert(text + tail =~= text);
        assert(lines.last() + tail =~= lines.last());
        assert(lines.drop_last().push(lines.last()) =~= lines);
    } else {
        let head = tail.drop_last();
        assert(!has_char(head, LINE_FEED)) by {
            if has_char(head, LINE_FEED) {
                let j = choose|j: int| 0 <= j < head.len() && head[j] == LINE_FEED;
                assert(tail[j] == LINE_FEED);
            }
        }
        lemma_split_grow_last(text, head);
        assert((text + tail).drop_last() =~= text + head);
        assert((text + tail).last() == tail.last());
        assert(tail.last() != LINE_FEED) by {
            if tail.last() == LINE_FEED {
                assert(tail[tail.len() - 1] == LINE_FEED);
            }
        }
        let before = split_lines(text + head);
        assert(before.drop_last() =~= lines.drop_last());
        assert((lines.last() + head).push(tail.last()) =~= lines.last() + tail);
    }
}

/// A list of segments without line feeds is what splitting their join gives:
/// together with [`lemma_split_then_join`], splitting and joining undo each
/// other.
pub proof fn lemma_join_then_split(lines: Seq<Seq<char>>)
    requires
        lines.len() >= 1,
        line_feed_free(lines),
    ensures
        split_lines(join_lines(lines)) == lines,
    decreases lines.len(),
{
    if lines.len() == 1 {
        let empty = Seq::<char>::empty();
        lemma_split_grow_last(empty, lines[0]);
        assert(empty + lines[0] =~= lines[0]);
        assert(split_lines(empty) =~= seq![empty]);
        assert(split_lines(lines[0]) =~= lines);
    } else {
        let front = lines.drop_last();
        assert(line_feed_free(front)) by {
            assert forall|i: int| 0 <= i < front.len() implies !has_char(
                #[trigger] front[i],
                LINE_FEED,
            ) by {
                assert(front[i] == lines[i]);
            }
        }
        lemma_join_then_split(front);
        let joined = join_lines(front).push(LINE_FEED);
        assert(joined.drop_last() =~= join_lines(front));
        assert(split_lines(joined) == front.push(Seq::<char>::empty()));
        assert(!has_char(lines.last(), LINE_FEED)) by {
            assert(lines.last() == lines[lines.len() - 1]);
        }
        lemma_split_grow_last(joined, lines.last());
        assert(Seq::<char>::empty() + lines.last() =~= lines.last());
        assert(front.push(Seq::<char>::empty()).drop_last() =~= front);
        assert(front.push(lines.last()) =~= lines);
    }
}

/// The texts that a vector of lines holds.
pub open spec fn line_texts(lines: Seq<Vec<char>>) -> Seq<Seq<char>> {
    Seq::new(lines.len(), |i: int| lines[i]@)
}

/// Computes [`split_lines`].
pub fn lines_of(text: &Vec<char>) -> (lines: Vec<Vec<char>>)
    ensures
        line_texts(lines@) == split_lines(text@),
        1 <= lines.len() <= text.len() + 1,
{
    let mut lines: Vec<Vec<char>> = Vec::new();
    let mut current: Vec<char> = Vec::new();
    let mut i: usize = 0;
    assert(text@.take(0) =~= Seq::<char>::empty());
    assert(line_texts(lines@).push(current@) =~= split_lines(text@.take(0)));
    while i < text.len()
        invariant
            i <= text.len(),
            lines.len() <= i,
            line_texts(lines@).push(current@) == split_lines(text@.take(i as int)),
        decreases text.len() - i,
    {
        let c = text[i];
        let ghost before = line_texts(lines@).push(current@);
        let ghost done = line_texts(lines@);
        let ghost pending = current@;
        assert(text@.take(i + 1).drop_last() == text@.take(i as int));
        assert(text@.take(i + 1).last() == c);
        if c == LINE_FEED {
            lines.push(current);
            current = Vec::new();
            assert(line_texts(lines@) =~= before);
        } else {
            current.push(c);
            assert(before.drop_last() =~= done);
            assert(before.last() == pending);
        }
        i += 1;
    }
    assert(text@.take(text.len() as int) == text@);
    let ghost done = line_texts(lines@);
    let ghost pending = current@;
    lines.push(current);
    assert(line_texts(lines@) =~= done.push(pending));
    lines
}

/// A line without the carriage return that may stand at its end.
pub open spec fn without_carriage_return(line: Seq<char>) -> Seq<char> {
    if line.len() > 0 && line.last() == CARRIAGE_RETURN {
        line.drop_last()
    } else {
        line
    }
}

/// The lines of a listing. A line ends in a line feed, or in a carriage
/// return and a line feed, and neither belongs to it; what follows the last
/// line feed is a line of its own, carriage returns and all, unless it is
/// empty.
pub open spec fn listing_lines(text: Seq<char>) -> Seq<Seq<char>> {
    let segments = split_lines(text);
    let ended = Seq::new(
        (segments.len() - 1) as nat,
        |i: int| without_carriage_return(segments[i]),
    );
    if segments.last().len() == 0 {
        ended
    } else {
        ended.push(segments.last())
    }
}

/// Computes [`listing_lines`].
pub fn lines_of_listing(text: &Vec<char>) -> (lines: Vec<Vec<char>>)
    ensures
        line_texts(lines@) == listing_lines(text@),
{
    let mut lines = lines_of(text);
    let ghost segments = split_lines(text@);
    let ghost whole = lines@;
    let last = lines.pop().unwrap();
    assert(line_texts(lines@) =~= segments.drop_last());
    assert(last@ == segments.last()) by {
        assert(line_texts(whole)[segments.len() - 1] == segments.last());
    }
    let mut i: usize = 0;
    while i < lines.len()
        invariant
            i <= lines.len(),
            lines.len() == segments.len() - 1,
            forall|j: int| 0 <= j < i ==> lines@[j]@ == without_carriage_return(segments[j]),
            forall|j: int| i <= j < lines.len() ==> lines@[j]@ == segments[j],
        decreases lines.len() - i,
    {
        let n = lines[i].len();
        assert(line_texts(lines@)[i as int] == lines@[i as int]@);
        if n > 0 && lines[i][n - 1] == CARRIAGE_RETURN {
            let mut line: Vec<char> = Vec::new();
            let mut k: usize = 0;
            while k < n - 1
                invariant
                    k <= n - 1,
                    n == lines@[i as int]@.len(),
                    i < lines.len(),
                    line@ == lines@[i as int]@.take(k as int),
                decreases n - 1 - k,
            {
                line.push(lines[i][k]);
                assert(lines@[i as int]@.take(k + 1) == lines@[i as int]@.take(k as int).push(
                    lines@[i as int]@[k as int],
                ));
                k += 1;
            }
            assert(line@ == lines@[i as int]@.drop_last());
            lines.set(i, line);
        }
        i += 1;
    }
    if last.len() > 0 {
        lines.push(last);
    }
    assert(line_texts(lines@) =~= listing_lines(text@));
    lines
}

/// The digit character for a value below ten.
pub open spec fn digit_char(d: int) -> char {
    if d == 0 {
        '0'
    } else if d == 1 {
        '1'
    } else if d == 2 {
        '2'
    } else if d == 3 {
        '3'
    } else if d == 4 {
        '4'
    } else if d == 5 {
        '5'
    } else if d == 6 {
        '6'
    } else if d == 7 {
        '7'
    } else if d == 8 {
        '8'
    } else {
        '9'
    }
}

/// A natural number written in base ten, without leading zeros.
pub open spec fn decimal(n: nat) -> Seq<char>
    decreases n,
{
    if n < 10 {
        seq![digit_char(n as int)]
    } else {
        decimal(n / 10).push(digit_char((n % 10) as int))
    }
}

/// An integer written in base ten, with a minus sign in front when it is
/// negative.
pub open spec fn signed_decimal(n: int) -> Seq<char> {
    if n < 0 {
        seq!['-'] + decimal((-n) as nat)
    } else {
        decimal(n as nat)
    }
}

fn digit_of(d: u64) -> (c: char)
    requires
        d < 10,
    ensures
        c == digit_char(d as int),
{
    if d == 0 {
        '0'
    } else if d == 1 {
        '1'
    } else if d == 2 {
        '2'
    } else if d == 3 {
        '3'
    } else if d == 4 {
        '4'
    } else if d == 5 {
        '5'
    } else if d == 6 {
        '6'
    } else if d == 7 {
        '7'
    } else if d == 8 {
        '8'
    } else {
        '9'
    }
}

/// The decimal digits of `n`, least significant first.
spec fn digits_reversed(n: nat) -> Seq<char>
    decreases n,
{
    if n < 10 {
        seq![digit_char(n as int)]
    } else {
        seq![digit_char((n % 10) as int)] + digits_reversed(n / 10)
    }
}

proof fn lemma_digits_reversed(n: nat)
    ensures
        digits_reversed(n).reverse() == decimal(n),
    decreases n,
{
    if n < 10 {
        assert(digits_reversed(n).reverse() =~= decimal(n));
    } else {
        lemma_digits_reversed(n / 10);
        let d = seq![digit_char((n % 10) as int)];
        let rest = digits_reversed(n / 10);
        assert((d + rest).reverse() =~= rest.reverse().push(digit_char((n % 10) as int)));
    }
}

/// Appends [`decimal`] of `n` to `out`.
pub fn push_decimal(out: &mut Vec<char>, n: u64)
    ensures
        final(out)@ == old(out)@ + decimal(n as nat),
{
    let mut low: Vec<char> = Vec::new();
    let mut rest: u64 = n;
    while rest >= 10
        invariant
            low@ + digits_reversed(rest as nat) == digits_reversed(n as nat),
        decreases rest,
    {
        let ghost before = low@;
        low.push(digit_of(rest % 10));
        assert(low@ + digits_reversed((rest / 10) as nat) =~= before + digits_reversed(
            rest as nat,
        ));
        rest = rest / 10;
    }
    let ghost before = low@;
    low.push(digit_of(rest));
    assert(low@ =~= before + digits_reversed(rest as nat));
    proof {
        lemma_digits_reversed(n as nat);
    }
    let mut i: usize = low.len();
    while i > 0
        invariant
            i <= low.len(),
            out@ == old(out)@ + low@.reverse().take(low.len() - i),
        decreases i,
    {
        i -= 1;
        let ghost before = out@;
        out.push(low[i]);
        assert(low@.reverse().take(low.len() - i) =~= low@.reverse().take(low.len() - i - 1).push(
            low@[i as int],
        ));
    }
    assert(low@.reverse().take(low.len() as int) =~= low@.reverse());
}

/// Appends [`signed_decimal`] of `n` to `out`.
pub fn push_signed_decimal(out: &mut Vec<char>, n: i64)
    ensures
        final(out)@ == old(out)@ + signed_decimal(n as int),
{
    if n < 0 {
        out.push('-');
        let magnitude: u64 = if n == i64::MIN {
            0x8000_0000_0000_0000u64
        } else {
            (-n) as u64
        };
        let ghost before = out@;
        push_decimal(out, magnitude);
        assert(out@ =~= old(out)@ + (seq!['-'] + decimal((-n) as nat)));
    } else {
        push_decimal(out, n as u64);
    }
}

} // verus!
