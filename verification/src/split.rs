//! Splitting a line into fields: plain splitting on the delimiter, and the
//! quote convention that lets a field hold the delimiter.

use vstd::prelude::*;
use crate::text::{append_range, chars_view, row_view, to_chars, to_strings};

verus! {

/// The position of the first `c` in `s`; the length of `s` if there is none.
pub open spec fn first_index_of(s: Seq<char>, c: char) -> int
    decreases s.len(),
{
    if s.len() == 0 || s[0] == c {
        0
    } else {
        1 + first_index_of(s.drop_first(), c)
    }
}

/// The segments of `s` between occurrences of the delimiter `d`: the text
/// before the first delimiter, then the segments of what follows it. A text
/// without delimiter is one segment, also when it is empty.
pub open spec fn split_on(s: Seq<char>, d: char) -> Seq<Seq<char>>
    decreases s.len(),
{
    let i = first_index_of(s, d);
    if 0 <= i < s.len() {
        seq![s.take(i)] + split_on(s.skip(i + 1), d)
    } else {
        seq![s]
    }
}

/// The parts written one after another with `sep` between neighbours.
pub open spec fn join_with(parts: Seq<Seq<char>>, sep: Seq<char>) -> Seq<char>
    decreases parts.len(),
{
    if parts.len() == 0 {
        Seq::empty()
    } else if parts.len() == 1 {
        parts[0]
    } else {
        parts[0] + sep + join_with(parts.drop_first(), sep)
    }
}

/// A segment that begins with the quote character opens a quoted field.
pub open spec fn opens_quote(seg: Seq<char>, q: char) -> bool {
    seg.len() > 0 && seg[0] == q
}

/// A segment that ends with the quote character closes a quoted field.
pub open spec fn closes_quote(seg: Seq<char>, q: char) -> bool {
    seg.len() > 0 && seg.last() == q
}

/// The index of the first segment at or after `from` that closes a quoted
/// field; the number of segments if there is none.
pub open spec fn closing_segment(segs: Seq<Seq<char>>, q: char, from: int) -> int
    decreases segs.len() - from,
{
    if from < 0 || from >= segs.len() {
        segs.len() as int
    } else if closes_quote(segs[from], q) {
        from
    } else {
        closing_segment(segs, q, from + 1)
    }
}

/// The text of a quoted field that spans the segments `span`: the segments
/// with the delimiter put back between them, less the opening and the closing
/// quote character.
pub open spec fn quoted_text(span: Seq<Seq<char>>, d: char) -> Seq<char> {
    let whole = join_with(span, seq![d]);
    whole.subrange(1, whole.len() - 1)
}

/// The fields that the quote convention makes of the segments of a line. A
/// segment that opens a quoted field is joined with the segments after it, up
/// to the first later one that closes the field. Every other segment is a
/// field as it stands. A quoted field that is never closed yields nothing.
pub open spec fn merge_quoted(segs: Seq<Seq<char>>, d: char, q: char) -> Seq<Seq<char>>
    decreases segs.len(),
{
    if segs.len() == 0 {
        Seq::empty()
    } else if opens_quote(segs[0], q) {
        let close = closing_segment(segs, q, 1);
        if 1 <= close < segs.len() {
            seq![quoted_text(segs.take(close + 1), d)] + merge_quoted(segs.skip(close + 1), d, q)
        } else {
            Seq::empty()
        }
    } else {
        seq![segs[0]] + merge_quoted(segs.drop_first(), d, q)
    }
}

/// The fields of a line: its segments, merged by the quote convention where a
/// quote character is configured.
pub open spec fn split_fields(line: Seq<char>, d: char, q: Option<char>) -> Seq<Seq<char>> {
    match q {
        Some(quote) => merge_quoted(split_on(line, d), d, quote),
        None => split_on(line, d),
    }
}

/// `first_index_of` is the one position before which `c` does not occur and
/// at which it does, or the length.
pub proof fn lemma_first_index_of(s: Seq<char>, c: char, k: int)
    requires
        0 <= k <= s.len(),
        forall|i: int| 0 <= i < k ==> s[i] != c,
        k == s.len() || s[k] == c,
    ensures
        first_index_of(s, c) == k,
    decreases s.len(),
{
    if k > 0 {
        lemma_first_index_of(s.drop_first(), c, k - 1);
    }
}

/// Where `first_index_of` points.
pub proof fn lemma_first_index_of_bounds(s: Seq<char>, c: char)
    ensures
        0 <= first_index_of(s, c) <= s.len(),
        first_index_of(s, c) < s.len() ==> s[first_index_of(s, c)] == c,
        forall|i: int| 0 <= i < first_index_of(s, c) ==> s[i] != c,
        first_index_of(s, c) < s.len() <==> s.contains(c),
    decreases s.len(),
{
    if !(s.len() == 0 || s[0] == c) {
        let rest = s.drop_first();
        lemma_first_index_of_bounds(rest, c);
        let k = first_index_of(rest, c);
        assert forall|i: int| 0 <= i < k + 1 implies s[i] != c by {
            if i > 0 {
                assert(s[i] == rest[i - 1]);
            }
        }
        if s.contains(c) {
            let i = choose|i: int| 0 <= i < s.len() && s[i] == c;
            assert(rest[i - 1] == c);
        }
    }
}

/// A split has at least one segment, and none of them holds the delimiter.
pub proof fn lemma_split_on_segments(s: Seq<char>, d: char)
    ensures
        split_on(s, d).len() >= 1,
        s.contains(d) <==> split_on(s, d).len() >= 2,
        forall|k: int|
            0 <= k < split_on(s, d).len() ==> !(#[trigger] split_on(s, d)[k]).contains(d),
    decreases s.len(),
{
    lemma_first_index_of_bounds(s, d);
    let i = first_index_of(s, d);
    if 0 <= i < s.len() {
        lemma_split_on_segments(s.skip(i + 1), d);
    }
}

/// Joining the segments of a split with the delimiter gives the text back.
pub proof fn lemma_join_of_split(s: Seq<char>, d: char)
    ensures
        join_with(split_on(s, d), seq![d]) == s,
    decreases s.len(),
{
    lemma_first_index_of_bounds(s, d);
    let i = first_index_of(s, d);
    if 0 <= i < s.len() {
        lemma_join_of_split(s.skip(i + 1), d);
        lemma_split_on_segments(s.skip(i + 1), d);
        assert(split_on(s, d).drop_first() =~= split_on(s.skip(i + 1), d));
    }
}

/// Joining one more part adds the separator and the part.
pub proof fn lemma_join_push(parts: Seq<Seq<char>>, sep: Seq<char>, part: Seq<char>)
    requires
        parts.len() > 0,
    ensures
        join_with(parts.push(part), sep) == join_with(parts, sep) + sep + part,
    decreases parts.len(),
{
    let more = parts.push(part);
    if parts.len() == 1 {
        assert(join_with(more.drop_first(), sep) == part);
    } else {
        lemma_join_push(parts.drop_first(), sep, part);
        assert(more.drop_first() =~= parts.drop_first().push(part));
    }
}

/// `closing_segment` is the first segment from `from` on that closes.
pub proof fn lemma_closing_segment(segs: Seq<Seq<char>>, q: char, from: int, close: int)
    requires
        0 <= from <= close <= segs.len(),
        forall|j: int| from <= j < close ==> !closes_quote(#[trigger] segs[j], q),
        close == segs.len() || closes_quote(segs[close], q),
    ensures
        closing_segment(segs, q, from) == close,
    decreases close - from,
{
    if from < close {
        lemma_closing_segment(segs, q, from + 1, close);
    }
}

/// Where `closing_segment` points: at or after `from`, at a segment that
/// closes, and before every other one from `from` on that closes.
pub proof fn lemma_closing_segment_bounds(segs: Seq<Seq<char>>, q: char, from: int)
    requires
        0 <= from <= segs.len(),
    ensures
        from <= closing_segment(segs, q, from) <= segs.len(),
        closing_segment(segs, q, from) < segs.len() ==> closes_quote(
            segs[closing_segment(segs, q, from)],
            q,
        ),
        forall|j: int|
            from <= j < closing_segment(segs, q, from) ==> !closes_quote(#[trigger] segs[j], q),
    decreases segs.len() - from,
{
    if from < segs.len() && !closes_quote(segs[from], q) {
        lemma_closing_segment_bounds(segs, q, from + 1);
    }
}

/// Where no segment opens a quoted field, every segment is a field.
pub proof fn lemma_merge_unquoted(segs: Seq<Seq<char>>, d: char, q: char)
    requires
        forall|i: int| 0 <= i < segs.len() ==> !opens_quote(#[trigger] segs[i], q),
    ensures
        merge_quoted(segs, d, q) == segs,
    decreases segs.len(),
{
    if segs.len() > 0 {
        lemma_merge_unquoted(segs.drop_first(), d, q);
    }
}

/// Joining fewer of the parts, with a separator that is not empty, gives a
/// shorter text.
pub proof fn lemma_join_take_is_shorter(parts: Seq<Seq<char>>, sep: Seq<char>, k: int)
    requires
        1 <= k < parts.len(),
        sep.len() > 0,
    ensures
        join_with(parts.take(k), sep).len() < join_with(parts, sep).len(),
    decreases parts.len() - k,
{
    let next = parts.take(k + 1);
    assert(next =~= parts.take(k).push(parts[k]));
    lemma_join_push(parts.take(k), sep, parts[k]);
    if k + 1 < parts.len() {
        lemma_join_take_is_shorter(parts, sep, k + 1);
    } else {
        assert(next =~= parts);
    }
}

/// The segments of `line` between occurrences of `d`.
pub fn split_chars(line: &Vec<char>, d: char) -> (segs: Vec<Vec<char>>)
    ensures
        chars_view(segs@) == split_on(line@, d),
{
    let n = line.len();
    let mut segs: Vec<Vec<char>> = Vec::new();
    let mut current: Vec<char> = Vec::new();
    let mut i: usize = 0;
    let ghost mut start: int = 0;
    proof {
        assert(line@.skip(0) =~= line@);
    }
    while i < n
        invariant
            n == line.len(),
            0 <= start <= i <= n,
            current@ == line@.subrange(start, i as int),
            forall|k: int| start <= k < i ==> line@[k] != d,
            chars_view(segs@) + split_on(line@.skip(start), d) == split_on(line@, d),
        decreases n - i,
    {
        let c = line[i];
        if c == d {
            proof {
                let rest = line@.skip(start);
                lemma_first_index_of(rest, d, i - start);
                assert(rest.take(i - start) =~= current@);
                assert(rest.skip(i - start + 1) =~= line@.skip(i + 1));
                start = i + 1;
            }
            segs.push(current);
            current = Vec::new();
        } else {
            current.push(c);
        }
        i += 1;
    }
    proof {
        let rest = line@.skip(start);
        lemma_first_index_of(rest, d, rest.len() as int);
    }
    segs.push(current);
    segs
}

/// The fields that the quote convention makes of the segments `segs`.
pub fn merge_chars(segs: &Vec<Vec<char>>, d: char, q: char) -> (fields: Vec<Vec<char>>)
    ensures
        chars_view(fields@) == merge_quoted(chars_view(segs@), d, q),
{
    let n = segs.len();
    let mut fields: Vec<Vec<char>> = Vec::new();
    let mut quoted = false;
    let mut current: Vec<char> = Vec::new();
    let mut i: usize = 0;
    let ghost all = chars_view(segs@);
    let ghost mut open: int = 0;
    proof {
        assert(all.skip(0) =~= all);
    }
    while i < n
        invariant
            n == segs.len(),
            i <= n,
            all == chars_view(segs@),
            !quoted ==> current@.len() == 0 && chars_view(fields@) + merge_quoted(
                all.skip(i as int),
                d,
                q,
            ) == merge_quoted(all, d, q),
            quoted ==> {
                &&& 0 <= open < i
                &&& opens_quote(all[open], q)
                &&& forall|j: int| open < j < i ==> !closes_quote(#[trigger] all[j], q)
                &&& current@ == (join_with(all.subrange(open, i as int), seq![d]) + seq![d]).skip(1)
                &&& chars_view(fields@) + merge_quoted(all.skip(open), d, q) == merge_quoted(
                    all,
                    d,
                    q,
                )
            },
        decreases n - i,
    {
        let p = &segs[i];
        let len = p.len();
        if !quoted {
            if len > 0 && p[0] == q {
                quoted = true;
                append_range(&mut current, p, 1, len);
                current.push(d);
                proof {
                    open = i as int;
                }
            } else {
                let mut field: Vec<char> = Vec::new();
                append_range(&mut field, p, 0, len);
                proof {
                    assert(field@ =~= p@);
                    assert(all.skip(i as int).drop_first() =~= all.skip(i + 1));
                }
                fields.push(field);
            }
        } else {
            let ghost span = all.subrange(open, i as int);
            proof {
                lemma_join_push(span, seq![d], p@);
                assert(all.subrange(open, i + 1) =~= span.push(p@));
            }
            if len > 0 && p[len - 1] == q {
                quoted = false;
                append_range(&mut current, p, 0, len - 1);
                proof {
                    let from_open = all.skip(open);
                    lemma_closing_segment(from_open, q, 1, i - open);
                    assert(from_open.take(i - open + 1) =~= span.push(p@));
                    assert(from_open.skip(i - open + 1) =~= all.skip(i + 1));
                    let whole = join_with(span, seq![d]) + seq![d] + p@;
                    assert(current@ =~= whole.subrange(1, whole.len() - 1));
                }
                fields.push(current);
                current = Vec::new();
            } else {
                append_range(&mut current, p, 0, len);
                current.push(d);
            }
        }
        i += 1;
    }
    proof {
        if quoted {
            let from_open = all.skip(open);
            lemma_closing_segment(from_open, q, 1, from_open.len() as int);
        }
    }
    fields
}

/// The fields of `line`, as character vectors.
pub fn split_fields_chars(line: &Vec<char>, d: char, q: Option<char>) -> (fields: Vec<Vec<char>>)
    ensures
        chars_view(fields@) == split_fields(line@, d, q),
{
    let segs = split_chars(line, d);
    match q {
        Some(quote) => merge_chars(&segs, d, quote),
        None => segs,
    }
}

/// Splits `line` into its fields. The line is cut at every `delim`. Where a
/// quote character is given, a piece that begins with it opens a quoted field,
/// which runs up to the first later piece that ends with the quote character;
/// the delimiters inside it belong to the field, the two quote characters do
/// not.
pub fn split_line(line: &str, delim: char, quote_char: Option<char>) -> (fields: Vec<String>)
    ensures
        row_view(fields@) == split_fields(line@, delim, quote_char),
{
    let chars = to_chars(line);
    let fields = split_fields_chars(&chars, delim, quote_char);
    to_strings(&fields)
}

} // verus!
