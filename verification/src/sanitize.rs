//! Preparing one field for output: trimming, and wrapping in quote characters
//! where the field holds the output delimiter.

use vstd::prelude::*;
use crate::split::{
    closes_quote, closing_segment, first_index_of, lemma_closing_segment,
    lemma_closing_segment_bounds, lemma_first_index_of, lemma_first_index_of_bounds,
    lemma_join_of_split, lemma_join_take_is_shorter, lemma_merge_unquoted,
    lemma_split_on_segments, merge_quoted, opens_quote, quoted_text, split_fields, split_on,
};
use crate::text::{append_range, chars_view, from_chars, has_char, to_chars, trim, trimmed};

verus! {

/// A field as it is written out: trimmed, and, where what is left holds the
/// delimiter `d`, set between two quote characters `q`.
pub open spec fn sanitized(raw: Seq<char>, d: char, q: char) -> Seq<char> {
    let cell = trimmed(raw);
    if cell.contains(d) {
        seq![q] + cell + seq![q]
    } else {
        cell
    }
}

/// Every field of a row as it is written out.
pub open spec fn sanitized_row(raw: Seq<Seq<char>>, d: char, q: char) -> Seq<Seq<char>> {
    raw.map_values(|field: Seq<char>| sanitized(field, d, q))
}

/// A character other than the delimiter in front of a text goes in front of
/// its first segment.
pub proof fn lemma_split_on_prepend(s: Seq<char>, d: char, c: char)
    requires
        c != d,
    ensures
        split_on(seq![c] + s, d) == split_on(s, d).update(0, seq![c] + split_on(s, d)[0]),
{
    let t = seq![c] + s;
    lemma_first_index_of_bounds(s, d);
    lemma_split_on_segments(s, d);
    let i = first_index_of(s, d);
    assert(t.drop_first() =~= s);
    if 0 <= i < s.len() {
        assert(t.take(i + 1) =~= seq![c] + s.take(i));
        assert(t.skip(i + 2) =~= s.skip(i + 1));
    }
}

/// A character other than the delimiter behind a text goes behind its last
/// segment.
pub proof fn lemma_split_on_append(s: Seq<char>, d: char, c: char)
    requires
        c != d,
    ensures
        split_on(s + seq![c], d) == split_on(s, d).update(
            split_on(s, d).len() - 1,
            split_on(s, d).last() + seq![c],
        ),
    decreases s.len(),
{
    let t = s + seq![c];
    lemma_first_index_of_bounds(s, d);
    lemma_split_on_segments(s, d);
    let i = first_index_of(s, d);
    if 0 <= i < s.len() {
        lemma_first_index_of(t, d, i);
        let rest = s.skip(i + 1);
        lemma_split_on_append(rest, d, c);
        lemma_split_on_segments(rest, d);
        assert(t.take(i) =~= s.take(i));
        assert(t.skip(i + 1) =~= rest + seq![c]);
    } else {
        lemma_first_index_of(t, d, t.len() as int);
    }
}

/// Quote round trip. A field whose trimmed text holds the delimiter is written
/// between two quote characters, and splitting what was written, with the same
/// delimiter and quote character, gives one field: the trimmed text. This holds
/// where the quote character differs from the delimiter and no piece of the
/// trimmed text that lies between two delimiters ends with the quote character.
pub proof fn lemma_quote_round_trip(raw: Seq<char>, d: char, q: char)
    requires
        trimmed(raw).contains(d),
        q != d,
        forall|i: int|
            0 < i < split_on(trimmed(raw), d).len() - 1 ==> !closes_quote(
                #[trigger] split_on(trimmed(raw), d)[i],
                q,
            ),
    ensures
        sanitized(raw, d, q) == seq![q] + trimmed(raw) + seq![q],
        split_fields(sanitized(raw, d, q), d, Some(q)) == seq![trimmed(raw)],
{
    let cell = trimmed(raw);
    let inner = split_on(cell, d);
    let front = seq![q] + cell;
    let wrapped = front + seq![q];
    let outer = split_on(wrapped, d);
    lemma_split_on_segments(cell, d);
    lemma_split_on_prepend(cell, d, q);
    lemma_split_on_append(front, d, q);
    let last = inner.len() - 1;
    lemma_closing_segment(outer, q, 1, last);
    lemma_join_of_split(wrapped, d);
    assert(outer.take(last + 1) =~= outer);
    assert(outer.skip(last + 1) =~= Seq::<Seq<char>>::empty());
    assert(wrapped.subrange(1, wrapped.len() - 1) =~= cell);
    assert(merge_quoted(Seq::<Seq<char>>::empty(), d, q) =~= Seq::<Seq<char>>::empty());
}

/// The quote round trip holds on no other fields whose trimmed text holds the
/// delimiter: where the quote character is the delimiter, or a piece of the
/// trimmed text between two delimiters ends with the quote character,
/// splitting what was written does not give the trimmed text as its one field.
pub proof fn lemma_quote_round_trip_limits(raw: Seq<char>, d: char, q: char)
    requires
        trimmed(raw).contains(d),
        q == d || exists|i: int|
            0 < i < split_on(trimmed(raw), d).len() - 1 && closes_quote(
                #[trigger] split_on(trimmed(raw), d)[i],
                q,
            ),
    ensures
        split_fields(sanitized(raw, d, q), d, Some(q)) != seq![trimmed(raw)],
{
    let cell = trimmed(raw);
    let inner = split_on(cell, d);
    let front = seq![q] + cell;
    let wrapped = front + seq![q];
    let outer = split_on(wrapped, d);
    let fields = merge_quoted(outer, d, q);
    lemma_split_on_segments(wrapped, d);
    if q == d {
        assert forall|i: int| 0 <= i < outer.len() implies !opens_quote(#[trigger] outer[i], q) by {
            if opens_quote(outer[i], q) {
                assert(outer[i].contains(d));
            }
        }
        lemma_merge_unquoted(outer, d, q);
    } else {
        let i = choose|i: int|
            0 < i < inner.len() - 1 && closes_quote(#[trigger] split_on(trimmed(raw), d)[i], q);
        lemma_split_on_segments(cell, d);
        lemma_split_on_prepend(cell, d, q);
        lemma_split_on_append(front, d, q);
        assert(outer[i] == inner[i]);
        lemma_closing_segment_bounds(outer, q, 1);
        let close = closing_segment(outer, q, 1);
        assert(close <= i);
        let span = outer.take(close + 1);
        lemma_join_take_is_shorter(outer, seq![d], close + 1);
        lemma_join_of_split(wrapped, d);
        assert(fields[0] == quoted_text(span, d));
    }
}

/// A trimmed field without the delimiter is written as it is, and splitting
/// what was written gives it back, where it does not begin with the quote
/// character.
pub proof fn lemma_plain_round_trip(raw: Seq<char>, d: char, q: char)
    requires
        !trimmed(raw).contains(d),
        !opens_quote(trimmed(raw), q),
    ensures
        sanitized(raw, d, q) == trimmed(raw),
        split_fields(sanitized(raw, d, q), d, Some(q)) == seq![trimmed(raw)],
{
    let cell = trimmed(raw);
    lemma_first_index_of_bounds(cell, d);
    let segs = seq![cell];
    assert(segs.drop_first() =~= Seq::<Seq<char>>::empty());
    assert(merge_quoted(Seq::<Seq<char>>::empty(), d, q) =~= Seq::<Seq<char>>::empty());
}

/// `raw` as it is written out, on character vectors.
pub fn sanitize_chars(raw: &Vec<char>, delim: char, quote_char: char) -> (out: Vec<char>)
    ensures
        out@ == sanitized(raw@, delim, quote_char),
{
    let cell = trim(raw);
    if has_char(&cell, delim) {
        let mut out: Vec<char> = Vec::new();
        out.push(quote_char);
        append_range(&mut out, &cell, 0, cell.len());
        out.push(quote_char);
        out
    } else {
        cell
    }
}

/// Every field of `raw` as it is written out.
pub fn sanitize_row(raw: &Vec<Vec<char>>, delim: char, quote_char: char) -> (out: Vec<Vec<char>>)
    ensures
        chars_view(out@) == sanitized_row(chars_view(raw@), delim, quote_char),
{
    let mut out: Vec<Vec<char>> = Vec::new();
    let mut i: usize = 0;
    while i < raw.len()
        invariant
            i <= raw.len(),
            out.len() == i,
            forall|k: int|
                0 <= k < i ==> (#[trigger] out@[k])@ == sanitized(raw@[k]@, delim, quote_char),
        decreases raw.len() - i,
    {
        let cell = sanitize_chars(&raw[i], delim, quote_char);
        out.push(cell);
        i += 1;
    }
    out
}

/// Prepares one field for output: leading and trailing white space is taken
/// off, and a field that then holds `delim` is wrapped in `quote_char`. A quote
/// character inside the field is left as it is.
pub fn sanitize_cell(raw: &str, delim: char, quote_char: char) -> (out: String)
    ensures
        out@ == sanitized(raw@, delim, quote_char),
{
    let chars = to_chars(raw);
    let cell = sanitize_chars(&chars, delim, quote_char);
    from_chars(&cell)
}

} // verus!
