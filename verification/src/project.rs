//! Choosing the output columns of a record and writing them as one line.

use string_join::Join;
use vstd::prelude::*;
use crate::error::{ConfigFault, PipelineError};
use crate::split::join_with;
use crate::text::row_view;

verus! {

/// The fields of `row` that the column numbers name, in the order of the
/// numbers. Columns count from 1; a number may occur more than once, and one
/// that names no field of the row adds nothing.
pub open spec fn picked(row: Seq<Seq<char>>, columns: Seq<usize>) -> Seq<Seq<char>>
    decreases columns.len(),
{
    if columns.len() == 0 {
        Seq::empty()
    } else {
        let before = picked(row, columns.drop_last());
        let c = columns.last();
        if 1 <= c <= row.len() {
            before.push(row[c - 1])
        } else {
            before
        }
    }
}

/// The column numbers of a projection, if there is one.
pub open spec fn columns_view(columns: Option<Vec<usize>>) -> Option<Seq<usize>> {
    match columns {
        Some(list) => Some(list@),
        None => None,
    }
}

/// The fields that are written for a record: those that the projection picks,
/// or all of them where there is no projection.
pub open spec fn projected(row: Seq<Seq<char>>, columns: Option<Seq<usize>>) -> Seq<Seq<char>> {
    match columns {
        Some(list) => picked(row, list),
        None => row,
    }
}

/// The output line of a record: its projected fields with the delimiter
/// between them.
pub open spec fn rendered(row: Seq<Seq<char>>, columns: Option<Seq<usize>>, d: char) -> Seq<char> {
    join_with(projected(row, columns), seq![d])
}

/// The number of header names that fits a record of `width` fields: one for
/// each column of the projection, or one for each field where there is no
/// projection.
pub open spec fn header_columns(columns: Option<Seq<usize>>, width: nat) -> nat {
    match columns {
        Some(list) => list.len(),
        None => width,
    }
}

/// A projection whose numbers all name fields of the row picks one field for
/// each number: the output has exactly the projected width.
pub proof fn lemma_picked_in_range(row: Seq<Seq<char>>, columns: Seq<usize>)
    requires
        forall|i: int| 0 <= i < columns.len() ==> 1 <= #[trigger] columns[i] <= row.len(),
    ensures
        picked(row, columns).len() == columns.len(),
        forall|i: int|
            0 <= i < columns.len() ==> #[trigger] picked(row, columns)[i] == row[columns[i] - 1],
    decreases columns.len(),
{
    if columns.len() > 0 {
        lemma_picked_in_range(row, columns.drop_last());
    }
}

/// A projection never picks more fields than it has numbers.
pub proof fn lemma_picked_len(row: Seq<Seq<char>>, columns: Seq<usize>)
    ensures
        picked(row, columns).len() <= columns.len(),
    decreases columns.len(),
{
    if columns.len() > 0 {
        lemma_picked_len(row, columns.drop_last());
    }
}

/// `Join::join` of the `string_join` crate, called on the separator with the
/// fields as the collection. It writes the first field, and then for each
/// further field the separator and the field; of no fields it makes the empty
/// string.
#[verifier::external_body]
fn join_fields(sep: char, fields: &Vec<String>) -> (line: String)
    ensures
        line@ == join_with(row_view(fields@), seq![sep]),
{
    sep.to_string().join(fields)
}

/// The fields of `row` that `columns` names, in the order of `columns`.
pub fn pick_columns(row: &Vec<String>, columns: &Vec<usize>) -> (out: Vec<String>)
    ensures
        row_view(out@) == picked(row_view(row@), columns@),
{
    let ghost fields = row_view(row@);
    let mut out: Vec<String> = Vec::new();
    let mut i: usize = 0;
    while i < columns.len()
        invariant
            i <= columns.len(),
            fields == row_view(row@),
            row_view(out@) == picked(fields, columns@.take(i as int)),
        decreases columns.len() - i,
    {
        let c = columns[i];
        proof {
            assert(columns@.take(i + 1).drop_last() =~= columns@.take(i as int));
        }
        if 1 <= c && c <= row.len() {
            let field = row[c - 1].clone();
            out.push(field);
        }
        i += 1;
    }
    proof {
        assert(columns@.take(columns.len() as int) =~= columns@);
    }
    out
}

/// Writes a record as one output line: the fields that the projection picks,
/// or all of them, with `delim` between them.
pub fn render_row(row: &Vec<String>, columns: &Option<Vec<usize>>, delim: char) -> (line: String)
    ensures
        line@ == rendered(row_view(row@), columns_view(*columns), delim),
{
    match columns {
        Some(list) => {
            let chosen = pick_columns(row, list);
            join_fields(delim, &chosen)
        },
        None => join_fields(delim, row),
    }
}

/// Writes the header line for the output names, after checking that there is
/// one name for each output column of a record of `width` fields. The names are
/// joined as they are.
pub fn render_header(
    names: &Vec<String>,
    columns: &Option<Vec<usize>>,
    width: usize,
    delim: char,
) -> (r: Result<String, PipelineError>)
    ensures
        match r {
            Ok(line) => names.len() == header_columns(columns_view(*columns), width as nat)
                && line@ == join_with(row_view(names@), seq![delim]),
            Err(e) => names.len() != header_columns(columns_view(*columns), width as nat) && e
                == PipelineError::Configuration(
                ConfigFault::HeaderNames {
                    names: names.len(),
                    columns: header_columns(columns_view(*columns), width as nat) as usize,
                },
            ),
        },
{
    let expected = match columns {
        Some(list) => list.len(),
        None => width,
    };
    if names.len() != expected {
        return Err(
            PipelineError::Configuration(
                ConfigFault::HeaderNames { names: names.len(), columns: expected },
            ),
        );
    }
    Ok(join_fields(delim, names))
}

} // verus!
