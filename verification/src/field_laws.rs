//! What the scanner's rules amount to, for lines of the shapes that matter:
//! plain fields, quoted fields, doubled quotes, and the counting of columns.

use crate::tokenizer::{
    field_text, lemma_finished_scan_is_final, lemma_scan_from_concat, scan, scan_from, scan_start,
    scan_step, QuoteState, Scan, TokenizationError,
};
use vstd::prelude::*;

verus! {

/// Whether `c` occurs nowhere in `text`.
pub open spec fn free_of(text: Seq<char>, c: char) -> bool {
    forall|i: int| 0 <= i < text.len() ==> text[i] != c
}

/// The number of places at which `c` occurs in `text`.
pub open spec fn occurrences(text: Seq<char>, c: char) -> nat
    decreases text.len(),
{
    if text.len() == 0 {
        0
    } else if text.last() == c {
        occurrences(text.drop_last(), c) + 1
    } else {
        occurrences(text.drop_last(), c)
    }
}

/// `s` one field further on.
pub open spec fn shifted(s: Scan) -> Scan {
    Scan { quote: s.quote, active_column: s.active_column + 1, field: s.field }
}

/// Scanning a single character is one step.
pub proof fn lemma_scan_one(s: Scan, c: char, delimiter: char, column: nat)
    ensures
        scan_from(s, seq![c], delimiter, column) == scan_step(s, c, delimiter, column),
{
    assert(seq![c].drop_last() =~= Seq::<char>::empty());
    assert(scan_from(s, seq![c].drop_last(), delimiter, column) == s);
}

/// Text without quotes or delimiters, read outside a quoted region, stays in
/// the field it began in, and is gathered if that is the target field.
pub proof fn lemma_scan_plain_text(s: Scan, text: Seq<char>, delimiter: char, column: nat)
    requires
        s.quote == QuoteState::Normal,
        s.active_column <= column,
        free_of(text, '"'),
        free_of(text, delimiter),
    ensures
        scan_from(s, text, delimiter, column) == (Scan {
            quote: QuoteState::Normal,
            active_column: s.active_column,
            field: if s.active_column == column {
                s.field + text
            } else {
                s.field
            },
        }),
    decreases text.len(),
{
    if text.len() == 0 {
        assert(s.field + text =~= s.field);
    } else {
        let shorter = text.drop_last();
        lemma_scan_plain_text(s, shorter, delimiter, column);
        assert((s.field + shorter).push(text.last()) =~= s.field + text);
    }
}

/// Text without quotes, read inside a quoted region, stays in the region
/// and in its field whatever delimiters it holds, and is gathered if that is
/// the target field.
pub proof fn lemma_scan_quoted_text(s: Scan, text: Seq<char>, delimiter: char, column: nat)
    requires
        s.quote == QuoteState::InQuote,
        s.active_column <= column,
        free_of(text, '"'),
    ensures
        scan_from(s, text, delimiter, column) == (Scan {
            quote: QuoteState::InQuote,
            active_column: s.active_column,
            field: if s.active_column == column {
                s.field + text
            } else {
                s.field
            },
        }),
    decreases text.len(),
{
    if text.len() == 0 {
        assert(s.field + text =~= s.field);
    } else {
        let shorter = text.drop_last();
        lemma_scan_quoted_text(s, shorter, delimiter, column);
        assert((s.field + shorter).push(text.last()) =~= s.field + text);
    }
}

/// A quote followed by text without quotes opens a region that holds the
/// whole text.
pub proof fn lemma_scan_opening_quote(s: Scan, text: Seq<char>, delimiter: char, column: nat)
    requires
        s.quote == QuoteState::Normal,
        s.active_column <= column,
        text.len() > 0,
        free_of(text, '"'),
    ensures
        scan_from(s, seq!['"'] + text, delimiter, column) == (Scan {
            quote: QuoteState::InQuote,
            active_column: s.active_column,
            field: if s.active_column == column {
                s.field + text
            } else {
                s.field
            },
        }),
{
    let opened = scan_step(s, '"', delimiter, column);
    lemma_scan_one(s, '"', delimiter, column);
    let first = seq![text[0]];
    let rest = text.skip(1);
    assert(first + rest =~= text);
    assert(text[0] != '"');
    let entered = scan_step(opened, text[0], delimiter, column);
    lemma_scan_one(opened, text[0], delimiter, column);
    lemma_scan_quoted_text(entered, rest, delimiter, column);
    lemma_scan_from_concat(opened, first, rest, delimiter, column);
    lemma_scan_from_concat(s, seq!['"'], text, delimiter, column);
    assert((s.field.push(text[0])) + rest =~= s.field + text);
}

/// A line without quotes or delimiters is its own first field.
pub proof fn lemma_plain_line_is_its_field(line: Seq<char>, delimiter: char)
    requires
        free_of(line, '"'),
        free_of(line, delimiter),
    ensures
        scan(line, delimiter, 0) == (Scan {
            quote: QuoteState::Normal,
            active_column: 0,
            field: line,
        }),
        field_text(line, delimiter, 0) == Ok::<Seq<char>, TokenizationError>(line),
{
    lemma_scan_plain_text(scan_start(), line, delimiter, 0);
    assert(Seq::<char>::empty() + line =~= line);
}

/// A text without quotes that stands between two quotes is the field,
/// with the delimiters in it.
pub proof fn lemma_quoted_field_keeps_delimiters(text: Seq<char>, delimiter: char)
    requires
        text.len() > 0,
        free_of(text, '"'),
    ensures
        scan(seq!['"'] + text + seq!['"'], delimiter, 0) == (Scan {
            quote: QuoteState::PendingClose,
            active_column: 0,
            field: text,
        }),
        field_text(seq!['"'] + text + seq!['"'], delimiter, 0) == Ok::<
            Seq<char>,
            TokenizationError,
        >(text),
{
    lemma_scan_opening_quote(scan_start(), text, delimiter, 0);
    let inside = scan_from(scan_start(), seq!['"'] + text, delimiter, 0);
    lemma_scan_one(inside, '"', delimiter, 0);
    lemma_scan_from_concat(scan_start(), seq!['"'] + text, seq!['"'], delimiter, 0);
    assert(Seq::<char>::empty() + text =~= text);
}

/// Two quotes in a row inside a quoted region stand for one quote of the
/// field.
pub proof fn lemma_doubled_quote_is_one_quote(
    before: Seq<char>,
    after: Seq<char>,
    delimiter: char,
)
    requires
        before.len() > 0,
        free_of(before, '"'),
        free_of(after, '"'),
    ensures
        scan(seq!['"'] + before + seq!['"', '"'] + after + seq!['"'], delimiter, 0) == (Scan {
            quote: QuoteState::PendingClose,
            active_column: 0,
            field: before + seq!['"'] + after,
        }),
        field_text(
            seq!['"'] + before + seq!['"', '"'] + after + seq!['"'],
            delimiter,
            0,
        ) == Ok::<Seq<char>, TokenizationError>(before + seq!['"'] + after),
{
    let start = scan_start();
    let part1 = seq!['"'] + before;
    lemma_scan_opening_quote(start, before, delimiter, 0);
    let s1 = scan_from(start, part1, delimiter, 0);
    assert(Seq::<char>::empty() + before =~= before);
    // the doubled quote
    let s2 = scan_step(s1, '"', delimiter, 0);
    let s3 = scan_step(s2, '"', delimiter, 0);
    lemma_scan_one(s1, '"', delimiter, 0);
    lemma_scan_one(s2, '"', delimiter, 0);
    lemma_scan_from_concat(s1, seq!['"'], seq!['"'], delimiter, 0);
    assert(seq!['"'] + seq!['"'] =~= seq!['"', '"']);
    lemma_scan_from_concat(start, part1, seq!['"', '"'], delimiter, 0);
    let part2 = part1 + seq!['"', '"'];
    assert(scan_from(start, part2, delimiter, 0) == s3);
    // the rest of the region
    lemma_scan_quoted_text(s3, after, delimiter, 0);
    lemma_scan_from_concat(start, part2, after, delimiter, 0);
    let part3 = part2 + after;
    let s4 = scan_from(start, part3, delimiter, 0);
    lemma_scan_one(s4, '"', delimiter, 0);
    lemma_scan_from_concat(start, part3, seq!['"'], delimiter, 0);
    assert(before.push('"') + after =~= before + seq!['"'] + after);
}

/// One step of a scan for the next column, one field further on, is the
/// step of the scan for this column.
proof fn lemma_step_shifts(s: Scan, c: char, delimiter: char, column: nat)
    ensures
        scan_step(shifted(s), c, delimiter, column + 1) == shifted(
            scan_step(s, c, delimiter, column),
        ),
{
}

/// A scan for the next column that starts one field further on is the scan
/// for this column, one field further on.
pub proof fn lemma_scan_shifts(s: Scan, text: Seq<char>, delimiter: char, column: nat)
    ensures
        scan_from(shifted(s), text, delimiter, column + 1) == shifted(
            scan_from(s, text, delimiter, column),
        ),
    decreases text.len(),
{
    if text.len() > 0 {
        lemma_scan_shifts(s, text.drop_last(), delimiter, column);
        lemma_step_shifts(
            scan_from(s, text.drop_last(), delimiter, column),
            text.last(),
            delimiter,
            column,
        );
    }
}

/// The field index of a scan never goes down.
pub proof fn lemma_active_column_grows(s: Scan, text: Seq<char>, delimiter: char, column: nat)
    ensures
        scan_from(s, text, delimiter, column).active_column >= s.active_column,
    decreases text.len(),
{
    if text.len() > 0 {
        lemma_active_column_grows(s, text.drop_last(), delimiter, column);
    }
}

/// While a scan stays in the first field, the quoting does not depend on
/// the column that is wanted: a scan for another column passes through the
/// same states and gathers nothing.
pub proof fn lemma_first_field_for_any_column(text: Seq<char>, delimiter: char, column: nat)
    requires
        scan(text, delimiter, 0).active_column == 0,
    ensures
        scan(text, delimiter, column) == (Scan {
            quote: scan(text, delimiter, 0).quote,
            active_column: 0,
            field: if column == 0 {
                scan(text, delimiter, 0).field
            } else {
                Seq::empty()
            },
        }),
    decreases text.len(),
{
    if text.len() > 0 {
        let shorter = text.drop_last();
        lemma_active_column_grows(
            scan(shorter, delimiter, 0),
            seq![text.last()],
            delimiter,
            0,
        );
        lemma_scan_one(scan(shorter, delimiter, 0), text.last(), delimiter, 0);
        lemma_first_field_for_any_column(shorter, delimiter, column);
    }
}

/// What follows the target field does not matter: once a scan has left the
/// field, a longer line has the same scan.
pub proof fn lemma_rest_is_ignored(
    line: Seq<char>,
    rest: Seq<char>,
    delimiter: char,
    column: usize,
)
    requires
        scan(line, delimiter, column as nat).active_column > column,
    ensures
        scan(line + rest, delimiter, column as nat) == scan(line, delimiter, column as nat),
        field_text(line + rest, delimiter, column) == field_text(line, delimiter, column),
{
    lemma_scan_from_concat(scan_start(), line, rest, delimiter, column as nat);
    lemma_finished_scan_is_final(scan(line, delimiter, column as nat), rest, delimiter, column as nat);
}

/// The first field ends at the first delimiter outside a quoted region:
/// where a text holds no such delimiter and does not end inside a region,
/// a line that goes on with a delimiter has that text's field as its first.
pub proof fn lemma_first_field_ends_at_delimiter(
    first: Seq<char>,
    rest: Seq<char>,
    delimiter: char,
)
    requires
        delimiter != '"',
        scan(first, delimiter, 0).active_column == 0,
        scan(first, delimiter, 0).quote.resolved() == QuoteState::Normal,
    ensures
        field_text(first + seq![delimiter] + rest, delimiter, 0) == field_text(
            first,
            delimiter,
            0,
        ),
        field_text(first, delimiter, 0) == Ok::<Seq<char>, TokenizationError>(
            scan(first, delimiter, 0).field,
        ),
{
    let start = scan_start();
    let s1 = scan(first, delimiter, 0);
    lemma_scan_one(s1, delimiter, delimiter, 0);
    lemma_scan_from_concat(start, first, seq![delimiter], delimiter, 0);
    lemma_rest_is_ignored(first + seq![delimiter], rest, delimiter, 0);
}

/// A leading field counts as one column: where a text holds no delimiter
/// outside a quoted region and does not end inside one, field `column + 1`
/// of a line that begins with it is field `column` of what follows the
/// delimiter after it.
pub proof fn lemma_leading_field_is_skipped(
    head: Seq<char>,
    rest: Seq<char>,
    delimiter: char,
    column: nat,
)
    requires
        delimiter != '"',
        scan(head, delimiter, 0).active_column == 0,
        scan(head, delimiter, 0).quote.resolved() == QuoteState::Normal,
    ensures
        scan(head + seq![delimiter] + rest, delimiter, column + 1) == shifted(
            scan(rest, delimiter, column),
        ),
{
    let start = scan_start();
    lemma_first_field_for_any_column(head, delimiter, column + 1);
    let s1 = scan_from(start, head, delimiter, column + 1);
    lemma_scan_one(s1, delimiter, delimiter, column + 1);
    lemma_scan_from_concat(start, head, seq![delimiter], delimiter, column + 1);
    let s2 = scan_from(start, head + seq![delimiter], delimiter, column + 1);
    assert(s2 == shifted(start));
    lemma_scan_from_concat(start, head + seq![delimiter], rest, delimiter, column + 1);
    lemma_scan_shifts(start, rest, delimiter, column);
}

/// Field `column + 1` of a line is field `column` of what follows its
/// first field, and is missing where that is missing, with one field more
/// counted.
pub proof fn lemma_field_after_leading_field(
    head: Seq<char>,
    rest: Seq<char>,
    delimiter: char,
    column: usize,
)
    requires
        delimiter != '"',
        column < usize::MAX,
        scan(head, delimiter, 0).active_column == 0,
        scan(head, delimiter, 0).quote.resolved() == QuoteState::Normal,
    ensures
        field_text(head + seq![delimiter] + rest, delimiter, (column + 1) as usize) == match field_text(
            rest,
            delimiter,
            column,
        ) {
            Ok(text) => Ok::<Seq<char>, TokenizationError>(text),
            Err(e) => Err(
                TokenizationError {
                    column: (e.column + 1) as usize,
                    fields: (e.fields + 1) as usize,
                },
            ),
        },
{
    lemma_leading_field_is_skipped(head, rest, delimiter, column as nat);
}

/// In a line without quotes every delimiter ends a field: the scan stands
/// in the field whose index is the number of delimiters, or has just left
/// the target field.
pub proof fn lemma_unquoted_line_counts_delimiters(line: Seq<char>, delimiter: char, column: nat)
    requires
        free_of(line, '"'),
    ensures
        scan(line, delimiter, column).active_column == if occurrences(line, delimiter) <= column {
            occurrences(line, delimiter)
        } else {
            column + 1
        },
        scan(line, delimiter, column).quote == QuoteState::Normal,
    decreases line.len(),
{
    if line.len() > 0 {
        lemma_unquoted_line_counts_delimiters(line.drop_last(), delimiter, column);
    }
}

/// A line without quotes has field number `column` exactly when it holds at
/// least `column` delimiters.
pub proof fn lemma_unquoted_line_has_field(line: Seq<char>, delimiter: char, column: usize)
    requires
        free_of(line, '"'),
    ensures
        field_text(line, delimiter, column) is Ok <==> occurrences(line, delimiter) >= column,
{
    lemma_unquoted_line_counts_delimiters(line, delimiter, column as nat);
}

} // verus!
