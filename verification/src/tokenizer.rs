//! The quote-aware scanner that picks one field out of a line of delimited
//! text.
//!
//! A line is read once, character by character. Fields are separated by a
//! delimiter character; a double quote opens or closes a quoted region, in
//! which the delimiter is ordinary text; two double quotes in a row stand
//! for one double quote in the field. The scanner does not reject badly
//! quoted lines: every line has a scan.

use vstd::prelude::*;
use vstd::std_specs::iter::IteratorSpec;

verus! {

/// Where the scan stands with regard to quoting.
#[derive(Clone, Copy, Debug, PartialEq, Eq, Structural)]
pub enum QuoteState {
    /// Outside a quoted region.
    Normal,
    /// Inside a quoted region.
    InQuote,
    /// Outside a quoted region, and the last character was a quote that the
    /// next character has yet to resolve.
    PendingOpen,
    /// Inside a quoted region, and the last character was a quote that the
    /// next character has yet to resolve.
    PendingClose,
}

impl QuoteState {
    /// Whether the last character was a quote that is still unresolved.
    pub open spec fn is_pending(self) -> bool {
        self == QuoteState::PendingOpen || self == QuoteState::PendingClose
    }

    /// The state after a quote has been read in a state that is not pending.
    pub open spec fn deferred(self) -> QuoteState {
        match self {
            QuoteState::Normal => QuoteState::PendingOpen,
            QuoteState::InQuote => QuoteState::PendingClose,
            other => other,
        }
    }

    /// The state after a pending quote has turned out to be the first half of
    /// a doubled quote: the region is the one the scan was in before.
    pub open spec fn escaped(self) -> QuoteState {
        match self {
            QuoteState::PendingOpen => QuoteState::Normal,
            QuoteState::PendingClose => QuoteState::InQuote,
            other => other,
        }
    }

    /// The state after a pending quote has been followed by another
    /// character: the quote opens a region or closes the one it stood in.
    pub open spec fn resolved(self) -> QuoteState {
        match self {
            QuoteState::PendingOpen => QuoteState::InQuote,
            QuoteState::PendingClose => QuoteState::Normal,
            other => other,
        }
    }
}

/// The state of a scan: the quoting state, the index of the field that the
/// scan is in, and the text of the target field gathered so far.
pub struct Scan {
    pub quote: QuoteState,
    pub active_column: nat,
    pub field: Seq<char>,
}

/// The scan before any character has been read.
pub open spec fn scan_start() -> Scan {
    Scan { quote: QuoteState::Normal, active_column: 0, field: Seq::empty() }
}

/// The scan after one more character `c`.
///
/// Once the scan has left the target field nothing changes any more: the
/// rest of the line is not needed.
pub open spec fn scan_step(s: Scan, c: char, delimiter: char, column: nat) -> Scan {
    if s.active_column > column {
        s
    } else if c == '"' {
        if s.quote.is_pending() {
            Scan {
                quote: s.quote.escaped(),
                active_column: s.active_column,
                field: if s.active_column == column {
                    s.field.push('"')
                } else {
                    s.field
                },
            }
        } else {
            Scan { quote: s.quote.deferred(), active_column: s.active_column, field: s.field }
        }
    } else {
        let quote = s.quote.resolved();
        if quote == QuoteState::Normal && c == delimiter {
            Scan { quote, active_column: s.active_column + 1, field: s.field }
        } else if s.active_column == column {
            Scan { quote, active_column: s.active_column, field: s.field.push(c) }
        } else {
            Scan { quote, active_column: s.active_column, field: s.field }
        }
    }
}

/// The scan that starts in `s` and reads all of `text`.
pub open spec fn scan_from(s: Scan, text: Seq<char>, delimiter: char, column: nat) -> Scan
    decreases text.len(),
{
    if text.len() == 0 {
        s
    } else {
        scan_step(scan_from(s, text.drop_last(), delimiter, column), text.last(), delimiter, column)
    }
}

/// The scan of a whole line.
pub open spec fn scan(line: Seq<char>, delimiter: char, column: nat) -> Scan {
    scan_from(scan_start(), line, delimiter, column)
}

/// The number of fields that a scan has seen, the one it stands in included.
pub open spec fn fields_seen(s: Scan) -> nat {
    s.active_column + 1
}

/// The requested column lies beyond the last field of the line.
#[derive(Clone, Copy, Debug, PartialEq, Eq)]
pub struct TokenizationError {
    /// The column that was asked for.
    pub column: usize,
    /// The number of fields that the line holds.
    pub fields: usize,
}

/// What a finished scan yields: the text of the target field where the line
/// has that field, else the error that says how many fields there were.
pub open spec fn scan_result(s: Scan, column: usize) -> Result<Seq<char>, TokenizationError> {
    if s.active_column >= column {
        Ok(s.field)
    } else {
        Err(TokenizationError { column, fields: fields_seen(s) as usize })
    }
}

/// The text of field number `column` of `line`, as the scanner reads it.
pub open spec fn field_text(line: Seq<char>, delimiter: char, column: usize) -> Result<
    Seq<char>,
    TokenizationError,
> {
    scan_result(scan(line, delimiter, column as nat), column)
}

/// The view of a tokenizer's result: the characters of the field text.
pub open spec fn text_of(r: Result<String, TokenizationError>) -> Result<
    Seq<char>,
    TokenizationError,
> {
    match r {
        Ok(text) => Ok(text@),
        Err(e) => Err(e),
    }
}

/// The scanner for one line: feed it the characters of the line in order,
/// then ask for the field.
pub struct Tokenizer {
    delimiter: char,
    column: usize,
    quote: QuoteState,
    active_column: usize,
    finished: bool,
    field: String,
}

impl View for Tokenizer {
    type V = Scan;

    closed spec fn view(&self) -> Scan {
        Scan {
            quote: self.quote,
            active_column: if self.finished || self.active_column > self.column {
                (self.column + 1) as nat
            } else {
                self.active_column as nat
            },
            field: self.field@,
        }
    }
}

impl Tokenizer {
    /// The character that separates fields.
    pub closed spec fn delimiter(&self) -> char {
        self.delimiter
    }

    /// The index of the field that is wanted.
    pub closed spec fn column(&self) -> usize {
        self.column
    }

    /// A scanner that has read nothing yet.
    pub fn new(delimiter: char, column: usize) -> (tokenizer: Tokenizer)
        ensures
            tokenizer@ == scan_start(),
            tokenizer.delimiter() == delimiter,
            tokenizer.column() == column,
    {
        Tokenizer {
            delimiter,
            column,
            quote: QuoteState::Normal,
            active_column: 0,
            finished: false,
            field: String::new(),
        }
    }

    /// Whether the scan has left the target field, so that no further
    /// character of the line can change the result.
    pub fn is_finished(&self) -> (finished: bool)
        ensures
            finished == (self@.active_column > self.column()),
    {
        self.finished || self.active_column > self.column
    }

    /// Reads the next character of the line.
    pub fn feed(&mut self, c: char)
        ensures
            final(self)@ == scan_step(
                old(self)@,
                c,
                old(self).delimiter(),
                old(self).column() as nat,
            ),
            final(self).delimiter() == old(self).delimiter(),
            final(self).column() == old(self).column(),
    {
        if self.finished || self.active_column > self.column {
            return ;
        }
        if c == '"' {
            match self.quote {
                QuoteState::Normal => {
                    self.quote = QuoteState::PendingOpen;
                },
                QuoteState::InQuote => {
                    self.quote = QuoteState::PendingClose;
                },
                QuoteState::PendingOpen => {
                    self.quote = QuoteState::Normal;
                    if self.active_column == self.column {
                        self.field.push('"');
                    }
                },
                QuoteState::PendingClose => {
                    self.quote = QuoteState::InQuote;
                    if self.active_column == self.column {
                        self.field.push('"');
                    }
                },
            }
            return ;
        }
        match self.quote {
            QuoteState::PendingOpen => {
                self.quote = QuoteState::InQuote;
            },
            QuoteState::PendingClose => {
                self.quote = QuoteState::Normal;
            },
            _ => {},
        }
        let outside: bool = match self.quote {
            QuoteState::Normal => true,
            _ => false,
        };
        if outside && c == self.delimiter {
            if self.active_column == self.column {
                self.finished = true;
            } else {
                self.active_column = self.active_column + 1;
            }
        } else if self.active_column == self.column {
            self.field.push(c);
        }
    }

    /// Ends the scan: the text of the target field, or the error where the
    /// line had too few fields.
    pub fn finish(self) -> (field: Result<String, TokenizationError>)
        ensures
            text_of(field) == scan_result(self@, self.column()),
    {
        if self.finished || self.active_column >= self.column {
            Ok(self.field)
        } else {
            Err(TokenizationError { column: self.column, fields: self.active_column + 1 })
        }
    }
}

/// Extracts the text of field number `column` from `line`.
///
/// The result is `Ok` exactly when the line has more than `column` fields.
pub fn extract_field(line: &str, column: usize, delimiter: char) -> (field: Result<
    String,
    TokenizationError,
>)
    ensures
        text_of(field) == field_text(line@, delimiter, column),
{
    let mut tokenizer = Tokenizer::new(delimiter, column);
    let mut chars = line.chars();
    let ghost mut read: int = 0;
    proof {
        broadcast use vstd::string::axiom_spec_iter;

        assert(line@.take(0) =~= Seq::<char>::empty());
        assert(line@.skip(0) =~= line@);
    }
    loop
        invariant
            0 <= read <= line@.len(),
            chars.obeys_prophetic_iter_laws(),
            chars.remaining() == line@.skip(read),
            tokenizer.delimiter() == delimiter,
            tokenizer.column() == column,
            tokenizer@ == scan(line@.take(read), delimiter, column as nat),
        ensures
            tokenizer.column() == column,
            tokenizer@ == scan(line@, delimiter, column as nat),
        decreases line@.len() - read,
    {
        if tokenizer.is_finished() {
            proof {
                lemma_finished_scan_is_final(
                    tokenizer@,
                    line@.skip(read),
                    delimiter,
                    column as nat,
                );
                lemma_scan_from_concat(
                    scan_start(),
                    line@.take(read),
                    line@.skip(read),
                    delimiter,
                    column as nat,
                );
                assert(line@.take(read) + line@.skip(read) =~= line@);
            }
            break ;
        }
        let next = chars.next();
        proof {
            broadcast use vstd::string::next_postcondition;

        }
        match next {
            None => {
                proof {
                    assert(line@.take(read) =~= line@);
                }
                break ;
            },
            Some(c) => {
                tokenizer.feed(c);
                proof {
                    assert(line@.take(read + 1).drop_last() =~= line@.take(read));
                    assert(line@.skip(read).drop_first() =~= line@.skip(read + 1));
                    read = read + 1;
                }
            },
        }
    }
    tokenizer.finish()
}

/// Reading on from a scan that has left the target field changes nothing.
pub proof fn lemma_finished_scan_is_final(s: Scan, text: Seq<char>, delimiter: char, column: nat)
    requires
        s.active_column > column,
    ensures
        scan_from(s, text, delimiter, column) == s,
    decreases text.len(),
{
    if text.len() > 0 {
        lemma_finished_scan_is_final(s, text.drop_last(), delimiter, column);
    }
}

/// Scanning a text in two parts is scanning it whole.
pub proof fn lemma_scan_from_concat(
    s: Scan,
    first: Seq<char>,
    second: Seq<char>,
    delimiter: char,
    column: nat,
)
    ensures
        scan_from(s, first + second, delimiter, column) == scan_from(
            scan_from(s, first, delimiter, column),
            second,
            delimiter,
            column,
        ),
    decreases second.len(),
{
    if second.len() == 0 {
        assert(first + second =~= first);
    } else {
        lemma_scan_from_concat(s, first, second.drop_last(), delimiter, column);
        assert((first + second).drop_last() =~= first + second.drop_last());
    }
}

} // verus!
