//! The extraction of one column from one source, as a state machine.
//!
//! Reading lines is left to the caller. The caller reports what each read
//! gave, and the machine answers with what to do: drop the line, warn about
//! it, parse a field text as a number, stop with an error, or finish. The
//! machine keeps the line count and the header flag, so that the caller
//! holds no rule of its own.

use crate::text::{trim_end, trim_trailing_whitespace};
use crate::tokenizer::{extract_field, field_text, TokenizationError};
use vstd::prelude::*;

verus! {

/// What to do with a line that could not be decoded.
#[derive(Clone, Copy, Debug, PartialEq, Eq, Structural)]
pub enum DecodePolicy {
    /// Leave the line out, warn, and go on.
    Skip,
    /// Stop the extraction.
    Abort,
}

/// Whether the machine still takes lines.
#[derive(Clone, Copy, Debug, PartialEq, Eq, Structural)]
pub enum Phase {
    /// Lines are being read.
    Reading,
    /// The source came to its end.
    Finished,
    /// An error stopped the extraction.
    Failed,
}

/// What one attempt to read a line from the source gave.
#[derive(Clone, Debug, PartialEq, Eq)]
pub enum LineRead {
    /// A line, without its line terminator.
    Text(String),
    /// A line was there but could not be decoded.
    Undecodable,
    /// The source has no more lines.
    End,
}

/// Why an extraction stopped.
#[derive(Clone, Debug, PartialEq, Eq)]
pub enum ExtractError {
    /// A line could not be decoded and the policy is to stop.
    UndecodableLine { line: u64 },
    /// A line has fewer fields than the column asks for.
    MissingColumn { line: u64, column: usize, fields: usize },
    /// The field text of a line is not a number.
    InvalidNumber { line: u64, column: usize, text: String },
}

/// An `ExtractError` with its text as a sequence of characters.
pub enum ExtractErrorView {
    UndecodableLine { line: u64 },
    MissingColumn { line: u64, column: usize, fields: usize },
    InvalidNumber { line: u64, column: usize, text: Seq<char> },
}

impl View for ExtractError {
    type V = ExtractErrorView;

    open spec fn view(&self) -> ExtractErrorView {
        match *self {
            ExtractError::UndecodableLine { line } => ExtractErrorView::UndecodableLine { line },
            ExtractError::MissingColumn { line, column, fields } => ExtractErrorView::MissingColumn {
                line,
                column,
                fields,
            },
            ExtractError::InvalidNumber { line, column, text } => ExtractErrorView::InvalidNumber {
                line,
                column,
                text: text@,
            },
        }
    }
}

/// What the caller is to do after it has reported a read.
#[derive(Clone, Debug, PartialEq, Eq)]
pub enum Action {
    /// The line was the header: drop it.
    Discard,
    /// The line with this number could not be decoded and is left out: warn.
    Warn { line: u64 },
    /// Parse `text` as a number and append it to the sample; it is the
    /// field text of the line with this number.
    Parse { line: u64, text: String },
    /// Stop: the extraction failed.
    Fail(ExtractError),
    /// Stop: the source is read.
    Finish,
    /// Nothing: the extraction had stopped before.
    Idle,
}

/// An `Action` with its texts as sequences of characters.
pub enum ActionView {
    Discard,
    Warn { line: u64 },
    Parse { line: u64, text: Seq<char> },
    Fail(ExtractErrorView),
    Finish,
    Idle,
}

impl View for Action {
    type V = ActionView;

    open spec fn view(&self) -> ActionView {
        match *self {
            Action::Discard => ActionView::Discard,
            Action::Warn { line } => ActionView::Warn { line },
            Action::Parse { line, text } => ActionView::Parse { line, text: text@ },
            Action::Fail(error) => ActionView::Fail(error@),
            Action::Finish => ActionView::Finish,
            Action::Idle => ActionView::Idle,
        }
    }
}

/// The text that is parsed as the number of a line: the field text of the
/// column without the white space at its end.
pub open spec fn number_text(line: Seq<char>, delimiter: char, column: usize) -> Result<
    Seq<char>,
    TokenizationError,
> {
    match field_text(line, delimiter, column) {
        Ok(text) => Ok(trim_end(text)),
        Err(e) => Err(e),
    }
}

/// The number of the line after line `n`. The count stops at the largest
/// number that fits.
pub open spec fn line_after(n: u64) -> u64 {
    if n < u64::MAX {
        (n + 1) as u64
    } else {
        n
    }
}

/// The extraction of one column from one source.
#[derive(Clone, Copy, Debug, PartialEq, Eq)]
pub struct Extractor {
    /// The index of the field to extract.
    pub column: usize,
    /// The character that separates fields.
    pub delimiter: char,
    /// What to do with a line that cannot be decoded.
    pub policy: DecodePolicy,
    /// Whether the header line is still to be dropped.
    pub header_pending: bool,
    /// The number of the next line: lines are counted from zero, the header
    /// included, lines that could not be decoded left out.
    pub line_number: u64,
    /// Whether lines are still taken.
    pub phase: Phase,
}

/// The machine after `event`.
pub open spec fn next_state(s: Extractor, event: LineRead) -> Extractor {
    if s.phase != Phase::Reading {
        s
    } else {
        match event {
            LineRead::End => Extractor { phase: Phase::Finished, ..s },
            LineRead::Undecodable => match s.policy {
                DecodePolicy::Skip => Extractor { header_pending: false, ..s },
                DecodePolicy::Abort => Extractor { phase: Phase::Failed, ..s },
            },
            LineRead::Text(line) => if s.header_pending {
                Extractor { header_pending: false, line_number: line_after(s.line_number), ..s }
            } else if field_text(line@, s.delimiter, s.column) is Ok {
                Extractor { line_number: line_after(s.line_number), ..s }
            } else {
                Extractor { phase: Phase::Failed, ..s }
            },
        }
    }
}

/// What the machine answers to `event`.
pub open spec fn next_action(s: Extractor, event: LineRead) -> ActionView {
    if s.phase != Phase::Reading {
        ActionView::Idle
    } else {
        match event {
            LineRead::End => ActionView::Finish,
            LineRead::Undecodable => match s.policy {
                DecodePolicy::Skip => ActionView::Warn { line: s.line_number },
                DecodePolicy::Abort => ActionView::Fail(
                    ExtractErrorView::UndecodableLine { line: s.line_number },
                ),
            },
            LineRead::Text(line) => if s.header_pending {
                ActionView::Discard
            } else {
                match number_text(line@, s.delimiter, s.column) {
                    Ok(text) => ActionView::Parse { line: s.line_number, text },
                    Err(e) => ActionView::Fail(
                        ExtractErrorView::MissingColumn {
                            line: s.line_number,
                            column: e.column,
                            fields: e.fields,
                        },
                    ),
                }
            },
        }
    }
}

impl Extractor {
    /// The machine before the first read.
    pub fn new(column: usize, delimiter: char, skip_header: bool, policy: DecodePolicy) -> (extractor:
        Extractor)
        ensures
            extractor == (Extractor {
                column,
                delimiter,
                policy,
                header_pending: skip_header,
                line_number: 0,
                phase: Phase::Reading,
            }),
    {
        Extractor {
            column,
            delimiter,
            policy,
            header_pending: skip_header,
            line_number: 0,
            phase: Phase::Reading,
        }
    }

    fn count_line(&mut self)
        ensures
            *final(self) == (Extractor { line_number: line_after(old(self).line_number), ..*old(self) }),
    {
        if self.line_number < u64::MAX {
            self.line_number = self.line_number + 1;
        }
    }

    /// Takes what the last read gave and says what to do with it.
    pub fn step(&mut self, event: LineRead) -> (action: Action)
        ensures
            *final(self) == next_state(*old(self), event),
            action@ == next_action(*old(self), event),
    {
        match self.phase {
            Phase::Reading => {},
            _ => {
                return Action::Idle;
            },
        }
        let line: u64 = self.line_number;
        match event {
            LineRead::End => {
                self.phase = Phase::Finished;
                Action::Finish
            },
            LineRead::Undecodable => match self.policy {
                DecodePolicy::Skip => {
                    self.header_pending = false;
                    Action::Warn { line }
                },
                DecodePolicy::Abort => {
                    self.phase = Phase::Failed;
                    Action::Fail(ExtractError::UndecodableLine { line })
                },
            },
            LineRead::Text(text) => {
                if self.header_pending {
                    self.header_pending = false;
                    self.count_line();
                    return Action::Discard;
                }
                match extract_field(text.as_str(), self.column, self.delimiter) {
                    Ok(field) => {
                        self.count_line();
                        Action::Parse { line, text: trim_trailing_whitespace(field) }
                    },
                    Err(e) => {
                        self.phase = Phase::Failed;
                        Action::Fail(
                            ExtractError::MissingColumn {
                                line,
                                column: e.column,
                                fields: e.fields,
                            },
                        )
                    },
                }
            },
        }
    }

    /// Stops the extraction because `text`, the field text of line `line`,
    /// is not a number, and gives the error that says so.
    pub fn reject_number(&mut self, line: u64, text: String) -> (error: ExtractError)
        ensures
            *final(self) == (Extractor { phase: Phase::Failed, ..*old(self) }),
            error@ == (ExtractErrorView::InvalidNumber {
                line,
                column: old(self).column,
                text: text@,
            }),
    {
        self.phase = Phase::Failed;
        ExtractError::InvalidNumber { line, column: self.column, text }
    }
}

/// The machine after all of `events`, in order.
pub open spec fn state_after(s: Extractor, events: Seq<LineRead>) -> Extractor
    decreases events.len(),
{
    if events.len() == 0 {
        s
    } else {
        next_state(state_after(s, events.drop_last()), events.last())
    }
}

/// What the machine answers to each of `events`, in order.
pub open spec fn actions_of(s: Extractor, events: Seq<LineRead>) -> Seq<ActionView>
    decreases events.len(),
{
    if events.len() == 0 {
        Seq::empty()
    } else {
        actions_of(s, events.drop_last()).push(
            next_action(state_after(s, events.drop_last()), events.last()),
        )
    }
}

/// Whether two reads gave the same: the same kind, and the same characters
/// where both are text.
pub open spec fn same_read(a: LineRead, b: LineRead) -> bool {
    match (a, b) {
        (LineRead::Text(x), LineRead::Text(y)) => x@ == y@,
        (LineRead::Undecodable, LineRead::Undecodable) => true,
        (LineRead::End, LineRead::End) => true,
        _ => false,
    }
}

/// The answer to event number `i` is the answer of the machine that the
/// events before it lead to.
pub proof fn lemma_action_at(s: Extractor, events: Seq<LineRead>, i: int)
    requires
        0 <= i < events.len(),
    ensures
        actions_of(s, events).len() == events.len(),
        actions_of(s, events)[i] == next_action(state_after(s, events.take(i)), events[i]),
    decreases events.len(),
{
    let shorter = events.drop_last();
    lemma_actions_length(s, shorter);
    if i < events.len() - 1 {
        lemma_action_at(s, shorter, i);
        assert(shorter.take(i) =~= events.take(i));
    } else {
        assert(events.take(i) =~= shorter);
    }
}

/// There is one answer to each event.
pub proof fn lemma_actions_length(s: Extractor, events: Seq<LineRead>)
    ensures
        actions_of(s, events).len() == events.len(),
    decreases events.len(),
{
    if events.len() > 0 {
        lemma_actions_length(s, events.drop_last());
    }
}

/// An extraction that has stopped stays as it is and answers nothing more,
/// whatever is reported to it.
pub proof fn lemma_stopped_stays_stopped(s: Extractor, events: Seq<LineRead>, i: int)
    requires
        s.phase != Phase::Reading,
        0 <= i < events.len(),
    ensures
        state_after(s, events) == s,
        actions_of(s, events)[i] == ActionView::Idle,
{
    lemma_stopped_state(s, events);
    lemma_stopped_state(s, events.take(i));
    lemma_action_at(s, events, i);
}

proof fn lemma_stopped_state(s: Extractor, events: Seq<LineRead>)
    requires
        s.phase != Phase::Reading,
    ensures
        state_after(s, events) == s,
    decreases events.len(),
{
    if events.len() > 0 {
        lemma_stopped_state(s, events.drop_last());
    }
}

/// The settings of an extraction never change, and the header flag, once
/// down, stays down.
pub proof fn lemma_settings_are_kept(s: Extractor, events: Seq<LineRead>)
    ensures
        state_after(s, events).column == s.column,
        state_after(s, events).delimiter == s.delimiter,
        state_after(s, events).policy == s.policy,
        state_after(s, events).line_number >= s.line_number,
        !s.header_pending ==> !state_after(s, events).header_pending,
    decreases events.len(),
{
    if events.len() > 0 {
        lemma_settings_are_kept(s, events.drop_last());
    }
}

/// Without header skipping no line is dropped as a header.
pub proof fn lemma_no_header_no_discard(s: Extractor, events: Seq<LineRead>, i: int)
    requires
        !s.header_pending,
        0 <= i < events.len(),
    ensures
        actions_of(s, events)[i] != ActionView::Discard,
{
    lemma_action_at(s, events, i);
    lemma_settings_are_kept(s, events.take(i));
}

/// With header skipping one line at most is dropped as a header, and it is
/// the first line of text: no line is parsed before it.
pub proof fn lemma_header_is_dropped_once(s: Extractor, events: Seq<LineRead>, i: int, j: int)
    requires
        0 <= i < j < events.len(),
    ensures
        actions_of(s, events)[i] == ActionView::Discard ==> actions_of(s, events)[j]
            != ActionView::Discard,
        actions_of(s, events)[i] is Parse ==> actions_of(s, events)[j] != ActionView::Discard,
{
    lemma_action_at(s, events, i);
    lemma_action_at(s, events, j);
    let before_i = state_after(s, events.take(i));
    let after_i = next_state(before_i, events[i]);
    assert(events.take(i + 1).drop_last() =~= events.take(i));
    assert(state_after(s, events.take(i + 1)) == after_i);
    // the events between i and j
    let between = events.subrange(i + 1, j);
    lemma_state_after_concat(s, events.take(i + 1), between);
    assert(events.take(i + 1) + between =~= events.take(j));
    if actions_of(s, events)[i] == ActionView::Discard || actions_of(s, events)[i] is Parse {
        assert(!after_i.header_pending);
        lemma_settings_are_kept(after_i, between);
    }
}

/// Taking events in two parts is taking them all.
pub proof fn lemma_state_after_concat(s: Extractor, first: Seq<LineRead>, second: Seq<LineRead>)
    ensures
        state_after(s, first + second) == state_after(state_after(s, first), second),
    decreases second.len(),
{
    if second.len() == 0 {
        assert(first + second =~= first);
    } else {
        lemma_state_after_concat(s, first, second.drop_last());
        assert((first + second).drop_last() =~= first + second.drop_last());
    }
}

/// An extraction depends on nothing but its settings and what is read:
/// two runs with the same settings over the same reads pass through the
/// same states and give the same answers.
pub proof fn lemma_extraction_is_repeatable(
    s: Extractor,
    first: Seq<LineRead>,
    second: Seq<LineRead>,
)
    requires
        first.len() == second.len(),
        forall|i: int| 0 <= i < first.len() ==> same_read(first[i], second[i]),
    ensures
        state_after(s, first) == state_after(s, second),
        actions_of(s, first) == actions_of(s, second),
    decreases first.len(),
{
    if first.len() > 0 {
        lemma_extraction_is_repeatable(s, first.drop_last(), second.drop_last());
        assert(same_read(first.last(), second.last()));
    }
}

} // verus!
