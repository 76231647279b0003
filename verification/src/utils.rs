//! Decoding of the user-supplied delimiter and assignment of column indices
//! to input sources.

use vstd::prelude::*;
use vstd::string::StrSliceExecFns;

verus! {

/// A run cannot start with the given settings.
#[derive(Clone, Copy, Debug, PartialEq, Eq)]
pub enum ConfigurationError {
    /// The delimiter text holds no character at all.
    EmptyDelimiter,
    /// The delimiter text is longer than one character (two for an escape).
    MultiCharacterDelimiter,
    /// The delimiter text is a backslash followed by nothing or by a
    /// character that names no escape.
    UnsupportedEscape,
    /// The number of column indices is neither one nor the number of sources.
    ColumnCountMismatch { columns: usize, sources: usize },
}

/// The character that a backslash followed by `code` stands for.
pub open spec fn escape_target(code: char) -> Option<char> {
    if code == 't' {
        Some('\t')
    } else if code == 'n' {
        Some('\n')
    } else if code == 'r' {
        Some('\r')
    } else if code == '\\' {
        Some('\\')
    } else if code == '0' {
        Some('\0')
    } else {
        None
    }
}

/// What a delimiter text decodes to: a single character stands for itself,
/// unless it is a backslash; a backslash and one more character are an escape.
pub open spec fn decode_delimiter(text: Seq<char>) -> Result<char, ConfigurationError> {
    if text.len() == 0 {
        Err(ConfigurationError::EmptyDelimiter)
    } else if text[0] != '\\' {
        if text.len() == 1 {
            Ok(text[0])
        } else {
            Err(ConfigurationError::MultiCharacterDelimiter)
        }
    } else if text.len() == 1 {
        Err(ConfigurationError::UnsupportedEscape)
    } else if text.len() > 2 {
        Err(ConfigurationError::MultiCharacterDelimiter)
    } else {
        match escape_target(text[1]) {
            Some(c) => Ok(c),
            None => Err(ConfigurationError::UnsupportedEscape),
        }
    }
}

/// Decodes the delimiter given on the command line to the one character
/// that separates fields.
pub fn parse_delimiter_from_string(delimiter: String) -> (decoded: Result<char, ConfigurationError>)
    ensures
        decoded == decode_delimiter(delimiter@),
{
    let text = delimiter.as_str();
    let length: usize = text.unicode_len();
    if length == 0 {
        return Err(ConfigurationError::EmptyDelimiter);
    }
    let first = text.get_char(0);
    if first != '\\' {
        if length == 1 {
            return Ok(first);
        }
        return Err(ConfigurationError::MultiCharacterDelimiter);
    }
    if length == 1 {
        return Err(ConfigurationError::UnsupportedEscape);
    }
    if length > 2 {
        return Err(ConfigurationError::MultiCharacterDelimiter);
    }
    let code = text.get_char(1);
    if code == 't' {
        Ok('\t')
    } else if code == 'n' {
        Ok('\n')
    } else if code == 'r' {
        Ok('\r')
    } else if code == '\\' {
        Ok('\\')
    } else if code == '0' {
        Ok('\0')
    } else {
        Err(ConfigurationError::UnsupportedEscape)
    }
}

/// The number of sources of a run over `files` input files: each file is
/// one, and without files the standard input is the one source.
pub open spec fn sources_of(files: usize) -> usize {
    if files == 0 {
        1
    } else {
        files
    }
}

/// The number of sources of a run over `files` input files.
pub fn source_count(files: usize) -> (sources: usize)
    ensures
        sources == sources_of(files),
{
    if files == 0 {
        1
    } else {
        files
    }
}

/// The column index that source number `source` reads, where `columns` holds
/// either one shared index or one index per source.
pub open spec fn column_of_source(columns: Seq<usize>, sources: nat, source: int) -> usize {
    if columns.len() == sources {
        columns[source]
    } else {
        columns[0]
    }
}

/// Whether `columns` can be spread over `sources` sources.
pub open spec fn columns_fit(columns: Seq<usize>, sources: nat) -> bool {
    columns.len() == 1 || columns.len() == sources
}

/// Gives every source its column index: the shared one where a single index
/// was passed, its own where there is one index per source.
pub fn assign_columns(columns: &Vec<usize>, sources: usize) -> (assigned: Result<
    Vec<usize>,
    ConfigurationError,
>)
    ensures
        columns_fit(columns@, sources as nat) ==> assigned is Ok,
        !columns_fit(columns@, sources as nat) ==> assigned == Err::<
            Vec<usize>,
            ConfigurationError,
        >(ConfigurationError::ColumnCountMismatch { columns: columns.len(), sources }),
        assigned matches Ok(per_source) ==> {
            &&& per_source@.len() == sources
            &&& forall|i: int|
                0 <= i < sources ==> per_source@[i] == column_of_source(
                    columns@,
                    sources as nat,
                    i,
                )
        },
{
    if columns.len() != 1 && columns.len() != sources {
        return Err(
            ConfigurationError::ColumnCountMismatch { columns: columns.len(), sources },
        );
    }
    let mut per_source: Vec<usize> = Vec::new();
    let mut i: usize = 0;
    while i < sources
        invariant
            i <= sources,
            columns_fit(columns@, sources as nat),
            per_source@.len() == i,
            forall|j: int|
                0 <= j < i ==> per_source@[j] == column_of_source(columns@, sources as nat, j),
        decreases sources - i,
    {
        let column: usize = if columns.len() == sources {
            columns[i]
        } else {
            columns[0]
        };
        per_source.push(column);
        i += 1;
    }
    Ok(per_source)
}

} // verus!
