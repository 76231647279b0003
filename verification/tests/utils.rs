use ustat::utils::{
    assign_columns, parse_delimiter_from_string, source_count, ConfigurationError,
};

#[test]
fn a_single_character_is_the_delimiter() {
    assert_eq!(parse_delimiter_from_string(",".to_string()), Ok(','));
    assert_eq!(parse_delimiter_from_string(";".to_string()), Ok(';'));
    assert_eq!(parse_delimiter_from_string(" ".to_string()), Ok(' '));
    assert_eq!(parse_delimiter_from_string("\t".to_string()), Ok('\t'));
    assert_eq!(parse_delimiter_from_string("→".to_string()), Ok('→'));
    assert_eq!(parse_delimiter_from_string("t".to_string()), Ok('t'));
}

#[test]
fn escapes_are_decoded() {
    assert_eq!(parse_delimiter_from_string("\\t".to_string()), Ok('\t'));
    assert_eq!(parse_delimiter_from_string("\\n".to_string()), Ok('\n'));
    assert_eq!(parse_delimiter_from_string("\\r".to_string()), Ok('\r'));
    assert_eq!(parse_delimiter_from_string("\\\\".to_string()), Ok('\\'));
    assert_eq!(parse_delimiter_from_string("\\0".to_string()), Ok('\0'));
}

#[test]
fn unknown_escapes_are_rejected() {
    assert_eq!(
        parse_delimiter_from_string("\\q".to_string()),
        Err(ConfigurationError::UnsupportedEscape)
    );
    assert_eq!(
        parse_delimiter_from_string("\\T".to_string()),
        Err(ConfigurationError::UnsupportedEscape)
    );
    assert_eq!(
        parse_delimiter_from_string("\\,".to_string()),
        Err(ConfigurationError::UnsupportedEscape)
    );
}

#[test]
fn a_lone_backslash_is_rejected() {
    assert_eq!(
        parse_delimiter_from_string("\\".to_string()),
        Err(ConfigurationError::UnsupportedEscape)
    );
}

#[test]
fn an_empty_delimiter_is_rejected() {
    assert_eq!(
        parse_delimiter_from_string(String::new()),
        Err(ConfigurationError::EmptyDelimiter)
    );
}

#[test]
fn longer_delimiters_are_rejected() {
    assert_eq!(
        parse_delimiter_from_string(",,".to_string()),
        Err(ConfigurationError::MultiCharacterDelimiter)
    );
    assert_eq!(
        parse_delimiter_from_string("ab".to_string()),
        Err(ConfigurationError::MultiCharacterDelimiter)
    );
    assert_eq!(
        parse_delimiter_from_string("\\tx".to_string()),
        Err(ConfigurationError::MultiCharacterDelimiter)
    );
    assert_eq!(
        parse_delimiter_from_string("\\qq".to_string()),
        Err(ConfigurationError::MultiCharacterDelimiter)
    );
}

#[test]
fn one_column_is_shared_by_all_sources() {
    assert_eq!(assign_columns(&vec![4], 3), Ok(vec![4, 4, 4]));
    assert_eq!(assign_columns(&vec![0], 1), Ok(vec![0]));
    assert_eq!(assign_columns(&vec![7], 0), Ok(vec![]));
}

#[test]
fn one_column_per_source_is_kept_in_order() {
    assert_eq!(assign_columns(&vec![2, 0, 5], 3), Ok(vec![2, 0, 5]));
    assert_eq!(assign_columns(&vec![], 0), Ok(vec![]));
}

#[test]
fn other_numbers_of_columns_are_rejected() {
    assert_eq!(
        assign_columns(&vec![1, 2], 3),
        Err(ConfigurationError::ColumnCountMismatch { columns: 2, sources: 3 })
    );
    assert_eq!(
        assign_columns(&vec![1, 2, 3], 2),
        Err(ConfigurationError::ColumnCountMismatch { columns: 3, sources: 2 })
    );
    assert_eq!(
        assign_columns(&vec![], 2),
        Err(ConfigurationError::ColumnCountMismatch { columns: 0, sources: 2 })
    );
    assert_eq!(
        assign_columns(&vec![1, 2], 0),
        Err(ConfigurationError::ColumnCountMismatch { columns: 2, sources: 0 })
    );
}

#[test]
fn standard_input_is_one_source() {
    assert_eq!(source_count(0), 1);
}

#[test]
fn every_file_is_one_source() {
    assert_eq!(source_count(1), 1);
    assert_eq!(source_count(2), 2);
    assert_eq!(source_count(usize::MAX), usize::MAX);
}

#[test]
fn standard_input_takes_the_shared_column() {
    assert_eq!(assign_columns(&vec![3], source_count(0)), Ok(vec![3]));
    assert_eq!(
        assign_columns(&vec![3, 4], source_count(0)),
        Err(ConfigurationError::ColumnCountMismatch { columns: 2, sources: 1 })
    );
}
