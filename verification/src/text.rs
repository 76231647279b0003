//! Field texts as strings: the operations of `String` that the scanner
//! and the trimming build on, and the trimming of white space at the end of
//! a field text.
//!
//! The three operations of the standard library are taken on trust, each
//! with what its documentation says of it.

use vstd::prelude::*;

verus! {

/// `String::push` appends the character to the end of the string.
pub assume_specification[ String::push ](text: &mut String, c: char)
    ensures
        final(text)@ == old(text)@.push(c),
;

/// Whether `c` has Unicode's `White_Space` property, as
/// `char::is_whitespace` decides it.
pub uninterp spec fn has_white_space_property(c: char) -> bool;

/// Whether `c` is white space.
///
/// The documentation of `char::is_whitespace` names three characters that
/// are white space, the space, the line feed and the no-break space, and
/// one that is not, the ideograph U+8D8A. Of every other character it says
/// no more than that Unicode's property decides.
pub open spec fn is_white_space(c: char) -> bool {
    if c == ' ' || c == '\n' || c == '\u{a0}' {
        true
    } else if c == '\u{8d8a}' {
        false
    } else {
        has_white_space_property(c)
    }
}

/// `char::is_whitespace` depends on the character alone: it says whether
/// the character has Unicode's `White_Space` property, which the four
/// characters that its documentation names have or lack as said there.
pub assume_specification[ char::is_whitespace ](c: char) -> (white: bool)
    ensures
        white == has_white_space_property(c),
        white == is_white_space(c),
;

/// `String::pop` removes the last character and returns it, and returns
/// `None` for the empty string.
pub assume_specification[ String::pop ](text: &mut String) -> (last: Option<char>)
    ensures
        old(text)@.len() == 0 ==> last is None && final(text)@ == old(text)@,
        old(text)@.len() > 0 ==> last == Some(old(text)@.last()) && final(text)@ == old(
            text,
        )@.drop_last(),
;

/// `text` without the white space at its end.
pub open spec fn trim_end(text: Seq<char>) -> Seq<char>
    decreases text.len(),
{
    if text.len() > 0 && is_white_space(text.last()) {
        trim_end(text.drop_last())
    } else {
        text
    }
}

/// Removes the white space at the end of a field text.
pub fn trim_trailing_whitespace(text: String) -> (trimmed: String)
    ensures
        trimmed@ == trim_end(text@),
{
    let mut rest = text;
    loop
        invariant
            trim_end(rest@) == trim_end(text@),
        ensures
            rest@ == trim_end(text@),
        decreases rest@.len(),
    {
        match rest.pop() {
            None => {
                break ;
            },
            Some(c) => {
                if !c.is_whitespace() {
                    rest.push(c);
                    proof {
                        let whole = rest@;
                        assert(whole.drop_last().push(c) =~= whole);
                    }
                    break ;
                }
            },
        }
    }
    rest
}

/// What trimming does, said without recursion: it keeps a prefix of the
/// text, all that it drops is white space, and what it keeps does not end in
/// white space.
pub proof fn lemma_trim_end_is_longest_clean_prefix(text: Seq<char>)
    ensures
        trim_end(text).len() <= text.len(),
        trim_end(text) == text.take(trim_end(text).len() as int),
        forall|i: int| trim_end(text).len() <= i < text.len() ==> is_white_space(#[trigger] text[i]),
        trim_end(text).len() > 0 ==> !is_white_space(trim_end(text).last()),
    decreases text.len(),
{
    if text.len() > 0 && is_white_space(text.last()) {
        let shorter = text.drop_last();
        lemma_trim_end_is_longest_clean_prefix(shorter);
        let kept = trim_end(shorter).len() as int;
        assert(shorter.take(kept) =~= text.take(kept));
        assert forall|i: int| kept <= i < text.len() implies is_white_space(
            #[trigger] text[i],
        ) by {
            if i < shorter.len() {
                assert(text[i] == shorter[i]);
            }
        }
    } else {
        assert(text.take(text.len() as int) =~= text);
    }
}

/// Whether `c` is a space, a line feed or a no-break space.
pub open spec fn is_blank(c: char) -> bool {
    c == ' ' || c == '\n' || c == '\u{a0}'
}

/// Spaces and line feeds at the end of a text are trimmed away: what stands
/// before them is kept whole where it is empty or ends in a character that
/// is not white space.
pub proof fn lemma_trailing_blanks_are_trimmed(kept: Seq<char>, blanks: Seq<char>)
    requires
        forall|i: int| 0 <= i < blanks.len() ==> is_blank(#[trigger] blanks[i]),
        kept.len() == 0 || !is_white_space(kept.last()),
    ensures
        trim_end(kept + blanks) == kept,
    decreases blanks.len(),
{
    if blanks.len() == 0 {
        assert(kept + blanks =~= kept);
    } else {
        let whole = kept + blanks;
        assert(is_blank(blanks[blanks.len() - 1]));
        assert(whole.last() == blanks.last());
        assert(whole.drop_last() =~= kept + blanks.drop_last());
        lemma_trailing_blanks_are_trimmed(kept, blanks.drop_last());
    }
}

} // verus!
