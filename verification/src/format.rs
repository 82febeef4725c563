//! The input format tags, the error taxonomy, and the mapping from a
//! user-supplied format string to a tag.

use vstd::prelude::*;

verus! {

/// Discriminates how raw text is normalized before tokenization:
/// `Csv` treats commas as separators, `PlainText` does not.
#[derive(Clone, Copy, Debug, PartialEq, Eq, Structural)]
pub enum Format {
    PlainText,
    Csv,
}

/// Every way the pipeline can fail.  All four kinds are terminal for an
/// invocation; per-token numeric-parse failures are deliberately *not*
/// errors (tolerance policy) and do not appear here.
#[derive(Clone, Copy, Debug, PartialEq, Eq, Structural)]
pub enum StatsError {
    /// The input source could not be read to completion.
    SourceUnreadable,
    /// A plaintext-declared input still contained comma-separated tokens.
    FormatMismatch,
    /// No token in the entire input parsed as a floating-point number.
    EmptyDataset,
    /// The declared format string is neither `txt` nor `csv`.
    InvalidFormatTag,
}

/// The tag characters are matched case-insensitively; the tags themselves
/// are ASCII, so only the five uppercase ASCII letters involved fold.
pub open spec fn fold_tag_char(c: char) -> char {
    if c == 'T' {
        't'
    } else if c == 'X' {
        'x'
    } else if c == 'C' {
        'c'
    } else if c == 'S' {
        's'
    } else if c == 'V' {
        'v'
    } else {
        c
    }
}

/// The format string selects plain text: it spells `txt`, in any case.
pub open spec fn is_txt_tag(s: Seq<char>) -> bool {
    s.len() == 3 && fold_tag_char(s[0]) == 't' && fold_tag_char(s[1]) == 'x' && fold_tag_char(
        s[2],
    ) == 't'
}

/// The format string selects comma-separated values: it spells `csv`, in
/// any case.
pub open spec fn is_csv_tag(s: Seq<char>) -> bool {
    s.len() == 3 && fold_tag_char(s[0]) == 'c' && fold_tag_char(s[1]) == 's' && fold_tag_char(
        s[2],
    ) == 'v'
}

/// Maps the user-supplied format string to a tag: `txt` selects
/// `PlainText`, `csv` selects `Csv` (both case-insensitively), and any
/// other string is rejected with `InvalidFormatTag`.
pub fn parse_format_tag(tag: &str) -> (r: Result<Format, StatsError>)
    ensures
        is_txt_tag(tag@) ==> r == Ok::<Format, StatsError>(Format::PlainText),
        is_csv_tag(tag@) ==> r == Ok::<Format, StatsError>(Format::Csv),
        !is_txt_tag(tag@) && !is_csv_tag(tag@) ==> r == Err::<Format, StatsError>(
            StatsError::InvalidFormatTag,
        ),
{
    let n = tag.unicode_len();
    if n != 3 {
        return Err(StatsError::InvalidFormatTag);
    }
    let c0 = fold_tag_char_exec(tag.get_char(0));
    let c1 = fold_tag_char_exec(tag.get_char(1));
    let c2 = fold_tag_char_exec(tag.get_char(2));
    if c0 == 't' && c1 == 'x' && c2 == 't' {
        Ok(Format::PlainText)
    } else if c0 == 'c' && c1 == 's' && c2 == 'v' {
        Ok(Format::Csv)
    } else {
        Err(StatsError::InvalidFormatTag)
    }
}

fn fold_tag_char_exec(c: char) -> (r: char)
    ensures
        r == fold_tag_char(c),
{
    if c == 'T' {
        't'
    } else if c == 'X' {
        'x'
    } else if c == 'C' {
        'c'
    } else if c == 'S' {
        's'
    } else if c == 'V' {
        'v'
    } else {
        c
    }
}

} // verus!
