//! The format-aware tokenizer.
//!
//! Raw text is normalized (under `Csv`, every comma becomes a space) and
//! then split on runs of whitespace; empty tokens are discarded.  Under
//! `PlainText` a comma survives tokenization inside a token, and such a
//! token is evidence that a CSV file was mislabeled: tokenization then
//! fails with `FormatMismatch` before any numeric parsing happens.

use vstd::prelude::*;

use crate::format::Format;
use crate::format::StatsError;

verus! {

/// The characters Rust's `str::split_whitespace` splits on: the Unicode
/// `White_Space` code points.
pub open spec fn is_whitespace_char(c: char) -> bool {
    ||| c == ' '
    ||| c == '\t'
    ||| c == '\n'
    ||| c == '\r'
    ||| c == '\u{000B}'
    ||| c == '\u{000C}'
    ||| c == '\u{0085}'
    ||| c == '\u{00A0}'
    ||| c == '\u{1680}'
    ||| c == '\u{2000}'
    ||| c == '\u{2001}'
    ||| c == '\u{2002}'
    ||| c == '\u{2003}'
    ||| c == '\u{2004}'
    ||| c == '\u{2005}'
    ||| c == '\u{2006}'
    ||| c == '\u{2007}'
    ||| c == '\u{2008}'
    ||| c == '\u{2009}'
    ||| c == '\u{200A}'
    ||| c == '\u{2028}'
    ||| c == '\u{2029}'
    ||| c == '\u{202F}'
    ||| c == '\u{205F}'
    ||| c == '\u{3000}'
}

fn is_whitespace(c: char) -> (r: bool)
    ensures
        r == is_whitespace_char(c),
{
    c == ' ' || c == '\t' || c == '\n' || c == '\r' || c == '\u{000B}' || c == '\u{000C}' || c
        == '\u{0085}' || c == '\u{00A0}' || c == '\u{1680}' || c == '\u{2000}' || c == '\u{2001}'
        || c == '\u{2002}' || c == '\u{2003}' || c == '\u{2004}' || c == '\u{2005}' || c
        == '\u{2006}' || c == '\u{2007}' || c == '\u{2008}' || c == '\u{2009}' || c == '\u{200A}'
        || c == '\u{2028}' || c == '\u{2029}' || c == '\u{202F}' || c == '\u{205F}' || c
        == '\u{3000}'
}

/// Per-character normalization: under `Csv` a comma becomes a space,
/// under `PlainText` every character is kept as it is.
pub open spec fn normalize_char(fmt: Format, c: char) -> char {
    if fmt is Csv && c == ',' {
        ' '
    } else {
        c
    }
}

fn normalize_char_exec(fmt: Format, c: char) -> (r: char)
    ensures
        r == normalize_char(fmt, c),
{
    match fmt {
        Format::Csv => if c == ',' {
            ' '
        } else {
            c
        },
        Format::PlainText => c,
    }
}

/// Format-specific normalization of a whole text.
pub open spec fn normalize(fmt: Format, s: Seq<char>) -> Seq<char> {
    s.map_values(|c: char| normalize_char(fmt, c))
}

/// The state of a left-to-right whitespace split: the tokens already
/// completed, and the (possibly empty) token being accumulated.
pub open spec fn ws_fold(s: Seq<char>) -> (Seq<Seq<char>>, Seq<char>)
    decreases s.len(),
{
    if s.len() == 0 {
        (Seq::empty(), Seq::empty())
    } else {
        let st = ws_fold(s.drop_last());
        let c = s.last();
        if is_whitespace_char(c) {
            if st.1.len() == 0 {
                st
            } else {
                (st.0.push(st.1), Seq::empty())
            }
        } else {
            (st.0, st.1.push(c))
        }
    }
}

/// The non-empty maximal whitespace-free runs of a text, in order.
pub open spec fn ws_tokens(s: Seq<char>) -> Seq<Seq<char>> {
    let st = ws_fold(s);
    if st.1.len() == 0 {
        st.0
    } else {
        st.0.push(st.1)
    }
}

/// What tokenization yields on a text under a format tag: normalize,
/// then split on whitespace.
pub open spec fn spec_tokens(fmt: Format, s: Seq<char>) -> Seq<Seq<char>> {
    ws_tokens(normalize(fmt, s))
}

/// Some token still holds a literal comma.
pub open spec fn has_comma_token(toks: Seq<Seq<char>>) -> bool {
    exists|k: int| 0 <= k < toks.len() && #[trigger] toks[k].contains(',')
}

/// A well-formed token: non-empty and free of whitespace.
pub open spec fn token_wf(t: Seq<char>) -> bool {
    t.len() > 0 && forall|j: int| 0 <= j < t.len() ==> !is_whitespace_char(#[trigger] t[j])
}

proof fn lemma_ws_fold_wf(s: Seq<char>, p: spec_fn(char) -> bool)
    requires
        forall|i: int| 0 <= i < s.len() ==> p(#[trigger] s[i]),
    ensures
        forall|k: int| 0 <= k < ws_fold(s).0.len() ==> token_wf(#[trigger] ws_fold(s).0[k]),
        forall|k: int, j: int|
            0 <= k < ws_fold(s).0.len() && 0 <= j < ws_fold(s).0[k].len() ==> p(
                #[trigger] ws_fold(s).0[k][j],
            ),
        forall|j: int|
            0 <= j < ws_fold(s).1.len() ==> !is_whitespace_char(#[trigger] ws_fold(s).1[j]) && p(
                ws_fold(s).1[j],
            ),
    decreases s.len(),
{
    if s.len() > 0 {
        let d = s.drop_last();
        assert(forall|i: int| 0 <= i < d.len() ==> p(#[trigger] d[i]));
        lemma_ws_fold_wf(d, p);
        let st = ws_fold(d);
        let c = s.last();
        assert(c == s[s.len() - 1]);
        if is_whitespace_char(c) {
            if st.1.len() > 0 {
                let done2 = st.0.push(st.1);
                assert(ws_fold(s).0 == done2);
                assert forall|k: int| 0 <= k < done2.len() implies token_wf(
                    #[trigger] done2[k],
                ) by {
                    if k == st.0.len() {
                        assert(done2[k] == st.1);
                    }
                }
                assert forall|k: int, j: int|
                    0 <= k < done2.len() && 0 <= j < done2[k].len() implies p(
                    #[trigger] done2[k][j],
                ) by {
                    if k == st.0.len() {
                        assert(done2[k] == st.1);
                    }
                }
            }
        } else {
            let cur2 = st.1.push(c);
            assert(ws_fold(s).1 == cur2);
            assert forall|j: int| 0 <= j < cur2.len() implies !is_whitespace_char(
                #[trigger] cur2[j],
            ) && p(cur2[j]) by {
                if j == st.1.len() {
                    assert(cur2[j] == c);
                }
            }
        }
    }
}

/// Every token that tokenization yields is non-empty and contains no
/// whitespace: empty tokens are discarded, and whitespace only separates.
pub proof fn lemma_tokens_wf(fmt: Format, s: Seq<char>)
    ensures
        forall|k: int|
            0 <= k < spec_tokens(fmt, s).len() ==> token_wf(#[trigger] spec_tokens(fmt, s)[k]),
{
    lemma_ws_fold_wf(normalize(fmt, s), |c: char| true);
}

/// Under `Csv` no token can contain a comma: normalization replaced every
/// comma with a space before the split.
pub proof fn lemma_csv_tokens_comma_free(s: Seq<char>)
    ensures
        forall|k: int|
            0 <= k < spec_tokens(Format::Csv, s).len() ==> !(#[trigger] spec_tokens(
                Format::Csv,
                s,
            )[k]).contains(','),
{
    let ns = normalize(Format::Csv, s);
    assert(forall|i: int| 0 <= i < ns.len() ==> (#[trigger] ns[i]) != ',');
    lemma_ws_fold_wf(ns, |c: char| c != ',');
    let toks = spec_tokens(Format::Csv, s);
    assert forall|k: int| 0 <= k < toks.len() implies !(#[trigger] toks[k]).contains(',') by {
        if toks[k].contains(',') {
            let j = choose|j: int| 0 <= j < toks[k].len() && toks[k][j] == ',';
            assert(false);
        }
    }
}

/// Tokenizing a text under `Csv` gives exactly the tokens of the
/// comma-replaced text under `PlainText`: comma normalization is the whole
/// difference between the two formats.
pub proof fn lemma_csv_normalization(s: Seq<char>)
    ensures
        spec_tokens(Format::Csv, s) == spec_tokens(Format::PlainText, normalize(Format::Csv, s)),
{
    assert(normalize(Format::PlainText, normalize(Format::Csv, s)) =~= normalize(
        Format::Csv,
        s,
    ));
}

/// Splits the text into tokens under the given format.
///
/// Under `PlainText`, a token that still contains a comma makes the whole
/// call fail with `FormatMismatch` (and tokenization yields no values that
/// anything downstream could parse); otherwise the result is every
/// non-empty whitespace-free run of the normalized text, in order.
pub fn tokenize(text: &str, fmt: Format) -> (r: Result<Vec<String>, StatsError>)
    ensures
        ({
            let toks = spec_tokens(fmt, text@);
            match r {
                Ok(tokens) => {
                    &&& tokens.deep_view() == toks
                    &&& !(fmt is PlainText && has_comma_token(toks))
                },
                Err(e) => {
                    &&& e == StatsError::FormatMismatch
                    &&& fmt is PlainText
                    &&& has_comma_token(toks)
                },
            }
        }),
{
    let n = text.unicode_len();
    let mut tokens: Vec<String> = Vec::new();
    let mut start: usize = 0;
    let mut i: usize = 0;
    proof {
        assert(normalize(fmt, text@.subrange(0, 0)) =~= Seq::<char>::empty());
        assert(tokens.deep_view() =~= Seq::<Seq<char>>::empty());
    }
    while i < n
        invariant
            start <= i <= n,
            ws_fold(normalize(fmt, text@.subrange(0, i as int))).0 == tokens.deep_view(),
            ws_fold(normalize(fmt, text@.subrange(0, i as int))).1 == text@.subrange(
                start as int,
                i as int,
            ),
            forall|j: int|
                start <= j < i ==> !is_whitespace_char(#[trigger] normalize_char(fmt, text@[j]))
                    && normalize_char(fmt, text@[j]) == text@[j],
        decreases n - i,
    {
        let c = text.get_char(i);
        let nc = normalize_char_exec(fmt, c);
        proof {
            assert(normalize(fmt, text@.subrange(0, i + 1)) =~= normalize(
                fmt,
                text@.subrange(0, i as int),
            ).push(normalize_char(fmt, text@[i as int])));
            assert(normalize(fmt, text@.subrange(0, i + 1)).drop_last() =~= normalize(
                fmt,
                text@.subrange(0, i as int),
            ));
        }
        if is_whitespace(nc) {
            if start < i {
                let tok = text.substring_char(start, i);
                let ghost prev = tokens.deep_view();
                tokens.push(tok.to_owned());
                proof {
                    assert(tokens.deep_view() =~= prev.push(text@.subrange(
                        start as int,
                        i as int,
                    )));
                }
            }
            start = i + 1;
            proof {
                assert(text@.subrange(start as int, i + 1) =~= Seq::<char>::empty());
            }
        } else {
            proof {
                assert(text@.subrange(start as int, i + 1) =~= text@.subrange(
                    start as int,
                    i as int,
                ).push(text@[i as int]));
            }
        }
        i = i + 1;
    }
    proof {
        assert(text@.subrange(0, n as int) =~= text@);
    }
    if start < n {
        let tok = text.substring_char(start, n);
        let ghost prev = tokens.deep_view();
        tokens.push(tok.to_owned());
        proof {
            assert(tokens.deep_view() =~= prev.push(text@.subrange(start as int, n as int)));
        }
    }
    proof {
        assert(tokens.deep_view() == spec_tokens(fmt, text@));
    }
    match fmt {
        Format::Csv => Ok(tokens),
        Format::PlainText => {
            let m = tokens.len();
            let mut k: usize = 0;
            while k < m
                invariant
                    k <= m,
                    m == tokens.len(),
                    tokens.deep_view() == spec_tokens(fmt, text@),
                    forall|x: int|
                        0 <= x < k ==> !(#[trigger] tokens.deep_view()[x].contains(',')),
                decreases m - k,
            {
                let ts: &str = tokens[k].as_str();
                proof {
                    assert(ts@ == tokens.deep_view()[k as int]);
                }
                let tn = ts.unicode_len();
                let mut j: usize = 0;
                while j < tn
                    invariant
                        j <= tn,
                        tn == ts@.len(),
                        ts@ == tokens.deep_view()[k as int],
                        k < m == tokens.len(),
                        tokens.deep_view() == spec_tokens(fmt, text@),
                        forall|y: int| 0 <= y < j ==> ts@[y] != ',',
                    decreases tn - j,
                {
                    if ts.get_char(j) == ',' {
                        proof {
                            assert(spec_tokens(fmt, text@)[k as int].contains(','));
                        }
                        return Err(StatsError::FormatMismatch);
                    }
                    j = j + 1;
                }
                proof {
                    assert(!ts@.contains(',')) by {
                        if ts@.contains(',') {
                            let y = choose|y: int| 0 <= y < ts@.len() && ts@[y] == ',';
                            assert(false);
                        }
                    }
                }
                k = k + 1;
            }
            Ok(tokens)
        },
    }
}

} // verus!
