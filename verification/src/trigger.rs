//! The trigger parser: from a cursor position in a line, derive the sigil,
//! the needle typed after it, and the span a completion replaces.

use vstd::prelude::*;
use vstd::string::StrSliceExecFns;
use vstd::string::StringExecFns;

use crate::strutil::{is_ws_char, ws_char};

verus! {

/// The cursor column, clamped to the line's length: a stale client-reported
/// column beyond the end behaves as if it sat at the end.
pub open spec fn clamp_col(s: Seq<char>, col: int) -> int {
    if col <= s.len() {
        col
    } else {
        s.len() as int
    }
}

/// Where the word ending at `col` begins: scanning backward from `col`
/// until whitespace or the line start.
pub open spec fn word_start(s: Seq<char>, col: int) -> int
    recommends
        col <= s.len(),
    decreases col,
{
    if col <= 0 {
        0
    } else if is_ws_char(s[col - 1]) {
        col
    } else {
        word_start(s, col - 1)
    }
}

/// The word the cursor sits at the end of.
pub open spec fn word_of(s: Seq<char>, col: int) -> Seq<char> {
    s.subrange(word_start(s, clamp_col(s, col)), clamp_col(s, col))
}

/// The word's first character, if the word is non-empty.
pub open spec fn sigil_of(w: Seq<char>) -> Option<char> {
    if w.len() == 0 {
        None
    } else {
        Some(w[0])
    }
}

/// Everything after the word's first character; empty for a word of at most
/// one character.
pub open spec fn needle_of(w: Seq<char>) -> Seq<char> {
    if w.len() <= 1 {
        Seq::empty()
    } else {
        w.skip(1)
    }
}

/// Start of the span a completion replaces: the needle's length plus one
/// back from the cursor, saturated at the line start.
pub open spec fn range_start_spec(col: int, needle_len: int) -> int {
    if col >= needle_len + 1 {
        col - needle_len - 1
    } else {
        0
    }
}

/// A cursor column beyond the line's end behaves exactly as a column at the
/// line's end.
pub proof fn lemma_column_clamped(s: Seq<char>, col: int)
    requires
        col > s.len(),
    ensures
        clamp_col(s, col) == s.len(),
        word_of(s, col) == word_of(s, s.len() as int),
{
}

/// The single-line span a completion's edit replaces.
#[derive(Clone, Copy, Debug, PartialEq, Eq, Structural)]
pub struct ReplaceRange {
    pub line: usize,
    pub start_col: usize,
    pub end_col: usize,
}

/// What was derived from the cursor position: the trigger sigil, the needle
/// typed after it, and the span to replace. Computed per call, not kept.
#[derive(Debug)]
pub struct TriggerContext {
    pub sigil: Option<char>,
    pub needle: String,
    pub range: ReplaceRange,
}

/// Derive the trigger context at (line_no, col) of `line`. The column is
/// clamped to the line length; the word before the clamped cursor is split
/// into its leading sigil and the needle after it.
pub fn parse_trigger(line: &str, line_no: usize, col: usize) -> (r: TriggerContext)
    ensures
        r.sigil == sigil_of(word_of(line@, col as int)),
        r.needle@ == needle_of(word_of(line@, col as int)),
        r.range.line == line_no,
        r.range.end_col == clamp_col(line@, col as int),
        r.range.start_col == range_start_spec(
            clamp_col(line@, col as int),
            needle_of(word_of(line@, col as int)).len() as int,
        ),
{
    let len = line.unicode_len();
    let c = if col <= len {
        col
    } else {
        len
    };
    let mut w: usize = c;
    while w > 0 && !ws_char(line.get_char(w - 1))
        invariant
            w <= c <= len,
            len == line@.len(),
            word_start(line@, c as int) == word_start(line@, w as int),
        decreases w,
    {
        w -= 1;
    }
    assert(word_start(line@, c as int) == w as int);
    let ghost word = word_of(line@, col as int);
    assert(word == line@.subrange(w as int, c as int));
    let word_len = c - w;
    let sigil: Option<char> = if word_len == 0 {
        None
    } else {
        Some(line.get_char(w))
    };
    let needle: String = if word_len <= 1 {
        String::new()
    } else {
        line.substring_char(w + 1, c).to_owned()
    };
    proof {
        if word.len() > 1 {
            assert(needle@ =~= needle_of(word));
        }
    }
    let needle_len = needle.as_str().unicode_len();
    let start_col = if c >= needle_len + 1 {
        c - needle_len - 1
    } else {
        0
    };
    TriggerContext {
        sigil,
        needle,
        range: ReplaceRange { line: line_no, start_col, end_col: c },
    }
}

} // verus!
