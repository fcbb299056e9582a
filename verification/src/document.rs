//! The document store's buffer model: line structure over a flat character
//! sequence, position-to-offset translation, and full or incremental edits
//! applied in arrival order.

use vstd::prelude::*;
use vstd::string::StrSliceExecFns;
use vstd::string::StringExecFns;

verus! {

/// Index of the first newline at or after `from`, or `s.len()` when the rest
/// of `s` has none.
pub open spec fn next_newline(s: Seq<char>, from: int) -> int
    decreases s.len() - from,
{
    if from < 0 || from >= s.len() {
        s.len() as int
    } else if s[from] == '\n' {
        from
    } else {
        next_newline(s, from + 1)
    }
}

/// Offset at which line `l` begins; `s.len() + 1` when `s` has no line `l`.
/// A trailing newline opens one further (empty) line.
pub open spec fn line_start(s: Seq<char>, l: int) -> int
    decreases l,
{
    if l <= 0 {
        0
    } else {
        let p = line_start(s, l - 1);
        if p > s.len() {
            p
        } else {
            let nn = next_newline(s, p);
            if nn == s.len() {
                s.len() + 1 as int
            } else {
                nn + 1
            }
        }
    }
}

/// Whether `s` has a line numbered `l`.
pub open spec fn line_exists(s: Seq<char>, l: int) -> bool {
    0 <= l && line_start(s, l) <= s.len()
}

/// Offset one past the last character of line `l` (its newline excluded).
pub open spec fn line_end(s: Seq<char>, l: int) -> int {
    next_newline(s, line_start(s, l))
}

/// The text of line `l`, without its terminator.
pub open spec fn line_at(s: Seq<char>, l: int) -> Seq<char> {
    s.subrange(line_start(s, l), line_end(s, l))
}

/// Number of characters in line `l`.
pub open spec fn line_len(s: Seq<char>, l: int) -> int {
    line_end(s, l) - line_start(s, l)
}

/// A (line, column) pair addresses a character slot of `s`: the line exists
/// and the column is at most the line's length.
pub open spec fn valid_position(s: Seq<char>, line: int, col: int) -> bool {
    line_exists(s, line) && 0 <= col <= line_len(s, line)
}

/// Absolute offset of a (line, column) pair.
pub open spec fn position_offset_spec(s: Seq<char>, line: int, col: int) -> int {
    line_start(s, line) + col
}

proof fn lemma_line_start_stays_out(s: Seq<char>, l0: int, l: int)
    requires
        0 <= l0 <= l,
        line_start(s, l0) > s.len(),
    ensures
        line_start(s, l) > s.len(),
    decreases l - l0,
{
    if l0 < l {
        lemma_line_start_stays_out(s, l0 + 1, l);
    }
}

proof fn lemma_next_newline_bounds(s: Seq<char>, from: int)
    requires
        0 <= from <= s.len(),
    ensures
        from <= next_newline(s, from) <= s.len(),
    decreases s.len() - from,
{
    if from < s.len() && s[from] != '\n' {
        lemma_next_newline_bounds(s, from + 1);
    }
}

fn next_newline_exec(s: &str, from: usize) -> (r: usize)
    requires
        from <= s@.len(),
    ensures
        r == next_newline(s@, from as int),
{
    let len = s.unicode_len();
    let mut i = from;
    while i < len
        invariant
            from <= i <= len,
            len == s@.len(),
            next_newline(s@, from as int) == next_newline(s@, i as int),
        decreases len - i,
    {
        if s.get_char(i) == '\n' {
            return i;
        }
        i += 1;
    }
    len
}

fn line_start_exec(s: &str, l: usize) -> (r: Option<usize>)
    ensures
        match r {
            Some(p) => line_start(s@, l as int) == p as int && p <= s@.len(),
            None => line_start(s@, l as int) > s@.len(),
        },
{
    let len = s.unicode_len();
    let mut pos: usize = 0;
    let mut k: usize = 0;
    while k < l
        invariant
            k <= l,
            pos <= len,
            len == s@.len(),
            line_start(s@, k as int) == pos as int,
        decreases l - k,
    {
        let nn = next_newline_exec(s, pos);
        proof {
            lemma_next_newline_bounds(s@, pos as int);
        }
        if nn == len {
            proof {
                lemma_line_start_stays_out(s@, k + 1, l as int);
            }
            return None;
        }
        pos = nn + 1;
        k += 1;
    }
    Some(pos)
}

/// Translate a (line, column) position into an absolute offset, or report
/// that the position lies outside the buffer.
pub fn position_offset(s: &str, line: usize, col: usize) -> (r: Option<usize>)
    ensures
        match r {
            Some(o) => valid_position(s@, line as int, col as int) && o as int
                == position_offset_spec(s@, line as int, col as int) && o <= s@.len(),
            None => !valid_position(s@, line as int, col as int),
        },
{
    match line_start_exec(s, line) {
        None => None,
        Some(p) => {
            let e = next_newline_exec(s, p);
            proof {
                lemma_next_newline_bounds(s@, p as int);
            }
            if col <= e - p {
                Some(p + col)
            } else {
                None
            }
        },
    }
}

/// An error a single document request is answered with.
#[derive(Clone, Copy, Debug, PartialEq, Eq)]
pub enum RequestError {
    /// The request named a document that is not open.
    UnknownDocument,
    /// A (line, column) coordinate lies outside the buffer's extents.
    RangeOutOfBounds,
}

impl RequestError {
    /// A human-readable description of the error.
    pub fn message(&self) -> (r: &'static str)
        ensures
            *self is UnknownDocument ==> r@ == "unknown document"@,
            *self is RangeOutOfBounds ==> r@ == "range out of bounds"@,
    {
        match self {
            RequestError::UnknownDocument => "unknown document",
            RequestError::RangeOutOfBounds => "range out of bounds",
        }
    }
}

/// The (line, column) endpoints of an incremental edit.
#[derive(Clone, Copy, Debug)]
pub struct EditRange {
    pub start_line: usize,
    pub start_col: usize,
    pub end_line: usize,
    pub end_col: usize,
}

/// One edit: a replacement of `range` by `text`, or — with no range — a
/// replacement of the whole content.
#[derive(Debug)]
pub struct Edit {
    pub range: Option<EditRange>,
    pub text: String,
}

/// `s` with the span `[a, b)` replaced by `t`.
pub open spec fn splice(s: Seq<char>, a: int, b: int, t: Seq<char>) -> Seq<char> {
    s.subrange(0, a) + t + s.subrange(b, s.len() as int)
}

/// Both endpoints of `r` address `s` and come in order.
pub open spec fn edit_range_valid(s: Seq<char>, r: EditRange) -> bool {
    valid_position(s, r.start_line as int, r.start_col as int) && valid_position(
        s,
        r.end_line as int,
        r.end_col as int,
    ) && position_offset_spec(s, r.start_line as int, r.start_col as int)
        <= position_offset_spec(s, r.end_line as int, r.end_col as int)
}

/// The content after one edit, or `None` when the edit's range does not fit.
pub open spec fn apply_edit_spec(s: Seq<char>, e: Edit) -> Option<Seq<char>> {
    match e.range {
        None => Some(e.text@),
        Some(r) => if edit_range_valid(s, r) {
            Some(
                splice(
                    s,
                    position_offset_spec(s, r.start_line as int, r.start_col as int),
                    position_offset_spec(s, r.end_line as int, r.end_col as int),
                    e.text@,
                ),
            )
        } else {
            None
        },
    }
}

/// The content after a sequence of edits applied in order, one at a time to
/// the evolving content; `None` when one of them does not fit.
pub open spec fn apply_edits_spec(s: Seq<char>, es: Seq<Edit>) -> Option<Seq<char>>
    decreases es.len(),
{
    if es.len() == 0 {
        Some(s)
    } else {
        match apply_edit_spec(s, es[0]) {
            Some(s2) => apply_edits_spec(s2, es.skip(1)),
            None => None,
        }
    }
}

/// Applying a batch with one more edit at its end is applying the batch and
/// then that edit to the evolving content: sequential arrival-order
/// semantics.
pub proof fn lemma_apply_edits_snoc(s: Seq<char>, es: Seq<Edit>, e: Edit)
    ensures
        apply_edits_spec(s, es.push(e)) == match apply_edits_spec(s, es) {
            Some(t) => apply_edit_spec(t, e),
            None => None,
        },
    decreases es.len(),
{
    if es.len() == 0 {
        assert(es.push(e)[0] == e);
        assert(es.push(e).skip(1) =~= Seq::<Edit>::empty());
        match apply_edit_spec(s, e) {
            Some(s2) => {
                assert(apply_edits_spec(s2, Seq::<Edit>::empty()) == Some(s2));
                assert(apply_edits_spec(s, es.push(e)) == apply_edits_spec(
                    s2,
                    es.push(e).skip(1),
                ));
            },
            None => {
                assert(apply_edits_spec(s, es.push(e)) is None);
            },
        }
    } else {
        assert(es.push(e)[0] == es[0]);
        assert(es.push(e).skip(1) =~= es.skip(1).push(e));
        match apply_edit_spec(s, es[0]) {
            Some(s2) => {
                lemma_apply_edits_snoc(s2, es.skip(1), e);
                assert(apply_edits_spec(s, es.push(e)) == apply_edits_spec(s2, es.skip(1).push(e)));
                assert(apply_edits_spec(s, es) == apply_edits_spec(s2, es.skip(1)));
            },
            None => {},
        }
    }
}

/// The in-memory text of one open document.
#[derive(Debug)]
pub struct Buffer {
    pub content: String,
    pub version: i32,
}

impl Clone for Buffer {
    /// An exact copy.
    fn clone(&self) -> (r: Self)
        ensures
            r == *self,
    {
        Buffer { content: self.content.clone(), version: self.version }
    }
}

impl Clone for Edit {
    /// An exact copy.
    fn clone(&self) -> (r: Self)
        ensures
            r == *self,
    {
        Edit {
            range: self.range,
            text: self.text.clone(),
        }
    }
}

impl Buffer {
    /// A buffer freshly opened with `text`.
    pub fn open(text: String, version: i32) -> (r: Buffer)
        ensures
            r.content@ == text@,
            r.version == version,
    {
        Buffer { content: text, version }
    }

    /// The text of line `l`, without its terminator; `None` when the buffer
    /// has no such line.
    pub fn line(&self, l: usize) -> (r: Option<&str>)
        ensures
            match r {
                Some(t) => line_exists(self.content@, l as int) && t@ == line_at(
                    self.content@,
                    l as int,
                ),
                None => !line_exists(self.content@, l as int),
            },
    {
        match line_start_exec(self.content.as_str(), l) {
            None => None,
            Some(p) => {
                let e = next_newline_exec(self.content.as_str(), p);
                proof {
                    lemma_next_newline_bounds(self.content@, p as int);
                }
                Some(self.content.as_str().substring_char(p, e))
            },
        }
    }

    /// Apply one edit. A full replacement (no range) always succeeds and the
    /// content becomes exactly the edit's text, the prior content discarded.
    /// A ranged edit splices the text over the addressed span, or fails with
    /// `RangeOutOfBounds` leaving the buffer unchanged.
    pub fn apply_edit(&mut self, e: &Edit) -> (r: Result<(), RequestError>)
        ensures
            match apply_edit_spec(old(self).content@, *e) {
                Some(t) => r is Ok && final(self).content@ == t,
                None => r == Result::<(), RequestError>::Err(RequestError::RangeOutOfBounds)
                    && *final(self) == *old(self),
            },
            e.range is None ==> r is Ok && final(self).content@ == e.text@,
            final(self).version == old(self).version,
    {
        match &e.range {
            None => {
                self.content = e.text.clone();
                Ok(())
            },
            Some(range) => {
                let s = self.content.as_str();
                let a_opt = position_offset(s, range.start_line, range.start_col);
                let b_opt = position_offset(s, range.end_line, range.end_col);
                match (a_opt, b_opt) {
                    (Some(a), Some(b)) => {
                        if a <= b {
                            let len = self.content.as_str().unicode_len();
                            assert(a <= b <= self.content@.len());
                            let mut out = self.content.as_str().substring_char(0, a).to_owned();
                            out.append(e.text.as_str());
                            out.append(self.content.as_str().substring_char(b, len));
                            self.content = out;
                            Ok(())
                        } else {
                            Err(RequestError::RangeOutOfBounds)
                        }
                    },
                    _ => Err(RequestError::RangeOutOfBounds),
                }
            },
        }
    }

    /// Apply a batch of edits in arrival order, each to the content the
    /// previous ones produced. When one does not fit, the whole batch is
    /// refused and the buffer keeps its prior content.
    pub fn apply_edits(&mut self, es: &Vec<Edit>, new_version: i32) -> (r: Result<
        (),
        RequestError,
    >)
        ensures
            match apply_edits_spec(old(self).content@, es@) {
                Some(t) => r is Ok && final(self).content@ == t && final(self).version
                    == new_version,
                None => r == Result::<(), RequestError>::Err(RequestError::RangeOutOfBounds)
                    && *final(self) == *old(self),
            },
    {
        let mut work = Buffer { content: self.content.clone(), version: self.version };
        let mut i: usize = 0;
        proof {
            assert(es@.skip(0) =~= es@);
        }
        while i < es.len()
            invariant
                i <= es@.len(),
                apply_edits_spec(self.content@, es@) == apply_edits_spec(work.content@, es@.skip(
                    i as int,
                )),
            decreases es@.len() - i,
        {
            let step = work.apply_edit(&es[i]);
            proof {
                assert(es@.skip(i as int)[0] == es@[i as int]);
                assert(es@.skip(i as int).skip(1) =~= es@.skip(i + 1));
            }
            match step {
                Ok(()) => {},
                Err(err) => {
                    return Err(err);
                },
            }
            i += 1;
        }
        proof {
            assert(es@.skip(es@.len() as int) =~= Seq::<Edit>::empty());
        }
        self.content = work.content;
        self.version = new_version;
        Ok(())
    }
}

} // verus!
