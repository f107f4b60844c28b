//! Advisory records about malformed input. None of them stops a translation.

use vstd::prelude::*;

use crate::model::{is_newline, run, Frame, BACKTICK, DASH, HASH, LF, SPACE, STAR};

verus! {

/// What is wrong with a byte where it stands.
#[derive(Clone, Copy, Debug, PartialEq, Eq, Structural)]
pub enum Warning {
    /// A `#` past header level 6; it is ignored.
    HeaderTooDeep,
    /// A line break ends a header before any text.
    EmptyHeader,
    /// A `*` in bold text that a second `*` does not follow; it is text.
    StrayStar,
    /// A run of backticks that is neither one nor three long; it is dropped.
    UnexpectedCodeMarkers,
    /// A line break inside an inline code span; it closes everything that is open.
    LineBreakInCode,
    /// A line break inside a link or an image; what was read is written back as text.
    LineBreakInLink,
    /// A `-` at the start of a line that no space follows; it is text.
    DashWithoutSpace,
}

/// A warning, with the line (from 1) and the column (from 1) of the byte it is about.
#[derive(Clone, Copy, Debug, PartialEq, Eq, Structural)]
pub struct Diagnostic {
    pub line: usize,
    pub column: usize,
    pub warning: Warning,
}

/// The warning that byte `b` gets when frame `f` is on top.
pub open spec fn warning(f: Frame, b: u8) -> Option<Warning> {
    match f {
        Frame::Header(n, opened) => if b == HASH && n >= 6 {
            Some(Warning::HeaderTooDeep)
        } else if is_newline(b) && !opened {
            Some(Warning::EmptyHeader)
        } else {
            None
        },
        Frame::Bold(true) => if b != STAR && !is_newline(b) {
            Some(Warning::StrayStar)
        } else {
            None
        },
        Frame::Code(counting, n) => if b == BACKTICK {
            None
        } else if n == 1 && is_newline(b) {
            Some(Warning::LineBreakInCode)
        } else if counting && (n == 2 || (!is_newline(b) && n != 1 && n != 3)) {
            Some(Warning::UnexpectedCodeMarkers)
        } else {
            None
        },
        Frame::Link(_) | Frame::Image(_) => if is_newline(b) {
            Some(Warning::LineBreakInLink)
        } else {
            None
        },
        Frame::List(true, _) => if b != SPACE && b != DASH {
            Some(Warning::DashWithoutSpace)
        } else {
            None
        },
        _ => None,
    }
}

/// The number of line feeds in `s`.
pub open spec fn count_lf(s: Seq<u8>) -> nat
    decreases s.len(),
{
    if s.len() == 0 {
        0
    } else {
        count_lf(s.drop_last()) + if s.last() == LF {
            1nat
        } else {
            0nat
        }
    }
}

/// The number of bytes after the last line break in `s`, or in all of `s`.
pub open spec fn trailing(s: Seq<u8>) -> nat
    decreases s.len(),
{
    if s.len() == 0 {
        0
    } else if is_newline(s.last()) {
        0
    } else {
        trailing(s.drop_last()) + 1
    }
}

pub proof fn lemma_count_lf_bound(s: Seq<u8>)
    ensures
        count_lf(s) <= s.len(),
    decreases s.len(),
{
    if s.len() > 0 {
        lemma_count_lf_bound(s.drop_last());
    }
}

pub proof fn lemma_trailing_bound(s: Seq<u8>)
    ensures
        trailing(s) <= s.len(),
    decreases s.len(),
{
    if s.len() > 0 {
        lemma_trailing_bound(s.drop_last());
    }
}

/// The record for the byte that follows `before`, if it gets a warning.
pub open spec fn record(before: Seq<u8>, b: u8) -> Seq<Diagnostic> {
    match warning(run(seq![Frame::Root], before).0.last(), b) {
        Some(w) => seq![
            Diagnostic {
                line: (count_lf(before) + 1) as usize,
                column: (trailing(before) + 1) as usize,
                warning: w,
            },
        ],
        None => seq![],
    }
}

/// The records for a text, in the order of its bytes.
pub open spec fn diagnostics(bytes: Seq<u8>) -> Seq<Diagnostic>
    decreases bytes.len(),
{
    if bytes.len() == 0 {
        seq![]
    } else {
        diagnostics(bytes.drop_last()) + record(bytes.drop_last(), bytes.last())
    }
}

} // verus!
