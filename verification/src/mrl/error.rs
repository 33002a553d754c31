//! Errors of the MRL pipeline, source spans, and locating an error in its source.

use vstd::prelude::*;
use vstd::utf8::*;
use vstd::string::StringSliceAdditionalSpecFns;

verus! {

broadcast use vstd::utf8::is_char_boundary_iff_not_is_continuation_byte, vstd::utf8::is_char_boundary_start_end_of_seq;

/// A byte range `[start, end)` in a source text.
#[derive(Debug, Clone, Copy, PartialEq, Eq, Hash, Structural, Default)]
pub struct Span {
    pub start: usize,
    pub end: usize,
}

impl Span {
    /// The span `[start, end)`.
    pub fn new(start: usize, end: usize) -> (r: Self)
        ensures
            r.start == start,
            r.end == end,
    {
        Span { start, end }
    }

    /// The number of bytes the span covers (zero when it is reversed).
    pub fn len(&self) -> (r: usize)
        ensures
            r == if self.end >= self.start { self.end - self.start } else { 0 },
    {
        if self.end >= self.start { self.end - self.start } else { 0 }
    }

    /// Whether the span covers no bytes.
    pub fn is_empty(&self) -> (r: bool)
        ensures
            r == (self.end <= self.start),
    {
        self.end <= self.start
    }
}

/// Errors that can occur during MRL processing.
#[derive(Debug)]
pub enum MrlError {
    LexerError { span: Span, message: String },
    ParserError { span: Span, message: String },
    TypeError { span: Span, message: String },
    HygieneError { span: Span, message: String },
    ExpansionError { span: Span, message: String },
    EvaluationError { span: Span, message: String },
    UnboundIdentifier { span: Span, name: String },
    ArityMismatch { span: Span, expected: usize, got: usize },
    KindMismatch { span: Span, expected: String, got: String },
    InvalidContentNesting { span: Span },
    StageLevelError { span: Span, message: String },
    CapabilityError { span: Span, message: String },
}

/// The span an error carries.
pub open spec fn error_span(e: MrlError) -> Span {
    match e {
        MrlError::LexerError { span, .. } => span,
        MrlError::ParserError { span, .. } => span,
        MrlError::TypeError { span, .. } => span,
        MrlError::HygieneError { span, .. } => span,
        MrlError::ExpansionError { span, .. } => span,
        MrlError::EvaluationError { span, .. } => span,
        MrlError::UnboundIdentifier { span, .. } => span,
        MrlError::ArityMismatch { span, .. } => span,
        MrlError::KindMismatch { span, .. } => span,
        MrlError::InvalidContentNesting { span } => span,
        MrlError::StageLevelError { span, .. } => span,
        MrlError::CapabilityError { span, .. } => span,
    }
}

impl MrlError {
    /// The span this error carries.
    pub fn span(&self) -> (r: Span)
        ensures
            r == error_span(*self),
    {
        match self {
            MrlError::LexerError { span, .. } => *span,
            MrlError::ParserError { span, .. } => *span,
            MrlError::TypeError { span, .. } => *span,
            MrlError::HygieneError { span, .. } => *span,
            MrlError::ExpansionError { span, .. } => *span,
            MrlError::EvaluationError { span, .. } => *span,
            MrlError::UnboundIdentifier { span, .. } => *span,
            MrlError::ArityMismatch { span, .. } => *span,
            MrlError::KindMismatch { span, .. } => *span,
            MrlError::InvalidContentNesting { span } => *span,
            MrlError::StageLevelError { span, .. } => *span,
            MrlError::CapabilityError { span, .. } => *span,
        }
    }
}

/// The number of newline bytes in `b`.
pub open spec fn newline_count(b: Seq<u8>) -> nat
    decreases b.len(),
{
    if b.len() == 0 {
        0
    } else {
        newline_count(b.drop_last()) + if b.last() == 10u8 { 1nat } else { 0nat }
    }
}

/// The index of the last newline byte among the first `k` bytes, or -1.
pub open spec fn last_newline_before(b: Seq<u8>, k: int) -> int
    decreases k,
{
    if k <= 0 {
        -1
    } else if b[k - 1] == 10u8 {
        k - 1
    } else {
        last_newline_before(b, k - 1)
    }
}

/// The index of the first newline byte at or after `k`, or the length.
pub open spec fn next_newline_from(b: Seq<u8>, k: int) -> int
    decreases b.len() - k,
{
    if k >= b.len() {
        b.len() as int
    } else if b[k] == 10u8 {
        k
    } else {
        next_newline_from(b, k + 1)
    }
}

proof fn lemma_last_newline_bounds(b: Seq<u8>, k: int)
    requires
        0 <= k <= b.len(),
    ensures
        -1 <= last_newline_before(b, k) < k,
        last_newline_before(b, k) >= 0 ==> b[last_newline_before(b, k)] == 10u8,
    decreases k,
{
    if k > 0 && b[k - 1] != 10u8 {
        lemma_last_newline_bounds(b, k - 1);
    }
}

proof fn lemma_next_newline_bounds(b: Seq<u8>, k: int)
    requires
        0 <= k <= b.len(),
    ensures
        k <= next_newline_from(b, k) <= b.len(),
        next_newline_from(b, k) < b.len() ==> b[next_newline_from(b, k)] == 10u8,
    decreases b.len() - k,
{
    if k < b.len() && b[k] != 10u8 {
        lemma_next_newline_bounds(b, k + 1);
    }
}

/// In valid UTF-8, the position right after a newline byte is a character boundary.
proof fn lemma_boundary_after_newline(b: Seq<u8>, i: int)
    requires
        valid_utf8(b),
        0 <= i < b.len(),
        b[i] == 10u8,
    ensures
        is_char_boundary(b, i + 1),
{
    assert(!is_continuation_byte(b[i]));
    is_char_boundary_iff_not_is_continuation_byte(b, i);
    assert(is_char_boundary(b, i));
    valid_utf8_split(b, i);
    let suffix = b.subrange(i, b.len() as int);
    assert(suffix[0] == 10u8);
    if i + 1 < b.len() {
        assert(length_of_first_scalar(suffix) == 1);
        assert(is_char_boundary(pop_first_scalar(suffix), 0));
        assert(is_char_boundary(suffix, 1));
        assert(!is_continuation_byte(suffix[1]));
        assert(suffix[1] == b[i + 1]);
    }
}

/// Display context for better error messages.
pub struct ErrorContext<'a> {
    pub source: &'a str,
    pub error: &'a MrlError,
}

impl<'a> ErrorContext<'a> {
    /// Pairs an error with the source it came from.
    pub fn new(source: &'a str, error: &'a MrlError) -> (r: Self)
        ensures
            r.source == source,
            r.error == error,
    {
        ErrorContext { source, error }
    }

    fn span(&self) -> (r: Span)
        ensures
            r == error_span(*self.error),
    {
        self.error.span()
    }

    /// Whether the error's start offset lies inside the source on a character boundary.
    pub open spec fn start_in_source(&self) -> bool {
        &&& error_span(*self.error).start <= self.source.spec_bytes().len()
        &&& is_char_boundary(self.source.spec_bytes(), error_span(*self.error).start as int)
    }

    /// Get the source line containing the error: from just after the last
    /// newline before the error's start to the next newline (or the end).
    pub fn source_line(&self) -> (r: Option<&'a str>)
        requires
            self.start_in_source(),
        ensures
            r matches Some(line) && line.spec_bytes() == self.source.spec_bytes().subrange(
                last_newline_before(self.source.spec_bytes(), error_span(*self.error).start as int) + 1,
                next_newline_from(self.source.spec_bytes(), error_span(*self.error).start as int),
            ),
    {
        let span = self.span();
        let start = span.start;
        let bytes = self.source.as_bytes();
        let ghost b = self.source.spec_bytes();
        proof {
            encode_utf8_valid_utf8(self.source@);
            lemma_last_newline_bounds(b, start as int);
            lemma_next_newline_bounds(b, start as int);
        }
        let mut k: usize = start;
        while k > 0 && bytes[k - 1] != 10u8
            invariant
                k <= start <= b.len(),
                bytes@ == b,
                last_newline_before(b, k as int) == last_newline_before(b, start as int),
            decreases k,
        {
            k = k - 1;
        }
        let line_start: usize = k;
        let mut e: usize = start;
        while e < bytes.len() && bytes[e] != 10u8
            invariant
                start <= e <= b.len(),
                bytes@ == b,
                next_newline_from(b, e as int) == next_newline_from(b, start as int),
            decreases b.len() - e,
        {
            e = e + 1;
        }
        let line_end: usize = e;
        proof {
            if line_start > 0 {
                lemma_boundary_after_newline(b, line_start - 1);
            }
            is_char_boundary_start_end_of_seq(b);
            if line_end < b.len() {
                assert(!is_continuation_byte(b[line_end as int]));
                is_char_boundary_iff_not_is_continuation_byte(b, line_end as int);
            }
            assert(is_char_boundary(b, line_start as int));
            assert(is_char_boundary(b, line_end as int));
            valid_utf8_split(b, line_start as int);
        }
        let (_, rest) = self.source.split_at(line_start);
        proof {
            let rb = b.subrange(line_start as int, b.len() as int);
            assert(rest.spec_bytes() =~= rb);
            if line_end < b.len() {
                assert(rb[line_end - line_start] == 10u8);
                assert(!is_continuation_byte(rb[line_end - line_start]));
                is_char_boundary_iff_not_is_continuation_byte(rb, line_end - line_start);
            } else {
                is_char_boundary_start_end_of_seq(rb);
            }
            assert(is_char_boundary(rb, line_end - line_start));
        }
        let (line, _) = rest.split_at(line_end - line_start);
        proof {
            assert(line.spec_bytes() =~= b.subrange(line_start as int, line_end as int));
        }
        Some(line)
    }

    /// Line and column (1-indexed) of the error's start: the line is one
    /// more than the newlines before the start, the column counts bytes
    /// from the start of that line.
    pub fn line_col(&self) -> (r: (usize, usize))
        requires
            self.start_in_source(),
            error_span(*self.error).start < usize::MAX,
        ensures
            r.0 == newline_count(self.source.spec_bytes().subrange(0, error_span(*self.error).start as int)) + 1,
            r.1 == error_span(*self.error).start - (last_newline_before(self.source.spec_bytes(), error_span(*self.error).start as int) + 1) + 1,
    {
        let span = self.span();
        let start = span.start;
        let bytes = self.source.as_bytes();
        let ghost b = self.source.spec_bytes();
        let mut count: usize = 0;
        let mut i: usize = 0;
        while i < start
            invariant
                i <= start <= b.len(),
                bytes@ == b,
                count == newline_count(b.subrange(0, i as int)),
                count <= i,
            decreases start - i,
        {
            proof {
                assert(b.subrange(0, i + 1).drop_last() =~= b.subrange(0, i as int));
            }
            if bytes[i] == 10u8 {
                count = count + 1;
            }
            i = i + 1;
        }
        let mut k: usize = start;
        while k > 0 && bytes[k - 1] != 10u8
            invariant
                k <= start <= b.len(),
                bytes@ == b,
                last_newline_before(b, k as int) == last_newline_before(b, start as int),
            decreases k,
        {
            k = k - 1;
        }
        proof {
            lemma_last_newline_bounds(b, start as int);
        }
        (count + 1, start - k + 1)
    }
}

} // verus!
