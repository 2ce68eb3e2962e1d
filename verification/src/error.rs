//! Diagnostics.

use crate::lexer::line_end;
use crate::span::{lemma_line_starts_len, line_of, line_starts, LineIndex, Span};
use crate::text::{chars_of, decimal, push_char, push_string, string_from_chars};
use vstd::prelude::*;
use vstd::utf8::encode_utf8;

verus! {

#[derive(Clone, Debug, PartialEq, Eq)]
pub struct ParseError {
    pub span: Span,
    pub message: String,
}

/// A diagnostic as its span and message text.
pub struct SParseError {
    pub span: Span,
    pub message: Seq<char>,
}

impl View for ParseError {
    type V = SParseError;

    open spec fn view(&self) -> SParseError {
        SParseError { span: self.span, message: self.message@ }
    }
}

/// The view of a parse result.
pub open spec fn result_view<T: View>(r: Result<T, ParseError>) -> Result<T::V, SParseError> {
    match r {
        Ok(v) => Ok(v@),
        Err(e) => Err(e@),
    }
}

/// The `n`-th line (0-based) of `s` from index `p`, as `str::lines` yields
/// them: split at `\n`, a `\r` just before the `\n` dropped, and no empty
/// line after a final `\n`.
pub open spec fn nth_line_from(s: Seq<char>, p: int, n: nat) -> Option<Seq<char>>
    decreases s.len() - p, n,
{
    if p < 0 || p >= s.len() {
        None
    } else {
        let e = line_end(s, p);
        if n == 0 {
            if e < s.len() && e > p && s[e - 1] == '\r' {
                Some(s.subrange(p, e - 1))
            } else {
                Some(s.subrange(p, e))
            }
        } else if e >= s.len() || e < p {
            None
        } else {
            nth_line_from(s, e + 1, (n - 1) as nat)
        }
    }
}

/// `n` copies of `c`.
pub open spec fn repeat(c: char, n: nat) -> Seq<char>
    decreases n,
{
    if n == 0 {
        Seq::empty()
    } else {
        repeat(c, (n - 1) as nat).push(c)
    }
}

/// The text [`ParseError::render`] produces.
pub open spec fn rendered(e: SParseError, file: Seq<char>, src: Seq<char>) -> Seq<char> {
    let starts = line_starts(encode_utf8(src));
    let k = line_of(starts, e.span.start as int);
    let line = k as u32;
    let col = (e.span.start - starts[k - 1] + 1) as u32;
    let text = match nth_line_from(src, 0, (line - 1) as nat) {
        Some(t) => t,
        None => Seq::empty(),
    };
    let span_len: int = if e.span.end >= e.span.start {
        e.span.end - e.span.start
    } else {
        0
    };
    let text_len = encode_utf8(text).len() as usize;
    let room: int = if text_len >= col - 1 {
        text_len - (col - 1)
    } else {
        0
    };
    let want: int = if span_len < 1 {
        1
    } else {
        span_len
    };
    let fit: int = if room < 1 {
        1
    } else {
        room
    };
    let caret_len: int = if want < fit {
        want
    } else {
        fit
    };
    file + ":"@ + (decimal(line as nat) + seq![':'] + decimal(col as nat)) + ": error: "@
        + e.message + "\n  "@ + text + "\n  "@ + repeat(' ', (col - 1) as nat) + repeat(
        '^',
        caret_len as nat,
    )
}

impl ParseError {
    pub fn new(span: Span, message: String) -> (e: ParseError)
        ensures
            e.span == span,
            e.message@ == message@,
    {
        ParseError { span, message }
    }

    /// Render as `file:line:col: error: message`, then the offending source
    /// line and a caret under the span.
    pub fn render(&self, file: &str, src: &str) -> (r: String)
        requires
            encode_utf8(src@).len() < u32::MAX,
            self.span.start < u32::MAX || line_of(
                line_starts(encode_utf8(src@)),
                self.span.start as int,
            ) > 1,
        ensures
            r@ == rendered(self@, file@, src@),
    {
        let index = LineIndex::new(src);
        let lc = index.line_col(self.span.start);
        proof {
            let bytes = encode_utf8(src@);
            lemma_line_starts_len(bytes);
            crate::span::lemma_line_starts_sorted(bytes);
            let starts = line_starts(bytes);
            let k = line_of(starts, self.span.start as int);
            assert(starts[k - 1] <= self.span.start);
            if k > 1 {
                assert(starts[0] < starts[k - 1]);
            }
            assert(lc.col >= 1);
            assert(lc.line >= 1);
        }
        let cs = chars_of(src);
        let text = match nth_line(&cs, (lc.line - 1) as usize) {
            Some(t) => t,
            None => String::new(),
        };
        let span_len = self.span.len();
        let text_len = text.as_str().len();
        let room = text_len.saturating_sub((lc.col - 1) as usize);
        let caret_len = if span_len < 1 {
            1
        } else {
            span_len
        };
        let room1 = if room < 1 {
            1
        } else {
            room
        };
        let caret_len = if caret_len < room1 {
            caret_len
        } else {
            room1
        };
        let mut out = String::from_str(file);
        out.append(":");
        push_string(&mut out, &lc.to_string());
        out.append(": error: ");
        push_string(&mut out, &self.message);
        out.append("\n  ");
        push_string(&mut out, &text);
        out.append("\n  ");
        push_repeat(&mut out, ' ', (lc.col - 1) as usize);
        push_repeat(&mut out, '^', caret_len);
        out
    }
}

impl ParseError {
    /// `message at start..end`, as the error displays.
    pub fn to_string(&self) -> (s: String)
        ensures
            s@ == self.message@ + " at "@ + (decimal(self.span.start as nat) + seq!['.', '.']
                + decimal(self.span.end as nat)),
    {
        let mut s = self.message.clone();
        s.append(" at ");
        push_string(&mut s, &self.span.to_string());
        s
    }
}

/// Appends `n` copies of `c`.
fn push_repeat(s: &mut String, c: char, n: usize)
    ensures
        final(s)@ == old(s)@ + repeat(c, n as nat),
{
    let ghost start = s@;
    let mut k: usize = 0;
    while k < n
        invariant
            k <= n,
            s@ == start + repeat(c, k as nat),
        decreases n - k,
    {
        push_char(s, c);
        k = k + 1;
        assert(s@ =~= start + repeat(c, k as nat));
    }
}

/// The `n`-th line of `cs` (see [`nth_line_from`]).
fn nth_line(cs: &Vec<char>, n: usize) -> (r: Option<String>)
    ensures
        match r {
            Some(t) => nth_line_from(cs@, 0, n as nat) == Some(t@),
            None => nth_line_from(cs@, 0, n as nat) is None,
        },
{
    let mut p: usize = 0;
    let mut k: usize = n;
    while p < cs.len()
        invariant
            p <= cs@.len(),
            k <= n,
            nth_line_from(cs@, 0, n as nat) == nth_line_from(cs@, p as int, k as nat),
        decreases cs@.len() - p,
    {
        let mut e = p;
        proof {
            crate::lexer::lemma_line_end(cs@, p as int);
        }
        while e < cs.len() && cs[e] != '\n'
            invariant
                p <= e <= cs@.len(),
                line_end(cs@, e as int) == line_end(cs@, p as int),
            decreases cs@.len() - e,
        {
            e = e + 1;
        }
        if k == 0 {
            if e < cs.len() && e > p && cs[e - 1] == '\r' {
                return Some(string_from_chars(cs.as_slice(), p, e - 1));
            }
            return Some(string_from_chars(cs.as_slice(), p, e));
        }
        if e >= cs.len() {
            return None;
        }
        p = e + 1;
        k = k - 1;
    }
    None
}

pub type ParseResult<T> = Result<T, ParseError>;

} // verus!
