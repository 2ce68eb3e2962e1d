//! Source locations: byte spans and line/column lookup.

use crate::text::{decimal, decimal_string, push_char, push_string};
use vstd::prelude::*;
use vstd::utf8::encode_utf8;

verus! {

/// A half-open byte range `start..end` into the source text.
#[derive(Clone, Copy, Debug, PartialEq, Eq, Hash, Structural)]
pub struct Span {
    pub start: u32,
    pub end: u32,
}

impl Span {
    pub fn new(start: u32, end: u32) -> (s: Span)
        ensures
            s == (Span { start, end }),
    {
        Span { start, end }
    }

    /// The smallest span covering both `self` and `other`.
    pub open spec fn spec_to(self, other: Span) -> Span {
        Span {
            start: if self.start <= other.start { self.start } else { other.start },
            end: if self.end >= other.end { self.end } else { other.end },
        }
    }

    /// The smallest span covering both `self` and `other`.
    pub fn to(self, other: Span) -> (s: Span)
        ensures
            s == self.spec_to(other),
    {
        Span {
            start: if self.start <= other.start { self.start } else { other.start },
            end: if self.end >= other.end { self.end } else { other.end },
        }
    }

    /// Length in bytes (zero for an inverted span).
    pub fn len(&self) -> (n: usize)
        ensures
            n == (if self.end >= self.start { (self.end - self.start) as usize } else { 0 }),
    {
        if self.end >= self.start {
            (self.end - self.start) as usize
        } else {
            0
        }
    }

    pub fn is_empty(&self) -> (b: bool)
        ensures
            b == (self.end <= self.start),
    {
        self.end <= self.start
    }

    /// `start..end`, as diagnostics print it.
    pub fn to_string(&self) -> (s: String)
        ensures
            s@ == decimal(self.start as nat) + seq!['.', '.'] + decimal(self.end as nat),
    {
        let mut s = decimal_string(self.start as u64);
        push_char(&mut s, '.');
        push_char(&mut s, '.');
        let e = decimal_string(self.end as u64);
        push_string(&mut s, &e);
        s
    }
}

/// A 1-based line and a 1-based byte column.
#[derive(Clone, Copy, Debug, PartialEq, Eq, Hash, Structural)]
pub struct LineCol {
    pub line: u32,
    pub col: u32,
}

impl LineCol {
    /// `line:col`, as diagnostics print it.
    pub fn to_string(&self) -> (s: String)
        ensures
            s@ == decimal(self.line as nat) + seq![':'] + decimal(self.col as nat),
    {
        let mut s = decimal_string(self.line as u64);
        push_char(&mut s, ':');
        let c = decimal_string(self.col as u64);
        push_string(&mut s, &c);
        s
    }
}

/// Byte offsets at which lines begin: 0, then one past every `\n`.
pub open spec fn line_starts(bytes: Seq<u8>) -> Seq<usize>
    decreases bytes.len(),
{
    if bytes.len() == 0 {
        seq![0usize]
    } else {
        let before = line_starts(bytes.drop_last());
        if bytes.last() == 10u8 {
            before.push(bytes.len() as usize)
        } else {
            before
        }
    }
}

/// Line starts are strictly increasing, start at 0 and never pass the end.
pub proof fn lemma_line_starts_sorted(bytes: Seq<u8>)
    requires
        bytes.len() <= usize::MAX,
    ensures
        line_starts(bytes).len() >= 1,
        line_starts(bytes)[0] == 0,
        forall|i: int, j: int|
            0 <= i < j < line_starts(bytes).len() ==> line_starts(bytes)[i] < line_starts(bytes)[j],
        forall|i: int|
            0 <= i < line_starts(bytes).len() ==> line_starts(bytes)[i] <= bytes.len(),
    decreases bytes.len(),
{
    if bytes.len() > 0 {
        lemma_line_starts_sorted(bytes.drop_last());
    }
}

/// The line starts up to and including index `k - 1` are at or before
/// `off`, the rest after it: `off` lies on line `k` (1-based).
pub open spec fn line_split(starts: Seq<usize>, off: int, k: int) -> bool {
    &&& 1 <= k <= starts.len()
    &&& forall|i: int| 0 <= i < k ==> starts[i] <= off
    &&& forall|i: int| k <= i < starts.len() ==> starts[i] > off
}

/// The 1-based line of byte `off`, given the line starts.
pub open spec fn line_of(starts: Seq<usize>, off: int) -> int {
    choose|k: int| line_split(starts, off, k)
}

/// There is one line start per `\n`, plus the first.
pub proof fn lemma_line_starts_len(bytes: Seq<u8>)
    ensures
        line_starts(bytes).len() <= bytes.len() + 1,
    decreases bytes.len(),
{
    if bytes.len() > 0 {
        lemma_line_starts_len(bytes.drop_last());
    }
}

/// The number of line feeds among `bytes`.
pub open spec fn newline_count(bytes: Seq<u8>) -> nat
    decreases bytes.len(),
{
    if bytes.len() == 0 {
        0
    } else {
        newline_count(bytes.drop_last()) + if bytes.last() == 10u8 {
            1nat
        } else {
            0nat
        }
    }
}

proof fn lemma_line_starts_count(bytes: Seq<u8>)
    ensures
        line_starts(bytes).len() == newline_count(bytes) + 1,
    decreases bytes.len(),
{
    if bytes.len() > 0 {
        lemma_line_starts_count(bytes.drop_last());
    }
}

/// Byte `off` lies on line 1 plus the number of line feeds before it.
pub proof fn lemma_line_of_counts_newlines(bytes: Seq<u8>, off: int)
    requires
        bytes.len() <= usize::MAX,
        0 <= off <= bytes.len(),
    ensures
        line_split(line_starts(bytes), off, newline_count(bytes.take(off)) as int + 1),
        line_of(line_starts(bytes), off) == newline_count(bytes.take(off)) + 1,
    decreases bytes.len(),
{
    let st = line_starts(bytes);
    let k: int = newline_count(bytes.take(off)) as int + 1;
    lemma_line_starts_sorted(bytes);
    lemma_line_starts_count(bytes);
    if bytes.len() == 0 {
        assert(bytes.take(off) =~= Seq::<u8>::empty());
    } else if off == bytes.len() {
        assert(bytes.take(off) =~= bytes);
    } else {
        let b = bytes.drop_last();
        lemma_line_of_counts_newlines(b, off);
        assert(b.take(off) =~= bytes.take(off));
        lemma_line_starts_sorted(b);
        lemma_line_starts_count(b);
    }
    assert(line_split(st, off, k));
    let c = line_of(st, off);
    assert(line_split(st, off, c));
    if c < k {
        assert(st[c] <= off);
        assert(st[c] > off);
    }
    if k < c {
        assert(st[k] <= off);
        assert(st[k] > off);
    }
}

/// The start of the line holding byte `off`: one past the last line feed
/// before `off`, or 0 if there is none.
pub open spec fn line_start_before(bytes: Seq<u8>, off: int) -> int
    decreases off,
{
    if off <= 0 {
        0
    } else if bytes[off - 1] == 10u8 {
        off
    } else {
        line_start_before(bytes, off - 1)
    }
}

/// The line start that line/column lookup measures the column of byte `off`
/// from is one past the last line feed before `off` (or 0): columns count
/// the bytes since the last line feed, from 1.
pub proof fn lemma_line_start_is_after_last_newline(bytes: Seq<u8>, off: int)
    requires
        bytes.len() <= usize::MAX,
        0 <= off <= bytes.len(),
    ensures
        line_starts(bytes)[line_of(line_starts(bytes), off) - 1] == line_start_before(bytes, off),
    decreases off,
{
    lemma_line_of_counts_newlines(bytes, off);
    let st = line_starts(bytes);
    if off == 0 {
        assert(bytes.take(0) =~= Seq::<u8>::empty());
        lemma_line_starts_sorted(bytes);
    } else {
        lemma_line_start_is_after_last_newline(bytes, off - 1);
        lemma_line_of_counts_newlines(bytes, off - 1);
        assert(bytes.take(off).drop_last() =~= bytes.take(off - 1));
        let m: int = newline_count(bytes.take(off - 1)) as int;
        if bytes[off - 1] == 10u8 {
            assert(st[m + 1] <= off);
            assert(st[m + 1] > off - 1);
        }
    }
}

/// Maps byte offsets to line/column positions.
pub struct LineIndex {
    starts: Vec<usize>,
}

impl LineIndex {
    /// The line starts this index holds.
    pub closed spec fn starts(&self) -> Seq<usize> {
        self.starts@
    }

    pub closed spec fn wf(&self) -> bool {
        &&& self.starts@.len() >= 1
        &&& self.starts@[0] == 0
        &&& forall|i: int, j: int|
            0 <= i < j < self.starts@.len() ==> self.starts@[i] < self.starts@[j]
    }

    pub fn new(src: &str) -> (idx: LineIndex)
        ensures
            idx.wf(),
            idx.starts() == line_starts(encode_utf8(src@)),
    {
        let bytes = src.as_bytes();
        let mut starts: Vec<usize> = Vec::new();
        starts.push(0);
        let mut i: usize = 0;
        proof {
            assert(bytes@.take(0) =~= Seq::<u8>::empty());
        }
        while i < bytes.len()
            invariant
                0 <= i <= bytes@.len(),
                starts@ == line_starts(bytes@.take(i as int)),
            decreases bytes@.len() - i,
        {
            let ghost prev = bytes@.take(i as int);
            if bytes[i] == 10u8 {
                starts.push(i + 1);
            }
            i = i + 1;
            proof {
                assert(bytes@.take(i as int).drop_last() =~= prev);
            }
        }
        proof {
            assert(bytes@.take(bytes@.len() as int) =~= bytes@);
            lemma_line_starts_sorted(bytes@);
        }
        LineIndex { starts }
    }

    /// The line holding byte `offset` (the last line start not after it)
    /// and the column of `offset` within that line.
    pub fn line_col(&self, offset: u32) -> (lc: LineCol)
        requires
            self.wf(),
        ensures
            line_split(self.starts(), offset as int, line_of(self.starts(), offset as int)),
            lc.line == line_of(self.starts(), offset as int) as u32,
            lc.col == (offset - self.starts()[line_of(self.starts(), offset as int) - 1] + 1) as u32,
    {
        let off = offset as usize;
        let mut lo: usize = 1;
        let mut hi: usize = self.starts.len();
        while lo < hi
            invariant
                self.wf(),
                1 <= lo <= hi <= self.starts@.len(),
                forall|i: int| 0 <= i < lo ==> self.starts@[i] <= off,
                forall|i: int| hi <= i < self.starts@.len() ==> self.starts@[i] > off,
            decreases hi - lo,
        {
            let mid = lo + (hi - lo) / 2;
            if self.starts[mid] <= off {
                lo = mid + 1;
            } else {
                hi = mid;
            }
        }
        let start = self.starts[lo - 1];
        let col = ((off - start) as u64 + 1) as u32;
        let lc = LineCol { line: lo as u32, col };
        proof {
            let k = lo as int;
            assert(line_split(self.starts(), offset as int, k));
            let c = line_of(self.starts(), offset as int);
            assert(line_split(self.starts(), offset as int, c));
            if c < k {
                assert(self.starts()[c] > offset);
                assert(self.starts()[c] <= offset);
            }
            if k < c {
                assert(self.starts()[k] > offset);
                assert(self.starts()[k] <= offset);
            }
            assert(c == k);
        }
        lc
    }
}

} // verus!
