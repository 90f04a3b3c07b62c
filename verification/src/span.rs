use vstd::prelude::*;

verus! {

/// A half-open byte range `[begin, end)` into some file's source bytes.
/// Resolving a span needs both the span and the owning file's byte slice;
/// spans are plain values and never outlive the buffers they index.
#[derive(Debug, Clone, Copy, PartialEq, Eq, Structural, Default)]
pub struct Span {
    pub begin: usize,
    pub end: usize,
}

impl Span {
    /// True when the span is a well-formed range inside a buffer of length `len`.
    pub open spec fn wf(self, len: nat) -> bool {
        self.begin <= self.end <= len
    }

    /// The bytes a span denotes inside `src`.
    pub open spec fn content(self, src: Seq<u8>) -> Seq<u8> {
        src.subrange(self.begin as int, self.end as int)
    }

    pub fn new(begin: usize, end: usize) -> (r: Span)
        ensures
            r.begin == begin,
            r.end == end,
    {
        Span { begin, end }
    }

    /// Reads the span back out of the source it was issued for.
    pub fn parse<'b>(&self, input: &'b [u8]) -> (r: &'b [u8])
        requires
            self.wf(input@.len()),
        ensures
            r@ == self.content(input@),
    {
        vstd::slice::slice_subrange(input, self.begin, self.end)
    }

    pub fn len(&self) -> (r: usize)
        requires
            self.begin <= self.end,
        ensures
            r == self.end - self.begin,
    {
        self.end - self.begin
    }
}

/// Number of line feeds among the first `i` bytes of `s`.
pub open spec fn newlines_before(s: Seq<u8>, i: int) -> int
    decreases i,
{
    if i <= 0 {
        0
    } else {
        newlines_before(s, i - 1) + if s[i - 1] == 10u8 {
            1int
        } else {
            0int
        }
    }
}

/// Index of the first byte of the line that the offset `i` lies on.
pub open spec fn line_start_before(s: Seq<u8>, i: int) -> int
    decreases i,
{
    if i <= 0 {
        0
    } else if s[i - 1] == 10u8 {
        i
    } else {
        line_start_before(s, i - 1)
    }
}

proof fn lemma_line_start_bounds(s: Seq<u8>, i: int)
    requires
        0 <= i,
    ensures
        0 <= line_start_before(s, i) <= i,
    decreases i,
{
    if i > 0 && s[i - 1] != 10u8 {
        lemma_line_start_bounds(s, i - 1);
    }
}

proof fn lemma_newlines_bounds(s: Seq<u8>, i: int)
    requires
        0 <= i,
    ensures
        0 <= newlines_before(s, i) <= i,
    decreases i,
{
    if i > 0 {
        lemma_newlines_bounds(s, i - 1);
    }
}

/// 1-indexed line and column of the byte at `offset`, as a diagnostic reports
/// them: the line number counts line feeds before the offset, the column
/// counts bytes since the start of that line.
pub fn line_col(src: &Vec<u8>, offset: usize) -> (r: (usize, usize))
    requires
        offset <= src@.len(),
        src@.len() < usize::MAX,
    ensures
        r.0 == 1 + newlines_before(src@, offset as int),
        r.1 == offset - line_start_before(src@, offset as int) + 1,
{
    let mut i: usize = 0;
    let mut line: usize = 1;
    let mut start: usize = 0;
    proof {
        lemma_newlines_bounds(src@, offset as int);
        lemma_line_start_bounds(src@, offset as int);
    }
    while i < offset
        invariant
            0 <= i <= offset <= src@.len(),
            src@.len() < usize::MAX,
            line == 1 + newlines_before(src@, i as int),
            start == line_start_before(src@, i as int),
            start <= i,
        decreases offset - i,
    {
        proof {
            lemma_newlines_bounds(src@, i as int);
        }
        if src[i] == 10u8 {
            line = line + 1;
            start = i + 1;
        }
        i = i + 1;
    }
    (line, offset - start + 1)
}

/// Byte-for-byte equality of two byte vectors.
pub fn bytes_eq(a: &Vec<u8>, b: &Vec<u8>) -> (r: bool)
    ensures
        r == (a@ == b@),
{
    if a.len() != b.len() {
        proof {
            assert(a@.len() != b@.len());
        }
        return false;
    }
    let mut i: usize = 0;
    while i < a.len()
        invariant
            0 <= i <= a@.len(),
            a@.len() == b@.len(),
            forall|j: int| 0 <= j < i ==> a@[j] == b@[j],
        decreases a@.len() - i,
    {
        if a[i] != b[i] {
            return false;
        }
        i = i + 1;
    }
    proof {
        assert(a@ =~= b@);
    }
    true
}

/// A copy of a byte vector, pinned to the same contents.
pub fn clone_bytes(v: &Vec<u8>) -> (r: Vec<u8>)
    ensures
        r@ == v@,
{
    let r = v.clone();
    proof {
        assert(r@ =~= v@);
    }
    r
}

/// `a` with the bytes of `b` appended.
pub fn concat_bytes(a: &Vec<u8>, b: &Vec<u8>) -> (r: Vec<u8>)
    ensures
        r@ == a@ + b@,
{
    let mut r = clone_bytes(a);
    let mut i: usize = 0;
    while i < b.len()
        invariant
            0 <= i <= b@.len(),
            r@ == a@ + b@.subrange(0, i as int),
        decreases b@.len() - i,
    {
        r.push(b[i]);
        proof {
            assert(r@ =~= a@ + b@.subrange(0, i + 1 as int));
        }
        i = i + 1;
    }
    proof {
        assert(b@.subrange(0, b@.len() as int) =~= b@);
    }
    r
}

} // verus!
