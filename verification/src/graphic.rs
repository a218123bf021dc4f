//! The framebuffer: an immutable grid of byte-valued pixels with a fixed
//! row length and a single-pass, cursor-based row iteration.

use vstd::arithmetic::div_mod::{
    lemma_fundamental_div_mod, lemma_fundamental_div_mod_converse,
};
use vstd::prelude::*;

verus! {

/// The dimensions a framebuffer must have: a positive row length that
/// evenly divides a content length of at least one full row.
pub open spec fn valid_dimensions(content: Seq<u8>, row_length: nat) -> bool {
    &&& row_length > 0
    &&& content.len() >= row_length
    &&& content.len() % row_length == 0
}

/// The mathematical value of a `Graphic`: its pixels in row-major order,
/// its fixed row length, and the cursor of the row iteration.
pub ghost struct GraphicView {
    pub content: Seq<u8>,
    pub row_length: nat,
    pub cursor: nat,
}

impl GraphicView {
    /// Structural invariant: valid dimensions, and a cursor that sits on a
    /// row boundary and never runs past the content end.
    pub open spec fn wf(self) -> bool {
        &&& valid_dimensions(self.content, self.row_length)
        &&& self.cursor <= self.content.len()
        &&& self.cursor % self.row_length == 0
    }

    /// How many rows the grid holds in all.
    pub open spec fn num_rows(self) -> nat {
        self.content.len() / self.row_length
    }

    /// The `i`-th row: `row_length` consecutive pixels, in content order.
    pub open spec fn row(self, i: int) -> Seq<u8> {
        self.content.subrange(i * self.row_length as int, (i + 1) * self.row_length as int)
    }

    /// How many rows the iteration has already yielded.
    pub open spec fn rows_yielded(self) -> nat {
        self.cursor / self.row_length
    }

    /// The iteration is exhausted once the cursor reaches the content end.
    pub open spec fn exhausted(self) -> bool {
        self.cursor >= self.content.len()
    }

    /// Where one call to `next_row` moves the cursor: one row forward, or
    /// nowhere once the iteration is exhausted.
    pub open spec fn step_cursor(self) -> GraphicView {
        if self.exhausted() {
            self
        } else {
            GraphicView { cursor: self.cursor + self.row_length, ..self }
        }
    }

    /// What one call to `next_row` yields: the row under the cursor, or
    /// nothing once the iteration is exhausted.
    pub open spec fn step_item(self) -> Option<Seq<u8>> {
        if self.exhausted() {
            None
        } else {
            Some(self.row(self.rows_yielded() as int))
        }
    }
}

/// Why a framebuffer could not be constructed.
#[derive(Clone, Copy, Debug, PartialEq, Eq, Structural)]
pub enum DimensionError {
    /// The row length was zero.
    ZeroRowLength,
    /// The content held fewer pixels than one full row.
    ContentTooShort,
    /// The content length was not a multiple of the row length.
    RaggedContent,
}

/// An immutable pixel grid (`0` = off, non-zero = on) with a fixed row
/// length, consumed row by row through `next_row`.
pub struct Graphic {
    content: Vec<u8>,
    row_length: usize,
    cursor: usize,
}

impl View for Graphic {
    type V = GraphicView;

    closed spec fn view(&self) -> GraphicView {
        GraphicView {
            content: self.content@,
            row_length: self.row_length as nat,
            cursor: self.cursor as nat,
        }
    }
}

impl Graphic {
    /// Builds a framebuffer over `content` split into rows of `row_length`
    /// pixels, with the cursor on the first row. The dimensions must be
    /// valid; `try_new` is the checked form.
    pub fn new(content: Vec<u8>, row_length: usize) -> (g: Graphic)
        requires
            valid_dimensions(content@, row_length as nat),
        ensures
            g@.content == content@,
            g@.row_length == row_length as nat,
            g@.cursor == 0,
            g@.wf(),
    {
        Graphic { content, row_length, cursor: 0 }
    }

    /// Checked construction: succeeds exactly on valid dimensions, and
    /// otherwise reports which of the three dimension rules was broken.
    pub fn try_new(content: Vec<u8>, row_length: usize) -> (r: Result<Graphic, DimensionError>)
        ensures
            r is Ok <==> valid_dimensions(content@, row_length as nat),
            r matches Ok(g) ==> {
                &&& g@.content == content@
                &&& g@.row_length == row_length as nat
                &&& g@.cursor == 0
                &&& g@.wf()
            },
            r == Err::<Graphic, DimensionError>(DimensionError::ZeroRowLength) <==> row_length == 0,
            r == Err::<Graphic, DimensionError>(DimensionError::ContentTooShort) <==> (
                row_length > 0 && content@.len() < row_length as nat
            ),
            r == Err::<Graphic, DimensionError>(DimensionError::RaggedContent) <==> (
                row_length > 0
                && content@.len() >= row_length as nat
                && content@.len() % (row_length as nat) != 0
            ),
    {
        if row_length == 0 {
            Err(DimensionError::ZeroRowLength)
        } else if content.len() < row_length {
            Err(DimensionError::ContentTooShort)
        } else if content.len() % row_length != 0 {
            Err(DimensionError::RaggedContent)
        } else {
            Ok(Graphic { content, row_length, cursor: 0 })
        }
    }

    /// Whether the grid and the cursor satisfy the structural invariant.
    /// Every constructed `Graphic` does; this is the runtime check for a
    /// caller that cannot carry the proof.
    pub fn is_well_formed(&self) -> (b: bool)
        ensures
            b == self@.wf(),
    {
        self.row_length > 0 && self.content.len() >= self.row_length && self.content.len()
            % self.row_length == 0 && self.cursor <= self.content.len() && self.cursor
            % self.row_length == 0
    }

    /// Whether the row iteration still stands on the first row.
    pub fn at_first_row(&self) -> (b: bool)
        ensures
            b == (self@.cursor == 0),
    {
        self.cursor == 0
    }

    /// Yields the row under the cursor and advances the cursor one row,
    /// or reports exhaustion (forever, and without moving the cursor)
    /// once every row has been yielded.
    pub fn next_row(&mut self) -> (r: Option<Vec<u8>>)
        requires
            old(self)@.wf(),
        ensures
            final(self)@ == old(self)@.step_cursor(),
            final(self)@.wf(),
            old(self)@.exhausted() ==> r is None,
            !old(self)@.exhausted() ==> (r matches Some(row)
                && row@ == old(self)@.row(old(self)@.rows_yielded() as int)
                && row@.len() == old(self)@.row_length),
    {
        if self.cursor >= self.content.len() {
            return None;
        }
        proof {
            lemma_next_row_bounds(self@);
        }
        let end = self.cursor + self.row_length;
        let mut row: Vec<u8> = Vec::new();
        let mut i: usize = self.cursor;
        while i < end
            invariant
                self@.cursor <= i <= end,
                end == self@.cursor + self@.row_length,
                end <= self@.content.len(),
                row@ == self@.content.subrange(self@.cursor as int, i as int),
            decreases end - i,
        {
            let pixel = self.content[i];
            row.push(pixel);
            i = i + 1;
            proof {
                assert(row@ =~= self@.content.subrange(self@.cursor as int, i as int));
            }
        }
        proof {
            lemma_next_row_bounds(self@);
        }
        self.cursor = end;
        Some(row)
    }
}

/// For a well-formed, unexhausted view: the cursor sits exactly
/// `rows_yielded` rows into the content, one more full row still fits
/// before the content end, and the advanced cursor again sits on a row
/// boundary.
proof fn lemma_next_row_bounds(v: GraphicView)
    requires
        v.wf(),
        !v.exhausted(),
    ensures
        v.rows_yielded() * v.row_length == v.cursor,
        v.cursor + v.row_length <= v.content.len(),
        (v.cursor + v.row_length) % v.row_length == 0,
        (v.cursor + v.row_length) / v.row_length == v.rows_yielded() + 1,
        (v.rows_yielded() + 1) * v.row_length == v.cursor + v.row_length,
{
    let rl = v.row_length as int;
    let c = v.cursor as int;
    let len = v.content.len() as int;
    let q = c / rl;
    let n = len / rl;
    lemma_fundamental_div_mod(c, rl);
    lemma_fundamental_div_mod(len, rl);
    assert(c == rl * q);
    assert(len == rl * n);
    assert(q * rl == c && c + rl <= len) by (nonlinear_arith)
        requires
            c == rl * q,
            len == rl * n,
            c < len,
            rl > 0,
    ;
    assert(c + rl == (q + 1) * rl + 0 && (q + 1) * rl == c + rl) by (nonlinear_arith)
        requires
            c == rl * q,
    ;
    lemma_fundamental_div_mod_converse(c + rl, rl, q + 1, 0);
}

/// Once the iteration is exhausted, it is exhausted for good: the cursor
/// no longer moves and every further step yields nothing.
pub proof fn lemma_exhausted_is_terminal(v: GraphicView)
    requires
        v.exhausted(),
    ensures
        v.step_cursor() == v,
        v.step_item() is None,
        v.step_cursor().exhausted(),
{
}

/// The first `n` rows, concatenated in order.
pub open spec fn concat_rows(v: GraphicView, n: int) -> Seq<u8>
    decreases n,
{
    if n <= 0 {
        Seq::<u8>::empty()
    } else {
        concat_rows(v, n - 1) + v.row(n - 1)
    }
}

/// The first `n` rows concatenate to the first `n * row_length` pixels.
proof fn lemma_concat_rows_prefix(v: GraphicView, n: int)
    requires
        valid_dimensions(v.content, v.row_length),
        0 <= n <= v.num_rows(),
    ensures
        n * v.row_length as int <= v.content.len(),
        concat_rows(v, n) == v.content.subrange(0, n * v.row_length as int),
    decreases n,
{
    let rl = v.row_length as int;
    let len = v.content.len() as int;
    let m = v.num_rows() as int;
    lemma_fundamental_div_mod(len, rl);
    assert(n * rl <= m * rl && m * rl == len) by (nonlinear_arith)
        requires
            n <= m,
            rl > 0,
            len == rl * m,
    ;
    if n > 0 {
        lemma_concat_rows_prefix(v, n - 1);
        assert((n - 1) * rl == n * rl - rl && 0 <= (n - 1) * rl && ((n - 1) + 1) * rl == n * rl)
            by (nonlinear_arith)
            requires
                n >= 1,
                rl > 0,
        ;
        assert(concat_rows(v, n) =~= v.content.subrange(0, n * rl));
    } else {
        assert(n == 0);
        assert(n * rl == 0) by (nonlinear_arith)
            requires
                n == 0,
        ;
        assert(concat_rows(v, 0) =~= v.content.subrange(0, 0));
    }
}

/// A well-dimensioned grid splits exactly into `num_rows` rows: each row
/// holds `row_length` pixels, and the rows, concatenated in content
/// order, reassemble the whole content.
pub proof fn lemma_rows_reassemble(v: GraphicView)
    requires
        valid_dimensions(v.content, v.row_length),
    ensures
        v.num_rows() >= 1,
        v.num_rows() * v.row_length == v.content.len(),
        forall|i: int| 0 <= i < v.num_rows() ==> (#[trigger] v.row(i)).len() == v.row_length,
        concat_rows(v, v.num_rows() as int) == v.content,
{
    let rl = v.row_length as int;
    let len = v.content.len() as int;
    let m = v.num_rows() as int;
    lemma_fundamental_div_mod(len, rl);
    assert(m * rl == len && m >= 1) by (nonlinear_arith)
        requires
            len == rl * m,
            rl > 0,
            len >= rl,
            len % rl == 0,
    ;
    assert forall|i: int| 0 <= i < m implies (#[trigger] v.row(i)).len() == v.row_length by {
        assert(0 <= i * rl && i * rl <= (i + 1) * rl && (i + 1) * rl <= m * rl
            && (i + 1) * rl - i * rl == rl) by (nonlinear_arith)
            requires
                0 <= i,
                i < m,
                rl > 0,
        ;
    }
    lemma_concat_rows_prefix(v, m);
    assert(v.content.subrange(0, m * rl) =~= v.content);
}

/// The iteration yields exactly `num_rows` rows: each unexhausted step
/// yields the row numbered `rows_yielded` and increments that count, and
/// the iteration is exhausted exactly when every row has been yielded.
pub proof fn lemma_iteration_counts(v: GraphicView)
    requires
        v.wf(),
    ensures
        v.exhausted() <==> v.rows_yielded() == v.num_rows(),
        !v.exhausted() ==> v.step_cursor().rows_yielded() == v.rows_yielded() + 1,
        !v.exhausted() ==> v.step_item() == Some(v.row(v.rows_yielded() as int)),
{
    let rl = v.row_length as int;
    let c = v.cursor as int;
    let len = v.content.len() as int;
    lemma_fundamental_div_mod(c, rl);
    lemma_fundamental_div_mod(len, rl);
    if v.exhausted() {
        assert(c == len);
    }
    if v.rows_yielded() == v.num_rows() {
        assert(c == rl * (c / rl) && len == rl * (len / rl));
        assert(c == len);
    }
    if !v.exhausted() {
        lemma_next_row_bounds(v);
    }
}

/// Stepping the cursor preserves well-formedness.
pub proof fn lemma_step_preserves_wf(v: GraphicView)
    requires
        v.wf(),
    ensures
        v.step_cursor().wf(),
{
    if !v.exhausted() {
        lemma_next_row_bounds(v);
    }
}

} // verus!
