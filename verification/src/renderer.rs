//! The renderer's logic: turning one framebuffer into the full repaint of
//! the terminal, one cell per pixel in content order, and draining a
//! queue of pending framebuffers in arrival order. The terminal calls
//! that paint and present the cells are I/O and run outside the library.

use crate::graphic::{Graphic, GraphicView};
use vstd::arithmetic::div_mod::lemma_fundamental_div_mod_converse;
use vstd::prelude::*;

verus! {

/// One terminal cell of a repaint: its column, its row, and whether the
/// pixel behind it is lit (non-zero).
#[derive(Clone, Copy, Debug, PartialEq, Eq, Structural)]
pub struct Cell {
    pub column: usize,
    pub row: usize,
    pub lit: bool,
}

/// The cell that pixel `i` of a framebuffer paints: its row-major
/// position, lit exactly when the pixel is non-zero.
pub open spec fn cell_of(v: GraphicView, i: int) -> Cell {
    Cell {
        column: (i % v.row_length as int) as usize,
        row: (i / v.row_length as int) as usize,
        lit: v.content[i] != 0,
    }
}

/// The full repaint of a framebuffer: one cell per pixel, in content order.
pub open spec fn repaint_of(v: GraphicView) -> Seq<Cell> {
    Seq::new(v.content.len(), |i: int| cell_of(v, i))
}

/// Consumes a fresh framebuffer row by row and returns its full repaint.
pub fn render_cells(graphic: Graphic) -> (cells: Vec<Cell>)
    requires
        graphic@.wf(),
        graphic@.cursor == 0,
    ensures
        cells@ == repaint_of(graphic@),
{
    let ghost v = graphic@;
    let mut g = graphic;
    let mut cells: Vec<Cell> = Vec::new();
    let mut ridx: usize = 0;
    loop
        invariant
            v.wf(),
            g@.wf(),
            g@.content == v.content,
            g@.row_length == v.row_length,
            g@.cursor == ridx * v.row_length,
            cells@.len() == g@.cursor,
            forall|i: int| 0 <= i < cells@.len() ==> cells@[i] == cell_of(v, i),
        ensures
            cells@.len() == v.content.len(),
            forall|i: int| 0 <= i < cells@.len() ==> cells@[i] == cell_of(v, i),
        decreases v.content.len() - g@.cursor,
    {
        let ghost pre = g@;
        let row = match g.next_row() {
            None => {
                break;
            },
            Some(row) => row,
        };
        proof {
            lemma_fundamental_div_mod_converse(
                pre.cursor as int,
                pre.row_length as int,
                ridx as int,
                0,
            );
            assert(pre.rows_yielded() == ridx);
            assert((ridx as int + 1) * (v.row_length as int)
                == ridx as int * (v.row_length as int) + (v.row_length as int))
                by (nonlinear_arith);
        }
        let mut cidx: usize = 0;
        while cidx < row.len()
            invariant
                v.wf(),
                row@ == v.row(ridx as int),
                row@.len() == v.row_length,
                cidx <= row@.len(),
                ridx * v.row_length + v.row_length <= v.content.len(),
                (ridx as int + 1) * (v.row_length as int)
                    == ridx * v.row_length + v.row_length,
                cells@.len() == ridx * v.row_length + cidx,
                forall|i: int| 0 <= i < cells@.len() ==> cells@[i] == cell_of(v, i),
            decreases row@.len() - cidx,
        {
            let pixel = row[cidx];
            let cell = Cell { column: cidx, row: ridx, lit: pixel != 0 };
            proof {
                let rl = v.row_length as int;
                let i = ridx as int * rl + cidx as int;
                lemma_fundamental_div_mod_converse(i, rl, ridx as int, cidx as int);
                assert(row@[cidx as int] == v.content[i]);
                assert(cell == cell_of(v, i));
            }
            cells.push(cell);
            cidx = cidx + 1;
        }
        let total = cells.len();
        proof {
            let rl = v.row_length as int;
            assert(ridx as int <= ridx as int * rl) by (nonlinear_arith)
                requires
                    rl >= 1,
                    ridx as int >= 0,
            ;
            assert(ridx < total);
            assert((ridx as int + 1) * rl == ridx as int * rl + rl) by (nonlinear_arith);
        }
        ridx = ridx + 1;
    }
    proof {
        assert(cells@ =~= repaint_of(v));
    }
    cells
}

/// What one renderer tick does with the outcome of the non-blocking
/// receive from the render channel.
pub enum RenderStep {
    /// A frame was pending: paint these cells, then present once.
    Paint(Vec<Cell>),
    /// No frame was pending: nothing to do this tick.
    Idle,
}

/// Decides one renderer tick: repaint from the pending frame if the
/// receive yielded one, else idle.
pub fn renderer_step(frame: Option<Graphic>) -> (step: RenderStep)
    requires
        frame matches Some(g) ==> g@.wf() && g@.cursor == 0,
    ensures
        frame is None <==> step is Idle,
        frame matches Some(g) ==> (step matches RenderStep::Paint(cells) && cells@ == repaint_of(
            g@,
        )),
{
    match frame {
        None => RenderStep::Idle,
        Some(g) => RenderStep::Paint(render_cells(g)),
    }
}

/// Drains a queue of pending framebuffers in arrival order: exactly one
/// repaint per frame, each matching its frame's pixels, none skipped,
/// none reordered.
pub fn drain_all(frames: Vec<Graphic>) -> (paints: Vec<Vec<Cell>>)
    requires
        forall|i: int| 0 <= i < frames@.len() ==> (#[trigger] frames@[i])@.wf()
            && frames@[i]@.cursor == 0,
    ensures
        paints@.len() == frames@.len(),
        forall|i: int| 0 <= i < paints@.len() ==> (#[trigger] paints@[i])@ == repaint_of(
            frames@[i]@,
        ),
{
    let ghost orig = frames@;
    let mut queue = frames;
    let mut paints: Vec<Vec<Cell>> = Vec::new();
    while queue.len() > 0
        invariant
            paints@.len() + queue@.len() == orig.len(),
            queue@ == orig.subrange(paints@.len() as int, orig.len() as int),
            forall|i: int| 0 <= i < orig.len() ==> (#[trigger] orig[i])@.wf()
                && orig[i]@.cursor == 0,
            forall|i: int| 0 <= i < paints@.len() ==> (#[trigger] paints@[i])@ == repaint_of(
                orig[i]@,
            ),
        decreases queue@.len(),
    {
        let g = queue.remove(0);
        proof {
            assert(g == orig[paints@.len() as int]);
        }
        let cells = render_cells(g);
        paints.push(cells);
        proof {
            assert(queue@ =~= orig.subrange(paints@.len() as int, orig.len() as int));
        }
    }
    paints
}

} // verus!
