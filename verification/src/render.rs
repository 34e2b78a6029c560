use vstd::prelude::*;

use crate::frame::Frame;

verus! {

/// One cell the output sink must be told about: put `glyph` at `(x, y)`.
#[derive(Clone, Copy, PartialEq, Eq, Structural, Debug)]
pub struct CellWrite {
    pub x: usize,
    pub y: usize,
    pub glyph: char,
}

impl Frame {
    /// Cell `(x, y)` must be written out: either the whole frame is forced,
    /// or the glyph differs from the previously shown one.
    pub open spec fn must_write(self, prev: Frame, force: bool, x: int, y: int) -> bool {
        force || self.cell(x, y) != prev.cell(x, y)
    }
}

/// The writes that bring a sink showing `prev` to show `curr`: exactly the
/// cells whose glyph differs (every cell when `force` is set), each with its
/// new glyph, each cell at most once.  Rendering an unchanged frame without
/// force yields no write at all.
pub fn diff(prev: &Frame, curr: &Frame, force: bool) -> (out: Vec<CellWrite>)
    requires
        prev.wf(),
        curr.wf(),
        prev.same_size(*curr),
    ensures
        forall|k: int|
            0 <= k < out@.len() ==> {
                let w = #[trigger] out@[k];
                &&& curr.in_bounds(w.x as int, w.y as int)
                &&& w.glyph == curr.cell(w.x as int, w.y as int)
                &&& curr.must_write(*prev, force, w.x as int, w.y as int)
            },
        forall|x: usize, y: usize|
            x < curr.width && y < curr.height && curr.must_write(*prev, force, x as int, y as int)
                ==> out@.contains(CellWrite { x, y, glyph: curr.cell(x as int, y as int) }),
        forall|k: int, l: int|
            0 <= k < l < out@.len() ==> !(out@[k].x == out@[l].x && out@[k].y == out@[l].y),
        !force && curr.same_cells(*prev) ==> out@.len() == 0,
{
    let mut out: Vec<CellWrite> = Vec::new();
    let mut x: usize = 0;
    while x < curr.width
        invariant
            prev.wf(),
            curr.wf(),
            prev.same_size(*curr),
            x <= curr.width,
            forall|k: int|
                0 <= k < out@.len() ==> {
                    let w = #[trigger] out@[k];
                    &&& curr.in_bounds(w.x as int, w.y as int)
                    &&& w.x < x
                    &&& w.glyph == curr.cell(w.x as int, w.y as int)
                    &&& curr.must_write(*prev, force, w.x as int, w.y as int)
                },
            forall|a: usize, b: usize|
                a < x && b < curr.height && curr.must_write(*prev, force, a as int, b as int)
                    ==> out@.contains(CellWrite { x: a, y: b, glyph: curr.cell(a as int, b as int) }),
            forall|k: int, l: int|
                0 <= k < l < out@.len() ==> !(out@[k].x == out@[l].x && out@[k].y == out@[l].y),
        decreases curr.width - x,
    {
        let mut y: usize = 0;
        while y < curr.height
            invariant
                prev.wf(),
                curr.wf(),
                prev.same_size(*curr),
                x < curr.width,
                y <= curr.height,
                forall|k: int|
                    0 <= k < out@.len() ==> {
                        let w = #[trigger] out@[k];
                        &&& curr.in_bounds(w.x as int, w.y as int)
                        &&& (w.x < x || (w.x == x && w.y < y))
                        &&& w.glyph == curr.cell(w.x as int, w.y as int)
                        &&& curr.must_write(*prev, force, w.x as int, w.y as int)
                    },
                forall|a: usize, b: usize|
                    (a < x || (a == x && b < y)) && a < curr.width && b < curr.height
                        && curr.must_write(*prev, force, a as int, b as int) ==> out@.contains(
                        CellWrite { x: a, y: b, glyph: curr.cell(a as int, b as int) },
                    ),
                forall|k: int, l: int|
                    0 <= k < l < out@.len() ==> !(out@[k].x == out@[l].x && out@[k].y == out@[l].y),
            decreases curr.height - y,
        {
            let c = curr.get(x, y);
            let p = prev.get(x, y);
            if force || c != p {
                let ghost before = out@;
                out.push(CellWrite { x, y, glyph: c });
                proof {
                    assert forall|a: usize, b: usize|
                        (a < x || (a == x && b < y + 1)) && a < curr.width && b < curr.height
                            && curr.must_write(*prev, force, a as int, b as int) implies out@
                        .contains(
                        CellWrite { x: a, y: b, glyph: curr.cell(a as int, b as int) },
                    ) by {
                        if a == x && b == y {
                            assert(out@[out@.len() - 1] == (CellWrite {
                                x: a,
                                y: b,
                                glyph: curr.cell(a as int, b as int),
                            }));
                        } else {
                            let w = CellWrite { x: a, y: b, glyph: curr.cell(a as int, b as int) };
                            assert(before.contains(w));
                            let k = choose|k: int| 0 <= k < before.len() && before[k] == w;
                            assert(out@[k] == w);
                        }
                    }
                }
            }
            y = y + 1;
        }
        x = x + 1;
    }
    proof {
        if !force && curr.same_cells(*prev) {
            if out@.len() > 0 {
                assert(curr.must_write(*prev, force, out@[0].x as int, out@[0].y as int));
            }
        }
    }
    out
}

} // verus!
