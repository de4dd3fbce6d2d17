//! The snake: an ordered body of cell indices, head first, and the direction
//! it currently moves in.

use vstd::prelude::*;
use crate::grid::Direction;
use crate::grid::neighbor;
use crate::grid::opposite;
use crate::grid::spec_neighbor;
use crate::grid::spec_opposite;

verus! {

/// A single body segment, holding the index of the cell it occupies.
#[derive(Clone, Copy, PartialEq, Eq, Structural, Debug)]
pub struct SnakeCell(pub usize);

/// The cell indices occupied by a body, in body order (head first).
pub open spec fn cell_indices(body: Seq<SnakeCell>) -> Seq<usize> {
    body.map_values(|c: SnakeCell| c.0)
}

/// The snake: its body as an ordered sequence of cells, head first and tail
/// last, and its current movement direction.
pub struct Snake {
    pub body: Vec<SnakeCell>,
    pub direction: Direction,
}

impl Snake {
    /// Builds a snake of `length` segments headed in `direction`: the head at
    /// `spawn_index`, and each further segment one backward step (one
    /// `neighbor` step in the opposite direction) behind the one before it.
    /// Deriving the body through `neighbor` keeps every segment on the grid
    /// and wrap-consistent wherever the snake spawns.
    pub fn from(spawn_index: usize, direction: Direction, length: usize, width: usize) -> (s: Snake)
        requires
            1 <= width,
            width * width <= usize::MAX,
            spawn_index < width * width,
            1 <= length,
        ensures
            s.direction == direction,
            s.body@.len() == length,
            s.body@[0].0 == spawn_index,
            forall|i: int| 0 <= i < length ==> s.body@[i].0 < width * width,
            forall|i: int| 1 <= i < length ==> #[trigger] s.body@[i].0 == spec_neighbor(
                s.body@[i - 1].0 as int,
                width as int,
                spec_opposite(direction),
            ),
    {
        let mut body: Vec<SnakeCell> = Vec::new();
        body.push(SnakeCell(spawn_index));
        let back = opposite(direction);
        let mut i: usize = 1;
        while i < length
            invariant
                1 <= width,
                width * width <= usize::MAX,
                1 <= i <= length,
                back == spec_opposite(direction),
                body@.len() == i,
                body@[0].0 == spawn_index,
                forall|j: int| 0 <= j < i ==> body@[j].0 < width * width,
                forall|j: int| 1 <= j < i ==> #[trigger] body@[j].0 == spec_neighbor(
                    body@[j - 1].0 as int,
                    width as int,
                    spec_opposite(direction),
                ),
            decreases length - i,
        {
            let last = body[i - 1].0;
            let next = neighbor(last, width, back);
            body.push(SnakeCell(next));
            i = i + 1;
        }
        Snake { body, direction }
    }
}

} // verus!
