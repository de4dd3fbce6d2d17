//! The world: the snake, its pending direction change, and the reward cell,
//! advanced one tick at a time on a square toroidal grid.

use vstd::prelude::*;
use crate::grid::Direction;
use crate::grid::neighbor;
use crate::grid::spec_neighbor;
use crate::grid::spec_opposite;
use crate::grid::lemma_neighbor_round_trip;
use crate::snake::Snake;
use crate::snake::SnakeCell;
use crate::snake::cell_indices;

verus! {

/// Number of segments a snake starts with.
pub const INITIAL_SNAKE_LENGTH: usize = 3;

/// A source of randomness supplied by the embedding environment, consulted
/// when a reward cell is placed. The core assumes nothing of a draw beyond
/// its bound, so it is verified for every sequence of draws; a deterministic
/// implementation such as [`ScriptedRandom`] makes tests reproducible.
pub trait RandomSource {
    /// Draws an integer in `[0, bound)`.
    fn draw(&mut self, bound: usize) -> (r: usize)
        requires
            1 <= bound,
        ensures
            r < bound,
    ;
}

/// A deterministic [`RandomSource`] that replays a scripted sequence of
/// draws: each draw takes the next scripted value, reduced modulo the bound;
/// once the script is exhausted every draw returns 0.
pub struct ScriptedRandom {
    pub script: Vec<usize>,
    pub pos: usize,
}

impl ScriptedRandom {
    /// A source that replays `script` from its first entry.
    pub fn new(script: Vec<usize>) -> (r: ScriptedRandom)
        ensures
            r.script == script,
            r.pos == 0,
    {
        ScriptedRandom { script, pos: 0 }
    }
}

impl RandomSource for ScriptedRandom {
    fn draw(&mut self, bound: usize) -> (r: usize)
        ensures
            final(self).script == old(self).script,
            old(self).pos < old(self).script@.len() ==> final(self).pos == old(self).pos + 1 && r
                == old(self).script@[old(self).pos as int] as int % bound as int,
            old(self).pos >= old(self).script@.len() ==> final(self).pos == old(self).pos && r
                == 0,
    {
        let v: usize = if self.pos < self.script.len() {
            let v = self.script[self.pos];
            self.pos = self.pos + 1;
            v
        } else {
            0
        };
        if v < bound {
            proof {
                assert(v as int % bound as int == v as int) by (nonlinear_arith)
                    requires
                        0 <= v < bound,
                ;
            }
            v
        } else {
            v % bound
        }
    }
}

/// Returns whether some segment of `body` occupies the cell `cell`.
fn body_contains(body: &Vec<SnakeCell>, cell: usize) -> (r: bool)
    ensures
        r == cell_indices(body@).contains(cell),
{
    let n = body.len();
    let mut i: usize = 0;
    while i < n
        invariant
            i <= n,
            n == body@.len(),
            forall|j: int| 0 <= j < i ==> body@[j].0 != cell,
        decreases n - i,
    {
        if body[i].0 == cell {
            proof {
                assert(cell_indices(body@)[i as int] == cell);
            }
            return true;
        }
        i = i + 1;
    }
    proof {
        assert forall|j: int| 0 <= j < cell_indices(body@).len() implies cell_indices(
            body@,
        )[j] != cell by {
            assert(cell_indices(body@)[j] == body@[j].0);
        }
    }
    false
}

/// Pigeonhole: a body with fewer segments than the board has cells leaves
/// at least one cell in `[0, size)` unoccupied.
proof fn lemma_free_cell_exists(cells: Seq<usize>, size: int)
    requires
        0 <= size <= usize::MAX,
        cells.len() < size,
    ensures
        exists|c: usize| c < size && !cells.contains(c),
{
    broadcast use vstd::seq_lib::seq_to_set_is_finite;

    if forall|c: usize| c < size ==> cells.contains(c) {
        let ints = cells.map_values(|c: usize| c as int);
        assert forall|x: int| vstd::set_lib::set_int_range(0, size).contains(x) implies ints.to_set().contains(x) by {
            let u = x as usize;
            assert(cells.contains(u));
            let i = choose|i: int| 0 <= i < cells.len() && cells[i] == u;
            assert(ints[i] == x);
            assert(ints.contains(x));
        }
        vstd::set_lib::lemma_int_range(0, size);
        ints.lemma_cardinality_of_set();
        vstd::set_lib::lemma_len_subset(vstd::set_lib::set_int_range(0, size), ints.to_set());
        assert(false);
    }
}

/// Draws candidate cells from `rng` until one falls outside the snake body,
/// and returns it. The caller must leave the snake shorter than the board
/// (the growth guard), so a free cell always exists. The draw is retried at
/// most `size` times; should the source miss a free cell that often, the
/// first free cell in index order is taken, so placement always terminates.
fn generate_reward_cell<R: RandomSource>(rng: &mut R, size: usize, body: &Vec<SnakeCell>) -> (r:
    usize)
    requires
        1 <= size,
        body@.len() < size,
    ensures
        r < size,
        !cell_indices(body@).contains(r),
{
    let mut tries: usize = 0;
    while tries < size
        invariant
            1 <= size,
        decreases size - tries,
    {
        let candidate = rng.draw(size);
        if !body_contains(body, candidate) {
            return candidate;
        }
        tries = tries + 1;
    }
    let mut c: usize = 0;
    while c < size
        invariant
            c <= size,
            body@.len() < size,
            forall|j: usize| j < c ==> cell_indices(body@).contains(j),
        decreases size - c,
    {
        if !body_contains(body, c) {
            return c;
        }
        c = c + 1;
    }
    proof {
        lemma_free_cell_exists(cell_indices(body@), size as int);
        let w = choose|w: usize| w < size && !cell_indices(body@).contains(w);
        assert(false);
    }
    0
}

/// The world: grid dimensions, the snake, a buffered next-head cell from a
/// pending direction change, and the reward cell. The reward field holds a
/// valid cell index, or `size` as the sentinel for "no reward placeable"
/// once the snake fills the board (the terminal win state).
pub struct World {
    pub width: usize,
    pub size: usize,
    pub snake: Snake,
    pub next_cell: Option<SnakeCell>,
    pub reward_cell: usize,
}

impl World {
    /// The occupied cell indices in body order, head first.
    pub open spec fn cells(&self) -> Seq<usize> {
        cell_indices(self.snake.body@)
    }

    /// The cell index of the snake's head.
    pub open spec fn head(&self) -> usize {
        self.snake.body@[0].0
    }

    /// Well-formedness, established by `from` and preserved by every
    /// mutator: the grid is non-degenerate and `size` is derived from
    /// `width`; the body has at least a head and a neck and at most `size`
    /// segments, each on the grid; the reward is a valid cell the snake does
    /// not occupy, or the sentinel `size`, and is the sentinel exactly when
    /// the snake fills the board; and a buffered next-head cell is exactly
    /// one step from the head in the current direction.
    pub open spec fn wf(&self) -> bool {
        &&& 1 <= self.width
        &&& self.size == self.width * self.width
        &&& 2 <= self.cells().len() <= self.size
        &&& (forall|i: int|
            0 <= i < self.snake.body@.len() ==> self.snake.body@[i].0 < self.size)
        &&& self.reward_cell <= self.size
        &&& (self.reward_cell < self.size ==> !self.cells().contains(self.reward_cell))
        &&& (self.cells().len() == self.size ==> self.reward_cell == self.size)
        &&& (self.reward_cell == self.size ==> self.cells().len() == self.size)
        &&& (match self.next_cell {
            Some(c) => c.0 == spec_neighbor(
                self.head() as int,
                self.width as int,
                self.snake.direction,
            ),
            None => true,
        })
    }

    /// Creates a world of the given width. The snake starts with three
    /// segments: the head at `spawn_index`, moving left, and the rest of the
    /// body laid out by backward `neighbor` steps, so every segment is a
    /// valid cell wherever the snake spawns. The initial reward cell is
    /// drawn from `rng` and avoids the snake.
    pub fn from<R: RandomSource>(width: usize, spawn_index: usize, rng: &mut R) -> (w: World)
        requires
            2 <= width,
            width * width <= usize::MAX,
            spawn_index < width * width,
        ensures
            w.wf(),
            w.width == width,
            w.size == width * width,
            w.snake.direction == Direction::Left,
            w.cells().len() == INITIAL_SNAKE_LENGTH,
            w.head() == spawn_index,
            forall|i: int| 1 <= i < INITIAL_SNAKE_LENGTH ==> #[trigger] w.cells()[i] == spec_neighbor(
                w.cells()[i - 1] as int,
                width as int,
                Direction::Right,
            ),
            w.next_cell is None,
            w.reward_cell < w.size,
            !w.cells().contains(w.reward_cell),
    {
        proof {
            assert(INITIAL_SNAKE_LENGTH < width * width) by (nonlinear_arith)
                requires
                    2 <= width,
            ;
        }
        let snake = Snake::from(spawn_index, Direction::Left, INITIAL_SNAKE_LENGTH, width);
        let size = width * width;
        let reward_cell = generate_reward_cell(rng, size, &snake.body);
        World { width, size, snake, next_cell: None, reward_cell }
    }

    /// Returns the grid width.
    pub fn width(&self) -> (r: usize)
        ensures
            r == self.width,
    {
        self.width
    }

    /// Returns the cell index of the snake's head.
    pub fn snake_head_idx(&self) -> (r: usize)
        requires
            self.wf(),
        ensures
            r == self.head(),
    {
        self.snake.body[0].0
    }

    /// Returns the snake's occupied cell indices in body order, head first:
    /// a read-only copy of the body.
    pub fn snake_cells(&self) -> (r: Vec<usize>)
        ensures
            r@ == self.cells(),
    {
        let n = self.snake.body.len();
        let mut out: Vec<usize> = Vec::new();
        let mut i: usize = 0;
        while i < n
            invariant
                i <= n,
                n == self.snake.body@.len(),
                out@.len() == i,
                forall|j: int| 0 <= j < i ==> out@[j] == self.cells()[j],
            decreases n - i,
        {
            out.push(self.snake.body[i].0);
            i = i + 1;
        }
        proof {
            assert(out@ =~= self.cells());
        }
        out
    }

    /// Returns the number of body segments.
    pub fn snake_length(&self) -> (r: usize)
        ensures
            r == self.cells().len(),
    {
        self.snake.body.len()
    }

    /// Requests a direction change. The cell one step from the head in the
    /// requested direction is computed; if it is the snake's neck (the
    /// segment right behind the head), the request is a 180-degree reversal
    /// into the body and is silently ignored. Otherwise the requested
    /// direction is adopted and the computed cell is buffered, so the next
    /// `step` reuses it instead of recomputing.
    pub fn change_snake_dir(&mut self, direction: Direction)
        requires
            old(self).wf(),
        ensures
            final(self).wf(),
            ({
                let next = spec_neighbor(
                    old(self).head() as int,
                    old(self).width as int,
                    direction,
                );
                if next == old(self).cells()[1] {
                    *final(self) == *old(self)
                } else {
                    final(self).snake.direction == direction
                        && final(self).next_cell == (Some(SnakeCell(next as usize)))
                        && final(self).snake.body == old(self).snake.body
                        && final(self).reward_cell == old(self).reward_cell
                        && final(self).width == old(self).width
                        && final(self).size == old(self).size
                }
            }),
    {
        proof {
            assert(self.cells()[0] == self.snake.body@[0].0);
            assert(self.cells()[1] == self.snake.body@[1].0);
        }
        let head = self.snake.body[0].0;
        let next = neighbor(head, self.width, direction);
        if self.snake.body[1].0 == next {
            return;
        }
        self.next_cell = Some(SnakeCell(next));
        self.snake.direction = direction;
    }

    /// Advances the world one tick.
    ///
    /// The head moves to the buffered cell if a direction change is pending
    /// (consuming the buffer), else one step in the current direction; every
    /// trailing segment takes the previous position of the segment ahead of
    /// it, so the body moves as a rigid chain. If the head lands on the
    /// reward cell, the body grows by one segment duplicating the old second
    /// segment's position, and the reward is re-placed on a cell the snake
    /// does not occupy — or set to the sentinel `size` when the snake now fills
    /// the board, the terminal win state, in which further ticks keep the
    /// snake moving without growing.
    pub fn step<R: RandomSource>(&mut self, rng: &mut R)
        requires
            old(self).wf(),
        ensures
            final(self).wf(),
            final(self).width == old(self).width,
            final(self).size == old(self).size,
            final(self).snake.direction == old(self).snake.direction,
            final(self).next_cell is None,
            final(self).head() == spec_neighbor(
                old(self).head() as int,
                old(self).width as int,
                old(self).snake.direction,
            ),
            forall|i: int| 1 <= i < old(self).cells().len() ==> final(self).cells()[i] == old(
                self,
            ).cells()[i - 1],
            final(self).head() != old(self).reward_cell ==> final(self).cells().len() == old(
                self,
            ).cells().len() && final(self).reward_cell == old(self).reward_cell,
            final(self).head() == old(self).reward_cell ==> {
                let grown = old(self).cells().len() + 1;
                &&& final(self).cells().len() == grown
                &&& final(self).cells().last() == old(self).cells()[1]
                &&& (grown < old(self).size ==> final(self).reward_cell < old(self).size
                    && !final(self).cells().contains(final(self).reward_cell))
                &&& (grown == old(self).size ==> final(self).reward_cell == old(self).size)
            },
            old(self).cells().len() == old(self).size ==> final(self).cells().len() == old(
                self,
            ).size,
    {
        let ghost pre = *self;
        proof {
            assert(pre.cells()[0] == pre.snake.body@[0].0);
            assert(pre.cells()[1] == pre.snake.body@[1].0);
        }
        // the old second segment, which a growth tick duplicates; captured
        // before the shift overwrites it
        let grow_segment = self.snake.body[1];
        let new_head: usize = match self.next_cell {
            Some(cell) => {
                self.next_cell = None;
                cell.0
            },
            None => neighbor(self.snake.body[0].0, self.width, self.snake.direction),
        };
        let len = self.snake.body.len();
        let mut i: usize = len - 1;
        while 1 <= i
            invariant
                1 <= i + 1 <= len,
                len == self.snake.body@.len(),
                self.snake.body@.len() == pre.snake.body@.len(),
                forall|j: int| 0 <= j <= i ==> self.snake.body@[j] == pre.snake.body@[j],
                forall|j: int| i < j < len ==> self.snake.body@[j] == pre.snake.body@[j - 1],
                self.width == pre.width,
                self.size == pre.size,
                self.snake.direction == pre.snake.direction,
                self.reward_cell == pre.reward_cell,
                self.next_cell is None,
            decreases i,
        {
            let ahead = self.snake.body[i - 1];
            self.snake.body.set(i, ahead);
            i = i - 1;
        }
        self.snake.body.set(0, SnakeCell(new_head));
        proof {
            lemma_neighbor_round_trip(pre.head() as int, pre.width as int, pre.snake.direction);
            assert forall|j: int| 0 <= j < self.snake.body@.len() implies self.snake.body@[j].0
                < self.size by {
                if j >= 1 {
                    assert(self.snake.body@[j] == pre.snake.body@[j - 1]);
                }
            }
        }
        if self.reward_cell == new_head {
            self.snake.body.push(grow_segment);
            proof {
                assert forall|j: int| 0 <= j < self.snake.body@.len() implies self.snake.body@[j].0
                    < self.size by {
                    if 1 <= j < self.snake.body@.len() - 1 {
                        assert(self.snake.body@[j] == pre.snake.body@[j - 1]);
                    }
                }
            }
            if self.snake.body.len() < self.size {
                self.reward_cell = generate_reward_cell(rng, self.size, &self.snake.body);
            } else {
                self.reward_cell = self.size;
            }
        } else {
            proof {
                assert forall|j: int| 0 <= j < self.cells().len() implies self.cells()[j]
                    != self.reward_cell by {
                    if j >= 1 {
                        assert(self.cells()[j] == pre.cells()[j - 1]);
                        assert(pre.cells().contains(pre.cells()[j - 1]));
                    }
                }
                assert(self.reward_cell < self.size ==> !self.cells().contains(self.reward_cell));
            }
        }
    }

    /// Returns the reward cell index, or the sentinel `size` ("no reward")
    /// once the snake fills the board.
    pub fn reward_cell(&self) -> (r: usize)
        ensures
            r == self.reward_cell,
    {
        self.reward_cell
    }
}

/// Reversal rejection: in any state the snake reaches right after a `step`
/// — where the head sits one `neighbor` step from the neck in the current
/// direction — the cell computed for the exact opposite of the current
/// direction is the neck itself. By the contract of `change_snake_dir`, a
/// request for that opposite direction is therefore silently ignored: the
/// direction, the buffered cell and the body all stay as they were, and the
/// next `step` proceeds as if the request had never been made.
pub proof fn lemma_reversal_rejected(w: World)
    requires
        w.wf(),
        w.head() == spec_neighbor(w.cells()[1] as int, w.width as int, w.snake.direction),
    ensures
        spec_neighbor(w.head() as int, w.width as int, spec_opposite(w.snake.direction))
            == w.cells()[1],
{
    assert(w.cells()[1] == w.snake.body@[1].0);
    lemma_neighbor_round_trip(w.cells()[1] as int, w.width as int, w.snake.direction);
}

/// Win termination: once the snake's length equals the board size, the
/// reward cell is the sentinel `size`, and the cell the head moves to next
/// can never carry it (every reachable cell is a valid index, the sentinel
/// is not). By the contract of `step`, every further tick leaves the length
/// unchanged: the snake keeps moving without growing.
pub proof fn lemma_win_is_terminal(w: World)
    requires
        w.wf(),
        w.cells().len() == w.size,
    ensures
        w.reward_cell == w.size,
        spec_neighbor(w.head() as int, w.width as int, w.snake.direction) != w.reward_cell,
{
    lemma_neighbor_round_trip(w.head() as int, w.width as int, w.snake.direction);
}

} // verus!
