use vstd::arithmetic::div_mod::{lemma_fundamental_div_mod_converse, lemma_multiply_divide_lt};
use vstd::prelude::*;

use crate::cell::{life_rule, Cell};
use crate::point::Point;

verus! {

/// Row-major position of column `x`, row `y` on a board `width` cells wide.
pub open spec fn index_of(width: int, x: int, y: int) -> int {
    y * width + x
}

/// Toroidal wrap of a coordinate that lies at most one step outside `[0, n)`.
#[verifier::opaque]
pub open spec fn wrap(a: int, n: int) -> int {
    (a + n) % n
}

/// Whether the neighbour of `(x, y)` at offset `(dx, dy)`, read across the
/// edges of the torus, is alive.
pub open spec fn neighbor_alive(
    width: int,
    height: int,
    cells: Seq<bool>,
    x: int,
    y: int,
    dx: int,
    dy: int,
) -> bool {
    cells[index_of(width, wrap(x + dx, width), wrap(y + dy, height))]
}

/// 1 for a live cell, 0 for a dead one.
pub open spec fn count_of(b: bool) -> int {
    if b {
        1
    } else {
        0
    }
}

/// How many of the eight cells around `(x, y)` are alive.
pub open spec fn live_neighbors(width: int, height: int, cells: Seq<bool>, x: int, y: int) -> int {
    count_of(neighbor_alive(width, height, cells, x, y, -1, -1)) + count_of(
        neighbor_alive(width, height, cells, x, y, 0, -1),
    ) + count_of(neighbor_alive(width, height, cells, x, y, 1, -1)) + count_of(
        neighbor_alive(width, height, cells, x, y, -1, 0),
    ) + count_of(neighbor_alive(width, height, cells, x, y, 1, 0)) + count_of(
        neighbor_alive(width, height, cells, x, y, -1, 1),
    ) + count_of(neighbor_alive(width, height, cells, x, y, 0, 1)) + count_of(
        neighbor_alive(width, height, cells, x, y, 1, 1),
    )
}

/// The board one generation later: every cell follows the rule, with its
/// neighbours counted on the current board.
pub open spec fn next_generation(width: int, height: int, cells: Seq<bool>) -> Seq<bool> {
    Seq::new(
        cells.len(),
        |i: int| life_rule(cells[i], live_neighbors(width, height, cells, i % width, i / width)),
    )
}

/// The board `n` generations later.
pub open spec fn generations(width: int, height: int, cells: Seq<bool>, n: nat) -> Seq<bool>
    decreases n,
{
    if n == 0 {
        cells
    } else {
        next_generation(width, height, generations(width, height, cells, (n - 1) as nat))
    }
}

/// The board after seeding: a cell is alive if it was, or if some point,
/// taken modulo the board's size, lands on it.
pub open spec fn seeded(width: int, height: int, cells: Seq<bool>, points: Seq<Point>) -> Seq<bool> {
    Seq::new(
        cells.len(),
        |i: int|
            cells[i] || exists|k: int|
                0 <= k < points.len() && index_of(
                    width,
                    points[k].x as int % width,
                    points[k].y as int % height,
                ) == i,
    )
}

/// A position on the board has an index on the board.
pub proof fn lemma_index_in_range(width: int, height: int, x: int, y: int)
    requires
        0 <= x < width,
        0 <= y < height,
    ensures
        0 <= index_of(width, x, y) < width * height,
{
    assert(0 <= y * width + x < width * height) by (nonlinear_arith)
        requires
            0 <= x < width,
            0 <= y < height,
    ;
}

/// Wrapping one step past either edge lands on the opposite edge.
pub proof fn lemma_wrap(a: int, n: int)
    requires
        0 < n,
        -1 <= a <= n,
    ensures
        wrap(a, n) == (if a < 0 {
            a + n
        } else if a == n {
            0
        } else {
            a
        }),
{
    reveal(wrap);
    if a < 0 {
        lemma_fundamental_div_mod_converse(a + n, n, 0, a + n);
    } else if a == n {
        lemma_fundamental_div_mod_converse(a + n, n, 2, 0);
    } else {
        lemma_fundamental_div_mod_converse(a + n, n, 1, a);
    }
}

/// The neighbour count of `(x, y)` read off the wrapped columns and rows
/// around it.
pub proof fn lemma_live_neighbors(
    w: int,
    h: int,
    cells: Seq<bool>,
    x: int,
    y: int,
    left: int,
    right: int,
    up: int,
    down: int,
)
    requires
        0 <= x < w,
        0 <= y < h,
        left == (if x == 0 {
            w - 1
        } else {
            x - 1
        }),
        right == (if x + 1 == w {
            0
        } else {
            x + 1
        }),
        up == (if y == 0 {
            h - 1
        } else {
            y - 1
        }),
        down == (if y + 1 == h {
            0
        } else {
            y + 1
        }),
    ensures
        live_neighbors(w, h, cells, x, y) == count_of(cells[index_of(w, left, up)]) + count_of(
            cells[index_of(w, x, up)],
        ) + count_of(cells[index_of(w, right, up)]) + count_of(cells[index_of(w, left, y)])
            + count_of(cells[index_of(w, right, y)]) + count_of(cells[index_of(w, left, down)])
            + count_of(cells[index_of(w, x, down)]) + count_of(cells[index_of(w, right, down)]),
{
    lemma_wrap(x + -1, w);
    lemma_wrap(x + 0, w);
    lemma_wrap(x + 1, w);
    lemma_wrap(y + -1, h);
    lemma_wrap(y + 0, h);
    lemma_wrap(y + 1, h);
}

/// Why a board cannot be made.
#[derive(Clone, Copy, Debug, PartialEq, Eq, Structural)]
pub enum GridError {
    /// The width or the height is zero.
    EmptyDimension,
    /// The number of cells does not fit in a `usize`.
    TooLarge,
}

/// A toroidal board of `width` by `height` cells, stored row by row.
#[derive(Debug)]
pub struct Grid {
    width: usize,
    height: usize,
    cells: Vec<Cell>,
}

impl View for Grid {
    type V = Seq<bool>;

    /// The cells' states, row by row.
    closed spec fn view(&self) -> Seq<bool> {
        self.cells@.map_values(|c: Cell| c@)
    }
}

impl Grid {
    /// The number of columns.
    pub closed spec fn spec_width(&self) -> int {
        self.width as int
    }

    /// The number of rows.
    pub closed spec fn spec_height(&self) -> int {
        self.height as int
    }

    /// Both sides are positive and there is one cell per position.
    pub open spec fn wf(&self) -> bool {
        &&& self.spec_width() > 0
        &&& self.spec_height() > 0
        &&& self.spec_width() * self.spec_height() <= usize::MAX
        &&& self@.len() == self.spec_width() * self.spec_height()
    }

    /// A board of `width` by `height` dead cells.
    pub fn new(width: usize, height: usize) -> (r: Result<Grid, GridError>)
        ensures
            r is Err <==> (width == 0 || height == 0 || width * height > usize::MAX),
            r == Err::<Grid, GridError>(GridError::EmptyDimension) <==> (width == 0 || height
                == 0),
            r is Ok ==> ({
                let g = r->Ok_0;
                &&& g.wf()
                &&& g.spec_width() == width
                &&& g.spec_height() == height
                &&& g@ == Seq::new((width * height) as nat, |i: int| false)
            }),
    {
        if width == 0 || height == 0 {
            return Err(GridError::EmptyDimension);
        }
        let n = match width.checked_mul(height) {
            Some(n) => n,
            None => {
                return Err(GridError::TooLarge);
            },
        };
        let mut cells: Vec<Cell> = Vec::with_capacity(n);
        let mut i: usize = 0;
        while i < n
            invariant
                i <= n,
                cells@.len() == i,
                forall|j: int| 0 <= j < i ==> !cells@[j]@,
            decreases n - i,
        {
            cells.push(Cell::new(false));
            i += 1;
        }
        let g = Grid { width, height, cells };
        assert(g@ =~= Seq::new((width * height) as nat, |i: int| false));
        Ok(g)
    }

    pub fn width(&self) -> (r: usize)
        ensures
            r == self.spec_width(),
    {
        self.width
    }

    pub fn height(&self) -> (r: usize)
        ensures
            r == self.spec_height(),
    {
        self.height
    }

    /// The number of cells on the board.
    pub fn len(&self) -> (r: usize)
        ensures
            r == self@.len(),
    {
        self.cells.len()
    }

    /// Whether the cell at `index` is alive.
    pub fn is_alive(&self, index: usize) -> (r: bool)
        requires
            index < self@.len(),
        ensures
            r == self@[index as int],
    {
        self.cells[index].is_alive()
    }

    /// The row-major index of point `p`.
    pub fn coords_to_index(&self, p: Point) -> (r: usize)
        requires
            self.wf(),
            p.x < self.spec_width(),
            p.y < self.spec_height(),
        ensures
            r == index_of(self.spec_width(), p.x as int, p.y as int),
            r < self@.len(),
    {
        proof {
            lemma_index_in_range(self.width as int, self.height as int, p.x as int, p.y as int);
        }
        p.y * self.width + p.x
    }

    /// The point at row-major `index`.
    pub fn index_to_coords(&self, index: usize) -> (r: Point)
        requires
            self.wf(),
            index < self@.len(),
        ensures
            r.x == index as int % self.spec_width(),
            r.y == index as int / self.spec_width(),
            r.x < self.spec_width(),
            r.y < self.spec_height(),
    {
        proof {
            lemma_multiply_divide_lt(index as int, self.width as int, self.height as int);
        }
        Point { x: index % self.width, y: index / self.width }
    }

    /// 1 if the cell at column `x`, row `y` is alive, else 0.
    fn alive_at(&self, x: usize, y: usize) -> (r: u8)
        requires
            self.wf(),
            x < self.spec_width(),
            y < self.spec_height(),
        ensures
            r == count_of(self@[index_of(self.spec_width(), x as int, y as int)]),
    {
        proof {
            lemma_index_in_range(self.width as int, self.height as int, x as int, y as int);
        }
        if self.cells[y * self.width + x].is_alive() {
            1
        } else {
            0
        }
    }

    /// How many of the eight cells around `(x, y)` are alive, reading across
    /// the edges of the torus.
    fn count_neighbors(&self, x: usize, y: usize) -> (r: u8)
        requires
            self.wf(),
            x < self.spec_width(),
            y < self.spec_height(),
        ensures
            r == live_neighbors(self.spec_width(), self.spec_height(), self@, x as int, y as int),
    {
        let w = self.width;
        let h = self.height;
        let left = if x == 0 {
            w - 1
        } else {
            x - 1
        };
        let right = if x + 1 == w {
            0
        } else {
            x + 1
        };
        let up = if y == 0 {
            h - 1
        } else {
            y - 1
        };
        let down = if y + 1 == h {
            0
        } else {
            y + 1
        };
        let c0 = self.alive_at(left, up);
        let c1 = self.alive_at(x, up);
        let c2 = self.alive_at(right, up);
        let c3 = self.alive_at(left, y);
        let c4 = self.alive_at(right, y);
        let c5 = self.alive_at(left, down);
        let c6 = self.alive_at(x, down);
        let c7 = self.alive_at(right, down);
        proof {
            lemma_live_neighbors(w as int, h as int, self@, x as int, y as int, left as int, right as int, up as int, down as int);
        }
        c0 + c1 + c2 + c3 + c4 + c5 + c6 + c7
    }

    /// Advances the board by one generation. Every neighbour count is taken
    /// on the current board before any cell of the next one is written.
    pub fn update(&mut self)
        requires
            old(self).wf(),
        ensures
            final(self).wf(),
            final(self).spec_width() == old(self).spec_width(),
            final(self).spec_height() == old(self).spec_height(),
            final(self)@ == next_generation(
                old(self).spec_width(),
                old(self).spec_height(),
                old(self)@,
            ),
    {
        let n = self.cells.len();
        let mut next: Vec<Cell> = Vec::with_capacity(n);
        let mut i: usize = 0;
        while i < n
            invariant
                self.wf(),
                n == self@.len(),
                i <= n,
                next@.len() == i,
                forall|j: int|
                    0 <= j < i ==> #[trigger] next@[j]@ == next_generation(
                        self.spec_width(),
                        self.spec_height(),
                        self@,
                    )[j],
            decreases n - i,
        {
            proof {
                lemma_multiply_divide_lt(i as int, self.width as int, self.height as int);
            }
            let x = i % self.width;
            let y = i / self.width;
            let count = self.count_neighbors(x, y);
            let alive = self.cells[i].next_state(count);
            next.push(Cell::new(alive));
            i += 1;
        }
        let ghost before = self@;
        self.cells = next;
        assert(self@ =~= next_generation(self.spec_width(), self.spec_height(), before));
    }

    /// Marks alive the cell under each point, taking each point modulo the
    /// board's width and height, so that seeds off the board wrap round the
    /// torus as neighbours do. Other cells keep their state.
    pub fn set_state(&mut self, points: &Vec<Point>)
        requires
            old(self).wf(),
        ensures
            final(self).wf(),
            final(self).spec_width() == old(self).spec_width(),
            final(self).spec_height() == old(self).spec_height(),
            final(self)@ == seeded(
                old(self).spec_width(),
                old(self).spec_height(),
                old(self)@,
                points@,
            ),
    {
        let ghost start = self@;
        let ghost w = self.width as int;
        let ghost h = self.height as int;
        let mut k: usize = 0;
        while k < points.len()
            invariant
                self.wf(),
                self.spec_width() == w,
                self.spec_height() == h,
                k <= points@.len(),
                self@ == seeded(w, h, start, points@.subrange(0, k as int)),
            decreases points@.len() - k,
        {
            let p = points[k];
            let x = p.x % self.width;
            let y = p.y % self.height;
            proof {
                lemma_index_in_range(w, h, x as int, y as int);
            }
            let i = y * self.width + x;
            let ghost before = self@;
            self.cells.set(i, Cell::new(true));
            proof {
                let done = points@.subrange(0, k as int);
                let next = points@.subrange(0, k + 1);
                assert(self@ =~= before.update(i as int, true));
                assert forall|j: int| 0 <= j < self@.len() implies #[trigger] self@[j] == seeded(
                    w,
                    h,
                    start,
                    next,
                )[j] by {
                    if j == i {
                        assert(next[k as int] == p);
                        assert(index_of(w, next[k as int].x as int % w, next[k as int].y as int % h)
                            == j);
                    } else {
                        if exists|m: int|
                            0 <= m < next.len() && index_of(
                                w,
                                next[m].x as int % w,
                                next[m].y as int % h,
                            ) == j {
                            let m = choose|m: int|
                                0 <= m < next.len() && index_of(
                                    w,
                                    next[m].x as int % w,
                                    next[m].y as int % h,
                                ) == j;
                            assert(m != k);
                            assert(done[m] == next[m]);
                        }
                        if exists|m: int|
                            0 <= m < done.len() && index_of(
                                w,
                                done[m].x as int % w,
                                done[m].y as int % h,
                            ) == j {
                            let m = choose|m: int|
                                0 <= m < done.len() && index_of(
                                    w,
                                    done[m].x as int % w,
                                    done[m].y as int % h,
                                ) == j;
                            assert(done[m] == next[m]);
                        }
                    }
                }
                assert(self@ =~= seeded(w, h, start, next));
            }
            k += 1;
        }
        assert(points@.subrange(0, points@.len() as int) =~= points@);
    }
}

} // verus!
