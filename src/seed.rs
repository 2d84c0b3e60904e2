use vstd::prelude::*;

use crate::point::Point;

verus! {

/// The point at position `i` when a board `height` cells high is walked
/// column by column, top to bottom.
pub open spec fn point_at(height: int, i: int) -> Point {
    Point { x: (i / height) as usize, y: (i % height) as usize }
}

/// The points whose flag is set, column by column, top to bottom.
pub open spec fn flagged_points(height: int, flags: Seq<bool>) -> Seq<Point> {
    Seq::new(flags.len(), |i: int| i).filter(|i: int| flags[i]).map_values(
        |i: int| point_at(height, i),
    )
}

/// Relies on rand::random::<bool>, a fair coin drawn from the thread-local
/// generator. Nothing is promised of the outcome.
#[verifier::external_body]
fn random_bool() -> (r: bool) {
    rand::random::<bool>()
}

/// The points of a `width` by `height` board whose flag is set, where the
/// flag of column `x`, row `y` stands at `x * height + y`.
pub fn points_from_flags(width: usize, height: usize, flags: &Vec<bool>) -> (r: Vec<Point>)
    requires
        flags@.len() == width * height,
    ensures
        r@ == flagged_points(height as int, flags@),
        forall|k: int| 0 <= k < r@.len() ==> r@[k].x < width && r@[k].y < height,
{
    let mut r: Vec<Point> = Vec::new();
    let mut i: usize = 0;
    while i < flags.len()
        invariant
            i <= flags@.len(),
            flags@.len() == width * height,
            r@ == Seq::new(i as nat, |j: int| j).filter(|j: int| flags@[j]).map_values(|j: int| point_at(height as int, j)),
            forall|k: int| 0 <= k < r@.len() ==> r@[k].x < width && r@[k].y < height,
        decreases flags@.len() - i,
    {
        proof {
            assert(height > 0) by (nonlinear_arith)
                requires
                    i < width * height,
                    width >= 0,
                    height >= 0,
            ;
            assert(width * height == height * width) by (nonlinear_arith);
            vstd::arithmetic::div_mod::lemma_multiply_divide_lt(i as int, height as int, width as int);
            let all = Seq::new((i + 1) as nat, |j: int| j);
            assert(all.drop_last() =~= Seq::new(i as nat, |j: int| j));
            reveal(Seq::filter);
        }
        let ghost prev = Seq::new(i as nat, |j: int| j).filter(|j: int| flags@[j]);
        let ghost all = Seq::new((i + 1) as nat, |j: int| j);
        proof {
            assert(all.last() == i);
            assert(all.filter(|j: int| flags@[j]) == if flags@[i as int] {
                prev.push(i as int)
            } else {
                prev
            });
        }
        let ghost old_r = r@;
        if flags[i] {
            let p = Point { x: i / height, y: i % height };
            assert(p == point_at(height as int, i as int));
            r.push(p);
            assert(prev.push(i as int).map_values(|j: int| point_at(height as int, j)) =~= old_r.push(p));
        }
        i += 1;
    }
    r
}

/// Each cell of a `width` by `height` board, column by column, is picked
/// with a coin toss. Whatever the coins give, the result is the points
/// picked, column by column, each of them on the board.
pub fn random_points(width: usize, height: usize) -> (r: Vec<Point>)
    requires
        width * height <= usize::MAX,
    ensures
        exists|flags: Seq<bool>|
            flags.len() == width * height && r@ == flagged_points(height as int, flags),
        forall|k: int| 0 <= k < r@.len() ==> r@[k].x < width && r@[k].y < height,
{
    let n = width * height;
    let mut flags: Vec<bool> = Vec::with_capacity(n);
    let mut i: usize = 0;
    while i < n
        invariant
            i <= n,
            flags@.len() == i,
        decreases n - i,
    {
        flags.push(random_bool());
        i += 1;
    }
    points_from_flags(width, height, &flags)
}

} // verus!
