use vstd::prelude::*;

verus! {

/// `after` is `before` with row `y` of an image `width` pixels wide combined into it: pixel `x`
/// of the row is combined through `combine` with the value at `y * width + x`, and every other
/// pixel is unchanged.
pub open spec fn row_accumulated<C, F: Fn(&C, &C) -> C>(
    before: Seq<C>,
    after: Seq<C>,
    width: int,
    y: int,
    row: Seq<C>,
    combine: F,
) -> bool {
    &&& after.len() == before.len()
    &&& forall|i: int|
        0 <= i < before.len() && !(y * width <= i < y * width + row.len()) ==> #[trigger] after[i]
            == before[i]
    &&& forall|x: int|
        0 <= x < row.len() ==> combine.ensures(
            (&before[y * width + x], &row[x]),
            #[trigger] after[y * width + x],
        )
}

/// Adds a finished row of pixel contributions into the row-major image accumulator.
///
/// Row `y` of an image `width` pixels wide starts at `y * width`; pixel `x` of the row is combined
/// with the accumulated value at `y * width + x` through `combine`, and every other pixel is left as
/// it was.
pub fn accumulate_row<C, F: Fn(&C, &C) -> C>(
    image: &mut Vec<C>,
    width: usize,
    y: usize,
    row: &Vec<C>,
    combine: F,
)
    requires
        row.len() <= width,
        y * width + width <= old(image).len(),
        forall|a: &C, b: &C| #[trigger] combine.requires((a, b)),
    ensures
        row_accumulated(old(image)@, final(image)@, width as int, y as int, row@, combine),
{
    let start: usize = y * width;
    let mut x: usize = 0;
    while x < row.len()
        invariant
            x <= row.len(),
            row.len() <= width,
            start == y * width,
            start + width <= old(image).len(),
            image.len() == old(image).len(),
            forall|a: &C, b: &C| #[trigger] combine.requires((a, b)),
            forall|i: int|
                0 <= i < old(image).len() && !(start <= i < start + x) ==> #[trigger] image@[i]
                    == old(image)@[i],
            forall|k: int|
                0 <= k < x ==> combine.ensures(
                    (&old(image)@[start + k], &row@[k]),
                    #[trigger] image@[start + k],
                ),
        decreases row.len() - x,
    {
        let sum = combine(&image[start + x], &row[x]);
        image.set(start + x, sum);
        x = x + 1;
    }
}

proof fn lemma_rows_disjoint(width: int, y1: int, y2: int, x1: int, x2: int)
    requires
        0 <= y1,
        0 <= y2,
        y1 != y2,
        0 <= x1 < width,
        0 <= x2 < width,
    ensures
        y1 * width + x1 != y2 * width + x2,
{
    if y1 < y2 {
        assert(y1 * width + width <= y2 * width) by (nonlinear_arith)
            requires
                y1 < y2,
                width > 0,
        ;
    } else {
        assert(y2 * width + width <= y1 * width) by (nonlinear_arith)
            requires
                y2 < y1,
                width > 0,
        ;
    }
}

/// Rows land on disjoint pixels, so the order in which two different rows are collected does
/// not change the image: with a deterministic `combine`, adding row `y1` and then row `y2` gives
/// the same accumulator as adding `y2` and then `y1`.
pub proof fn lemma_row_order_irrelevant<C, F: Fn(&C, &C) -> C>(
    image: Seq<C>,
    first_y1: Seq<C>,
    then_y2: Seq<C>,
    first_y2: Seq<C>,
    then_y1: Seq<C>,
    width: int,
    y1: int,
    row1: Seq<C>,
    y2: int,
    row2: Seq<C>,
    combine: F,
)
    requires
        forall|a: &C, b: &C, r: C, s: C|
            combine.ensures((a, b), r) && combine.ensures((a, b), s) ==> r == s,
        0 <= y1,
        0 <= y2,
        y1 != y2,
        row1.len() <= width,
        row2.len() <= width,
        row_accumulated(image, first_y1, width, y1, row1, combine),
        row_accumulated(first_y1, then_y2, width, y2, row2, combine),
        row_accumulated(image, first_y2, width, y2, row2, combine),
        row_accumulated(first_y2, then_y1, width, y1, row1, combine),
    ensures
        then_y2 == then_y1,
{
    assert forall|i: int| 0 <= i < image.len() implies then_y2[i] == then_y1[i] by {
        let in1 = y1 * width <= i < y1 * width + row1.len();
        let in2 = y2 * width <= i < y2 * width + row2.len();
        if in1 {
            let x1 = i - y1 * width;
            if in2 {
                lemma_rows_disjoint(width, y1, y2, x1, i - y2 * width);
            }
            assert(first_y2[y1 * width + x1] == image[y1 * width + x1]);
            assert(then_y2[i] == first_y1[i]);
            assert(combine.ensures((&image[y1 * width + x1], &row1[x1]), first_y1[y1 * width + x1]));
            assert(combine.ensures((&first_y2[y1 * width + x1], &row1[x1]), then_y1[y1 * width + x1]));
        } else if in2 {
            let x2 = i - y2 * width;
            assert(first_y1[y2 * width + x2] == image[y2 * width + x2]);
            assert(then_y1[i] == first_y2[i]);
            assert(combine.ensures((&image[y2 * width + x2], &row2[x2]), first_y2[y2 * width + x2]));
            assert(combine.ensures((&first_y1[y2 * width + x2], &row2[x2]), then_y2[y2 * width + x2]));
        }
    }
    assert(then_y2 =~= then_y1);
}

} // verus!
