use vstd::prelude::*;
use crate::problem::{apply_op, model_of, MathOp, Problem, ProblemModel, SolveTime};

verus! {

/// The record of a problem new to the catalog: no wrong answers yet and a
/// seeded time of `secs` seconds.
pub open spec fn fresh(a: int, b: int, op: MathOp, secs: u64) -> ProblemModel {
    model_of((a as u8, b as u8), op, 0, SolveTime { secs, nanos: 0 })
}

/// `after` is `before` with problems of the records `block` added at its end.
pub open spec fn extends_with(before: Seq<Problem>, after: Seq<Problem>, block: Seq<ProblemModel>) -> bool {
    &&& after.len() == before.len() + block.len()
    &&& forall|k: int| 0 <= k < before.len() ==> after[k] == before[k]
    &&& forall|k: int| 0 <= k < block.len() ==> #[trigger] after[before.len() + k]@ == block[k]
}

/// The sums `x + y` for `y` in `0..n`, each also as `y + x` when the operands differ.
pub open spec fn addition_row(x: int, n: int) -> Seq<ProblemModel>
    decreases n,
{
    if n <= 0 {
        seq![]
    } else if x != n - 1 {
        addition_row(x, n - 1) + seq![fresh(x, n - 1, MathOp::Plus, 5), fresh(n - 1, x, MathOp::Plus, 5)]
    } else {
        addition_row(x, n - 1) + seq![fresh(x, n - 1, MathOp::Plus, 5)]
    }
}

/// The rows of sums for first operands `1..n`, second operands `0..=13`.
pub open spec fn addition_rows(n: int) -> Seq<ProblemModel>
    decreases n,
{
    if n <= 1 {
        seq![]
    } else {
        addition_rows(n - 1) + addition_row(n - 1, 14)
    }
}

/// The differences `x - y` for `y` in `1..n`.
pub open spec fn subtraction_row(x: int, n: int) -> Seq<ProblemModel>
    decreases n,
{
    if n <= 1 {
        seq![]
    } else {
        subtraction_row(x, n - 1) + seq![fresh(x, n - 1, MathOp::Minus, 10)]
    }
}

/// The differences `x - y` for `x` in `0..n` and `y` in `1..x`.
pub open spec fn subtraction_rows(n: int) -> Seq<ProblemModel>
    decreases n,
{
    if n <= 0 {
        seq![]
    } else {
        subtraction_rows(n - 1) + subtraction_row(n - 1, n - 1)
    }
}

/// The products `x * y` for `y` in `1..n`.
pub open spec fn product_row(x: int, n: int) -> Seq<ProblemModel>
    decreases n,
{
    if n <= 1 {
        seq![]
    } else {
        product_row(x, n - 1) + seq![fresh(x, n - 1, MathOp::Multiply, 15)]
    }
}

/// The rows of products for first operands `1..n`, second operands `1..=3`.
pub open spec fn product_rows(n: int) -> Seq<ProblemModel>
    decreases n,
{
    if n <= 1 {
        seq![]
    } else {
        product_rows(n - 1) + product_row(n - 1, 4)
    }
}

proof fn lemma_extend_one(before: Seq<Problem>, after: Seq<Problem>, block: Seq<ProblemModel>, p: Problem)
    requires
        extends_with(before, after, block),
    ensures
        extends_with(before, after.push(p), block.push(p@)),
{
    let a2 = after.push(p);
    let b2 = block.push(p@);
    assert forall|k: int| 0 <= k < b2.len() implies #[trigger] a2[before.len() + k]@ == b2[k] by {
        if k < block.len() {
            assert(after[before.len() + k]@ == block[k]);
        }
    }
}

/// Adds a new problem `a op b` with no wrong answers and a seeded time of `secs` seconds.
fn push_fresh(problems: &mut Vec<Problem>, a: u8, b: u8, op: MathOp, secs: u64)
    requires
        0 <= apply_op(a as int, b as int, op) <= u8::MAX,
    ensures
        final(problems)@ == old(problems)@.push(final(problems)@.last()),
        final(problems)@.last()@ == fresh(a as int, b as int, op, secs),
{
    match Problem::new([a, b], op, 0, SolveTime::from_secs(secs)) {
        Ok(p) => problems.push(p),
        Err(_) => {
            assert(false);
        },
    }
}

/// Adds the sums of a first operand in `1..=15` and a second in `0..=13`,
/// with the operands swapped too when they differ, each seeded at 5 seconds.
pub fn add_addition(problems: &mut Vec<Problem>)
    ensures
        extends_with(old(problems)@, final(problems)@, addition_rows(16)),
{
    let ghost start = problems@;
    let mut x: u8 = 1;
    while x <= 15
        invariant
            1 <= x <= 16,
            extends_with(start, problems@, addition_rows(x as int)),
        decreases 16 - x,
    {
        let mut y: u8 = 0;
        while y <= 13
            invariant
                1 <= x <= 15,
                0 <= y <= 14,
                extends_with(start, problems@, addition_rows(x as int) + addition_row(x as int, y as int)),
            decreases 14 - y,
        {
            let ghost rows = addition_rows(x as int);
            let ghost before = problems@;
            push_fresh(problems, x, y, MathOp::Plus, 5);
            proof {
                lemma_extend_one(start, before, rows + addition_row(x as int, y as int), problems@.last());
            }
            if x != y {
                let ghost before = problems@;
                push_fresh(problems, y, x, MathOp::Plus, 5);
                proof {
                    lemma_extend_one(
                        start,
                        before,
                        (rows + addition_row(x as int, y as int)).push(fresh(x as int, y as int, MathOp::Plus, 5)),
                        problems@.last(),
                    );
                }
            }
            proof {
                assert(rows + addition_row(x as int, y + 1) =~= if x != y {
                    (rows + addition_row(x as int, y as int)).push(fresh(x as int, y as int, MathOp::Plus, 5)).push(
                        fresh(y as int, x as int, MathOp::Plus, 5),
                    )
                } else {
                    (rows + addition_row(x as int, y as int)).push(fresh(x as int, y as int, MathOp::Plus, 5))
                });
            }
            y = y + 1;
        }
        assert(addition_rows(x + 1) =~= addition_rows(x as int) + addition_row(x as int, 14));
        x = x + 1;
    }
}

/// Adds the differences `x - y` for `x` in `0..=15` and `y` in `1..x`, so
/// that no result is negative, each seeded at 10 seconds.
pub fn add_subtraction(problems: &mut Vec<Problem>)
    ensures
        extends_with(old(problems)@, final(problems)@, subtraction_rows(16)),
{
    let ghost start = problems@;
    let mut x: u8 = 0;
    while x <= 15
        invariant
            0 <= x <= 16,
            extends_with(start, problems@, subtraction_rows(x as int)),
        decreases 16 - x,
    {
        let mut y: u8 = 1;
        while y < x
            invariant
                0 <= x <= 15,
                1 <= y,
                y <= x || y == 1,
                extends_with(start, problems@, subtraction_rows(x as int) + subtraction_row(x as int, y as int)),
            decreases x - y,
        {
            let ghost rows = subtraction_rows(x as int);
            let ghost before = problems@;
            push_fresh(problems, x, y, MathOp::Minus, 10);
            proof {
                lemma_extend_one(start, before, rows + subtraction_row(x as int, y as int), problems@.last());
                assert(rows + subtraction_row(x as int, y + 1) =~= (rows + subtraction_row(x as int, y as int)).push(
                    fresh(x as int, y as int, MathOp::Minus, 10),
                ));
            }
            y = y + 1;
        }
        proof {
            if x == 0 {
                assert(subtraction_row(0, 1) =~= subtraction_row(0, 0));
            }
        }
        assert(subtraction_rows(x + 1) =~= subtraction_rows(x as int) + subtraction_row(x as int, x as int));
        x = x + 1;
    }
}

/// Adds the products `x * y` for `x` in `1..=5` and `y` in `1..=3`, each
/// seeded at 15 seconds.
pub fn add_mult(problems: &mut Vec<Problem>)
    ensures
        extends_with(old(problems)@, final(problems)@, product_rows(6)),
{
    let ghost start = problems@;
    let mut x: u8 = 1;
    while x <= 5
        invariant
            1 <= x <= 6,
            extends_with(start, problems@, product_rows(x as int)),
        decreases 6 - x,
    {
        let mut y: u8 = 1;
        while y <= 3
            invariant
                1 <= x <= 5,
                1 <= y <= 4,
                extends_with(start, problems@, product_rows(x as int) + product_row(x as int, y as int)),
            decreases 4 - y,
        {
            let ghost rows = product_rows(x as int);
            let ghost before = problems@;
            assert(x * y <= 15) by (nonlinear_arith)
                requires
                    x <= 5,
                    y <= 3,
            ;
            push_fresh(problems, x, y, MathOp::Multiply, 15);
            proof {
                lemma_extend_one(start, before, rows + product_row(x as int, y as int), problems@.last());
                assert(rows + product_row(x as int, y + 1) =~= (rows + product_row(x as int, y as int)).push(
                    fresh(x as int, y as int, MathOp::Multiply, 15),
                ));
            }
            y = y + 1;
        }
        assert(product_rows(x + 1) =~= product_rows(x as int) + product_row(x as int, 4));
        x = x + 1;
    }
}

proof fn lemma_extend_twice(
    a: Seq<Problem>,
    b: Seq<Problem>,
    c: Seq<Problem>,
    s: Seq<ProblemModel>,
    t: Seq<ProblemModel>,
)
    requires
        extends_with(a, b, s),
        extends_with(b, c, t),
    ensures
        extends_with(a, c, s + t),
{
    assert forall|k: int| 0 <= k < (s + t).len() implies #[trigger] c[a.len() + k]@ == (s + t)[k] by {
        if k < s.len() {
            assert(b[a.len() + k]@ == s[k]);
        } else {
            assert(c[b.len() + (k - s.len())]@ == t[k - s.len()]);
        }
    }
}

/// Fills a catalog: the sums, then the differences, then the products.
pub fn init_problems(problems: &mut Vec<Problem>)
    ensures
        extends_with(old(problems)@, final(problems)@, addition_rows(16) + subtraction_rows(16) + product_rows(6)),
{
    let ghost start = problems@;
    add_addition(problems);
    let ghost sums = problems@;
    add_subtraction(problems);
    proof {
        lemma_extend_twice(start, sums, problems@, addition_rows(16), subtraction_rows(16));
    }
    let ghost differences = problems@;
    add_mult(problems);
    proof {
        lemma_extend_twice(start, differences, problems@, addition_rows(16) + subtraction_rows(16), product_rows(6));
    }
}

} // verus!
