use math_quiz::{
    add_addition, add_mult, add_subtraction, init_problems, pick_index, select_problem, sum_scores, MathOp,
    Problem, ProblemError, SelectError, SolveTime,
};

fn plus(a: u8, b: u8, num_wrong: u16, secs: u64) -> Problem {
    Problem::new([a, b], MathOp::Plus, num_wrong, SolveTime::from_secs(secs)).unwrap()
}

/// Setup 3 questions with known weights and test for expected distribution
#[test]
fn test_select() {
    let mut num_selected: [i32; 3] = [0, 0, 0];
    let mut problems: Vec<Problem> = Vec::new();
    // Add three simple problems
    problems.push(Problem::new([7, 6], MathOp::Plus, 30, SolveTime::from_secs(30)).unwrap());
    problems.push(Problem::new([1, 1], MathOp::Plus, 10, SolveTime::from_secs(20)).unwrap());
    problems.push(Problem::new([7, 6], MathOp::Plus, 5, SolveTime::from_secs(5)).unwrap());
    for _rep in 0..10000000 {
        num_selected[select_problem(&problems).unwrap()] += 1;
    }
    println!("{:?}", num_selected);
    assert!(i32::abs(num_selected[0] / 100000 - 66) <= 1, "We expected 66% for first problem");
    assert!(i32::abs(num_selected[1] / 100000 - 23) <= 1, "Expected 30% for second problem");
    assert!(i32::abs(num_selected[2] / 100000 - 11) <= 1, "Expected 10% for third problem");
}

#[test]
fn scores_weigh_wrong_answers_thirty_seconds() {
    assert_eq!(plus(7, 6, 30, 30).get_score(), 930);
    assert_eq!(plus(1, 1, 10, 20).get_score(), 320);
    assert_eq!(plus(7, 6, 5, 5).get_score(), 155);
    assert_eq!(plus(0, 0, 0, 0).get_score(), 0);
    assert_eq!(plus(0, 0, u16::MAX, u64::MAX).get_score(), 65535 * 30 + u64::MAX as u128);
}

#[test]
fn every_draw_maps_to_its_stretch() {
    // scores 60, 30 and 10
    let problems = vec![plus(1, 1, 1, 30), plus(1, 2, 0, 30), plus(2, 1, 0, 10)];
    assert_eq!(sum_scores(&problems), Some(100));
    let mut counts = [0u32; 3];
    for pick in 0..=100u128 {
        counts[pick_index(&problems, pick)] += 1;
    }
    assert_eq!(counts, [61, 30, 10]);
}

#[test]
fn draw_boundaries() {
    let problems = vec![plus(1, 1, 1, 30), plus(1, 2, 0, 30), plus(2, 1, 0, 10)];
    assert_eq!(pick_index(&problems, 0), 0);
    assert_eq!(pick_index(&problems, 60), 0);
    assert_eq!(pick_index(&problems, 61), 1);
    assert_eq!(pick_index(&problems, 90), 1);
    assert_eq!(pick_index(&problems, 91), 2);
    assert_eq!(pick_index(&problems, 100), 2);
    assert_eq!(pick_index(&problems, 1000), 2);
}

#[test]
fn zero_scores_select_first() {
    let problems = vec![plus(1, 1, 0, 0), plus(2, 2, 0, 0)];
    assert_eq!(sum_scores(&problems), Some(0));
    for _ in 0..100 {
        assert_eq!(select_problem(&problems), Ok(0));
    }
}

#[test]
fn selection_stays_in_range() {
    let mut problems = Vec::new();
    init_problems(&mut problems);
    for _ in 0..1000 {
        let i = select_problem(&problems).unwrap();
        assert!(i < problems.len());
    }
}

#[test]
fn single_problem_always_selected() {
    let problems = vec![plus(3, 4, 2, 9)];
    for _ in 0..1000 {
        assert_eq!(select_problem(&problems), Ok(0));
    }
}

#[test]
fn empty_catalog_is_an_error() {
    let problems: Vec<Problem> = Vec::new();
    assert_eq!(select_problem(&problems), Err(SelectError::EmptyCatalog));
    assert_eq!(sum_scores(&problems), Some(0));
}

#[test]
fn correct_guess_records_time() {
    let mut p = plus(4, 5, 3, 12);
    assert!(p.check_guess(9, SolveTime::from_secs(2)));
    assert_eq!(p.get_time(), SolveTime::from_secs(2));
    assert_eq!(p.get_time().as_secs(), 2);
    assert_eq!(p.get_num_wrong(), 2);
}

#[test]
fn wrong_guess_counts() {
    let mut p = plus(4, 5, 3, 12);
    assert!(!p.check_guess(10, SolveTime::from_secs(2)));
    assert_eq!(p.get_time(), SolveTime::from_secs(12));
    assert_eq!(p.get_num_wrong(), 4);
    assert!(!p.check_guess(900, SolveTime::from_secs(1)));
    assert_eq!(p.get_num_wrong(), 5);
}

#[test]
fn correct_guesses_stop_at_one() {
    let mut p = plus(2, 2, 2, 5);
    assert!(p.check_guess(4, SolveTime::from_secs(3)));
    assert_eq!(p.get_num_wrong(), 1);
    assert!(p.check_guess(4, SolveTime::from_secs(3)));
    assert_eq!(p.get_num_wrong(), 1);
    let mut q = plus(2, 2, 0, 5);
    assert!(q.check_guess(4, SolveTime::from_secs(3)));
    assert_eq!(q.get_num_wrong(), 0);
}

#[test]
fn answers_follow_the_operator() {
    let t = SolveTime::from_secs(5);
    assert_eq!(Problem::new([7, 3], MathOp::Minus, 0, t).unwrap().get_answer(), 4);
    assert_eq!(Problem::new([7, 3], MathOp::Plus, 0, t).unwrap().get_answer(), 10);
    assert_eq!(Problem::new([7, 3], MathOp::Multiply, 0, t).unwrap().get_answer(), 21);
    let p = Problem::new([7, 3], MathOp::Minus, 4, t).unwrap();
    assert_eq!(p.get_operands(), [7, 3]);
    assert_eq!(p.get_op(), MathOp::Minus);
    assert_eq!(p.get_num_wrong(), 4);
    assert_eq!(p.get_time(), t);
}

#[test]
fn answers_out_of_range_are_refused() {
    let t = SolveTime::from_secs(5);
    assert_eq!(Problem::new([3, 7], MathOp::Minus, 0, t).unwrap_err(), ProblemError::Underflow);
    assert_eq!(Problem::new([200, 56], MathOp::Plus, 0, t).unwrap_err(), ProblemError::Overflow);
    assert_eq!(Problem::new([16, 16], MathOp::Multiply, 0, t).unwrap_err(), ProblemError::Overflow);
    assert_eq!(Problem::new([200, 55], MathOp::Plus, 0, t).unwrap().get_answer(), 255);
    assert_eq!(Problem::new([5, 5], MathOp::Minus, 0, t).unwrap().get_answer(), 0);
}

#[test]
fn problems_render_as_questions() {
    assert_eq!(plus(4, 5, 0, 1).to_string(), "4 + 5 = ");
    let t = SolveTime::from_secs(1);
    assert_eq!(Problem::new([255, 100], MathOp::Minus, 0, t).unwrap().to_string(), "255 - 100 = ");
    assert_eq!(Problem::new([12, 0], MathOp::Multiply, 0, t).unwrap().to_string(), "12 x 0 = ");
    assert_eq!(MathOp::Plus.to_string(), "+");
    assert_eq!(MathOp::Minus.to_string(), "-");
    assert_eq!(MathOp::Multiply.to_string(), "x");
}

#[test]
fn catalog_blocks() {
    let mut sums = Vec::new();
    add_addition(&mut sums);
    assert_eq!(sums.len(), 407);
    assert_eq!(sums[0].get_operands(), [1, 0]);
    assert_eq!(sums[1].get_operands(), [0, 1]);
    assert_eq!(sums[2].get_operands(), [1, 1]);
    assert_eq!(sums[0].get_time(), SolveTime::from_secs(5));
    assert!(sums.iter().all(|p| p.get_op() == MathOp::Plus && p.get_num_wrong() == 0));

    let mut differences = Vec::new();
    add_subtraction(&mut differences);
    assert_eq!(differences.len(), 105);
    assert_eq!(differences[0].get_operands(), [2, 1]);
    assert_eq!(differences[0].get_answer(), 1);
    assert_eq!(differences[0].get_time(), SolveTime::from_secs(10));

    let mut products = Vec::new();
    add_mult(&mut products);
    assert_eq!(products.len(), 15);
    assert_eq!(products[14].get_operands(), [5, 3]);
    assert_eq!(products[14].get_answer(), 15);
    assert_eq!(products[14].get_time(), SolveTime::from_secs(15));
}

#[test]
fn init_appends_all_blocks() {
    let mut problems = vec![plus(9, 9, 7, 7)];
    init_problems(&mut problems);
    assert_eq!(problems.len(), 1 + 407 + 105 + 15);
    assert_eq!(problems[0].get_num_wrong(), 7);
    assert_eq!(problems[1].get_op(), MathOp::Plus);
    assert_eq!(problems[408].get_op(), MathOp::Minus);
    assert_eq!(problems[513].get_op(), MathOp::Multiply);
}
