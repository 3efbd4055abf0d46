use vstd::prelude::*;
use vstd::string::*;
use crate::render::{decimal, push_decimal};

verus! {

/// The arithmetic operators a problem can use.
#[derive(Debug, Clone, Copy, Hash, PartialEq, Eq, Structural)]
pub enum MathOp {
    Plus,
    Minus,
    Multiply,
}

/// The exact value of `a op b`, over the integers.
pub open spec fn apply_op(a: int, b: int, op: MathOp) -> int {
    match op {
        MathOp::Plus => a + b,
        MathOp::Minus => a - b,
        MathOp::Multiply => a * b,
    }
}

/// The symbol an operator is shown with.
pub open spec fn op_symbol(op: MathOp) -> Seq<char> {
    match op {
        MathOp::Plus => seq!['+'],
        MathOp::Minus => seq!['-'],
        MathOp::Multiply => seq!['x'],
    }
}

impl MathOp {
    /// The operator's symbol: `+`, `-` or `x`.
    pub fn to_string(&self) -> (r: String)
        ensures
            r@ == op_symbol(*self),
    {
        proof {
            reveal_strlit("+");
            reveal_strlit("-");
            reveal_strlit("x");
        }
        match self {
            MathOp::Plus => String::from_str("+"),
            MathOp::Minus => String::from_str("-"),
            MathOp::Multiply => String::from_str("x"),
        }
    }
}

/// How long a correct answer took: whole seconds and the sub-second part in
/// nanoseconds, as a duration splits them.
#[derive(Debug, Clone, Copy, PartialEq, Eq, Structural)]
pub struct SolveTime {
    pub secs: u64,
    pub nanos: u32,
}

impl SolveTime {
    /// A time of whole seconds.
    pub fn from_secs(secs: u64) -> (r: SolveTime)
        ensures
            r.secs == secs,
            r.nanos == 0,
    {
        SolveTime { secs, nanos: 0 }
    }

    /// The whole seconds of this time.
    pub fn as_secs(&self) -> (r: u64)
        ensures
            r == self.secs,
    {
        self.secs
    }
}

/// Why a problem could not be built: its answer does not fit in a `u8`.
#[derive(Debug, Clone, Copy, PartialEq, Eq, Structural)]
pub enum ProblemError {
    /// A subtraction whose second operand is larger than the first.
    Underflow,
    /// A sum or product above 255.
    Overflow,
}

/// What a problem is, seen from outside: its fact and its history.
pub struct ProblemModel {
    pub operands: (u8, u8),
    pub operator: MathOp,
    pub answer: u8,
    pub num_wrong: u16,
    pub latest_time: SolveTime,
}

/// One arithmetic fact and the record of the user's answers to it.
#[derive(Debug)]
pub struct Problem {
    first: u8,
    second: u8,
    operator: MathOp,
    answer: u8,
    num_wrong: u16,
    latest_time: SolveTime,
}

impl View for Problem {
    type V = ProblemModel;

    closed spec fn view(&self) -> ProblemModel {
        ProblemModel {
            operands: (self.first, self.second),
            operator: self.operator,
            answer: self.answer,
            num_wrong: self.num_wrong,
            latest_time: self.latest_time,
        }
    }
}

/// The record a freshly built problem has.
pub open spec fn model_of(operands: (u8, u8), operator: MathOp, num_wrong: u16, latest_time: SolveTime) -> ProblemModel {
    ProblemModel {
        operands,
        operator,
        answer: apply_op(operands.0 as int, operands.1 as int, operator) as u8,
        num_wrong,
        latest_time,
    }
}

impl ProblemModel {
    /// The answer is the operator applied to the operands.
    pub open spec fn wf(self) -> bool {
        self.answer as int == apply_op(self.operands.0 as int, self.operands.1 as int, self.operator)
    }
}

/// The weight of a problem: thirty for each wrong answer, plus one for each
/// whole second the last correct answer took. A wrong answer counts as much
/// as half a minute of hesitation.
pub open spec fn score(m: ProblemModel) -> int {
    m.num_wrong * 30 + m.latest_time.secs
}

/// The record after a correct answer given in `elapsed`: the time is kept and
/// the wrong count drops by one, but never below one.
pub open spec fn after_correct(m: ProblemModel, elapsed: SolveTime) -> ProblemModel {
    ProblemModel {
        num_wrong: if m.num_wrong > 1 { (m.num_wrong - 1) as u16 } else { m.num_wrong },
        latest_time: elapsed,
        ..m
    }
}

/// The record after a wrong answer: one more wrong answer, nothing else.
pub open spec fn after_wrong(m: ProblemModel) -> ProblemModel {
    ProblemModel { num_wrong: (m.num_wrong + 1) as u16, ..m }
}

/// How a problem is put to the user: `"<first> <symbol> <second> = "`.
pub open spec fn display(m: ProblemModel) -> Seq<char> {
    decimal(m.operands.0 as nat) + seq![' '] + op_symbol(m.operator) + seq![' '] + decimal(m.operands.1 as nat) + seq![' ', '=', ' ']
}

/// A correct answer lowers a wrong count above one by exactly one and leaves
/// a count of one or zero as it is: a count of at least one never reaches zero
/// through correct answers.
pub proof fn lemma_correct_keeps_floor(m: ProblemModel, elapsed: SolveTime)
    ensures
        m.num_wrong > 1 ==> after_correct(m, elapsed).num_wrong == m.num_wrong - 1,
        m.num_wrong <= 1 ==> after_correct(m, elapsed).num_wrong == m.num_wrong,
        m.num_wrong >= 1 ==> after_correct(m, elapsed).num_wrong >= 1,
{
}

impl Problem {
    /// Every problem keeps the record well formed.
    #[verifier::type_invariant]
    closed spec fn inv(&self) -> bool {
        self@.wf()
    }

    /// Builds a problem, computing its answer from the operands and the
    /// operator. Fails when the answer is negative or above 255.
    pub fn new(operands: [u8; 2], operator: MathOp, num_wrong: u16, latest_time: SolveTime) -> (r: Result<Problem, ProblemError>)
        ensures
            r is Ok <==> 0 <= apply_op(operands@[0] as int, operands@[1] as int, operator) <= u8::MAX,
            r matches Ok(p) ==> p@ == model_of((operands@[0], operands@[1]), operator, num_wrong, latest_time),
            r matches Ok(p) ==> p@.wf(),
            r matches Err(e) ==> (e == ProblemError::Underflow <==> apply_op(operands@[0] as int, operands@[1] as int, operator) < 0),
    {
        let a = operands[0];
        let b = operands[1];
        let answer = match operator {
            MathOp::Plus => a.checked_add(b),
            MathOp::Minus => a.checked_sub(b),
            MathOp::Multiply => a.checked_mul(b),
        };
        match answer {
            Some(answer) => Ok(Problem { first: a, second: b, operator, answer, num_wrong, latest_time }),
            None => {
                if a < b && operator == MathOp::Minus {
                    Err(ProblemError::Underflow)
                } else {
                    Err(ProblemError::Overflow)
                }
            },
        }
    }

    pub fn get_op(&self) -> (r: MathOp)
        ensures
            r == self@.operator,
    {
        self.operator
    }

    pub fn get_operands(&self) -> (r: [u8; 2])
        ensures
            r@ == seq![self@.operands.0, self@.operands.1],
    {
        [self.first, self.second]
    }

    pub fn get_answer(&self) -> (r: u8)
        ensures
            r == self@.answer,
            self@.wf(),
    {
        proof {
            use_type_invariant(self);
        }
        self.answer
    }

    pub fn get_num_wrong(&self) -> (r: u16)
        ensures
            r == self@.num_wrong,
    {
        self.num_wrong
    }

    pub fn get_time(&self) -> (r: SolveTime)
        ensures
            r == self@.latest_time,
    {
        self.latest_time
    }

    /// The question as shown to the user, such as `"4 + 5 = "`.
    pub fn to_string(&self) -> (r: String)
        ensures
            r@ == display(self@),
    {
        proof {
            reveal_strlit(" ");
            reveal_strlit(" = ");
        }
        let mut s = String::new();
        push_decimal(&mut s, self.first);
        s.append(" ");
        s.append(self.operator.to_string().as_str());
        s.append(" ");
        push_decimal(&mut s, self.second);
        s.append(" = ");
        s
    }

    /// The selection weight of this problem; see [`score`].
    pub fn get_score(&self) -> (r: u128)
        ensures
            r == score(self@),
    {
        self.num_wrong as u128 * 30 + self.latest_time.secs as u128
    }

    /// Checks a guess. A correct one records `elapsed_time` and lowers the
    /// wrong count by one while it is above one; a wrong one raises the wrong
    /// count by one. Returns whether the guess was correct.
    pub fn check_guess(&mut self, guess: u16, elapsed_time: SolveTime) -> (r: bool)
        requires
            old(self)@.answer == guess || old(self)@.num_wrong < u16::MAX,
        ensures
            r == (guess == old(self)@.answer),
            r ==> final(self)@ == after_correct(old(self)@, elapsed_time),
            !r ==> final(self)@ == after_wrong(old(self)@),
            r ==> final(self)@.latest_time == elapsed_time,
            !r ==> final(self)@.latest_time == old(self)@.latest_time,
            !r ==> final(self)@.num_wrong == old(self)@.num_wrong + 1,
    {
        proof {
            use_type_invariant(&*self);
        }
        if self.answer as u16 == guess {
            let num_wrong = if self.num_wrong > 1 { self.num_wrong - 1 } else { self.num_wrong };
            *self = Problem { num_wrong, latest_time: elapsed_time, ..*self };
            true
        } else {
            *self = Problem { num_wrong: self.num_wrong + 1, ..*self };
            false
        }
    }
}

} // verus!
