use crate::exercise::Exercise;
use crate::exercise::MathNumber;
use crate::exercise::MathOperation;
use vstd::prelude::*;

verus! {

/// Integer division truncating toward zero, as Rust's `/` computes it on
/// signed integers. Meaningful only for a nonzero divisor.
pub open spec fn trunc_div(a: int, b: int) -> int
    recommends
        b != 0,
{
    if a >= 0 && b > 0 {
        a / b
    } else if a < 0 && b > 0 {
        -((-a) / b)
    } else if a >= 0 && b < 0 {
        -(a / (-b))
    } else {
        (-a) / (-b)
    }
}

/// The exact integer result of applying `op` to `a` and `b`.
pub open spec fn spec_apply(a: int, op: MathOperation, b: int) -> int
    recommends
        op == MathOperation::Division ==> b != 0,
{
    match op {
        MathOperation::Addition => a + b,
        MathOperation::Subtraction => a - b,
        MathOperation::Multiplication => a * b,
        MathOperation::Division => trunc_div(a, b),
    }
}

/// Computes the result of an exercise exactly, widening the operands so that
/// no operation can overflow. Division truncates toward zero; a zero divisor
/// is ruled out by the generator's invariant.
pub fn solve_math_operation(
    first_number: MathNumber,
    operation: MathOperation,
    second_number: MathNumber,
) -> (result: i16)
    requires
        operation == MathOperation::Division ==> second_number.value != 0,
    ensures
        result as int == spec_apply(first_number.value as int, operation, second_number.value as int),
{
    let first = first_number.value as i16;
    let second = second_number.value as i16;

    match operation {
        MathOperation::Addition => first + second,
        MathOperation::Subtraction => first - second,
        MathOperation::Multiplication => {
            proof {
                assert(-32768 <= first * second <= 32767) by (nonlinear_arith)
                    requires
                        -128 <= first <= 127,
                        -128 <= second <= 127,
                ;
            }
            first * second
        },
        MathOperation::Division => {
            let fa: u16 = if first < 0 {
                (-(first as i32)) as u16
            } else {
                first as u16
            };
            let sa: u16 = if second < 0 {
                (-(second as i32)) as u16
            } else {
                second as u16
            };
            let q: u16 = fa / sa;
            if (first < 0) != (second < 0) {
                (-(q as i32)) as i16
            } else {
                q as i16
            }
        },
    }
}

/// The exact expected result of an exercise.
pub open spec fn spec_evaluate(e: Exercise) -> int
    recommends
        e.wf(),
{
    spec_apply(e.first.value as int, e.operation, e.second.value as int)
}

/// True exactly when `user_answer` equals the exercise's result: no
/// tolerance, no rounding.
pub fn check(user_answer: i16, e: &Exercise) -> (r: bool)
    requires
        e.wf(),
    ensures
        r == (user_answer as int == spec_evaluate(*e)),
{
    let result = solve_math_operation(e.first, e.operation, e.second);
    user_answer == result
}

} // verus!
