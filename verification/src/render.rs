use crate::exercise::Exercise;
use crate::exercise::MathOperation;
use vstd::prelude::*;
use vstd::string::StringExecFns;

verus! {

/// The decimal digit character for a value below ten.
pub open spec fn spec_digit_char(d: int) -> char
    recommends
        0 <= d < 10,
{
    if d == 0 {
        '0'
    } else if d == 1 {
        '1'
    } else if d == 2 {
        '2'
    } else if d == 3 {
        '3'
    } else if d == 4 {
        '4'
    } else if d == 5 {
        '5'
    } else if d == 6 {
        '6'
    } else if d == 7 {
        '7'
    } else if d == 8 {
        '8'
    } else {
        '9'
    }
}

/// Whether `c` is a decimal digit character.
pub open spec fn is_digit_char(c: char) -> bool {
    c == '0' || c == '1' || c == '2' || c == '3' || c == '4' || c == '5' || c == '6' || c == '7'
        || c == '8' || c == '9'
}

/// The decimal digits of `n`, most significant first, with no sign and no
/// leading zeros (a single `'0'` for zero).
pub open spec fn spec_digits(n: nat) -> Seq<char>
    decreases n,
{
    if n < 10 {
        seq![spec_digit_char(n as int)]
    } else {
        spec_digits(n / 10) + seq![spec_digit_char((n % 10) as int)]
    }
}

/// The symbol printed for an operation.
pub open spec fn spec_op_symbol(op: MathOperation) -> char {
    match op {
        MathOperation::Addition => '+',
        MathOperation::Subtraction => '-',
        MathOperation::Multiplication => '*',
        MathOperation::Division => '/',
    }
}

/// How an operand is printed: its decimal digits, and a negative value is
/// wrapped in parentheses with its minus sign.
pub open spec fn spec_render_number(n: int) -> Seq<char> {
    if n < 0 {
        seq!['(', '-'] + spec_digits((-n) as nat) + seq![')']
    } else {
        spec_digits(n as nat)
    }
}

/// How an exercise is printed: the two operands around the operation's
/// symbol, separated by single spaces.
pub open spec fn spec_render_exercise(e: Exercise) -> Seq<char> {
    spec_render_number(e.first.value as int) + seq![' ', spec_op_symbol(e.operation), ' ']
        + spec_render_number(e.second.value as int)
}

/// The one-character string for a digit below ten.
fn digit_str(d: u8) -> (s: &'static str)
    requires
        d < 10,
    ensures
        s@ == seq![spec_digit_char(d as int)],
{
    proof {
        reveal_strlit("0");
        reveal_strlit("1");
        reveal_strlit("2");
        reveal_strlit("3");
        reveal_strlit("4");
        reveal_strlit("5");
        reveal_strlit("6");
        reveal_strlit("7");
        reveal_strlit("8");
        reveal_strlit("9");
    }
    let s: &'static str = if d == 0 {
        "0"
    } else if d == 1 {
        "1"
    } else if d == 2 {
        "2"
    } else if d == 3 {
        "3"
    } else if d == 4 {
        "4"
    } else if d == 5 {
        "5"
    } else if d == 6 {
        "6"
    } else if d == 7 {
        "7"
    } else if d == 8 {
        "8"
    } else {
        "9"
    };
    proof {
        assert(s@ =~= seq![spec_digit_char(d as int)]);
    }
    s
}

/// The decimal digits of `n`, most significant first.
fn digits_string(n: u8) -> (s: String)
    ensures
        s@ == spec_digits(n as nat),
    decreases n,
{
    if n < 10 {
        digit_str(n).to_owned()
    } else {
        let prefix = digits_string(n / 10);
        prefix.concat(digit_str(n % 10))
    }
}

/// The symbol printed for an operation, as a string.
pub fn symbol_str(op: MathOperation) -> (s: &'static str)
    ensures
        s@ == seq![spec_op_symbol(op)],
{
    proof {
        reveal_strlit("+");
        reveal_strlit("-");
        reveal_strlit("*");
        reveal_strlit("/");
    }
    let s: &'static str = match op {
        MathOperation::Addition => "+",
        MathOperation::Subtraction => "-",
        MathOperation::Multiplication => "*",
        MathOperation::Division => "/",
    };
    proof {
        assert(s@ =~= seq![spec_op_symbol(op)]);
    }
    s
}

/// Prints an operand: a non-negative value as its decimal digits, a negative
/// value wrapped in parentheses.
pub fn render_number(n: i8) -> (s: String)
    ensures
        s@ == spec_render_number(n as int),
{
    if n >= 0 {
        digits_string(n as u8)
    } else {
        proof {
            reveal_strlit("(-");
            reveal_strlit(")");
        }
        let magnitude: u8 = (-(n as i16)) as u8;
        let opened: String = "(-".to_owned();
        let with_digits = opened.concat(digits_string(magnitude).as_str());
        let closed = with_digits.concat(")");
        proof {
            assert("(-"@ =~= seq!['(', '-']);
            assert(")"@ =~= seq![')']);
            assert(closed@ =~= spec_render_number(n as int));
        }
        closed
    }
}

/// Prints a whole exercise, e.g. `7 - (-3)`.
pub fn render_exercise(e: &Exercise) -> (s: String)
    ensures
        s@ == spec_render_exercise(*e),
{
    proof {
        reveal_strlit(" ");
    }
    let first = render_number(e.first.value);
    let second = render_number(e.second.value);
    let s = first.concat(" ").concat(symbol_str(e.operation)).concat(" ").concat(second.as_str());
    proof {
        assert(" "@ =~= seq![' ']);
        assert(s@ =~= spec_render_exercise(*e));
    }
    s
}

/// Every character of a value's digit string is a decimal digit, and there
/// is at least one.
pub proof fn lemma_digits_are_digit_chars(n: nat)
    ensures
        spec_digits(n).len() >= 1,
        forall|i: int| 0 <= i < spec_digits(n).len() ==> is_digit_char(#[trigger] spec_digits(n)[i]),
    decreases n,
{
    if n >= 10 {
        lemma_digits_are_digit_chars(n / 10);
    }
}

/// A negative operand is rendered wrapped in parentheses; a non-negative
/// operand is rendered without any parenthesis.
pub proof fn lemma_render_number_parentheses(n: int)
    ensures
        n < 0 ==> spec_render_number(n).len() >= 4 && spec_render_number(n).first() == '('
            && spec_render_number(n).last() == ')',
        n >= 0 ==> forall|i: int|
            0 <= i < spec_render_number(n).len() ==> #[trigger] spec_render_number(n)[i] != '('
                && spec_render_number(n)[i] != ')',
{
    if n < 0 {
        lemma_digits_are_digit_chars((-n) as nat);
    } else {
        lemma_digits_are_digit_chars(n as nat);
        assert forall|i: int| 0 <= i < spec_render_number(n).len() implies #[trigger] spec_render_number(
            n,
        )[i] != '(' && spec_render_number(n)[i] != ')' by {
            assert(is_digit_char(spec_digits(n as nat)[i]));
        }
    }
}

} // verus!
