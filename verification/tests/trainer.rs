use math_trainer::check;
use math_trainer::generate;
use math_trainer::parse_answer;
use math_trainer::render_exercise;
use math_trainer::render_number;
use math_trainer::respond;
use math_trainer::solve_math_operation;
use math_trainer::symbol_str;
use math_trainer::Exercise;
use math_trainer::MathNumber;
use math_trainer::MathNumberDistribution;
use math_trainer::MathOperation;
use math_trainer::MathOperationDistribution;
use math_trainer::Reply;

fn exercise(first: i8, operation: MathOperation, second: i8) -> Exercise {
    Exercise {
        operation,
        first: MathNumber { value: first },
        second: MathNumber { value: second },
    }
}

#[test]
fn addition_is_exact() {
    let e = exercise(7, MathOperation::Addition, -3);
    assert_eq!(solve_math_operation(e.first, e.operation, e.second), 4);
}

#[test]
fn subtraction_is_exact() {
    let e = exercise(7, MathOperation::Subtraction, -3);
    assert_eq!(solve_math_operation(e.first, e.operation, e.second), 10);
}

#[test]
fn multiplication_is_exact() {
    let e = exercise(-8, MathOperation::Multiplication, 7);
    assert_eq!(solve_math_operation(e.first, e.operation, e.second), -56);
}

#[test]
fn multiplication_of_extremes_does_not_overflow() {
    let e = exercise(-128, MathOperation::Multiplication, -128);
    assert_eq!(solve_math_operation(e.first, e.operation, e.second), 16384);
}

#[test]
fn division_truncates_toward_zero() {
    assert_eq!(
        solve_math_operation(
            MathNumber { value: 5 },
            MathOperation::Division,
            MathNumber { value: 3 }
        ),
        1
    );
    assert_eq!(
        solve_math_operation(
            MathNumber { value: -7 },
            MathOperation::Division,
            MathNumber { value: 2 }
        ),
        -3
    );
    assert_eq!(
        solve_math_operation(
            MathNumber { value: 7 },
            MathOperation::Division,
            MathNumber { value: -2 }
        ),
        -3
    );
    assert_eq!(
        solve_math_operation(
            MathNumber { value: -7 },
            MathOperation::Division,
            MathNumber { value: -2 }
        ),
        3
    );
}

#[test]
fn check_is_exact_equality() {
    let e = exercise(7, MathOperation::Subtraction, -3);
    assert!(check(10, &e));
    assert!(!check(9, &e));
    assert!(!check(11, &e));
}

#[test]
fn negative_operands_render_parenthesized() {
    assert_eq!(render_number(-7).as_str(), "(-7)");
    assert_eq!(render_number(-128).as_str(), "(-128)");
    assert_eq!(render_number(-10).as_str(), "(-10)");
}

#[test]
fn non_negative_operands_render_bare() {
    assert_eq!(render_number(0).as_str(), "0");
    assert_eq!(render_number(7).as_str(), "7");
    assert_eq!(render_number(127).as_str(), "127");
}

#[test]
fn operation_symbols() {
    assert_eq!(symbol_str(MathOperation::Addition), "+");
    assert_eq!(symbol_str(MathOperation::Subtraction), "-");
    assert_eq!(symbol_str(MathOperation::Multiplication), "*");
    assert_eq!(symbol_str(MathOperation::Division), "/");
}

#[test]
fn exercise_renders_with_spaces_and_parentheses() {
    let e = exercise(7, MathOperation::Subtraction, -3);
    assert_eq!(render_exercise(&e).as_str(), "7 - (-3)");
    let d = exercise(-10, MathOperation::Division, 4);
    assert_eq!(render_exercise(&d).as_str(), "(-10) / 4");
}

#[test]
fn parse_accepts_plain_and_signed_numerals() {
    assert_eq!(parse_answer(&b"10".to_vec()), Some(10));
    assert_eq!(parse_answer(&b"0".to_vec()), Some(0));
    assert_eq!(parse_answer(&b"+5".to_vec()), Some(5));
    assert_eq!(parse_answer(&b"-3".to_vec()), Some(-3));
    assert_eq!(parse_answer(&b"007".to_vec()), Some(7));
    assert_eq!(parse_answer(&b"-32768".to_vec()), Some(-32768));
    assert_eq!(parse_answer(&b"32767".to_vec()), Some(32767));
}

#[test]
fn parse_rejects_malformed_and_out_of_range_input() {
    assert_eq!(parse_answer(&b"".to_vec()), None);
    assert_eq!(parse_answer(&b"abc".to_vec()), None);
    assert_eq!(parse_answer(&b"1a".to_vec()), None);
    assert_eq!(parse_answer(&b"-".to_vec()), None);
    assert_eq!(parse_answer(&b"+".to_vec()), None);
    assert_eq!(parse_answer(&b"+-3".to_vec()), None);
    assert_eq!(parse_answer(&b"3 4".to_vec()), None);
    assert_eq!(parse_answer(&b"32768".to_vec()), None);
    assert_eq!(parse_answer(&b"-32769".to_vec()), None);
    assert_eq!(parse_answer(&b"99999".to_vec()), None);
}

#[test]
fn session_round_follows_the_scenario() {
    let e = exercise(7, MathOperation::Subtraction, -3);
    assert_eq!(render_exercise(&e).as_str(), "7 - (-3)");
    assert_eq!(solve_math_operation(e.first, e.operation, e.second), 10);
    assert_eq!(respond(&b"10\n".to_vec(), &e), Reply::Correct);
    assert_eq!(respond(&b"9\n".to_vec(), &e), Reply::Wrong);
    assert_eq!(respond(&b"abc\n".to_vec(), &e), Reply::Invalid);
    assert_eq!(respond(&b"exit\n".to_vec(), &e), Reply::Exit);
}

#[test]
fn session_trims_surrounding_whitespace() {
    let e = exercise(5, MathOperation::Division, 3);
    assert_eq!(respond(&b"  1 \r\n".to_vec(), &e), Reply::Correct);
    assert_eq!(respond(&b"\t exit \n".to_vec(), &e), Reply::Exit);
    assert_eq!(respond(&b"   \n".to_vec(), &e), Reply::Invalid);
    assert_eq!(respond(&b"exit now\n".to_vec(), &e), Reply::Invalid);
    assert_eq!(respond(&b"Exit\n".to_vec(), &e), Reply::Invalid);
}

#[test]
fn generated_operands_stay_in_the_declared_ranges() {
    let presets = [
        MathNumberDistribution::easy(),
        MathNumberDistribution::normal(),
        MathNumberDistribution::hard(),
    ];
    for preset in presets.iter() {
        for _ in 0..500 {
            let e = generate(preset);
            assert!(preset.lo <= e.first.value && e.first.value < preset.hi);
            assert!(preset.lo <= e.second.value && e.second.value < preset.hi);
        }
    }
}

#[test]
fn generated_division_never_has_a_zero_divisor() {
    let easy = MathNumberDistribution::easy();
    let mut saw_division = false;
    for _ in 0..2000 {
        let e = generate(&easy);
        if e.operation == MathOperation::Division {
            saw_division = true;
            assert_ne!(e.second.value, 0);
        }
        assert!(e.is_well_formed());
    }
    assert!(saw_division);
}

#[test]
fn operation_sampling_reaches_every_operation() {
    let dist = MathOperationDistribution {};
    let mut seen = [false; 4];
    for _ in 0..1000 {
        match dist.sample() {
            MathOperation::Addition => seen[0] = true,
            MathOperation::Subtraction => seen[1] = true,
            MathOperation::Multiplication => seen[2] = true,
            MathOperation::Division => seen[3] = true,
        }
    }
    assert!(seen.iter().all(|s| *s));
}

#[test]
fn number_sampling_varies_within_the_range() {
    let easy = MathNumberDistribution::easy();
    let mut distinct = std::collections::HashSet::new();
    for _ in 0..1000 {
        let n = easy.sample();
        assert!(easy.lo <= n.value && n.value < easy.hi);
        distinct.insert(n.value);
    }
    assert!(distinct.len() > 5);
}

#[test]
fn difficulty_presets_hold_their_documented_ranges() {
    let easy = MathNumberDistribution::easy();
    assert_eq!((easy.lo, easy.hi), (-10, 20));
    let normal = MathNumberDistribution::normal();
    assert_eq!((normal.lo, normal.hi), (-30, 30));
    let hard = MathNumberDistribution::hard();
    assert_eq!((hard.lo, hard.hi), (i8::MIN, i8::MAX));
    let default = MathNumberDistribution::default();
    assert_eq!((default.lo, default.hi), (-10, 20));
}

#[test]
fn division_scenario_expected_result() {
    let e = exercise(5, MathOperation::Division, 3);
    assert!(e.is_well_formed());
    assert_eq!(solve_math_operation(e.first, e.operation, e.second), 1);
    assert!(check(1, &e));
    assert!(!check(2, &e));
}
